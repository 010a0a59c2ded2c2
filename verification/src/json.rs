//! JSON values, and the way from raw bytes to them.

use crate::float::F64;
use crate::text::same;
use vstd::prelude::*;

verus! {

/// A JSON number, by the two readings that the bridge makes of it.
#[derive(Clone, Copy, Debug)]
pub struct Number {
    /// The number as a 64-bit integer, where it is one.
    pub int: Option<i64>,
    /// The number as a double, where it can be read as one.
    pub float: Option<F64>,
}

/// A JSON value.
#[derive(Debug)]
pub enum Json {
    /// `null`.
    Null,
    /// `true` or `false`.
    Bool(bool),
    /// A number.
    Number(Number),
    /// A string.
    Text(String),
    /// A list of values.
    Array(Vec<Json>),
    /// Named values, in the order in which they are walked.
    Object(Vec<(String, Json)>),
}

/// What a JSON value holds.
pub enum Tree {
    /// `null`.
    Null,
    /// `true` or `false`.
    Bool(bool),
    /// A number.
    Number(Number),
    /// A string.
    Text(Seq<char>),
    /// A list of values.
    Array(Seq<Tree>),
    /// Named values, in the order in which they are walked.
    Object(Seq<(Seq<char>, Tree)>),
}

impl Json {
    /// What the value holds.
    pub open spec fn tree(self) -> Tree
        decreases self,
    {
        match self {
            Json::Null => Tree::Null,
            Json::Bool(b) => Tree::Bool(b),
            Json::Number(n) => Tree::Number(n),
            Json::Text(s) => Tree::Text(s@),
            Json::Array(items) => Tree::Array(
                Seq::new(
                    items@.len(),
                    |i: int|
                        if 0 <= i < items@.len() {
                            items@[i].tree()
                        } else {
                            Tree::Null
                        },
                ),
            ),
            Json::Object(entries) => Tree::Object(
                Seq::new(
                    entries@.len(),
                    |i: int|
                        if 0 <= i < entries@.len() {
                            (entries@[i].0@, entries@[i].1.tree())
                        } else {
                            (Seq::empty(), Tree::Null)
                        },
                ),
            ),
        }
    }
}

impl View for Json {
    type V = Tree;

    open spec fn view(&self) -> Tree {
        self.tree()
    }
}

/// Whether no two of the entries have the same name.
pub open spec fn distinct_names(entries: Seq<(Seq<char>, Tree)>) -> bool {
    forall|i: int, j: int|
        0 <= i < j < entries.len() ==> (#[trigger] entries[i]).0 != (#[trigger] entries[j]).0
}

impl Tree {
    /// No object, at any depth, has two entries of the same name.
    pub open spec fn well_formed(self) -> bool
        decreases self,
    {
        match self {
            Tree::Array(items) => forall|i: int|
                0 <= i < items.len() ==> (#[trigger] items[i]).well_formed(),
            Tree::Object(entries) => distinct_names(entries) && forall|i: int|
                0 <= i < entries.len() ==> (#[trigger] entries[i]).1.well_formed(),
            _ => true,
        }
    }

    /// The value of the first entry called `name`, where this is an object that has one.
    pub open spec fn get(self, name: Seq<char>) -> Option<Tree> {
        match self {
            Tree::Object(entries) => entry_named(entries, name),
            _ => None,
        }
    }
}

/// The value of the first entry called `name`.
pub open spec fn entry_named(entries: Seq<(Seq<char>, Tree)>, name: Seq<char>) -> Option<Tree>
    decreases entries.len(),
{
    if entries.len() == 0 {
        None
    } else if entries[0].0 == name {
        Some(entries[0].1)
    } else {
        entry_named(entries.drop_first(), name)
    }
}

/// In a well-formed object an entry is found under its name, wherever it stands.
pub proof fn lemma_get_finds_entry(entries: Seq<(Seq<char>, Tree)>, i: int)
    requires
        distinct_names(entries),
        0 <= i < entries.len(),
    ensures
        Tree::Object(entries).get(entries[i].0) == Some(entries[i].1),
    decreases entries.len(),
{
    if i > 0 {
        let rest = entries.drop_first();
        assert forall|a: int, b: int| 0 <= a < b < rest.len() implies (#[trigger] rest[a]).0 != (
        #[trigger] rest[b]).0 by {
            assert(entries[a + 1].0 != entries[b + 1].0);
        }
        assert(entries[0].0 != entries[i].0);
        lemma_get_finds_entry(rest, i - 1);
    }
}

impl Json {
    /// The value of the first entry called `name`, where this is an object that has one.
    pub fn get(&self, name: &str) -> (r: Option<&Json>)
        ensures
            match r {
                Some(v) => self@.get(name@) == Some(v@),
                None => self@.get(name@) is None,
            },
            r matches Some(v) ==> decreases_to!(*self => *v),
    {
        match self {
            Json::Object(entries) => {
                let ghost all = self@->Object_0;
                assert(all.skip(0) == all);
                let mut i: usize = 0;
                while i < entries.len()
                    invariant
                        *self == Json::Object(*entries),
                        i <= entries@.len(),
                        all == self@->Object_0,
                        self@ == Tree::Object(all),
                        all.len() == entries@.len(),
                        entry_named(all, name@) == entry_named(all.skip(i as int), name@),
                    decreases entries@.len() - i,
                {
                    assert(all.skip(i as int)[0] == all[i as int]);
                    assert(all[i as int] == (entries@[i as int].0@, entries@[i as int].1@));
                    assert(all.skip(i as int).drop_first() == all.skip(i + 1));
                    if same(entries[i].0.as_str(), name) {
                        return Some(&entries[i].1);
                    }
                    i += 1;
                }
                None
            },
            _ => None,
        }
    }
}

/// The value type of `serde_json`.
#[verifier::external_type_specification]
#[verifier::external_body]
pub struct ExValue(serde_json::Value);

/// What a `serde_json::Value` holds: the variant with its contents, an object's
/// entries in the order in which its map is walked, and of a number what
/// `Number::as_i64` and the bits of `Number::as_f64` give.
pub uninterp spec fn value_tree(v: serde_json::Value) -> Tree;

/// What `serde_json::from_slice` makes of the bytes; `None` where they are not JSON.
pub uninterp spec fn parsed_tree(data: Seq<u8>) -> Option<Tree>;

/// The outermost layer of a `serde_json::Value`.
enum Layer {
    Null,
    Bool(bool),
    Number(Number),
    Text(String),
    Array(Vec<serde_json::Value>),
    Object(Vec<(String, serde_json::Value)>),
}

impl Layer {
    spec fn is_layer_of(self, t: Tree) -> bool {
        match self {
            Layer::Null => t == Tree::Null,
            Layer::Bool(b) => t == Tree::Bool(b),
            Layer::Number(n) => t == Tree::Number(n),
            Layer::Text(s) => t == Tree::Text(s@),
            Layer::Array(items) => t == Tree::Array(
                items@.map_values(|v: serde_json::Value| value_tree(v)),
            ),
            Layer::Object(entries) => t == Tree::Object(
                entries@.map_values(|e: (String, serde_json::Value)| (e.0@, value_tree(e.1))),
            ) && distinct_names(t->Object_0),
        }
    }
}

/// `serde_json::from_slice` reads one JSON value: its result is a function of the
/// bytes alone.
#[verifier::external_body]
fn from_slice(data: &[u8]) -> (r: Option<serde_json::Value>)
    ensures
        match r {
            Some(v) => parsed_tree(data@) == Some(value_tree(v)),
            None => parsed_tree(data@) is None,
        },
{
    serde_json::from_slice(data).ok()
}

/// Takes a `serde_json::Value` apart by its variant. The entries of an object come
/// out of its `Map`, which holds each name once; in which order they come depends on
/// the features that `serde_json` is built with, and is left open.
#[verifier::external_body]
fn layer(v: serde_json::Value) -> (r: Layer)
    ensures
        r.is_layer_of(value_tree(v)),
{
    match v {
        serde_json::Value::Null => Layer::Null,
        serde_json::Value::Bool(b) => Layer::Bool(b),
        serde_json::Value::Number(n) => Layer::Number(
            Number { int: n.as_i64(), float: n.as_f64().map(|x| F64 { bits: x.to_bits() }) },
        ),
        serde_json::Value::String(s) => Layer::Text(s),
        serde_json::Value::Array(items) => Layer::Array(items),
        serde_json::Value::Object(map) => Layer::Object(map.into_iter().collect()),
    }
}

fn from_value(v: serde_json::Value) -> (r: Json)
    ensures
        r@ == value_tree(v),
        r@.well_formed(),
    decreases value_tree(v),
{
    match layer(v) {
        Layer::Null => Json::Null,
        Layer::Bool(b) => Json::Bool(b),
        Layer::Number(n) => Json::Number(n),
        Layer::Text(s) => Json::Text(s),
        Layer::Array(items) => {
            let ghost all = items@;
            let ghost trees = value_tree(v)->Array_0;
            let mut out: Vec<Json> = Vec::new();
            for item in it: items.into_iter()
                invariant
                    it.seq() == all,
                    value_tree(v) == Tree::Array(trees),
                    trees == all.map_values(|v: serde_json::Value| value_tree(v)),
                    out@.len() == it.index(),
                    forall|k: int|
                        0 <= k < out@.len() ==> (#[trigger] out@[k])@ == trees[k],
                    forall|k: int| 0 <= k < out@.len() ==> (#[trigger] trees[k]).well_formed(),
            {
                assert(trees[it.index() as int] == value_tree(item));
                assert(decreases_to!(value_tree(v) => value_tree(v)->Array_0));
                assert(decreases_to!(trees => trees[it.index() as int]));
                out.push(from_value(item));
            }
            let r = Json::Array(out);
            assert(r@->Array_0 == trees);
            r
        },
        Layer::Object(entries) => {
            let ghost all = entries@;
            let ghost trees = value_tree(v)->Object_0;
            let mut out: Vec<(String, Json)> = Vec::new();
            for entry in it: entries.into_iter()
                invariant
                    it.seq() == all,
                    value_tree(v) == Tree::Object(trees),
                    trees == all.map_values(
                        |e: (String, serde_json::Value)| (e.0@, value_tree(e.1)),
                    ),
                    out@.len() == it.index(),
                    forall|k: int|
                        0 <= k < out@.len() ==> ((#[trigger] out@[k]).0@, out@[k].1@) == trees[k],
                    forall|k: int| 0 <= k < out@.len() ==> (#[trigger] trees[k]).1.well_formed(),
            {
                let (name, value) = entry;
                assert(trees[it.index() as int] == (name@, value_tree(value)));
                assert(decreases_to!(value_tree(v) => value_tree(v)->Object_0));
                assert(decreases_to!(trees => trees[it.index() as int]));
                assert(decreases_to!(trees[it.index() as int] => trees[it.index() as int].1));
                out.push((name, from_value(value)));
            }
            let r = Json::Object(out);
            assert(r@->Object_0 == trees);
            r
        },
    }
}

/// Reads one JSON value from raw bytes.
pub fn parse(data: &[u8]) -> (r: Option<Json>)
    ensures
        match r {
            Some(v) => parsed_tree(data@) == Some(v@) && v@.well_formed(),
            None => parsed_tree(data@) is None,
        },
{
    match from_slice(data) {
        Some(v) => Some(from_value(v)),
        None => None,
    }
}

/// What is found under a name is the value of the first entry of that name; nothing is
/// found where there is no such entry, or no object.
pub proof fn law_get_finds_the_first(t: Tree, name: Seq<char>)
    ensures
        t is Object ==> ({
            let entries = t->Object_0;
            match t.get(name) {
                Some(value) => exists|i: int|
                    0 <= i < entries.len() && (#[trigger] entries[i]).0 == name && entries[i].1
                        == value && (forall|k: int|
                        0 <= k < i ==> (#[trigger] entries[k]).0 != name),
                None => forall|k: int|
                    0 <= k < entries.len() ==> (#[trigger] entries[k]).0 != name,
            }
        }),
        !(t is Object) ==> t.get(name) is None,
{
    if let Tree::Object(entries) = t {
        lemma_entry_named_is_first(entries, name);
    }
}

proof fn lemma_entry_named_is_first(entries: Seq<(Seq<char>, Tree)>, name: Seq<char>)
    ensures
        match entry_named(entries, name) {
            Some(value) => exists|i: int|
                0 <= i < entries.len() && (#[trigger] entries[i]).0 == name && entries[i].1 == value
                    && (forall|k: int| 0 <= k < i ==> (#[trigger] entries[k]).0 != name),
            None => forall|k: int| 0 <= k < entries.len() ==> (#[trigger] entries[k]).0 != name,
        },
    decreases entries.len(),
{
    if entries.len() > 0 && entries[0].0 != name {
        let rest = entries.drop_first();
        lemma_entry_named_is_first(rest, name);
        assert forall|k: int| 0 < k < entries.len() implies #[trigger] entries[k] == rest[k
            - 1] by {}
        if let Some(value) = entry_named(rest, name) {
            let i = choose|i: int|
                0 <= i < rest.len() && (#[trigger] rest[i]).0 == name && rest[i].1 == value && (
                forall|k: int| 0 <= k < i ==> (#[trigger] rest[k]).0 != name);
            assert(entries[i + 1] == rest[i]);
            assert forall|k: int| 0 <= k < i + 1 implies (#[trigger] entries[k]).0 != name by {
                if k > 0 {
                    assert(rest[k - 1].0 != name);
                }
            }
        }
    }
}

/// A JSON value holds what it is made of: its truth value, number or characters, its
/// items in their order, or its entries in theirs.
pub proof fn law_json_holds_its_parts(
    b: bool,
    n: Number,
    s: String,
    items: Vec<Json>,
    entries: Vec<(String, Json)>,
)
    ensures
        Json::Null@ == Tree::Null,
        Json::Bool(b)@ == Tree::Bool(b),
        Json::Number(n)@ == Tree::Number(n),
        Json::Text(s)@ == Tree::Text(s@),
        Json::Array(items)@ == Tree::Array(items@.map_values(|v: Json| v@)),
        Json::Object(entries)@ == Tree::Object(
            entries@.map_values(|e: (String, Json)| (e.0@, e.1@)),
        ),
{
    let list = Json::Array(items);
    let object = Json::Object(entries);
    assert(list@->Array_0 =~= items@.map_values(|v: Json| v@));
    assert(object@->Object_0 =~= entries@.map_values(|e: (String, Json)| (e.0@, e.1@)));
}

/// A value is well-formed where each part of it is, and no name stands twice in an
/// object.
pub proof fn law_well_formed_has_no_name_twice(entries: Seq<(Seq<char>, Tree)>, i: int, j: int)
    requires
        Tree::Object(entries).well_formed(),
        0 <= i < j < entries.len(),
    ensures
        entries[i].0 != entries[j].0,
        entries[i].1.well_formed(),
        entries[j].1.well_formed(),
{
    assert(entries[i].0 != entries[j].0);
}

} // verus!
