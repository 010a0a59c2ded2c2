//! Turns any inbound JSON value into protocol-neutral messages.
//!
//! Two rules apply, in this order. A frame with an `osc` envelope is forwarded
//! verbatim. Any other frame is flattened: every number, truth value and string in
//! it becomes a message whose address is the path to it.

use crate::config::OscConfig;
use crate::float::F64;
use crate::json::{distinct_names, lemma_get_finds_entry, Json, Number, Tree};
use crate::message::{arg_views, message_views, Arg, ArgView, BridgeMessage, MessageView};
use crate::text::{
    decimal, law_trimmed_end_of_is_the_start, same, to_decimal, trim_end_of, trimmed_end_of,
};
use vstd::prelude::*;

verus! {

/// The names of transport metadata, which never carry payload.
pub open spec fn metadata_name(name: Seq<char>) -> bool {
    ||| name == "type"@
    ||| name == "t"@
    ||| name == "ts"@
    ||| name == "viewerId"@
    ||| name == "viewer_id"@
    ||| name == "from"@
    ||| name == "to"@
    ||| name == "color"@
    ||| name == "name"@
    ||| name == "list"@
    ||| name == "viewers"@
    ||| name == "data"@
}

fn is_metadata_name(name: &str) -> (r: bool)
    ensures
        r == metadata_name(name@),
{
    same(name, "type") || same(name, "t") || same(name, "ts") || same(name, "viewerId") || same(
        name,
        "viewer_id",
    ) || same(name, "from") || same(name, "to") || same(name, "color") || same(name, "name")
        || same(name, "list") || same(name, "viewers") || same(name, "data")
}

/// The address one step below `prefix`.
pub open spec fn joined(prefix: Seq<char>, segment: Seq<char>) -> Seq<char> {
    trimmed_end_of(prefix, '/') + seq!['/'] + segment
}

/// The address one step below `prefix`: one slash stands between the two.
pub fn join(prefix: &str, segment: &str) -> (r: String)
    ensures
        r@ == joined(prefix@, segment@),
{
    let mut out = trim_end_of(prefix, '/');
    out.push('/');
    out.append(segment);
    assert(out@ == joined(prefix@, segment@));
    out
}

/// The argument that a number becomes when it is flattened.
pub open spec fn number_arg(n: Number) -> ArgView {
    match (n.float, n.int) {
        (Some(f), _) => ArgView::Float(f),
        (None, Some(i)) => ArgView::Int(i),
        (None, None) => ArgView::Float(F64 { bits: 0 }),
    }
}

/// The one message of a single value that stands at `address`.
pub open spec fn leaf(address: Seq<char>, arg: ArgView) -> Seq<MessageView> {
    seq![MessageView { address, args: seq![arg] }]
}

/// The messages of a value that stands at `prefix`.
pub open spec fn flattened(prefix: Seq<char>, t: Tree) -> Seq<MessageView>
    decreases t, 0nat,
{
    match t {
        Tree::Null => Seq::empty(),
        Tree::Bool(b) => leaf(prefix, ArgView::Bool(b)),
        Tree::Number(n) => leaf(prefix, number_arg(n)),
        Tree::Text(s) => leaf(prefix, ArgView::Str(s)),
        Tree::Array(items) => flattened_items(prefix, items, items.len()),
        Tree::Object(entries) => flattened_entries(prefix, entries, entries.len()),
    }
}

/// The messages of the first `n` items of a list that stands at `prefix`.
pub open spec fn flattened_items(prefix: Seq<char>, items: Seq<Tree>, n: nat) -> Seq<MessageView>
    decreases items, n,
    when n <= items.len()
{
    if n == 0 {
        Seq::empty()
    } else {
        let i = (n - 1) as nat;
        flattened_items(prefix, items, i) + flattened(joined(prefix, decimal(i)), items[i as int])
    }
}

/// The messages of the first `n` entries of an object that stands at `prefix`.
pub open spec fn flattened_entries(
    prefix: Seq<char>,
    entries: Seq<(Seq<char>, Tree)>,
    n: nat,
) -> Seq<MessageView>
    decreases entries, n,
    when n <= entries.len()
{
    if n == 0 {
        Seq::empty()
    } else {
        let (name, value) = entries[n - 1];
        let before = flattened_entries(prefix, entries, (n - 1) as nat);
        if metadata_name(name) {
            before
        } else {
            before + flattened(joined(prefix, name), value)
        }
    }
}

/// Appends a message with one argument.
fn push_leaf(out: &mut Vec<BridgeMessage>, address: &str, arg: Arg)
    ensures
        message_views(final(out)@) == message_views(old(out)@) + leaf(address@, arg@),
{
    let ghost before = out@;
    let mut args: Vec<Arg> = Vec::new();
    args.push(arg);
    assert(arg_views(args@) == seq![arg@]);
    out.push(BridgeMessage::new(address.to_owned(), args));
    assert(message_views(out@) == message_views(before).push(out@.last()@));
}

/// Appends the messages of a value that stands at `prefix`.
pub fn flatten(prefix: &str, v: &Json, out: &mut Vec<BridgeMessage>)
    ensures
        message_views(final(out)@) == message_views(old(out)@) + flattened(prefix@, v@),
    decreases *v,
{
    match v {
        Json::Object(entries) => {
            let ghost trees = v@->Object_0;
            let ghost before = message_views(out@);
            let mut i: usize = 0;
            while i < entries.len()
                invariant
                    *v == Json::Object(*entries),
                    v@ == Tree::Object(trees),
                    trees.len() == entries@.len(),
                    i <= entries@.len(),
                    before == message_views(old(out)@),
                    message_views(out@) == before + flattened_entries(prefix@, trees, i as nat),
                decreases entries@.len() - i,
            {
                assert(trees[i as int] == (entries@[i as int].0@, entries@[i as int].1@));
                if !is_metadata_name(entries[i].0.as_str()) {
                    let address = join(prefix, entries[i].0.as_str());
                    flatten(address.as_str(), &entries[i].1, out);
                }
                i += 1;
                assert(message_views(out@) == before + flattened_entries(prefix@, trees, i as nat));
            }
        },
        Json::Array(items) => {
            let ghost trees = v@->Array_0;
            let ghost before = message_views(out@);
            let mut i: usize = 0;
            while i < items.len()
                invariant
                    *v == Json::Array(*items),
                    v@ == Tree::Array(trees),
                    trees.len() == items@.len(),
                    i <= items@.len(),
                    before == message_views(old(out)@),
                    message_views(out@) == before + flattened_items(prefix@, trees, i as nat),
                decreases items@.len() - i,
            {
                assert(trees[i as int] == items@[i as int]@);
                let index = to_decimal(i as u64);
                let address = join(prefix, index.as_str());
                flatten(address.as_str(), &items[i], out);
                i += 1;
                assert(message_views(out@) == before + flattened_items(prefix@, trees, i as nat));
            }
        },
        Json::Number(n) => {
            let arg = match n.float {
                Some(f) => Arg::Float(f),
                None => match n.int {
                    Some(i) => Arg::Int(i),
                    None => Arg::Float(F64 { bits: 0 }),
                },
            };
            push_leaf(out, prefix, arg);
        },
        Json::Bool(b) => {
            push_leaf(out, prefix, Arg::Bool(*b));
        },
        Json::Text(s) => {
            push_leaf(out, prefix, Arg::Str(s.clone()));
        },
        Json::Null => {
            assert(message_views(out@) == message_views(out@) + Seq::<MessageView>::empty());
        },
    }
}

/// The argument that a value is in an envelope: an integer where it can be one.
pub open spec fn envelope_arg(t: Tree) -> Option<ArgView> {
    match t {
        Tree::Bool(b) => Some(ArgView::Bool(b)),
        Tree::Number(n) => match (n.int, n.float) {
            (Some(i), _) => Some(ArgView::Int(i)),
            (None, Some(f)) => Some(ArgView::Float(f)),
            (None, None) => None,
        },
        Tree::Text(s) => Some(ArgView::Str(s)),
        _ => None,
    }
}

/// The arguments of an envelope: a list, each item of which is an argument.
pub open spec fn envelope_args(t: Tree) -> Option<Seq<ArgView>> {
    match t {
        Tree::Array(items) => if forall|i: int|
            0 <= i < items.len() ==> envelope_arg(#[trigger] items[i]) is Some {
            Some(items.map_values(|t: Tree| envelope_arg(t)->0))
        } else {
            None
        },
        _ => None,
    }
}

/// The message that the address and the arguments of an envelope make.
pub open spec fn envelope_parts(address: Option<Tree>, args: Option<Tree>) -> Option<MessageView> {
    match (address, args) {
        (Some(Tree::Text(address)), None) => Some(MessageView { address, args: Seq::empty() }),
        (Some(Tree::Text(address)), Some(args)) => match envelope_args(args) {
            Some(args) => Some(MessageView { address, args }),
            None => None,
        },
        _ => None,
    }
}

/// The message that an envelope names: an object with an `address` and, if it likes,
/// `args`, or a list of the same one or two values. Other entries of an object do
/// not matter.
pub open spec fn envelope_message(t: Tree) -> Option<MessageView> {
    match t {
        Tree::Object(_) => envelope_parts(t.get("address"@), t.get("args"@)),
        Tree::Array(items) => if items.len() == 1 {
            envelope_parts(Some(items[0]), None)
        } else if items.len() == 2 {
            envelope_parts(Some(items[0]), Some(items[1]))
        } else {
            None
        },
        _ => None,
    }
}

/// The messages of the `osc` field of a frame: those of one envelope, or of a list of
/// envelopes, all of which must be in order.
pub open spec fn envelope_messages(t: Tree) -> Option<Seq<MessageView>> {
    match t {
        Tree::Object(_) => match envelope_message(t) {
            Some(m) => Some(seq![m]),
            None => None,
        },
        Tree::Array(items) => if forall|i: int|
            0 <= i < items.len() ==> envelope_message(#[trigger] items[i]) is Some {
            Some(items.map_values(|t: Tree| envelope_message(t)->0))
        } else {
            None
        },
        _ => None,
    }
}

fn parse_arg(v: &Json) -> (r: Option<Arg>)
    ensures
        match r {
            Some(a) => envelope_arg(v@) == Some(a@),
            None => envelope_arg(v@) is None,
        },
{
    match v {
        Json::Bool(b) => Some(Arg::Bool(*b)),
        Json::Number(n) => match n.int {
            Some(i) => Some(Arg::Int(i)),
            None => match n.float {
                Some(f) => Some(Arg::Float(f)),
                None => None,
            },
        },
        Json::Text(s) => Some(Arg::Str(s.clone())),
        _ => None,
    }
}

fn parse_args(v: &Json) -> (r: Option<Vec<Arg>>)
    ensures
        match r {
            Some(args) => envelope_args(v@) == Some(arg_views(args@)),
            None => envelope_args(v@) is None,
        },
{
    match v {
        Json::Array(items) => {
            let ghost trees = v@->Array_0;
            let mut out: Vec<Arg> = Vec::new();
            let mut i: usize = 0;
            while i < items.len()
                invariant
                    *v == Json::Array(*items),
                    v@ == Tree::Array(trees),
                    trees.len() == items@.len(),
                    i <= items@.len(),
                    out@.len() == i,
                    forall|k: int|
                        0 <= k < i ==> envelope_arg(#[trigger] trees[k]) == Some(out@[k]@),
                decreases items@.len() - i,
            {
                assert(trees[i as int] == items@[i as int]@);
                match parse_arg(&items[i]) {
                    Some(a) => {
                        out.push(a);
                    },
                    None => {
                        return None;
                    },
                }
                i += 1;
            }
            assert(arg_views(out@) == trees.map_values(|t: Tree| envelope_arg(t)->0));
            Some(out)
        },
        _ => None,
    }
}

fn parse_parts(address: Option<&Json>, args: Option<&Json>) -> (r: Option<BridgeMessage>)
    ensures
        ({
            let a = match address {
                Some(v) => Some(v@),
                None => None,
            };
            let b = match args {
                Some(v) => Some(v@),
                None => None,
            };
            match r {
                Some(m) => envelope_parts(a, b) == Some(m@),
                None => envelope_parts(a, b) is None,
            }
        }),
{
    let address = match address {
        Some(Json::Text(s)) => s.clone(),
        _ => {
            return None;
        },
    };
    match args {
        Some(v) => match parse_args(v) {
            Some(args) => Some(BridgeMessage::new(address, args)),
            None => None,
        },
        None => {
            let none: Vec<Arg> = Vec::new();
            assert(arg_views(none@) == Seq::<ArgView>::empty());
            Some(BridgeMessage::new(address, none))
        },
    }
}

fn parse_message(v: &Json) -> (r: Option<BridgeMessage>)
    ensures
        match r {
            Some(m) => envelope_message(v@) == Some(m@),
            None => envelope_message(v@) is None,
        },
{
    match v {
        Json::Object(_) => parse_parts(v.get("address"), v.get("args")),
        Json::Array(items) => {
            if items.len() == 1 {
                assert(v@->Array_0[0] == items@[0]@);
                parse_parts(Some(&items[0]), None)
            } else if items.len() == 2 {
                assert(v@->Array_0[0] == items@[0]@);
                assert(v@->Array_0[1] == items@[1]@);
                parse_parts(Some(&items[0]), Some(&items[1]))
            } else {
                None
            }
        },
        _ => None,
    }
}

/// Reads one envelope, or a list of them.
pub fn parse_osc_envelope(v: &Json) -> (r: Option<Vec<BridgeMessage>>)
    ensures
        match r {
            Some(messages) => envelope_messages(v@) == Some(message_views(messages@)),
            None => envelope_messages(v@) is None,
        },
{
    match v {
        Json::Object(_) => match parse_message(v) {
            Some(m) => {
                let mut out: Vec<BridgeMessage> = Vec::new();
                out.push(m);
                assert(message_views(out@) == seq![m@]);
                Some(out)
            },
            None => None,
        },
        Json::Array(items) => {
            let ghost trees = v@->Array_0;
            let mut out: Vec<BridgeMessage> = Vec::new();
            let mut i: usize = 0;
            while i < items.len()
                invariant
                    *v == Json::Array(*items),
                    v@ == Tree::Array(trees),
                    trees.len() == items@.len(),
                    i <= items@.len(),
                    out@.len() == i,
                    forall|k: int|
                        0 <= k < i ==> envelope_message(#[trigger] trees[k]) == Some(out@[k]@),
                decreases items@.len() - i,
            {
                assert(trees[i as int] == items@[i as int]@);
                match parse_message(&items[i]) {
                    Some(m) => {
                        out.push(m);
                    },
                    None => {
                        return None;
                    },
                }
                i += 1;
            }
            assert(message_views(out@) == trees.map_values(|t: Tree| envelope_message(t)->0));
            Some(out)
        },
        _ => None,
    }
}

/// The messages of the envelope that a frame holds, if it holds one in order.
pub open spec fn explicit_messages(t: Tree) -> Option<Seq<MessageView>> {
    match t.get("osc"@) {
        Some(field) => envelope_messages(field),
        None => None,
    }
}

/// The messages of a frame.
pub open spec fn inbound_messages(t: Tree, prefix: Seq<char>, flatten: bool) -> Seq<MessageView> {
    match explicit_messages(t) {
        Some(messages) => messages,
        None => if flatten {
            flattened(prefix, t)
        } else {
            Seq::empty()
        },
    }
}

/// Maps one inbound value to messages: those of its envelope where it has one in
/// order, else those of its leaves where flattening is on, else none.
pub fn map_inbound(json: &Json, osc: &OscConfig) -> (r: Vec<BridgeMessage>)
    ensures
        message_views(r@) == inbound_messages(json@, osc.prefix@, osc.flatten),
{
    if let Some(field) = json.get("osc") {
        if let Some(messages) = parse_osc_envelope(field) {
            return messages;
        }
    }
    let mut out: Vec<BridgeMessage> = Vec::new();
    assert(message_views(out@) == Seq::<MessageView>::empty());
    if osc.flatten {
        flatten(osc.prefix.as_str(), json, &mut out);
        assert(message_views(out@) == flattened(osc.prefix@, json@));
    }
    out
}

/// One step of the way into a value.
pub enum Step {
    /// Into the entry of that name.
    Name(Seq<char>),
    /// Into the item at that index.
    Index(nat),
}

impl Step {
    /// The step as a part of an address.
    pub open spec fn segment(self) -> Seq<char> {
        match self {
            Step::Name(name) => name,
            Step::Index(i) => decimal(i),
        }
    }
}

/// The address of what stands at `path` below `prefix`.
pub open spec fn path_address(prefix: Seq<char>, path: Seq<Step>) -> Seq<char>
    decreases path.len(),
{
    if path.len() == 0 {
        prefix
    } else {
        path_address(joined(prefix, path[0].segment()), path.drop_first())
    }
}

/// The argument of the number, truth value or string at `path`, where there is one
/// and no name on the way is metadata.
pub open spec fn payload_at(t: Tree, path: Seq<Step>) -> Option<ArgView>
    decreases path.len(),
{
    if path.len() == 0 {
        match t {
            Tree::Bool(b) => Some(ArgView::Bool(b)),
            Tree::Number(n) => Some(number_arg(n)),
            Tree::Text(s) => Some(ArgView::Str(s)),
            _ => None,
        }
    } else {
        match (path[0], t) {
            (Step::Index(i), Tree::Array(items)) => if i < items.len() {
                payload_at(items[i as int], path.drop_first())
            } else {
                None
            },
            (Step::Name(name), Tree::Object(_)) => match t.get(name) {
                Some(value) => if metadata_name(name) {
                    None
                } else {
                    payload_at(value, path.drop_first())
                },
                None => None,
            },
            _ => None,
        }
    }
}

/// Whether `m` is the message of the payload at `path`.
pub open spec fn is_message_at(prefix: Seq<char>, t: Tree, path: Seq<Step>, m: MessageView) -> bool {
    payload_at(t, path) matches Some(arg) && m == (MessageView {
        address: path_address(prefix, path),
        args: seq![arg],
    })
}

/// Every message of a flattened value is that of a payload in it, at the address
/// that its path gives: nothing is made up, and no metadata comes through.
pub proof fn law_flattened_is_payload(prefix: Seq<char>, t: Tree, k: int) -> (path: Seq<Step>)
    requires
        t.well_formed(),
        0 <= k < flattened(prefix, t).len(),
    ensures
        is_message_at(prefix, t, path, flattened(prefix, t)[k]),
    decreases t, 0nat,
{
    match t {
        Tree::Array(items) => lemma_items_are_payload(prefix, items, items.len(), k),
        Tree::Object(entries) => lemma_entries_are_payload(prefix, entries, entries.len(), k),
        _ => Seq::empty(),
    }
}

proof fn lemma_items_are_payload(prefix: Seq<char>, items: Seq<Tree>, n: nat, k: int) -> (path: Seq<
    Step,
>)
    requires
        n <= items.len(),
        forall|i: int| 0 <= i < items.len() ==> (#[trigger] items[i]).well_formed(),
        0 <= k < flattened_items(prefix, items, n).len(),
    ensures
        is_message_at(
            prefix,
            Tree::Array(items),
            path,
            flattened_items(prefix, items, n)[k],
        ),
    decreases items, n,
{
    let i = (n - 1) as nat;
    let before = flattened_items(prefix, items, i);
    if k < before.len() {
        lemma_items_are_payload(prefix, items, i, k)
    } else {
        let rest = law_flattened_is_payload(
            joined(prefix, decimal(i)),
            items[i as int],
            k - before.len(),
        );
        let path = seq![Step::Index(i)] + rest;
        assert(path.drop_first() == rest);
        path
    }
}

proof fn lemma_entries_are_payload(
    prefix: Seq<char>,
    entries: Seq<(Seq<char>, Tree)>,
    n: nat,
    k: int,
) -> (path: Seq<Step>)
    requires
        n <= entries.len(),
        distinct_names(entries),
        forall|i: int| 0 <= i < entries.len() ==> (#[trigger] entries[i]).1.well_formed(),
        0 <= k < flattened_entries(prefix, entries, n).len(),
    ensures
        is_message_at(
            prefix,
            Tree::Object(entries),
            path,
            flattened_entries(prefix, entries, n)[k],
        ),
    decreases entries, n,
{
    let i = n - 1;
    let before = flattened_entries(prefix, entries, i as nat);
    if k < before.len() {
        lemma_entries_are_payload(prefix, entries, i as nat, k)
    } else {
        let (name, value) = entries[i];
        assert(decreases_to!(entries => entries[i]));
        assert(decreases_to!(entries[i] => entries[i].1));
        let rest = law_flattened_is_payload(joined(prefix, name), value, k - before.len());
        let path = seq![Step::Name(name)] + rest;
        assert(path.drop_first() == rest);
        lemma_get_finds_entry(entries, i);
        path
    }
}

/// Every number, truth value and string that stands under no metadata name becomes a
/// message at the address that its path gives: nothing is lost.
pub proof fn law_payload_is_flattened(prefix: Seq<char>, t: Tree, path: Seq<Step>, m: MessageView)
    requires
        t.well_formed(),
        is_message_at(prefix, t, path, m),
    ensures
        flattened(prefix, t).contains(m),
    decreases path.len(),
{
    if path.len() == 0 {
        assert(flattened(prefix, t)[0] == m);
    } else {
        let rest = path.drop_first();
        let below = joined(prefix, path[0].segment());
        match (path[0], t) {
            (Step::Index(i), Tree::Array(items)) => {
                law_payload_is_flattened(below, items[i as int], rest, m);
                lemma_items_contain(prefix, items, items.len(), i, m);
            },
            (Step::Name(name), Tree::Object(entries)) => {
                let i = lemma_entry_position(entries, name);
                law_payload_is_flattened(below, entries[i].1, rest, m);
                lemma_entries_contain(prefix, entries, entries.len(), i, m);
            },
            _ => {},
        }
    }
}

proof fn lemma_items_contain(prefix: Seq<char>, items: Seq<Tree>, n: nat, i: nat, m: MessageView)
    requires
        i < n <= items.len(),
        flattened(joined(prefix, decimal(i)), items[i as int]).contains(m),
    ensures
        flattened_items(prefix, items, n).contains(m),
    decreases n,
{
    let before = flattened_items(prefix, items, (n - 1) as nat);
    let last = flattened(joined(prefix, decimal((n - 1) as nat)), items[n - 1]);
    if i < n - 1 {
        lemma_items_contain(prefix, items, (n - 1) as nat, i, m);
        let k = choose|k: int| 0 <= k < before.len() && before[k] == m;
        assert((before + last)[k] == m);
    } else {
        let k = choose|k: int| 0 <= k < last.len() && last[k] == m;
        assert((before + last)[before.len() + k] == m);
    }
}

proof fn lemma_entry_position(entries: Seq<(Seq<char>, Tree)>, name: Seq<char>) -> (i: int)
    requires
        Tree::Object(entries).get(name) is Some,
    ensures
        0 <= i < entries.len(),
        entries[i].0 == name,
        Tree::Object(entries).get(name) == Some(entries[i].1),
    decreases entries.len(),
{
    if entries[0].0 == name {
        0
    } else {
        1 + lemma_entry_position(entries.drop_first(), name)
    }
}

proof fn lemma_entries_contain(
    prefix: Seq<char>,
    entries: Seq<(Seq<char>, Tree)>,
    n: nat,
    i: int,
    m: MessageView,
)
    requires
        0 <= i < n <= entries.len(),
        !metadata_name(entries[i].0),
        flattened(joined(prefix, entries[i].0), entries[i].1).contains(m),
    ensures
        flattened_entries(prefix, entries, n).contains(m),
    decreases n,
{
    let before = flattened_entries(prefix, entries, (n - 1) as nat);
    let last = flattened(joined(prefix, entries[n - 1].0), entries[n - 1].1);
    if i < n - 1 {
        lemma_entries_contain(prefix, entries, (n - 1) as nat, i, m);
        let k = choose|k: int| 0 <= k < before.len() && before[k] == m;
        assert((before + last)[k] == m);
    } else {
        let k = choose|k: int| 0 <= k < last.len() && last[k] == m;
        assert((before + last)[before.len() + k] == m);
    }
}

/// The address at which everything below `prefix` starts.
pub open spec fn root_of(prefix: Seq<char>) -> Seq<char> {
    trimmed_end_of(prefix, '/') + seq!['/']
}

proof fn lemma_trimmed_keeps(s: Seq<char>, kept: Seq<char>)
    requires
        kept.is_prefix_of(s),
        kept.len() > 0 ==> kept.last() != '/',
    ensures
        kept.is_prefix_of(trimmed_end_of(s, '/')),
        trimmed_end_of(s, '/').is_prefix_of(s),
    decreases s.len(),
{
    if s.len() > 0 && s.last() == '/' {
        if kept.len() == s.len() {
            assert(kept.last() == s.last());
        }
        lemma_trimmed_keeps(s.drop_last(), kept);
    }
}

proof fn lemma_trimmed_ends_without(s: Seq<char>)
    ensures
        trimmed_end_of(s, '/').len() > 0 ==> trimmed_end_of(s, '/').last() != '/',
    decreases s.len(),
{
    if s.len() > 0 && s.last() == '/' {
        lemma_trimmed_ends_without(s.drop_last());
    }
}

proof fn lemma_root_is_kept(prefix: Seq<char>, address: Seq<char>, segment: Seq<char>)
    requires
        root_of(prefix).is_prefix_of(address),
    ensures
        root_of(prefix).is_prefix_of(joined(address, segment)),
{
    let kept = trimmed_end_of(prefix, '/');
    lemma_trimmed_ends_without(prefix);
    assert(kept.is_prefix_of(address)) by {
        assert(root_of(prefix).is_prefix_of(address));
        assert forall|k: int| 0 <= k < kept.len() implies kept[k] == address[k] by {
            assert(root_of(prefix)[k] == kept[k]);
        }
    }
    lemma_trimmed_keeps(address, kept);
    let t = trimmed_end_of(address, '/');
    let r = root_of(prefix);
    assert forall|k: int| 0 <= k < r.len() implies r[k] == joined(address, segment)[k] by {
        if k < t.len() {
            assert(address[k] == r[k]);
        }
    }
}

proof fn lemma_path_keeps_root(prefix: Seq<char>, address: Seq<char>, path: Seq<Step>)
    requires
        root_of(prefix).is_prefix_of(address),
    ensures
        root_of(prefix).is_prefix_of(path_address(address, path)),
    decreases path.len(),
{
    if path.len() > 0 {
        lemma_root_is_kept(prefix, address, path[0].segment());
        lemma_path_keeps_root(prefix, joined(address, path[0].segment()), path.drop_first());
    }
}

/// Whatever an object or a list is flattened to stands below the prefix: each
/// address starts with the prefix, without the slashes at its end, and one slash.
pub proof fn law_flattened_stands_below_prefix(prefix: Seq<char>, t: Tree, k: int)
    requires
        t.well_formed(),
        t is Object || t is Array,
        0 <= k < flattened(prefix, t).len(),
    ensures
        root_of(prefix).is_prefix_of(flattened(prefix, t)[k].address),
{
    let path = law_flattened_is_payload(prefix, t, k);
    assert(path.len() > 0);
    let first = joined(prefix, path[0].segment());
    assert(root_of(prefix).is_prefix_of(first));
    lemma_path_keeps_root(prefix, first, path.drop_first());
}

/// Whether the value `t` writes the argument `arg`.
pub open spec fn writes_arg(t: Tree, arg: ArgView) -> bool {
    match (t, arg) {
        (Tree::Bool(a), ArgView::Bool(b)) => a == b,
        (Tree::Number(n), ArgView::Int(i)) => n.int == Some(i),
        (Tree::Number(n), ArgView::Float(f)) => n.int is None && n.float == Some(f),
        (Tree::Text(a), ArgView::Str(b)) => a == b,
        _ => false,
    }
}

/// Whether the object `t` writes the message `m` as an `address` and `args`.
pub open spec fn writes_message(t: Tree, m: MessageView) -> bool {
    &&& t is Object
    &&& t.get("address"@) == Some(Tree::Text(m.address))
    &&& t.get("args"@) matches Some(Tree::Array(items))
    &&& items.len() == m.args.len()
    &&& forall|i: int| 0 <= i < items.len() ==> #[trigger] writes_arg(items[i], m.args[i])
}

/// A message that an envelope writes is read back as it was written.
pub proof fn law_envelope_is_verbatim(t: Tree, m: MessageView)
    requires
        writes_message(t, m),
    ensures
        envelope_message(t) == Some(m),
{
    let items = t.get("args"@)->0->Array_0;
    assert forall|i: int| 0 <= i < items.len() implies envelope_arg(#[trigger] items[i]) == Some(
        m.args[i],
    ) by {
        assert(writes_arg(items[i], m.args[i]));
    }
    assert(items.map_values(|t: Tree| envelope_arg(t)->0) == m.args);
}

/// A frame whose `osc` field writes one message is mapped to that message and to
/// nothing else, whatever the configuration and the rest of the frame say.
pub proof fn law_frame_of_one_envelope(
    frame: Tree,
    m: MessageView,
    prefix: Seq<char>,
    flatten: bool,
)
    requires
        frame.get("osc"@) matches Some(field) && writes_message(field, m),
    ensures
        inbound_messages(frame, prefix, flatten) == seq![m],
{
    law_envelope_is_verbatim(frame.get("osc"@)->0, m);
}

/// A frame whose `osc` field lists messages is mapped to those messages, in that
/// order and to nothing else, whatever the configuration and the rest of the frame
/// say.
pub proof fn law_frame_of_many_envelopes(
    frame: Tree,
    messages: Seq<MessageView>,
    prefix: Seq<char>,
    flatten: bool,
)
    requires
        frame.get("osc"@) matches Some(Tree::Array(items)) && items.len() == messages.len() && (
        forall|i: int| 0 <= i < items.len() ==> #[trigger] writes_message(items[i], messages[i])),
    ensures
        inbound_messages(frame, prefix, flatten) == messages,
{
    let items = frame.get("osc"@)->0->Array_0;
    assert forall|i: int| 0 <= i < items.len() implies envelope_message(#[trigger] items[i])
        == Some(messages[i]) by {
        assert(writes_message(items[i], messages[i]));
        law_envelope_is_verbatim(items[i], messages[i]);
    }
    assert(items.map_values(|t: Tree| envelope_message(t)->0) == messages);
}

/// With flattening off, a frame without an envelope in order is mapped to nothing.
pub proof fn law_flattening_off(frame: Tree, prefix: Seq<char>)
    requires
        explicit_messages(frame) is None,
    ensures
        inbound_messages(frame, prefix, false) == Seq::<MessageView>::empty(),
{
}

/// A frame without an envelope in order is mapped below the configured prefix: each
/// address starts with the prefix, without the slashes at its end, and one slash.
pub proof fn law_frame_is_mapped_below_its_prefix(frame: Tree, prefix: Seq<char>, k: int)
    requires
        frame.well_formed(),
        frame is Object || frame is Array,
        explicit_messages(frame) is None,
        0 <= k < inbound_messages(frame, prefix, true).len(),
    ensures
        (trimmed_end_of(prefix, '/') + seq!['/']).is_prefix_of(
            inbound_messages(frame, prefix, true)[k].address,
        ),
{
    law_flattened_stands_below_prefix(prefix, frame, k);
}

/// A frame without an envelope in order is mapped to the message of each payload in it,
/// at the address that its path gives below the configured prefix, and to no other.
pub proof fn law_frame_is_mapped_to_its_payload(frame: Tree, prefix: Seq<char>, m: MessageView)
    requires
        frame.well_formed(),
        explicit_messages(frame) is None,
    ensures
        inbound_messages(frame, prefix, true).contains(m) <==> exists|path: Seq<Step>|
            #[trigger] is_message_at(prefix, frame, path, m),
{
    let all = inbound_messages(frame, prefix, true);
    if all.contains(m) {
        let k = choose|k: int| 0 <= k < all.len() && all[k] == m;
        let path = law_flattened_is_payload(prefix, frame, k);
        assert(is_message_at(prefix, frame, path, m));
    }
    if exists|path: Seq<Step>| #[trigger] is_message_at(prefix, frame, path, m) {
        let path = choose|path: Seq<Step>| #[trigger] is_message_at(prefix, frame, path, m);
        law_payload_is_flattened(prefix, frame, path, m);
    }
}

/// The address of a path below a prefix goes on from the prefix by one segment after the
/// other: the name of an entry, or the index of an item.
pub proof fn law_path_address_grows_by_segments(prefix: Seq<char>, path: Seq<Step>, step: Step)
    ensures
        path_address(prefix, Seq::<Step>::empty()) == prefix,
        path_address(prefix, path.push(step)) == joined(
            path_address(prefix, path),
            match step {
                Step::Name(name) => name,
                Step::Index(i) => decimal(i),
            },
        ),
    decreases path.len(),
{
    let longer = path.push(step);
    if path.len() == 0 {
        assert(longer.drop_first() =~= Seq::<Step>::empty());
        assert(path_address(joined(prefix, step.segment()), longer.drop_first()) == joined(
            prefix,
            step.segment(),
        ));
    } else {
        law_path_address_grows_by_segments(
            joined(prefix, path[0].segment()),
            path.drop_first(),
            step,
        );
        assert(longer.drop_first() =~= path.drop_first().push(step));
        assert(longer[0] == path[0]);
    }
}

/// An address goes on by one slash and the segment, whatever slashes it ends in.
pub proof fn law_joined_by_one_slash(prefix: Seq<char>, segment: Seq<char>) -> (n: int)
    ensures
        0 <= n <= prefix.len(),
        joined(prefix, segment) == prefix.take(n).push('/') + segment,
        forall|i: int| n <= i < prefix.len() ==> #[trigger] prefix[i] == '/',
        n > 0 ==> prefix[n - 1] != '/',
{
    let n = law_trimmed_end_of_is_the_start(prefix, '/');
    assert(joined(prefix, segment) =~= prefix.take(n).push('/') + segment);
    n
}

/// The names that carry no payload are these, and no other.
pub proof fn law_metadata_names(name: Seq<char>)
    ensures
        metadata_name(name) <==> seq![
            "type"@,
            "t"@,
            "ts"@,
            "viewerId"@,
            "viewer_id"@,
            "from"@,
            "to"@,
            "color"@,
            "name"@,
            "list"@,
            "viewers"@,
            "data"@,
        ].contains(name),
{
    let names = seq![
        "type"@,
        "t"@,
        "ts"@,
        "viewerId"@,
        "viewer_id"@,
        "from"@,
        "to"@,
        "color"@,
        "name"@,
        "list"@,
        "viewers"@,
        "data"@,
    ];
    assert(names[0] == "type"@ && names[1] == "t"@ && names[2] == "ts"@ && names[3] == "viewerId"@
        && names[4] == "viewer_id"@ && names[5] == "from"@ && names[6] == "to"@ && names[7]
        == "color"@ && names[8] == "name"@ && names[9] == "list"@ && names[10] == "viewers"@
        && names[11] == "data"@);
    if names.contains(name) {
        let k = choose|k: int| 0 <= k < names.len() && names[k] == name;
        assert(0 <= k < 12);
    }
}

/// A value that stands alone gives one message at its address with itself as the one
/// argument, a number as a double wherever it has that reading; `null` gives none.
pub proof fn law_leaf_is_one_message(prefix: Seq<char>, b: bool, n: Number, s: Seq<char>)
    ensures
        flattened(prefix, Tree::Null).len() == 0,
        flattened(prefix, Tree::Bool(b)) == seq![
            MessageView { address: prefix, args: seq![ArgView::Bool(b)] },
        ],
        flattened(prefix, Tree::Text(s)) == seq![
            MessageView { address: prefix, args: seq![ArgView::Str(s)] },
        ],
        n.float matches Some(f) ==> flattened(prefix, Tree::Number(n)) == seq![
            MessageView { address: prefix, args: seq![ArgView::Float(f)] },
        ],
        n.float is None ==> (n.int matches Some(i) ==> flattened(prefix, Tree::Number(n)) == seq![
            MessageView { address: prefix, args: seq![ArgView::Int(i)] },
        ]),
        n.float is None && n.int is None ==> flattened(prefix, Tree::Number(n)) == seq![
            MessageView { address: prefix, args: seq![ArgView::Float(F64 { bits: 0 })] },
        ],
{
}

/// A list is flattened item by item, in its order: one more item adds its own messages
/// at the end, at the address of its index, and changes nothing before.
pub proof fn law_list_is_flattened_in_order(prefix: Seq<char>, items: Seq<Tree>, item: Tree)
    ensures
        flattened(prefix, Tree::Array(Seq::empty())).len() == 0,
        flattened(prefix, Tree::Array(items.push(item))) == flattened(prefix, Tree::Array(items))
            + flattened(joined(prefix, decimal(items.len())), item),
{
    lemma_items_of_longer(prefix, items, item, items.len());
    assert(items.push(item)[items.len() as int] == item);
}

proof fn lemma_items_of_longer(prefix: Seq<char>, items: Seq<Tree>, item: Tree, n: nat)
    requires
        n <= items.len(),
    ensures
        flattened_items(prefix, items.push(item), n) == flattened_items(prefix, items, n),
    decreases n,
{
    if n > 0 {
        lemma_items_of_longer(prefix, items, item, (n - 1) as nat);
        assert(items.push(item)[n - 1] == items[n - 1]);
    }
}

/// An object is flattened entry by entry, in its order: one more entry adds its own
/// messages at the end, at the address of its name, unless that is metadata, and changes
/// nothing before.
pub proof fn law_object_is_flattened_in_order(
    prefix: Seq<char>,
    entries: Seq<(Seq<char>, Tree)>,
    name: Seq<char>,
    value: Tree,
)
    ensures
        flattened(prefix, Tree::Object(Seq::empty())).len() == 0,
        flattened(prefix, Tree::Object(entries.push((name, value)))) == flattened(
            prefix,
            Tree::Object(entries),
        ) + (if metadata_name(name) {
            Seq::empty()
        } else {
            flattened(joined(prefix, name), value)
        }),
{
    let longer = entries.push((name, value));
    lemma_entries_of_longer(prefix, entries, (name, value), entries.len());
    assert(longer[entries.len() as int] == (name, value));
    let before = flattened_entries(prefix, entries, entries.len());
    assert(before + Seq::<MessageView>::empty() =~= before);
}

proof fn lemma_entries_of_longer(
    prefix: Seq<char>,
    entries: Seq<(Seq<char>, Tree)>,
    entry: (Seq<char>, Tree),
    n: nat,
)
    requires
        n <= entries.len(),
    ensures
        flattened_entries(prefix, entries.push(entry), n) == flattened_entries(prefix, entries, n),
    decreases n,
{
    if n > 0 {
        lemma_entries_of_longer(prefix, entries, entry, (n - 1) as nat);
        assert(entries.push(entry)[n - 1] == entries[n - 1]);
    }
}

/// Whether the value `t` writes the arguments `args`.
pub open spec fn writes_args(t: Tree, args: Seq<ArgView>) -> bool {
    &&& t matches Tree::Array(items)
    &&& items.len() == args.len()
    &&& forall|i: int| 0 <= i < items.len() ==> #[trigger] writes_arg(items[i], args[i])
}

/// Whether the value `t` writes the message `m`: as an object with an `address` and, if
/// the message has arguments, `args`, or as a list of the same one or two values.
pub open spec fn writes_envelope(t: Tree, m: MessageView) -> bool {
    match t {
        Tree::Object(_) => t.get("address"@) == Some(Tree::Text(m.address)) && (match t.get(
            "args"@,
        ) {
            Some(args) => writes_args(args, m.args),
            None => m.args.len() == 0,
        }),
        Tree::Array(parts) => {
            ||| parts.len() == 1 && parts[0] == Tree::Text(m.address) && m.args.len() == 0
            ||| parts.len() == 2 && parts[0] == Tree::Text(m.address) && writes_args(
                parts[1],
                m.args,
            )
        },
        _ => false,
    }
}

proof fn lemma_arg_is_read_iff_written(t: Tree, arg: ArgView)
    ensures
        envelope_arg(t) == Some(arg) <==> writes_arg(t, arg),
{
}

proof fn lemma_args_are_read_iff_written(t: Tree, args: Seq<ArgView>)
    ensures
        envelope_args(t) == Some(args) <==> writes_args(t, args),
{
    if let Tree::Array(items) = t {
        let read = items.map_values(|t: Tree| envelope_arg(t)->0);
        if writes_args(t, args) {
            assert forall|i: int| 0 <= i < items.len() implies envelope_arg(#[trigger] items[i])
                == Some(args[i]) by {
                assert(writes_arg(items[i], args[i]));
                lemma_arg_is_read_iff_written(items[i], args[i]);
            }
            assert(read =~= args);
        }
        if envelope_args(t) == Some(args) {
            assert(read == args);
            assert forall|i: int| 0 <= i < items.len() implies #[trigger] writes_arg(
                items[i],
                args[i],
            ) by {
                assert(envelope_arg(items[i]) is Some);
                assert(read[i] == envelope_arg(items[i])->0);
                lemma_arg_is_read_iff_written(items[i], args[i]);
            }
        }
    }
}

/// An envelope is read as a message where it writes that message, and only there:
/// nothing in it is changed, left out or made up.
pub proof fn law_envelope_is_read_iff_written(t: Tree, m: MessageView)
    ensures
        envelope_message(t) == Some(m) <==> writes_envelope(t, m),
{
    match t {
        Tree::Object(_) => {
            if let Some(args) = t.get("args"@) {
                lemma_args_are_read_iff_written(args, m.args);
            } else if m.args.len() == 0 {
                assert(m.args =~= Seq::<ArgView>::empty());
            }
        },
        Tree::Array(parts) => {
            if parts.len() == 2 {
                lemma_args_are_read_iff_written(parts[1], m.args);
            } else if m.args.len() == 0 {
                assert(m.args =~= Seq::<ArgView>::empty());
            }
        },
        _ => {},
    }
}

/// Whether the `osc` field of a frame writes these messages: one as an object, or any
/// number as a list.
pub open spec fn frame_writes(frame: Tree, messages: Seq<MessageView>) -> bool {
    match frame.get("osc"@) {
        Some(Tree::Object(entries)) => messages.len() == 1 && writes_envelope(
            Tree::Object(entries),
            messages[0],
        ),
        Some(Tree::Array(items)) => items.len() == messages.len() && forall|i: int|
            0 <= i < items.len() ==> #[trigger] writes_envelope(items[i], messages[i]),
        _ => false,
    }
}

/// A frame has messages of its own where its `osc` field writes them, and only there: a
/// list in which one envelope is out of order has none.
pub proof fn law_frame_has_messages_iff_written(frame: Tree, messages: Seq<MessageView>)
    ensures
        explicit_messages(frame) == Some(messages) <==> frame_writes(frame, messages),
{
    match frame.get("osc"@) {
        Some(Tree::Object(entries)) => {
            let field = Tree::Object(entries);
            if messages.len() == 1 {
                law_envelope_is_read_iff_written(field, messages[0]);
                assert(messages =~= seq![messages[0]]);
            }
            if explicit_messages(frame) == Some(messages) {
                assert(messages.len() == 1);
            }
        },
        Some(Tree::Array(items)) => {
            let read = items.map_values(|t: Tree| envelope_message(t)->0);
            if frame_writes(frame, messages) {
                assert forall|i: int| 0 <= i < items.len() implies envelope_message(
                    #[trigger] items[i],
                ) == Some(messages[i]) by {
                    assert(writes_envelope(items[i], messages[i]));
                    law_envelope_is_read_iff_written(items[i], messages[i]);
                }
                assert(read =~= messages);
            }
            if explicit_messages(frame) == Some(messages) {
                assert(read == messages);
                assert forall|i: int| 0 <= i < items.len() implies #[trigger] writes_envelope(
                    items[i],
                    messages[i],
                ) by {
                    assert(envelope_message(items[i]) is Some);
                    assert(read[i] == envelope_message(items[i])->0);
                    law_envelope_is_read_iff_written(items[i], messages[i]);
                }
            }
        },
        _ => {},
    }
}

/// What a frame writes is forwarded whatever the configuration says; a frame that writes
/// nothing is mapped as it would be flattened at the prefix, or to nothing where that is
/// switched off.
pub proof fn law_mapping_of_a_frame(
    frame: Tree,
    prefix: Seq<char>,
    flatten: bool,
    messages: Seq<MessageView>,
)
    ensures
        frame_writes(frame, messages) ==> inbound_messages(frame, prefix, flatten) == messages,
        (forall|other: Seq<MessageView>| !#[trigger] frame_writes(frame, other))
            ==> inbound_messages(frame, prefix, true) == flattened(prefix, frame)
            && inbound_messages(frame, prefix, false).len() == 0,
{
    law_frame_has_messages_iff_written(frame, messages);
    if forall|other: Seq<MessageView>| !#[trigger] frame_writes(frame, other) {
        if let Some(other) = explicit_messages(frame) {
            law_frame_has_messages_iff_written(frame, other);
            assert(frame_writes(frame, other));
        }
    }
}

} // verus!
