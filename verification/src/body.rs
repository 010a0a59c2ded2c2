//! The JSON bodies that the control API answers with.

use crate::text::views;
use vstd::prelude::*;

verus! {

/// A JSON body.
#[derive(Debug)]
pub enum Body {
    /// `null`.
    Null,
    /// `true` or `false`.
    Bool(bool),
    /// A natural number.
    Natural(u64),
    /// A string.
    Text(String),
    /// A list of values.
    Array(Vec<Body>),
    /// Named values.
    Object(Vec<(String, Body)>),
}

/// What a JSON body holds.
pub enum BodyView {
    /// `null`.
    Null,
    /// `true` or `false`.
    Bool(bool),
    /// A natural number.
    Natural(u64),
    /// A string.
    Text(Seq<char>),
    /// A list of values.
    Array(Seq<BodyView>),
    /// Named values.
    Object(Seq<(Seq<char>, BodyView)>),
}

impl Body {
    /// What the body holds.
    pub open spec fn holds(self) -> BodyView
        decreases self,
    {
        match self {
            Body::Null => BodyView::Null,
            Body::Bool(b) => BodyView::Bool(b),
            Body::Natural(n) => BodyView::Natural(n),
            Body::Text(s) => BodyView::Text(s@),
            Body::Array(items) => BodyView::Array(
                Seq::new(
                    items@.len(),
                    |i: int|
                        if 0 <= i < items@.len() {
                            items@[i].holds()
                        } else {
                            BodyView::Null
                        },
                ),
            ),
            Body::Object(entries) => BodyView::Object(
                Seq::new(
                    entries@.len(),
                    |i: int|
                        if 0 <= i < entries@.len() {
                            (entries@[i].0@, entries@[i].1.holds())
                        } else {
                            (Seq::empty(), BodyView::Null)
                        },
                ),
            ),
        }
    }
}

impl View for Body {
    type V = BodyView;

    open spec fn view(&self) -> BodyView {
        self.holds()
    }
}

/// The text, or `null` where there is none.
pub open spec fn text_or_null(text: Option<String>) -> BodyView {
    match text {
        Some(s) => BodyView::Text(s@),
        None => BodyView::Null,
    }
}

/// The list of the texts.
pub open spec fn texts(list: Seq<String>) -> BodyView {
    BodyView::Array(views(list).map_values(|s: Seq<char>| BodyView::Text(s)))
}

/// What a list of bodies holds.
pub open spec fn item_views(items: Seq<Body>) -> Seq<BodyView> {
    items.map_values(|b: Body| b@)
}

/// What named bodies hold.
pub open spec fn entry_views(entries: Seq<(String, Body)>) -> Seq<(Seq<char>, BodyView)> {
    entries.map_values(|e: (String, Body)| (e.0@, e.1@))
}

impl Body {
    /// The text, or `null` where there is none.
    pub fn text_or_null(text: &Option<String>) -> (r: Self)
        ensures
            r@ == text_or_null(*text),
    {
        match text {
            Some(s) => Body::Text(s.clone()),
            None => Body::Null,
        }
    }

    /// The list of the texts.
    pub fn texts(list: &Vec<String>) -> (r: Self)
        ensures
            r@ == texts(list@),
    {
        let ghost all = texts(list@)->Array_0;
        let mut items: Vec<Body> = Vec::new();
        let mut i: usize = 0;
        while i < list.len()
            invariant
                i <= list@.len(),
                all == texts(list@)->Array_0,
                items@.len() == i,
                forall|k: int| 0 <= k < i ==> (#[trigger] items@[k])@ == all[k],
            decreases list@.len() - i,
        {
            items.push(Body::Text(list[i].clone()));
            i += 1;
        }
        assert(item_views(items@) == all);
        Body::array(items)
    }

    /// The list of the values.
    pub fn array(items: Vec<Body>) -> (r: Self)
        ensures
            r@ == BodyView::Array(item_views(items@)),
    {
        let r = Body::Array(items);
        assert(r@->Array_0 == item_views(items@));
        r
    }

    /// The object of the named values.
    pub fn object(entries: Vec<(String, Body)>) -> (r: Self)
        ensures
            r@ == BodyView::Object(entry_views(entries@)),
    {
        let r = Body::Object(entries);
        assert(r@->Object_0 == entry_views(entries@));
        r
    }
}

/// Adds a named value to others.
pub fn push_entry(entries: &mut Vec<(String, Body)>, name: &str, value: Body)
    ensures
        entry_views(final(entries)@) == entry_views(old(entries)@).push((name@, value@)),
{
    entries.push((name.to_owned(), value));
    assert(entry_views(entries@) == entry_views(old(entries)@).push((name@, value@)));
}

/// A body holds what it is made of: its truth value, number or characters, its items in
/// their order, or its entries in theirs.
pub proof fn law_body_holds_its_parts(
    b: bool,
    n: u64,
    s: String,
    items: Vec<Body>,
    entries: Vec<(String, Body)>,
)
    ensures
        Body::Null@ == BodyView::Null,
        Body::Bool(b)@ == BodyView::Bool(b),
        Body::Natural(n)@ == BodyView::Natural(n),
        Body::Text(s)@ == BodyView::Text(s@),
        Body::Array(items)@ == BodyView::Array(items@.map_values(|v: Body| v@)),
        Body::Object(entries)@ == BodyView::Object(
            entries@.map_values(|e: (String, Body)| (e.0@, e.1@)),
        ),
{
    let list = Body::Array(items);
    let object = Body::Object(entries);
    assert(list@->Array_0 =~= items@.map_values(|v: Body| v@));
    assert(object@->Object_0 =~= entries@.map_values(|e: (String, Body)| (e.0@, e.1@)));
}

/// A text that is there is shown as it is, one that is missing as `null`, and a list of
/// texts text by text.
pub proof fn law_texts_are_shown_as_they_are(text: Option<String>, list: Seq<String>, i: int)
    ensures
        text matches Some(s) ==> text_or_null(text) == BodyView::Text(s@),
        text is None ==> text_or_null(text) == BodyView::Null,
        texts(list) matches BodyView::Array(items) && items.len() == list.len() && (0 <= i
            < list.len() ==> items[i] == BodyView::Text(list[i]@)),
{
}

} // verus!
