//! One node of the discussion tree, as the upstream item source describes it.
use vstd::prelude::*;

verus! {

/// A story (root) or comment (child). Only `id` is always present; `kids`
/// lists the child ids in display order.
#[derive(Debug)]
pub struct Item {
    pub id: u32,
    pub title: Option<String>,
    pub url: Option<String>,
    pub text: Option<String>,
    pub score: Option<u32>,
    pub by: Option<String>,
    pub time: Option<u64>,
    pub descendants: Option<u32>,
    pub kids: Option<Vec<u32>>,
    pub parent: Option<u32>,
}

/// Present and not empty.
pub open spec fn filled(s: Option<String>) -> bool {
    match s {
        Some(t) => t@.len() > 0,
        None => false,
    }
}

/// A child whose body is present and not empty.
pub open spec fn has_body(i: Item) -> bool {
    filled(i.text)
}

/// A listed item whose title is present and not empty.
pub open spec fn has_title(i: Item) -> bool {
    filled(i.title)
}

/// The child ids of an item, empty when it lists none.
pub open spec fn child_ids(i: Item) -> Seq<u32> {
    match i.kids {
        Some(k) => k@,
        None => Seq::empty(),
    }
}

fn is_filled(s: &Option<String>) -> (r: bool)
    ensures
        r == filled(*s),
{
    match s {
        Some(t) => !t.as_str().is_empty(),
        None => false,
    }
}

impl Item {
    /// An item with the given id and no other field.
    pub fn new(id: u32) -> (r: Item)
        ensures
            r.id == id,
            r.title is None,
            r.url is None,
            r.text is None,
            r.score is None,
            r.by is None,
            r.time is None,
            r.descendants is None,
            r.kids is None,
            r.parent is None,
    {
        Item {
            id,
            title: None,
            url: None,
            text: None,
            score: None,
            by: None,
            time: None,
            descendants: None,
            kids: None,
            parent: None,
        }
    }

    pub fn has_text(&self) -> (r: bool)
        ensures
            r == has_body(*self),
    {
        is_filled(&self.text)
    }

    pub fn has_title(&self) -> (r: bool)
        ensures
            r == has_title(*self),
    {
        is_filled(&self.title)
    }
}

} // verus!
