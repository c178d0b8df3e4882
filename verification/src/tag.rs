//! Tags attached to tasks.
use vstd::prelude::*;

verus! {

/// A tag that can be attached to tasks.
#[derive(Clone, Debug, PartialEq, Eq)]
pub struct Tag {
    pub id: i64,
    pub name: String,
}

/// The mathematical value of a `Tag`.
pub struct TagView {
    pub id: i64,
    pub name: Seq<char>,
}

impl View for Tag {
    type V = TagView;

    open spec fn view(&self) -> TagView {
        TagView { id: self.id, name: self.name@ }
    }
}

} // verus!
