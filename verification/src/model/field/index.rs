use vstd::prelude::*;
use crate::model::index::Type;
use crate::sort::Sort;

verus! {

/// The index that a single field or property declares on itself.
#[derive(Debug, PartialEq)]
pub struct Index {
    pub kind: Type,
    pub name: String,
    pub sort: Sort,
    pub length: Option<usize>,
}

impl Clone for Index {
    fn clone(&self) -> (r: Self)
        ensures
            r == *self,
    {
        Index { kind: self.kind, name: self.name.clone(), sort: self.sort, length: self.length }
    }
}

impl Index {
    /// A field index of the given kind, name, direction and prefix length.
    pub fn new(kind: Type, name: String, sort: Sort, length: Option<usize>) -> (r: Self)
        ensures
            r == (Index { kind, name, sort, length }),
    {
        Index { kind, name, sort, length }
    }

    /// The kind of the index.
    pub fn kind(&self) -> (r: Type)
        ensures
            r == self.kind,
    {
        self.kind
    }

    /// The name of the index.
    pub fn name(&self) -> (r: &str)
        ensures
            r@ == self.name@,
    {
        self.name.as_str()
    }

    /// The direction of the index.
    pub fn sort(&self) -> (r: Sort)
        ensures
            r == self.sort,
    {
        self.sort
    }

    /// The prefix length of the index, if it has one.
    pub fn length(&self) -> (r: Option<usize>)
        ensures
            r == self.length,
    {
        self.length
    }
}

} // verus!
