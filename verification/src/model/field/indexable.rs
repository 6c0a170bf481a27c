use vstd::prelude::*;
use crate::model::field;
use crate::traits::Named;

verus! {

/// Something that can declare an index on itself.
pub trait Indexable: Named {
    /// The index it declares.
    spec fn spec_index(&self) -> Option<field::Index>;

    /// The index it declares.
    fn index(&self) -> (r: Option<&field::Index>)
        ensures
            r == (match self.spec_index() {
                Some(i) => Some(&i),
                None => None::<&field::Index>,
            }),
    ;
}

/// Something whose index can be set.
pub trait SetIndex: Named {
    /// The index it declares.
    spec fn spec_declared_index(&self) -> Option<field::Index>;

    /// Declares `index` on it.
    fn set_index(&mut self, index: field::Index)
        ensures
            final(self).spec_declared_index() == Some(index),
    ;
}

} // verus!
