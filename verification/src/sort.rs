use vstd::prelude::*;

verus! {

/// The direction in which an index orders a column.
#[derive(Copy, Clone, Debug, PartialEq, Eq, Hash, Structural)]
pub enum Sort {
    Asc,
    Desc,
}

} // verus!
