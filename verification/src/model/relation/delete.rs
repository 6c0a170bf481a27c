use vstd::prelude::*;

verus! {

/// What happens to the records that refer to a record when it is deleted.
#[derive(Debug, Clone, Copy, Eq, PartialEq, Structural)]
pub enum Delete {
    Nullify,
    NoAction,
    Cascade,
    Deny,
    Default,
}

} // verus!
