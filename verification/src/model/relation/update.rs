use vstd::prelude::*;

verus! {

/// What happens to the records that refer to a record when its referenced values change.
#[derive(Debug, Clone, Copy, Eq, PartialEq, Structural)]
pub enum Update {
    Nullify,
    NoAction,
    Update,
    Delete,
    Deny,
    Default,
}

} // verus!
