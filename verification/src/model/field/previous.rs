use vstd::prelude::*;

verus! {

/// Whether an object keeps the value a field had when it was read, once the value changes.
#[derive(Debug, Clone, Copy, PartialEq, Eq, Structural)]
pub enum Previous {
    DontKeep,
    Keep,
}

impl Previous {
    /// Whether the value a field had is kept.
    pub fn is_keep(&self) -> (r: bool)
        ensures
            r == (*self == Previous::Keep),
    {
        match self {
            Previous::Keep => true,
            Previous::DontKeep => false,
        }
    }
}

} // verus!
