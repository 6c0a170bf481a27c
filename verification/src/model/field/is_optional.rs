use vstd::prelude::*;

verus! {

/// Something whose value may or must be present.
pub trait IsOptional {
    /// Whether the value may be left out in some case.
    spec fn spec_is_optional(&self) -> bool;

    /// Whether the value may be left out in some case.
    fn is_optional(&self) -> (r: bool)
        ensures
            r == self.spec_is_optional(),
    ;

    /// Whether the value must always be present.
    fn is_required(&self) -> (r: bool)
        ensures
            r == !self.spec_is_optional(),
    ;
}

} // verus!
