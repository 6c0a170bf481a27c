use vstd::prelude::*;
use crate::model::field::is_optional::IsOptional;
use crate::type_info::TypeInfo;

verus! {

/// Something declared with a type.
pub trait Typed: IsOptional {
    /// The type it is declared with.
    spec fn spec_ty(&self) -> TypeInfo;

    /// The type it is declared with.
    fn ty(&self) -> (r: &TypeInfo)
        ensures
            *r == self.spec_ty(),
    ;
}

} // verus!
