use vstd::prelude::*;
use crate::pipeline::Pipeline;

verus! {

/// Whether a value may be left out.
#[derive(Debug)]
pub enum Optionality {
    Optional,
    Required,
    /// Required when any of the named fields is present.
    PresentWith(Vec<String>),
    /// Required when the first of the named fields is absent.
    PresentWithout(Vec<String>),
    /// Required when the pipeline fails.
    PresentIf(Pipeline),
}

impl Optionality {
    /// Whether the value may be left out in some case.
    pub fn is_any_optional(&self) -> (r: bool)
        ensures
            r == !(*self is Required),
    {
        !self.is_required()
    }

    /// Whether the value must always be present.
    pub fn is_required(&self) -> (r: bool)
        ensures
            r == (*self is Required),
    {
        match self {
            Optionality::Required => true,
            _ => false,
        }
    }
}

} // verus!
