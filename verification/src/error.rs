use vstd::prelude::*;

verus! {

/// Why a model could not be built.
#[derive(Debug, Clone, Copy, PartialEq, Eq, Structural)]
pub enum Error {
    /// Neither the model nor any of its fields or properties declares a primary index.
    MissingPrimaryIndex,
}

impl Error {
    /// The message that describes the error.
    pub fn message(&self) -> (r: String)
        ensures
            *self == Error::MissingPrimaryIndex ==> r@ == "model must have a primary index"@,
    {
        match self {
            Error::MissingPrimaryIndex => "model must have a primary index".to_owned(),
        }
    }
}

} // verus!
