use vstd::prelude::*;

verus! {

/// A decorator of model relations: where it is defined, and what it does to the relation it
/// decorates. `F` is the type of what it does.
#[derive(Debug)]
pub struct Decorator<F> {
    pub path: Vec<String>,
    pub call: F,
}

} // verus!
