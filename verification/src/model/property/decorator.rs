use vstd::prelude::*;

verus! {

/// A decorator of model propertys: where it is defined, and what it does to the property it
/// decorates. `F` is the type of what it does.
#[derive(Debug)]
pub struct Decorator<F> {
    path: Vec<String>,
    call: F,
}

impl<F> Decorator<F> {
    /// The path of the decorator.
    pub closed spec fn spec_path(&self) -> Vec<String> {
        self.path
    }

    /// What the decorator does.
    pub closed spec fn spec_call(&self) -> F {
        self.call
    }

    /// The decorator at `path` that does `call`.
    pub fn new(path: Vec<String>, call: F) -> (r: Self)
        ensures
            r.spec_path() == path,
            r.spec_call() == call,
    {
        Decorator { path, call }
    }

    /// The path of the decorator.
    pub fn path(&self) -> (r: &Vec<String>)
        ensures
            *r == self.spec_path(),
    {
        &self.path
    }

    /// What the decorator does.
    pub fn call(&self) -> (r: &F)
        ensures
            *r == self.spec_call(),
    {
        &self.call
    }
}

} // verus!
