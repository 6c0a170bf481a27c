use vstd::prelude::*;

verus! {

/// Something that has a name.
pub trait Named {
    /// The name.
    spec fn spec_name(&self) -> Seq<char>;

    /// The name.
    fn name(&self) -> (r: &str)
        ensures
            r@ == self.spec_name(),
    ;
}

} // verus!
