use vstd::prelude::*;

verus! {

/// How a model is carried over from an earlier schema.
#[derive(Debug)]
pub struct Migration {
    pub renamed: Option<Vec<String>>,
    pub version: Option<String>,
    pub drop: bool,
}

impl Default for Migration {
    /// No renames, no version, and the table is not dropped.
    fn default() -> (r: Self)
        ensures
            r.renamed is None,
            r.version is None,
            !r.drop,
    {
        Migration { renamed: None, version: None, drop: false }
    }
}

} // verus!
