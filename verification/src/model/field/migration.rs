use vstd::prelude::*;

verus! {

/// How a field is carried over from an earlier schema.
#[derive(Debug)]
pub struct Migration {
    pub renamed: Vec<String>,
    pub version: Option<String>,
    pub priority: Option<i64>,
}

} // verus!
