use vstd::prelude::*;

verus! {

/// A pipeline as the schema declares it: the paths of the pipeline items it runs, in order.
#[derive(Debug)]
pub struct Pipeline {
    pub items: Vec<Vec<String>>,
}

impl Pipeline {
    /// A pipeline that runs nothing.
    pub fn new() -> (r: Self)
        ensures
            r.items@.len() == 0,
    {
        Pipeline { items: Vec::new() }
    }

    /// Whether the pipeline runs nothing.
    pub fn is_empty(&self) -> (r: bool)
        ensures
            r == (self.items@.len() == 0),
    {
        self.items.len() == 0
    }
}

/// Whether a compare pipeline item calls its comparison: only for an object that has been saved
/// or read, and only where the value differs from the previous one.
pub fn compare_needed(is_new: bool, unchanged: bool) -> (r: bool)
    ensures
        r == (!is_new && !unchanged),
{
    !is_new && !unchanged
}

/// The result of a compare pipeline item: the value passes where the comparison found it
/// valid; else the error is the reason the comparison stated, or "value is invalid".
pub fn compare_outcome(valid: bool, reason: Option<String>) -> (r: Result<(), String>)
    ensures
        valid ==> r is Ok,
        !valid ==> (r matches Err(m) && m@ == (match reason {
            Some(s) => s@,
            None => "value is invalid"@,
        })),
{
    if valid {
        Ok(())
    } else {
        match reason {
            Some(s) => Err(s),
            None => Err("value is invalid".to_owned()),
        }
    }
}

} // verus!
