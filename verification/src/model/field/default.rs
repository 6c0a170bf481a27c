use vstd::prelude::*;
use crate::value::Value;
use crate::pipeline::Pipeline;

verus! {

/// The default of a field, applied where an object not yet initialized is given no value
/// for it: a value, or a pipeline whose output, run on null, is the value.
#[derive(Debug)]
pub enum FieldDefault {
    Value(Value),
    Pipeline(Pipeline),
}

} // verus!
