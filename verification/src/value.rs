use vstd::prelude::*;

verus! {

/// A value of the schema: what data attached to models, fields, relations and properties
/// holds, and what a field's default gives.
#[derive(Debug)]
pub enum Value {
    Null,
    Bool(bool),
    Int(i64),
    String(String),
    Array(Vec<Value>),
    Dictionary(Vec<(String, Value)>),
}

} // verus!
