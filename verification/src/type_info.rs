use vstd::prelude::*;

verus! {

/// What the schema logic reads of the type that a field, property or relation is declared with.
///
/// `optional`: the type is an optional type; `array`: an array type;
/// `int_or_float`: a 32- or 64-bit integer or float; `decimal`: the decimal type.
#[derive(Debug, Clone, Copy, PartialEq, Eq, Structural)]
pub struct TypeInfo {
    pub optional: bool,
    pub array: bool,
    pub int_or_float: bool,
    pub decimal: bool,
}

impl TypeInfo {
    /// Whether the type is optional.
    pub fn is_optional(&self) -> (r: bool)
        ensures
            r == self.optional,
    {
        self.optional
    }

    /// Whether the type is an array.
    pub fn is_array(&self) -> (r: bool)
        ensures
            r == self.array,
    {
        self.array
    }

    /// Whether the type is a 32- or 64-bit integer or float.
    pub fn is_any_int_or_float(&self) -> (r: bool)
        ensures
            r == self.int_or_float,
    {
        self.int_or_float
    }

    /// Whether the type is the decimal type.
    pub fn is_decimal(&self) -> (r: bool)
        ensures
            r == self.decimal,
    {
        self.decimal
    }
}

} // verus!
