use vstd::prelude::*;

verus! {

/// The role an index plays for its model.
#[derive(Copy, Clone, Debug, PartialEq, Eq, Hash, Structural)]
pub enum Type {
    Primary,
    Index,
    Unique,
}

impl Type {
    /// Whether this is the primary index.
    pub fn is_primary(&self) -> (r: bool)
        ensures
            r == (*self == Type::Primary),
    {
        match self {
            Type::Primary => true,
            _ => false,
        }
    }

    /// Whether this index enforces uniqueness, which a primary index does too.
    pub fn is_unique_or_primary(&self) -> (r: bool)
        ensures
            r == (*self == Type::Unique || *self == Type::Primary),
    {
        match self {
            Type::Unique | Type::Primary => true,
            _ => false,
        }
    }

    /// Whether this is a plain unique index.
    pub fn is_unique(&self) -> (r: bool)
        ensures
            r == (*self == Type::Unique),
    {
        match self {
            Type::Unique => true,
            _ => false,
        }
    }

    /// Whether this is a plain, non-unique index.
    pub fn is_index(&self) -> (r: bool)
        ensures
            r == (*self == Type::Index),
    {
        match self {
            Type::Index => true,
            _ => false,
        }
    }
}

} // verus!
