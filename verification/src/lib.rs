use vstd::prelude::*;

pub mod utils;
pub mod value;
pub mod name_map;
pub mod sort;
pub mod traits;
pub mod optionality;
pub mod pipeline;
pub mod readwrite;
pub mod type_info;
pub mod error;
pub mod action;
pub mod model;
pub mod namespace;

verus! {
} // verus!
