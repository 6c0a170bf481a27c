pub mod object;
pub mod laws;
pub mod input;
pub mod deletion;
pub mod assign;
pub mod fetch;
pub mod relations;
pub mod record;
pub mod save;
pub mod plan_laws;

pub use object::Object;
