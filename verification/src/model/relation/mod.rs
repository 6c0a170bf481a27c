pub mod delete;
pub mod update;
pub mod relation;
pub mod builder;
pub mod decorator;

pub use relation::Relation;
pub use builder::Builder;
