pub mod migration;
pub mod index;
pub mod is_optional;
pub mod indexable;
pub mod typed;
pub mod field;
pub mod builder;
pub mod previous;
pub mod default;
pub mod decorator;

pub use builder::Builder;

pub use migration::Migration;
pub use index::Index;
pub use field::Field;
