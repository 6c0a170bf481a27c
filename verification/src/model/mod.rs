pub mod index;
pub mod migration;
pub mod field;
pub mod relation;
pub mod property;
pub mod maps;
pub mod cache;
pub mod keys;
pub mod key_laws;
pub mod build_laws;
pub mod handler_laws;
pub mod model;
pub mod builder;
pub mod handler_type;
pub mod object;


pub use model::Model;

pub use index::Index;
pub use migration::Migration;
