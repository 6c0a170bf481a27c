pub mod group;
pub mod namespace;
pub mod update;
pub mod lookup;
pub mod collect;
pub mod relations;
pub mod laws;

pub use group::HandlerGroup;
pub use namespace::Namespace;
