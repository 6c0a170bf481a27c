pub mod property;
pub mod builder;
pub mod decorator;

pub use property::Property;
pub use builder::Builder;
