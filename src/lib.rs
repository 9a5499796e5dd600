//! A type-keyed store of components: one sparse array of nullable slots per
//! component type, addressed by entity index.
pub mod column;
pub mod erased;
pub mod registry;

pub use registry::ComponentStorage;
