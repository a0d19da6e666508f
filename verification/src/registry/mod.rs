//! The registry: entity types, schemas, source systems, observers and the
//! projection catalog, with the invariants that bind them.

pub mod catalog;
pub mod entity_type;
pub mod observer;
pub mod schema;
pub mod store;
