//! Observation lake: the append-only store, the blob store and the
//! ingestion gate.

pub mod blob;
pub mod ingestion;
pub mod store;
