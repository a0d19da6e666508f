//! Identity resolution: cross-source person matching. Its results belong
//! to a projection, not to canonical truth.

pub mod components;
pub mod projector;
pub mod types;
