//! Person pages: profiles, related slides and messages, and activity,
//! built from identity resolution and the lake.

pub mod frontend;
pub mod projector;
pub mod types;
