//! API serving helpers: read-mode resolution, response envelopes,
//! pagination and the health summary.

pub mod envelope;
pub mod health;
pub mod pagination;
pub mod read_mode;
