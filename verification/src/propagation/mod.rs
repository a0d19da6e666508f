//! DAG propagation: watermarks and the poll-based scheduler.

pub mod scheduler;
pub mod watermark;
