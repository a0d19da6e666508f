//! Source adapters: configuration, errors, retry policy, idempotency keys,
//! heartbeats, and the Slack and Google Slides mappers.

pub mod config;
pub mod error;
pub mod gslides;
pub mod heartbeat;
pub mod idempotency;
pub mod retry;
pub mod slack;
pub mod traits;
pub mod writeback;
