//! The Slack adapter.

pub mod client;
pub mod mapper;
