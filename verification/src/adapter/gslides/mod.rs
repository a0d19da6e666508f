//! The Google Slides adapter.

pub mod client;
pub mod mapper;
