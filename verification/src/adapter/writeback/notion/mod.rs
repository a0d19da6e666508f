//! The Notion destination: payload rendering, property updates and the
//! decisions around the API calls.

pub mod blocks;
pub mod client;
pub mod properties;
pub mod render;
pub mod values;
