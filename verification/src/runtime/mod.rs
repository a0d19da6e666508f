//! The runtime: configuration, service health, observer heartbeats and
//! the build runner.

pub mod config;
pub mod health;
pub mod heartbeat;
pub mod runner;
