//! Governance: policy decisions, filtering before exposure, and the audit
//! trail.

pub mod audit;
pub mod engine;
pub mod filter;
pub mod types;
