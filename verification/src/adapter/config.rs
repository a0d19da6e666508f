//! Adapter configuration. Durations are whole seconds.

use vstd::prelude::*;

use crate::domain::types::{AuthorityModel, CaptureModel};
use crate::domain::values::{ObserverRef, SchemaRef, SemVer, SourceSystemRef};

verus! {

/// Which schema version range an adapter supports.
#[derive(Debug, Clone)]
pub struct SchemaBinding {
    pub schema: SchemaRef,
    /// A SemVer range, for example `>=1.0.0 <2.0.0`.
    pub versions: String,
}

#[derive(Debug, Clone)]
pub struct RateLimitConfig {
    pub requests_per_second: u32,
    pub burst: u32,
}

/// Retry policy. `max_wait` is in seconds.
#[derive(Debug, Clone)]
pub struct RetryConfig {
    pub max_retries: u32,
    pub backoff: BackoffStrategy,
    pub max_wait: u64,
}

#[derive(Debug, Clone, Copy, PartialEq, Eq, Structural)]
pub enum BackoffStrategy {
    Exponential,
    Linear,
    Constant,
}

/// Configuration common to all adapters. Intervals are in seconds.
#[derive(Debug, Clone)]
pub struct AdapterConfig {
    pub observer_id: ObserverRef,
    pub source_system_id: SourceSystemRef,
    pub adapter_version: SemVer,
    pub authority_model: AuthorityModel,
    pub capture_model: CaptureModel,
    pub schemas: Vec<SchemaRef>,
    pub schema_bindings: Vec<SchemaBinding>,
    pub poll_interval: u64,
    pub heartbeat_interval: u64,
    pub rate_limit: RateLimitConfig,
    pub retry: RetryConfig,
    /// Reference to a credential secret; fetching it is out of scope.
    pub credential_ref: String,
}

} // verus!
