//! Write-back of projection outputs to external services.

pub mod notion;
pub mod traits;
