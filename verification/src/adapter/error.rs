//! Errors of the adapter layer, and the failure class of each.

use vstd::prelude::*;
use vstd::string::*;

use crate::domain::types::FailureClass;
use crate::text::{concat2, concat3, spec_decimal, u64_to_decimal, usize_to_decimal};

verus! {

#[derive(Debug, Clone)]
pub enum AdapterError {
    /// Rate limited: back off and retry.
    RateLimited { retry_after_secs: u64 },
    /// Authentication or authorisation failure: stop and alert.
    AuthFailure { message: String },
    /// Transient network failure or timeout: retry.
    Network { message: String },
    /// The source returned data that cannot be parsed: quarantine.
    MalformedResponse { message: String },
    /// Some items of a batch succeeded, some failed.
    PartialFailure { succeeded: usize, failed: usize },
    /// Any other, non-retryable error.
    Other(String),
}

pub open spec fn adapter_failure_class(e: AdapterError) -> FailureClass {
    match e {
        AdapterError::RateLimited { .. } => FailureClass::RetryableEffectFailure,
        AdapterError::Network { .. } => FailureClass::RetryableEffectFailure,
        AdapterError::AuthFailure { .. } => FailureClass::NonRetryableEffectFailure,
        AdapterError::Other(_) => FailureClass::NonRetryableEffectFailure,
        AdapterError::MalformedResponse { .. } => FailureClass::QuarantineFailure,
        AdapterError::PartialFailure { .. } => FailureClass::RetryableEffectFailure,
    }
}

/// The text of an adapter error.
pub open spec fn adapter_error_text(e: AdapterError) -> Seq<char> {
    match e {
        AdapterError::RateLimited { retry_after_secs } => "rate limited: retry after "@
            + spec_decimal(retry_after_secs as nat) + "s"@,
        AdapterError::AuthFailure { message } => "auth failure: "@ + message@,
        AdapterError::Network { message } => "network: "@ + message@,
        AdapterError::MalformedResponse { message } => "malformed response: "@ + message@,
        AdapterError::PartialFailure { succeeded, failed } => "partial failure: "@ + spec_decimal(
            succeeded as nat,
        ) + " ok, "@ + spec_decimal(failed as nat) + " failed"@,
        AdapterError::Other(m) => "adapter error: "@ + m@,
    }
}

impl AdapterError {
    pub fn failure_class(&self) -> (r: FailureClass)
        ensures
            r == adapter_failure_class(*self),
    {
        match self {
            AdapterError::RateLimited { .. } => FailureClass::RetryableEffectFailure,
            AdapterError::Network { .. } => FailureClass::RetryableEffectFailure,
            AdapterError::AuthFailure { .. } => FailureClass::NonRetryableEffectFailure,
            AdapterError::Other(_) => FailureClass::NonRetryableEffectFailure,
            AdapterError::MalformedResponse { .. } => FailureClass::QuarantineFailure,
            AdapterError::PartialFailure { .. } => FailureClass::RetryableEffectFailure,
        }
    }

    /// Whether the failure is retryable: rate limits, network failures and
    /// partial failures.
    pub fn is_retryable(&self) -> (r: bool)
        ensures
            r == (adapter_failure_class(*self) == FailureClass::RetryableEffectFailure),
    {
        match self.failure_class() {
            FailureClass::RetryableEffectFailure => true,
            _ => false,
        }
    }

    /// The text of the error.
    pub fn to_string(&self) -> (r: String)
        ensures
            r@ == adapter_error_text(*self),
    {
        match self {
            AdapterError::RateLimited { retry_after_secs } => concat3(
                "rate limited: retry after ",
                u64_to_decimal(*retry_after_secs).as_str(),
                "s",
            ),
            AdapterError::AuthFailure { message } => concat2("auth failure: ", message.as_str()),
            AdapterError::Network { message } => concat2("network: ", message.as_str()),
            AdapterError::MalformedResponse { message } => concat2(
                "malformed response: ",
                message.as_str(),
            ),
            AdapterError::PartialFailure { succeeded, failed } => {
                let a = concat3("partial failure: ", usize_to_decimal(*succeeded).as_str(), " ok, ");
                concat3(a.as_str(), usize_to_decimal(*failed).as_str(), " failed")
            },
            AdapterError::Other(m) => concat2("adapter error: ", m.as_str()),
        }
    }
}

} // verus!
