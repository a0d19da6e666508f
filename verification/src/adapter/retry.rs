//! Retry policy: from an error and an attempt number, whether to retry and
//! after how many seconds.

use vstd::prelude::*;
use vstd::string::*;

use crate::adapter::config::{BackoffStrategy, RetryConfig};
use crate::adapter::error::{adapter_error_text, adapter_failure_class, AdapterError};
use crate::domain::types::FailureClass;
use crate::text::{concat2, concat3, spec_decimal, u64_to_decimal};

verus! {

/// The decision of `should_retry`.
#[derive(Debug, Clone, PartialEq, Eq)]
pub enum RetryDecision {
    /// Retry after this many seconds.
    RetryAfter(u64),
    /// Do not retry.
    GiveUp { reason: String },
}

/// The model of a decision.
pub enum Decision {
    RetryAfter(nat),
    GiveUp(Seq<char>),
}

impl View for RetryDecision {
    type V = Decision;

    open spec fn view(&self) -> Decision {
        match self {
            RetryDecision::RetryAfter(s) => Decision::RetryAfter(*s as nat),
            RetryDecision::GiveUp { reason } => Decision::GiveUp(reason@),
        }
    }
}

/// `2^attempt`, saturating at `u64::MAX`.
pub open spec fn exponential(attempt: nat) -> nat {
    if attempt >= 64 {
        u64::MAX as nat
    } else {
        vstd::arithmetic::power2::pow2(attempt)
    }
}

/// The back-off before attempt `attempt + 1`, capped at `max_wait`.
pub open spec fn backoff_secs(attempt: nat, strategy: BackoffStrategy, max_wait: nat) -> nat {
    let base = match strategy {
        BackoffStrategy::Exponential => exponential(attempt),
        BackoffStrategy::Linear => (attempt + 1) * 2,
        BackoffStrategy::Constant => 2,
    };
    if base < max_wait { base } else { max_wait }
}

/// Whether and when to retry: never for non-retryable errors or past the
/// retry budget; after the source's wait for rate limits, if within
/// `max_wait`; otherwise after the back-off.
pub open spec fn retry_decision(e: AdapterError, attempt: nat, config: RetryConfig) -> Decision {
    if adapter_failure_class(e) != FailureClass::RetryableEffectFailure {
        Decision::GiveUp("non-retryable: "@ + adapter_error_text(e))
    } else if attempt >= config.max_retries {
        Decision::GiveUp("max retries ("@ + spec_decimal(config.max_retries as nat) + ") exceeded"@)
    } else {
        match e {
            AdapterError::RateLimited { retry_after_secs } => if retry_after_secs <= config.max_wait {
                Decision::RetryAfter(retry_after_secs as nat)
            } else {
                Decision::GiveUp(
                    "retry-after "@ + spec_decimal(retry_after_secs as nat) + "s exceeds max_wait "@
                        + spec_decimal(config.max_wait as nat) + "s"@,
                )
            },
            _ => Decision::RetryAfter(backoff_secs(attempt, config.backoff, config.max_wait as nat)),
        }
    }
}

/// Whether a failed attempt should be retried, and after how long.
pub fn should_retry(error: &AdapterError, attempt: u32, config: &RetryConfig) -> (r: RetryDecision)
    ensures
        r@ == retry_decision(*error, attempt as nat, *config),
{
    if !error.is_retryable() {
        return RetryDecision::GiveUp { reason: concat2("non-retryable: ", error.to_string().as_str()) };
    }
    if attempt >= config.max_retries {
        return RetryDecision::GiveUp {
            reason: concat3("max retries (", u64_to_decimal(config.max_retries as u64).as_str(), ") exceeded"),
        };
    }
    match error {
        AdapterError::RateLimited { retry_after_secs } => {
            if *retry_after_secs <= config.max_wait {
                return RetryDecision::RetryAfter(*retry_after_secs);
            } else {
                let a = concat3("retry-after ", u64_to_decimal(*retry_after_secs).as_str(), "s exceeds max_wait ");
                return RetryDecision::GiveUp {
                    reason: concat3(a.as_str(), u64_to_decimal(config.max_wait).as_str(), "s"),
                };
            }
        },
        _ => {},
    }
    let wait = compute_backoff(attempt, config);
    RetryDecision::RetryAfter(wait)
}

/// The back-off before the next attempt, in seconds.
fn compute_backoff(attempt: u32, config: &RetryConfig) -> (r: u64)
    ensures
        r == backoff_secs(attempt as nat, config.backoff, config.max_wait as nat),
{
    let base: u64 = match config.backoff {
        BackoffStrategy::Exponential => {
            if attempt >= 64 {
                u64::MAX
            } else {
                let mut v: u64 = 1;
                let mut k: u32 = 0;
                proof {
                    vstd::arithmetic::power2::lemma2_to64();
                }
                while k < attempt
                    invariant
                        k <= attempt < 64,
                        v == vstd::arithmetic::power2::pow2(k as nat),
                    decreases attempt - k,
                {
                    proof {
                        vstd::arithmetic::power2::lemma_pow2_unfold((k + 1) as nat);
                        vstd::arithmetic::power2::lemma_pow2_strictly_increases((k + 1) as nat, 64);
                        vstd::arithmetic::power2::lemma2_to64();
                    }
                    v = v * 2;
                    k = k + 1;
                }
                v
            }
        },
        BackoffStrategy::Linear => (attempt as u64 + 1) * 2,
        BackoffStrategy::Constant => 2,
    };
    if base < config.max_wait {
        base
    } else {
        config.max_wait
    }
}

} // verus!
