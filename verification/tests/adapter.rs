use dokp::adapter::config::{BackoffStrategy, RetryConfig};
use dokp::adapter::error::AdapterError;
use dokp::adapter::idempotency::{
    gslides_revision_key, slack_delete_key, slack_edit_key, slack_file_key, slack_message_key,
    slack_reaction_key,
};
use dokp::adapter::retry::{should_retry, RetryDecision};

#[test]
fn slack_message_key_deterministic() {
    let k1 = slack_message_key("C01ABC", "1234567890.123456");
    let k2 = slack_message_key("C01ABC", "1234567890.123456");
    assert_eq!(k1, k2);
    assert_eq!(k1.as_str(), "slack:C01ABC:1234567890.123456");
}

#[test]
fn slack_edit_key_includes_edit_ts() {
    let k = slack_edit_key("C01ABC", "1234567890.123456", "1234567891.000000");
    assert_eq!(k.as_str(), "slack:C01ABC:1234567890.123456:edit:1234567891.000000");
}

#[test]
fn slack_delete_key_format() {
    let k = slack_delete_key("C01ABC", "1234567890.123456");
    assert_eq!(k.as_str(), "slack:C01ABC:1234567890.123456:delete");
}

#[test]
fn slack_reaction_key_format() {
    let k = slack_reaction_key("C01ABC", "1234567890.123456", "U01XYZ", "thumbsup");
    assert_eq!(k.as_str(), "slack:C01ABC:1234567890.123456:react:U01XYZ:thumbsup");
}

#[test]
fn slack_file_key_format() {
    let k = slack_file_key("C01ABC", "1234567890.123456", "F01DEF");
    assert_eq!(k.as_str(), "slack:C01ABC:1234567890.123456:file:F01DEF");
}

#[test]
fn gslides_revision_key_deterministic() {
    let k1 = gslides_revision_key("pres123", "rev456");
    let k2 = gslides_revision_key("pres123", "rev456");
    assert_eq!(k1, k2);
    assert_eq!(k1.as_str(), "gslides:pres123:rev:rev456");
}

#[test]
fn different_sources_never_collide() {
    let slack = slack_message_key("C01", "123");
    let gslides = gslides_revision_key("C01", "123");
    assert_ne!(slack, gslides);
}

fn test_config() -> RetryConfig {
    RetryConfig { max_retries: 3, backoff: BackoffStrategy::Exponential, max_wait: 30 }
}

#[test]
fn non_retryable_gives_up_immediately() {
    let err = AdapterError::AuthFailure { message: "bad token".into() };
    let decision = should_retry(&err, 0, &test_config());
    assert!(matches!(decision, RetryDecision::GiveUp { .. }));
}

#[test]
fn retryable_error_retries_with_backoff() {
    let err = AdapterError::Network { message: "timeout".into() };
    let cfg = test_config();
    let d = should_retry(&err, 0, &cfg);
    assert_eq!(d, RetryDecision::RetryAfter(1));

    let d = should_retry(&err, 1, &cfg);
    assert_eq!(d, RetryDecision::RetryAfter(2));

    let d = should_retry(&err, 2, &cfg);
    assert_eq!(d, RetryDecision::RetryAfter(4));
}

#[test]
fn exceeding_max_retries_gives_up() {
    let err = AdapterError::Network { message: "timeout".into() };
    let d = should_retry(&err, 3, &test_config());
    assert!(matches!(d, RetryDecision::GiveUp { .. }));
}

#[test]
fn rate_limit_honours_retry_after() {
    let err = AdapterError::RateLimited { retry_after_secs: 5 };
    let d = should_retry(&err, 0, &test_config());
    assert_eq!(d, RetryDecision::RetryAfter(5));
}

#[test]
fn rate_limit_too_long_gives_up() {
    let err = AdapterError::RateLimited { retry_after_secs: 999 };
    let d = should_retry(&err, 0, &test_config());
    assert!(matches!(d, RetryDecision::GiveUp { .. }));
}

#[test]
fn backoff_is_capped_at_max_wait() {
    let err = AdapterError::Network { message: "timeout".into() };
    let cfg = RetryConfig { max_retries: 10, backoff: BackoffStrategy::Exponential, max_wait: 30 };
    assert_eq!(should_retry(&err, 6, &cfg), RetryDecision::RetryAfter(30));
    let linear = RetryConfig { max_retries: 10, backoff: BackoffStrategy::Linear, max_wait: 30 };
    assert_eq!(should_retry(&err, 2, &linear), RetryDecision::RetryAfter(6));
    let constant = RetryConfig { max_retries: 10, backoff: BackoffStrategy::Constant, max_wait: 30 };
    assert_eq!(should_retry(&err, 5, &constant), RetryDecision::RetryAfter(2));
}

#[test]
fn adapter_error_text_and_class() {
    let err = AdapterError::RateLimited { retry_after_secs: 7 };
    assert_eq!(err.to_string(), "rate limited: retry after 7s");
    assert!(err.is_retryable());
    let err = AdapterError::MalformedResponse { message: "bad json".into() };
    assert_eq!(err.to_string(), "malformed response: bad json");
    assert!(!err.is_retryable());
}
