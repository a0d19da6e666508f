use dokp::domain::types::ProjectionHealth;
use dokp::domain::values::{ObserverRef, ProjectionRef};
use dokp::runtime::config::{
    BuildConfig, HealthConfig, NetworkPolicy, ObserverHealthThreshold, RuntimeConfig,
    RuntimeEnvironment, StorageConfig,
};
use dokp::runtime::health::{ComponentHealth, HealthAggregator, HealthStatus, ProjectionHealthInfo};
use dokp::runtime::heartbeat::{HeartbeatMonitor, HeartbeatPayload, ObserverStatus};
use dokp::runtime::runner::{artifact_hash, BuildRunner, BuildSpec, LocalBuildRunner, SourcePin};
use sha2::Digest;

#[test]
fn default_config_has_sane_values() {
    let cfg = RuntimeConfig::default();
    assert_eq!(cfg.environment, RuntimeEnvironment::Local);
    assert_eq!(cfg.build.network_policy, NetworkPolicy::DefaultDeny);
    assert_eq!(cfg.build.timeout, 300);
    assert_eq!(cfg.health.default_max_gap, 300);
}

#[test]
fn default_storage_paths() {
    let s = StorageConfig::default();
    assert_eq!(s.lake_path, "./data/lake");
    assert_eq!(s.blob_path, "./data/blobs");
    assert_eq!(s.registry_path, "./data/registry");
    assert_eq!(BuildConfig::default().work_dir, "./build");
}

#[test]
fn observer_override_replaces_earlier_value() {
    let mut cfg = HealthConfig::default();
    cfg.set_override("obs:slack-crawler", ObserverHealthThreshold { heartbeat_interval: 30, max_gap: 120 });
    cfg.set_override("obs:slack-crawler", ObserverHealthThreshold { heartbeat_interval: 30, max_gap: 90 });
    assert_eq!(cfg.observer_overrides.len(), 1);
    assert_eq!(cfg.override_for("obs:slack-crawler").unwrap().max_gap, 90);
    assert!(cfg.override_for("obs:other").is_none());
}

fn agg() -> HealthAggregator {
    HealthAggregator::new("0.1.0")
}

#[test]
fn all_healthy() {
    let health = agg().aggregate(
        vec![ComponentHealth { name: "lake".into(), status: HealthStatus::Healthy, message: None }],
        vec![(
            ProjectionRef::new("proj:person-page"),
            ProjectionHealthInfo {
                status: ProjectionHealth::Healthy,
                built_at: Some("2026-01-01T00:00:00Z".into()),
                stale: false,
            },
        )],
    );
    assert_eq!(health.status, HealthStatus::Healthy);
    assert_eq!(health.version, "0.1.0");
}

#[test]
fn degraded_on_stale_projection() {
    let health = agg().aggregate(
        vec![ComponentHealth { name: "lake".into(), status: HealthStatus::Healthy, message: None }],
        vec![(
            ProjectionRef::new("proj:person-page"),
            ProjectionHealthInfo {
                status: ProjectionHealth::Degraded,
                built_at: Some("2026-01-01T00:00:00Z".into()),
                stale: true,
            },
        )],
    );
    assert_eq!(health.status, HealthStatus::Degraded);
}

#[test]
fn unhealthy_on_component_down() {
    let health = agg().aggregate(
        vec![ComponentHealth {
            name: "registry".into(),
            status: HealthStatus::Unhealthy,
            message: Some("connection refused".into()),
        }],
        vec![],
    );
    assert_eq!(health.status, HealthStatus::Unhealthy);
}

#[test]
fn empty_components_is_ok() {
    let health = agg().aggregate(vec![], vec![]);
    assert_eq!(health.status, HealthStatus::Healthy);
}

#[test]
fn later_projection_entry_replaces_earlier_one() {
    let info = |status| ProjectionHealthInfo { status, built_at: None, stale: false };
    let health = agg().aggregate(
        vec![],
        vec![
            (ProjectionRef::new("proj:a"), info(ProjectionHealth::Broken)),
            (ProjectionRef::new("proj:a"), info(ProjectionHealth::Healthy)),
        ],
    );
    assert_eq!(health.projections.len(), 1);
    assert_eq!(health.status, HealthStatus::Healthy);
}

fn default_monitor() -> HeartbeatMonitor {
    HeartbeatMonitor::new(HealthConfig {
        default_heartbeat_interval: 60,
        default_max_gap: 300,
        observer_overrides: vec![],
    })
}

fn alive_payload() -> HeartbeatPayload {
    HeartbeatPayload {
        status: ObserverStatus::Alive,
        last_successful_capture_at: Some(chrono::Utc::now().timestamp_micros()),
        pending_count: 0,
    }
}

const SECOND: i64 = 1_000_000;

#[test]
fn no_alerts_when_heartbeat_recent() {
    let mut monitor = default_monitor();
    let obs = ObserverRef::new("obs:slack-crawler");
    let now = chrono::Utc::now().timestamp_micros();
    monitor.receive_heartbeat_at(obs, alive_payload(), now);

    let alerts = monitor.detect_gaps_at(now + 60 * SECOND);
    assert!(alerts.is_empty());
}

#[test]
fn alert_when_heartbeat_silent_beyond_threshold() {
    let mut monitor = default_monitor();
    let obs = ObserverRef::new("obs:slack-crawler");
    let past = chrono::Utc::now().timestamp_micros() - 600 * SECOND;
    monitor.receive_heartbeat_at(obs, alive_payload(), past);

    let alerts = monitor.detect_gaps_at(chrono::Utc::now().timestamp_micros());
    assert_eq!(alerts.len(), 1);
    assert_eq!(alerts[0].observer, ObserverRef::new("obs:slack-crawler"));
    assert!(alerts[0].gap_duration > 300 * 1_000_000);
}

#[test]
fn per_observer_override_threshold() {
    let mut config = HealthConfig { default_heartbeat_interval: 60, default_max_gap: 300, observer_overrides: vec![] };
    config.set_override("obs:sensor", ObserverHealthThreshold { heartbeat_interval: 10, max_gap: 30 });

    let mut monitor = HeartbeatMonitor::new(config);
    let sensor = ObserverRef::new("obs:sensor");
    let past = chrono::Utc::now().timestamp_micros() - 60 * SECOND;
    monitor.receive_heartbeat_at(sensor, alive_payload(), past);

    let alerts = monitor.detect_gaps_at(chrono::Utc::now().timestamp_micros());
    assert_eq!(alerts.len(), 1);
    assert_eq!(alerts[0].threshold, 30);
}

#[test]
fn tracked_count() {
    let mut monitor = default_monitor();
    assert_eq!(monitor.tracked_count(), 0);
    monitor.receive_heartbeat(ObserverRef::new("obs:a"), alive_payload());
    monitor.receive_heartbeat(ObserverRef::new("obs:b"), alive_payload());
    assert_eq!(monitor.tracked_count(), 2);
    monitor.receive_heartbeat(ObserverRef::new("obs:a"), alive_payload());
    assert_eq!(monitor.tracked_count(), 2);
}

#[test]
fn last_heartbeat_query() {
    let mut monitor = default_monitor();
    let obs = ObserverRef::new("obs:test");
    assert!(monitor.last_heartbeat(&obs).is_none());

    monitor.receive_heartbeat(obs.clone(), alive_payload());
    let hb = monitor.last_heartbeat(&obs).unwrap();
    assert_eq!(hb.status, ObserverStatus::Alive);
}

#[test]
fn degraded_status_tracked() {
    let mut monitor = default_monitor();
    let obs = ObserverRef::new("obs:degraded");
    monitor.receive_heartbeat(
        obs.clone(),
        HeartbeatPayload { status: ObserverStatus::Degraded, last_successful_capture_at: None, pending_count: 42 },
    );
    let hb = monitor.last_heartbeat(&obs).unwrap();
    assert_eq!(hb.status, ObserverStatus::Degraded);
    assert_eq!(hb.pending_count, 42);
}

#[test]
fn no_observers_no_alerts() {
    let monitor = default_monitor();
    assert!(monitor.detect_gaps().is_empty());
}

#[test]
fn gap_exactly_at_threshold_is_not_alerted() {
    let mut monitor = default_monitor();
    monitor.receive_heartbeat_at(ObserverRef::new("obs:edge"), alive_payload(), 0);
    assert!(monitor.detect_gaps_at(300 * SECOND).is_empty());
    let alerts = monitor.detect_gaps_at(300 * SECOND + 1);
    assert_eq!(alerts.len(), 1);
    assert_eq!(alerts[0].gap_duration, 300 * 1_000_000 + 1);
    assert_eq!(alerts[0].last_heartbeat_at, Some(0));
    assert!(monitor.detect_gaps_at(-5).is_empty());
}

fn default_runner() -> LocalBuildRunner {
    LocalBuildRunner::new(BuildConfig::default())
}

fn test_spec() -> BuildSpec {
    BuildSpec {
        projection_id: "proj:person-page".into(),
        entrypoint: "build.sql".into(),
        source_pins: vec![SourcePin { source_ref: "lake".into(), watermark: "wm:100".into() }],
    }
}

#[test]
fn build_succeeds_with_hash() {
    let runner = default_runner();
    let outcome = runner.run(&test_spec());
    assert!(outcome.success);
    assert!(!outcome.timed_out);
    assert!(outcome.artifact_hash.is_some());
    assert!(!outcome.artifact_hash.as_ref().unwrap().is_empty());
    assert!(outcome.log.contains("Build completed"));
}

#[test]
fn artifact_hash_is_deterministic() {
    let runner = default_runner();
    let spec = test_spec();
    let h1 = runner.run(&spec).artifact_hash.unwrap();
    let h2 = runner.run(&spec).artifact_hash.unwrap();
    assert_eq!(h1, h2, "Same spec must produce same artifact hash");
}

#[test]
fn different_spec_different_hash() {
    let runner = default_runner();
    let spec1 = test_spec();
    let spec2 = BuildSpec { projection_id: "proj:identity-resolution".into(), ..test_spec() };
    let h1 = runner.run(&spec1).artifact_hash.unwrap();
    let h2 = runner.run(&spec2).artifact_hash.unwrap();
    assert_ne!(h1, h2);
}

#[test]
fn verify_sandbox_default_ok() {
    let runner = default_runner();
    assert!(runner.verify_sandbox().is_empty());
}

#[test]
fn verify_sandbox_warns_unrestricted_network() {
    let runner = LocalBuildRunner::new(BuildConfig {
        network_policy: NetworkPolicy::Unrestricted,
        ..BuildConfig::default()
    });
    let issues = runner.verify_sandbox();
    assert_eq!(issues.len(), 1);
    assert!(issues[0].contains("DefaultDeny"));
}

#[test]
fn build_log_contains_spec_info() {
    let runner = default_runner();
    let outcome = runner.run(&test_spec());
    assert!(outcome.log.contains("proj:person-page"));
    assert!(outcome.log.contains("build.sql"));
}

#[test]
fn artifact_hash_is_sha256_of_pinned_spec() {
    let expected = hex::encode(sha2::Sha256::digest(b"proj:person-page:build.sql:lake@wm:100"));
    assert_eq!(artifact_hash(&test_spec()), expected);
}

#[test]
fn build_log_and_timeout_of_an_outcome() {
    let runner = default_runner();
    let outcome = runner.outcome_for(&test_spec(), 301_000_000);
    assert!(outcome.timed_out);
    assert!(!outcome.success);
    assert_eq!(
        outcome.log,
        "Build started for proj:person-page\nEntrypoint: build.sql\nSource pins: 1\nNetwork: DefaultDeny\nTimeout: 300s\nBuild completed."
    );
    let zero = LocalBuildRunner::new(BuildConfig { timeout: 0, ..BuildConfig::default() });
    assert_eq!(zero.verify_sandbox(), vec!["Build timeout is zero".to_string()]);
    assert!(zero.build_log(&test_spec()).contains("Timeout: 0ns"));
}
