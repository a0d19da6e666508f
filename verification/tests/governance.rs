use dokp::domain::json::JsonValue;
use dokp::domain::types::{AuthorityModel, WriteMode};
use dokp::domain::values::{ActorRef, EntityRef, ProjectionRef};
use dokp::governance::audit::{AuditEmitter, AuditLog, InMemoryAuditLog};
use dokp::governance::engine::PolicyEngine;
use dokp::governance::filter::FilteringGate;
use dokp::governance::types::{
    AccessScope, AuditEventKind, Capability, ConfidenceLevel, ConsentStatus, DenyReason,
    Environment, MaskStrategy, Operation, PolicyOutcome, PolicyRequest, RestrictedFieldSpec, Role,
};
use sha2::Digest;

fn to_value(v: &serde_json::Value) -> JsonValue {
    match v {
        serde_json::Value::Null => JsonValue::Null,
        serde_json::Value::Bool(b) => JsonValue::Bool(*b),
        serde_json::Value::Number(n) => JsonValue::Number(n.to_string()),
        serde_json::Value::String(s) => JsonValue::String(s.clone()),
        serde_json::Value::Array(a) => JsonValue::Array(a.iter().map(to_value).collect()),
        serde_json::Value::Object(m) => {
            JsonValue::Object(m.iter().map(|(k, x)| (k.clone(), to_value(x))).collect())
        }
    }
}

fn js(text: &str) -> JsonValue {
    to_value(&serde_json::from_str(text).unwrap())
}

fn text_at<'a>(v: &'a JsonValue, key: &str) -> Option<&'a str> {
    v.get_str(key).map(|s| s.as_str())
}

fn make_request(
    role: Role,
    operation: Operation,
    scope: AccessScope,
    consent: ConsentStatus,
    env: Environment,
) -> PolicyRequest {
    PolicyRequest {
        actor: ActorRef::new("actor:test"),
        role,
        operation,
        data_scope: scope,
        consent_status: consent,
        environment: env,
    }
}

#[test]
fn allow_internal_read() {
    let req = make_request(
        Role::Researcher,
        Operation::Read { target: EntityRef::new("person:alice") },
        AccessScope::Internal,
        ConsentStatus::Unrestricted,
        Environment::Production,
    );
    assert!(PolicyEngine::evaluate(&req).is_allow());
}

#[test]
fn deny_opted_out_subject() {
    let req = make_request(
        Role::SystemAdmin,
        Operation::Read { target: EntityRef::new("person:bob") },
        AccessScope::Internal,
        ConsentStatus::OptedOut,
        Environment::Production,
    );
    assert!(PolicyEngine::evaluate(&req).is_deny());
}

#[test]
fn deny_insufficient_capability() {
    let req = make_request(
        Role::External,
        Operation::Read { target: EntityRef::new("person:x") },
        AccessScope::Internal,
        ConsentStatus::Unrestricted,
        Environment::Production,
    );
    assert!(PolicyEngine::evaluate(&req).is_deny());
}

#[test]
fn require_review_for_publication() {
    let req = make_request(
        Role::SystemAdmin,
        Operation::Publish { projection: ProjectionRef::new("proj:person-page") },
        AccessScope::Internal,
        ConsentStatus::Unrestricted,
        Environment::Production,
    );
    assert!(PolicyEngine::evaluate(&req).is_require_review());
}

#[test]
fn require_review_for_highly_sensitive_export() {
    let req = make_request(
        Role::SystemAdmin,
        Operation::Export { scope: "full".into() },
        AccessScope::HighlySensitive,
        ConsentStatus::Unrestricted,
        Environment::Export,
    );
    assert!(PolicyEngine::evaluate(&req).is_require_review());
}

#[test]
fn require_review_dual_reference_canonical_write() {
    let req = make_request(
        Role::SystemAdmin,
        Operation::Write { mode: WriteMode::Canonical, authority: AuthorityModel::DualReference },
        AccessScope::Internal,
        ConsentStatus::Unrestricted,
        Environment::Production,
    );
    assert!(PolicyEngine::evaluate(&req).is_require_review());
}

#[test]
fn annotation_write_allowed_for_researcher() {
    let req = make_request(
        Role::Researcher,
        Operation::Write { mode: WriteMode::Annotation, authority: AuthorityModel::LakeAuthoritative },
        AccessScope::Internal,
        ConsentStatus::Unrestricted,
        Environment::Production,
    );
    assert!(PolicyEngine::evaluate(&req).is_allow());
}

#[test]
fn agent_cannot_canonical_write() {
    let req = make_request(
        Role::Agent,
        Operation::Write { mode: WriteMode::Canonical, authority: AuthorityModel::LakeAuthoritative },
        AccessScope::Internal,
        ConsentStatus::Unrestricted,
        Environment::Sandbox,
    );
    assert!(PolicyEngine::evaluate(&req).is_deny());
}

#[test]
fn agent_can_run_build() {
    let req = make_request(
        Role::Agent,
        Operation::RunBuild { projection: ProjectionRef::new("proj:test") },
        AccessScope::Internal,
        ConsentStatus::Unrestricted,
        Environment::Sandbox,
    );
    assert!(PolicyEngine::evaluate(&req).is_allow());
}

#[test]
fn consent_check_runs_before_capability() {
    let req = make_request(
        Role::SystemAdmin,
        Operation::Read { target: EntityRef::new("person:z") },
        AccessScope::Internal,
        ConsentStatus::OptedOut,
        Environment::Production,
    );
    let outcome = PolicyEngine::evaluate(&req);
    assert!(outcome.is_deny());
    if let PolicyOutcome::Deny { reason } = outcome {
        assert_eq!(reason.code, "consent_opted_out");
    }
}

#[test]
fn high_confidence_auto_promotes() {
    assert!(PolicyEngine::may_auto_promote(ConfidenceLevel::High));
    assert!(!PolicyEngine::may_auto_promote(ConfidenceLevel::Medium));
    assert!(!PolicyEngine::may_auto_promote(ConfidenceLevel::Low));
}

#[test]
fn medium_confidence_requires_review() {
    assert!(PolicyEngine::requires_review_for_promotion(ConfidenceLevel::Medium));
    assert!(!PolicyEngine::requires_review_for_promotion(ConfidenceLevel::High));
}

#[test]
fn only_high_allowed_in_published() {
    assert!(PolicyEngine::allowed_in_published(ConfidenceLevel::High));
    assert!(!PolicyEngine::allowed_in_published(ConfidenceLevel::Medium));
    assert!(!PolicyEngine::allowed_in_published(ConfidenceLevel::Low));
}

#[test]
fn capability_exhaustive() {
    let caps = Role::SystemAdmin.capabilities();
    assert!(caps.contains(&Capability::ReadRegistry));
    assert!(caps.contains(&Capability::ApproveProposal));
    let agent_caps = Role::Agent.capabilities();
    assert!(!agent_caps.contains(&Capability::ApproveProposal));
}

#[test]
fn role_capabilities_are_subset_chain() {
    let admin = Role::SystemAdmin.capabilities();
    let researcher = Role::Researcher.capabilities();
    for cap in &researcher {
        assert!(admin.contains(cap), "Researcher cap {cap:?} not in Admin");
    }
}

#[test]
fn default_consent_is_restricted() {
    assert_eq!(ConsentStatus::default(), ConsentStatus::RestrictedCapture);
}

#[test]
fn policy_outcome_helpers() {
    assert!(PolicyOutcome::Allow.is_allow());
    assert!(!PolicyOutcome::Allow.is_deny());

    let deny = PolicyOutcome::Deny { reason: DenyReason { code: "test".into(), message: "msg".into() } };
    assert!(deny.is_deny());
}

#[test]
fn confidence_level_ordering() {
    assert!(ConfidenceLevel::Low < ConfidenceLevel::Medium);
    assert!(ConfidenceLevel::Medium < ConfidenceLevel::High);
}

#[test]
fn emit_and_retrieve() {
    let mut emitter = AuditEmitter::new(InMemoryAuditLog::new());
    let actor = ActorRef::new("actor:alice");
    emitter.emit(&actor, AuditEventKind::WriteExecution, js(r#"{"target": "obs:1"}"#));
    emitter.emit(&actor, AuditEventKind::Export, js(r#"{"scope": "full"}"#));

    let log = emitter.get_log();
    assert_eq!(log.count(), 2);
    let all = log.all_events();
    assert_eq!(all[0].kind, AuditEventKind::WriteExecution);
    assert_eq!(all[1].kind, AuditEventKind::Export);
    assert_eq!(text_at(&all[0].detail, "target"), Some("obs:1"));
}

#[test]
fn events_since_filters_by_time() {
    let mut emitter = AuditEmitter::new(InMemoryAuditLog::new());
    let actor = ActorRef::new("actor:bob");
    let before = chrono::Utc::now().timestamp_micros();
    emitter.emit(&actor, AuditEventKind::PolicyDenial, js("{}"));

    let events = emitter.get_log().events_since(before);
    assert_eq!(events.len(), 1);

    let future = (chrono::Utc::now() + chrono::Duration::hours(1)).timestamp_micros();
    let empty = emitter.get_log().events_since(future);
    assert!(empty.is_empty());
}

#[test]
fn ids_are_sequential() {
    let mut emitter = AuditEmitter::new(InMemoryAuditLog::new());
    let actor = ActorRef::new("actor:test");
    emitter.emit(&actor, AuditEventKind::Approval, js("{}"));
    emitter.emit(&actor, AuditEventKind::Rejection, js("{}"));

    let events = emitter.get_log().events_since(i64::MIN);
    assert_eq!(events[0].id, "audit:1");
    assert_eq!(events[1].id, "audit:2");
}

#[test]
fn empty_log() {
    let log = InMemoryAuditLog::new();
    assert_eq!(log.count(), 0);
    assert!(log.all_events().is_empty());
}

fn restricted_fields() -> Vec<RestrictedFieldSpec> {
    vec![
        RestrictedFieldSpec {
            field_path: "real_name".into(),
            level: AccessScope::Restricted,
            mask_strategy: MaskStrategy::Redact,
        },
        RestrictedFieldSpec {
            field_path: "email".into(),
            level: AccessScope::HighlySensitive,
            mask_strategy: MaskStrategy::Exclude,
        },
        RestrictedFieldSpec {
            field_path: "phone".into(),
            level: AccessScope::Restricted,
            mask_strategy: MaskStrategy::Hash,
        },
    ]
}

#[test]
fn internal_viewer_sees_public_but_not_restricted() {
    let payload = js(r#"{
        "display_name": "Alice",
        "real_name": "Alice Smith",
        "email": "alice@example.com",
        "phone": "090-1234-5678"
    }"#);
    let result = FilteringGate::filter(&payload, AccessScope::Internal, &restricted_fields());
    assert_eq!(text_at(&result.payload, "real_name"), Some("[REDACTED]"));
    assert!(result.payload.get("email").is_none());
    assert_ne!(text_at(&result.payload, "phone"), Some("090-1234-5678"));
    assert_eq!(text_at(&result.payload, "display_name"), Some("Alice"));
    assert_eq!(result.masked_fields.len(), 3);
}

#[test]
fn restricted_viewer_sees_restricted_but_not_highly_sensitive() {
    let payload = js(r#"{"real_name": "Bob", "email": "bob@example.com"}"#);
    let result = FilteringGate::filter(&payload, AccessScope::Restricted, &restricted_fields());
    assert_eq!(text_at(&result.payload, "real_name"), Some("Bob"));
    assert!(result.payload.get("email").is_none());
    assert_eq!(result.masked_fields.len(), 1);
}

#[test]
fn public_viewer_everything_masked() {
    let payload = js(r#"{
        "display_name": "Charlie",
        "real_name": "Charlie Brown",
        "email": "c@example.com",
        "phone": "080-0000-0000"
    }"#);
    let result = FilteringGate::filter(&payload, AccessScope::Public, &restricted_fields());
    assert_eq!(text_at(&result.payload, "real_name"), Some("[REDACTED]"));
    assert!(result.payload.get("email").is_none());
    assert_eq!(result.masked_fields.len(), 3);
}

#[test]
fn highly_sensitive_viewer_sees_everything() {
    let payload = js(r#"{
        "real_name": "Admin",
        "email": "admin@example.com",
        "phone": "070-0000-0000"
    }"#);
    let result = FilteringGate::filter(&payload, AccessScope::HighlySensitive, &restricted_fields());
    assert_eq!(text_at(&result.payload, "real_name"), Some("Admin"));
    assert_eq!(text_at(&result.payload, "email"), Some("admin@example.com"));
    assert!(result.masked_fields.is_empty());
}

#[test]
fn nested_field_path() {
    let payload = js(r#"{"contact": {"email": "x@y.com", "phone": "000"}}"#);
    let specs = vec![RestrictedFieldSpec {
        field_path: "contact.email".into(),
        level: AccessScope::HighlySensitive,
        mask_strategy: MaskStrategy::Exclude,
    }];
    let result = FilteringGate::filter(&payload, AccessScope::Internal, &specs);
    let contact = result.payload.get("contact").unwrap();
    assert!(contact.get("email").is_none());
    assert_eq!(text_at(contact, "phone"), Some("000"));
}

#[test]
fn missing_field_is_noop() {
    let payload = js(r#"{"name": "test"}"#);
    let specs = vec![RestrictedFieldSpec {
        field_path: "nonexistent".into(),
        level: AccessScope::Restricted,
        mask_strategy: MaskStrategy::Exclude,
    }];
    let result = FilteringGate::filter(&payload, AccessScope::Public, &specs);
    assert!(result.masked_fields.is_empty());
    assert_eq!(result.payload, payload);
}

#[test]
fn empty_specs_passes_through() {
    let payload = js(r#"{"secret": "data"}"#);
    let result = FilteringGate::filter(&payload, AccessScope::Public, &[]);
    assert_eq!(result.payload, payload);
    assert!(result.masked_fields.is_empty());
}

#[test]
fn hashed_field_is_sha256_of_its_json_text() {
    let payload = js(r#"{"phone": "090-1234-5678"}"#);
    let result = FilteringGate::filter(&payload, AccessScope::Internal, &restricted_fields());
    let expected = hex::encode(sha2::Sha256::digest(b"\"090-1234-5678\""));
    assert_eq!(text_at(&result.payload, "phone"), Some(expected.as_str()));
    assert_eq!(result.masked_fields, vec!["phone".to_string()]);
}

#[test]
fn hashed_object_uses_key_ordered_text() {
    let phone = JsonValue::Object(vec![
        ("work".to_string(), JsonValue::String("03-0000".into())),
        ("home".to_string(), JsonValue::Number("7".into())),
        ("home".to_string(), JsonValue::String("090-1".into())),
    ]);
    assert_eq!(phone.to_sorted_text(), r#"{"home":"090-1","work":"03-0000"}"#);
    let payload = JsonValue::Object(vec![("phone".to_string(), phone)]);
    let result = FilteringGate::filter(&payload, AccessScope::Internal, &restricted_fields());
    let serde_text = serde_json::from_str::<serde_json::Value>(r#"{"work": "03-0000", "home": "090-1"}"#)
        .unwrap()
        .to_string();
    let expected = format!("{:x}", sha2::Sha256::digest(serde_text.as_bytes()));
    assert_eq!(text_at(&result.payload, "phone"), Some(expected.as_str()));
}
