use dokp::domain::error::DomainError;
use dokp::domain::json::JsonValue;
use dokp::domain::observation::Observation;
use dokp::domain::types::{AuthorityModel, CaptureModel, FailureClass};
use dokp::domain::values::EntityRef;

#[test]
fn failure_class_exhaustive() {
    let f = FailureClass::ValidationFailure;
    match f {
        FailureClass::ValidationFailure => {}
        FailureClass::PolicyFailure => {}
        FailureClass::ConflictFailure => {}
        FailureClass::DeterminismFailure => {}
        FailureClass::RetryableEffectFailure => {}
        FailureClass::NonRetryableEffectFailure => {}
        FailureClass::QuarantineFailure => {}
    }
}

#[test]
fn entity_ref_display() {
    let r = EntityRef::new("person:tanaka-2026");
    assert_eq!(r.to_string(), "person:tanaka-2026");
}

#[test]
fn observation_id_is_uuid_v7() {
    let id = Observation::new_id();
    let parsed = uuid::Uuid::parse_str(id.as_str()).unwrap();
    assert_eq!(parsed.get_version(), Some(uuid::Version::SortRand));
}

#[test]
fn model_names_are_variant_names() {
    assert_eq!(AuthorityModel::LakeAuthoritative.name(), "LakeAuthoritative");
    assert_eq!(AuthorityModel::DualReference.name(), "DualReference");
    assert_eq!(CaptureModel::ChunkManifest.name(), "ChunkManifest");
}

#[test]
fn domain_error_text_and_class() {
    let e = DomainError::Conflict("already exists".into());
    assert_eq!(e.to_string(), "conflict: already exists");
    assert_eq!(e.failure_class(), FailureClass::ConflictFailure);
    let e = DomainError::NotFound("schema:x".into());
    assert_eq!(e.failure_class(), FailureClass::ValidationFailure);
}

#[test]
fn json_text_is_compact_and_escaped() {
    let v = JsonValue::Object(vec![
        ("a".to_string(), JsonValue::String("line\n\"q\"".to_string())),
        ("b".to_string(), JsonValue::Array(vec![JsonValue::Null, JsonValue::Bool(true), JsonValue::Number("42".into())])),
    ]);
    assert_eq!(v.to_text(), "{\"a\":\"line\\n\\\"q\\\"\",\"b\":[null,true,42]}");
    let text = v.to_text();
    let parsed: serde_json::Value = serde_json::from_str(&text).unwrap();
    assert_eq!(parsed["a"], "line\n\"q\"");
}

#[test]
fn json_get_finds_first_member() {
    let v = JsonValue::Object(vec![
        ("k".to_string(), JsonValue::String("one".into())),
        ("k".to_string(), JsonValue::String("two".into())),
    ]);
    assert_eq!(v.get_str("k").map(|s| s.as_str()), Some("one"));
    assert!(v.get("missing").is_none());
    assert!(JsonValue::Null.get("k").is_none());
}
