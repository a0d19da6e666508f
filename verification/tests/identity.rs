use dokp::domain::json::JsonValue;
use dokp::domain::observation::Observation;
use dokp::domain::types::{AuthorityModel, CaptureModel};
use dokp::domain::values::{EntityRef, IdempotencyKey, ObserverRef, SchemaRef, SemVer, SourceSystemRef};
use dokp::governance::types::ConfidenceLevel;
use dokp::identity::projector::{latest_recorded_at, IdentityProjector};
use dokp::identity::types::{CandidateStatus, MatchType, ResolutionCandidate};
use dokp::projection::runner::Projector;

fn s(v: &str) -> JsonValue {
    JsonValue::String(v.to_string())
}

fn obj(members: Vec<(&str, JsonValue)>) -> JsonValue {
    JsonValue::Object(members.into_iter().map(|(k, v)| (k.to_string(), v)).collect())
}

fn slack_obs(user_id: &str, user_name: &str, email: Option<&str>, key: &str) -> Observation {
    let mut members = vec![("text", s("hello")), ("user_id", s(user_id)), ("user_name", s(user_name))];
    if let Some(email) = email {
        members.insert(0, ("email", s(email)));
    }
    let now = chrono::Utc::now().timestamp_micros();
    Observation {
        id: Observation::new_id(),
        schema: SchemaRef::new("schema:slack-message"),
        schema_version: SemVer::new("1.0.0"),
        observer: ObserverRef::new("obs:slack-crawler"),
        source_system: Some(SourceSystemRef::new("sys:slack")),
        actor: None,
        authority_model: AuthorityModel::LakeAuthoritative,
        capture_model: CaptureModel::Event,
        subject: EntityRef::new(&format!("message:slack:{key}")),
        target: None,
        payload: obj(members),
        attachments: vec![],
        published: now,
        recorded_at: now,
        consent: None,
        idempotency_key: Some(IdempotencyKey::new(key)),
        meta: obj(vec![]),
    }
}

fn gslides_obs(editors: &[&str], owner: &str, key: &str) -> Observation {
    let now = chrono::Utc::now().timestamp_micros();
    Observation {
        id: Observation::new_id(),
        schema: SchemaRef::new("schema:workspace-object-snapshot"),
        schema_version: SemVer::new("1.0.0"),
        observer: ObserverRef::new("obs:gslides-crawler"),
        source_system: Some(SourceSystemRef::new("sys:google-slides")),
        actor: None,
        authority_model: AuthorityModel::SourceAuthoritative,
        capture_model: CaptureModel::Snapshot,
        subject: EntityRef::new(&format!("document:gslide:{key}")),
        target: None,
        payload: obj(vec![(
            "relations",
            obj(vec![
                ("editors", JsonValue::Array(editors.iter().map(|e| s(e)).collect())),
                ("owner", s(owner)),
            ]),
        )]),
        attachments: vec![],
        published: now,
        recorded_at: now,
        consent: None,
        idempotency_key: Some(IdempotencyKey::new(key)),
        meta: obj(vec![]),
    }
}

#[test]
fn same_email_cross_source_resolves_to_one_person() {
    let observations = vec![
        slack_obs("U123", "田中太郎", Some("tanaka@example.jp"), "s1"),
        gslides_obs(&["tanaka@example.jp"], "tanaka@example.jp", "g1"),
    ];
    let projector = IdentityProjector::new("1.0.0");
    let results = projector.project(&observations);
    let output = &results[0];
    assert_eq!(output.resolved_persons.len(), 1);
    let person = &output.resolved_persons[0];
    assert!(person.sources.contains(&"slack".to_string()));
    assert!(person.sources.contains(&"google".to_string()));
    assert_eq!(person.canonical_name, "田中太郎");
}

#[test]
fn different_emails_stay_separate() {
    let observations = vec![
        slack_obs("U123", "Alice", Some("alice@example.com"), "s1"),
        gslides_obs(&["bob@example.com"], "bob@example.com", "g1"),
    ];
    let projector = IdentityProjector::new("1.0.0");
    let results = projector.project(&observations);
    assert_eq!(results[0].resolved_persons.len(), 2);
}

#[test]
fn medium_confidence_stays_as_candidate() {
    let observations = vec![
        slack_obs("U123", "tanaka", Some("tanaka-a@example.com"), "s1"),
        gslides_obs(&["tanaka-b@example.com"], "tanaka-b@example.com", "g1"),
    ];
    let candidates = IdentityProjector::extract_candidates(&observations);
    let matches = IdentityProjector::cross_source_match(&candidates);
    let email_matches: Vec<_> = matches.iter().filter(|m| m.match_type == MatchType::EmailExact).collect();
    assert!(email_matches.is_empty());
}

#[test]
fn accepted_candidate_gets_merged() {
    let observations = vec![
        slack_obs("U123", "Alice", Some("alice-slack@example.com"), "s1"),
        gslides_obs(&["alice-google@example.com"], "alice-google@example.com", "g1"),
    ];
    let candidates = IdentityProjector::extract_candidates(&observations);
    let matches = IdentityProjector::cross_source_match(&candidates);
    let accepted = vec![ResolutionCandidate {
        candidate_id: "rc:manual".into(),
        person_a_id: "pc:0".into(),
        person_b_id: "pc:1".into(),
        match_type: MatchType::NameFuzzy,
        confidence: ConfidenceLevel::Medium,
        status: CandidateStatus::Accepted,
    }];
    let projector = IdentityProjector::new("1.0.0").with_accepted_candidates(accepted);
    let output = projector.resolve(&candidates, &matches, latest_recorded_at(&observations));
    assert_eq!(output.resolved_persons.len(), 1);
}

#[test]
fn pending_medium_not_in_resolved() {
    let observations = vec![
        slack_obs("U123", "Bob", Some("bob-slack@example.com"), "s1"),
        gslides_obs(&["bob-google@example.com"], "bob-google@example.com", "g1"),
    ];
    let projector = IdentityProjector::new("1.0.0");
    let results = projector.project(&observations);
    assert_eq!(results[0].resolved_persons.len(), 2);
}

#[test]
fn projector_replay_produces_same_output() {
    let observations = vec![
        slack_obs("U123", "田中太郎", Some("tanaka@example.jp"), "s1"),
        gslides_obs(&["tanaka@example.jp"], "tanaka@example.jp", "g1"),
    ];
    let projector = IdentityProjector::new("1.0.0");
    let r1 = projector.project(&observations);
    let r2 = projector.project(&observations);
    assert_eq!(r1[0].resolved_persons.len(), r2[0].resolved_persons.len());
    assert_eq!(r1[0].resolved_persons[0].canonical_name, r2[0].resolved_persons[0].canonical_name);
}

#[test]
fn by_identifier_lookup() {
    let observations = vec![slack_obs("U999", "Test User", Some("test@example.com"), "s1")];
    let projector = IdentityProjector::new("1.0.0");
    let results = projector.project(&observations);
    let found = results[0].person_identifiers.iter().any(|pi| pi.identifier_value == "test@example.com");
    assert!(found);
}

#[test]
fn same_email_across_sources_is_a_high_confidence_match() {
    let observations = vec![
        slack_obs("U1", "Sato", Some("Sato@Example.com"), "s1"),
        gslides_obs(&["sato@example.com"], "sato@example.com", "g1"),
        slack_obs("U2", "Sato", Some("sato@example.com"), "s2"),
    ];
    let candidates = IdentityProjector::extract_candidates(&observations);
    let matches = IdentityProjector::cross_source_match(&candidates);
    let email: Vec<_> = matches.iter().filter(|m| m.match_type == MatchType::EmailExact).collect();
    assert!(!email.is_empty());
    assert!(email.iter().all(|m| m.confidence == ConfidenceLevel::High && m.status == CandidateStatus::Pending));
    assert_eq!(matches[0].candidate_id, "rc:1");
}

#[test]
fn resolution_time_is_the_latest_recorded_at() {
    let mut first = slack_obs("U1", "Ito", Some("ito@example.com"), "s1");
    let mut second = gslides_obs(&["ito@example.com"], "ito@example.com", "g1");
    first.recorded_at = 1_700_000_000_000_000;
    second.recorded_at = 1_600_000_000_000_000;
    let observations = vec![first, second];
    assert_eq!(latest_recorded_at(&observations), 1_700_000_000_000_000);
    let projector = IdentityProjector::new("1.0.0");
    let r = projector.project(&observations);
    assert_eq!(r[0].resolved_persons.len(), 1);
    assert_eq!(r[0].resolved_persons[0].resolved_at, 1_700_000_000_000_000);
    assert_eq!(latest_recorded_at(&[]), 0);
}

#[test]
fn replay_gives_equal_resolution_times() {
    let observations = vec![
        slack_obs("U123", "田中太郎", Some("tanaka@example.jp"), "s1"),
        gslides_obs(&["tanaka@example.jp"], "tanaka@example.jp", "g1"),
    ];
    let projector = IdentityProjector::new("1.0.0");
    let r1 = projector.project(&observations);
    let r2 = projector.project(&observations);
    assert_eq!(r1[0].resolved_persons.len(), r2[0].resolved_persons.len());
    for (a, b) in r1[0].resolved_persons.iter().zip(r2[0].resolved_persons.iter()) {
        assert_eq!(a.person_id, b.person_id);
        assert_eq!(a.resolved_at, b.resolved_at);
    }
}
