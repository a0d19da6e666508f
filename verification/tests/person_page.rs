use dokp::domain::json::JsonValue;
use dokp::domain::observation::Observation;
use dokp::domain::supplemental::{InputAnchorSet, SupplementalRecord};
use dokp::domain::types::{AuthorityModel, CaptureModel, Mutability};
use dokp::domain::values::{
    ActorRef, EntityRef, IdempotencyKey, ObserverRef, SchemaRef, SemVer, SourceSystemRef, SupplementalId,
};
use dokp::governance::types::ConfidenceLevel;
use dokp::identity::types::{IdentifierType, IdentityResolutionOutput, ResolvedPerson, SourceIdentifier};
use dokp::person_page::frontend::parse_student_profile;
use dokp::person_page::projector::PersonPageProjector;
use dokp::person_page::types::PersonMessage;

fn s(v: &str) -> JsonValue {
    JsonValue::String(v.to_string())
}

fn obj(members: Vec<(&str, JsonValue)>) -> JsonValue {
    JsonValue::Object(members.into_iter().map(|(k, v)| (k.to_string(), v)).collect())
}

fn observation(schema: &str, observer: &str, system: &str, subject: &str, key: &str, payload: JsonValue) -> Observation {
    let now = chrono::Utc::now().timestamp_micros();
    Observation {
        id: Observation::new_id(),
        schema: SchemaRef::new(schema),
        schema_version: SemVer::new("1.0.0"),
        observer: ObserverRef::new(observer),
        source_system: Some(SourceSystemRef::new(system)),
        actor: None,
        authority_model: AuthorityModel::LakeAuthoritative,
        capture_model: CaptureModel::Event,
        subject: EntityRef::new(subject),
        target: None,
        payload,
        attachments: vec![],
        published: now,
        recorded_at: now,
        consent: None,
        idempotency_key: Some(IdempotencyKey::new(key)),
        meta: obj(vec![]),
    }
}

fn slack_obs(user_id: &str, email: &str, text: &str, channel: &str, key: &str) -> Observation {
    observation(
        "schema:slack-message",
        "obs:slack-crawler",
        "sys:slack",
        &format!("message:slack:{key}"),
        key,
        obj(vec![
            ("channel", s(channel)),
            ("channel_id", s(&format!("chan:{channel}"))),
            ("channel_name", s(channel)),
            ("email", s(email)),
            ("text", s(text)),
            ("user_id", s(user_id)),
        ]),
    )
}

fn gslides_obs(editors: &[&str], owner: &str, key: &str) -> Observation {
    let mut o = observation(
        "schema:workspace-object-snapshot",
        "obs:gslides-crawler",
        "sys:google-slides",
        &format!("document:gslide:{key}"),
        key,
        obj(vec![
            (
                "relations",
                obj(vec![
                    ("editors", JsonValue::Array(editors.iter().map(|e| s(e)).collect())),
                    ("owner", s(owner)),
                ]),
            ),
            ("title", s("自己紹介スライド")),
        ]),
    );
    o.authority_model = AuthorityModel::SourceAuthoritative;
    o.capture_model = CaptureModel::Snapshot;
    o
}

fn ident(source: &str, t: IdentifierType, value: &str) -> SourceIdentifier {
    SourceIdentifier { source: source.into(), identifier_type: t, value: value.into() }
}

fn sample_identity() -> IdentityResolutionOutput {
    IdentityResolutionOutput {
        resolved_persons: vec![ResolvedPerson {
            person_id: EntityRef::new("person:tanaka-2026"),
            canonical_name: "田中太郎".into(),
            aliases: vec!["田中太郎".into()],
            identifiers: vec![
                ident("slack", IdentifierType::UserId, "U123"),
                ident("slack", IdentifierType::Email, "tanaka@example.jp"),
                ident("google", IdentifierType::Email, "tanaka@example.jp"),
            ],
            confidence: ConfidenceLevel::High,
            sources: vec!["slack".into(), "google".into()],
            resolved_at: chrono::Utc::now().timestamp_micros(),
            resolved_by: "projector:identity-resolution:v1.0.0".into(),
        }],
        candidates: vec![],
        person_identifiers: vec![],
    }
}

#[test]
fn person_page_with_slides_and_messages() {
    let identity = sample_identity();
    let observations = vec![
        slack_obs("U123", "tanaka@example.jp", "こんにちは", "general", "s1"),
        slack_obs("U123", "tanaka@example.jp", "明日の会議", "project-a", "s2"),
        gslides_obs(&["tanaka@example.jp"], "tanaka@example.jp", "g1"),
    ];
    let output = PersonPageProjector::project(&identity, &observations, &[]);
    assert_eq!(output.profiles.len(), 1);
    assert_eq!(output.profiles[0].display_name, "田中太郎");
    assert_eq!(output.messages.len(), 2);
    assert_eq!(output.slides.len(), 1);
    assert_eq!(output.activities.len(), 1);
    assert_eq!(output.activities[0].total_messages, 2);
    assert_eq!(output.activities[0].total_slides_related, 1);
    assert_eq!(output.activities[0].active_channels.len(), 2);
}

#[test]
fn unrelated_observation_excluded() {
    let identity = sample_identity();
    let observations = vec![slack_obs("U999", "other@example.com", "unrelated", "general", "s1")];
    let output = PersonPageProjector::project(&identity, &observations, &[]);
    assert_eq!(output.messages.len(), 0);
}

#[test]
fn person_detail_response_builds() {
    let identity = sample_identity();
    let observations = vec![slack_obs("U123", "tanaka@example.jp", "hello", "general", "s1")];
    let output = PersonPageProjector::project(&identity, &observations, &[]);
    let profile = &output.profiles[0];
    let activity = &output.activities[0];
    let msgs: Vec<PersonMessage> = output
        .messages
        .iter()
        .filter(|m| m.person_id == profile.person_id)
        .cloned()
        .collect();
    let detail = PersonPageProjector::to_detail(profile, &[], &msgs, activity);
    assert_eq!(detail.person_id.as_str(), "person:tanaka-2026");
    assert_eq!(detail.display_name, "田中太郎");
    assert_eq!(detail.recent_messages.len(), 1);
}

#[test]
fn person_list_item_builds() {
    let identity = sample_identity();
    let observations = vec![
        slack_obs("U123", "tanaka@example.jp", "msg", "general", "s1"),
        gslides_obs(&["tanaka@example.jp"], "tanaka@example.jp", "g1"),
    ];
    let output = PersonPageProjector::project(&identity, &observations, &[]);
    let item = PersonPageProjector::to_list_item(&output.profiles[0], &output.activities[0]);
    assert_eq!(item.display_name, "田中太郎");
    assert_eq!(item.total_messages, 1);
    assert_eq!(item.total_slides, 1);
    assert_eq!(item.source_count, 2);
}

#[test]
fn replay_deterministic() {
    let identity = sample_identity();
    let observations = vec![
        slack_obs("U123", "tanaka@example.jp", "hello", "general", "s1"),
        gslides_obs(&["tanaka@example.jp"], "tanaka@example.jp", "g1"),
    ];
    let r1 = PersonPageProjector::project(&identity, &observations, &[]);
    let r2 = PersonPageProjector::project(&identity, &observations, &[]);
    assert_eq!(format!("{r1:?}"), format!("{r2:?}"));
}

#[test]
fn adapter_payload_shape_uses_channel_name() {
    let identity = sample_identity();
    let o = observation(
        "schema:slack-message",
        "obs:slack-crawler",
        "sys:slack",
        "message:slack:s1",
        "s1",
        obj(vec![
            ("channel_id", s("C01ABC")),
            ("channel_name", s("general")),
            ("email", s("tanaka@example.jp")),
            ("text", s("hello")),
            ("user_id", s("U123")),
        ]),
    );
    let output = PersonPageProjector::project(&identity, &[o], &[]);
    assert_eq!(output.messages.len(), 1);
    assert_eq!(output.messages[0].channel, "general");
}

fn null() -> JsonValue {
    JsonValue::Null
}

fn slide_analysis_payload(document_id: &str, thumbnail_url: &str) -> JsonValue {
    obj(vec![
        ("email", null()),
        ("generated_email", null()),
        ("name", s("田中太郎")),
        ("bio_text", s("自己紹介")),
        ("profile_pic", null()),
        ("gallery_images", JsonValue::Array(vec![])),
        ("properties", obj(vec![])),
        ("attributes", JsonValue::Array(vec![])),
        ("source_slide_object_id", s("slide-1")),
        ("source_document_id", s(document_id)),
        ("source_canonical_uri", null()),
        ("thumbnail_blob_ref", null()),
        ("thumbnail_url", s(thumbnail_url)),
        ("companion_to_slide_object_id", null()),
    ])
}

fn slide_analysis_record(observation: &Observation, payload: JsonValue, created_at: &str) -> SupplementalRecord {
    SupplementalRecord {
        id: SupplementalId::new("sup:slide-analysis:g1"),
        kind: "slide-analysis".into(),
        derived_from: InputAnchorSet {
            observations: vec![observation.id.clone()],
            blobs: vec![],
            supplementals: vec![],
        },
        payload,
        created_by: ActorRef::new("actor:test"),
        created_at: chrono::DateTime::parse_from_rfc3339(created_at).unwrap().timestamp_micros(),
        mutability: Mutability::ManagedCache,
        record_version: Some("1".into()),
        model_version: Some("fixture".into()),
        consent_metadata: None,
        lineage: None,
    }
}

#[test]
fn frontend_profile_links_via_source_observation_not_document_identifier() {
    let identity = sample_identity();
    let observation = gslides_obs(&["tanaka@example.jp"], "tanaka@example.jp", "g1");
    let supplemental = slide_analysis_record(
        &observation,
        slide_analysis_payload("document:gslides:g1#slide:slide-1", "https://example.com/thumb.png"),
        "2026-03-24T12:00:00Z",
    );

    let output = PersonPageProjector::project(&identity, &[observation], &[&supplemental]);
    assert_eq!(output.profiles.len(), 1);
    assert_eq!(
        output.profiles[0].frontend_profile.as_ref().map(|profile| profile.source_document_id.as_str()),
        Some("document:gslides:g1#slide:slide-1")
    );
    assert!(output.profiles[0]
        .identities
        .iter()
        .all(|identity| !identity.external_id.starts_with("document:gslides:")));
}

#[test]
fn self_introduction_comes_from_the_latest_slide_analysis() {
    let identity = sample_identity();
    let observation = gslides_obs(&["tanaka@example.jp"], "tanaka@example.jp", "g1");
    let older = slide_analysis_record(
        &observation,
        slide_analysis_payload("doc-old", "https://example.com/old.png"),
        "2026-03-24T12:00:00Z",
    );
    let newer = slide_analysis_record(
        &observation,
        slide_analysis_payload("doc-new", "https://example.com/new.png"),
        "2026-03-25T12:00:00Z",
    );
    let output = PersonPageProjector::project(&identity, &[observation], &[&newer, &older]);
    let profile = &output.profiles[0];
    assert_eq!(profile.self_intro_text.as_deref(), Some("自己紹介"));
    assert_eq!(profile.self_intro_slide_id.as_deref(), Some("doc-new"));
    assert_eq!(profile.self_intro_thumbnail.as_deref(), Some("https://example.com/new.png"));
    assert_eq!(
        profile.profile_updated_at,
        chrono::DateTime::parse_from_rfc3339("2026-03-25T12:00:00Z").unwrap().timestamp_micros()
            .max(profile.last_activity.unwrap_or(0))
    );
}

#[test]
fn companion_and_unreadable_analyses_are_ignored() {
    let identity = sample_identity();
    let observation = gslides_obs(&["tanaka@example.jp"], "tanaka@example.jp", "g1");
    let mut companion_payload = slide_analysis_payload("doc", "https://example.com/t.png");
    if let JsonValue::Object(members) = &mut companion_payload {
        members.retain(|(k, _)| k != "companion_to_slide_object_id");
        members.push(("companion_to_slide_object_id".into(), s("slide-0")));
    }
    let companion = slide_analysis_record(&observation, companion_payload, "2026-03-24T12:00:00Z");
    let unreadable = slide_analysis_record(&observation, obj(vec![("bio_text", s("x"))]), "2026-03-24T12:00:00Z");
    assert!(parse_student_profile(&unreadable.payload).is_none());
    let output = PersonPageProjector::project(&identity, &[observation], &[&companion, &unreadable]);
    assert!(output.profiles[0].frontend_profile.is_none());
    assert_eq!(output.profiles[0].self_intro_text, None);
}
