use dokp::domain::error::IngestResult;
use dokp::domain::json::JsonValue;
use dokp::domain::types::{AuthorityModel, CaptureModel, ObserverType, SourceClass, TrustLevel};
use dokp::domain::values::{
    BlobRef, EntityRef, EntityTypeRef, IdempotencyKey, ObserverRef, SchemaRef, SemVer, SourceSystemRef,
};
use dokp::lake::blob::BlobStore;
use dokp::lake::ingestion::{IngestRequest, IngestionGate};
use dokp::lake::store::LakeStore;
use dokp::registry::entity_type::EntityType;
use dokp::registry::observer::{Observer, SourceSystem};
use dokp::registry::schema::{ObservationSchema, SchemaSourceContract};
use dokp::registry::store::RegistryStore;
use sha2::Digest;

fn object_schema() -> JsonValue {
    JsonValue::Object(vec![("type".to_string(), JsonValue::String("object".into()))])
}

#[test]
fn put_and_get_round_trip() {
    let mut store = BlobStore::new();
    let data = b"hello world";
    let blob_ref = store.put(data);
    assert!(blob_ref.as_str().starts_with("blob:sha256:"));
    assert_eq!(store.get(&blob_ref), Some(data.as_slice()));
}

#[test]
fn duplicate_content_deduplicates() {
    let mut store = BlobStore::new();
    let r1 = store.put(b"same");
    let r2 = store.put(b"same");
    assert_eq!(r1, r2);
    assert_eq!(store.len(), 1);
}

#[test]
fn missing_blob_returns_none() {
    let store = BlobStore::new();
    let missing = BlobRef::new("blob:sha256:0000000000000000");
    assert!(store.get(&missing).is_none());
}

#[test]
fn blob_key_is_sha256_of_content() {
    let mut store = BlobStore::new();
    let r = store.put(b"hello world");
    let expected = format!("blob:sha256:{}", hex::encode(sha2::Sha256::digest(b"hello world")));
    assert_eq!(r.as_str(), expected);
    assert!(store.contains(&r));
    assert!(!store.is_empty());
}

fn slack_source() -> SourceSystem {
    SourceSystem {
        id: SourceSystemRef::new("sys:slack"),
        name: "Slack".into(),
        provider: Some("Slack".into()),
        api_version: Some("v1".into()),
        source_class: SourceClass::MutableText,
    }
}

fn slack_observer() -> Observer {
    Observer {
        id: ObserverRef::new("obs:slack-crawler"),
        name: "Slack Crawler".into(),
        observer_type: ObserverType::Crawler,
        source_system: SourceSystemRef::new("sys:slack"),
        adapter_version: SemVer::new("1.0.0"),
        schemas: vec![SchemaRef::new("schema:slack-message")],
        authority_model: AuthorityModel::LakeAuthoritative,
        capture_model: CaptureModel::Event,
        owner: "lethe".into(),
        trust_level: TrustLevel::Automated,
    }
}

fn schema(id: &str, name: &str, contracts: Vec<SchemaSourceContract>) -> ObservationSchema {
    ObservationSchema {
        id: SchemaRef::new(id),
        name: name.into(),
        version: SemVer::new("1.0.0"),
        subject_type: EntityTypeRef::new("et:message"),
        target_type: None,
        payload_schema: object_schema(),
        source_contracts: contracts,
        attachment_config: None,
        registered_by: None,
        registered_at: None,
    }
}

fn setup_registry() -> RegistryStore {
    let mut reg = RegistryStore::new();
    reg.register_source_system(slack_source()).unwrap();
    reg.register_observer(slack_observer()).unwrap();
    reg.register_schema(schema("schema:slack-message", "Slack Message", vec![])).unwrap();
    reg
}

fn valid_request() -> IngestRequest {
    IngestRequest {
        schema: SchemaRef::new("schema:slack-message"),
        schema_version: SemVer::new("1.0.0"),
        observer: ObserverRef::new("obs:slack-crawler"),
        source_system: Some(SourceSystemRef::new("sys:slack")),
        authority_model: AuthorityModel::LakeAuthoritative,
        capture_model: CaptureModel::Event,
        subject: EntityRef::new("message:slack:C01-999"),
        target: None,
        payload: JsonValue::Object(vec![("text".to_string(), JsonValue::String("hello".into()))]),
        attachments: vec![],
        published: chrono::Utc::now().timestamp_micros(),
        idempotency_key: Some(IdempotencyKey::new("slack:C01:999")),
        meta: JsonValue::Object(vec![]),
    }
}

fn ingest(reg: &RegistryStore, lake: &mut LakeStore, blobs: &BlobStore, req: IngestRequest) -> IngestResult {
    let mut gate = IngestionGate { registry: reg, lake, blobs };
    gate.ingest(req)
}

#[test]
fn valid_observation_ingested() {
    let reg = setup_registry();
    let mut lake = LakeStore::new();
    let blobs = BlobStore::new();
    let result = ingest(&reg, &mut lake, &blobs, valid_request());
    assert!(matches!(result, IngestResult::Ingested { .. }));
    assert_eq!(lake.len(), 1);
}

#[test]
fn duplicate_idempotency_key_returns_duplicate() {
    let reg = setup_registry();
    let mut lake = LakeStore::new();
    let blobs = BlobStore::new();
    ingest(&reg, &mut lake, &blobs, valid_request());
    let result = ingest(&reg, &mut lake, &blobs, valid_request());
    assert!(matches!(result, IngestResult::Duplicate { .. }));
    assert_eq!(lake.len(), 1);
}

#[test]
fn unregistered_observer_rejected() {
    let reg = setup_registry();
    let mut lake = LakeStore::new();
    let blobs = BlobStore::new();
    let mut req = valid_request();
    req.observer = ObserverRef::new("obs:unknown");
    assert!(matches!(ingest(&reg, &mut lake, &blobs, req), IngestResult::Rejected { .. }));
}

#[test]
fn unregistered_schema_rejected() {
    let reg = setup_registry();
    let mut lake = LakeStore::new();
    let blobs = BlobStore::new();
    let mut req = valid_request();
    req.schema = SchemaRef::new("schema:nonexistent");
    assert!(matches!(ingest(&reg, &mut lake, &blobs, req), IngestResult::Rejected { .. }));
}

#[test]
fn mismatched_source_system_rejected() {
    let reg = setup_registry();
    let mut lake = LakeStore::new();
    let blobs = BlobStore::new();
    let mut req = valid_request();
    req.source_system = Some(SourceSystemRef::new("sys:google-slides"));
    assert!(matches!(ingest(&reg, &mut lake, &blobs, req), IngestResult::Rejected { .. }));
}

#[test]
fn schema_not_authorized_for_observer_rejected() {
    let mut reg = setup_registry();
    reg.register_schema(schema("schema:other", "Other", vec![])).unwrap();
    let mut lake = LakeStore::new();
    let blobs = BlobStore::new();
    let mut req = valid_request();
    req.schema = SchemaRef::new("schema:other");
    assert!(matches!(ingest(&reg, &mut lake, &blobs, req), IngestResult::Rejected { .. }));
}

#[test]
fn mismatched_authority_model_rejected() {
    let reg = setup_registry();
    let mut lake = LakeStore::new();
    let blobs = BlobStore::new();
    let mut req = valid_request();
    req.authority_model = AuthorityModel::SourceAuthoritative;
    assert!(matches!(ingest(&reg, &mut lake, &blobs, req), IngestResult::Rejected { .. }));
}

#[test]
fn mismatched_capture_model_rejected() {
    let reg = setup_registry();
    let mut lake = LakeStore::new();
    let blobs = BlobStore::new();
    let mut req = valid_request();
    req.capture_model = CaptureModel::Snapshot;
    assert!(matches!(ingest(&reg, &mut lake, &blobs, req), IngestResult::Rejected { .. }));
}

#[test]
fn schema_source_contract_rejected_for_wrong_observer() {
    let mut reg = RegistryStore::new();
    reg.register_source_system(slack_source()).unwrap();
    reg.register_observer(slack_observer()).unwrap();
    reg.register_schema(schema(
        "schema:slack-message",
        "Slack Message",
        vec![SchemaSourceContract {
            observer_id: ObserverRef::new("obs:other"),
            adapter_version: SemVer::new("1.0.0"),
            compatible_range: ">=1.0.0 <2.0.0".into(),
        }],
    ))
    .unwrap();
    let mut lake = LakeStore::new();
    let blobs = BlobStore::new();
    assert!(matches!(ingest(&reg, &mut lake, &blobs, valid_request()), IngestResult::Rejected { .. }));
}

#[test]
fn invalid_payload_rejected() {
    let reg = setup_registry();
    let mut lake = LakeStore::new();
    let blobs = BlobStore::new();
    let mut req = valid_request();
    req.payload = JsonValue::String("not an object".into());
    assert!(matches!(ingest(&reg, &mut lake, &blobs, req), IngestResult::Rejected { .. }));
}

#[test]
fn future_published_quarantined() {
    let reg = setup_registry();
    let mut lake = LakeStore::new();
    let blobs = BlobStore::new();
    let mut req = valid_request();
    req.published = chrono::Utc::now().timestamp_micros() + 3_600_000_000;
    assert!(matches!(ingest(&reg, &mut lake, &blobs, req), IngestResult::Quarantined { .. }));
}

#[test]
fn missing_blob_ref_rejected() {
    let reg = setup_registry();
    let mut lake = LakeStore::new();
    let blobs = BlobStore::new();
    let mut req = valid_request();
    req.attachments = vec![BlobRef::new("blob:sha256:0000")];
    assert!(matches!(ingest(&reg, &mut lake, &blobs, req), IngestResult::Rejected { .. }));
}

#[test]
fn blob_ref_present_accepted() {
    let reg = setup_registry();
    let mut lake = LakeStore::new();
    let mut blobs = BlobStore::new();
    let blob_ref = blobs.put(b"attachment data");
    let mut req = valid_request();
    req.attachments = vec![blob_ref];
    assert!(matches!(ingest(&reg, &mut lake, &blobs, req), IngestResult::Ingested { .. }));
}

#[test]
fn watermark_and_since_incremental() {
    let reg = setup_registry();
    let mut lake = LakeStore::new();
    let blobs = BlobStore::new();
    ingest(&reg, &mut lake, &blobs, valid_request());
    let wm = lake.watermark().unwrap();

    let mut req2 = valid_request();
    req2.idempotency_key = Some(IdempotencyKey::new("slack:C01:1000"));
    ingest(&reg, &mut lake, &blobs, req2);

    let delta = lake.since(wm.position);
    assert_eq!(delta.len(), 1);
}

#[test]
fn ingest_at_records_the_given_time() {
    let reg = setup_registry();
    let mut lake = LakeStore::new();
    let blobs = BlobStore::new();
    let mut req = valid_request();
    req.published = 1_000;
    let mut gate = IngestionGate { registry: &reg, lake: &mut lake, blobs: &blobs };
    match gate.ingest_at(req, 2_000) {
        IngestResult::Ingested { recorded_at, .. } => assert_eq!(recorded_at, 2_000),
        other => panic!("unexpected {other:?}"),
    }
    let mut late = valid_request();
    late.published = 2_000 + 3_600_000_000;
    late.idempotency_key = Some(IdempotencyKey::new("slack:C01:1001"));
    let mut gate = IngestionGate { registry: &reg, lake: &mut lake, blobs: &blobs };
    assert!(matches!(gate.ingest_at(late, 2_000), IngestResult::Quarantined { .. }));
}

#[test]
fn base_types_are_seeded() {
    let store = RegistryStore::new();
    assert!(store.get_entity_type(&EntityTypeRef::new("et:person")).is_some());
    assert!(store.get_entity_type(&EntityTypeRef::new("et:document")).is_some());
}

fn entity_type(id: &str, parent: Option<&str>) -> EntityType {
    EntityType {
        id: EntityTypeRef::new(id),
        name: id.into(),
        description: "test".into(),
        parent: parent.map(EntityTypeRef::new),
        attributes: vec![],
        registered_by: None,
        registered_at: None,
    }
}

#[test]
fn duplicate_entity_type_rejected() {
    let mut store = RegistryStore::new();
    assert!(store.register_entity_type(entity_type("et:person", None)).is_err());
}

#[test]
fn entity_type_with_missing_parent_rejected() {
    let mut store = RegistryStore::new();
    assert!(store.register_entity_type(entity_type("et:special-room", Some("et:nonexistent"))).is_err());
}

#[test]
fn entity_type_with_valid_parent_accepted() {
    let mut store = RegistryStore::new();
    assert!(store.register_entity_type(entity_type("et:room", Some("et:space"))).is_ok());
}

#[test]
fn schema_register_and_version() {
    let mut store = RegistryStore::new();
    store.register_schema(schema("schema:slack-message", "Slack Message", vec![])).unwrap();
    store
        .add_schema_version(
            &SchemaRef::new("schema:slack-message"),
            SemVer::new("1.1.0"),
            JsonValue::Object(vec![
                ("type".to_string(), JsonValue::String("object".into())),
                ("properties".to_string(), JsonValue::Object(vec![])),
            ]),
        )
        .unwrap();
    let versions = store.get_schema_versions(&SchemaRef::new("schema:slack-message"));
    assert_eq!(versions.len(), 2);
}

#[test]
fn observer_requires_source_system() {
    let mut store = RegistryStore::new();
    let mut obs = slack_observer();
    obs.id = ObserverRef::new("obs:test");
    obs.source_system = SourceSystemRef::new("sys:nonexistent");
    obs.schemas = vec![];
    assert!(store.register_observer(obs).is_err());
}

#[test]
fn observer_with_source_system_accepted() {
    let mut store = RegistryStore::new();
    store.register_source_system(slack_source()).unwrap();
    assert!(store.register_observer(slack_observer()).is_ok());
    assert!(store.register_observer(slack_observer()).is_err());
    assert_eq!(store.list_observers().len(), 1);
}
