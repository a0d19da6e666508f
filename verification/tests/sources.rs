use dokp::adapter::config::{
    AdapterConfig, BackoffStrategy, RateLimitConfig, RetryConfig, SchemaBinding,
};
use dokp::adapter::error::AdapterError;
use dokp::adapter::gslides::client::{
    GoogleSlidesClient, PresentationMeta, PresentationNative, RenderedSlide, RevisionListPage,
    SlideRevision,
};
use dokp::adapter::gslides::mapper::{GoogleSlidesAdapter, WORKSPACE_SNAPSHOT_SCHEMA};
use dokp::adapter::heartbeat::heartbeat_draft;
use dokp::adapter::slack::client::{
    SlackChannelSnapshot, SlackClient, SlackEdited, SlackFile, SlackHistoryPage, SlackMessage,
    SlackMessageType,
};
use dokp::adapter::slack::mapper::{
    parse_slack_ts, SlackAdapter, SLACK_CHANNEL_SCHEMA, SLACK_MESSAGE_SCHEMA, SLACK_MESSAGE_SCHEMA_VERSION,
};
use dokp::domain::json::JsonValue;
use dokp::domain::types::{AuthorityModel, CaptureModel};
use dokp::domain::values::{BlobRef, ObserverRef, SchemaRef, SemVer, SourceSystemRef};

fn at<'a>(v: &'a JsonValue, path: &[&str]) -> Option<&'a JsonValue> {
    let mut cur = v;
    for key in path {
        cur = cur.get(key)?;
    }
    Some(cur)
}

fn str_at<'a>(v: &'a JsonValue, path: &[&str]) -> Option<&'a str> {
    at(v, path).and_then(|x| x.as_str()).map(|s| s.as_str())
}

fn micros(rfc3339: &str) -> i64 {
    chrono::DateTime::parse_from_rfc3339(rfc3339).unwrap().timestamp_micros()
}

struct NoSlack;

impl SlackClient for NoSlack {
    fn conversations_history(
        &self,
        _channel_id: &str,
        _oldest: Option<&str>,
        _cursor: Option<&str>,
        _limit: u32,
    ) -> Result<SlackHistoryPage, AdapterError> {
        Ok(SlackHistoryPage { messages: vec![], has_more: false, next_cursor: None })
    }

    fn conversations_replies(&self, _channel_id: &str, _thread_ts: &str) -> Result<Vec<SlackMessage>, AdapterError> {
        Ok(vec![])
    }

    fn conversations_info(&self, channel_id: &str) -> Result<SlackChannelSnapshot, AdapterError> {
        Err(AdapterError::Other(format!("channel {channel_id} not found")))
    }

    fn file_download(&self, file: &SlackFile) -> Result<Vec<u8>, AdapterError> {
        Err(AdapterError::Other(format!("file {} not found", file.id)))
    }
}

fn slack_config() -> AdapterConfig {
    AdapterConfig {
        observer_id: ObserverRef::new("obs:slack-crawler"),
        source_system_id: SourceSystemRef::new("sys:slack"),
        adapter_version: SemVer::new("1.0.0"),
        authority_model: AuthorityModel::LakeAuthoritative,
        capture_model: CaptureModel::Event,
        schemas: vec![SchemaRef::new(SLACK_MESSAGE_SCHEMA), SchemaRef::new(SLACK_CHANNEL_SCHEMA)],
        schema_bindings: vec![SchemaBinding {
            schema: SchemaRef::new(SLACK_MESSAGE_SCHEMA),
            versions: ">=1.0.0 <2.0.0".into(),
        }],
        poll_interval: 300,
        heartbeat_interval: 60,
        rate_limit: RateLimitConfig { requests_per_second: 50, burst: 10 },
        retry: RetryConfig { max_retries: 3, backoff: BackoffStrategy::Exponential, max_wait: 30 },
        credential_ref: "secret:slack-token".into(),
    }
}

fn sample_message() -> SlackMessage {
    SlackMessage {
        channel_id: "C01ABC".into(),
        channel_name: "general".into(),
        ts: "1234567890.123456".into(),
        thread_ts: None,
        user_id: "U01XYZ".into(),
        user_name: "tanaka".into(),
        email: Some("tanaka@example.jp".into()),
        text: "Hello everyone!".into(),
        message_type: SlackMessageType::Message,
        edited: None,
        reactions: vec![],
        files: vec![],
        reply_count: 0,
        reply_users_count: 0,
    }
}

#[test]
fn map_regular_message() {
    let adapter = SlackAdapter::new(NoSlack, slack_config());
    let draft = adapter.map_message(&sample_message());

    assert_eq!(draft.schema.as_str(), SLACK_MESSAGE_SCHEMA);
    assert_eq!(draft.idempotency_key.as_str(), "slack:C01ABC:1234567890.123456");
    assert_eq!(draft.subject.as_str(), "message:slack:C01ABC-1234567890.123456");
    assert_eq!(str_at(&draft.payload, &["text"]), Some("Hello everyone!"));
    assert_eq!(str_at(&draft.payload, &["message_type"]), Some("message"));
    assert_eq!(draft.authority_model, AuthorityModel::LakeAuthoritative);
    assert_eq!(draft.capture_model, CaptureModel::Event);
    assert_eq!(draft.published, 1_234_567_890_123_456);
}

#[test]
fn map_edit_message() {
    let adapter = SlackAdapter::new(NoSlack, slack_config());
    let mut msg = sample_message();
    msg.message_type = SlackMessageType::Edit;
    msg.text = "Hello everyone! (edited)".into();
    msg.edited = Some(SlackEdited { user: "U01XYZ".into(), ts: "1234567891.000000".into() });

    let draft = adapter.map_message(&msg);
    assert_eq!(draft.idempotency_key.as_str(), "slack:C01ABC:1234567890.123456:edit:1234567891.000000");
    assert_eq!(str_at(&draft.payload, &["message_type"]), Some("edit"));
    assert!(at(&draft.payload, &["edited"]).unwrap().is_object());
}

#[test]
fn map_delete_message() {
    let adapter = SlackAdapter::new(NoSlack, slack_config());
    let mut msg = sample_message();
    msg.message_type = SlackMessageType::Delete;

    let draft = adapter.map_message(&msg);
    assert_eq!(draft.idempotency_key.as_str(), "slack:C01ABC:1234567890.123456:delete");
    assert_eq!(str_at(&draft.payload, &["message_type"]), Some("delete"));
    assert!(str_at(&draft.meta, &["retracts"]).is_some());
}

#[test]
fn map_thread_reply() {
    let adapter = SlackAdapter::new(NoSlack, slack_config());
    let mut msg = sample_message();
    msg.thread_ts = Some("1234567880.000000".into());

    let draft = adapter.map_message(&msg);
    assert_eq!(str_at(&draft.payload, &["thread_ts"]), Some("1234567880.000000"));
}

#[test]
fn map_file_share() {
    let adapter = SlackAdapter::new(NoSlack, slack_config());
    let mut msg = sample_message();
    msg.message_type = SlackMessageType::FileShare;
    msg.files = vec![SlackFile {
        id: "F01DEF".into(),
        name: "photo.jpg".into(),
        mimetype: "image/jpeg".into(),
        size: 12345,
        download_url: None,
        blob_ref: Some("blob:sha256:abcdef".into()),
    }];

    let draft = adapter.map_message(&msg);
    assert_eq!(draft.attachments.len(), 1);
    assert_eq!(draft.attachments[0].as_str(), "blob:sha256:abcdef");
    assert!(at(&draft.payload, &["files"]).unwrap().as_array().is_some());
}

#[test]
fn map_channel_snapshot() {
    let adapter = SlackAdapter::new(NoSlack, slack_config());
    let snap = SlackChannelSnapshot {
        channel_id: "C01ABC".into(),
        channel_name: "general".into(),
        purpose: Some("General discussion".into()),
        topic: Some("Welcome!".into()),
        member_count: 42,
        members: vec!["U01".into(), "U02".into()],
        is_archived: false,
        snapshot_at: chrono::Utc::now().timestamp_micros(),
    };

    let draft = adapter.map_channel_snapshot(&snap);
    assert_eq!(draft.schema.as_str(), SLACK_CHANNEL_SCHEMA);
    assert_eq!(str_at(&draft.payload, &["channel_id"]), Some("C01ABC"));
    assert_eq!(at(&draft.payload, &["member_count"]), Some(&JsonValue::Number("42".into())));
}

#[test]
fn same_message_same_idempotency_key() {
    let adapter = SlackAdapter::new(NoSlack, slack_config());
    let msg = sample_message();
    let d1 = adapter.map_message(&msg);
    let d2 = adapter.map_message(&msg);
    assert_eq!(d1.idempotency_key, d2.idempotency_key);
}

#[test]
fn cursor_management() {
    let mut adapter = SlackAdapter::new(NoSlack, slack_config());
    assert!(adapter.get_cursor("C01ABC").is_none());

    adapter.update_cursor("C01ABC", "1234567890.123456");
    assert_eq!(adapter.get_cursor("C01ABC"), Some("1234567890.123456"));

    adapter.update_cursor("C01ABC", "1234567891.000000");
    assert_eq!(adapter.get_cursor("C01ABC"), Some("1234567891.000000"));
}

#[test]
fn adapter_metadata_in_observations() {
    let adapter = SlackAdapter::new(NoSlack, slack_config());
    let draft = adapter.map_message(&sample_message());
    assert_eq!(str_at(&draft.meta, &["sourceAdapterVersion"]), Some("1.0.0"));
    assert_eq!(draft.schema_version.as_str(), SLACK_MESSAGE_SCHEMA_VERSION);
}

#[test]
fn parse_slack_ts_works() {
    let t = parse_slack_ts("1234567890.123456").unwrap();
    assert_eq!(t / 1_000_000, 1234567890);
    assert_eq!(t, 1_234_567_890_123_456);
    assert_eq!(parse_slack_ts("not-a-ts"), None);
    assert_eq!(parse_slack_ts("1700000000"), Some(1_700_000_000_000_000));
}

struct NoSlides;

impl GoogleSlidesClient for NoSlides {
    fn list_revisions(&self, _presentation_id: &str, _page_token: Option<&str>) -> Result<RevisionListPage, AdapterError> {
        Ok(RevisionListPage { revisions: vec![], next_page_token: None })
    }

    fn get_presentation(&self, _presentation_id: &str) -> Result<PresentationNative, AdapterError> {
        Err(AdapterError::Other("presentation not found".into()))
    }

    fn get_presentation_meta(&self, _presentation_id: &str) -> Result<PresentationMeta, AdapterError> {
        Err(AdapterError::Other("meta not found".into()))
    }

    fn render_slide(
        &self,
        _presentation_id: &str,
        _slide_object_id: &str,
        _format: &str,
    ) -> Result<RenderedSlide, AdapterError> {
        Err(AdapterError::Other("rendered not found".into()))
    }
}

fn slides_config() -> AdapterConfig {
    AdapterConfig {
        observer_id: ObserverRef::new("obs:gslides-crawler"),
        source_system_id: SourceSystemRef::new("sys:google-slides"),
        adapter_version: SemVer::new("1.0.0"),
        authority_model: AuthorityModel::SourceAuthoritative,
        capture_model: CaptureModel::Snapshot,
        schemas: vec![SchemaRef::new(WORKSPACE_SNAPSHOT_SCHEMA)],
        schema_bindings: vec![],
        poll_interval: 900,
        heartbeat_interval: 120,
        rate_limit: RateLimitConfig { requests_per_second: 10, burst: 5 },
        retry: RetryConfig { max_retries: 3, backoff: BackoffStrategy::Exponential, max_wait: 60 },
        credential_ref: "secret:google-sa".into(),
    }
}

fn sample_revision() -> SlideRevision {
    SlideRevision {
        presentation_id: "pres123".into(),
        revision_id: "rev456".into(),
        modified_time: micros("2026-05-01T10:00:00Z"),
        last_modifying_user: Some("editor@example.com".into()),
    }
}

fn sample_meta() -> PresentationMeta {
    PresentationMeta {
        presentation_id: "pres123".into(),
        title: "寮紹介スライド".into(),
        container_id: Some("folder789".into()),
        canonical_uri: "https://docs.google.com/presentation/d/pres123".into(),
        owner: Some("owner@example.com".into()),
        editors: vec!["editor@example.com".into()],
        viewers: vec!["viewer@example.com".into()],
    }
}

#[test]
fn map_revision_snapshot_only() {
    let adapter = GoogleSlidesAdapter::new(NoSlides, slides_config());
    let draft = adapter.map_revision(&sample_revision(), &sample_meta(), None, vec![]);
    assert_eq!(draft.schema.as_str(), WORKSPACE_SNAPSHOT_SCHEMA);
    assert_eq!(draft.idempotency_key.as_str(), "gslides:pres123:rev:rev456");
    assert_eq!(draft.subject.as_str(), "document:gslides:pres123");
    assert_eq!(draft.authority_model, AuthorityModel::SourceAuthoritative);
    assert_eq!(draft.capture_model, CaptureModel::Snapshot);
    assert_eq!(str_at(&draft.payload, &["revision", "captureMode"]), Some("snapshot"));
    assert_eq!(str_at(&draft.payload, &["artifact", "provider"]), Some("google"));
    assert_eq!(str_at(&draft.payload, &["artifact", "service"]), Some("slides"));
    assert_eq!(str_at(&draft.payload, &["title"]), Some("寮紹介スライド"));
}

#[test]
fn map_revision_hybrid_with_blobs() {
    let adapter = GoogleSlidesAdapter::new(NoSlides, slides_config());
    let native_blob = BlobRef::new("blob:sha256:native111");
    let rendered_blob = BlobRef::new("blob:sha256:rendered222");

    let draft = adapter.map_revision(&sample_revision(), &sample_meta(), Some(native_blob), vec![rendered_blob]);

    assert_eq!(str_at(&draft.payload, &["revision", "captureMode"]), Some("hybrid"));
    assert_eq!(str_at(&draft.payload, &["native", "encoding"]), Some("blob-ref"));
    assert_eq!(draft.attachments.len(), 2);
}

#[test]
fn same_revision_same_idempotency_key() {
    let adapter = GoogleSlidesAdapter::new(NoSlides, slides_config());
    let d1 = adapter.map_revision(&sample_revision(), &sample_meta(), None, vec![]);
    let d2 = adapter.map_revision(&sample_revision(), &sample_meta(), None, vec![]);
    assert_eq!(d1.idempotency_key, d2.idempotency_key);
}

#[test]
fn revision_contains_relations() {
    let adapter = GoogleSlidesAdapter::new(NoSlides, slides_config());
    let draft = adapter.map_revision(&sample_revision(), &sample_meta(), None, vec![]);
    let editors = at(&draft.payload, &["relations", "editors"]).unwrap().as_array().unwrap();
    assert_eq!(editors[0], JsonValue::String("editor@example.com".into()));
    assert_eq!(str_at(&draft.payload, &["relations", "owner"]), Some("owner@example.com"));
}

#[test]
fn mapper_cursor_management() {
    let mut adapter = GoogleSlidesAdapter::new(NoSlides, slides_config());
    assert!(adapter.get_cursor("pres123").is_none());

    adapter.update_cursor("pres123", "rev456");
    assert_eq!(adapter.get_cursor("pres123"), Some("rev456"));

    adapter.update_cursor("pres123", "rev789");
    assert_eq!(adapter.get_cursor("pres123"), Some("rev789"));
}

#[test]
fn mapper_adapter_metadata_in_observations() {
    let adapter = GoogleSlidesAdapter::new(NoSlides, slides_config());
    let draft = adapter.map_revision(&sample_revision(), &sample_meta(), None, vec![]);
    assert_eq!(str_at(&draft.meta, &["sourceAdapterVersion"]), Some("1.0.0"));
}

#[test]
fn heartbeat_is_deterministic_within_same_minute() {
    let obs = ObserverRef::new("obs:slack-crawler");
    let sys = SourceSystemRef::new("sys:slack");
    let d1 = heartbeat_draft(&obs, &sys, micros("2026-05-01T08:30:00Z"), 0, None);
    let d2 = heartbeat_draft(&obs, &sys, micros("2026-05-01T08:30:45Z"), 0, None);
    assert_eq!(d1.idempotency_key, d2.idempotency_key);
}

#[test]
fn heartbeat_differs_across_minutes() {
    let obs = ObserverRef::new("obs:slack-crawler");
    let sys = SourceSystemRef::new("sys:slack");
    let d1 = heartbeat_draft(&obs, &sys, micros("2026-05-01T08:30:00Z"), 0, None);
    let d2 = heartbeat_draft(&obs, &sys, micros("2026-05-01T08:31:00Z"), 0, None);
    assert_ne!(d1.idempotency_key, d2.idempotency_key);
}

#[test]
fn heartbeat_payload_contains_status() {
    let obs = ObserverRef::new("obs:test");
    let sys = SourceSystemRef::new("sys:test");
    let now = chrono::Utc::now().timestamp_micros();
    let draft = heartbeat_draft(&obs, &sys, now, 3, Some(now));
    assert_eq!(str_at(&draft.payload, &["status"]), Some("alive"));
    assert_eq!(at(&draft.payload, &["pending_count"]), Some(&JsonValue::Number("3".into())));
    assert_eq!(draft.schema.as_str(), "schema:observer-heartbeat");
}

#[test]
fn heartbeat_key_names_the_minute() {
    let obs = ObserverRef::new("obs:slack-crawler");
    let sys = SourceSystemRef::new("sys:slack");
    let d = heartbeat_draft(&obs, &sys, micros("2026-05-01T08:30:45Z"), 0, None);
    assert_eq!(d.idempotency_key.as_str(), "heartbeat:slack-crawler:2026-05-01T08:30");
}
