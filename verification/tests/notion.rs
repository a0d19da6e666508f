use dokp::adapter::error::AdapterError;
use dokp::adapter::writeback::notion::blocks::{thumbnail_external_block, thumbnail_file_upload_block};
use dokp::adapter::writeback::notion::client::{
    blob_ref_sha256, children_api_version, classify_status, is_bot_section_marker, page_url,
    plan_stacking_update, plan_thumbnail, record_email, NotionBlock, NotionConfig, StatusClass,
    ThumbnailPlan,
};
use dokp::adapter::writeback::notion::properties::{build_property_updates, DatabaseSchema, NotionProperty};
use dokp::adapter::writeback::notion::render::render_payload_blocks;
use dokp::adapter::writeback::notion::values::{combine_list_texts, normalize_property_name};
use dokp::adapter::writeback::traits::{
    BatchWriteResult, SaaSWriteAdapter, WriteAction, WriteRecord, WriteResult,
};
use dokp::domain::json::JsonValue;

fn to_value(v: &serde_json::Value) -> JsonValue {
    match v {
        serde_json::Value::Null => JsonValue::Null,
        serde_json::Value::Bool(b) => JsonValue::Bool(*b),
        serde_json::Value::Number(n) => JsonValue::Number(n.to_string()),
        serde_json::Value::String(s) => JsonValue::String(s.clone()),
        serde_json::Value::Array(a) => JsonValue::Array(a.iter().map(to_value).collect()),
        serde_json::Value::Object(m) => {
            JsonValue::Object(m.iter().map(|(k, x)| (k.clone(), to_value(x))).collect())
        }
    }
}

fn js(text: &str) -> JsonValue {
    to_value(&serde_json::from_str(text).unwrap())
}

/// The value at a path of member names.
fn at<'a>(v: &'a JsonValue, path: &[&str]) -> Option<&'a JsonValue> {
    let mut cur = v;
    for key in path {
        cur = cur.get(key)?;
    }
    Some(cur)
}

fn str_at<'a>(v: &'a JsonValue, path: &[&str]) -> Option<&'a str> {
    at(v, path).and_then(|x| x.as_str()).map(|s| s.as_str())
}

/// The content of the first rich text item of a property.
fn rich_content<'a>(props: &'a JsonValue, name: &str) -> Option<&'a str> {
    let arr = at(props, &[name, "rich_text"])?.as_array()?;
    str_at(arr.first()?, &["text", "content"])
}

fn fixture_schema(person_id_property_name: &str) -> DatabaseSchema {
    let names = [
        ("Birthplace", "rich_text"),
        ("Major_interests", "rich_text"),
        ("Hashtag", "rich_text"),
        ("Source Slide URL", "url"),
        ("Last Synced At", "date"),
        ("Projection Version", "rich_text"),
        ("Status", "status"),
        ("Visibility", "checkbox"),
        (person_id_property_name, "rich_text"),
    ];
    DatabaseSchema {
        title_property: "Name".into(),
        email_property: Some("Email".into()),
        properties: names
            .iter()
            .map(|(n, t)| (n.to_string(), NotionProperty { property_type: t.to_string() }))
            .collect(),
        actual_names_by_normalized: names
            .iter()
            .map(|(n, _)| (normalize_property_name(n), n.to_string()))
            .collect(),
    }
}

#[test]
fn render_payload_with_profile_pic() {
    let payload = js(r#"{
        "profile_pic": {"url": "https://example.com/pic.jpg", "description": "Photo"},
        "email": "taro@example.jp",
        "source_canonical_uri": "https://docs.google.com/presentation/d/test",
        "bio_text": "Hello world",
        "properties": {"Nickname": "Taro", "MBTI": "ENFP"}
    }"#);
    let blocks = render_payload_blocks(&payload);
    assert!(blocks.len() >= 5);
    assert_eq!(str_at(&blocks[0], &["type"]), Some("callout"));
    assert_eq!(str_at(&blocks[1], &["type"]), Some("image"));
    assert_eq!(str_at(&blocks[2], &["type"]), Some("callout"));
}

#[test]
fn render_payload_with_gallery() {
    let payload = js(r#"{
        "gallery_images": [
            {"url": "https://example.com/g1.jpg", "description": "Photo 1"},
            {"url": "https://example.com/g2.jpg", "description": "Photo 2"}
        ],
        "properties": {}
    }"#);
    let blocks = render_payload_blocks(&payload);
    assert_eq!(blocks.len(), 5);
}

#[test]
fn render_payload_with_narrative() {
    let payload = js(r#"{"properties": {"New Challenges": "Learning Rust", "Ask Me About": "Cooking"}}"#);
    let blocks = render_payload_blocks(&payload);
    assert_eq!(blocks.len(), 4);
}

#[test]
fn build_property_updates_merges_major_interests() {
    let payload = js(r#"{"properties": {"Major": "CS", "Interests": ["AI", "Robotics"], "Birthplace": "Tokyo"}}"#);
    let props = build_property_updates(&fixture_schema("LETHE Person ID"), "田中太郎", &payload);
    assert!(props.get("Major_interests").is_some());
    assert!(props.get("Birthplace").is_some());
    assert!(props.get("Name").is_some());
    assert_eq!(rich_content(&props, "Major_interests"), Some("CS, AI, Robotics"));
}

#[test]
fn build_property_updates_populates_metadata_and_attribute_fallbacks() {
    let payload = js(r##"{
        "attributes": ["AI", "ML"],
        "_lethe": {
            "person_id": "person:alice",
            "projection_version": "proj:person-page@0.1.0",
            "last_synced_at": "2026-03-28T11:00:00Z",
            "source_slide_url": "https://example.com/slide",
            "status": "Done",
            "visibility": true
        },
        "properties": {"Hashtags": ["#rust"], "Major": "CS", "Interests": ["Robotics"]}
    }"##);

    let props = build_property_updates(&fixture_schema("LETHE Person ID"), "田中太郎", &payload);

    assert_eq!(rich_content(&props, "Hashtag"), Some("#rust, AI, ML"));
    assert_eq!(rich_content(&props, "LETHE Person ID"), Some("person:alice"));
    assert_eq!(str_at(&props, &["Source Slide URL", "url"]), Some("https://example.com/slide"));
    assert_eq!(str_at(&props, &["Last Synced At", "date", "start"]), Some("2026-03-28T11:00:00Z"));
    assert_eq!(rich_content(&props, "Projection Version"), Some("proj:person-page@0.1.0"));
    assert_eq!(str_at(&props, &["Status", "status", "name"]), Some("Done"));
    assert_eq!(at(&props, &["Visibility", "checkbox"]), Some(&JsonValue::Bool(true)));
}

#[test]
fn render_payload_adds_highlights_section() {
    let payload = js(r#"{
        "attributes": ["AI", "ML"],
        "properties": {"Hobbies": ["写真", "散歩"], "Hashtags": ["rust", "slides"]}
    }"#);
    let blocks = render_payload_blocks(&payload);
    assert!(blocks
        .iter()
        .any(|block| str_at(block, &["type"]) == Some("heading_3") && block.to_text().contains("Highlights")));
}

fn heading_block(text: &str) -> NotionBlock {
    let raw = format!(
        r#"{{"heading_2": {{"rich_text": [{{"text": {{"content": "{text}"}}, "plain_text": "{text}"}}]}}}}"#
    );
    NotionBlock { id: "test".into(), block_type: "heading_2".into(), raw: js(&raw) }
}

#[test]
fn is_bot_section_marker_detects_legacy_heading() {
    assert!(is_bot_section_marker(&heading_block("🤖 From Google Slide")));
}

#[test]
fn is_bot_section_marker_detects_divider() {
    let block = NotionBlock { id: "test".into(), block_type: "divider".into(), raw: js(r#"{"divider": {}}"#) };
    assert!(is_bot_section_marker(&block));
}

#[test]
fn is_bot_section_marker_rejects_other() {
    assert!(!is_bot_section_marker(&heading_block("Other Heading")));
}

#[test]
fn thumbnail_file_upload_block_uses_file_upload_type() {
    let block = thumbnail_file_upload_block("upload-123");
    assert_eq!(str_at(&block, &["type"]), Some("image"));
    assert_eq!(str_at(&block, &["image", "type"]), Some("file_upload"));
    assert_eq!(str_at(&block, &["image", "file_upload", "id"]), Some("upload-123"));
}

#[test]
fn thumbnail_external_block_uses_external_type() {
    let block = thumbnail_external_block("https://example.com/thumb.png");
    assert_eq!(str_at(&block, &["type"]), Some("image"));
    assert_eq!(str_at(&block, &["image", "type"]), Some("external"));
    assert_eq!(str_at(&block, &["image", "external", "url"]), Some("https://example.com/thumb.png"));
}

#[test]
fn combined_lists_drop_repeats_by_normalised_name() {
    let values = vec!["Rust".to_string(), " ".to_string(), "rust!".to_string(), "AI".to_string()];
    assert_eq!(combine_list_texts(&values).as_deref(), Some("Rust, AI"));
    assert_eq!(combine_list_texts(&vec!["--".to_string()]), None);
    assert_eq!(normalize_property_name("Major_Interests"), "majorinterests");
}

#[test]
fn stacking_plan_replaces_managed_section() {
    let blocks = vec![
        NotionBlock { id: "keep".into(), block_type: "paragraph".into(), raw: js(r#"{"paragraph": {}}"#) },
        NotionBlock { id: "thumb".into(), block_type: "image".into(), raw: js("{}") },
        NotionBlock { id: "marker".into(), block_type: "divider".into(), raw: js("{}") },
        NotionBlock {
            id: "old".into(),
            block_type: "paragraph".into(),
            raw: js(r#"{"paragraph": {"rich_text": [{"plain_text": "  old text "}]}}"#),
        },
        NotionBlock { id: "blank".into(), block_type: "paragraph".into(), raw: js("{}") },
    ];
    let plan = plan_stacking_update(&blocks);
    assert_eq!(plan.delete_queue, vec!["thumb", "marker", "old", "blank"]);
    assert_eq!(plan.archived.len(), 1);
    let content = at(&plan.archived[0], &["paragraph", "rich_text"]).unwrap().as_array().unwrap();
    assert_eq!(str_at(&content[0], &["text", "content"]), Some("old text"));

    let none = plan_stacking_update(&blocks[..2].iter().map(|b| NotionBlock {
        id: b.id.clone(),
        block_type: b.block_type.clone(),
        raw: js("{}"),
    }).collect());
    assert!(none.delete_queue.is_empty());
}

#[test]
fn thumbnail_plan_prefers_blob_ref() {
    let hash = "a".repeat(64);
    let payload = js(&format!(
        r#"{{"thumbnail_blob_ref": "blob:sha256:{hash}", "thumbnail_url": "https://x/y.png"}}"#
    ));
    match plan_thumbnail(&payload).unwrap() {
        ThumbnailPlan::Upload { hash: h, filename } => {
            assert_eq!(h, hash);
            assert_eq!(filename, "lethe-thumbnail-aaaaaaaa.png");
        }
        other => panic!("unexpected {other:?}"),
    }
    let bad = js(r#"{"thumbnail_blob_ref": "blob:md5:1"}"#);
    assert!(matches!(plan_thumbnail(&bad), Err(AdapterError::Other(m)) if m == "invalid thumbnail blob ref: blob:md5:1"));
    let external = js(r#"{"thumbnail_url": "https://x/y.png"}"#);
    assert!(matches!(plan_thumbnail(&external).unwrap(), ThumbnailPlan::External(_)));
    let none = js(r#"{"thumbnail_url": "ftp://x"}"#);
    assert!(matches!(plan_thumbnail(&none).unwrap(), ThumbnailPlan::Nothing));
    assert_eq!(blob_ref_sha256("blob:sha256:XYZ"), None);
}

#[test]
fn request_helpers() {
    assert_eq!(page_url("abc-def-123"), "https://www.notion.so/abcdef123");
    assert_eq!(classify_status(429), StatusClass::RateLimited);
    assert_eq!(classify_status(403), StatusClass::Unauthorized);
    assert_eq!(classify_status(500), StatusClass::Failed);
    assert_eq!(classify_status(200), StatusClass::Success);
    let upload = vec![thumbnail_file_upload_block("u1")];
    assert_eq!(children_api_version(&upload, "2022-06-28"), "2026-03-11");
    let plain = vec![thumbnail_external_block("https://x")];
    assert_eq!(children_api_version(&plain, "2022-06-28"), "2022-06-28");
    let config = NotionConfig::new("token", "db").with_blob_dir("/blobs");
    assert_eq!(config.api_version, "2022-06-28");
    assert_eq!(config.blob_dir.as_deref(), Some("/blobs"));
    let record = WriteRecord {
        entity_id: "person:alice".into(),
        title: "Alice".into(),
        payload: js(r#"{"generated_email": "alice@example.com"}"#),
        external_id: None,
    };
    assert_eq!(record_email(&record), "alice@example.com");
}

struct FixtureWriteAdapter {
    fail_on: Option<String>,
}

impl SaaSWriteAdapter for FixtureWriteAdapter {
    fn write_record(&self, record: &WriteRecord) -> Result<WriteResult, AdapterError> {
        if self.fail_on.as_deref() == Some(record.entity_id.as_str()) {
            return Err(AdapterError::Other("fixture failure".into()));
        }
        Ok(WriteResult {
            external_id: format!("ext-{}", record.entity_id),
            action: if record.external_id.is_some() { WriteAction::Updated } else { WriteAction::Created },
            url: Some(format!("https://example.com/{}", record.entity_id)),
        })
    }

    fn find_existing(&self, entity_id: &str) -> Result<Option<String>, AdapterError> {
        if entity_id == "existing" {
            Ok(Some("ext-existing".into()))
        } else {
            Ok(None)
        }
    }

    fn delete_record(&self, _external_id: &str) -> Result<(), AdapterError> {
        Ok(())
    }

    fn adapter_name(&self) -> &str {
        "fixture"
    }
}

fn record(entity_id: &str, title: &str, external_id: Option<&str>) -> WriteRecord {
    WriteRecord {
        entity_id: entity_id.into(),
        title: title.into(),
        payload: js(&format!(r#"{{"name": "{title}"}}"#)),
        external_id: external_id.map(|s| s.to_string()),
    }
}

#[test]
fn write_record_creates_new() {
    let adapter = FixtureWriteAdapter { fail_on: None };
    let result = adapter.write_record(&record("person:alice", "Alice", None)).unwrap();
    assert_eq!(result.action, WriteAction::Created);
    assert_eq!(result.external_id, "ext-person:alice");
}

#[test]
fn write_record_updates_existing() {
    let adapter = FixtureWriteAdapter { fail_on: None };
    let result = adapter.write_record(&record("person:alice", "Alice", Some("ext-123"))).unwrap();
    assert_eq!(result.action, WriteAction::Updated);
}

#[test]
fn batch_write_partial_failure() {
    let adapter = FixtureWriteAdapter { fail_on: Some("person:bob".into()) };
    let records = vec![record("person:alice", "Alice", None), record("person:bob", "Bob", None)];
    let result: BatchWriteResult = adapter.write_batch(&records);
    assert_eq!(result.succeeded.len(), 1);
    assert_eq!(result.failed.len(), 1);
    assert_eq!(result.failed[0].entity_id, "person:bob");
    assert_eq!(result.failed[0].error, "adapter error: fixture failure");
}

#[test]
fn find_existing_returns_id() {
    let adapter = FixtureWriteAdapter { fail_on: None };
    assert!(adapter.find_existing("existing").unwrap().is_some());
    assert!(adapter.find_existing("nonexistent").unwrap().is_none());
}

#[test]
fn narrative_sections_are_never_database_properties() {
    let names = [
        ("New Challenges", "rich_text"),
        ("Ask Me About", "rich_text"),
        ("Turning Point", "rich_text"),
        ("BTW", "rich_text"),
        ("Dislikes", "rich_text"),
    ];
    let schema = DatabaseSchema {
        title_property: "Name".into(),
        email_property: None,
        properties: names
            .iter()
            .map(|(n, t)| (n.to_string(), NotionProperty { property_type: t.to_string() }))
            .collect(),
        actual_names_by_normalized: names
            .iter()
            .map(|(n, _)| (normalize_property_name(n), n.to_string()))
            .collect(),
    };
    let payload = js(
        r#"{"properties": {"New Challenges": "Learning Rust", "Ask Me About": "Cooking", "Turning Point": "Moving", "BTW": "Cats", "Dislikes": "Rain"}}"#,
    );
    let props = build_property_updates(&schema, "", &payload);
    assert!(props.get("New Challenges").is_none());
    assert!(props.get("Ask Me About").is_none());
    assert!(props.get("Turning Point").is_none());
    assert!(props.get("BTW").is_none());
    assert!(props.get("Dislikes").is_some());
}
