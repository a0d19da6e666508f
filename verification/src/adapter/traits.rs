//! The source-adapter protocol and its exchange types. Times are
//! microseconds since the Unix epoch.

use vstd::prelude::*;

use crate::adapter::error::AdapterError;
use crate::domain::json::JsonValue;
use crate::domain::types::{AuthorityModel, CaptureModel};
use crate::domain::values::{
    BlobRef, EntityRef, IdempotencyKey, ObserverRef, SchemaRef, SemVer, SourceSystemRef,
};

verus! {

/// The position an adapter keeps between incremental fetches.
#[derive(Debug, Clone)]
pub struct Cursor {
    /// Adapter-specific value (a Slack `oldest` ts, a revision id).
    pub value: String,
    pub updated_at: i64,
}

/// An observation before it has an id: what an adapter hands to the
/// ingestion gate.
#[derive(Debug)]
pub struct ObservationDraft {
    pub schema: SchemaRef,
    pub schema_version: SemVer,
    pub observer: ObserverRef,
    pub source_system: Option<SourceSystemRef>,
    pub authority_model: AuthorityModel,
    pub capture_model: CaptureModel,
    pub subject: EntityRef,
    pub target: Option<EntityRef>,
    pub payload: JsonValue,
    pub attachments: Vec<BlobRef>,
    pub published: i64,
    pub idempotency_key: IdempotencyKey,
    pub meta: JsonValue,
}

/// Data fetched from a source, before mapping.
#[derive(Debug)]
pub struct RawData {
    pub data: JsonValue,
    /// Binary attachments to upload, by name.
    pub blobs: Vec<(String, Vec<u8>)>,
}

/// The result of a fetch: the items fetched, or the error.
#[derive(Debug)]
pub enum FetchResult {
    Fetched { items: Vec<RawData>, next_cursor: Option<Cursor>, has_more: bool },
    Error(AdapterError),
}

/// The source-adapter protocol: fetching is separate from the pure
/// mapping of raw data to drafts.
pub trait SourceAdapter {
    /// Fetches what changed since `cursor`.
    fn fetch_incremental(&self, cursor: Option<&Cursor>) -> FetchResult;

    /// Fetches the latest state of one object.
    fn fetch_snapshot(&self, target_id: &str) -> FetchResult;

    /// Maps raw source data to drafts.
    fn to_observations(&self, raw: &RawData) -> Vec<ObservationDraft>;

    /// A heartbeat draft.
    fn heartbeat(&self) -> ObservationDraft;

    fn observer_ref(&self) -> &ObserverRef;

    fn source_system_ref(&self) -> &SourceSystemRef;
}

} // verus!
