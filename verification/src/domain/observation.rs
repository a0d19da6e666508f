//! The canonical capture record.

use vstd::prelude::*;

use crate::domain::json::JsonValue;
use crate::domain::types::{AuthorityModel, CaptureModel};
use crate::domain::values::{
    BlobRef, ConsentRef, EntityRef, IdempotencyKey, ObservationId, ObserverRef, SchemaRef, SemVer,
    SourceSystemRef,
};
use crate::trusted::{hyphenated_v7, uuid_v7_text};

verus! {

/// An observation: the pre-interpretation capture of something an observer
/// noticed. It is never mutated once ingested. Times are microseconds since
/// the Unix epoch (UTC).
#[derive(Debug)]
pub struct Observation {
    pub id: ObservationId,
    pub schema: SchemaRef,
    pub schema_version: SemVer,
    pub observer: ObserverRef,
    pub source_system: Option<SourceSystemRef>,
    pub actor: Option<EntityRef>,
    pub authority_model: AuthorityModel,
    pub capture_model: CaptureModel,
    /// What this observation is about.
    pub subject: EntityRef,
    /// An optional related entity.
    pub target: Option<EntityRef>,
    pub payload: JsonValue,
    pub attachments: Vec<BlobRef>,
    /// Event time.
    pub published: i64,
    /// Ingestion time.
    pub recorded_at: i64,
    pub consent: Option<ConsentRef>,
    pub idempotency_key: Option<IdempotencyKey>,
    pub meta: JsonValue,
}

impl Observation {
    /// A new time-sortable observation id (a version-7 UUID).
    pub fn new_id() -> (r: ObservationId)
        ensures
            hyphenated_v7(r@),
    {
        ObservationId(uuid_v7_text())
    }
}

} // verus!
