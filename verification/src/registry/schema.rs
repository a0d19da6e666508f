//! Observation schemas and their versions.

use vstd::prelude::*;

use crate::domain::json::JsonValue;
use crate::domain::values::{EntityTypeRef, ObserverRef, SchemaRef, SemVer};

verus! {

/// A registered observation schema. Times are microseconds since the Unix
/// epoch.
#[derive(Debug)]
pub struct ObservationSchema {
    pub id: SchemaRef,
    pub name: String,
    pub version: SemVer,
    pub subject_type: EntityTypeRef,
    pub target_type: Option<EntityTypeRef>,
    pub payload_schema: JsonValue,
    /// Observers allowed to emit this schema; empty means any.
    pub source_contracts: Vec<SchemaSourceContract>,
    pub attachment_config: Option<AttachmentConfig>,
    pub registered_by: Option<String>,
    pub registered_at: Option<i64>,
}

#[derive(Debug, Clone)]
pub struct SchemaSourceContract {
    pub observer_id: ObserverRef,
    pub adapter_version: SemVer,
    pub compatible_range: String,
}

#[derive(Debug, Clone)]
pub struct AttachmentConfig {
    pub required: bool,
    pub accepted_types: Vec<String>,
}

/// One version of a schema.
#[derive(Debug)]
pub struct SchemaVersion {
    pub schema_id: SchemaRef,
    pub version: SemVer,
    pub payload_schema: JsonValue,
    pub created_at: i64,
}

} // verus!
