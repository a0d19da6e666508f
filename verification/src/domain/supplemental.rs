//! Supplemental records: reusable derivations kept beside the lake.

use vstd::prelude::*;

use crate::domain::json::JsonValue;
use crate::domain::types::Mutability;
use crate::domain::values::{ActorRef, BlobRef, LineageRef, ObservationId, SupplementalId};

verus! {

/// A non-canonical but reusable derivation. Times are microseconds since
/// the Unix epoch.
#[derive(Debug)]
pub struct SupplementalRecord {
    pub id: SupplementalId,
    /// For example "transcript", "ocr-text" or "embedding".
    pub kind: String,
    pub derived_from: InputAnchorSet,
    pub payload: JsonValue,
    pub created_by: ActorRef,
    pub created_at: i64,
    pub mutability: Mutability,
    pub record_version: Option<String>,
    pub model_version: Option<String>,
    pub consent_metadata: Option<ConsentMetadata>,
    pub lineage: Option<LineageRef>,
}

/// The canonical inputs a derivation was produced from.
#[derive(Debug, Clone)]
pub struct InputAnchorSet {
    pub observations: Vec<ObservationId>,
    pub blobs: Vec<BlobRef>,
    pub supplementals: Vec<SupplementalId>,
}

impl Default for InputAnchorSet {
    fn default() -> (r: Self)
        ensures
            r.observations@.len() == 0,
            r.blobs@.len() == 0,
            r.supplementals@.len() == 0,
    {
        InputAnchorSet { observations: Vec::new(), blobs: Vec::new(), supplementals: Vec::new() }
    }
}

/// Consent metadata of a supplemental record.
#[derive(Debug, Clone)]
pub struct ConsentMetadata {
    pub referenced_observation_id: ObservationId,
    pub retracted_at: Option<i64>,
    pub opt_out_strategy: OptOutStrategy,
    pub opt_out_effective_at: Option<i64>,
}

#[derive(Debug, Clone, Copy, PartialEq, Eq, Hash, Structural)]
pub enum OptOutStrategy {
    Drop,
    Anonymize,
    Pseudonymize,
}

} // verus!
