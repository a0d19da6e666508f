//! Projection entries as the registry records them.

use vstd::prelude::*;

use crate::domain::types::{ProjectionHealth, ProjectionKind, ProjectionStatus};
use crate::domain::values::{ProjectionRef, SemVer};

verus! {

/// A projection as the registry records it. `created_at` is in
/// microseconds since the Unix epoch.
#[derive(Debug, Clone)]
pub struct ProjectionCatalogEntry {
    pub id: ProjectionRef,
    pub name: String,
    pub description: String,
    pub created_by: String,
    pub created_at: i64,
    pub version: SemVer,
    pub status: ProjectionStatus,
    pub kind: ProjectionKind,
    pub engine: String,
    pub tags: Vec<String>,
    pub health: ProjectionHealth,
    pub depth: u32,
}

} // verus!
