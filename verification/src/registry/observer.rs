//! Observers and the source systems they read.

use vstd::prelude::*;

use crate::domain::types::{AuthorityModel, CaptureModel, ObserverType, SourceClass, TrustLevel};
use crate::domain::values::{ObserverRef, SchemaRef, SemVer, SourceSystemRef};

verus! {

/// A registered observer: who captures, from which source system, under
/// which schemas and models.
#[derive(Debug, Clone)]
pub struct Observer {
    pub id: ObserverRef,
    pub name: String,
    pub observer_type: ObserverType,
    pub source_system: SourceSystemRef,
    pub adapter_version: SemVer,
    /// Schemas the observer may emit; empty means any.
    pub schemas: Vec<SchemaRef>,
    pub authority_model: AuthorityModel,
    pub capture_model: CaptureModel,
    pub owner: String,
    pub trust_level: TrustLevel,
}

#[derive(Debug, Clone)]
pub struct SourceSystem {
    pub id: SourceSystemRef,
    pub name: String,
    pub provider: Option<String>,
    pub api_version: Option<String>,
    pub source_class: SourceClass,
}

} // verus!
