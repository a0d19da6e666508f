//! Closed algebras of the domain kernel and policy / decision types.
//!
//! Every enum here is closed: adding a variant is a design decision.

use vstd::prelude::*;

verus! {

/// Where the authoritative copy of the data lives.
#[derive(Debug, Clone, Copy, PartialEq, Eq, Hash, Structural)]
pub enum AuthorityModel {
    LakeAuthoritative,
    SourceAuthoritative,
    DualReference,
}

/// The name of an authority model, as `Debug` prints it.
pub open spec fn authority_name(a: AuthorityModel) -> Seq<char> {
    match a {
        AuthorityModel::LakeAuthoritative => "LakeAuthoritative"@,
        AuthorityModel::SourceAuthoritative => "SourceAuthoritative"@,
        AuthorityModel::DualReference => "DualReference"@,
    }
}

impl AuthorityModel {
    /// The name of the model, as `Debug` prints it.
    pub fn name(&self) -> (r: &'static str)
        ensures
            r@ == authority_name(*self),
    {
        match self {
            AuthorityModel::LakeAuthoritative => "LakeAuthoritative",
            AuthorityModel::SourceAuthoritative => "SourceAuthoritative",
            AuthorityModel::DualReference => "DualReference",
        }
    }
}

/// How the data was captured.
#[derive(Debug, Clone, Copy, PartialEq, Eq, Hash, Structural)]
pub enum CaptureModel {
    Event,
    Snapshot,
    ChunkManifest,
    Restricted,
}

/// The name of a capture model, as `Debug` prints it.
pub open spec fn capture_name(c: CaptureModel) -> Seq<char> {
    match c {
        CaptureModel::Event => "Event"@,
        CaptureModel::Snapshot => "Snapshot"@,
        CaptureModel::ChunkManifest => "ChunkManifest"@,
        CaptureModel::Restricted => "Restricted"@,
    }
}

impl CaptureModel {
    /// The name of the model, as `Debug` prints it.
    pub fn name(&self) -> (r: &'static str)
        ensures
            r@ == capture_name(*self),
    {
        match self {
            CaptureModel::Event => "Event",
            CaptureModel::Snapshot => "Snapshot",
            CaptureModel::ChunkManifest => "ChunkManifest",
            CaptureModel::Restricted => "Restricted",
        }
    }
}

/// Read-side mode that trades freshness against reproducibility.
#[derive(Debug, Clone, Copy, PartialEq, Eq, Hash, Structural)]
pub enum ReadMode {
    AcademicPinned,
    OperationalLatest,
    ApplicationCached,
}

/// Write-side classification.
#[derive(Debug, Clone, Copy, PartialEq, Eq, Hash, Structural)]
pub enum WriteMode {
    Canonical,
    Annotation,
    Proposal,
}

#[derive(Debug, Clone, Copy, PartialEq, Eq, Hash, Structural)]
pub enum ObservationKind {
    CanonicalObservation,
    SupplementalRecord,
    GovernanceRecord,
}

#[derive(Debug, Clone, Copy, PartialEq, Eq, Hash, Structural)]
pub enum ProjectionKind {
    PureProjection,
    CachedProjection,
    WritableProjection,
}

#[derive(Debug, Clone, Copy, PartialEq, Eq, Hash, Structural)]
pub enum MaterializationKind {
    SqlTables,
    Fileset,
    VectorIndex,
    GraphStore,
    HttpApi,
}

/// A policy error: a machine-readable code and a message.
#[derive(Debug, Clone, PartialEq, Eq)]
pub struct PolicyError {
    pub code: String,
    pub message: String,
}

/// A review task raised by a policy decision.
#[derive(Debug, Clone, PartialEq, Eq)]
pub struct ReviewTask {
    pub id: String,
    pub reason: String,
}

/// The decision of a policy.
#[derive(Debug, Clone, PartialEq, Eq)]
pub enum PolicyDecision {
    Allow,
    Deny { error: PolicyError },
    RequireReview { task: ReviewTask },
}

#[derive(Debug, Clone, Copy, PartialEq, Eq, Hash, Structural)]
pub enum ReviewStatus {
    Draft,
    PendingReview,
    Approved,
    Rejected,
    Superseded,
}

/// Failure classes that every error of the platform maps to.
#[derive(Debug, Clone, Copy, PartialEq, Eq, Hash, Structural)]
pub enum FailureClass {
    ValidationFailure,
    PolicyFailure,
    ConflictFailure,
    DeterminismFailure,
    RetryableEffectFailure,
    NonRetryableEffectFailure,
    QuarantineFailure,
}

/// Mutability of a supplemental record.
#[derive(Debug, Clone, Copy, PartialEq, Eq, Hash, Structural)]
pub enum Mutability {
    AppendOnly,
    ManagedCache,
}

#[derive(Debug, Clone, Copy, PartialEq, Eq, Hash, Structural)]
pub enum ObserverType {
    Crawler,
    Connector,
    Bot,
    SensorGateway,
    Human,
}

#[derive(Debug, Clone, Copy, PartialEq, Eq, Hash, Structural)]
pub enum TrustLevel {
    Automated,
    HumanVerified,
    Crowdsourced,
}

#[derive(Debug, Clone, Copy, PartialEq, Eq, Hash, Structural)]
pub enum SourceClass {
    MutableMultimodal,
    MutableText,
    ImmutableMultimodal,
    ImmutableText,
}

/// Lifecycle status of a catalogued projection.
#[derive(Debug, Clone, Copy, PartialEq, Eq, Hash, Structural)]
pub enum ProjectionStatus {
    Building,
    Active,
    Stale,
    Degraded,
    Archived,
}

/// Health of a catalogued projection.
#[derive(Debug, Clone, Copy, PartialEq, Eq, Hash, Structural)]
pub enum ProjectionHealth {
    Healthy,
    Stale,
    Degraded,
    Broken,
}

} // verus!
