//! Governance vocabulary: data classification, capabilities, roles,
//! consent, policy requests and outcomes.

use vstd::prelude::*;

use crate::domain::json::JsonValue;
use crate::domain::types::{AuthorityModel, WriteMode};
use crate::domain::values::{ActorRef, EntityRef, ProjectionRef};

verus! {

/// Data classification, from least to most sensitive.
#[derive(Debug, Clone, Copy, PartialEq, Eq, Hash, Structural)]
pub enum AccessScope {
    Public,
    Internal,
    Restricted,
    HighlySensitive,
}

/// Position of a scope in the sensitivity order.
pub open spec fn scope_rank(scope: AccessScope) -> nat {
    match scope {
        AccessScope::Public => 0,
        AccessScope::Internal => 1,
        AccessScope::Restricted => 2,
        AccessScope::HighlySensitive => 3,
    }
}

/// Least-privilege capability tokens.
#[derive(Debug, Clone, Copy, PartialEq, Eq, Hash, Structural)]
pub enum Capability {
    ReadRegistry,
    SearchCatalog,
    ReadOwnProjection,
    ReadSharedProjection,
    RunProjectionDraft,
    RequestWritePreview,
    SubmitProposal,
    ApproveProposal,
    ExecuteManagedCanonicalWrite,
    ExecuteSourceNativeWrite,
    ExportData,
    ReadAuditTrail,
}

/// The name of a capability, as `Debug` prints it.
pub open spec fn capability_name(c: Capability) -> Seq<char> {
    match c {
        Capability::ReadRegistry => "ReadRegistry"@,
        Capability::SearchCatalog => "SearchCatalog"@,
        Capability::ReadOwnProjection => "ReadOwnProjection"@,
        Capability::ReadSharedProjection => "ReadSharedProjection"@,
        Capability::RunProjectionDraft => "RunProjectionDraft"@,
        Capability::RequestWritePreview => "RequestWritePreview"@,
        Capability::SubmitProposal => "SubmitProposal"@,
        Capability::ApproveProposal => "ApproveProposal"@,
        Capability::ExecuteManagedCanonicalWrite => "ExecuteManagedCanonicalWrite"@,
        Capability::ExecuteSourceNativeWrite => "ExecuteSourceNativeWrite"@,
        Capability::ExportData => "ExportData"@,
        Capability::ReadAuditTrail => "ReadAuditTrail"@,
    }
}

impl Capability {
    /// The name of the capability, as `Debug` prints it.
    pub fn name(&self) -> (r: &'static str)
        ensures
            r@ == capability_name(*self),
    {
        match self {
            Capability::ReadRegistry => "ReadRegistry",
            Capability::SearchCatalog => "SearchCatalog",
            Capability::ReadOwnProjection => "ReadOwnProjection",
            Capability::ReadSharedProjection => "ReadSharedProjection",
            Capability::RunProjectionDraft => "RunProjectionDraft",
            Capability::RequestWritePreview => "RequestWritePreview",
            Capability::SubmitProposal => "SubmitProposal",
            Capability::ApproveProposal => "ApproveProposal",
            Capability::ExecuteManagedCanonicalWrite => "ExecuteManagedCanonicalWrite",
            Capability::ExecuteSourceNativeWrite => "ExecuteSourceNativeWrite",
            Capability::ExportData => "ExportData",
            Capability::ReadAuditTrail => "ReadAuditTrail",
        }
    }
}

/// Human or agent role.
#[derive(Debug, Clone, Copy, PartialEq, Eq, Hash, Structural)]
pub enum Role {
    SystemAdmin,
    Researcher,
    Resident,
    External,
    Agent,
}

/// The name of a role, as `Debug` prints it.
pub open spec fn role_name(r: Role) -> Seq<char> {
    match r {
        Role::SystemAdmin => "SystemAdmin"@,
        Role::Researcher => "Researcher"@,
        Role::Resident => "Resident"@,
        Role::External => "External"@,
        Role::Agent => "Agent"@,
    }
}

/// The capabilities granted to each role, in order.
pub open spec fn role_capabilities(r: Role) -> Seq<Capability> {
    match r {
        Role::SystemAdmin => seq![
            Capability::ReadRegistry,
            Capability::SearchCatalog,
            Capability::ReadOwnProjection,
            Capability::ReadSharedProjection,
            Capability::RunProjectionDraft,
            Capability::RequestWritePreview,
            Capability::SubmitProposal,
            Capability::ApproveProposal,
            Capability::ExecuteManagedCanonicalWrite,
            Capability::ExportData,
            Capability::ReadAuditTrail,
        ],
        Role::Researcher => seq![
            Capability::ReadRegistry,
            Capability::SearchCatalog,
            Capability::ReadOwnProjection,
            Capability::ReadSharedProjection,
            Capability::RunProjectionDraft,
            Capability::RequestWritePreview,
            Capability::SubmitProposal,
        ],
        Role::Resident => seq![Capability::ReadOwnProjection, Capability::SearchCatalog],
        Role::External => seq![Capability::SearchCatalog],
        Role::Agent => seq![
            Capability::ReadRegistry,
            Capability::SearchCatalog,
            Capability::RunProjectionDraft,
            Capability::RequestWritePreview,
            Capability::SubmitProposal,
        ],
    }
}

/// Whether role `r` holds capability `c`.
pub open spec fn role_has(r: Role, c: Capability) -> bool {
    role_capabilities(r).contains(c)
}

impl Role {
    /// Capabilities granted to the role (internal-only deployment).
    pub fn capabilities(&self) -> (r: Vec<Capability>)
        ensures
            r@ == role_capabilities(*self),
    {
        let r = match self {
            Role::SystemAdmin => vec![
                Capability::ReadRegistry,
                Capability::SearchCatalog,
                Capability::ReadOwnProjection,
                Capability::ReadSharedProjection,
                Capability::RunProjectionDraft,
                Capability::RequestWritePreview,
                Capability::SubmitProposal,
                Capability::ApproveProposal,
                Capability::ExecuteManagedCanonicalWrite,
                Capability::ExportData,
                Capability::ReadAuditTrail,
            ],
            Role::Researcher => vec![
                Capability::ReadRegistry,
                Capability::SearchCatalog,
                Capability::ReadOwnProjection,
                Capability::ReadSharedProjection,
                Capability::RunProjectionDraft,
                Capability::RequestWritePreview,
                Capability::SubmitProposal,
            ],
            Role::Resident => vec![Capability::ReadOwnProjection, Capability::SearchCatalog],
            Role::External => vec![Capability::SearchCatalog],
            Role::Agent => vec![
                Capability::ReadRegistry,
                Capability::SearchCatalog,
                Capability::RunProjectionDraft,
                Capability::RequestWritePreview,
                Capability::SubmitProposal,
            ],
        };
        assert(r@ =~= role_capabilities(*self));
        r
    }

    /// The name of the role, as `Debug` prints it.
    pub fn name(&self) -> (r: &'static str)
        ensures
            r@ == role_name(*self),
    {
        match self {
            Role::SystemAdmin => "SystemAdmin",
            Role::Researcher => "Researcher",
            Role::Resident => "Resident",
            Role::External => "External",
            Role::Agent => "Agent",
        }
    }
}

/// The roles form a chain of privilege: every capability of `External`
/// is one of `Resident`, every one of `Resident` and of `Agent` is one of
/// `Researcher`, and every one of `Researcher` is one of `SystemAdmin`.
pub proof fn lemma_role_capability_chain(c: Capability)
    ensures
        role_has(Role::External, c) ==> role_has(Role::Resident, c),
        role_has(Role::Resident, c) ==> role_has(Role::Researcher, c),
        role_has(Role::Agent, c) ==> role_has(Role::Researcher, c),
        role_has(Role::Researcher, c) ==> role_has(Role::SystemAdmin, c),
{
    let ext = role_capabilities(Role::External);
    let res = role_capabilities(Role::Resident);
    let rsr = role_capabilities(Role::Researcher);
    let adm = role_capabilities(Role::SystemAdmin);
    let agt = role_capabilities(Role::Agent);
    if ext.contains(c) {
        let i = choose|i: int| 0 <= i < ext.len() && ext[i] == c;
        assert(res[1] == c);
    }
    if res.contains(c) {
        let i = choose|i: int| 0 <= i < res.len() && res[i] == c;
        if i == 0 {
            assert(rsr[2] == c);
        } else {
            assert(rsr[1] == c);
        }
    }
    if agt.contains(c) {
        let i = choose|i: int| 0 <= i < agt.len() && agt[i] == c;
        if i == 0 {
            assert(rsr[0] == c);
        } else if i == 1 {
            assert(rsr[1] == c);
        } else if i == 2 {
            assert(rsr[4] == c);
        } else if i == 3 {
            assert(rsr[5] == c);
        } else {
            assert(rsr[6] == c);
        }
    }
    if rsr.contains(c) {
        let i = choose|i: int| 0 <= i < rsr.len() && rsr[i] == c;
        assert(adm[i] == c);
    }
}

/// No role may execute a source-native write, and only `SystemAdmin`
/// may approve proposals.
pub proof fn lemma_restricted_capabilities(r: Role)
    ensures
        !role_has(r, Capability::ExecuteSourceNativeWrite),
        role_has(r, Capability::ApproveProposal) <==> r == Role::SystemAdmin,
{
    let caps = role_capabilities(r);
    if caps.contains(Capability::ExecuteSourceNativeWrite) {
        let i = choose|i: int| 0 <= i < caps.len() && caps[i] == Capability::ExecuteSourceNativeWrite;
        assert(false);
    }
    if r == Role::SystemAdmin {
        assert(caps[7] == Capability::ApproveProposal);
    } else if caps.contains(Capability::ApproveProposal) {
        let i = choose|i: int| 0 <= i < caps.len() && caps[i] == Capability::ApproveProposal;
        assert(false);
    }
}

/// What the actor wants to do.
#[derive(Debug, Clone, PartialEq, Eq)]
pub enum Operation {
    Read { target: EntityRef },
    Write { mode: WriteMode, authority: AuthorityModel },
    Export { scope: String },
    Publish { projection: ProjectionRef },
    RunBuild { projection: ProjectionRef },
    ReadRestricted { target: EntityRef },
}

/// Per-entity consent state.
#[derive(Debug, Clone, Copy, PartialEq, Eq, Structural)]
pub enum ConsentStatus {
    /// No restriction: internal use allowed.
    Unrestricted,
    /// Restricted capture: filtering required before exposure.
    RestrictedCapture,
    /// Consent revoked: excluded from projections.
    OptedOut,
}

impl Default for ConsentStatus {
    /// Consent is restricted until stated otherwise.
    fn default() -> (r: Self)
        ensures
            r == ConsentStatus::RestrictedCapture,
    {
        ConsentStatus::RestrictedCapture
    }
}

/// Input to the policy engine.
#[derive(Debug, Clone)]
pub struct PolicyRequest {
    pub actor: ActorRef,
    pub role: Role,
    pub operation: Operation,
    pub data_scope: AccessScope,
    pub consent_status: ConsentStatus,
    pub environment: Environment,
}

#[derive(Debug, Clone, Copy, PartialEq, Eq, Structural)]
pub enum Environment {
    Sandbox,
    Production,
    Export,
}

/// Where a review task goes, and why.
#[derive(Debug, Clone, PartialEq, Eq)]
pub struct ReviewRoute {
    pub reason: String,
    pub triggers: Vec<String>,
}

/// Which field is restricted, at what level, and how it is masked.
#[derive(Debug, Clone, PartialEq, Eq)]
pub struct RestrictedFieldSpec {
    pub field_path: String,
    pub level: AccessScope,
    pub mask_strategy: MaskStrategy,
}

#[derive(Debug, Clone, Copy, PartialEq, Eq, Structural)]
pub enum MaskStrategy {
    /// Replace with a placeholder.
    Redact,
    /// Remove the field entirely.
    Exclude,
    /// Replace with a hash of the value (pseudonymize).
    Hash,
}

/// An entry of the governance audit trail. `timestamp` is in microseconds
/// since the Unix epoch.
#[derive(Debug)]
pub struct AuditEvent {
    pub id: String,
    pub timestamp: i64,
    pub actor: ActorRef,
    pub kind: AuditEventKind,
    pub detail: JsonValue,
}

#[derive(Debug, Clone, Copy, PartialEq, Eq, Structural)]
pub enum AuditEventKind {
    ReadRestricted,
    Export,
    WritePreview,
    WriteExecution,
    Publish,
    Approval,
    Rejection,
    SecretRotation,
    Takedown,
    PhysicalDelete,
    PolicyDenial,
}

/// Identity-resolution confidence, ordered `Low < Medium < High`.
#[derive(Debug, Clone, Copy, PartialEq, Eq, PartialOrd, Ord, Hash, Structural)]
pub enum ConfidenceLevel {
    Low,
    Medium,
    High,
}

/// A structured denial.
#[derive(Debug, Clone, PartialEq, Eq)]
pub struct DenyReason {
    pub code: String,
    pub message: String,
}

/// Result of a policy evaluation.
#[derive(Debug, Clone, PartialEq, Eq)]
pub enum PolicyOutcome {
    Allow,
    Deny { reason: DenyReason },
    RequireReview { route: ReviewRoute },
}

/// The model of a policy outcome: codes, messages and triggers as
/// character sequences.
pub enum Outcome {
    Allow,
    Deny { code: Seq<char>, message: Seq<char> },
    RequireReview { reason: Seq<char>, triggers: Seq<Seq<char>> },
}

impl View for PolicyOutcome {
    type V = Outcome;

    open spec fn view(&self) -> Outcome {
        match self {
            PolicyOutcome::Allow => Outcome::Allow,
            PolicyOutcome::Deny { reason } => Outcome::Deny {
                code: reason.code@,
                message: reason.message@,
            },
            PolicyOutcome::RequireReview { route } => Outcome::RequireReview {
                reason: route.reason@,
                triggers: route.triggers@.map_values(|t: String| t@),
            },
        }
    }
}

impl PolicyOutcome {
    pub fn is_allow(&self) -> (r: bool)
        ensures
            r == self is Allow,
    {
        match self {
            PolicyOutcome::Allow => true,
            _ => false,
        }
    }

    pub fn is_deny(&self) -> (r: bool)
        ensures
            r == self is Deny,
    {
        match self {
            PolicyOutcome::Deny { .. } => true,
            _ => false,
        }
    }

    pub fn is_require_review(&self) -> (r: bool)
        ensures
            r == self is RequireReview,
    {
        match self {
            PolicyOutcome::RequireReview { .. } => true,
            _ => false,
        }
    }
}

} // verus!
