//! Errors of the domain kernel and the result of an ingestion attempt.

use vstd::prelude::*;
use vstd::string::*;

use crate::domain::types::{FailureClass, PolicyError, ReviewTask};
use crate::domain::values::ObservationId;
use crate::text::concat2;

verus! {

/// The result of an ingestion attempt. `recorded_at` is in microseconds
/// since the Unix epoch.
#[derive(Debug)]
pub enum IngestResult {
    Ingested { id: ObservationId, recorded_at: i64 },
    Duplicate { existing_id: ObservationId },
    Rejected { class: FailureClass, message: String },
    Quarantined { ticket: QuarantineTicket },
}

#[derive(Debug, Clone)]
pub struct QuarantineTicket {
    pub id: String,
    pub reason: String,
}

/// A domain-level error (not an HTTP error).
#[derive(Debug)]
pub enum DomainError {
    Validation(String),
    Policy(PolicyError),
    Conflict(String),
    ReviewRequired(ReviewTask),
    Quarantine(String),
    NotFound(String),
}

/// The failure class of each kind of domain error.
pub open spec fn domain_failure_class(e: DomainError) -> FailureClass {
    match e {
        DomainError::Validation(_) => FailureClass::ValidationFailure,
        DomainError::Policy(_) => FailureClass::PolicyFailure,
        DomainError::Conflict(_) => FailureClass::ConflictFailure,
        DomainError::ReviewRequired(_) => FailureClass::QuarantineFailure,
        DomainError::Quarantine(_) => FailureClass::QuarantineFailure,
        DomainError::NotFound(_) => FailureClass::ValidationFailure,
    }
}

/// The text of a domain error: a prefix naming its kind, then its detail.
pub open spec fn domain_error_text(e: DomainError) -> Seq<char> {
    match e {
        DomainError::Validation(m) => "validation: "@ + m@,
        DomainError::Policy(p) => "policy: "@ + p.message@,
        DomainError::Conflict(m) => "conflict: "@ + m@,
        DomainError::ReviewRequired(t) => "review required: "@ + t.reason@,
        DomainError::Quarantine(m) => "quarantine: "@ + m@,
        DomainError::NotFound(m) => "not found: "@ + m@,
    }
}

impl DomainError {
    pub fn failure_class(&self) -> (r: FailureClass)
        ensures
            r == domain_failure_class(*self),
    {
        match self {
            DomainError::Validation(_) => FailureClass::ValidationFailure,
            DomainError::Policy(_) => FailureClass::PolicyFailure,
            DomainError::Conflict(_) => FailureClass::ConflictFailure,
            DomainError::ReviewRequired(_) => FailureClass::QuarantineFailure,
            DomainError::Quarantine(_) => FailureClass::QuarantineFailure,
            DomainError::NotFound(_) => FailureClass::ValidationFailure,
        }
    }

    /// The text of the error.
    pub fn to_string(&self) -> (r: String)
        ensures
            r@ == domain_error_text(*self),
    {
        match self {
            DomainError::Validation(m) => concat2("validation: ", m.as_str()),
            DomainError::Policy(p) => concat2("policy: ", p.message.as_str()),
            DomainError::Conflict(m) => concat2("conflict: ", m.as_str()),
            DomainError::ReviewRequired(t) => concat2("review required: ", t.reason.as_str()),
            DomainError::Quarantine(m) => concat2("quarantine: ", m.as_str()),
            DomainError::NotFound(m) => concat2("not found: ", m.as_str()),
        }
    }
}

} // verus!
