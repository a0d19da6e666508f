//! Types of identity resolution.

use vstd::prelude::*;

use crate::domain::values::EntityRef;
use crate::governance::types::ConfidenceLevel;
use crate::text::str_eq;

verus! {

/// An identifier of a person in one source.
#[derive(Debug, Clone, PartialEq, Eq, Hash)]
pub struct SourceIdentifier {
    pub source: String,
    pub identifier_type: IdentifierType,
    pub value: String,
}

/// The model of an identifier.
pub open spec fn ident_model(i: SourceIdentifier) -> (Seq<char>, IdentifierType, Seq<char>) {
    (i.source@, i.identifier_type, i.value@)
}

impl SourceIdentifier {
    /// Whether two identifiers hold the same source, type and value.
    pub fn same_as(&self, other: &SourceIdentifier) -> (r: bool)
        ensures
            r == (ident_model(*self) == ident_model(*other)),
    {
        str_eq(self.source.as_str(), other.source.as_str()) && self.identifier_type
            == other.identifier_type && str_eq(self.value.as_str(), other.value.as_str())
    }

    /// A second identifier with the same contents.
    pub fn duplicate(&self) -> (r: SourceIdentifier)
        ensures
            ident_model(r) == ident_model(*self),
    {
        SourceIdentifier {
            source: self.source.clone(),
            identifier_type: self.identifier_type,
            value: self.value.clone(),
        }
    }
}

#[derive(Debug, Clone, Copy, PartialEq, Eq, Hash, Structural)]
pub enum IdentifierType {
    Email,
    UserId,
    DisplayName,
}

/// A person as one source sees it.
#[derive(Debug, Clone)]
pub struct PersonCandidate {
    pub source: String,
    pub identifiers: Vec<SourceIdentifier>,
    pub display_name: Option<String>,
}

#[derive(Debug, Clone, Copy, PartialEq, Eq, Hash, Structural)]
pub enum MatchType {
    EmailExact,
    NameFuzzy,
    DomainMatch,
}

/// A proposed link between two person candidates (`pc:{index}`).
#[derive(Debug, Clone)]
pub struct ResolutionCandidate {
    pub candidate_id: String,
    pub person_a_id: String,
    pub person_b_id: String,
    pub match_type: MatchType,
    pub confidence: ConfidenceLevel,
    pub status: CandidateStatus,
}

impl ResolutionCandidate {
    /// A second candidate with the same contents.
    pub fn duplicate(&self) -> (r: ResolutionCandidate)
        ensures
            r.candidate_id@ == self.candidate_id@,
            r.person_a_id@ == self.person_a_id@,
            r.person_b_id@ == self.person_b_id@,
            r.match_type == self.match_type,
            r.confidence == self.confidence,
            r.status == self.status,
    {
        ResolutionCandidate {
            candidate_id: self.candidate_id.clone(),
            person_a_id: self.person_a_id.clone(),
            person_b_id: self.person_b_id.clone(),
            match_type: self.match_type,
            confidence: self.confidence,
            status: self.status,
        }
    }
}

#[derive(Debug, Clone, Copy, PartialEq, Eq, Hash, Structural)]
pub enum CandidateStatus {
    Pending,
    Accepted,
    Rejected,
}

/// A resolved person. `resolved_at` is in microseconds since the Unix
/// epoch.
#[derive(Debug, Clone)]
pub struct ResolvedPerson {
    pub person_id: EntityRef,
    pub canonical_name: String,
    pub aliases: Vec<String>,
    pub identifiers: Vec<SourceIdentifier>,
    pub confidence: ConfidenceLevel,
    pub sources: Vec<String>,
    pub resolved_at: i64,
    pub resolved_by: String,
}

#[derive(Debug, Clone)]
pub struct IdentityResolutionOutput {
    pub resolved_persons: Vec<ResolvedPerson>,
    pub candidates: Vec<ResolutionCandidate>,
    pub person_identifiers: Vec<PersonIdentifierRow>,
}

impl Default for IdentityResolutionOutput {
    fn default() -> (r: Self)
        ensures
            r.resolved_persons@.len() == 0,
            r.candidates@.len() == 0,
            r.person_identifiers@.len() == 0,
    {
        IdentityResolutionOutput {
            resolved_persons: Vec::new(),
            candidates: Vec::new(),
            person_identifiers: Vec::new(),
        }
    }
}

/// One identifier of a resolved person, as a row.
#[derive(Debug, Clone)]
pub struct PersonIdentifierRow {
    pub identifier_id: String,
    pub person_id: EntityRef,
    pub source: String,
    pub identifier_type: IdentifierType,
    pub identifier_value: String,
}

} // verus!
