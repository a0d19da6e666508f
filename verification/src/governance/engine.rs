//! The policy engine: a pure decision service.
//!
//! A request is checked for consent first, then for the capability its
//! operation needs, then for the conditions that call for a manual review.

use vstd::prelude::*;
use vstd::string::*;

use crate::domain::types::{AuthorityModel, WriteMode};
use crate::governance::types::{
    capability_name, role_capabilities, role_has, role_name, AccessScope, Capability,
    ConfidenceLevel, ConsentStatus, DenyReason, Environment, Operation, Outcome, PolicyOutcome,
    PolicyRequest, ReviewRoute,
};
use crate::text::{concat2, joined, join_strings};

verus! {

/// The capability an operation needs.
pub open spec fn required_capability(op: Operation) -> Capability {
    match op {
        Operation::Read { .. } => Capability::ReadSharedProjection,
        Operation::Write { mode, .. } => match mode {
            WriteMode::Canonical => Capability::ExecuteManagedCanonicalWrite,
            WriteMode::Annotation => Capability::SubmitProposal,
            WriteMode::Proposal => Capability::SubmitProposal,
        },
        Operation::Export { .. } => Capability::ExportData,
        Operation::Publish { .. } => Capability::ApproveProposal,
        Operation::RunBuild { .. } => Capability::RunProjectionDraft,
        Operation::ReadRestricted { .. } => Capability::ReadSharedProjection,
    }
}

/// The review triggers a request raises, in a fixed order.
pub open spec fn review_triggers(req: PolicyRequest) -> Seq<Seq<char>> {
    let high = if req.operation is Export && req.data_scope == AccessScope::HighlySensitive {
        seq!["high_sensitivity_export"@]
    } else {
        Seq::empty()
    };
    let dual = if req.operation matches Operation::Write {
        mode: WriteMode::Canonical,
        authority: AuthorityModel::DualReference,
    } {
        seq!["dual_reference_canonical_write"@]
    } else {
        Seq::empty()
    };
    let restricted = if req.environment == Environment::Export && req.data_scope
        == AccessScope::Restricted {
        seq!["restricted_data_export"@]
    } else {
        Seq::empty()
    };
    let publish = if req.operation is Publish {
        seq!["publication_review"@]
    } else {
        Seq::empty()
    };
    high + dual + restricted + publish
}

/// The outcome of evaluating a request: consent, then capability, then
/// review.
pub open spec fn evaluation(req: PolicyRequest) -> Outcome {
    let cap = required_capability(req.operation);
    let triggers = review_triggers(req);
    if req.consent_status == ConsentStatus::OptedOut {
        Outcome::Deny {
            code: "consent_opted_out"@,
            message: "Subject has opted out \u{2014} access denied"@,
        }
    } else if !role_has(req.role, cap) {
        Outcome::Deny {
            code: "insufficient_capability"@,
            message: "Role "@ + role_name(req.role) + " lacks capability "@ + capability_name(cap),
        }
    } else if triggers.len() > 0 {
        Outcome::RequireReview {
            reason: "Review required: "@ + joined(triggers, ", "@),
            triggers: triggers,
        }
    } else {
        Outcome::Allow
    }
}

pub struct PolicyEngine;

impl PolicyEngine {
    /// Evaluates a policy request through the full pipeline.
    pub fn evaluate(request: &PolicyRequest) -> (r: PolicyOutcome)
        ensures
            r@ == evaluation(*request),
    {
        if let Some(deny) = Self::check_consent(request) {
            return deny;
        }
        if let Some(deny) = Self::check_capability(request) {
            return deny;
        }
        if let Some(review) = Self::check_review_requirement(request) {
            return review;
        }
        PolicyOutcome::Allow
    }

    /// Opted-out data is denied.
    fn check_consent(request: &PolicyRequest) -> (r: Option<PolicyOutcome>)
        ensures
            match r {
                Some(o) => request.consent_status == ConsentStatus::OptedOut && o@ == evaluation(
                    *request,
                ),
                None => request.consent_status != ConsentStatus::OptedOut,
            },
    {
        match request.consent_status {
            ConsentStatus::OptedOut => Some(
                PolicyOutcome::Deny {
                    reason: DenyReason {
                        code: String::from_str("consent_opted_out"),
                        message: String::from_str("Subject has opted out \u{2014} access denied"),
                    },
                },
            ),
            _ => None,
        }
    }

    /// Whether the actor's role grants the capability the operation needs.
    fn check_capability(request: &PolicyRequest) -> (r: Option<PolicyOutcome>)
        requires
            request.consent_status != ConsentStatus::OptedOut,
        ensures
            r is None <==> role_has(request.role, required_capability(request.operation)),
            r matches Some(o) ==> o@ == evaluation(*request),
    {
        let required = Self::required_capability(&request.operation);
        let actor_caps = request.role.capabilities();
        let mut i: usize = 0;
        while i < actor_caps.len()
            invariant
                i <= actor_caps@.len(),
                actor_caps@ == role_capabilities(request.role),
                required == required_capability(request.operation),
                forall|j: int| 0 <= j < i ==> actor_caps@[j] != required,
            decreases actor_caps@.len() - i,
        {
            if actor_caps[i] == required {
                assert(role_capabilities(request.role)[i as int] == required);
                return None;
            }
            i = i + 1;
        }
        let message = concat2(
            concat2(concat2("Role ", request.role.name()).as_str(), " lacks capability ").as_str(),
            required.name(),
        );
        Some(
            PolicyOutcome::Deny {
                reason: DenyReason { code: String::from_str("insufficient_capability"), message },
            },
        )
    }

    /// The conditions that call for a manual review.
    fn check_review_requirement(request: &PolicyRequest) -> (r: Option<PolicyOutcome>)
        requires
            request.consent_status != ConsentStatus::OptedOut,
            role_has(request.role, required_capability(request.operation)),
        ensures
            match r {
                Some(o) => review_triggers(*request).len() > 0 && o@ == evaluation(*request),
                None => review_triggers(*request).len() == 0,
            },
    {
        let mut triggers: Vec<String> = Vec::new();
        let is_export = match &request.operation {
            Operation::Export { .. } => true,
            _ => false,
        };
        if is_export && request.data_scope == AccessScope::HighlySensitive {
            triggers.push(String::from_str("high_sensitivity_export"));
        }
        let dual = match &request.operation {
            Operation::Write { mode: WriteMode::Canonical, authority: AuthorityModel::DualReference } => true,
            _ => false,
        };
        if dual {
            triggers.push(String::from_str("dual_reference_canonical_write"));
        }
        if request.environment == Environment::Export && request.data_scope
            == AccessScope::Restricted {
            triggers.push(String::from_str("restricted_data_export"));
        }
        let is_publish = match &request.operation {
            Operation::Publish { .. } => true,
            _ => false,
        };
        if is_publish {
            triggers.push(String::from_str("publication_review"));
        }
        let ghost views = triggers@.map_values(|t: String| t@);
        assert(views =~= review_triggers(*request));
        if triggers.len() == 0 {
            None
        } else {
            let joined_text = join_strings(&triggers, ", ");
            let reason = concat2("Review required: ", joined_text.as_str());
            Some(PolicyOutcome::RequireReview { route: ReviewRoute { reason, triggers } })
        }
    }

    /// The capability an operation needs.
    fn required_capability(operation: &Operation) -> (r: Capability)
        ensures
            r == required_capability(*operation),
    {
        match operation {
            Operation::Read { .. } => Capability::ReadSharedProjection,
            Operation::Write { mode, .. } => match mode {
                WriteMode::Canonical => Capability::ExecuteManagedCanonicalWrite,
                WriteMode::Annotation => Capability::SubmitProposal,
                WriteMode::Proposal => Capability::SubmitProposal,
            },
            Operation::Export { .. } => Capability::ExportData,
            Operation::Publish { .. } => Capability::ApproveProposal,
            Operation::RunBuild { .. } => Capability::RunProjectionDraft,
            Operation::ReadRestricted { .. } => Capability::ReadSharedProjection,
        }
    }

    /// Whether a candidate at this confidence may be promoted to a
    /// resolved person without review.
    pub fn may_auto_promote(confidence: ConfidenceLevel) -> (r: bool)
        ensures
            r == (confidence == ConfidenceLevel::High),
    {
        match confidence {
            ConfidenceLevel::High => true,
            _ => false,
        }
    }

    /// Whether the candidate needs a manual review before promotion.
    pub fn requires_review_for_promotion(confidence: ConfidenceLevel) -> (r: bool)
        ensures
            r == (confidence == ConfidenceLevel::Medium),
    {
        match confidence {
            ConfidenceLevel::Medium => true,
            _ => false,
        }
    }

    /// Whether the candidate may be used in published or shared
    /// projections.
    pub fn allowed_in_published(confidence: ConfidenceLevel) -> (r: bool)
        ensures
            r == (confidence == ConfidenceLevel::High),
    {
        match confidence {
            ConfidenceLevel::High => true,
            _ => false,
        }
    }
}

/// Consent is checked before capability: a request on opted-out data is
/// denied with `consent_opted_out`, whatever the role and the operation.
pub proof fn lemma_consent_before_capability(req: PolicyRequest)
    requires
        req.consent_status == ConsentStatus::OptedOut,
    ensures
        evaluation(req) matches Outcome::Deny { code, .. } && code == "consent_opted_out"@,
{
}

/// Nothing is allowed or sent to review unless the role holds the
/// capability the operation needs and consent has not been revoked.
pub proof fn lemma_no_access_without_capability(req: PolicyRequest)
    ensures
        !(evaluation(req) is Deny) ==> role_has(req.role, required_capability(req.operation))
            && req.consent_status != ConsentStatus::OptedOut,
{
}

/// Publication never goes through without review: a publish request is
/// denied or sent to review, never allowed.
pub proof fn lemma_publish_is_reviewed(req: PolicyRequest)
    requires
        req.operation is Publish,
    ensures
        !(evaluation(req) is Allow),
{
    assert(review_triggers(req).len() > 0);
}

/// Exporting restricted data never goes through without review: a request
/// in the export environment on restricted data is denied, or sent to
/// review with `restricted_data_export` among its triggers; it is never
/// allowed outright.
pub proof fn lemma_restricted_export_is_reviewed(req: PolicyRequest)
    requires
        req.environment == Environment::Export,
        req.data_scope == AccessScope::Restricted,
    ensures
        !(evaluation(req) is Allow),
        evaluation(req) is Deny || (evaluation(req) matches Outcome::RequireReview { triggers, .. }
            && triggers.contains("restricted_data_export"@)),
{
    let t = review_triggers(req);
    let high = if req.operation is Export && req.data_scope == AccessScope::HighlySensitive {
        seq!["high_sensitivity_export"@]
    } else {
        Seq::<Seq<char>>::empty()
    };
    let dual = if req.operation matches Operation::Write {
        mode: WriteMode::Canonical,
        authority: AuthorityModel::DualReference,
    } {
        seq!["dual_reference_canonical_write"@]
    } else {
        Seq::<Seq<char>>::empty()
    };
    assert(t[(high.len() + dual.len()) as int] == "restricted_data_export"@);
    assert(t.len() > 0);
}

} // verus!
