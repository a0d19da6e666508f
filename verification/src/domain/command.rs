//! Normalised write intents and the effects derived from them.

use vstd::prelude::*;

use crate::domain::json::JsonValue;
use crate::domain::types::WriteMode;
use crate::domain::values::{ActorRef, CommandId, EntityRef, IdempotencyKey};

verus! {

/// A normalised write intent.
#[derive(Debug)]
pub struct Command {
    pub command_id: CommandId,
    pub issued_by: ActorRef,
    pub write_mode: WriteMode,
    pub subject: Option<EntityRef>,
    pub target: Option<EntityRef>,
    pub payload: JsonValue,
    pub base_revision: Option<String>,
    pub idempotency_key: IdempotencyKey,
}

/// The effect derived from a command; executing it is left to the
/// imperative shell.
#[derive(Debug)]
pub enum EffectPlan {
    AppendCanonical { drafts: Vec<JsonValue> },
    AppendSupplemental { drafts: Vec<JsonValue> },
    SubmitReview { review: JsonValue },
    InvokeSourceNative { requests: Vec<JsonValue> },
    Materialize { request: JsonValue },
    EmitAudit { events: Vec<JsonValue> },
}

} // verus!
