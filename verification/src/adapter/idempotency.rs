//! Deterministic idempotency keys: the same source data gives the same
//! key, and each adapter's keys carry its own prefix.

use vstd::prelude::*;
use vstd::string::*;

use crate::domain::values::IdempotencyKey;
use crate::text::{concat2, concat3};

verus! {

fn join4(a: &str, b: &str, c: &str, d: &str) -> (r: String)
    ensures
        r@ == a@ + b@ + c@ + d@,
{
    let x = concat3(a, b, c);
    concat2(x.as_str(), d)
}

/// `slack:{channel}:{ts}`.
pub fn slack_message_key(channel_id: &str, ts: &str) -> (r: IdempotencyKey)
    ensures
        r@ == "slack:"@ + channel_id@ + ":"@ + ts@,
{
    IdempotencyKey(join4("slack:", channel_id, ":", ts))
}

/// `slack:{channel}:{ts}:edit:{edit_ts}`.
pub fn slack_edit_key(channel_id: &str, ts: &str, edit_ts: &str) -> (r: IdempotencyKey)
    ensures
        r@ == "slack:"@ + channel_id@ + ":"@ + ts@ + ":edit:"@ + edit_ts@,
{
    let a = join4("slack:", channel_id, ":", ts);
    IdempotencyKey(concat3(a.as_str(), ":edit:", edit_ts))
}

/// `slack:{channel}:{ts}:delete`.
pub fn slack_delete_key(channel_id: &str, ts: &str) -> (r: IdempotencyKey)
    ensures
        r@ == "slack:"@ + channel_id@ + ":"@ + ts@ + ":delete"@,
{
    let a = join4("slack:", channel_id, ":", ts);
    IdempotencyKey(concat2(a.as_str(), ":delete"))
}

/// `slack:{channel}:{ts}:react:{user}:{emoji}`.
pub fn slack_reaction_key(channel_id: &str, ts: &str, user: &str, emoji: &str) -> (r: IdempotencyKey)
    ensures
        r@ == "slack:"@ + channel_id@ + ":"@ + ts@ + ":react:"@ + user@ + ":"@ + emoji@,
{
    let a = join4("slack:", channel_id, ":", ts);
    let b = join4(a.as_str(), ":react:", user, ":");
    IdempotencyKey(concat2(b.as_str(), emoji))
}

/// `slack:{channel}:{ts}:file:{file_id}`.
pub fn slack_file_key(channel_id: &str, ts: &str, file_id: &str) -> (r: IdempotencyKey)
    ensures
        r@ == "slack:"@ + channel_id@ + ":"@ + ts@ + ":file:"@ + file_id@,
{
    let a = join4("slack:", channel_id, ":", ts);
    IdempotencyKey(concat3(a.as_str(), ":file:", file_id))
}

/// `gslides:{presentation}:rev:{revision}`.
pub fn gslides_revision_key(presentation_id: &str, revision_id: &str) -> (r: IdempotencyKey)
    ensures
        r@ == "gslides:"@ + presentation_id@ + ":rev:"@ + revision_id@,
{
    IdempotencyKey(join4("gslides:", presentation_id, ":rev:", revision_id))
}

/// `heartbeat:{observer}:{window_start}`: one key per observer and
/// interval.
pub fn heartbeat_key(observer_name: &str, window_start: &str) -> (r: IdempotencyKey)
    ensures
        r@ == "heartbeat:"@ + observer_name@ + ":"@ + window_start@,
{
    IdempotencyKey(join4("heartbeat:", observer_name, ":", window_start))
}

/// Keys of different adapters never collide: a Slack key and a Google
/// Slides key differ in their first character.
pub proof fn lemma_sources_never_collide(
    channel_id: Seq<char>,
    ts: Seq<char>,
    presentation_id: Seq<char>,
    revision_id: Seq<char>,
)
    ensures
        "slack:"@ + channel_id + ":"@ + ts != "gslides:"@ + presentation_id + ":rev:"@ + revision_id,
{
    reveal_strlit("slack:");
    reveal_strlit("gslides:");
    let a = "slack:"@ + channel_id + ":"@ + ts;
    let b = "gslides:"@ + presentation_id + ":rev:"@ + revision_id;
    assert(a[0] == 's');
    assert(b[0] == 'g');
}

} // verus!
