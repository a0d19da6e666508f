//! Heartbeat drafts: the periodic "alive" signal every adapter emits.

use vstd::prelude::*;
use vstd::string::*;

use crate::adapter::idempotency::heartbeat_key;
use crate::adapter::traits::ObservationDraft;
use crate::domain::json::{Json, JsonValue};
use crate::domain::types::{AuthorityModel, CaptureModel};
use crate::domain::values::{EntityRef, ObserverRef, SchemaRef, SemVer, SourceSystemRef};
use crate::text::{concat2, i64_to_decimal, spec_decimal, spec_signed_decimal, strip_prefix, strip_prefix_spec};
use crate::trusted::{format_minute, format_rfc3339, minute_text, rfc3339_text};

verus! {

/// The schema of heartbeat observations.
pub const HEARTBEAT_SCHEMA: &'static str = "schema:observer-heartbeat";

pub const HEARTBEAT_SCHEMA_VERSION: &'static str = "1.0.0";

/// An instant as JSON: its RFC 3339 text, or its number of microseconds
/// when `chrono` cannot represent it.
pub open spec fn instant_json(micros: i64) -> Json {
    match rfc3339_text(micros) {
        Some(t) => Json::Str(t),
        None => Json::Number(spec_signed_decimal(micros as int)),
    }
}

/// The minute window of an instant: `%Y-%m-%dT%H:%M`, or its number of
/// microseconds when `chrono` cannot represent it.
pub open spec fn minute_window(micros: i64) -> Seq<char> {
    match minute_text(micros) {
        Some(t) => t,
        None => spec_signed_decimal(micros as int),
    }
}

/// The observer name: its id without the `obs:` prefix.
pub open spec fn observer_name(id: Seq<char>) -> Seq<char> {
    match strip_prefix_spec(id, "obs:"@) {
        Some(n) => n,
        None => id,
    }
}

pub(crate) fn instant_value(micros: i64) -> (r: JsonValue)
    ensures
        r@ == instant_json(micros),
{
    match format_rfc3339(micros) {
        Some(t) => JsonValue::String(t),
        None => JsonValue::Number(i64_to_decimal(micros)),
    }
}

/// A heartbeat draft for an observer at `now`: subject
/// `observer:{name}`, payload `status`, `last_successful_capture_at` and
/// `pending_count`, and one idempotency key per minute.
pub fn heartbeat_draft(
    observer: &ObserverRef,
    source_system: &SourceSystemRef,
    now: i64,
    pending_count: u64,
    last_successful_capture: Option<i64>,
) -> (r: ObservationDraft)
    ensures
        r.schema@ == HEARTBEAT_SCHEMA@,
        r.schema_version@ == HEARTBEAT_SCHEMA_VERSION@,
        r.observer@ == observer@,
        r.source_system matches Some(s) && s@ == source_system@,
        r.authority_model == AuthorityModel::LakeAuthoritative,
        r.capture_model == CaptureModel::Event,
        r.subject@ == "observer:"@ + observer_name(observer@),
        r.target is None,
        r.payload@ == Json::Object(
            seq![
                ("status"@, Json::Str("alive"@)),
                (
                    "last_successful_capture_at"@,
                    match last_successful_capture {
                        Some(t) => instant_json(t),
                        None => Json::Null,
                    },
                ),
                ("pending_count"@, Json::Number(spec_decimal(pending_count as nat))),
            ],
        ),
        r.attachments@.len() == 0,
        r.published == now,
        r.idempotency_key@ == "heartbeat:"@ + observer_name(observer@) + ":"@ + minute_window(now),
        r.meta@ == Json::Object(Seq::empty()),
{
    let window = match format_minute(now) {
        Some(w) => w,
        None => i64_to_decimal(now),
    };
    let name: &str = match strip_prefix(observer.as_str(), "obs:") {
        Some(n) => n,
        None => observer.as_str(),
    };
    let last = match last_successful_capture {
        Some(t) => instant_value(t),
        None => JsonValue::Null,
    };
    let payload = JsonValue::Object(
        vec![
            (String::from_str("status"), JsonValue::from_str_value("alive")),
            (String::from_str("last_successful_capture_at"), last),
            (String::from_str("pending_count"), JsonValue::from_u64(pending_count)),
        ],
    );
    let meta = JsonValue::Object(Vec::new());
    proof {
        crate::domain::json::lemma_object_view(payload);
        crate::domain::json::lemma_object_view(meta);
    }
    let r = ObservationDraft {
        schema: SchemaRef::new(HEARTBEAT_SCHEMA),
        schema_version: SemVer::new(HEARTBEAT_SCHEMA_VERSION),
        observer: observer.duplicate(),
        source_system: Some(source_system.duplicate()),
        authority_model: AuthorityModel::LakeAuthoritative,
        capture_model: CaptureModel::Event,
        subject: EntityRef(concat2("observer:", name)),
        target: None,
        payload,
        attachments: Vec::new(),
        published: now,
        idempotency_key: heartbeat_key(name, window.as_str()),
        meta,
    };
    assert(r.payload@->Object_0 =~= seq![
        ("status"@, Json::Str("alive"@)),
        (
            "last_successful_capture_at"@,
            match last_successful_capture {
                Some(t) => instant_json(t),
                None => Json::Null,
            },
        ),
        ("pending_count"@, Json::Number(spec_decimal(pending_count as nat))),
    ]);
    assert(r.meta@->Object_0 =~= Seq::<(Seq<char>, Json)>::empty());
    r
}

} // verus!
