//! The ingestion gate: validates a request against the registry, checks
//! attachments and time, and appends the observation (deduplicated by
//! idempotency key).

use vstd::prelude::*;
use vstd::string::*;

use crate::domain::error::{IngestResult, QuarantineTicket};
use crate::domain::json::{Json, JsonValue};
use crate::domain::observation::Observation;
use crate::domain::types::{
    authority_name, capture_name, AuthorityModel, CaptureModel, FailureClass,
};
use crate::domain::values::{
    BlobRef, EntityRef, IdempotencyKey, ObserverRef, SchemaRef, SemVer, SourceSystemRef,
    MAX_CLOCK_SKEW_MICROS,
};
use crate::lake::blob::{blob_prefix, BlobStore};
use crate::lake::store::{has_key, LakeStore};
use crate::registry::observer::Observer;
use crate::registry::schema::ObservationSchema;
use crate::registry::store::RegistryStore;
use crate::text::{concat2, concat3, i64_to_decimal, spec_signed_decimal, str_eq, strip_prefix_spec};
use crate::trusted::{format_utc, now_micros, utc_text, uuid_v7_text};

verus! {

/// A client's request to ingest an observation. `published` is in
/// microseconds since the Unix epoch.
#[derive(Debug)]
pub struct IngestRequest {
    pub schema: SchemaRef,
    pub schema_version: SemVer,
    pub observer: ObserverRef,
    pub source_system: Option<SourceSystemRef>,
    pub authority_model: AuthorityModel,
    pub capture_model: CaptureModel,
    pub subject: EntityRef,
    pub target: Option<EntityRef>,
    pub payload: JsonValue,
    pub attachments: Vec<BlobRef>,
    pub published: i64,
    pub idempotency_key: Option<IdempotencyKey>,
    pub meta: JsonValue,
}

/// The schema id that heartbeats carry.
pub open spec fn heartbeat_schema() -> Seq<char> {
    "schema:observer-heartbeat"@
}

/// An observer may emit a schema when it lists none, lists `*`, or lists
/// that schema.
pub open spec fn observer_allows(obs: Observer, schema: Seq<char>) -> bool {
    obs.schemas@.len() == 0 || exists|i: int|
        0 <= i < obs.schemas@.len() && (#[trigger] obs.schemas@[i]@ == "*"@ || obs.schemas@[i]@
            == schema)
}

/// A schema admits an observer when it has no source contracts or one of
/// them names the observer.
pub open spec fn schema_allows(schema: ObservationSchema, observer: Seq<char>) -> bool {
    schema.source_contracts@.len() == 0 || exists|i: int|
        0 <= i < schema.source_contracts@.len()
            && #[trigger] schema.source_contracts@[i].observer_id@ == observer
}

/// Heartbeats are lake-authoritative; everything else follows its observer.
pub open spec fn expected_authority(obs: Observer, schema: Seq<char>) -> AuthorityModel {
    if schema == heartbeat_schema() {
        AuthorityModel::LakeAuthoritative
    } else {
        obs.authority_model
    }
}

/// Heartbeats are events; everything else follows its observer.
pub open spec fn expected_capture(obs: Observer, schema: Seq<char>) -> CaptureModel {
    if schema == heartbeat_schema() {
        CaptureModel::Event
    } else {
        obs.capture_model
    }
}

/// Whether the blob store holds the content a reference names.
pub open spec fn blob_present(blobs: BlobStore, r: BlobRef) -> bool {
    strip_prefix_spec(r@, blob_prefix()) matches Some(key) && blobs.stored(key) is Some
}

/// Index of the first attachment the blob store does not hold, or `-1`.
pub open spec fn first_missing(blobs: BlobStore, refs: Seq<BlobRef>) -> int
    decreases refs.len(),
{
    if refs.len() == 0 {
        -1
    } else if !blob_present(blobs, refs[0]) {
        0
    } else {
        let r = first_missing(blobs, refs.drop_first());
        if r < 0 { -1 } else { r + 1 }
    }
}

/// How an instant is written in a quarantine reason: as `chrono` displays
/// it, or as its number of microseconds when `chrono` cannot represent it.
pub open spec fn instant_text(micros: i64) -> Seq<char> {
    match utc_text(micros) {
        Some(t) => t,
        None => spec_signed_decimal(micros as int),
    }
}

/// What ingestion makes of a request, before the lake is consulted.
pub enum Admission {
    Reject(Seq<char>),
    Quarantine(Seq<char>),
    Append,
}

/// The admission of a request: observer, schema, source system, observer's
/// schemas, authority and capture models, schema's source contracts,
/// payload shape, attachments and time are checked in this order; the
/// first failing check decides.
pub open spec fn admission(
    reg: RegistryStore,
    blobs: BlobStore,
    req: IngestRequest,
    recorded_at: i64,
) -> Admission {
    match reg.observer_of(req.observer@) {
        None => Admission::Reject("Observer "@ + req.observer@ + " not registered"@),
        Some(obs) => match reg.schema_of(req.schema@) {
            None => Admission::Reject("Schema "@ + req.schema@ + " not registered"@),
            Some(schema) => match req.source_system {
                None => Admission::Reject(
                    "Observer "@ + obs.id@ + " requires source system "@ + obs.source_system@,
                ),
                Some(ss) => {
                    let authority = expected_authority(obs, req.schema@);
                    let capture = expected_capture(obs, req.schema@);
                    let missing = first_missing(blobs, req.attachments@);
                    if ss@ != obs.source_system@ {
                        Admission::Reject(
                            "Observer "@ + obs.id@ + " is bound to source system "@
                                + obs.source_system@ + ", not "@ + ss@,
                        )
                    } else if !observer_allows(obs, req.schema@) {
                        Admission::Reject(
                            "Observer "@ + obs.id@ + " cannot emit schema "@ + req.schema@,
                        )
                    } else if req.authority_model != authority {
                        Admission::Reject(
                            "Observer "@ + obs.id@ + " must use authority model "@
                                + authority_name(authority) + ", not "@ + authority_name(
                                req.authority_model,
                            ),
                        )
                    } else if req.capture_model != capture {
                        Admission::Reject(
                            "Observer "@ + obs.id@ + " must use capture model "@ + capture_name(
                                capture,
                            ) + ", not "@ + capture_name(req.capture_model),
                        )
                    } else if !schema_allows(schema, obs.id@) {
                        Admission::Reject(
                            "Schema "@ + req.schema@ + " does not allow observer "@ + obs.id@,
                        )
                    } else if !(req.payload@ is Object) {
                        Admission::Reject("Payload must be a JSON object"@)
                    } else if missing >= 0 {
                        Admission::Reject(
                            "Blob "@ + req.attachments@[missing]@ + " not found in blob store"@,
                        )
                    } else if req.published > recorded_at + MAX_CLOCK_SKEW_MICROS {
                        Admission::Quarantine(
                            "published ("@ + instant_text(req.published)
                                + ") is too far in the future vs recordedAt ("@ + instant_text(
                                recorded_at,
                            ) + ")"@,
                        )
                    } else {
                        Admission::Append
                    }
                },
            },
        },
    }
}

/// Whether an appended observation carries exactly what the request held,
/// with the given ingestion time, no actor and no consent reference.
pub open spec fn built_from(o: Observation, req: IngestRequest, recorded_at: i64) -> bool {
    &&& o.schema == req.schema
    &&& o.schema_version == req.schema_version
    &&& o.observer == req.observer
    &&& o.source_system == req.source_system
    &&& o.actor is None
    &&& o.authority_model == req.authority_model
    &&& o.capture_model == req.capture_model
    &&& o.subject == req.subject
    &&& o.target == req.target
    &&& o.payload == req.payload
    &&& o.attachments == req.attachments
    &&& o.published == req.published
    &&& o.recorded_at == recorded_at
    &&& o.consent is None
    &&& o.idempotency_key == req.idempotency_key
    &&& o.meta == req.meta
}

/// The ingestion gate over a registry, a lake and a blob store.
pub struct IngestionGate<'a> {
    pub registry: &'a RegistryStore,
    pub lake: &'a mut LakeStore,
    pub blobs: &'a BlobStore,
}

fn authority_mismatch(obs: &Observer, expected: AuthorityModel, got: AuthorityModel) -> (r: String)
    ensures
        r@ == "Observer "@ + obs.id@ + " must use authority model "@ + authority_name(expected)
            + ", not "@ + authority_name(got),
{
    let a = concat3("Observer ", obs.id.as_str(), " must use authority model ");
    let b = concat3(a.as_str(), expected.name(), ", not ");
    concat2(b.as_str(), got.name())
}

fn capture_mismatch(obs: &Observer, expected: CaptureModel, got: CaptureModel) -> (r: String)
    ensures
        r@ == "Observer "@ + obs.id@ + " must use capture model "@ + capture_name(expected)
            + ", not "@ + capture_name(got),
{
    let a = concat3("Observer ", obs.id.as_str(), " must use capture model ");
    let b = concat3(a.as_str(), expected.name(), ", not ");
    concat2(b.as_str(), got.name())
}

fn instant(micros: i64) -> (r: String)
    ensures
        r@ == instant_text(micros),
{
    match format_utc(micros) {
        Some(t) => t,
        None => i64_to_decimal(micros),
    }
}

fn allows_schema(obs: &Observer, schema: &SchemaRef) -> (r: bool)
    ensures
        r == observer_allows(*obs, schema@),
{
    if obs.schemas.len() == 0 {
        return true;
    }
    let mut i: usize = 0;
    while i < obs.schemas.len()
        invariant
            i <= obs.schemas@.len(),
            obs.schemas@.len() > 0,
            forall|j: int|
                0 <= j < i ==> !(#[trigger] obs.schemas@[j]@ == "*"@ || obs.schemas@[j]@ == schema@),
        decreases obs.schemas@.len() - i,
    {
        let s = obs.schemas[i].as_str();
        if str_eq(s, "*") || str_eq(s, schema.as_str()) {
            return true;
        }
        i = i + 1;
    }
    false
}

fn admits_observer(schema: &ObservationSchema, observer: &ObserverRef) -> (r: bool)
    ensures
        r == schema_allows(*schema, observer@),
{
    if schema.source_contracts.len() == 0 {
        return true;
    }
    let mut i: usize = 0;
    while i < schema.source_contracts.len()
        invariant
            i <= schema.source_contracts@.len(),
            schema.source_contracts@.len() > 0,
            forall|j: int|
                0 <= j < i ==> #[trigger] schema.source_contracts@[j].observer_id@ != observer@,
        decreases schema.source_contracts@.len() - i,
    {
        if str_eq(schema.source_contracts[i].observer_id.as_str(), observer.as_str()) {
            return true;
        }
        i = i + 1;
    }
    false
}

proof fn lemma_first_missing_at(blobs: BlobStore, refs: Seq<BlobRef>, i: int)
    requires
        0 <= i <= refs.len(),
        forall|j: int| 0 <= j < i ==> blob_present(blobs, #[trigger] refs[j]),
    ensures
        i < refs.len() && !blob_present(blobs, refs[i]) ==> first_missing(blobs, refs) == i,
        i == refs.len() ==> first_missing(blobs, refs) == -1,
    decreases i,
{
    if i > 0 {
        assert forall|j: int| 0 <= j < i - 1 implies blob_present(blobs, #[trigger] refs.drop_first()[j]) by {
            assert(refs.drop_first()[j] == refs[j + 1]);
        }
        assert(blob_present(blobs, refs[0]));
        lemma_first_missing_at(blobs, refs.drop_first(), i - 1);
    }
}

fn first_missing_blob(blobs: &BlobStore, refs: &Vec<BlobRef>) -> (r: Option<usize>)
    ensures
        match r {
            Some(i) => first_missing(*blobs, refs@) == i && i < refs@.len(),
            None => first_missing(*blobs, refs@) == -1,
        },
{
    let mut i: usize = 0;
    while i < refs.len()
        invariant
            i <= refs@.len(),
            forall|j: int| 0 <= j < i ==> blob_present(*blobs, #[trigger] refs@[j]),
        decreases refs@.len() - i,
    {
        if !blobs.contains(&refs[i]) {
            proof {
                lemma_first_missing_at(*blobs, refs@, i as int);
            }
            return Some(i);
        }
        i = i + 1;
    }
    proof {
        lemma_first_missing_at(*blobs, refs@, i as int);
    }
    None
}

fn rejected(message: String) -> (r: IngestResult)
    ensures
        r matches IngestResult::Rejected { class, message: m } && class
            == FailureClass::ValidationFailure && m@ == message@,
{
    IngestResult::Rejected { class: FailureClass::ValidationFailure, message }
}

impl IngestionGate<'_> {
    /// Runs the ingestion pipeline with the current time as ingestion time.
    /// Whatever the clock gives, the outcome is the one `ingest_at`
    /// describes for that time.
    pub fn ingest(&mut self, req: IngestRequest) -> (r: IngestResult)
        requires
            old(self).registry.wf(),
            old(self).blobs.wf(),
        ensures
            final(self).registry == old(self).registry,
            final(self).blobs == old(self).blobs,
            exists|t: i64| Self::outcome(*old(self).registry, *old(self).blobs, *old(self).lake, *final(self).lake, req, t, r),
    {
        let recorded_at = now_micros();
        let r = self.ingest_at(req, recorded_at);
        r
    }

    /// What one ingestion at time `recorded_at` does: a rejected or
    /// quarantined request leaves the lake as it was; an admitted one is
    /// appended unless its idempotency key is already stored, in which case
    /// the first observation stored under it is named.
    pub open spec fn outcome(
        reg: RegistryStore,
        blobs: BlobStore,
        before: LakeStore,
        after: LakeStore,
        req: IngestRequest,
        recorded_at: i64,
        r: IngestResult,
    ) -> bool {
        match admission(reg, blobs, req, recorded_at) {
            Admission::Reject(msg) => {
                &&& after.obs_seq() == before.obs_seq()
                &&& r matches IngestResult::Rejected { class, message }
                &&& class == FailureClass::ValidationFailure
                &&& message@ == msg
            },
            Admission::Quarantine(reason) => {
                &&& after.obs_seq() == before.obs_seq()
                &&& r matches IngestResult::Quarantined { ticket }
                &&& ticket.reason@ == reason
            },
            Admission::Append => {
                if (req.idempotency_key matches Some(k) && before.holds_key(k@)) {
                    &&& after.obs_seq() == before.obs_seq()
                    &&& r matches IngestResult::Duplicate { existing_id }
                    &&& exists|i: int|
                        0 <= i < before.obs_seq().len() && has_key(
                            before.obs_seq()[i],
                            req.idempotency_key->0@,
                        ) && before.obs_seq()[i].id@ == existing_id@ && forall|j: int|
                            0 <= j < i ==> !has_key(
                                #[trigger] before.obs_seq()[j],
                                req.idempotency_key->0@,
                            )
                } else {
                    &&& after.obs_seq().len() == before.obs_seq().len() + 1
                    &&& after.obs_seq().drop_last() == before.obs_seq()
                    &&& built_from(after.obs_seq().last(), req, recorded_at)
                    &&& r matches IngestResult::Ingested { id, recorded_at: t }
                    &&& id@ == after.obs_seq().last().id@
                    &&& t == recorded_at
                }
            },
        }
    }

    /// Runs the ingestion pipeline with ingestion time `recorded_at`.
    pub fn ingest_at(&mut self, req: IngestRequest, recorded_at: i64) -> (r: IngestResult)
        requires
            old(self).registry.wf(),
            old(self).blobs.wf(),
        ensures
            final(self).registry == old(self).registry,
            final(self).blobs == old(self).blobs,
            Self::outcome(
                *old(self).registry,
                *old(self).blobs,
                *old(self).lake,
                *final(self).lake,
                req,
                recorded_at,
                r,
            ),
    {
        let ghost decision = admission(*self.registry, *self.blobs, req, recorded_at);
        let observer = match self.registry.get_observer(&req.observer) {
            Some(o) => o,
            None => {
                return rejected(concat3("Observer ", req.observer.as_str(), " not registered"));
            },
        };
        let schema = match self.registry.get_schema(&req.schema) {
            Some(s) => s,
            None => {
                return rejected(concat3("Schema ", req.schema.as_str(), " not registered"));
            },
        };
        let source_system = match &req.source_system {
            Some(ss) => ss,
            None => {
                return rejected(
                    concat3(
                        concat2("Observer ", observer.id.as_str()).as_str(),
                        " requires source system ",
                        observer.source_system.as_str(),
                    ),
                );
            },
        };
        if !str_eq(source_system.as_str(), observer.source_system.as_str()) {
            let a = concat3("Observer ", observer.id.as_str(), " is bound to source system ");
            let b = concat3(a.as_str(), observer.source_system.as_str(), ", not ");
            return rejected(concat2(b.as_str(), source_system.as_str()));
        }
        if !allows_schema(observer, &req.schema) {
            let a = concat3("Observer ", observer.id.as_str(), " cannot emit schema ");
            return rejected(concat2(a.as_str(), req.schema.as_str()));
        }
        let is_heartbeat = str_eq(req.schema.as_str(), "schema:observer-heartbeat");
        let expected_authority = if is_heartbeat {
            AuthorityModel::LakeAuthoritative
        } else {
            observer.authority_model
        };
        if req.authority_model != expected_authority {
            return rejected(authority_mismatch(observer, expected_authority, req.authority_model));
        }
        let expected_capture = if is_heartbeat {
            CaptureModel::Event
        } else {
            observer.capture_model
        };
        if req.capture_model != expected_capture {
            return rejected(capture_mismatch(observer, expected_capture, req.capture_model));
        }
        if !admits_observer(schema, &observer.id) {
            let a = concat3("Schema ", req.schema.as_str(), " does not allow observer ");
            return rejected(concat2(a.as_str(), observer.id.as_str()));
        }
        if !req.payload.is_object() {
            return rejected(String::from_str("Payload must be a JSON object"));
        }
        match first_missing_blob(self.blobs, &req.attachments) {
            Some(i) => {
                return rejected(
                    concat3("Blob ", req.attachments[i].as_str(), " not found in blob store"),
                );
            },
            None => {},
        }
        let published_wide: i128 = req.published as i128;
        let limit: i128 = recorded_at as i128 + MAX_CLOCK_SKEW_MICROS as i128;
        if published_wide > limit {
            let a = concat3("published (", instant(req.published).as_str(), ") is too far in the future vs recordedAt (");
            let reason = concat3(a.as_str(), instant(recorded_at).as_str(), ")");
            return IngestResult::Quarantined {
                ticket: QuarantineTicket { id: uuid_v7_text(), reason },
            };
        }
        assert(decision is Append);
        let obs = Observation {
            id: Observation::new_id(),
            schema: req.schema,
            schema_version: req.schema_version,
            observer: req.observer,
            source_system: req.source_system,
            actor: None,
            authority_model: req.authority_model,
            capture_model: req.capture_model,
            subject: req.subject,
            target: req.target,
            payload: req.payload,
            attachments: req.attachments,
            published: req.published,
            recorded_at,
            consent: None,
            idempotency_key: req.idempotency_key,
            meta: req.meta,
        };
        let ghost o = obs;
        assert(built_from(o, req, recorded_at));
        let ghost lake_before = *self.lake;
        let appended = self.lake.append(obs);
        assert(decision is Append);
        match appended {
            Ok(id) => {
                assert(self.lake.obs_seq() == lake_before.obs_seq().push(o));
                assert(self.lake.obs_seq().drop_last() =~= lake_before.obs_seq());
                IngestResult::Ingested { id, recorded_at }
            },
            Err(existing_id) => IngestResult::Duplicate { existing_id },
        }
    }
}

/// An observer that lists `*` among its schemas may emit any schema: every
/// schema passes its schema check, and a request of such an observer that
/// passes the other checks is appended whatever schema it names.
pub proof fn lemma_wildcard_observer_emits_any(
    reg: RegistryStore,
    blobs: BlobStore,
    req: IngestRequest,
    recorded_at: i64,
    obs: Observer,
    w: int,
)
    requires
        reg.observer_of(req.observer@) == Some(obs),
        0 <= w < obs.schemas@.len(),
        obs.schemas@[w]@ == "*"@,
    ensures
        forall|schema: Seq<char>| #[trigger] observer_allows(obs, schema),
        ({
            &&& reg.schema_of(req.schema@) matches Some(schema)
            &&& req.source_system matches Some(ss)
            &&& ss@ == obs.source_system@
            &&& req.authority_model == expected_authority(obs, req.schema@)
            &&& req.capture_model == expected_capture(obs, req.schema@)
            &&& schema_allows(schema, obs.id@)
            &&& req.payload@ is Object
            &&& first_missing(blobs, req.attachments@) < 0
            &&& req.published <= recorded_at + MAX_CLOCK_SKEW_MICROS
        }) ==> admission(reg, blobs, req, recorded_at) == Admission::Append,
{
    assert forall|schema: Seq<char>| #[trigger] observer_allows(obs, schema) by {
        assert(obs.schemas@[w]@ == "*"@);
    }
}

} // verus!
