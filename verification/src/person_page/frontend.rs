//! Self-introductions from slide analyses: reading a student profile from a
//! slide-analysis record, linking it to a person, and keeping each
//! person's latest one.

use vstd::prelude::*;
use vstd::string::*;

use crate::domain::json::{Json, JsonValue};
use crate::domain::observation::Observation;
use crate::domain::supplemental::SupplementalRecord;
use crate::identity::projector::{editors_of, opt_view, owner_of};
use crate::person_page::projector::{owner_of_value, IdentifierMap};
use crate::person_page::types::{FrontendProfile, StudentProfile};
use crate::person_page::projector::PersonPageProjector;
use crate::table::{keys_distinct, table_get, table_insert, table_map};
use crate::text::{copy_opt_string, str_eq};

verus! {

/// The model of a student profile.
pub struct ProfileModel {
    pub email: Option<Seq<char>>,
    pub generated_email: Option<Seq<char>>,
    pub name: Seq<char>,
    pub bio_text: Option<Seq<char>>,
    pub source_slide_object_id: Option<Seq<char>>,
    pub source_document_id: Option<Seq<char>>,
    pub source_canonical_uri: Option<Seq<char>>,
    pub thumbnail_blob_ref: Option<Seq<char>>,
    pub thumbnail_url: Option<Seq<char>>,
    pub companion_to_slide_object_id: Option<Seq<char>>,
}

pub open spec fn profile_model(p: StudentProfile) -> ProfileModel {
    ProfileModel {
        email: opt_view(p.email),
        generated_email: opt_view(p.generated_email),
        name: p.name@,
        bio_text: opt_view(p.bio_text),
        source_slide_object_id: opt_view(p.source_slide_object_id),
        source_document_id: opt_view(p.source_document_id),
        source_canonical_uri: opt_view(p.source_canonical_uri),
        thumbnail_blob_ref: opt_view(p.thumbnail_blob_ref),
        thumbnail_url: opt_view(p.thumbnail_url),
        companion_to_slide_object_id: opt_view(p.companion_to_slide_object_id),
    }
}

/// The model of a linked profile.
pub struct FrontendModel {
    pub source_document_id: Seq<char>,
    pub source_canonical_uri: Option<Seq<char>>,
    pub thumbnail_ref: Option<Seq<char>>,
    pub thumbnail_url: Option<Seq<char>>,
    pub profile: ProfileModel,
}

pub open spec fn frontend_model(f: FrontendProfile) -> FrontendModel {
    FrontendModel {
        source_document_id: f.source_document_id@,
        source_canonical_uri: opt_view(f.source_canonical_uri),
        thumbnail_ref: opt_view(f.thumbnail_ref),
        thumbnail_url: opt_view(f.thumbnail_url),
        profile: profile_model(f.profile),
    }
}

/// An optional text member: absent or `null` is no text, a string is its
/// text, anything else makes the payload unreadable (outer `None`).
pub open spec fn text_field(j: Json, key: Seq<char>) -> Option<Option<Seq<char>>> {
    match j.get(key) {
        None => Some(None),
        Some(Json::Null) => Some(None),
        Some(Json::Str(s)) => Some(Some(s)),
        Some(_) => None,
    }
}

/// The student profile a slide-analysis payload holds: an object with a
/// string `name` whose optional text members (`email`, `generated_email`,
/// `bio_text`, `source_slide_object_id`, `source_document_id`,
/// `source_canonical_uri`, `thumbnail_blob_ref`, `thumbnail_url`,
/// `companion_to_slide_object_id`) are each absent, `null` or a string.
pub open spec fn parsed_profile(j: Json) -> Option<ProfileModel> {
    if j is Object && j.get_str("name"@) is Some && text_field(j, "email"@) is Some && text_field(
        j,
        "generated_email"@,
    ) is Some && text_field(j, "bio_text"@) is Some && text_field(j, "source_slide_object_id"@) is Some
        && text_field(j, "source_document_id"@) is Some && text_field(j, "source_canonical_uri"@) is Some
        && text_field(j, "thumbnail_blob_ref"@) is Some && text_field(j, "thumbnail_url"@) is Some
        && text_field(j, "companion_to_slide_object_id"@) is Some {
        Some(
            ProfileModel {
                email: text_field(j, "email"@)->0,
                generated_email: text_field(j, "generated_email"@)->0,
                name: j.get_str("name"@)->0,
                bio_text: text_field(j, "bio_text"@)->0,
                source_slide_object_id: text_field(j, "source_slide_object_id"@)->0,
                source_document_id: text_field(j, "source_document_id"@)->0,
                source_canonical_uri: text_field(j, "source_canonical_uri"@)->0,
                thumbnail_blob_ref: text_field(j, "thumbnail_blob_ref"@)->0,
                thumbnail_url: text_field(j, "thumbnail_url"@)->0,
                companion_to_slide_object_id: text_field(j, "companion_to_slide_object_id"@)->0,
            },
        )
    } else {
        None
    }
}

fn text_field_of(v: &JsonValue, key: &str) -> (r: Option<Option<String>>)
    ensures
        match r {
            Some(o) => text_field(v@, key@) == Some(opt_view(o)),
            None => text_field(v@, key@) is None,
        },
{
    match v.get(key) {
        None => Some(None),
        Some(f) => match f {
            JsonValue::Null => Some(None),
            JsonValue::String(s) => Some(Some(s.clone())),
            _ => None,
        },
    }
}

/// Reads the student profile of a slide-analysis payload.
pub fn parse_student_profile(payload: &JsonValue) -> (r: Option<StudentProfile>)
    ensures
        match r {
            Some(p) => parsed_profile(payload@) == Some(profile_model(p)),
            None => parsed_profile(payload@) is None,
        },
{
    if !payload.is_object() {
        return None;
    }
    let name = match payload.get_str("name") {
        Some(n) => n.clone(),
        None => return None,
    };
    let email = match text_field_of(payload, "email") {
        Some(x) => x,
        None => return None,
    };
    let generated_email = match text_field_of(payload, "generated_email") {
        Some(x) => x,
        None => return None,
    };
    let bio_text = match text_field_of(payload, "bio_text") {
        Some(x) => x,
        None => return None,
    };
    let source_slide_object_id = match text_field_of(payload, "source_slide_object_id") {
        Some(x) => x,
        None => return None,
    };
    let source_document_id = match text_field_of(payload, "source_document_id") {
        Some(x) => x,
        None => return None,
    };
    let source_canonical_uri = match text_field_of(payload, "source_canonical_uri") {
        Some(x) => x,
        None => return None,
    };
    let thumbnail_blob_ref = match text_field_of(payload, "thumbnail_blob_ref") {
        Some(x) => x,
        None => return None,
    };
    let thumbnail_url = match text_field_of(payload, "thumbnail_url") {
        Some(x) => x,
        None => return None,
    };
    let companion_to_slide_object_id = match text_field_of(payload, "companion_to_slide_object_id") {
        Some(x) => x,
        None => return None,
    };
    Some(
        StudentProfile {
            email,
            generated_email,
            name,
            bio_text,
            source_slide_object_id,
            source_document_id,
            source_canonical_uri,
            thumbnail_blob_ref,
            thumbnail_url,
            companion_to_slide_object_id,
        },
    )
}

/// The first string among `items`.
pub open spec fn first_text(items: Seq<Json>) -> Option<Seq<char>>
    decreases items.len(),
{
    if items.len() == 0 {
        None
    } else if items[0] is Str {
        Some(items[0]->Str_0)
    } else {
        first_text(items.drop_first())
    }
}

/// The person behind a slides observation: the one its string owner maps
/// to, else the one its first string editor maps to.
pub open spec fn slide_person(o: Observation, flat: Seq<(Seq<char>, Seq<char>)>) -> Option<Seq<char>> {
    let p = o.payload@;
    let by_owner = match owner_of(p) {
        Some(ow) => owner_of_value(flat, ow),
        None => None,
    };
    if by_owner is Some {
        by_owner
    } else {
        match first_text(editors_of(p)) {
            Some(e) => owner_of_value(flat, e),
            None => None,
        }
    }
}

/// The person a profile belongs to: the one its e-mail (or, without one,
/// its generated e-mail) maps to, else the person behind its slides.
pub open spec fn profile_person(
    prof: ProfileModel,
    src: Observation,
    flat: Seq<(Seq<char>, Seq<char>)>,
) -> Option<Seq<char>> {
    let mail = if prof.email is Some {
        prof.email
    } else {
        prof.generated_email
    };
    let by_mail = match mail {
        Some(v) => owner_of_value(flat, v),
        None => None,
    };
    if by_mail is Some {
        by_mail
    } else {
        slide_person(src, flat)
    }
}

/// The observation the lake lookup finds for an id: the last one with it.
pub open spec fn observation_with_id(obs: Seq<Observation>, id: Seq<char>) -> Option<Observation>
    decreases obs.len(),
{
    if obs.len() == 0 {
        None
    } else if obs.last().id@ == id {
        Some(obs.last())
    } else {
        observation_with_id(obs.drop_last(), id)
    }
}

/// A profile linked to its slides: the document id (else the
/// observation's subject), the canonical URI (else the observation's
/// `artifact.canonicalUri`), the thumbnail reference (else the record's
/// first blob) and the thumbnail URL.
pub open spec fn linked_profile(prof: ProfileModel, src: Observation, rec: SupplementalRecord) -> FrontendModel {
    FrontendModel {
        source_document_id: match prof.source_document_id {
            Some(d) => d,
            None => src.subject@,
        },
        source_canonical_uri: if prof.source_canonical_uri is Some {
            prof.source_canonical_uri
        } else {
            match src.payload@.get("artifact"@) {
                Some(a) => a.get_str("canonicalUri"@),
                None => None,
            }
        },
        thumbnail_ref: if prof.thumbnail_blob_ref is Some {
            prof.thumbnail_blob_ref
        } else if rec.derived_from.blobs@.len() > 0 {
            Some(rec.derived_from.blobs@[0]@)
        } else {
            None
        },
        thumbnail_url: prof.thumbnail_url,
        profile: prof,
    }
}

/// What a supplemental record contributes: for a slide analysis whose
/// payload is a student profile that is no companion, whose first source
/// observation is in `obs` and whose person is known, the person, the
/// record's creation time and the linked profile.
pub open spec fn record_entry(
    rec: SupplementalRecord,
    obs: Seq<Observation>,
    flat: Seq<(Seq<char>, Seq<char>)>,
) -> Option<(Seq<char>, i64, FrontendModel)> {
    if rec.kind@ != "slide-analysis"@ {
        None
    } else {
        match parsed_profile(rec.payload@) {
            None => None,
            Some(prof) => if prof.companion_to_slide_object_id is Some || rec.derived_from.observations@.len()
                == 0 {
                None
            } else {
                match observation_with_id(obs, rec.derived_from.observations@[0]@) {
                    None => None,
                    Some(src) => match profile_person(prof, src, flat) {
                        None => None,
                        Some(pid) => Some((pid, rec.created_at, linked_profile(prof, src, rec))),
                    },
                }
            },
        }
    }
}

/// The profile a person gets from the records: the entry of the latest
/// record for them (of equally late ones, the first).
pub open spec fn frontend_for(
    recs: Seq<&SupplementalRecord>,
    obs: Seq<Observation>,
    flat: Seq<(Seq<char>, Seq<char>)>,
    pid: Seq<char>,
) -> Option<(i64, FrontendModel)>
    decreases recs.len(),
{
    if recs.len() == 0 {
        None
    } else {
        let prev = frontend_for(recs.drop_last(), obs, flat, pid);
        match record_entry(*recs.last(), obs, flat) {
            Some(e) => if e.0 == pid && !(prev matches Some(pv) && pv.0 >= e.1) {
                Some((e.1, e.2))
            } else {
                prev
            },
            None => prev,
        }
    }
}

impl StudentProfile {
    /// A second profile with the same contents.
    pub fn duplicate(&self) -> (r: StudentProfile)
        ensures
            profile_model(r) == profile_model(*self),
    {
        StudentProfile {
            email: copy_opt_string(&self.email),
            generated_email: copy_opt_string(&self.generated_email),
            name: self.name.clone(),
            bio_text: copy_opt_string(&self.bio_text),
            source_slide_object_id: copy_opt_string(&self.source_slide_object_id),
            source_document_id: copy_opt_string(&self.source_document_id),
            source_canonical_uri: copy_opt_string(&self.source_canonical_uri),
            thumbnail_blob_ref: copy_opt_string(&self.thumbnail_blob_ref),
            thumbnail_url: copy_opt_string(&self.thumbnail_url),
            companion_to_slide_object_id: copy_opt_string(&self.companion_to_slide_object_id),
        }
    }
}

impl FrontendProfile {
    /// A second linked profile with the same contents.
    pub fn duplicate(&self) -> (r: FrontendProfile)
        ensures
            frontend_model(r) == frontend_model(*self),
    {
        FrontendProfile {
            source_document_id: self.source_document_id.clone(),
            source_canonical_uri: copy_opt_string(&self.source_canonical_uri),
            thumbnail_ref: copy_opt_string(&self.thumbnail_ref),
            thumbnail_url: copy_opt_string(&self.thumbnail_url),
            profile: self.profile.duplicate(),
        }
    }
}

/// The first string among the items of an array.
fn first_string(items: &Vec<JsonValue>, Ghost(m): Ghost<Seq<Json>>) -> (r: Option<String>)
    requires
        m.len() == items@.len(),
        forall|i: int| 0 <= i < items@.len() ==> #[trigger] m[i] == items@[i]@,
    ensures
        opt_view(r) == first_text(m),
{
    let mut i: usize = 0;
    assert(m.subrange(0, m.len() as int) =~= m);
    while i < items.len()
        invariant
            i <= items@.len(),
            m.len() == items@.len(),
            forall|k: int| 0 <= k < items@.len() ==> #[trigger] m[k] == items@[k]@,
            first_text(m) == first_text(m.subrange(i as int, m.len() as int)),
        decreases items@.len() - i,
    {
        let ghost rest = m.subrange(i as int, m.len() as int);
        assert(rest[0] == m[i as int]);
        assert(rest.drop_first() =~= m.subrange(i + 1, m.len() as int));
        match items[i].as_str() {
            Some(s) => {
                return Some(s.clone());
            },
            None => {},
        }
        i = i + 1;
    }
    None
}

/// The position of the observation the lake lookup finds for `id`.
fn find_observation(observations: &[Observation], id: &str) -> (r: Option<usize>)
    ensures
        match r {
            Some(i) => i < observations@.len() && observation_with_id(observations@, id@) == Some(
                observations@[i as int],
            ),
            None => observation_with_id(observations@, id@) is None,
        },
{
    let ghost all = observations@;
    let mut i: usize = observations.len();
    assert(all.take(all.len() as int) =~= all);
    while i > 0
        invariant
            i <= all.len(),
            all == observations@,
            observation_with_id(all, id@) == observation_with_id(all.take(i as int), id@),
        decreases i,
    {
        assert(all.take(i as int).last() == all[i - 1]);
        assert(all.take(i as int).drop_last() =~= all.take(i - 1));
        if str_eq(observations[i - 1].id.0.as_str(), id) {
            return Some(i - 1);
        }
        i = i - 1;
    }
    assert(all.take(0) =~= Seq::<Observation>::empty());
    None
}

impl PersonPageProjector {
    /// The person behind a slides observation: the one its string owner
    /// maps to, else the one its first string editor maps to.
    pub fn person_id_from_slide_observation(observation: &Observation, map: &IdentifierMap) -> (r: Option<
        String,
    >)
        ensures
            opt_view(r) == slide_person(*observation, map@),
    {
        let relations = observation.payload.get("relations");
        let by_owner = match relations {
            Some(rel) => match rel.get_str("owner") {
                Some(owner) => map.owner(owner.as_str()),
                None => None,
            },
            None => None,
        };
        if by_owner.is_some() {
            return by_owner;
        }
        let editor = match relations {
            Some(rel) => match rel.get("editors") {
                Some(ed) => match ed.as_array() {
                    Some(items) => first_string(items, Ghost(ed@->Array_0)),
                    None => None,
                },
                None => None,
            },
            None => None,
        };
        match editor {
            Some(e) => map.owner(e.as_str()),
            None => None,
        }
    }

    /// What one supplemental record contributes to the self-introductions.
    fn frontend_entry(record: &SupplementalRecord, observations: &[Observation], map: &IdentifierMap) -> (r:
        Option<(String, i64, FrontendProfile)>)
        ensures
            match r {
                Some(e) => record_entry(*record, observations@, map@) == Some(
                    (e.0@, e.1, frontend_model(e.2)),
                ),
                None => record_entry(*record, observations@, map@) is None,
            },
    {
        if !str_eq(record.kind.as_str(), "slide-analysis") {
            return None;
        }
        let profile = match parse_student_profile(&record.payload) {
            Some(p) => p,
            None => return None,
        };
        if profile.companion_to_slide_object_id.is_some() || record.derived_from.observations.len() == 0 {
            return None;
        }
        let src = match find_observation(observations, record.derived_from.observations[0].0.as_str()) {
            Some(i) => &observations[i],
            None => return None,
        };
        let mail = if profile.email.is_some() {
            &profile.email
        } else {
            &profile.generated_email
        };
        let by_mail = match mail {
            Some(v) => map.owner(v.as_str()),
            None => None,
        };
        let person_id = if by_mail.is_some() {
            by_mail
        } else {
            Self::person_id_from_slide_observation(src, map)
        };
        let person_id = match person_id {
            Some(p) => p,
            None => return None,
        };
        let source_document_id = match &profile.source_document_id {
            Some(d) => d.clone(),
            None => src.subject.0.clone(),
        };
        let source_canonical_uri = if profile.source_canonical_uri.is_some() {
            copy_opt_string(&profile.source_canonical_uri)
        } else {
            match src.payload.get("artifact") {
                Some(a) => match a.get_str("canonicalUri") {
                    Some(u) => Some(u.clone()),
                    None => None,
                },
                None => None,
            }
        };
        let thumbnail_ref = if profile.thumbnail_blob_ref.is_some() {
            copy_opt_string(&profile.thumbnail_blob_ref)
        } else if record.derived_from.blobs.len() > 0 {
            Some(record.derived_from.blobs[0].0.clone())
        } else {
            None
        };
        let thumbnail_url = copy_opt_string(&profile.thumbnail_url);
        Some(
            (
                person_id,
                record.created_at,
                FrontendProfile { source_document_id, source_canonical_uri, thumbnail_ref, thumbnail_url, profile },
            ),
        )
    }
}

/// What a table of linked profiles holds for a person, as a model.
pub open spec fn entry_model(m: Map<Seq<char>, (i64, FrontendProfile)>, pid: Seq<char>) -> Option<
    (i64, FrontendModel),
> {
    if m.contains_key(pid) {
        Some((m[pid].0, frontend_model(m[pid].1)))
    } else {
        None
    }
}

impl PersonPageProjector {
    /// Each person's self-introduction: of the slide-analysis records that
    /// link to them, the latest (of equally late ones, the first), with its
    /// creation time; keyed by person id.
    pub fn build_frontend_profile_map(
        observations: &[Observation],
        supplemental_records: &[&SupplementalRecord],
        map: &IdentifierMap,
    ) -> (r: Vec<(String, (i64, FrontendProfile))>)
        ensures
            keys_distinct(r@),
            forall|pid: Seq<char>|
                #[trigger] frontend_for(supplemental_records@, observations@, map@, pid) == entry_model(
                    table_map(r@),
                    pid,
                ),
    {
        let ghost recs = supplemental_records@;
        let mut out: Vec<(String, (i64, FrontendProfile))> = Vec::new();
        let mut i: usize = 0;
        assert forall|pid: Seq<char>| #[trigger] frontend_for(recs.take(0), observations@, map@, pid)
            == entry_model(table_map(out@), pid) by {
            assert(recs.take(0).len() == 0);
        }
        while i < supplemental_records.len()
            invariant
                i <= recs.len(),
                recs == supplemental_records@,
                keys_distinct(out@),
                forall|pid: Seq<char>|
                    #[trigger] frontend_for(recs.take(i as int), observations@, map@, pid) == entry_model(
                        table_map(out@),
                        pid,
                    ),
            decreases recs.len() - i,
        {
            let ghost before = table_map(out@);
            let ghost next = recs.take(i + 1);
            assert(next.drop_last() =~= recs.take(i as int));
            assert(next.last() == recs[i as int]);
            match Self::frontend_entry(supplemental_records[i], observations, map) {
                None => {
                    assert forall|pid: Seq<char>| #[trigger] frontend_for(next, observations@, map@, pid)
                        == entry_model(table_map(out@), pid) by {
                        assert(frontend_for(recs.take(i as int), observations@, map@, pid) == entry_model(
                            before,
                            pid,
                        ));
                    }
                },
                Some(e) => {
                    let (pid, t, fp) = e;
                    let ghost em = (pid@, t, frontend_model(fp));
                    let keep = match table_get(&out, pid.as_str()) {
                        Some(cur) => cur.0 >= t,
                        None => false,
                    };
                    if !keep {
                        table_insert(&mut out, pid, (t, fp));
                    }
                    assert forall|q: Seq<char>| #[trigger] frontend_for(next, observations@, map@, q)
                        == entry_model(table_map(out@), q) by {
                        assert(frontend_for(recs.take(i as int), observations@, map@, q) == entry_model(
                            before,
                            q,
                        ));
                        if !keep && q == em.0 {
                            assert(table_map(out@).contains_key(q));
                        }
                    }
                },
            }
            i = i + 1;
        }
        assert(recs.take(recs.len() as int) =~= recs);
        out
    }
}

} // verus!
