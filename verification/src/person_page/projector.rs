//! The person-page projector: for each resolved person, the slides and
//! messages that belong to them, an activity summary and a profile.

use vstd::prelude::*;
use vstd::string::*;

use crate::domain::json::{Json, JsonValue};
use crate::domain::observation::Observation;
use crate::domain::supplemental::SupplementalRecord;
use crate::domain::values::EntityRef;
use crate::identity::projector::{editors_of, opt_view, owner_of};
use crate::person_page::frontend::{entry_model, frontend_for, frontend_model, FrontendModel};
use crate::table::{keys_distinct, table_get, table_map};
use crate::identity::types::{IdentifierType, IdentityResolutionOutput, ResolvedPerson, SourceIdentifier};
use crate::person_page::types::{
    FrontendProfile, IdentityInfo, PersonActivity, PersonDetailResponse, PersonListItem, PersonMessage,
    PersonPageOutput, PersonProfile, PersonSlide, SelfIntroduction,
};
use crate::text::{concat2, concat3, copy_opt_string, lex_lt, spec_decimal, str_eq, str_lt, u128_to_decimal, views};

verus! {

// ---------------------------------------------------------------------------
// Which observations belong to a person
// ---------------------------------------------------------------------------

/// Every (identifier value, person id) pair, person by person, identifier
/// by identifier.
pub open spec fn flat_identifiers(persons: Seq<ResolvedPerson>, m: nat) -> Seq<(Seq<char>, Seq<char>)>
    decreases m,
{
    if m == 0 || m > persons.len() {
        Seq::empty()
    } else {
        let p = persons[m - 1];
        flat_identifiers(persons, (m - 1) as nat) + p.identifiers@.map_values(
            |i: SourceIdentifier| (i.value@, p.person_id@),
        )
    }
}

/// The person an identifier value maps to: the last pair with that value.
pub open spec fn owner_of_value(flat: Seq<(Seq<char>, Seq<char>)>, v: Seq<char>) -> Option<Seq<char>>
    decreases flat.len(),
{
    if flat.len() == 0 {
        None
    } else if flat.last().0 == v {
        Some(flat.last().1)
    } else {
        owner_of_value(flat.drop_last(), v)
    }
}

pub open spec fn maps_to(flat: Seq<(Seq<char>, Seq<char>)>, v: Option<Seq<char>>, pid: Seq<char>) -> bool {
    v matches Some(k) && owner_of_value(flat, k) == Some(pid)
}

/// An observation belongs to a person when its `user_id`, `email`,
/// `person_email`, one of its string editors or its owner maps to them.
pub open spec fn belongs(o: Observation, pid: Seq<char>, flat: Seq<(Seq<char>, Seq<char>)>) -> bool {
    let p = o.payload@;
    ||| maps_to(flat, p.get_str("user_id"@), pid)
    ||| maps_to(flat, p.get_str("email"@), pid)
    ||| maps_to(flat, p.get_str("person_email"@), pid)
    ||| exists|i: int|
        0 <= i < editors_of(p).len() && maps_to(flat, (#[trigger] editors_of(p)[i]).as_str(), pid)
    ||| maps_to(flat, owner_of(p), pid)
}

// ---------------------------------------------------------------------------
// Slides and messages
// ---------------------------------------------------------------------------

pub struct SlideModel {
    pub id: Seq<char>,
    pub person_id: Seq<char>,
    pub document_id: Seq<char>,
    pub title: Seq<char>,
    pub role: Seq<char>,
    pub last_seen_revision: Option<Seq<char>>,
    pub slide_count: Option<u32>,
    pub thumbnail_ref: Option<Seq<char>>,
    pub last_modified: Option<i64>,
}

pub open spec fn slide_model(s: PersonSlide) -> SlideModel {
    SlideModel {
        id: s.id@,
        person_id: s.person_id@,
        document_id: s.document_id@,
        title: s.title@,
        role: s.role@,
        last_seen_revision: opt_view(s.last_seen_revision),
        slide_count: s.slide_count,
        thumbnail_ref: opt_view(s.thumbnail_ref),
        last_modified: s.last_modified,
    }
}

pub struct MessageModel {
    pub id: Seq<char>,
    pub person_id: Seq<char>,
    pub channel: Seq<char>,
    pub text: Seq<char>,
    pub ts: i64,
    pub thread_ts: Option<Seq<char>>,
    pub has_attachments: bool,
}

pub open spec fn message_model(m: PersonMessage) -> MessageModel {
    MessageModel {
        id: m.id@,
        person_id: m.person_id@,
        channel: m.channel@,
        text: m.text@,
        ts: m.ts,
        thread_ts: opt_view(m.thread_ts),
        has_attachments: m.has_attachments,
    }
}

pub open spec fn or_default(v: Option<Seq<char>>, d: Seq<char>) -> Seq<char> {
    match v {
        Some(s) => s,
        None => d,
    }
}

/// The channel of a message payload: the first of `channel_name`,
/// `channel` and `channel_id` that is present, when it is a string.
pub open spec fn channel_of(p: Json) -> Seq<char> {
    let v = match p.get("channel_name"@) {
        Some(v) => Some(v),
        None => match p.get("channel"@) {
            Some(v) => Some(v),
            None => p.get("channel_id"@),
        },
    };
    match v {
        Some(Json::Str(s)) => s,
        _ => "unknown"@,
    }
}

/// `revision.sourceRevisionId` of a payload.
pub open spec fn revision_of(p: Json) -> Option<Seq<char>> {
    match p.get("revision"@) {
        Some(r) => r.get_str("sourceRevisionId"@),
        None => None,
    }
}

pub open spec fn slide_id(pid: Seq<char>, n: nat) -> Seq<char> {
    "ps:"@ + pid + ":"@ + spec_decimal(n)
}

/// The slide of an edited Slides snapshot.
pub open spec fn snapshot_slide(pid: Seq<char>, n: nat, o: Observation) -> SlideModel {
    SlideModel {
        id: slide_id(pid, n),
        person_id: pid,
        document_id: o.subject@,
        title: or_default(o.payload@.get_str("title"@), "Untitled"@),
        role: "editor"@,
        last_seen_revision: revision_of(o.payload@),
        slide_count: None,
        thumbnail_ref: None,
        last_modified: Some(o.published),
    }
}

/// The slide of a slide-analysis result: a self-introduction.
pub open spec fn analysis_slide(pid: Seq<char>, n: nat, o: Observation) -> SlideModel {
    SlideModel {
        id: slide_id(pid, n),
        person_id: pid,
        document_id: match o.target {
            Some(t) => t@,
            None => o.subject@,
        },
        title: or_default(o.payload@.get_str("person_name"@), "Analyzed Slide"@),
        role: "self-intro"@,
        last_seen_revision: None,
        slide_count: Some(1),
        thumbnail_ref: match o.payload@.get_str("thumbnail_url"@) {
            Some(u) => Some(u),
            None => o.payload@.get_str("thumbnail_blob_ref"@),
        },
        last_modified: Some(o.published),
    }
}

/// The message of a Slack observation.
pub open spec fn slack_message(pid: Seq<char>, n: nat, o: Observation) -> MessageModel {
    MessageModel {
        id: "pm:"@ + pid + ":"@ + spec_decimal(n),
        person_id: pid,
        channel: channel_of(o.payload@),
        text: or_default(o.payload@.get_str("text"@), ""@),
        ts: o.published,
        thread_ts: o.payload@.get_str("thread_ts"@),
        has_attachments: o.attachments@.len() > 0,
    }
}

/// The slides and messages of the first `m` observations that belong to
/// the person, numbered from 1 each, in order.
pub open spec fn related(
    pid: Seq<char>,
    obs: Seq<Observation>,
    flat: Seq<(Seq<char>, Seq<char>)>,
    m: nat,
) -> (Seq<SlideModel>, Seq<MessageModel>)
    decreases m,
{
    if m == 0 || m > obs.len() {
        (Seq::empty(), Seq::empty())
    } else {
        let prev = related(pid, obs, flat, (m - 1) as nat);
        let o = obs[m - 1];
        if !belongs(o, pid, flat) {
            prev
        } else if o.schema@ == "schema:workspace-object-snapshot"@ {
            (prev.0.push(snapshot_slide(pid, prev.0.len() + 1, o)), prev.1)
        } else if o.schema@ == "schema:slide-analysis-result"@ {
            (prev.0.push(analysis_slide(pid, prev.0.len() + 1, o)), prev.1)
        } else if o.schema@ == "schema:slack-message"@ {
            (prev.0, prev.1.push(slack_message(pid, prev.1.len() + 1, o)))
        } else {
            prev
        }
    }
}

// ---------------------------------------------------------------------------
// Activity
// ---------------------------------------------------------------------------

pub open spec fn min_opt(cur: Option<i64>, t: i64) -> Option<i64> {
    match cur {
        Some(c) => Some(if t < c { t } else { c }),
        None => Some(t),
    }
}

pub open spec fn max_opt(cur: Option<i64>, t: i64) -> Option<i64> {
    match cur {
        Some(c) => Some(if t > c { t } else { c }),
        None => Some(t),
    }
}

/// The times of the slides (those that have one) and of the messages.
pub open spec fn activity_times(slides: Seq<SlideModel>, msgs: Seq<MessageModel>) -> Seq<i64> {
    slides.filter(|s: SlideModel| s.last_modified is Some).map_values(
        |s: SlideModel| s.last_modified->0,
    ) + msgs.map_values(|m: MessageModel| m.ts)
}

/// The earliest of some times.
pub open spec fn earliest(ts: Seq<i64>) -> Option<i64>
    decreases ts.len(),
{
    if ts.len() == 0 {
        None
    } else {
        min_opt(earliest(ts.drop_last()), ts.last())
    }
}

/// The latest of some times.
pub open spec fn latest(ts: Seq<i64>) -> Option<i64>
    decreases ts.len(),
{
    if ts.len() == 0 {
        None
    } else {
        max_opt(latest(ts.drop_last()), ts.last())
    }
}

/// Strictly ascending in string order (so without repeats).
pub open spec fn strictly_sorted(s: Seq<Seq<char>>) -> bool {
    forall|i: int, j: int| 0 <= i < j < s.len() ==> lex_lt(#[trigger] s[i], #[trigger] s[j])
}

pub struct ActivityModel {
    pub person_id: Seq<char>,
    pub total_slides_related: nat,
    pub total_messages: nat,
    pub first_activity: Option<i64>,
    pub last_activity: Option<i64>,
    pub active_channels: Seq<Seq<char>>,
}

pub open spec fn activity_model(a: PersonActivity) -> ActivityModel {
    ActivityModel {
        person_id: a.person_id@,
        total_slides_related: a.total_slides_related as nat,
        total_messages: a.total_messages as nat,
        first_activity: a.first_activity,
        last_activity: a.last_activity,
        active_channels: views(a.active_channels@),
    }
}

/// The activity of a person: counts, earliest and latest times, and the
/// distinct channels of the messages in ascending order.
pub open spec fn activity_of(pid: Seq<char>, slides: Seq<SlideModel>, msgs: Seq<MessageModel>, a: ActivityModel) -> bool {
    &&& a.person_id == pid
    &&& a.total_slides_related == slides.len()
    &&& a.total_messages == msgs.len()
    &&& a.first_activity == earliest(activity_times(slides, msgs))
    &&& a.last_activity == latest(activity_times(slides, msgs))
    &&& strictly_sorted(a.active_channels)
    &&& a.active_channels.to_set() == msgs.map_values(|m: MessageModel| m.channel).to_set()
}

// ---------------------------------------------------------------------------
// Profiles
// ---------------------------------------------------------------------------

/// The identities a profile shows: e-mails and user ids, as
/// (system, external id).
pub open spec fn shown_identities(ids: Seq<SourceIdentifier>) -> Seq<(Seq<char>, Seq<char>)>
    decreases ids.len(),
{
    if ids.len() == 0 {
        Seq::empty()
    } else {
        let prev = shown_identities(ids.drop_last());
        let i = ids.last();
        if i.identifier_type == IdentifierType::Email || i.identifier_type == IdentifierType::UserId {
            prev.push((i.source@, i.value@))
        } else {
            prev
        }
    }
}

pub open spec fn identity_views(ids: Seq<IdentityInfo>) -> Seq<(Seq<char>, Seq<char>)> {
    ids.map_values(|i: IdentityInfo| (i.system@, i.external_id@))
}

/// The time a profile was last updated: the later of the last activity
/// and the self-introduction's record, or the epoch when there is neither.
pub open spec fn updated_at(last_activity: Option<i64>, fp: Option<(i64, FrontendModel)>) -> i64 {
    match (last_activity, fp) {
        (Some(a), Some(f)) => if a >= f.0 {
            a
        } else {
            f.0
        },
        (Some(a), None) => a,
        (None, Some(f)) => f.0,
        (None, None) => 0,
    }
}

/// The profile of a person, given its activity and its self-introduction
/// (with the time of the record it came from).
pub open spec fn profile_of(
    p: ResolvedPerson,
    last_activity: Option<i64>,
    fp: Option<(i64, FrontendModel)>,
    r: PersonProfile,
) -> bool {
    &&& r.person_id@ == p.person_id@
    &&& r.display_name@ == p.canonical_name@
    &&& opt_view(r.self_intro_text) == match fp {
        Some(f) => f.1.profile.bio_text,
        None => None,
    }
    &&& opt_view(r.self_intro_slide_id) == match fp {
        Some(f) => Some(f.1.source_document_id),
        None => None,
    }
    &&& opt_view(r.self_intro_thumbnail) == match fp {
        Some(f) => if f.1.thumbnail_url is Some {
            f.1.thumbnail_url
        } else {
            f.1.thumbnail_ref
        },
        None => None,
    }
    &&& match r.frontend_profile {
        Some(x) => fp matches Some(f) && frontend_model(x) == f.1,
        None => fp is None,
    }
    &&& identity_views(r.identities@) == shown_identities(p.identifiers@)
    &&& r.source_count == p.sources@.len()
    &&& r.last_activity == last_activity
    &&& r.profile_updated_at == updated_at(last_activity, fp)
}

pub struct PersonPageProjector;

impl PersonPageProjector {
    /// Builds the person pages: for each resolved person in order, its
    /// profile (with the self-introduction of its latest slide analysis)
    /// and activity, and the slides and messages that belong to it (all
    /// persons' slides and messages concatenated in person order).
    pub fn project(
        identity: &IdentityResolutionOutput,
        observations: &[Observation],
        supplemental_records: &[&SupplementalRecord],
    ) -> (r: PersonPageOutput)
        ensures
            r.profiles@.len() == identity.resolved_persons@.len(),
            r.activities@.len() == identity.resolved_persons@.len(),
            ({
                let persons = identity.resolved_persons@;
                let flat = flat_identifiers(persons, persons.len());
                &&& forall|k: int|
                    0 <= k < persons.len() ==> {
                        let rel = related(persons[k].person_id@, observations@, flat, observations@.len());
                        &&& activity_of(
                            persons[k].person_id@,
                            rel.0,
                            rel.1,
                            activity_model(#[trigger] r.activities@[k]),
                        )
                        &&& profile_of(
                            persons[k],
                            r.activities@[k].last_activity,
                            frontend_for(supplemental_records@, observations@, flat, persons[k].person_id@),
                            r.profiles@[k],
                        )
                    }
                &&& r.slides@.map_values(|s: PersonSlide| slide_model(s)) == slides_of_persons(
                    persons,
                    observations@,
                    flat,
                    persons.len(),
                )
                &&& r.messages@.map_values(|m: PersonMessage| message_model(m)) == messages_of_persons(
                    persons,
                    observations@,
                    flat,
                    persons.len(),
                )
            }),
    {
        let ghost persons = identity.resolved_persons@;
        let ghost flat = flat_identifiers(persons, persons.len());
        let map = Self::build_person_identifier_map(identity);
        let frontend = Self::build_frontend_profile_map(observations, supplemental_records, &map);
        let mut profiles: Vec<PersonProfile> = Vec::new();
        let mut all_slides: Vec<PersonSlide> = Vec::new();
        let mut all_messages: Vec<PersonMessage> = Vec::new();
        let mut activities: Vec<PersonActivity> = Vec::new();
        let mut k: usize = 0;
        while k < identity.resolved_persons.len()
            invariant
                k <= persons.len(),
                persons == identity.resolved_persons@,
                flat == flat_identifiers(persons, persons.len()),
                map@ == flat,
                keys_distinct(frontend@),
                forall|pid: Seq<char>|
                    #[trigger] frontend_for(supplemental_records@, observations@, flat, pid) == entry_model(
                        table_map(frontend@),
                        pid,
                    ),
                profiles@.len() == k,
                activities@.len() == k,
                forall|j: int|
                    0 <= j < k ==> {
                        let rel = related(persons[j].person_id@, observations@, flat, observations@.len());
                        &&& activity_of(
                            persons[j].person_id@,
                            rel.0,
                            rel.1,
                            activity_model(#[trigger] activities@[j]),
                        )
                        &&& profile_of(
                            persons[j],
                            activities@[j].last_activity,
                            frontend_for(supplemental_records@, observations@, flat, persons[j].person_id@),
                            profiles@[j],
                        )
                    },
                all_slides@.map_values(|s: PersonSlide| slide_model(s)) == slides_of_persons(
                    persons,
                    observations@,
                    flat,
                    k as nat,
                ),
                all_messages@.map_values(|m: PersonMessage| message_model(m)) == messages_of_persons(
                    persons,
                    observations@,
                    flat,
                    k as nat,
                ),
            decreases persons.len() - k,
        {
            let person = &identity.resolved_persons[k];
            let (slides, messages) = Self::collect_related(person, observations, &map);
            let activity = Self::build_activity(&person.person_id, &slides, &messages);
            let fp = table_get(&frontend, person.person_id.0.as_str());
            assert(frontend_for(supplemental_records@, observations@, flat, person.person_id@) == entry_model(
                table_map(frontend@),
                person.person_id@,
            ));
            let profile = Self::make_profile(person, activity.last_activity, fp);
            let ghost rel = related(person.person_id@, observations@, flat, observations@.len());
            let ghost sm_before = all_slides@.map_values(|s: PersonSlide| slide_model(s));
            let ghost mm_before = all_messages@.map_values(|m: PersonMessage| message_model(m));
            Self::append_slides(&mut all_slides, slides);
            Self::append_messages(&mut all_messages, messages);
            profiles.push(profile);
            activities.push(activity);
            proof {
                assert(slides_of_persons(persons, observations@, flat, (k + 1) as nat) == sm_before + rel.0);
                assert(messages_of_persons(persons, observations@, flat, (k + 1) as nat) == mm_before + rel.1);
            }
            k = k + 1;
        }
        PersonPageOutput { profiles, slides: all_slides, messages: all_messages, activities }
    }

    fn append_slides(out: &mut Vec<PersonSlide>, more: Vec<PersonSlide>)
        ensures
            final(out)@.map_values(|s: PersonSlide| slide_model(s)) == old(out)@.map_values(
                |s: PersonSlide| slide_model(s),
            ) + more@.map_values(|s: PersonSlide| slide_model(s)),
    {
        let mut more = more;
        let ghost start = out@;
        let ghost added = more@;
        out.append(&mut more);
        assert(out@.map_values(|s: PersonSlide| slide_model(s)) =~= start.map_values(
            |s: PersonSlide| slide_model(s),
        ) + added.map_values(|s: PersonSlide| slide_model(s)));
    }

    fn append_messages(out: &mut Vec<PersonMessage>, more: Vec<PersonMessage>)
        ensures
            final(out)@.map_values(|m: PersonMessage| message_model(m)) == old(out)@.map_values(
                |m: PersonMessage| message_model(m),
            ) + more@.map_values(|m: PersonMessage| message_model(m)),
    {
        let mut more = more;
        let ghost start = out@;
        let ghost added = more@;
        out.append(&mut more);
        assert(out@.map_values(|m: PersonMessage| message_model(m)) =~= start.map_values(
            |m: PersonMessage| message_model(m),
        ) + added.map_values(|m: PersonMessage| message_model(m)));
    }

    /// The (identifier value, person id) pairs of every resolved person.
    fn build_person_identifier_map(identity: &IdentityResolutionOutput) -> (r: IdentifierMap)
        ensures
            r@ == flat_identifiers(identity.resolved_persons@, identity.resolved_persons@.len()),
    {
        let ghost persons = identity.resolved_persons@;
        let mut pairs: Vec<(String, String)> = Vec::new();
        let mut k: usize = 0;
        while k < identity.resolved_persons.len()
            invariant
                k <= persons.len(),
                persons == identity.resolved_persons@,
                pairs@.map_values(|e: (String, String)| (e.0@, e.1@)) == flat_identifiers(persons, k as nat),
            decreases persons.len() - k,
        {
            let person = &identity.resolved_persons[k];
            let ghost base = pairs@.map_values(|e: (String, String)| (e.0@, e.1@));
            let ghost ids = person.identifiers@.map_values(|i: SourceIdentifier| (i.value@, person.person_id@));
            let mut j: usize = 0;
            while j < person.identifiers.len()
                invariant
                    j <= person.identifiers@.len(),
                    ids == person.identifiers@.map_values(|i: SourceIdentifier| (i.value@, person.person_id@)),
                    pairs@.map_values(|e: (String, String)| (e.0@, e.1@)) == base + ids.take(j as int),
                decreases person.identifiers@.len() - j,
            {
                let ghost prev = pairs@;
                pairs.push((person.identifiers[j].value.clone(), person.person_id.to_string()));
                assert(ids.take(j + 1) =~= ids.take(j as int).push(ids[j as int]));
                assert(pairs@.map_values(|e: (String, String)| (e.0@, e.1@)) =~= prev.map_values(
                    |e: (String, String)| (e.0@, e.1@),
                ).push(ids[j as int]));
                j = j + 1;
            }
            assert(ids.take(ids.len() as int) =~= ids);
            k = k + 1;
        }
        IdentifierMap { pairs }
    }

    /// The slides and messages that belong to a person, in order.
    fn collect_related(person: &ResolvedPerson, observations: &[Observation], map: &IdentifierMap) -> (r: (
        Vec<PersonSlide>,
        Vec<PersonMessage>,
    ))
        ensures
            ({
                let rel = related(person.person_id@, observations@, map@, observations@.len());
                &&& r.0@.map_values(|s: PersonSlide| slide_model(s)) == rel.0
                &&& r.1@.map_values(|m: PersonMessage| message_model(m)) == rel.1
            }),
    {
        let ghost pid = person.person_id@;
        let mut slides: Vec<PersonSlide> = Vec::new();
        let mut messages: Vec<PersonMessage> = Vec::new();
        let mut i: usize = 0;
        while i < observations.len()
            invariant
                i <= observations@.len(),
                pid == person.person_id@,
                ({
                    let rel = related(pid, observations@, map@, i as nat);
                    &&& slides@.map_values(|s: PersonSlide| slide_model(s)) == rel.0
                    &&& messages@.map_values(|m: PersonMessage| message_model(m)) == rel.1
                }),
            decreases observations@.len() - i,
        {
            let obs = &observations[i];
            let ghost prev_s = slides@;
            let ghost prev_m = messages@;
            if Self::observation_belongs_to(obs, person, map) {
                let schema = obs.schema.as_str();
                if str_eq(schema, "schema:workspace-object-snapshot") {
                    let n = slides.len() as u128 + 1;
                    let s = Self::snapshot_slide(person, n, obs);
                    slides.push(s);
                    assert(slides@.map_values(|s: PersonSlide| slide_model(s)) =~= prev_s.map_values(
                        |s: PersonSlide| slide_model(s),
                    ).push(slide_model(s)));
                } else if str_eq(schema, "schema:slide-analysis-result") {
                    let n = slides.len() as u128 + 1;
                    let s = Self::analysis_slide(person, n, obs);
                    slides.push(s);
                    assert(slides@.map_values(|s: PersonSlide| slide_model(s)) =~= prev_s.map_values(
                        |s: PersonSlide| slide_model(s),
                    ).push(slide_model(s)));
                } else if str_eq(schema, "schema:slack-message") {
                    let n = messages.len() as u128 + 1;
                    let m = Self::slack_message(person, n, obs);
                    messages.push(m);
                    assert(messages@.map_values(|m: PersonMessage| message_model(m)) =~= prev_m.map_values(
                        |m: PersonMessage| message_model(m),
                    ).push(message_model(m)));
                }
            }
            i = i + 1;
        }
        (slides, messages)
    }

    fn snapshot_slide(person: &ResolvedPerson, n: u128, obs: &Observation) -> (r: PersonSlide)
        ensures
            slide_model(r) == snapshot_slide(person.person_id@, n as nat, *obs),
    {
        let title = match obs.payload.get_str("title") {
            Some(t) => t.clone(),
            None => String::from_str("Untitled"),
        };
        let revision = match obs.payload.get("revision") {
            Some(rev) => match rev.get_str("sourceRevisionId") {
                Some(s) => Some(s.clone()),
                None => None,
            },
            None => None,
        };
        PersonSlide {
            id: Self::numbered_id("ps:", &person.person_id, n),
            person_id: person.person_id.duplicate(),
            document_id: obs.subject.to_string(),
            title,
            role: String::from_str("editor"),
            last_seen_revision: revision,
            slide_count: None,
            thumbnail_ref: None,
            last_modified: Some(obs.published),
        }
    }

    fn analysis_slide(person: &ResolvedPerson, n: u128, obs: &Observation) -> (r: PersonSlide)
        ensures
            slide_model(r) == analysis_slide(person.person_id@, n as nat, *obs),
    {
        let document_id = match &obs.target {
            Some(t) => t.to_string(),
            None => obs.subject.to_string(),
        };
        let title = match obs.payload.get_str("person_name") {
            Some(t) => t.clone(),
            None => String::from_str("Analyzed Slide"),
        };
        let thumbnail_ref = match obs.payload.get_str("thumbnail_url") {
            Some(u) => Some(u.clone()),
            None => match obs.payload.get_str("thumbnail_blob_ref") {
                Some(b) => Some(b.clone()),
                None => None,
            },
        };
        PersonSlide {
            id: Self::numbered_id("ps:", &person.person_id, n),
            person_id: person.person_id.duplicate(),
            document_id,
            title,
            role: String::from_str("self-intro"),
            last_seen_revision: None,
            slide_count: Some(1),
            thumbnail_ref,
            last_modified: Some(obs.published),
        }
    }

    fn slack_message(person: &ResolvedPerson, n: u128, obs: &Observation) -> (r: PersonMessage)
        ensures
            message_model(r) == slack_message(person.person_id@, n as nat, *obs),
    {
        let text = match obs.payload.get_str("text") {
            Some(t) => t.clone(),
            None => String::new(),
        };
        let chosen: Option<&JsonValue> = match obs.payload.get("channel_name") {
            Some(v) => Some(v),
            None => match obs.payload.get("channel") {
                Some(v) => Some(v),
                None => obs.payload.get("channel_id"),
            },
        };
        let channel = match chosen {
            Some(v) => match v.as_str() {
                Some(s) => s.clone(),
                None => String::from_str("unknown"),
            },
            None => String::from_str("unknown"),
        };
        let thread_ts = match obs.payload.get_str("thread_ts") {
            Some(t) => Some(t.clone()),
            None => None,
        };
        proof {
            reveal_strlit("");
        }
        let r = PersonMessage {
            id: Self::numbered_id("pm:", &person.person_id, n),
            person_id: person.person_id.duplicate(),
            channel,
            text,
            ts: obs.published,
            thread_ts,
            has_attachments: obs.attachments.len() > 0,
        };
        let ghost want = slack_message(person.person_id@, n as nat, *obs);
        assert(r.id@ == want.id);
        assert(r.channel@ == want.channel);
        assert(r.text@ == want.text);
        assert(opt_view(r.thread_ts) == want.thread_ts);
        assert(r.has_attachments == want.has_attachments);
        r
    }

    /// `{prefix}{person}:{n}`.
    fn numbered_id(prefix: &str, person_id: &EntityRef, n: u128) -> (r: String)
        ensures
            r@ == prefix@ + person_id@ + ":"@ + spec_decimal(n as nat),
    {
        let a = concat3(prefix, person_id.as_str(), ":");
        concat2(a.as_str(), u128_to_decimal(n).as_str())
    }

    /// Whether an observation belongs to a person.
    fn observation_belongs_to(obs: &Observation, person: &ResolvedPerson, map: &IdentifierMap) -> (r: bool)
        ensures
            r == belongs(*obs, person.person_id@, map@),
    {
        let pid = person.person_id.as_str();
        let p = &obs.payload;
        if map.maps_to(p.get_str("user_id"), pid) {
            return true;
        }
        if map.maps_to(p.get_str("email"), pid) {
            return true;
        }
        if map.maps_to(p.get_str("person_email"), pid) {
            return true;
        }
        let editors: Option<&Vec<JsonValue>> = match p.get("relations") {
            Some(rel) => match rel.get("editors") {
                Some(e) => e.as_array(),
                None => None,
            },
            None => None,
        };
        let ghost eds = editors_of(p@);
        match editors {
            Some(list) => {
                let mut i: usize = 0;
                while i < list.len()
                    invariant
                        i <= list@.len(),
                        eds == editors_of(p@),
                        *p == obs.payload,
                        pid@ == person.person_id@,
                        eds.len() == list@.len(),
                        forall|k: int| 0 <= k < list@.len() ==> #[trigger] eds[k] == list@[k]@,
                        forall|k: int| 0 <= k < i ==> !maps_to(map@, (#[trigger] eds[k]).as_str(), pid@),
                    decreases list@.len() - i,
                {
                    let s: Option<&String> = list[i].as_str();
                    assert(eds[i as int].as_str() == opt_view(
                        match s {
                            Some(x) => Some(*x),
                            None => None,
                        },
                    ));
                    if map.maps_to(s, pid) {
                        assert(editors_of(p@)[i as int] == eds[i as int]);
                        assert(maps_to(map@, editors_of(p@)[i as int].as_str(), pid@));
                        return true;
                    }
                    i = i + 1;
                }
            },
            None => {
                assert(eds =~= Seq::<Json>::empty());
            },
        }
        let owner: Option<&String> = match p.get("relations") {
            Some(rel) => rel.get_str("owner"),
            None => None,
        };
        map.maps_to(owner, pid)
    }

    /// The activity summary of a person.
    fn build_activity(person_id: &EntityRef, slides: &Vec<PersonSlide>, messages: &Vec<PersonMessage>) -> (r:
        PersonActivity)
        ensures
            activity_of(
                person_id@,
                slides@.map_values(|s: PersonSlide| slide_model(s)),
                messages@.map_values(|m: PersonMessage| message_model(m)),
                activity_model(r),
            ),
    {
        let ghost sm = slides@.map_values(|s: PersonSlide| slide_model(s));
        let ghost mm = messages@.map_values(|m: PersonMessage| message_model(m));
        let ghost times = activity_times(sm, mm);
        let ghost slide_times = sm.filter(|s: SlideModel| s.last_modified is Some).map_values(
            |s: SlideModel| s.last_modified->0,
        );
        // Earliest and latest times.
        let mut first: Option<i64> = None;
        let mut last: Option<i64> = None;
        let mut i: usize = 0;
        proof {
            reveal(Seq::filter);
            assert(sm.take(0).filter(|s: SlideModel| s.last_modified is Some) =~= Seq::<SlideModel>::empty());
        }
        while i < slides.len()
            invariant
                i <= slides@.len(),
                sm == slides@.map_values(|s: PersonSlide| slide_model(s)),
                ({
                    let ts = sm.take(i as int).filter(|s: SlideModel| s.last_modified is Some).map_values(
                        |s: SlideModel| s.last_modified->0,
                    );
                    &&& first == earliest(ts)
                    &&& last == latest(ts)
                }),
            decreases slides@.len() - i,
        {
            proof {
                reveal(Seq::filter);
                assert(sm.take(i + 1).drop_last() =~= sm.take(i as int));
            }
            let ghost prev = sm.take(i as int).filter(|s: SlideModel| s.last_modified is Some).map_values(
                |s: SlideModel| s.last_modified->0,
            );
            match slides[i].last_modified {
                Some(t) => {
                    first = match first {
                        Some(c) => Some(if t < c { t } else { c }),
                        None => Some(t),
                    };
                    last = match last {
                        Some(c) => Some(if t > c { t } else { c }),
                        None => Some(t),
                    };
                    proof {
                        let next = sm.take(i + 1).filter(|s: SlideModel| s.last_modified is Some).map_values(
                            |s: SlideModel| s.last_modified->0,
                        );
                        assert(sm.take(i + 1).filter(|s: SlideModel| s.last_modified is Some) == sm.take(
                            i as int,
                        ).filter(|s: SlideModel| s.last_modified is Some).push(sm[i as int]));
                        assert(next =~= prev.push(t));
                        assert(next.drop_last() =~= prev);
                    }
                },
                None => {
                    proof {
                        assert(sm.take(i + 1).filter(|s: SlideModel| s.last_modified is Some) == sm.take(
                            i as int,
                        ).filter(|s: SlideModel| s.last_modified is Some));
                    }
                },
            }
            i = i + 1;
        }
        assert(sm.take(slides@.len() as int) =~= sm);
        let ghost msg_times = mm.map_values(|m: MessageModel| m.ts);
        assert(times == slide_times + msg_times);
        let mut j: usize = 0;
        assert(slide_times + msg_times.take(0) =~= slide_times);
        while j < messages.len()
            invariant
                j <= messages@.len(),
                mm == messages@.map_values(|m: PersonMessage| message_model(m)),
                msg_times == mm.map_values(|m: MessageModel| m.ts),
                first == earliest(slide_times + msg_times.take(j as int)),
                last == latest(slide_times + msg_times.take(j as int)),
            decreases messages@.len() - j,
        {
            let t = messages[j].ts;
            assert((slide_times + msg_times.take(j + 1)).drop_last() =~= slide_times + msg_times.take(j as int));
            assert((slide_times + msg_times.take(j + 1)).last() == t);
            first = match first {
                Some(c) => Some(if t < c { t } else { c }),
                None => Some(t),
            };
            last = match last {
                Some(c) => Some(if t > c { t } else { c }),
                None => Some(t),
            };
            j = j + 1;
        }
        assert(msg_times.take(messages@.len() as int) =~= msg_times);
        // Distinct channels, ascending.
        let mut channels: Vec<String> = Vec::new();
        let mut k: usize = 0;
        while k < messages.len()
            invariant
                k <= messages@.len(),
                mm == messages@.map_values(|m: PersonMessage| message_model(m)),
                strictly_sorted(views(channels@)),
                views(channels@).to_set() == mm.take(k as int).map_values(|m: MessageModel| m.channel).to_set(),
            decreases messages@.len() - k,
        {
            let ghost before = views(channels@);
            Self::insert_sorted(&mut channels, messages[k].channel.as_str());
            assert(mm.take(k + 1).map_values(|m: MessageModel| m.channel) =~= mm.take(k as int).map_values(
                |m: MessageModel| m.channel,
            ).push(messages@[k as int].channel@));
            proof {
                crate::text::lemma_push_to_set(
                    mm.take(k as int).map_values(|m: MessageModel| m.channel),
                    messages@[k as int].channel@,
                );
            }
            k = k + 1;
        }
        assert(mm.take(messages@.len() as int) =~= mm);
        let r = PersonActivity {
            person_id: person_id.duplicate(),
            total_slides_related: slides.len(),
            total_messages: messages.len(),
            first_activity: first,
            last_activity: last,
            active_channels: channels,
        };
        r
    }

    /// Inserts `s` into a strictly sorted list unless present.
    fn insert_sorted(v: &mut Vec<String>, s: &str)
        requires
            strictly_sorted(views(old(v)@)),
        ensures
            strictly_sorted(views(final(v)@)),
            views(final(v)@).to_set() == views(old(v)@).to_set().insert(s@),
    {
        let ghost before = views(v@);
        let mut i: usize = 0;
        while i < v.len() && str_lt(v[i].as_str(), s)
            invariant
                i <= v@.len(),
                before == views(v@),
                strictly_sorted(before),
                forall|k: int| 0 <= k < i ==> lex_lt(#[trigger] before[k], s@),
            decreases v@.len() - i,
        {
            i = i + 1;
        }
        assert(i < v@.len() ==> before[i as int] == v@[i as int]@);
        if i < v.len() && str_eq(v[i].as_str(), s) {
            assert(before[i as int] == s@);
            assert(before.to_set().insert(s@) =~= before.to_set());
            return;
        }
        v.insert(i, String::from_str(s));
        proof {
            let after = views(v@);
            assert(after =~= before.insert(i as int, s@));
            if i < before.len() {
                assert(before[i as int] != s@);
                crate::text::lemma_lex_lt_total(before[i as int], s@);
                assert(lex_lt(s@, before[i as int]));
            }
            assert forall|a: int, b: int| 0 <= a < b < after.len() implies lex_lt(
                #[trigger] after[a],
                #[trigger] after[b],
            ) by {
                if b < i {
                    assert(after[a] == before[a] && after[b] == before[b]);
                } else if b == i {
                    assert(after[a] == before[a] && after[b] == s@);
                } else if a < i {
                    assert(after[a] == before[a] && after[b] == before[b - 1]);
                } else if a == i {
                    assert(after[a] == s@ && after[b] == before[b - 1]);
                    if b - 1 > i {
                        assert(lex_lt(before[i as int], before[b - 1]));
                        crate::text::lemma_lex_lt_transitive(s@, before[i as int], before[b - 1]);
                    }
                } else {
                    assert(after[a] == before[a - 1] && after[b] == before[b - 1]);
                }
            }
            crate::text::lemma_insert_to_set(before, i as int, s@);
        }
    }

    fn make_profile(
        person: &ResolvedPerson,
        last_activity: Option<i64>,
        frontend: Option<&(i64, FrontendProfile)>,
    ) -> (r: PersonProfile)
        ensures
            profile_of(
                *person,
                last_activity,
                match frontend {
                    Some(f) => Some((f.0, frontend_model(f.1))),
                    None => None,
                },
                r,
            ),
    {
        let mut identities: Vec<IdentityInfo> = Vec::new();
        let mut i: usize = 0;
        while i < person.identifiers.len()
            invariant
                i <= person.identifiers@.len(),
                identity_views(identities@) == shown_identities(person.identifiers@.take(i as int)),
            decreases person.identifiers@.len() - i,
        {
            let ident = &person.identifiers[i];
            assert(person.identifiers@.take(i + 1).drop_last() =~= person.identifiers@.take(i as int));
            let shown = match ident.identifier_type {
                IdentifierType::Email => true,
                IdentifierType::UserId => true,
                _ => false,
            };
            if shown {
                let ghost prev = identities@;
                identities.push(IdentityInfo { system: ident.source.clone(), external_id: ident.value.clone() });
                assert(identity_views(identities@) =~= identity_views(prev).push((ident.source@, ident.value@)));
            }
            i = i + 1;
        }
        assert(person.identifiers@.take(person.identifiers@.len() as int) =~= person.identifiers@);
        let (self_intro_text, self_intro_slide_id, self_intro_thumbnail, frontend_profile) = match frontend {
            Some(f) => {
                let fp = &f.1;
                let thumbnail = if fp.thumbnail_url.is_some() {
                    copy_opt_string(&fp.thumbnail_url)
                } else {
                    copy_opt_string(&fp.thumbnail_ref)
                };
                (
                    copy_opt_string(&fp.profile.bio_text),
                    Some(fp.source_document_id.clone()),
                    thumbnail,
                    Some(fp.duplicate()),
                )
            },
            None => (None, None, None, None),
        };
        let profile_updated_at = match (last_activity, frontend) {
            (Some(a), Some(f)) => if a >= f.0 {
                a
            } else {
                f.0
            },
            (Some(a), None) => a,
            (None, Some(f)) => f.0,
            (None, None) => 0,
        };
        PersonProfile {
            person_id: person.person_id.duplicate(),
            display_name: person.canonical_name.clone(),
            self_intro_text,
            self_intro_slide_id,
            self_intro_thumbnail,
            identities,
            source_count: person.sources.len(),
            last_activity,
            profile_updated_at,
            frontend_profile,
        }
    }
}

/// The slides of the first `m` persons, person by person.
pub open spec fn slides_of_persons(
    persons: Seq<ResolvedPerson>,
    obs: Seq<Observation>,
    flat: Seq<(Seq<char>, Seq<char>)>,
    m: nat,
) -> Seq<SlideModel>
    decreases m,
{
    if m == 0 || m > persons.len() {
        Seq::empty()
    } else {
        slides_of_persons(persons, obs, flat, (m - 1) as nat) + related(
            persons[m - 1].person_id@,
            obs,
            flat,
            obs.len(),
        ).0
    }
}

/// The messages of the first `m` persons, person by person.
pub open spec fn messages_of_persons(
    persons: Seq<ResolvedPerson>,
    obs: Seq<Observation>,
    flat: Seq<(Seq<char>, Seq<char>)>,
    m: nat,
) -> Seq<MessageModel>
    decreases m,
{
    if m == 0 || m > persons.len() {
        Seq::empty()
    } else {
        messages_of_persons(persons, obs, flat, (m - 1) as nat) + related(
            persons[m - 1].person_id@,
            obs,
            flat,
            obs.len(),
        ).1
    }
}

/// Identifier values and the persons they map to.
pub struct IdentifierMap {
    pairs: Vec<(String, String)>,
}

impl View for IdentifierMap {
    type V = Seq<(Seq<char>, Seq<char>)>;

    closed spec fn view(&self) -> Seq<(Seq<char>, Seq<char>)> {
        self.pairs@.map_values(|e: (String, String)| (e.0@, e.1@))
    }
}

impl IdentifierMap {
    /// The person an identifier value maps to: the last pair with that
    /// value.
    pub fn owner(&self, value: &str) -> (r: Option<String>)
        ensures
            opt_view(r) == owner_of_value(self@, value@),
    {
        let ghost all = self@;
        let mut i: usize = self.pairs.len();
        assert(all.take(all.len() as int) =~= all);
        while i > 0
            invariant
                i <= self.pairs@.len(),
                all == self@,
                all.len() == self.pairs@.len(),
                owner_of_value(all, value@) == owner_of_value(all.take(i as int), value@),
            decreases i,
        {
            let e = &self.pairs[i - 1];
            assert(all.take(i as int).last() == (e.0@, e.1@));
            assert(all.take(i as int).drop_last() =~= all.take(i - 1));
            if str_eq(e.0.as_str(), value) {
                return Some(e.1.clone());
            }
            i = i - 1;
        }
        assert(all.take(0) =~= Seq::<(Seq<char>, Seq<char>)>::empty());
        None
    }

    /// Whether `value` maps to the person `pid`.
    fn maps_to(&self, value: Option<&String>, pid: &str) -> (r: bool)
        ensures
            r == maps_to(
                self@,
                match value {
                    Some(v) => Some(v@),
                    None => None,
                },
                pid@,
            ),
    {
        let v = match value {
            Some(v) => v,
            None => {
                return false;
            },
        };
        let ghost all = self@;
        let mut i: usize = self.pairs.len();
        assert(all.take(all.len() as int) =~= all);
        while i > 0
            invariant
                i <= self.pairs@.len(),
                all == self@,
                match value {
                    Some(x) => x@ == v@,
                    None => false,
                },
                all.len() == self.pairs@.len(),
                owner_of_value(all, v@) == owner_of_value(all.take(i as int), v@),
            decreases i,
        {
            let e = &self.pairs[i - 1];
            assert(all.take(i as int).last() == (e.0@, e.1@));
            assert(all.take(i as int).drop_last() =~= all.take(i - 1));
            if str_eq(e.0.as_str(), v.as_str()) {
                assert(owner_of_value(all.take(i as int), v@) == Some(e.1@));
                assert(owner_of_value(all, v@) == Some(e.1@));
                let same = str_eq(e.1.as_str(), pid);
                assert(same == (e.1@ == pid@));
                assert(maps_to(self@, Some(v@), pid@) == same);
                return same;
            }
            i = i - 1;
        }
        assert(all.take(0) =~= Seq::<(Seq<char>, Seq<char>)>::empty());
        false
    }
}

impl PersonPageProjector {
    /// A list item: the profile's name, sources and thumbnail with the
    /// activity's counts and latest time.
    pub fn to_list_item(profile: &PersonProfile, activity: &PersonActivity) -> (r: PersonListItem)
        ensures
            r.person_id@ == profile.person_id@,
            r.display_name@ == profile.display_name@,
            r.source_count == profile.source_count,
            r.total_slides == activity.total_slides_related,
            r.total_messages == activity.total_messages,
            r.last_activity == activity.last_activity,
            opt_view(r.thumbnail_url) == opt_view(profile.self_intro_thumbnail),
    {
        PersonListItem {
            person_id: profile.person_id.duplicate(),
            display_name: profile.display_name.clone(),
            source_count: profile.source_count,
            total_slides: activity.total_slides_related,
            total_messages: activity.total_messages,
            last_activity: activity.last_activity,
            thumbnail_url: match &profile.self_intro_thumbnail {
                Some(t) => Some(t.clone()),
                None => None,
            },
        }
    }

    /// A detail response: the profile, the given slides and messages, and
    /// the activity; a self-introduction when the profile has its text.
    pub fn to_detail(
        profile: &PersonProfile,
        slides: &[PersonSlide],
        messages: &[PersonMessage],
        activity: &PersonActivity,
    ) -> (r: PersonDetailResponse)
        ensures
            r.person_id@ == profile.person_id@,
            r.display_name@ == profile.display_name@,
            match profile.self_intro_text {
                Some(t) => r.self_introduction matches Some(si) && si.text@ == t@ && opt_view(si.slide_id)
                    == opt_view(profile.self_intro_slide_id) && opt_view(si.thumbnail_url) == opt_view(
                    profile.self_intro_thumbnail,
                ),
                None => r.self_introduction is None,
            },
            identity_views(r.identities@) == identity_views(profile.identities@),
            r.related_slides@.map_values(|s: PersonSlide| slide_model(s)) == slides@.map_values(
                |s: PersonSlide| slide_model(s),
            ),
            r.recent_messages@.map_values(|m: PersonMessage| message_model(m)) == messages@.map_values(
                |m: PersonMessage| message_model(m),
            ),
            activity_model(r.activity_summary) == activity_model(*activity),
    {
        let self_introduction = match &profile.self_intro_text {
            Some(text) => Some(
                SelfIntroduction {
                    text: text.clone(),
                    slide_id: match &profile.self_intro_slide_id {
                        Some(s) => Some(s.clone()),
                        None => None,
                    },
                    thumbnail_url: match &profile.self_intro_thumbnail {
                        Some(t) => Some(t.clone()),
                        None => None,
                    },
                },
            ),
            None => None,
        };
        let mut identities: Vec<IdentityInfo> = Vec::new();
        let mut i: usize = 0;
        while i < profile.identities.len()
            invariant
                i <= profile.identities@.len(),
                identities@.len() == i,
                forall|k: int| 0 <= k < i ==> (#[trigger] identities@[k]).system@ == profile.identities@[k].system@
                    && identities@[k].external_id@ == profile.identities@[k].external_id@,
            decreases profile.identities@.len() - i,
        {
            let id = &profile.identities[i];
            identities.push(IdentityInfo { system: id.system.clone(), external_id: id.external_id.clone() });
            i = i + 1;
        }
        assert(identity_views(identities@) =~= identity_views(profile.identities@));
        let mut related_slides: Vec<PersonSlide> = Vec::new();
        let mut i: usize = 0;
        while i < slides.len()
            invariant
                i <= slides@.len(),
                related_slides@.len() == i,
                forall|k: int| 0 <= k < i ==> slide_model(#[trigger] related_slides@[k]) == slide_model(slides@[k]),
            decreases slides@.len() - i,
        {
            related_slides.push(slides[i].duplicate());
            i = i + 1;
        }
        assert(related_slides@.map_values(|s: PersonSlide| slide_model(s)) =~= slides@.map_values(
            |s: PersonSlide| slide_model(s),
        ));
        let mut recent_messages: Vec<PersonMessage> = Vec::new();
        let mut i: usize = 0;
        while i < messages.len()
            invariant
                i <= messages@.len(),
                recent_messages@.len() == i,
                forall|k: int| 0 <= k < i ==> message_model(#[trigger] recent_messages@[k]) == message_model(
                    messages@[k],
                ),
            decreases messages@.len() - i,
        {
            recent_messages.push(messages[i].duplicate());
            i = i + 1;
        }
        assert(recent_messages@.map_values(|m: PersonMessage| message_model(m)) =~= messages@.map_values(
            |m: PersonMessage| message_model(m),
        ));
        PersonDetailResponse {
            person_id: profile.person_id.duplicate(),
            display_name: profile.display_name.clone(),
            self_introduction,
            identities,
            related_slides,
            recent_messages,
            activity_summary: activity.duplicate(),
        }
    }
}

impl PersonSlide {
    /// A second slide with the same contents.
    pub fn duplicate(&self) -> (r: PersonSlide)
        ensures
            slide_model(r) == slide_model(*self),
    {
        PersonSlide {
            id: self.id.clone(),
            person_id: self.person_id.duplicate(),
            document_id: self.document_id.clone(),
            title: self.title.clone(),
            role: self.role.clone(),
            last_seen_revision: match &self.last_seen_revision {
                Some(s) => Some(s.clone()),
                None => None,
            },
            slide_count: self.slide_count,
            thumbnail_ref: match &self.thumbnail_ref {
                Some(s) => Some(s.clone()),
                None => None,
            },
            last_modified: self.last_modified,
        }
    }
}

impl PersonMessage {
    /// A second message with the same contents.
    pub fn duplicate(&self) -> (r: PersonMessage)
        ensures
            message_model(r) == message_model(*self),
    {
        PersonMessage {
            id: self.id.clone(),
            person_id: self.person_id.duplicate(),
            channel: self.channel.clone(),
            text: self.text.clone(),
            ts: self.ts,
            thread_ts: match &self.thread_ts {
                Some(s) => Some(s.clone()),
                None => None,
            },
            has_attachments: self.has_attachments,
        }
    }
}

impl PersonActivity {
    /// A second activity summary with the same contents.
    pub fn duplicate(&self) -> (r: PersonActivity)
        ensures
            activity_model(r) == activity_model(*self),
    {
        let mut channels: Vec<String> = Vec::new();
        let mut i: usize = 0;
        while i < self.active_channels.len()
            invariant
                i <= self.active_channels@.len(),
                channels@.len() == i,
                forall|k: int| 0 <= k < i ==> (#[trigger] channels@[k])@ == self.active_channels@[k]@,
            decreases self.active_channels@.len() - i,
        {
            channels.push(self.active_channels[i].clone());
            i = i + 1;
        }
        assert(views(channels@) =~= views(self.active_channels@));
        PersonActivity {
            person_id: self.person_id.duplicate(),
            total_slides_related: self.total_slides_related,
            total_messages: self.total_messages,
            first_activity: self.first_activity,
            last_activity: self.last_activity,
            active_channels: channels,
        }
    }
}

/// Of some times, `earliest` is one of them and no later than any, and
/// `latest` is one of them and no earlier than any; both are `None` only
/// when there are no times.
proof fn lemma_extremes(ts: Seq<i64>)
    ensures
        earliest(ts) is None <==> ts.len() == 0,
        latest(ts) is None <==> ts.len() == 0,
        earliest(ts) matches Some(t) ==> ts.contains(t) && forall|i: int| 0 <= i < ts.len() ==> t <= #[trigger] ts[i],
        latest(ts) matches Some(t) ==> ts.contains(t) && forall|i: int| 0 <= i < ts.len() ==> #[trigger] ts[i] <= t,
    decreases ts.len(),
{
    if ts.len() > 0 {
        let d = ts.drop_last();
        lemma_extremes(d);
        assert forall|i: int| 0 <= i < d.len() implies #[trigger] ts[i] == d[i] by {}
        assert(ts[ts.len() - 1] == ts.last());
        match earliest(d) {
            Some(c) => {
                let k = choose|k: int| 0 <= k < d.len() && d[k] == c;
                assert(ts[k] == c);
            },
            None => {},
        }
        match latest(d) {
            Some(c) => {
                let k = choose|k: int| 0 <= k < d.len() && d[k] == c;
                assert(ts[k] == c);
            },
            None => {},
        }
        assert forall|i: int| 0 <= i < ts.len() implies earliest(ts)->0 <= #[trigger] ts[i] by {
            if i < ts.len() - 1 {
                assert(ts[i] == d[i]);
            }
        }
        assert forall|i: int| 0 <= i < ts.len() implies #[trigger] ts[i] <= latest(ts)->0 by {
            if i < ts.len() - 1 {
                assert(ts[i] == d[i]);
            }
        }
    }
}

/// Every element of a filtered sequence is an element of the sequence.
proof fn lemma_filter_from<A>(s: Seq<A>, pred: spec_fn(A) -> bool, k: int)
    requires
        0 <= k < s.filter(pred).len(),
    ensures
        exists|i: int| 0 <= i < s.len() && s[i] == s.filter(pred)[k],
    decreases s.len(),
{
    reveal(Seq::filter);
    let d = s.drop_last();
    if s.len() > 0 {
        if pred(s.last()) {
            if k == s.filter(pred).len() - 1 {
                assert(s[s.len() - 1] == s.filter(pred)[k]);
            } else {
                assert(s.filter(pred) == d.filter(pred).push(s.last()));
                assert(s.filter(pred)[k] == d.filter(pred)[k]);
                lemma_filter_from(d, pred, k);
                let i = choose|i: int| 0 <= i < d.len() && d[i] == d.filter(pred)[k];
                assert(s[i] == d[i]);
            }
        } else {
            assert(s.filter(pred) == d.filter(pred));
            lemma_filter_from(d, pred, k);
            let i = choose|i: int| 0 <= i < d.len() && d[i] == d.filter(pred)[k];
            assert(s[i] == d[i]);
        }
    }
}

/// A person's first activity is the earliest of the times of their slides
/// (those that have one) and messages, and the last activity the latest:
/// each is one of those times, no later (no earlier) than any of them, and
/// `None` only when there are no such times.
pub proof fn lemma_activity_extremes(
    pid: Seq<char>,
    slides: Seq<SlideModel>,
    msgs: Seq<MessageModel>,
    a: ActivityModel,
)
    requires
        activity_of(pid, slides, msgs, a),
    ensures
        a.first_activity is None <==> (msgs.len() == 0 && forall|i: int|
            0 <= i < slides.len() ==> (#[trigger] slides[i]).last_modified is None),
        a.last_activity is None <==> a.first_activity is None,
        a.first_activity matches Some(t) ==> {
            &&& (exists|i: int| 0 <= i < slides.len() && #[trigger] slides[i].last_modified == Some(t))
                || (exists|j: int| 0 <= j < msgs.len() && #[trigger] msgs[j].ts == t)
            &&& forall|i: int|
                0 <= i < slides.len() && (#[trigger] slides[i]).last_modified is Some ==> t
                    <= slides[i].last_modified->0
            &&& forall|j: int| 0 <= j < msgs.len() ==> t <= (#[trigger] msgs[j]).ts
        },
        a.last_activity matches Some(t) ==> {
            &&& (exists|i: int| 0 <= i < slides.len() && #[trigger] slides[i].last_modified == Some(t))
                || (exists|j: int| 0 <= j < msgs.len() && #[trigger] msgs[j].ts == t)
            &&& forall|i: int|
                0 <= i < slides.len() && (#[trigger] slides[i]).last_modified is Some
                    ==> slides[i].last_modified->0 <= t
            &&& forall|j: int| 0 <= j < msgs.len() ==> (#[trigger] msgs[j]).ts <= t
        },
{
    let pred = |s: SlideModel| s.last_modified is Some;
    let f = slides.filter(pred);
    let sa = f.map_values(|s: SlideModel| s.last_modified->0);
    let sb = msgs.map_values(|m: MessageModel| m.ts);
    let ts = activity_times(slides, msgs);
    assert(ts == sa + sb);
    lemma_extremes(ts);
    // Every slide time and message time is among the times.
    assert forall|i: int| 0 <= i < slides.len() && (#[trigger] slides[i]).last_modified is Some implies exists|
        k: int,
    | 0 <= k < ts.len() && ts[k] == slides[i].last_modified->0 by {
        slides.lemma_filter_contains(pred, i);
        let k = choose|k: int| 0 <= k < f.len() && f[k] == slides[i];
        assert(ts[k] == sa[k]);
    }
    assert forall|j: int| 0 <= j < msgs.len() implies ts[sa.len() + j] == (#[trigger] msgs[j]).ts by {}
    // Every time is a slide time or a message time.
    assert forall|k: int| 0 <= k < ts.len() implies (exists|i: int|
        0 <= i < slides.len() && #[trigger] slides[i].last_modified == Some(#[trigger] ts[k])) || (exists|j: int|
        0 <= j < msgs.len() && #[trigger] msgs[j].ts == ts[k]) by {
        if k < sa.len() {
            lemma_filter_from(slides, pred, k);
            slides.lemma_filter_pred(pred, k);
            let i = choose|i: int| 0 <= i < slides.len() && slides[i] == f[k];
            assert(slides[i].last_modified == Some(ts[k]));
        } else {
            assert(msgs[k - sa.len()].ts == ts[k]);
        }
    }
    if ts.len() == 0 {
        assert forall|i: int| 0 <= i < slides.len() implies (#[trigger] slides[i]).last_modified is None by {
            if slides[i].last_modified is Some {
                slides.lemma_filter_contains(pred, i);
            }
        }
    } else {
        if msgs.len() == 0 {
            assert(sa.len() > 0);
            slides.lemma_filter_pred(pred, 0);
            lemma_filter_from(slides, pred, 0);
        }
    }
    match a.first_activity {
        Some(t) => {
            let k = choose|k: int| 0 <= k < ts.len() && ts[k] == t;
            assert forall|i: int|
                0 <= i < slides.len() && (#[trigger] slides[i]).last_modified is Some implies t
                    <= slides[i].last_modified->0 by {
                let k2 = choose|k2: int| 0 <= k2 < ts.len() && ts[k2] == slides[i].last_modified->0;
                assert(t <= ts[k2]);
            }
            assert forall|j: int| 0 <= j < msgs.len() implies t <= (#[trigger] msgs[j]).ts by {
                assert(t <= ts[sa.len() + j]);
            }
        },
        None => {},
    }
    match a.last_activity {
        Some(t) => {
            let k = choose|k: int| 0 <= k < ts.len() && ts[k] == t;
            assert forall|i: int|
                0 <= i < slides.len() && (#[trigger] slides[i]).last_modified is Some implies slides[i].last_modified->0
                    <= t by {
                let k2 = choose|k2: int| 0 <= k2 < ts.len() && ts[k2] == slides[i].last_modified->0;
                assert(ts[k2] <= t);
            }
            assert forall|j: int| 0 <= j < msgs.len() implies (#[trigger] msgs[j]).ts <= t by {
                assert(ts[sa.len() + j] <= t);
            }
        },
        None => {},
    }
}

} // verus!
