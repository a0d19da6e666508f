//! The identity-resolution projector: person candidates are extracted from
//! observations, matched across sources, and merged into resolved persons.

use vstd::prelude::*;
use vstd::string::*;

use crate::domain::json::{Json, JsonValue};
use crate::domain::observation::Observation;
use crate::domain::values::EntityRef;
use crate::governance::types::ConfidenceLevel;
use crate::identity::components::{
    as_ints, connected, labels_describe, lemma_identity_labels, lemma_labels_exact, lemma_relabel,
    relabel,
};
use crate::identity::types::{
    ident_model, CandidateStatus, IdentifierType, IdentityResolutionOutput, MatchType,
    PersonCandidate, PersonIdentifierRow, ResolutionCandidate, ResolvedPerson, SourceIdentifier,
};
use crate::projection::runner::Projector;
use crate::text::{
    concat2, concat3, contains_str, parse_usize, parse_usize_spec, spec_decimal, str_eq,
    strip_prefix, strip_prefix_spec, u128_to_decimal, usize_to_decimal, views,
};
use crate::trusted::{lowercase_of, to_lowercase, trim, trimmed};

verus! {

// ---------------------------------------------------------------------------
// Models
// ---------------------------------------------------------------------------

/// An identifier as (source, type, value).
pub type IdentModel = (Seq<char>, IdentifierType, Seq<char>);

/// The model of a person candidate.
pub struct CandidateModel {
    pub source: Seq<char>,
    pub identifiers: Seq<IdentModel>,
    pub display_name: Option<Seq<char>>,
}

pub open spec fn opt_view(o: Option<String>) -> Option<Seq<char>> {
    match o {
        Some(s) => Some(s@),
        None => None,
    }
}

pub open spec fn cand_model(c: PersonCandidate) -> CandidateModel {
    CandidateModel {
        source: c.source@,
        identifiers: c.identifiers@.map_values(|i: SourceIdentifier| ident_model(i)),
        display_name: opt_view(c.display_name),
    }
}

pub open spec fn cand_models(cs: Seq<PersonCandidate>) -> Seq<CandidateModel> {
    cs.map_values(|c: PersonCandidate| cand_model(c))
}

// ---------------------------------------------------------------------------
// Phase 1: candidate extraction
// ---------------------------------------------------------------------------

/// The Slack person behind a message payload: required `user_id`, then
/// the optional `email` and `user_name`.
pub open spec fn slack_candidate(p: Json) -> Option<CandidateModel> {
    match p.get_str("user_id"@) {
        None => None,
        Some(uid) => {
            let email = match p.get_str("email"@) {
                Some(e) => seq![("slack"@, IdentifierType::Email, e)],
                None => Seq::empty(),
            };
            let name = match p.get_str("user_name"@) {
                Some(n) => seq![("slack"@, IdentifierType::DisplayName, n)],
                None => Seq::empty(),
            };
            Some(
                CandidateModel {
                    source: "slack"@,
                    identifiers: seq![("slack"@, IdentifierType::UserId, uid)] + email + name,
                    display_name: p.get_str("user_name"@),
                },
            )
        },
    }
}

/// A Google person known by e-mail only.
pub open spec fn google_candidate(email: Seq<char>) -> CandidateModel {
    CandidateModel {
        source: "google"@,
        identifiers: seq![("google"@, IdentifierType::Email, email)],
        display_name: None,
    }
}

/// `relations.editors` of a payload, when it is an array.
pub open spec fn editors_of(p: Json) -> Seq<Json> {
    match p.get("relations"@) {
        Some(r) => match r.get("editors"@) {
            Some(Json::Array(items)) => items,
            _ => Seq::empty(),
        },
        None => Seq::empty(),
    }
}

/// `relations.owner` of a payload, when it is a string.
pub open spec fn owner_of(p: Json) -> Option<Seq<char>> {
    match p.get("relations"@) {
        Some(r) => r.get_str("owner"@),
        None => None,
    }
}

/// The lower-cased e-mails seen and the candidates made from the string
/// editors, each e-mail taken once (case-insensitively), in order.
pub open spec fn editor_candidates(items: Seq<Json>) -> (Seq<Seq<char>>, Seq<CandidateModel>)
    decreases items.len(),
{
    if items.len() == 0 {
        (Seq::empty(), Seq::empty())
    } else {
        let prev = editor_candidates(items.drop_last());
        match items.last() {
            Json::Str(e) => if prev.0.contains(lowercase_of(e)) {
                prev
            } else {
                (prev.0.push(lowercase_of(e)), prev.1.push(google_candidate(e)))
            },
            _ => prev,
        }
    }
}

/// The Google persons behind a slides snapshot: its editors, then its
/// owner unless already seen.
pub open spec fn gslides_candidates(p: Json) -> Seq<CandidateModel> {
    let eds = editor_candidates(editors_of(p));
    match owner_of(p) {
        Some(o) => if eds.0.contains(lowercase_of(o)) {
            eds.1
        } else {
            eds.1.push(google_candidate(o))
        },
        None => eds.1,
    }
}

/// The candidates one observation yields.
pub open spec fn observation_candidates(o: Observation) -> Seq<CandidateModel> {
    if o.schema@ == "schema:slack-message"@ {
        match slack_candidate(o.payload@) {
            Some(c) => seq![c],
            None => Seq::empty(),
        }
    } else if o.schema@ == "schema:workspace-object-snapshot"@ {
        gslides_candidates(o.payload@)
    } else {
        Seq::empty()
    }
}

/// The candidates of all observations, in order.
pub open spec fn extracted(obs: Seq<Observation>) -> Seq<CandidateModel>
    decreases obs.len(),
{
    if obs.len() == 0 {
        Seq::empty()
    } else {
        extracted(obs.drop_last()) + observation_candidates(obs.last())
    }
}

fn identifier(source: &str, t: IdentifierType, value: &str) -> (r: SourceIdentifier)
    ensures
        ident_model(r) == (source@, t, value@),
{
    SourceIdentifier {
        source: String::from_str(source),
        identifier_type: t,
        value: String::from_str(value),
    }
}

fn google(email: &str) -> (r: PersonCandidate)
    ensures
        cand_model(r) == google_candidate(email@),
{
    let ids = vec![identifier("google", IdentifierType::Email, email)];
    let r = PersonCandidate { source: String::from_str("google"), identifiers: ids, display_name: None };
    assert(cand_model(r).identifiers =~= google_candidate(email@).identifiers);
    r
}

// ---------------------------------------------------------------------------
// Phase 2 and 3 specifications
// ---------------------------------------------------------------------------

/// The matching key of an identifier: the lower-cased e-mail, or the
/// trimmed, lower-cased display name.
pub open spec fn ident_key(t: IdentifierType, value: Seq<char>) -> Seq<char> {
    if t == IdentifierType::Email {
        lowercase_of(value)
    } else {
        lowercase_of(trimmed(value))
    }
}

/// The (key, candidate index) entries of the first `m` identifiers of
/// candidate `c` at index `i` whose type is `t`.
pub open spec fn ident_entries(c: CandidateModel, i: nat, t: IdentifierType, m: nat) -> Seq<(Seq<char>, nat)>
    decreases m,
{
    if m == 0 || m > c.identifiers.len() {
        Seq::empty()
    } else {
        let prev = ident_entries(c, i, t, (m - 1) as nat);
        let id = c.identifiers[m - 1];
        if id.1 == t {
            prev.push((ident_key(t, id.2), i))
        } else {
            prev
        }
    }
}

/// The entries of type `t` of the first `n` candidates, in order.
pub open spec fn entries_of(cands: Seq<CandidateModel>, t: IdentifierType, n: nat) -> Seq<(Seq<char>, nat)>
    decreases n,
{
    if n == 0 || n > cands.len() {
        Seq::empty()
    } else {
        entries_of(cands, t, (n - 1) as nat) + ident_entries(
            cands[n - 1],
            (n - 1) as nat,
            t,
            cands[n - 1].identifiers.len(),
        )
    }
}

/// The distinct keys of the first `m` entries, in order of first
/// appearance.
pub open spec fn distinct_keys(es: Seq<(Seq<char>, nat)>, m: nat) -> Seq<Seq<char>>
    decreases m,
{
    if m == 0 || m > es.len() {
        Seq::empty()
    } else {
        let prev = distinct_keys(es, (m - 1) as nat);
        if prev.contains(es[m - 1].0) {
            prev
        } else {
            prev.push(es[m - 1].0)
        }
    }
}

/// The candidate indices of the first `m` entries with key `k`, in order.
pub open spec fn group_of(es: Seq<(Seq<char>, nat)>, k: Seq<char>, m: nat) -> Seq<nat>
    decreases m,
{
    if m == 0 || m > es.len() {
        Seq::empty()
    } else {
        let prev = group_of(es, k, (m - 1) as nat);
        if es[m - 1].0 == k {
            prev.push(es[m - 1].1)
        } else {
            prev
        }
    }
}

/// Pairs `(g[i], g[j])` for `i < j < m` whose candidates come from
/// different sources, in order of `j`.
pub open spec fn row_pairs(cands: Seq<CandidateModel>, g: Seq<nat>, i: nat, m: nat) -> Seq<(nat, nat)>
    decreases m,
{
    if m <= i + 1 || m > g.len() {
        Seq::empty()
    } else {
        let prev = row_pairs(cands, g, i, (m - 1) as nat);
        if cands[g[i as int] as int].source != cands[g[m - 1] as int].source {
            prev.push((g[i as int], g[m - 1]))
        } else {
            prev
        }
    }
}

/// The cross-source pairs of a group, rows `0..m`, in order.
pub open spec fn group_pairs(cands: Seq<CandidateModel>, g: Seq<nat>, m: nat) -> Seq<(nat, nat)>
    decreases m,
{
    if m == 0 || m > g.len() {
        Seq::empty()
    } else {
        group_pairs(cands, g, (m - 1) as nat) + row_pairs(cands, g, (m - 1) as nat, g.len())
    }
}

/// The cross-source pairs of the groups of the first `m` keys.
pub open spec fn keyed_pairs(
    cands: Seq<CandidateModel>,
    es: Seq<(Seq<char>, nat)>,
    keys: Seq<Seq<char>>,
    m: nat,
) -> Seq<(nat, nat)>
    decreases m,
{
    if m == 0 || m > keys.len() {
        Seq::empty()
    } else {
        let g = group_of(es, keys[m - 1], es.len());
        keyed_pairs(cands, es, keys, (m - 1) as nat) + group_pairs(cands, g, g.len())
    }
}

/// The candidate pairs that share a key of type `t` and come from
/// different sources: keys in order of first appearance, and within a
/// key, pairs in index order.
pub open spec fn match_pairs(cands: Seq<CandidateModel>, t: IdentifierType) -> Seq<(nat, nat)> {
    let es = entries_of(cands, t, cands.len());
    let keys = distinct_keys(es, es.len());
    keyed_pairs(cands, es, keys, keys.len())
}

/// The model of a resolution candidate.
pub struct MatchModel {
    pub candidate_id: Seq<char>,
    pub person_a_id: Seq<char>,
    pub person_b_id: Seq<char>,
    pub match_type: MatchType,
    pub confidence: ConfidenceLevel,
    pub status: CandidateStatus,
}

pub open spec fn match_model(m: ResolutionCandidate) -> MatchModel {
    MatchModel {
        candidate_id: m.candidate_id@,
        person_a_id: m.person_a_id@,
        person_b_id: m.person_b_id@,
        match_type: m.match_type,
        confidence: m.confidence,
        status: m.status,
    }
}

pub open spec fn match_models(ms: Seq<ResolutionCandidate>) -> Seq<MatchModel> {
    ms.map_values(|m: ResolutionCandidate| match_model(m))
}

/// The reference of candidate `i`.
pub open spec fn pc_ref(i: nat) -> Seq<char> {
    "pc:"@ + spec_decimal(i)
}

/// The pending match numbered `k` (from 1) for a pair.
pub open spec fn pair_match(k: nat, p: (nat, nat), t: MatchType, c: ConfidenceLevel) -> MatchModel {
    MatchModel {
        candidate_id: "rc:"@ + spec_decimal(k),
        person_a_id: pc_ref(p.0),
        person_b_id: pc_ref(p.1),
        match_type: t,
        confidence: c,
        status: CandidateStatus::Pending,
    }
}

/// E-mail pairs first (exact, high confidence), then display-name pairs
/// (fuzzy, medium confidence), numbered from 1.
pub open spec fn cross_matches(cands: Seq<CandidateModel>) -> Seq<MatchModel> {
    let emails = match_pairs(cands, IdentifierType::Email);
    let names = match_pairs(cands, IdentifierType::DisplayName);
    Seq::new(
        emails.len() + names.len(),
        |k: int|
            if k < emails.len() {
                pair_match((k + 1) as nat, emails[k], MatchType::EmailExact, ConfidenceLevel::High)
            } else {
                pair_match(
                    (k + 1) as nat,
                    names[k - emails.len()],
                    MatchType::NameFuzzy,
                    ConfidenceLevel::Medium,
                )
            },
    )
}

/// The candidate index a `pc:{index}` reference names.
pub open spec fn pc_index(s: Seq<char>) -> Option<nat> {
    match strip_prefix_spec(s, "pc:"@) {
        Some(rest) => parse_usize_spec(rest),
        None => None,
    }
}

/// Whether a match merges its two candidates: high confidence, or medium
/// confidence once accepted.
pub open spec fn merges(m: MatchModel) -> bool {
    m.confidence == ConfidenceLevel::High || (m.confidence == ConfidenceLevel::Medium && m.status
        == CandidateStatus::Accepted)
}

/// The edge a match names, when both references parse to candidates
/// below `n`.
pub open spec fn edge_of(m: MatchModel, n: nat) -> Option<(nat, nat)> {
    match (pc_index(m.person_a_id), pc_index(m.person_b_id)) {
        (Some(a), Some(b)) => if a < n && b < n {
            Some((a, b))
        } else {
            None
        },
        _ => None,
    }
}

/// The edges of the first `k` matches that merge.
pub open spec fn match_edges(ms: Seq<MatchModel>, n: nat, k: nat) -> Seq<(nat, nat)>
    decreases k,
{
    if k == 0 || k > ms.len() {
        Seq::empty()
    } else {
        let prev = match_edges(ms, n, (k - 1) as nat);
        if merges(ms[k - 1]) && edge_of(ms[k - 1], n) is Some {
            prev.push(edge_of(ms[k - 1], n)->0)
        } else {
            prev
        }
    }
}

/// The edges of the first `k` previously accepted candidates.
pub open spec fn accepted_edges(ms: Seq<MatchModel>, n: nat, k: nat) -> Seq<(nat, nat)>
    decreases k,
{
    if k == 0 || k > ms.len() {
        Seq::empty()
    } else {
        let prev = accepted_edges(ms, n, (k - 1) as nat);
        if ms[k - 1].status == CandidateStatus::Accepted && edge_of(ms[k - 1], n) is Some {
            prev.push(edge_of(ms[k - 1], n)->0)
        } else {
            prev
        }
    }
}

/// All merge edges: from the matches, then from the accepted candidates.
pub open spec fn merge_graph(matches: Seq<MatchModel>, accepted: Seq<MatchModel>, n: nat) -> Seq<(nat, nat)> {
    match_edges(matches, n, matches.len()) + accepted_edges(accepted, n, accepted.len())
}

/// `x` is the smallest node of its component.
pub open spec fn is_leader(n: nat, edges: Seq<(nat, nat)>, x: nat) -> bool {
    forall|y: nat| y < x ==> !#[trigger] connected(n, edges, y, x)
}

/// The smallest node of each component among `0..m`, ascending.
pub open spec fn leaders(n: nat, edges: Seq<(nat, nat)>, m: nat) -> Seq<nat>
    decreases m,
{
    if m == 0 {
        Seq::empty()
    } else {
        let prev = leaders(n, edges, (m - 1) as nat);
        if is_leader(n, edges, (m - 1) as nat) {
            prev.push((m - 1) as nat)
        } else {
            prev
        }
    }
}

/// The nodes among `0..m` connected to `x`, ascending.
pub open spec fn members(n: nat, edges: Seq<(nat, nat)>, x: nat, m: nat) -> Seq<nat>
    decreases m,
{
    if m == 0 {
        Seq::empty()
    } else {
        let prev = members(n, edges, x, (m - 1) as nat);
        if connected(n, edges, x, (m - 1) as nat) {
            prev.push((m - 1) as nat)
        } else {
            prev
        }
    }
}

/// What the members of a group contribute: sources, first display name,
/// display names and identifiers, each taken once, in member order.
pub struct GroupSummary {
    pub sources: Seq<Seq<char>>,
    pub canonical: Option<Seq<char>>,
    pub aliases: Seq<Seq<char>>,
    pub idents: Seq<IdentModel>,
}

/// `acc` followed by the first `m` identifiers of `ids` it lacks.
pub open spec fn add_idents(acc: Seq<IdentModel>, ids: Seq<IdentModel>, m: nat) -> Seq<IdentModel>
    decreases m,
{
    if m == 0 || m > ids.len() {
        acc
    } else {
        let prev = add_idents(acc, ids, (m - 1) as nat);
        if prev.contains(ids[m - 1]) {
            prev
        } else {
            prev.push(ids[m - 1])
        }
    }
}

pub open spec fn summary(cands: Seq<CandidateModel>, ms: Seq<nat>, m: nat) -> GroupSummary
    decreases m,
{
    if m == 0 || m > ms.len() {
        GroupSummary {
            sources: Seq::empty(),
            canonical: None,
            aliases: Seq::empty(),
            idents: Seq::empty(),
        }
    } else {
        let p = summary(cands, ms, (m - 1) as nat);
        let c = cands[ms[m - 1] as int];
        GroupSummary {
            sources: if p.sources.contains(c.source) {
                p.sources
            } else {
                p.sources.push(c.source)
            },
            canonical: if p.canonical is None {
                c.display_name
            } else {
                p.canonical
            },
            aliases: match c.display_name {
                Some(nm) => if p.aliases.contains(nm) {
                    p.aliases
                } else {
                    p.aliases.push(nm)
                },
                None => p.aliases,
            },
            idents: add_idents(p.idents, c.identifiers, c.identifiers.len()),
        }
    }
}

/// The model of a resolved person, without its resolution time.
pub struct PersonModel {
    pub person_id: Seq<char>,
    pub canonical_name: Seq<char>,
    pub aliases: Seq<Seq<char>>,
    pub identifiers: Seq<IdentModel>,
    pub confidence: ConfidenceLevel,
    pub sources: Seq<Seq<char>>,
    pub resolved_by: Seq<char>,
}

pub open spec fn person_model(p: ResolvedPerson) -> PersonModel {
    PersonModel {
        person_id: p.person_id@,
        canonical_name: p.canonical_name@,
        aliases: views(p.aliases@),
        identifiers: p.identifiers@.map_values(|i: SourceIdentifier| ident_model(i)),
        confidence: p.confidence,
        sources: views(p.sources@),
        resolved_by: p.resolved_by@,
    }
}

/// The `k`-th resolved person (from 1), made of the candidates `ms`.
pub open spec fn person_spec(cands: Seq<CandidateModel>, ms: Seq<nat>, k: nat, version: Seq<char>) -> PersonModel {
    let s = summary(cands, ms, ms.len());
    PersonModel {
        person_id: "person:resolved-"@ + spec_decimal(k),
        canonical_name: match s.canonical {
            Some(c) => c,
            None => "person-"@ + spec_decimal(k),
        },
        aliases: s.aliases,
        identifiers: s.idents,
        confidence: ConfidenceLevel::High,
        sources: s.sources,
        resolved_by: "projector:identity-resolution:v"@ + version,
    }
}

/// One resolved person per component, components in order of their
/// smallest candidate.
pub open spec fn resolved_spec(cands: Seq<CandidateModel>, edges: Seq<(nat, nat)>, version: Seq<char>) -> Seq<PersonModel> {
    let n = cands.len();
    let ls = leaders(n, edges, n);
    Seq::new(ls.len(), |i: int| person_spec(cands, members(n, edges, ls[i], n), (i + 1) as nat, version))
}

/// The model of an identifier row.
pub struct RowModel {
    pub identifier_id: Seq<char>,
    pub person_id: Seq<char>,
    pub source: Seq<char>,
    pub identifier_type: IdentifierType,
    pub identifier_value: Seq<char>,
}

pub open spec fn row_model(r: PersonIdentifierRow) -> RowModel {
    RowModel {
        identifier_id: r.identifier_id@,
        person_id: r.person_id@,
        source: r.source@,
        identifier_type: r.identifier_type,
        identifier_value: r.identifier_value@,
    }
}

/// The identifier rows of the `k`-th person.
pub open spec fn person_rows(p: PersonModel, k: nat) -> Seq<RowModel> {
    Seq::new(
        p.identifiers.len(),
        |idx: int|
            RowModel {
                identifier_id: "pi:"@ + spec_decimal(k) + ":"@ + spec_decimal(idx as nat),
                person_id: p.person_id,
                source: p.identifiers[idx].0,
                identifier_type: p.identifiers[idx].1,
                identifier_value: p.identifiers[idx].2,
            },
    )
}

/// The identifier rows of the first `m` persons.
pub open spec fn rows_spec(ps: Seq<PersonModel>, m: nat) -> Seq<RowModel>
    decreases m,
{
    if m == 0 || m > ps.len() {
        Seq::empty()
    } else {
        rows_spec(ps, (m - 1) as nat) + person_rows(ps[m - 1], m)
    }
}

/// The first `k` matches that still need a decision: not high confidence
/// and not accepted.
pub open spec fn unresolved(ms: Seq<MatchModel>, k: nat) -> Seq<MatchModel>
    decreases k,
{
    if k == 0 || k > ms.len() {
        Seq::empty()
    } else {
        let prev = unresolved(ms, (k - 1) as nat);
        if ms[k - 1].confidence != ConfidenceLevel::High && ms[k - 1].status
            != CandidateStatus::Accepted {
            prev.push(ms[k - 1])
        } else {
            prev
        }
    }
}

/// Appending a person leaves the rows of the earlier persons as they were.
pub proof fn lemma_rows_prefix(ps: Seq<PersonModel>, p: PersonModel, m: nat)
    requires
        m <= ps.len(),
    ensures
        rows_spec(ps.push(p), m) == rows_spec(ps, m),
    decreases m,
{
    if m > 0 {
        lemma_rows_prefix(ps, p, (m - 1) as nat);
        assert(ps.push(p)[m - 1] == ps[m - 1]);
    }
}

// ---------------------------------------------------------------------------
// The projector
// ---------------------------------------------------------------------------

/// The identity-resolution projector.
pub struct IdentityProjector {
    /// Candidates accepted earlier (from the supplemental store).
    accepted_candidates: Vec<ResolutionCandidate>,
    projector_version: String,
}

impl IdentityProjector {
    pub closed spec fn accepted(&self) -> Seq<MatchModel> {
        match_models(self.accepted_candidates@)
    }

    pub closed spec fn version(&self) -> Seq<char> {
        self.projector_version@
    }

    pub fn new(projector_version: &str) -> (r: Self)
        ensures
            r.accepted().len() == 0,
            r.version() == projector_version@,
    {
        IdentityProjector {
            accepted_candidates: Vec::new(),
            projector_version: String::from_str(projector_version),
        }
    }

    /// The projector with earlier accepted candidates to merge as well.
    pub fn with_accepted_candidates(self, candidates: Vec<ResolutionCandidate>) -> (r: Self)
        ensures
            r.accepted() == match_models(candidates@),
            r.version() == self.version(),
    {
        IdentityProjector { accepted_candidates: candidates, projector_version: self.projector_version }
    }

    /// Phase 1: the person candidates of the observations, in order.
    pub fn extract_candidates(observations: &[Observation]) -> (r: Vec<PersonCandidate>)
        ensures
            cand_models(r@) == extracted(observations@),
    {
        let mut out: Vec<PersonCandidate> = Vec::new();
        let mut i: usize = 0;
        while i < observations.len()
            invariant
                i <= observations@.len(),
                cand_models(out@) == extracted(observations@.take(i as int)),
            decreases observations@.len() - i,
        {
            let obs = &observations[i];
            let ghost before = cand_models(out@);
            assert(observations@.take(i + 1).drop_last() =~= observations@.take(i as int));
            if str_eq(obs.schema.as_str(), "schema:slack-message") {
                match Self::extract_slack_candidate(obs) {
                    Some(c) => {
                        out.push(c);
                    },
                    None => {},
                }
            } else if str_eq(obs.schema.as_str(), "schema:workspace-object-snapshot") {
                let more = Self::extract_gslides_candidates(obs);
                let mut k: usize = 0;
                while k < more.len()
                    invariant
                        k <= more@.len(),
                        cand_models(out@) == before + cand_models(more@).take(k as int),
                    decreases more@.len() - k,
                {
                    let ghost prev = out@;
                    let c = more[k].clone_candidate();
                    out.push(c);
                    assert(cand_models(out@) =~= cand_models(prev).push(cand_model(c)));
                    assert(cand_models(more@).take(k + 1) =~= cand_models(more@).take(k as int).push(
                        cand_model(more@[k as int]),
                    ));
                    assert(cand_models(out@) =~= before + cand_models(more@).take(k + 1));
                    k = k + 1;
                }
                assert(cand_models(more@).take(more@.len() as int) =~= cand_models(more@));
            }
            assert(cand_models(out@) =~= extracted(observations@.take(i + 1)));
            i = i + 1;
        }
        assert(observations@.take(observations@.len() as int) =~= observations@);
        out
    }

    fn extract_slack_candidate(obs: &Observation) -> (r: Option<PersonCandidate>)
        ensures
            match r {
                Some(c) => slack_candidate(obs.payload@) == Some(cand_model(c)),
                None => slack_candidate(obs.payload@) is None,
            },
    {
        let payload = &obs.payload;
        let user_id = match payload.get_str("user_id") {
            Some(u) => u,
            None => {
                return None;
            },
        };
        let user_name = payload.get_str("user_name");
        let email = payload.get_str("email");
        let mut identifiers = vec![identifier("slack", IdentifierType::UserId, user_id.as_str())];
        match email {
            Some(e) => {
                identifiers.push(identifier("slack", IdentifierType::Email, e.as_str()));
            },
            None => {},
        }
        match user_name {
            Some(n) => {
                identifiers.push(identifier("slack", IdentifierType::DisplayName, n.as_str()));
            },
            None => {},
        }
        let display_name = match user_name {
            Some(n) => Some(n.clone()),
            None => None,
        };
        let c = PersonCandidate { source: String::from_str("slack"), identifiers, display_name };
        assert(cand_model(c).identifiers =~= slack_candidate(obs.payload@)->0.identifiers);
        Some(c)
    }

    fn extract_gslides_candidates(obs: &Observation) -> (r: Vec<PersonCandidate>)
        ensures
            cand_models(r@) == gslides_candidates(obs.payload@),
    {
        let payload = &obs.payload;
        let mut seen: Vec<String> = Vec::new();
        let mut out: Vec<PersonCandidate> = Vec::new();
        let ghost p = payload@;
        let editors: Option<&Vec<JsonValue>> = match payload.get("relations") {
            Some(rel) => match rel.get("editors") {
                Some(e) => e.as_array(),
                None => None,
            },
            None => None,
        };
        let ghost items: Seq<Json> = editors_of(p);
        match editors {
            Some(list) => {
                assert(items.len() == list@.len());
                let mut i: usize = 0;
                assert(items.take(0) =~= Seq::<Json>::empty());
                while i < list.len()
                    invariant
                        i <= list@.len(),
                        items.len() == list@.len(),
                        forall|k: int| 0 <= k < list@.len() ==> #[trigger] items[k] == list@[k]@,
                        views(seen@) == editor_candidates(items.take(i as int)).0,
                        cand_models(out@) == editor_candidates(items.take(i as int)).1,
                    decreases list@.len() - i,
                {
                    assert(items.take(i + 1).drop_last() =~= items.take(i as int));
                    assert(items.take(i + 1).last() == list@[i as int]@);
                    match list[i].as_str() {
                        Some(email) => {
                            let lower = to_lowercase(email.as_str());
                            if !contains_str(&seen, lower.as_str()) {
                                seen.push(lower);
                                out.push(google(email.as_str()));
                                assert(views(seen@) =~= editor_candidates(items.take(i + 1)).0);
                                assert(cand_models(out@) =~= editor_candidates(items.take(i + 1)).1);
                            }
                        },
                        None => {},
                    }
                    i = i + 1;
                }
                assert(items.take(list@.len() as int) =~= items);
            },
            None => {
                assert(items =~= Seq::<Json>::empty());
                assert(views(seen@) =~= editor_candidates(items).0);
                assert(cand_models(out@) =~= editor_candidates(items).1);
            },
        }
        let owner: Option<&String> = match payload.get("relations") {
            Some(rel) => rel.get_str("owner"),
            None => None,
        };
        match owner {
            Some(o) => {
                let lower = to_lowercase(o.as_str());
                if !contains_str(&seen, lower.as_str()) {
                    out.push(google(o.as_str()));
                    assert(cand_models(out@) =~= gslides_candidates(p));
                }
            },
            None => {},
        }
        out
    }

    /// Phase 2: cross-source matching. Candidates from different sources
    /// that share a lower-cased e-mail are exact, high-confidence matches;
    /// those that share a trimmed, lower-cased display name are fuzzy,
    /// medium-confidence ones. All are pending.
    pub fn cross_source_match(candidates: &[PersonCandidate]) -> (r: Vec<ResolutionCandidate>)
        ensures
            match_models(r@) == cross_matches(cand_models(candidates@)),
    {
        let ghost cm = cand_models(candidates@);
        let emails = Self::pairs_of_type(candidates, IdentifierType::Email);
        let names = Self::pairs_of_type(candidates, IdentifierType::DisplayName);
        let ghost target = cross_matches(cm);
        let ghost ep = match_pairs(cm, IdentifierType::Email);
        let ghost np = match_pairs(cm, IdentifierType::DisplayName);
        let mut out: Vec<ResolutionCandidate> = Vec::new();
        let mut i: usize = 0;
        while i < emails.len()
            invariant
                i <= emails@.len(),
                emails@.len() == ep.len(),
                forall|k: int| 0 <= k < ep.len() ==> #[trigger] ep[k] == (emails@[k].0 as nat, emails@[k].1 as nat),
                target == cross_matches(cm),
                ep == match_pairs(cm, IdentifierType::Email),
                np == match_pairs(cm, IdentifierType::DisplayName),
                out@.len() == i,
                forall|k: int| 0 <= k < i ==> #[trigger] match_model(out@[k]) == target[k],
            decreases emails@.len() - i,
        {
            let m = Self::pending_match(
                i as u128 + 1,
                emails[i].0,
                emails[i].1,
                MatchType::EmailExact,
                ConfidenceLevel::High,
            );
            out.push(m);
            i = i + 1;
        }
        let mut j: usize = 0;
        while j < names.len()
            invariant
                j <= names@.len(),
                names@.len() == np.len(),
                emails@.len() == ep.len(),
                forall|k: int| 0 <= k < np.len() ==> #[trigger] np[k] == (names@[k].0 as nat, names@[k].1 as nat),
                target == cross_matches(cm),
                ep == match_pairs(cm, IdentifierType::Email),
                np == match_pairs(cm, IdentifierType::DisplayName),
                out@.len() == emails@.len() + j,
                forall|k: int| 0 <= k < out@.len() ==> #[trigger] match_model(out@[k]) == target[k],
            decreases names@.len() - j,
        {
            let m = Self::pending_match(
                emails.len() as u128 + j as u128 + 1,
                names[j].0,
                names[j].1,
                MatchType::NameFuzzy,
                ConfidenceLevel::Medium,
            );
            out.push(m);
            j = j + 1;
        }
        assert(match_models(out@) =~= target);
        out
    }

    fn pending_match(
        number: u128,
        a: usize,
        b: usize,
        match_type: MatchType,
        confidence: ConfidenceLevel,
    ) -> (r: ResolutionCandidate)
        ensures
            match_model(r) == pair_match(number as nat, (a as nat, b as nat), match_type, confidence),
    {
        ResolutionCandidate {
            candidate_id: concat2("rc:", u128_to_decimal(number).as_str()),
            person_a_id: concat2("pc:", usize_to_decimal(a).as_str()),
            person_b_id: concat2("pc:", usize_to_decimal(b).as_str()),
            match_type,
            confidence,
            status: CandidateStatus::Pending,
        }
    }

    /// The matching key of an identifier.
    fn key_of(ident: &SourceIdentifier) -> (r: String)
        ensures
            r@ == ident_key(ident.identifier_type, ident.value@),
    {
        match ident.identifier_type {
            IdentifierType::Email => to_lowercase(ident.value.as_str()),
            _ => Self::normalize_name(ident.value.as_str()),
        }
    }

    /// A display name as matching compares it: trimmed and lower-cased.
    fn normalize_name(name: &str) -> (r: String)
        ensures
            r@ == lowercase_of(trimmed(name@)),
    {
        to_lowercase(trim(name))
    }

    /// The cross-source pairs that share a key of type `t`.
    fn pairs_of_type(candidates: &[PersonCandidate], t: IdentifierType) -> (r: Vec<(usize, usize)>)
        ensures
            r@.len() == match_pairs(cand_models(candidates@), t).len(),
            forall|k: int| 0 <= k < r@.len() ==> (#[trigger] r@[k].0 as nat, r@[k].1 as nat) == match_pairs(
                cand_models(candidates@),
                t,
            )[k],
    {
        let ghost cm = cand_models(candidates@);
        // Entries: (key, candidate index).
        let mut entries: Vec<(String, usize)> = Vec::new();
        let mut i: usize = 0;
        while i < candidates.len()
            invariant
                i <= candidates@.len(),
                cm == cand_models(candidates@),
                entries@.map_values(|e: (String, usize)| (e.0@, e.1 as nat)) == entries_of(cm, t, i as nat),
                forall|k: int| 0 <= k < entries@.len() ==> #[trigger] entries@[k].1 < i,
            decreases candidates@.len() - i,
        {
            let c = &candidates[i];
            let ghost base = entries_of(cm, t, i as nat);
            let mut j: usize = 0;
            while j < c.identifiers.len()
                invariant
                    i < candidates@.len(),
                    j <= c.identifiers@.len(),
                    *c == candidates@[i as int],
                    cm == cand_models(candidates@),
                    base == entries_of(cm, t, i as nat),
                    entries@.map_values(|e: (String, usize)| (e.0@, e.1 as nat)) == base + ident_entries(
                        cm[i as int],
                        i as nat,
                        t,
                        j as nat,
                    ),
                    forall|k: int| 0 <= k < entries@.len() ==> #[trigger] entries@[k].1 <= i,
                decreases c.identifiers@.len() - j,
            {
                let ident = &c.identifiers[j];
                assert(cm[i as int].identifiers[j as int] == ident_model(*ident));
                if ident.identifier_type == t {
                    let key = Self::key_of(ident);
                    let ghost prev = entries@;
                    entries.push((key, i));
                    assert(entries@.map_values(|e: (String, usize)| (e.0@, e.1 as nat)) =~= prev.map_values(
                        |e: (String, usize)| (e.0@, e.1 as nat),
                    ).push((ident_key(t, ident.value@), i as nat)));
                }
                j = j + 1;
            }
            assert(entries_of(cm, t, (i + 1) as nat) == base + ident_entries(
                cm[i as int],
                i as nat,
                t,
                cm[i as int].identifiers.len(),
            ));
            i = i + 1;
        }
        let ghost es = entries_of(cm, t, cm.len());
        assert(entries@.map_values(|e: (String, usize)| (e.0@, e.1 as nat)) == es);
        // Distinct keys, in order of first appearance.
        let mut keys: Vec<String> = Vec::new();
        let mut m: usize = 0;
        while m < entries.len()
            invariant
                m <= entries@.len(),
                entries@.map_values(|e: (String, usize)| (e.0@, e.1 as nat)) == es,
                views(keys@) == distinct_keys(es, m as nat),
            decreases entries@.len() - m,
        {
            assert(es[m as int] == (entries@[m as int].0@, entries@[m as int].1 as nat));
            if !contains_str(&keys, entries[m].0.as_str()) {
                let ghost prev = keys@;
                keys.push(entries[m].0.clone());
                assert(views(keys@) =~= views(prev).push(entries@[m as int].0@));
            }
            m = m + 1;
        }
        let ghost ks = distinct_keys(es, es.len());
        // Pairs, key by key.
        let mut out: Vec<(usize, usize)> = Vec::new();
        let mut q: usize = 0;
        while q < keys.len()
            invariant
                q <= keys@.len(),
                views(keys@) == ks,
                cm == cand_models(candidates@),
                entries@.map_values(|e: (String, usize)| (e.0@, e.1 as nat)) == es,
                forall|k: int| 0 <= k < entries@.len() ==> #[trigger] entries@[k].1 < candidates@.len(),
                out@.map_values(|p: (usize, usize)| (p.0 as nat, p.1 as nat)) == keyed_pairs(cm, es, ks, q as nat),
            decreases keys@.len() - q,
        {
            let ghost key = ks[q as int];
            assert(views(keys@)[q as int] == keys@[q as int]@);
            let mut g: Vec<usize> = Vec::new();
            let mut e: usize = 0;
            while e < entries.len()
                invariant
                    e <= entries@.len(),
                    q < keys@.len(),
                    key == keys@[q as int]@,
                    entries@.map_values(|e: (String, usize)| (e.0@, e.1 as nat)) == es,
                    forall|k: int| 0 <= k < entries@.len() ==> #[trigger] entries@[k].1 < candidates@.len(),
                    g@.map_values(|x: usize| x as nat) == group_of(es, key, e as nat),
                    forall|k: int| 0 <= k < g@.len() ==> #[trigger] g@[k] < candidates@.len(),
                decreases entries@.len() - e,
            {
                assert(es[e as int] == (entries@[e as int].0@, entries@[e as int].1 as nat));
                if str_eq(entries[e].0.as_str(), keys[q].as_str()) {
                    let ghost prev = g@;
                    g.push(entries[e].1);
                    assert(g@.map_values(|x: usize| x as nat) =~= prev.map_values(|x: usize| x as nat).push(
                        entries@[e as int].1 as nat,
                    ));
                }
                e = e + 1;
            }
            let ghost gm = g@.map_values(|x: usize| x as nat);
            let ghost before_q = keyed_pairs(cm, es, ks, q as nat);
            let mut a: usize = 0;
            while a < g.len()
                invariant
                    a <= g@.len(),
                    gm == g@.map_values(|x: usize| x as nat),
                    cm == cand_models(candidates@),
                    forall|k: int| 0 <= k < g@.len() ==> #[trigger] g@[k] < candidates@.len(),
                    out@.map_values(|p: (usize, usize)| (p.0 as nat, p.1 as nat)) == before_q + group_pairs(
                        cm,
                        gm,
                        a as nat,
                    ),
                decreases g@.len() - a,
            {
                let ghost before_a = before_q + group_pairs(cm, gm, a as nat);
                let mut b: usize = a + 1;
                while b < g.len()
                    invariant
                        a < b <= g@.len(),
                        gm == g@.map_values(|x: usize| x as nat),
                        cm == cand_models(candidates@),
                        forall|k: int| 0 <= k < g@.len() ==> #[trigger] g@[k] < candidates@.len(),
                        out@.map_values(|p: (usize, usize)| (p.0 as nat, p.1 as nat)) == before_a + row_pairs(
                            cm,
                            gm,
                            a as nat,
                            b as nat,
                        ),
                    decreases g@.len() - b,
                {
                    let sa = candidates[g[a]].source.as_str();
                    let sb = candidates[g[b]].source.as_str();
                    assert(cm[g@[a as int] as int].source == sa@);
                    assert(cm[g@[b as int] as int].source == sb@);
                    if !str_eq(sa, sb) {
                        let ghost prev = out@;
                        out.push((g[a], g[b]));
                        assert(out@.map_values(|p: (usize, usize)| (p.0 as nat, p.1 as nat)) =~= prev.map_values(
                            |p: (usize, usize)| (p.0 as nat, p.1 as nat),
                        ).push((g@[a as int] as nat, g@[b as int] as nat)));
                    }
                    b = b + 1;
                }
                assert(before_q + group_pairs(cm, gm, (a + 1) as nat) =~= before_a + row_pairs(
                    cm,
                    gm,
                    a as nat,
                    gm.len(),
                ));
                a = a + 1;
            }
            assert(keyed_pairs(cm, es, ks, (q + 1) as nat) =~= before_q + group_pairs(cm, gm, gm.len()));
            q = q + 1;
        }
        proof {
            let target = match_pairs(cm, t);
            assert(out@.map_values(|p: (usize, usize)| (p.0 as nat, p.1 as nat)) == target);
            assert forall|k: int| 0 <= k < out@.len() implies (#[trigger] out@[k].0 as nat, out@[k].1 as nat)
                == target[k] by {
                assert(out@.map_values(|p: (usize, usize)| (p.0 as nat, p.1 as nat))[k] == (
                    out@[k].0 as nat,
                    out@[k].1 as nat,
                ));
            }
        }
        out
    }

    /// Phase 3: the resolution graph. High-confidence matches, accepted
    /// medium-confidence matches and previously accepted candidates join
    /// their candidates; each connected group becomes one resolved person
    /// (groups in order of their first candidate), with its identifiers as
    /// rows; matches neither high-confidence nor accepted stay candidates.
    /// Every person carries `resolved_at` as its resolution time, so the
    /// output is a function of the arguments alone.
    pub fn resolve(
        &self,
        candidates: &[PersonCandidate],
        matches: &[ResolutionCandidate],
        resolved_at: i64,
    ) -> (r: IdentityResolutionOutput)
        ensures
            r.resolved_persons@.map_values(|p: ResolvedPerson| person_model(p)) == resolved_spec(
                cand_models(candidates@),
                merge_graph(match_models(matches@), self.accepted(), candidates@.len()),
                self.version(),
            ),
            forall|i: int|
                0 <= i < r.resolved_persons@.len() ==> (#[trigger] r.resolved_persons@[i]).resolved_at
                    == resolved_at,
            r.person_identifiers@.map_values(|row: PersonIdentifierRow| row_model(row)) == rows_spec(
                resolved_spec(
                    cand_models(candidates@),
                    merge_graph(match_models(matches@), self.accepted(), candidates@.len()),
                    self.version(),
                ),
                r.resolved_persons@.len(),
            ),
            match_models(r.candidates@) == unresolved(match_models(matches@), matches@.len()),
            resolution_of(*self, candidates@, matches@, resolved_at, r),
    {
        let n = candidates.len();
        let ghost nn = n as nat;
        let ghost cm = cand_models(candidates@);
        let ghost mm = match_models(matches@);
        let ghost am = self.accepted();
        // Every candidate starts in its own component.
        let mut labels: Vec<usize> = Vec::new();
        let mut i: usize = 0;
        while i < n
            invariant
                i <= n,
                labels@.len() == i,
                forall|k: int| 0 <= k < i ==> #[trigger] labels@[k] == k,
            decreases n - i,
        {
            labels.push(i);
            i = i + 1;
        }
        proof {
            lemma_identity_labels(labels@, nn);
        }
        // Merge the matches that merge.
        let mut i: usize = 0;
        while i < matches.len()
            invariant
                i <= matches@.len(),
                n == candidates@.len(),
                nn == n,
                mm == match_models(matches@),
                labels_describe(labels@, nn, match_edges(mm, nn, i as nat)),
            decreases matches@.len() - i,
        {
            let m = &matches[i];
            assert(mm[i as int] == match_model(*m));
            let high = match m.confidence {
                ConfidenceLevel::High => true,
                _ => false,
            };
            let accepted_medium = match (m.confidence, m.status) {
                (ConfidenceLevel::Medium, CandidateStatus::Accepted) => true,
                _ => false,
            };
            if high || accepted_medium {
                Self::merge_edge(&mut labels, m, n, Ghost(match_edges(mm, nn, i as nat)));
            }
            i = i + 1;
        }
        let ghost base = match_edges(mm, nn, mm.len());
        let mut j: usize = 0;
        assert(base + accepted_edges(am, nn, 0) =~= base);
        while j < self.accepted_candidates.len()
            invariant
                j <= self.accepted_candidates@.len(),
                n == candidates@.len(),
                nn == n,
                am == self.accepted(),
                base == match_edges(mm, nn, mm.len()),
                labels_describe(labels@, nn, base + accepted_edges(am, nn, j as nat)),
            decreases self.accepted_candidates@.len() - j,
        {
            let ac = &self.accepted_candidates[j];
            assert(am[j as int] == match_model(*ac));
            let is_accepted = match ac.status {
                CandidateStatus::Accepted => true,
                _ => false,
            };
            let ghost prev = accepted_edges(am, nn, j as nat);
            if is_accepted {
                Self::merge_edge(&mut labels, ac, n, Ghost(base + prev));
                proof {
                    match edge_of(match_model(*ac), nn) {
                        Some(e) => {
                            assert((base + prev).push(e) =~= base + prev.push(e));
                        },
                        None => {},
                    }
                }
            }
            j = j + 1;
        }
        let ghost edges = merge_graph(mm, am, nn);
        assert(edges == base + accepted_edges(am, nn, am.len()));
        let ghost target = resolved_spec(cm, edges, self.version());
        // One person per component.
        let now = resolved_at;
        let mut persons: Vec<ResolvedPerson> = Vec::new();
        let mut rows: Vec<PersonIdentifierRow> = Vec::new();
        let mut x: usize = 0;
        while x < n
            invariant
                x <= n,
                n == candidates@.len(),
                nn == n,
                cm == cand_models(candidates@),
                labels_describe(labels@, nn, edges),
                persons@.len() == leaders(nn, edges, x as nat).len(),
                forall|k: int|
                    0 <= k < persons@.len() ==> #[trigger] person_model(persons@[k]) == person_spec(
                        cm,
                        members(nn, edges, leaders(nn, edges, x as nat)[k], nn),
                        (k + 1) as nat,
                        self.version(),
                    ) && persons@[k].resolved_at == now,
                rows@.map_values(|row: PersonIdentifierRow| row_model(row)) == rows_spec(
                    persons@.map_values(|p: ResolvedPerson| person_model(p)),
                    persons@.len(),
                ),
            decreases n - x,
        {
            // Is x the smallest node of its component?
            let mut leader = true;
            let mut y: usize = 0;
            while y < x
                invariant
                    y <= x < n,
                    nn == n,
                    labels_describe(labels@, nn, edges),
                    leader == forall|z: nat| z < y ==> !#[trigger] connected(nn, edges, z, x as nat),
                decreases x - y,
            {
                proof {
                    lemma_labels_exact(labels@, nn, edges, y as nat, x as nat);
                }
                if labels[y] == labels[x] {
                    leader = false;
                }
                y = y + 1;
            }
            let ghost lx = leaders(nn, edges, x as nat);
            assert(leaders(nn, edges, (x + 1) as nat) == if leader {
                lx.push(x as nat)
            } else {
                lx
            });
            if leader {
                let mut ms: Vec<usize> = Vec::new();
                let mut y: usize = 0;
                while y < n
                    invariant
                        y <= n,
                        x < n,
                        nn == n,
                        labels_describe(labels@, nn, edges),
                        ms@.map_values(|v: usize| v as nat) == members(nn, edges, x as nat, y as nat),
                        forall|k: int| 0 <= k < ms@.len() ==> #[trigger] ms@[k] < n,
                    decreases n - y,
                {
                    proof {
                        lemma_labels_exact(labels@, nn, edges, x as nat, y as nat);
                    }
                    if labels[y] == labels[x] {
                        let ghost prev = ms@;
                        ms.push(y);
                        assert(ms@.map_values(|v: usize| v as nat) =~= prev.map_values(|v: usize| v as nat).push(
                            y as nat,
                        ));
                    }
                    y = y + 1;
                }
                let number = persons.len() as u128 + 1;
                let ghost pm_before = persons@.map_values(|p: ResolvedPerson| person_model(p));
                let person = self.make_person(candidates, &ms, number, now);
                let ghost pmodel = person_model(person);
                Self::push_rows(&mut rows, &person, number, Ghost(pm_before));
                persons.push(person);
                proof {
                    assert(persons@.map_values(|p: ResolvedPerson| person_model(p)) =~= pm_before.push(pmodel));
                    let lx1 = leaders(nn, edges, (x + 1) as nat);
                    assert forall|k: int|
                        0 <= k < persons@.len() implies #[trigger] person_model(persons@[k]) == person_spec(
                        cm,
                        members(nn, edges, lx1[k], nn),
                        (k + 1) as nat,
                        self.version(),
                    ) && persons@[k].resolved_at == now by {
                        if k < persons@.len() - 1 {
                            assert(lx1[k] == lx[k]);
                        }
                    }
                }
            }
            x = x + 1;
        }
        proof {
            assert(persons@.map_values(|p: ResolvedPerson| person_model(p)) =~= target);
            assert forall|k: int| 0 <= k < persons@.len() implies (#[trigger] persons@[k]).resolved_at
                == now by {
                assert(person_model(persons@[k]) == person_spec(
                    cm,
                    members(nn, edges, leaders(nn, edges, n as nat)[k], nn),
                    (k + 1) as nat,
                    self.version(),
                ));
            }
        }
        // Matches still awaiting a decision.
        let mut open: Vec<ResolutionCandidate> = Vec::new();
        let mut k: usize = 0;
        while k < matches.len()
            invariant
                k <= matches@.len(),
                mm == match_models(matches@),
                match_models(open@) == unresolved(mm, k as nat),
            decreases matches@.len() - k,
        {
            let m = &matches[k];
            assert(mm[k as int] == match_model(*m));
            let high = match m.confidence {
                ConfidenceLevel::High => true,
                _ => false,
            };
            let accepted = match m.status {
                CandidateStatus::Accepted => true,
                _ => false,
            };
            if !high && !accepted {
                let ghost prev = open@;
                let d = m.duplicate();
                open.push(d);
                assert(match_models(open@) =~= match_models(prev).push(match_model(d)));
            }
            k = k + 1;
        }
        IdentityResolutionOutput { resolved_persons: persons, candidates: open, person_identifiers: rows }
    }

    /// Joins the two candidates a match names, when both are below `n`.
    fn merge_edge(labels: &mut Vec<usize>, m: &ResolutionCandidate, n: usize, Ghost(edges): Ghost<Seq<(nat, nat)>>)
        requires
            labels_describe(old(labels)@, n as nat, edges),
        ensures
            labels_describe(
                final(labels)@,
                n as nat,
                match edge_of(match_model(*m), n as nat) {
                    Some(e) => edges.push(e),
                    None => edges,
                },
            ),
    {
        let a = Self::parse_pc_index(m.person_a_id.as_str());
        let b = Self::parse_pc_index(m.person_b_id.as_str());
        match (a, b) {
            (Some(a), Some(b)) => {
                if a < n && b < n {
                    let ghost before = labels@;
                    let la = labels[a];
                    let lb = labels[b];
                    relabel(labels, lb, la);
                    proof {
                        lemma_relabel(before, labels@, n as nat, edges, a as nat, b as nat);
                    }
                }
            },
            _ => {},
        }
    }

    /// The `number`-th resolved person, made of the candidates `ms`.
    fn make_person(&self, candidates: &[PersonCandidate], ms: &Vec<usize>, number: u128, now: i64) -> (r:
        ResolvedPerson)
        requires
            forall|k: int| 0 <= k < ms@.len() ==> #[trigger] ms@[k] < candidates@.len(),
        ensures
            person_model(r) == person_spec(
                cand_models(candidates@),
                ms@.map_values(|v: usize| v as nat),
                number as nat,
                self.version(),
            ),
            r.resolved_at == now,
    {
        let (sources, canonical, aliases, identifiers) = Self::summarize(candidates, ms);
        let digits = u128_to_decimal(number);
        let person_id = EntityRef(concat2("person:resolved-", digits.as_str()));
        let canonical_name = match canonical {
            Some(c) => c,
            None => concat2("person-", digits.as_str()),
        };
        let resolved_by = concat2("projector:identity-resolution:v", self.projector_version.as_str());
        ResolvedPerson {
            person_id,
            canonical_name,
            aliases,
            identifiers,
            confidence: ConfidenceLevel::High,
            sources,
            resolved_at: now,
            resolved_by,
        }
    }

    /// What the members of a group contribute, in member order.
    fn summarize(candidates: &[PersonCandidate], ms: &Vec<usize>) -> (r: (
        Vec<String>,
        Option<String>,
        Vec<String>,
        Vec<SourceIdentifier>,
    ))
        requires
            forall|k: int| 0 <= k < ms@.len() ==> #[trigger] ms@[k] < candidates@.len(),
        ensures
            ({
                let s = summary(cand_models(candidates@), ms@.map_values(|v: usize| v as nat), ms@.len());
                &&& views(r.0@) == s.sources
                &&& opt_view(r.1) == s.canonical
                &&& views(r.2@) == s.aliases
                &&& r.3@.map_values(|i: SourceIdentifier| ident_model(i)) == s.idents
            }),
    {
        let ghost cm = cand_models(candidates@);
        let ghost msn = ms@.map_values(|v: usize| v as nat);
        let mut sources: Vec<String> = Vec::new();
        let mut canonical: Option<String> = None;
        let mut aliases: Vec<String> = Vec::new();
        let mut idents: Vec<SourceIdentifier> = Vec::new();
        let mut j: usize = 0;
        while j < ms.len()
            invariant
                j <= ms@.len(),
                cm == cand_models(candidates@),
                msn == ms@.map_values(|v: usize| v as nat),
                forall|k: int| 0 <= k < ms@.len() ==> #[trigger] ms@[k] < candidates@.len(),
                ({
                    let s = summary(cm, msn, j as nat);
                    &&& views(sources@) == s.sources
                    &&& opt_view(canonical) == s.canonical
                    &&& views(aliases@) == s.aliases
                    &&& idents@.map_values(|i: SourceIdentifier| ident_model(i)) == s.idents
                }),
            decreases ms@.len() - j,
        {
            let c = &candidates[ms[j]];
            assert(cm[msn[j as int] as int] == cand_model(*c));
            if !contains_str(&sources, c.source.as_str()) {
                let ghost prev = sources@;
                sources.push(c.source.clone());
                assert(views(sources@) =~= views(prev).push(c.source@));
            }
            if canonical.is_none() {
                canonical = match &c.display_name {
                    Some(nm) => Some(nm.clone()),
                    None => None,
                };
            }
            match &c.display_name {
                Some(nm) => {
                    if !contains_str(&aliases, nm.as_str()) {
                        let ghost prev = aliases@;
                        aliases.push(nm.clone());
                        assert(views(aliases@) =~= views(prev).push(nm@));
                    }
                },
                None => {},
            }
            Self::add_identifiers(&mut idents, &c.identifiers);
            j = j + 1;
        }
        (sources, canonical, aliases, idents)
    }

    /// Appends the identifiers of `ids` that `acc` lacks, in order.
    fn add_identifiers(acc: &mut Vec<SourceIdentifier>, ids: &Vec<SourceIdentifier>)
        ensures
            final(acc)@.map_values(|i: SourceIdentifier| ident_model(i)) == add_idents(
                old(acc)@.map_values(|i: SourceIdentifier| ident_model(i)),
                ids@.map_values(|i: SourceIdentifier| ident_model(i)),
                ids@.len(),
            ),
    {
        let ghost start = acc@.map_values(|i: SourceIdentifier| ident_model(i));
        let ghost idm = ids@.map_values(|i: SourceIdentifier| ident_model(i));
        let mut k: usize = 0;
        while k < ids.len()
            invariant
                k <= ids@.len(),
                idm == ids@.map_values(|i: SourceIdentifier| ident_model(i)),
                acc@.map_values(|i: SourceIdentifier| ident_model(i)) == add_idents(start, idm, k as nat),
            decreases ids@.len() - k,
        {
            let ident = &ids[k];
            assert(idm[k as int] == ident_model(*ident));
            if !Self::contains_ident(acc, ident) {
                let ghost prev = acc@;
                acc.push(ident.duplicate());
                assert(acc@.map_values(|i: SourceIdentifier| ident_model(i)) =~= prev.map_values(
                    |i: SourceIdentifier| ident_model(i),
                ).push(ident_model(*ident)));
            }
            k = k + 1;
        }
    }

    fn contains_ident(v: &Vec<SourceIdentifier>, x: &SourceIdentifier) -> (r: bool)
        ensures
            r == v@.map_values(|i: SourceIdentifier| ident_model(i)).contains(ident_model(*x)),
    {
        let ghost vm = v@.map_values(|i: SourceIdentifier| ident_model(i));
        let mut i: usize = 0;
        while i < v.len()
            invariant
                i <= v@.len(),
                vm == v@.map_values(|i: SourceIdentifier| ident_model(i)),
                forall|j: int| 0 <= j < i ==> vm[j] != ident_model(*x),
            decreases v@.len() - i,
        {
            assert(vm[i as int] == ident_model(v@[i as int]));
            if v[i].same_as(x) {
                return true;
            }
            i = i + 1;
        }
        false
    }

    /// Appends the identifier rows of the `number`-th person.
    fn push_rows(
        rows: &mut Vec<PersonIdentifierRow>,
        person: &ResolvedPerson,
        number: u128,
        Ghost(earlier): Ghost<Seq<PersonModel>>,
    )
        requires
            number == earlier.len() + 1,
            old(rows)@.map_values(|row: PersonIdentifierRow| row_model(row)) == rows_spec(earlier, earlier.len()),
        ensures
            final(rows)@.map_values(|row: PersonIdentifierRow| row_model(row)) == rows_spec(
                earlier.push(person_model(*person)),
                earlier.len() + 1,
            ),
    {
        let ghost pm = person_model(*person);
        let ghost start = rows@.map_values(|row: PersonIdentifierRow| row_model(row));
        let prefix = concat3("pi:", u128_to_decimal(number).as_str(), ":");
        let mut idx: usize = 0;
        while idx < person.identifiers.len()
            invariant
                idx <= person.identifiers@.len(),
                pm == person_model(*person),
                prefix@ == "pi:"@ + spec_decimal(number as nat) + ":"@,
                rows@.map_values(|row: PersonIdentifierRow| row_model(row)) == start + person_rows(
                    pm,
                    number as nat,
                ).take(idx as int),
            decreases person.identifiers@.len() - idx,
        {
            let ident = &person.identifiers[idx];
            assert(pm.identifiers[idx as int] == ident_model(*ident));
            let row = PersonIdentifierRow {
                identifier_id: concat2(prefix.as_str(), usize_to_decimal(idx).as_str()),
                person_id: person.person_id.duplicate(),
                source: ident.source.clone(),
                identifier_type: ident.identifier_type,
                identifier_value: ident.value.clone(),
            };
            let ghost prev = rows@;
            rows.push(row);
            assert(person_rows(pm, number as nat).take(idx + 1) =~= person_rows(pm, number as nat).take(
                idx as int,
            ).push(row_model(row)));
            assert(rows@.map_values(|row: PersonIdentifierRow| row_model(row)) =~= prev.map_values(
                |row: PersonIdentifierRow| row_model(row),
            ).push(row_model(row)));
            idx = idx + 1;
        }
        proof {
            assert(person_rows(pm, number as nat).take(pm.identifiers.len() as int) =~= person_rows(
                pm,
                number as nat,
            ));
            lemma_rows_prefix(earlier, pm, earlier.len());
        }
    }

    /// The candidate index a `pc:{index}` reference names.
    fn parse_pc_index(id: &str) -> (r: Option<usize>)
        ensures
            match r {
                Some(i) => pc_index(id@) == Some(i as nat),
                None => pc_index(id@) is None,
            },
    {
        match strip_prefix(id, "pc:") {
            Some(rest) => parse_usize(rest),
            None => None,
        }
    }
}

impl PersonCandidate {
    /// A second candidate with the same contents.
    pub fn clone_candidate(&self) -> (r: PersonCandidate)
        ensures
            cand_model(r) == cand_model(*self),
    {
        let mut ids: Vec<SourceIdentifier> = Vec::new();
        let mut i: usize = 0;
        while i < self.identifiers.len()
            invariant
                i <= self.identifiers@.len(),
                ids@.len() == i,
                forall|k: int| 0 <= k < i ==> ident_model(#[trigger] ids@[k]) == ident_model(self.identifiers@[k]),
            decreases self.identifiers@.len() - i,
        {
            ids.push(self.identifiers[i].duplicate());
            i = i + 1;
        }
        let display_name = match &self.display_name {
            Some(n) => Some(n.clone()),
            None => None,
        };
        let r = PersonCandidate { source: self.source.clone(), identifiers: ids, display_name };
        assert(cand_model(r).identifiers =~= cand_model(*self).identifiers);
        r
    }
}

/// What `IdentityProjector::resolve` gives for these arguments: the
/// persons, their resolution time, the identifier rows and the open
/// matches.
pub open spec fn resolution_of(
    p: IdentityProjector,
    candidates: Seq<PersonCandidate>,
    matches: Seq<ResolutionCandidate>,
    resolved_at: i64,
    r: IdentityResolutionOutput,
) -> bool {
    let persons = resolved_spec(
        cand_models(candidates),
        merge_graph(match_models(matches), p.accepted(), candidates.len()),
        p.version(),
    );
    &&& r.resolved_persons@.map_values(|x: ResolvedPerson| person_model(x)) == persons
    &&& forall|i: int|
        0 <= i < r.resolved_persons@.len() ==> (#[trigger] r.resolved_persons@[i]).resolved_at == resolved_at
    &&& r.person_identifiers@.map_values(|row: PersonIdentifierRow| row_model(row)) == rows_spec(
        persons,
        r.resolved_persons@.len(),
    )
    &&& match_models(r.candidates@) == unresolved(match_models(matches), matches.len())
}

/// Replay determinism: two resolutions of the same candidates and matches
/// at the same time agree on every person (with its resolution time), every
/// identifier row and every open match.
pub proof fn lemma_resolve_replay(
    p: IdentityProjector,
    candidates: Seq<PersonCandidate>,
    matches: Seq<ResolutionCandidate>,
    resolved_at: i64,
    r1: IdentityResolutionOutput,
    r2: IdentityResolutionOutput,
)
    requires
        resolution_of(p, candidates, matches, resolved_at, r1),
        resolution_of(p, candidates, matches, resolved_at, r2),
    ensures
        r1.resolved_persons@.len() == r2.resolved_persons@.len(),
        forall|i: int|
            0 <= i < r1.resolved_persons@.len() ==> person_model(#[trigger] r1.resolved_persons@[i])
                == person_model(r2.resolved_persons@[i]) && r1.resolved_persons@[i].resolved_at
                == r2.resolved_persons@[i].resolved_at,
        r1.person_identifiers@.map_values(|row: PersonIdentifierRow| row_model(row))
            == r2.person_identifiers@.map_values(|row: PersonIdentifierRow| row_model(row)),
        match_models(r1.candidates@) == match_models(r2.candidates@),
{
    let m1 = r1.resolved_persons@.map_values(|x: ResolvedPerson| person_model(x));
    let m2 = r2.resolved_persons@.map_values(|x: ResolvedPerson| person_model(x));
    assert(m1.len() == m2.len());
    assert forall|i: int| 0 <= i < r1.resolved_persons@.len() implies person_model(
        #[trigger] r1.resolved_persons@[i],
    ) == person_model(r2.resolved_persons@[i]) && r1.resolved_persons@[i].resolved_at
        == r2.resolved_persons@[i].resolved_at by {
        assert(m1[i] == m2[i]);
    }
}

/// The latest `recorded_at` of the observations, or the epoch (zero) when
/// none is later.
pub open spec fn latest_recorded(obs: Seq<Observation>) -> i64
    decreases obs.len(),
{
    if obs.len() == 0 {
        0
    } else {
        let prev = latest_recorded(obs.drop_last());
        let t = obs.last().recorded_at;
        if t > prev {
            t
        } else {
            prev
        }
    }
}

/// The time an identity resolution over `observations` is stamped with:
/// their latest `recorded_at`, so that a replay over the same observations
/// gives the same output.
pub fn latest_recorded_at(observations: &[Observation]) -> (r: i64)
    ensures
        r == latest_recorded(observations@),
{
    let mut latest: i64 = 0;
    let mut i: usize = 0;
    while i < observations.len()
        invariant
            i <= observations@.len(),
            latest == latest_recorded(observations@.subrange(0, i as int)),
        decreases observations@.len() - i,
    {
        assert(observations@.subrange(0, i as int + 1).drop_last() =~= observations@.subrange(0, i as int));
        let t = observations[i].recorded_at;
        if t > latest {
            latest = t;
        }
        i = i + 1;
    }
    assert(observations@.subrange(0, observations@.len() as int) =~= observations@);
    latest
}

impl Projector for IdentityProjector {
    type Input = Observation;

    type Output = IdentityResolutionOutput;

    /// Extracts the candidates, matches them across sources and resolves
    /// them, stamped with the latest `recorded_at` of the inputs: one
    /// output.
    fn project(&self, inputs: &[Observation]) -> (r: Vec<IdentityResolutionOutput>)
        ensures
            r@.len() == 1,
            r@[0].resolved_persons@.map_values(|p: ResolvedPerson| person_model(p)) == resolved_spec(
                extracted(inputs@),
                merge_graph(cross_matches(extracted(inputs@)), self.accepted(), extracted(inputs@).len()),
                self.version(),
            ),
            forall|i: int|
                0 <= i < r@[0].resolved_persons@.len() ==> (#[trigger] r@[0].resolved_persons@[i]).resolved_at
                    == latest_recorded(inputs@),
            match_models(r@[0].candidates@) == unresolved(
                cross_matches(extracted(inputs@)),
                cross_matches(extracted(inputs@)).len(),
            ),
    {
        let candidates = Self::extract_candidates(inputs);
        let matches = Self::cross_source_match(candidates.as_slice());
        let resolved_at = latest_recorded_at(inputs);
        let output = self.resolve(candidates.as_slice(), matches.as_slice(), resolved_at);
        proof {
            assert(cand_models(candidates@).len() == candidates@.len());
        }
        vec![output]
    }
}

/// Of the first `m` members, the summary keeps the display name of the
/// first one that has one, and none when none has one.
proof fn lemma_summary_canonical(cands: Seq<CandidateModel>, ms: Seq<nat>, m: nat)
    requires
        m <= ms.len(),
    ensures
        summary(cands, ms, m).canonical is None <==> forall|i: int|
            0 <= i < m ==> (#[trigger] cands[ms[i] as int]).display_name is None,
        forall|j: int|
            0 <= j < m && (#[trigger] cands[ms[j] as int]).display_name is Some && (forall|i: int|
                0 <= i < j ==> (#[trigger] cands[ms[i] as int]).display_name is None) ==> summary(
                cands,
                ms,
                m,
            ).canonical == cands[ms[j] as int].display_name,
    decreases m,
{
    if m > 0 {
        lemma_summary_canonical(cands, ms, (m - 1) as nat);
        let p = summary(cands, ms, (m - 1) as nat);
        assert forall|j: int|
            0 <= j < m && (#[trigger] cands[ms[j] as int]).display_name is Some && (forall|i: int|
                0 <= i < j ==> (#[trigger] cands[ms[i] as int]).display_name is None) implies summary(
            cands,
            ms,
            m,
        ).canonical == cands[ms[j] as int].display_name by {
            if j == m - 1 {
                assert(p.canonical is None);
            }
        }
        if summary(cands, ms, m).canonical is None {
            assert forall|i: int| 0 <= i < m implies (#[trigger] cands[ms[i] as int]).display_name is None by {
                if i == m - 1 {
                } else {
                    assert(p.canonical is None);
                }
            }
        }
    }
}

/// A resolved person is named after the first of its members (in member
/// order) that has a display name, and is `person-k` only when none of its
/// members has one. This holds of each group `ms` and of each person the
/// resolution of a candidate graph yields.
pub proof fn lemma_canonical_name(
    cands: Seq<CandidateModel>,
    ms: Seq<nat>,
    k: nat,
    version: Seq<char>,
    edges: Seq<(nat, nat)>,
)
    ensures
        forall|j: int|
            0 <= j < ms.len() && (#[trigger] cands[ms[j] as int]).display_name is Some && (forall|i: int|
                0 <= i < j ==> (#[trigger] cands[ms[i] as int]).display_name is None) ==> person_spec(
                cands,
                ms,
                k,
                version,
            ).canonical_name == cands[ms[j] as int].display_name->0,
        (forall|i: int| 0 <= i < ms.len() ==> (#[trigger] cands[ms[i] as int]).display_name is None)
            ==> person_spec(cands, ms, k, version).canonical_name == "person-"@ + spec_decimal(k),
        forall|p: int|
            0 <= p < resolved_spec(cands, edges, version).len() ==> {
                let g = members(cands.len(), edges, leaders(cands.len(), edges, cands.len())[p], cands.len());
                #[trigger] resolved_spec(cands, edges, version)[p] == person_spec(cands, g, (p + 1) as nat, version)
            },
{
    lemma_summary_canonical(cands, ms, ms.len());
}

} // verus!
