//! Projection catalog: registration, dependency-DAG acyclicity and status
//! tracking.
//!
//! Projections are stored under the id they were registered with (their
//! key). The edges of the dependency graph go from a key to the projection
//! ids that the stored spec declares as projection sources.

use vstd::prelude::*;

use crate::domain::types::{ProjectionHealth, ProjectionStatus};
use crate::domain::values::ProjectionRef;
use crate::projection::spec::{
    spec_validation_message, ProjectionSpec, SourceRef, SpecValidationError,
};
use crate::seqs::{lemma_unique_covers, lemma_unique_shorter_misses};
use crate::text::{concat2, lemma_lex_lt_transitive, lex_lt, str_lt};

verus! {

/// Entry in the catalog: a registered projection with its status.
#[derive(Debug, Clone)]
pub struct CatalogEntry {
    pub spec: ProjectionSpec,
    pub status: ProjectionStatus,
    pub health: ProjectionHealth,
}

/// Errors of catalog registration and ordering.
#[derive(Debug, Clone, PartialEq, Eq)]
pub enum CatalogError {
    InvalidSpec(String),
    AlreadyRegistered(ProjectionRef),
    MissingDependency(ProjectionRef),
    CyclicDependency,
}

impl CatalogError {
    /// The text of the error.
    pub fn to_string(&self) -> (r: String)
        ensures
            r@ == match self {
                CatalogError::InvalidSpec(m) => "Invalid spec: "@ + m@,
                CatalogError::AlreadyRegistered(id) => "Already registered: "@ + id@,
                CatalogError::MissingDependency(id) => "Missing dependency: "@ + id@,
                CatalogError::CyclicDependency => "Cyclic dependency detected"@,
            },
    {
        match self {
            CatalogError::InvalidSpec(m) => concat2("Invalid spec: ", m.as_str()),
            CatalogError::AlreadyRegistered(id) => concat2("Already registered: ", id.0.as_str()),
            CatalogError::MissingDependency(id) => concat2("Missing dependency: ", id.0.as_str()),
            CatalogError::CyclicDependency => String::from_str("Cyclic dependency detected"),
        }
    }
}

/// Whether `spec` declares the projection `d` as one of its sources.
pub open spec fn spec_depends_on(spec: ProjectionSpec, d: Seq<char>) -> bool {
    exists|k: int|
        0 <= k < spec.sources@.len() && (#[trigger] spec.sources@[k]).source is Projection
            && spec.sources@[k].source->Projection_id@ == d
}

/// An edge of the dependency graph: the projection stored under key `a`
/// declares `b` as a projection source.
pub open spec fn dep_edge(
    keys: Seq<Seq<char>>,
    entries: Seq<CatalogEntry>,
    a: Seq<char>,
    b: Seq<char>,
) -> bool {
    exists|i: int| 0 <= i < keys.len() && #[trigger] keys[i] == a && spec_depends_on(entries[i].spec, b)
}

/// A path `p[0] -> p[1] -> ...` along dependency edges.
pub open spec fn is_dep_path(
    keys: Seq<Seq<char>>,
    entries: Seq<CatalogEntry>,
    p: Seq<Seq<char>>,
) -> bool {
    &&& p.len() >= 1
    &&& forall|k: int| 0 <= k < p.len() - 1 ==> dep_edge(keys, entries, #[trigger] p[k], p[k + 1])
}

/// `b` is reachable from `a` along dependency edges (in zero or more steps).
pub open spec fn dep_reaches(
    keys: Seq<Seq<char>>,
    entries: Seq<CatalogEntry>,
    a: Seq<char>,
    b: Seq<char>,
) -> bool {
    exists|p: Seq<Seq<char>>| #[trigger] is_dep_path(keys, entries, p) && p[0] == a && p.last() == b
}

/// Every dependency of the projection stored under `node` is in `done`.
pub open spec fn deps_done(
    keys: Seq<Seq<char>>,
    entries: Seq<CatalogEntry>,
    done: Seq<Seq<char>>,
    node: Seq<char>,
) -> bool {
    forall|d: Seq<char>| #[trigger] dep_edge(keys, entries, node, d) ==> done.contains(d)
}

/// `order` lists every key once, each after all of its dependencies.
pub open spec fn is_topological(
    keys: Seq<Seq<char>>,
    entries: Seq<CatalogEntry>,
    order: Seq<Seq<char>>,
) -> bool {
    &&& order.len() == keys.len()
    &&& order.no_duplicates()
    &&& forall|k: int| 0 <= k < order.len() ==> keys.contains(#[trigger] order[k])
    &&& forall|k: int|
        0 <= k < order.len() ==> deps_done(keys, entries, order.take(k), #[trigger] order[k])
}

/// The dependency edges depend on the entries' specs alone: entries with
/// the same specs keep every topological order.
pub proof fn lemma_topological_same_specs(
    keys: Seq<Seq<char>>,
    e1: Seq<CatalogEntry>,
    e2: Seq<CatalogEntry>,
    order: Seq<Seq<char>>,
)
    requires
        keys.len() == e1.len(),
        e1.len() == e2.len(),
        forall|i: int| 0 <= i < e1.len() ==> (#[trigger] e1[i]).spec == e2[i].spec,
        is_topological(keys, e1, order),
    ensures
        is_topological(keys, e2, order),
{
    assert forall|a: Seq<char>, b: Seq<char>| #[trigger] dep_edge(keys, e2, a, b) implies dep_edge(
        keys,
        e1,
        a,
        b,
    ) by {
        let i = choose|i: int| 0 <= i < keys.len() && #[trigger] keys[i] == a && spec_depends_on(e2[i].spec, b);
        assert(e1[i].spec == e2[i].spec);
    }
    assert forall|k: int| 0 <= k < order.len() implies deps_done(keys, e2, order.take(k), #[trigger] order[k]) by {
        assert(deps_done(keys, e1, order.take(k), order[k]));
        assert forall|d: Seq<char>| #[trigger] dep_edge(keys, e2, order[k], d) implies order.take(k).contains(d) by {
            assert(dep_edge(keys, e1, order[k], d));
        }
    }
}

/// Among the keys that are ready after `order[..k]`, `order[k]` is the
/// greatest in lexicographic order.
pub open spec fn is_greatest_ready_first(
    keys: Seq<Seq<char>>,
    entries: Seq<CatalogEntry>,
    order: Seq<Seq<char>>,
) -> bool {
    forall|k: int, i: int|
        0 <= k < order.len() && 0 <= i < keys.len() && !order.take(k).contains(#[trigger] keys[i])
            && deps_done(keys, entries, order.take(k), keys[i]) ==> !lex_lt(
            #[trigger] order[k],
            keys[i],
        )
}

/// The messages of `errs` joined by `"; "`.
pub open spec fn joined_messages(errs: Seq<SpecValidationError>) -> Seq<char>
    decreases errs.len(),
{
    if errs.len() == 0 {
        Seq::empty()
    } else if errs.len() == 1 {
        spec_validation_message(errs[0])
    } else {
        joined_messages(errs.drop_last()) + "; "@ + spec_validation_message(errs.last())
    }
}

/// The projection ids of the entries that depend on `id`, in entry order.
pub open spec fn spec_dependents(entries: Seq<CatalogEntry>, id: Seq<char>) -> Seq<Seq<char>>
    decreases entries.len(),
{
    if entries.len() == 0 {
        Seq::empty()
    } else {
        spec_dependents(entries.drop_last(), id) + if spec_depends_on(entries.last().spec, id) {
            seq![entries.last().spec.id@]
        } else {
            Seq::empty()
        }
    }
}

/// Some projection that `spec` depends on is not among `keys`.
pub open spec fn has_missing_dep(spec: ProjectionSpec, keys: Seq<Seq<char>>) -> bool {
    exists|d: Seq<char>| spec_depends_on(spec, d) && !keys.contains(d)
}

/// `d` is the first projection source of `spec`, in source order, that is
/// not among `keys`.
pub open spec fn is_first_missing_dep(
    spec: ProjectionSpec,
    keys: Seq<Seq<char>>,
    d: Seq<char>,
) -> bool {
    exists|k: int|
        0 <= k < spec.sources@.len() && (#[trigger] spec.sources@[k]).source is Projection
            && spec.sources@[k].source->Projection_id@ == d && !keys.contains(d) && forall|k2: int|
            0 <= k2 < k && (#[trigger] spec.sources@[k2]).source is Projection ==> keys.contains(
                spec.sources@[k2].source->Projection_id@,
            )
}

/// The number of `false` entries of `m`.
pub open spec fn count_unmarked(m: Seq<bool>) -> nat
    decreases m.len(),
{
    if m.len() == 0 {
        0
    } else {
        count_unmarked(m.drop_last()) + if m.last() {
            0nat
        } else {
            1nat
        }
    }
}

proof fn lemma_count_unmarked_set(m: Seq<bool>, j: int)
    requires
        0 <= j < m.len(),
        !m[j],
    ensures
        count_unmarked(m.update(j, true)) + 1 == count_unmarked(m),
    decreases m.len(),
{
    if j < m.len() - 1 {
        lemma_count_unmarked_set(m.drop_last(), j);
        assert(m.update(j, true).drop_last() =~= m.drop_last().update(j, true));
    } else {
        assert(m.update(j, true).drop_last() =~= m.drop_last());
    }
}

/// Projection catalog: registration, deduplication and DAG validation.
#[derive(Debug)]
pub struct ProjectionCatalog {
    keys: Vec<ProjectionRef>,
    entries: Vec<CatalogEntry>,
}

impl ProjectionCatalog {
    /// The keys under which projections are registered, in registration order.
    pub closed spec fn key_seq(&self) -> Seq<Seq<char>> {
        self.keys@.map_values(|k: ProjectionRef| k@)
    }

    /// The stored entries, parallel to `key_seq`.
    pub closed spec fn entry_seq(&self) -> Seq<CatalogEntry> {
        self.entries@
    }

    /// Keys are unique and each has one entry.
    pub open spec fn wf(&self) -> bool {
        &&& self.key_seq().len() == self.entry_seq().len()
        &&& self.key_seq().no_duplicates()
    }

    /// Whether `id` is registered.
    pub open spec fn has_key(&self, id: Seq<char>) -> bool {
        self.key_seq().contains(id)
    }

    /// Whether some order of the keys puts every projection after its
    /// dependencies (the dependency graph is a DAG and has no dangling edge).
    pub open spec fn is_acyclic(&self) -> bool {
        exists|o: Seq<Seq<char>>| is_topological(self.key_seq(), self.entry_seq(), o)
    }

    /// Registered keys are unique and each has one entry.
    pub proof fn lemma_wf_keys(&self)
        requires
            self.wf(),
        ensures
            self.key_seq().no_duplicates(),
            self.key_seq().len() == self.entry_seq().len(),
    {
    }

    pub fn new() -> (r: Self)
        ensures
            r.wf(),
            r.key_seq() == Seq::<Seq<char>>::empty(),
            r.entry_seq() == Seq::<CatalogEntry>::empty(),
            r.is_acyclic(),
    {
        let r = ProjectionCatalog { keys: Vec::new(), entries: Vec::new() };
        assert(r.key_seq() =~= Seq::<Seq<char>>::empty());
        assert(is_topological(r.key_seq(), r.entry_seq(), Seq::<Seq<char>>::empty()));
        r
    }

    /// Position of the key `id`, if registered.
    fn key_index(&self, id: &ProjectionRef) -> (r: Option<usize>)
        requires
            self.wf(),
        ensures
            r matches Some(i) ==> i < self.keys@.len() && self.key_seq()[i as int] == id@,
            r is None <==> !self.has_key(id@),
    {
        let mut i: usize = 0;
        while i < self.keys.len()
            invariant
                self.wf(),
                i <= self.keys@.len(),
                forall|j: int| 0 <= j < i ==> self.key_seq()[j] != id@,
            decreases self.keys@.len() - i,
        {
            if self.keys[i].0 == id.0 {
                proof {
                    assert(self.key_seq()[i as int] == id@);
                }
                return Some(i);
            }
            i = i + 1;
        }
        proof {
            if self.has_key(id@) {
                let j = choose|j: int| 0 <= j < self.key_seq().len() && self.key_seq()[j] == id@;
                assert(self.key_seq()[j] == id@);
            }
        }
        None
    }

    pub fn get(&self, id: &ProjectionRef) -> (r: Option<&CatalogEntry>)
        requires
            self.wf(),
        ensures
            r is None <==> !self.has_key(id@),
            r matches Some(e) ==> exists|i: int|
                0 <= i < self.key_seq().len() && self.key_seq()[i] == id@ && *e
                    == self.entry_seq()[i],
    {
        match self.key_index(id) {
            Some(i) => Some(&self.entries[i]),
            None => None,
        }
    }

    /// Set the status of the projection registered under `id`; `false` when
    /// it is not registered.
    pub fn set_status(&mut self, id: &ProjectionRef, status: ProjectionStatus) -> (r: bool)
        requires
            old(self).wf(),
        ensures
            final(self).wf(),
            r == old(self).has_key(id@),
            final(self).key_seq() == old(self).key_seq(),
            final(self).entry_seq().len() == old(self).entry_seq().len(),
            !old(self).has_key(id@) ==> final(self).entry_seq() == old(self).entry_seq(),
            forall|i: int|
                0 <= i < old(self).entry_seq().len() ==> #[trigger] final(self).entry_seq()[i] == if old(
                    self,
                ).key_seq()[i] == id@ {
                    CatalogEntry { status, ..old(self).entry_seq()[i] }
                } else {
                    old(self).entry_seq()[i]
                },
            old(self).is_acyclic() ==> final(self).is_acyclic(),
    {
        match self.key_index(id) {
            Some(i) => {
                self.entries[i].status = status;
                proof {
                    assert forall|j: int| 0 <= j < old(self).entry_seq().len() && j != i implies old(
                        self,
                    ).key_seq()[j] != id@ by {
                        assert(old(self).key_seq()[j] != old(self).key_seq()[i as int]);
                    }
                    if old(self).is_acyclic() {
                        let o = choose|o: Seq<Seq<char>>| is_topological(old(self).key_seq(), old(self).entry_seq(), o);
                        assert forall|j: int| 0 <= j < old(self).entry_seq().len() implies (#[trigger] old(
                            self,
                        ).entry_seq()[j]).spec == self.entry_seq()[j].spec by {
                            if j != i {
                                assert(old(self).key_seq()[j] != id@);
                            }
                        }
                        lemma_topological_same_specs(self.key_seq(), old(self).entry_seq(), self.entry_seq(), o);
                    }
                }
                true
            },
            None => false,
        }
    }

    /// Set the health of the projection registered under `id`; `false` when
    /// it is not registered.
    pub fn set_health(&mut self, id: &ProjectionRef, health: ProjectionHealth) -> (r: bool)
        requires
            old(self).wf(),
        ensures
            final(self).wf(),
            r == old(self).has_key(id@),
            final(self).key_seq() == old(self).key_seq(),
            final(self).entry_seq().len() == old(self).entry_seq().len(),
            !old(self).has_key(id@) ==> final(self).entry_seq() == old(self).entry_seq(),
            forall|i: int|
                0 <= i < old(self).entry_seq().len() ==> #[trigger] final(self).entry_seq()[i] == if old(
                    self,
                ).key_seq()[i] == id@ {
                    CatalogEntry { health, ..old(self).entry_seq()[i] }
                } else {
                    old(self).entry_seq()[i]
                },
            old(self).is_acyclic() ==> final(self).is_acyclic(),
    {
        match self.key_index(id) {
            Some(i) => {
                self.entries[i].health = health;
                proof {
                    assert forall|j: int| 0 <= j < old(self).entry_seq().len() && j != i implies old(
                        self,
                    ).key_seq()[j] != id@ by {
                        assert(old(self).key_seq()[j] != old(self).key_seq()[i as int]);
                    }
                    if old(self).is_acyclic() {
                        let o = choose|o: Seq<Seq<char>>| is_topological(old(self).key_seq(), old(self).entry_seq(), o);
                        assert forall|j: int| 0 <= j < old(self).entry_seq().len() implies (#[trigger] old(
                            self,
                        ).entry_seq()[j]).spec == self.entry_seq()[j].spec by {
                            if j != i {
                                assert(old(self).key_seq()[j] != id@);
                            }
                        }
                        lemma_topological_same_specs(self.key_seq(), old(self).entry_seq(), self.entry_seq(), o);
                    }
                }
                true
            },
            None => false,
        }
    }

    proof fn lemma_edge_from_key(&self, i: int, d: Seq<char>)
        requires
            self.wf(),
            0 <= i < self.key_seq().len(),
        ensures
            dep_edge(self.key_seq(), self.entry_seq(), self.key_seq()[i], d) <==> spec_depends_on(
                self.entry_seq()[i].spec,
                d,
            ),
    {
        if dep_edge(self.key_seq(), self.entry_seq(), self.key_seq()[i], d) {
            let i2 = choose|i2: int|
                0 <= i2 < self.key_seq().len() && #[trigger] self.key_seq()[i2] == self.key_seq()[i]
                    && spec_depends_on(self.entry_seq()[i2].spec, d);
            assert(i2 == i);
        }
    }

    /// Whether every dependency of the projection stored at position `i` is
    /// already placed.
    fn deps_ready(&self, i: usize, placed: &Vec<bool>, Ghost(done): Ghost<Seq<Seq<char>>>) -> (r:
        bool)
        requires
            self.wf(),
            i < self.keys@.len(),
            placed@.len() == self.keys@.len(),
            forall|j: int|
                0 <= j < placed@.len() ==> (placed@[j] <==> done.contains(
                    #[trigger] self.key_seq()[j],
                )),
            forall|x: Seq<char>| done.contains(x) ==> self.has_key(x),
        ensures
            r == deps_done(self.key_seq(), self.entry_seq(), done, self.key_seq()[i as int]),
    {
        let ghost keys = self.key_seq();
        let ghost entries = self.entry_seq();
        let sources = &self.entries[i].spec.sources;
        let mut k: usize = 0;
        while k < sources.len()
            invariant
                self.wf(),
                i < self.keys@.len(),
                placed@.len() == self.keys@.len(),
                forall|j: int|
                    0 <= j < placed@.len() ==> (placed@[j] <==> done.contains(
                        #[trigger] self.key_seq()[j],
                    )),
                forall|x: Seq<char>| done.contains(x) ==> self.has_key(x),
                sources == &self.entries@[i as int].spec.sources,
                keys == self.key_seq(),
                entries == self.entry_seq(),
                k <= sources@.len(),
                forall|k2: int|
                    0 <= k2 < k && (#[trigger] sources@[k2]).source is Projection ==> done.contains(
                        sources@[k2].source->Projection_id@,
                    ),
            decreases sources@.len() - k,
        {
            match &sources[k].source {
                SourceRef::Projection { id, .. } => {
                    let ghost d = id@;
                    proof {
                        assert(entries[i as int].spec.sources@[k as int].source is Projection);
                        assert(spec_depends_on(entries[i as int].spec, d));
                        self.lemma_edge_from_key(i as int, d);
                    }
                    match self.key_index(id) {
                        Some(j) => {
                            if !placed[j] {
                                return false;
                            }
                        },
                        None => {
                            return false;
                        },
                    }
                },
                _ => {},
            }
            k = k + 1;
        }
        proof {
            assert forall|d: Seq<char>| #[trigger]
                dep_edge(keys, entries, keys[i as int], d) implies done.contains(d) by {
                self.lemma_edge_from_key(i as int, d);
                let k2 = choose|k2: int|
                    0 <= k2 < entries[i as int].spec.sources@.len()
                        && (#[trigger] entries[i as int].spec.sources@[k2]).source is Projection
                        && entries[i as int].spec.sources@[k2].source->Projection_id@ == d;
                assert(sources@[k2].source is Projection);
            }
        }
        true
    }

    /// The registered keys in dependency order: every projection comes after
    /// the projections it depends on, and among the ready ones the greatest
    /// key in lexicographic order comes first. Fails with `CyclicDependency`
    /// exactly when no such order exists (a cycle or a dependency on an
    /// unregistered projection).
    pub fn topological_order(&self) -> (r: Result<Vec<ProjectionRef>, CatalogError>)
        requires
            self.wf(),
        ensures
            r is Ok <==> self.is_acyclic(),
            r matches Ok(order) ==> {
                let o = order@.map_values(|p: ProjectionRef| p@);
                &&& is_topological(self.key_seq(), self.entry_seq(), o)
                &&& is_greatest_ready_first(self.key_seq(), self.entry_seq(), o)
            },
            r matches Err(e) ==> e == CatalogError::CyclicDependency,
    {
        let ghost keys = self.key_seq();
        let ghost entries = self.entry_seq();
        let n = self.keys.len();
        let mut placed: Vec<bool> = Vec::new();
        while placed.len() < n
            invariant
                placed@.len() <= n,
                forall|j: int| 0 <= j < placed@.len() ==> !placed@[j],
            decreases n - placed@.len(),
        {
            placed.push(false);
        }
        let mut result: Vec<ProjectionRef> = Vec::new();
        let ghost mut order: Seq<Seq<char>> = Seq::empty();
        while result.len() < n
            invariant
                self.wf(),
                n == self.keys@.len(),
                keys == self.key_seq(),
                entries == self.entry_seq(),
                placed@.len() == n,
                result@.len() <= n,
                order == result@.map_values(|p: ProjectionRef| p@),
                order.no_duplicates(),
                forall|k: int| 0 <= k < order.len() ==> keys.contains(#[trigger] order[k]),
                forall|j: int| 0 <= j < n ==> (placed@[j] <==> order.contains(#[trigger] keys[j])),
                forall|k: int|
                    0 <= k < order.len() ==> deps_done(keys, entries, order.take(k), #[trigger] order[k]),
                is_greatest_ready_first(keys, entries, order),
            decreases n - result@.len(),
        {
            let mut best: Option<usize> = None;
            let mut i: usize = 0;
            while i < n
                invariant
                    self.wf(),
                    n == self.keys@.len(),
                    keys == self.key_seq(),
                    entries == self.entry_seq(),
                    placed@.len() == n,
                    i <= n,
                    forall|j: int| 0 <= j < n ==> (placed@[j] <==> order.contains(#[trigger] keys[j])),
                    forall|k: int| 0 <= k < order.len() ==> keys.contains(#[trigger] order[k]),
                    best matches Some(b) ==> b < i && !placed@[b as int] && deps_done(
                        keys,
                        entries,
                        order,
                        keys[b as int],
                    ),
                    forall|j: int|
                        0 <= j < i && !placed@[j] && deps_done(keys, entries, order, #[trigger] keys[j])
                            ==> (best matches Some(b) && !lex_lt(keys[b as int], keys[j])),
                decreases n - i,
            {
                if !placed[i] {
                    proof {
                        assert forall|x: Seq<char>| order.contains(x) implies self.has_key(x) by {
                            let k = choose|k: int| 0 <= k < order.len() && order[k] == x;
                            assert(keys.contains(order[k]));
                        }
                    }
                    if self.deps_ready(i, &placed, Ghost(order)) {
                        match best {
                            None => {
                                proof {
                                    crate::text::lemma_lex_lt_irreflexive(keys[i as int]);
                                }
                                best = Some(i);
                            },
                            Some(b) => {
                                if str_lt(self.keys[b].as_str(), self.keys[i].as_str()) {
                                    proof {
                                        assert forall|j: int|
                                            0 <= j < i && !placed@[j] && deps_done(
                                                keys,
                                                entries,
                                                order,
                                                #[trigger] keys[j],
                                            ) implies !lex_lt(keys[i as int], keys[j]) by {
                                            if lex_lt(keys[i as int], keys[j]) {
                                                lemma_lex_lt_transitive(
                                                    keys[b as int],
                                                    keys[i as int],
                                                    keys[j],
                                                );
                                            }
                                        }
                                        crate::text::lemma_lex_lt_irreflexive(keys[i as int]);
                                    }
                                    best = Some(i);
                                }
                            },
                        }
                    }
                }
                i = i + 1;
            }
            match best {
                None => {
                    proof {
                        let x = lemma_unique_shorter_misses(order, keys);
                        assert(!self.is_acyclic()) by {
                            if self.is_acyclic() {
                                let o = choose|o: Seq<Seq<char>>| is_topological(keys, entries, o);
                                self.lemma_no_order_when_stuck(order, o, placed@);
                                lemma_unique_covers(o, keys);
                            }
                        }
                    }
                    return Err(CatalogError::CyclicDependency);
                },
                Some(b) => {
                    let ghost old_order = order;
                    placed.set(b, true);
                    result.push(self.keys[b].duplicate());
                    proof {
                        order = order.push(keys[b as int]);
                        assert(order =~= result@.map_values(|p: ProjectionRef| p@));
                        assert forall|k: int| 0 <= k <= old_order.len() implies order.take(k)
                            =~= old_order.take(k) by {}
                        assert(order.take(old_order.len() as int) =~= old_order);
                        assert forall|j: int| 0 <= j < n implies (placed@[j] <==> order.contains(
                            #[trigger] keys[j],
                        )) by {
                            if j == b {
                                assert(order[old_order.len() as int] == keys[j]);
                            } else {
                                assert(keys[j] != keys[b as int]);
                                if order.contains(keys[j]) {
                                    let k = choose|k: int| 0 <= k < order.len() && order[k] == keys[j];
                                    assert(old_order[k] == keys[j]);
                                }
                            }
                        }
                        assert(keys.contains(keys[b as int]));
                        assert forall|k: int|
                            0 <= k < order.len() implies deps_done(
                            keys,
                            entries,
                            order.take(k),
                            #[trigger] order[k],
                        ) by {
                            if k < old_order.len() {
                                assert(order.take(k) =~= old_order.take(k));
                            }
                        }
                        assert(is_greatest_ready_first(keys, entries, order)) by {
                            assert forall|k: int, j: int|
                                0 <= k < order.len() && 0 <= j < keys.len() && !order.take(
                                    k,
                                ).contains(#[trigger] keys[j]) && deps_done(
                                    keys,
                                    entries,
                                    order.take(k),
                                    keys[j],
                                ) implies !lex_lt(#[trigger] order[k], keys[j]) by {
                                if k < old_order.len() {
                                    assert(order.take(k) =~= old_order.take(k));
                                } else {
                                    assert(order.take(k) =~= old_order);
                                    assert(!placed@[j] || j == b);
                                    if j == b {
                                        crate::text::lemma_lex_lt_irreflexive(keys[j]);
                                    }
                                }
                            }
                        }
                    }
                },
            }
        }
        proof {
            lemma_unique_covers(order, keys);
            assert(is_topological(keys, entries, order));
        }
        Ok(result)
    }

    /// When no unplaced key is ready, a topological order `o` would have to
    /// consist of placed keys only.
    proof fn lemma_no_order_when_stuck(
        &self,
        order: Seq<Seq<char>>,
        o: Seq<Seq<char>>,
        placed: Seq<bool>,
    )
        requires
            self.wf(),
            placed.len() == self.keys@.len(),
            forall|j: int|
                0 <= j < placed.len() ==> (placed[j] <==> order.contains(#[trigger] self.key_seq()[j])),
            forall|j: int|
                0 <= j < placed.len() && !placed[j] ==> !deps_done(
                    self.key_seq(),
                    self.entry_seq(),
                    order,
                    #[trigger] self.key_seq()[j],
                ),
            is_topological(self.key_seq(), self.entry_seq(), o),
        ensures
            forall|x: Seq<char>| o.contains(x) ==> order.contains(x),
    {
        let keys = self.key_seq();
        let entries = self.entry_seq();
        assert forall|m: int| 0 <= m < o.len() implies order.contains(#[trigger] o[m]) by {
            self.lemma_stuck_prefix(order, o, placed, m);
        }
        assert forall|x: Seq<char>| o.contains(x) implies order.contains(x) by {
            let m = choose|m: int| 0 <= m < o.len() && o[m] == x;
            assert(order.contains(o[m]));
        }
    }

    proof fn lemma_stuck_prefix(
        &self,
        order: Seq<Seq<char>>,
        o: Seq<Seq<char>>,
        placed: Seq<bool>,
        m: int,
    )
        requires
            self.wf(),
            placed.len() == self.keys@.len(),
            forall|j: int|
                0 <= j < placed.len() ==> (placed[j] <==> order.contains(#[trigger] self.key_seq()[j])),
            forall|j: int|
                0 <= j < placed.len() && !placed[j] ==> !deps_done(
                    self.key_seq(),
                    self.entry_seq(),
                    order,
                    #[trigger] self.key_seq()[j],
                ),
            is_topological(self.key_seq(), self.entry_seq(), o),
            0 <= m < o.len(),
        ensures
            order.contains(o[m]),
        decreases m,
    {
        let keys = self.key_seq();
        let entries = self.entry_seq();
        assert forall|m2: int| 0 <= m2 < m implies order.contains(#[trigger] o[m2]) by {
            self.lemma_stuck_prefix(order, o, placed, m2);
        }
        assert(deps_done(keys, entries, o.take(m), o[m]));
        assert(keys.contains(o[m]));
        let j = choose|j: int| 0 <= j < keys.len() && keys[j] == o[m];
        assert(deps_done(keys, entries, order, keys[j])) by {
            assert forall|d: Seq<char>| #[trigger] dep_edge(keys, entries, keys[j], d) implies order.contains(
                d,
            ) by {
                assert(o.take(m).contains(d));
                let k = choose|k: int| 0 <= k < m && o.take(m)[k] == d;
                assert(o[k] == d);
            }
        }
    }

    proof fn lemma_path_push(&self, p: Seq<Seq<char>>, b: Seq<char>)
        requires
            is_dep_path(self.key_seq(), self.entry_seq(), p),
            dep_edge(self.key_seq(), self.entry_seq(), p.last(), b),
        ensures
            is_dep_path(self.key_seq(), self.entry_seq(), p.push(b)),
            p.push(b)[0] == p[0],
            p.push(b).last() == b,
    {
        let q = p.push(b);
        assert forall|k: int| 0 <= k < q.len() - 1 implies dep_edge(
            self.key_seq(),
            self.entry_seq(),
            #[trigger] q[k],
            q[k + 1],
        ) by {
            if k < p.len() - 1 {
                assert(q[k] == p[k] && q[k + 1] == p[k + 1]);
            } else {
                assert(q[k] == p.last());
            }
        }
    }

    /// Whether `spec` declares the projection `id` as a source.
    fn spec_has_dep(spec: &ProjectionSpec, id: &ProjectionRef) -> (r: bool)
        ensures
            r == spec_depends_on(*spec, id@),
    {
        let mut k: usize = 0;
        while k < spec.sources.len()
            invariant
                k <= spec.sources@.len(),
                forall|k2: int|
                    0 <= k2 < k && (#[trigger] spec.sources@[k2]).source is Projection
                        ==> spec.sources@[k2].source->Projection_id@ != id@,
            decreases spec.sources@.len() - k,
        {
            match &spec.sources[k].source {
                SourceRef::Projection { id: d, .. } => {
                    if d.0 == id.0 {
                        proof {
                            assert(spec.sources@[k as int].source is Projection);
                        }
                        return true;
                    }
                },
                _ => {},
            }
            k = k + 1;
        }
        false
    }

    /// Whether registering `spec` would close a cycle: the new id is
    /// reachable from one of its dependencies.
    fn would_create_cycle(&self, spec: &ProjectionSpec) -> (r: bool)
        requires
            self.wf(),
            !self.has_key(spec.id@),
            forall|d: Seq<char>| spec_depends_on(*spec, d) ==> self.has_key(d),
        ensures
            r == exists|d: Seq<char>|
                spec_depends_on(*spec, d) && dep_reaches(
                    self.key_seq(),
                    self.entry_seq(),
                    d,
                    spec.id@,
                ),
    {
        let ghost keys = self.key_seq();
        let ghost entries = self.entry_seq();
        let ghost target = spec.id@;
        let n = self.keys.len();
        let mut marked: Vec<bool> = Vec::new();
        while marked.len() < n
            invariant
                self.wf(),
                n == self.keys@.len(),
                keys == self.key_seq(),
                marked@.len() <= n,
                forall|j: int|
                    0 <= j < marked@.len() ==> (marked@[j] <==> spec_depends_on(
                        *spec,
                        #[trigger] keys[j],
                    )),
            decreases n - marked@.len(),
        {
            let m = Self::spec_has_dep(spec, &self.keys[marked.len()]);
            marked.push(m);
        }
        proof {
            assert forall|j: int| 0 <= j < n && #[trigger] marked@[j] implies exists|d: Seq<char>|
                spec_depends_on(*spec, d) && dep_reaches(keys, entries, d, keys[j]) by {
                let p = seq![keys[j]];
                assert(is_dep_path(keys, entries, p));
            }
        }
        loop
            invariant
                self.wf(),
                n == self.keys@.len(),
                keys == self.key_seq(),
                entries == self.entry_seq(),
                target == spec.id@,
                !self.has_key(target),
                forall|d: Seq<char>| spec_depends_on(*spec, d) ==> self.has_key(d),
                marked@.len() == n,
                forall|j: int|
                    0 <= j < n && spec_depends_on(*spec, #[trigger] keys[j]) ==> marked@[j],
                forall|j: int|
                    0 <= j < n && #[trigger] marked@[j] ==> exists|d: Seq<char>|
                        spec_depends_on(*spec, d) && dep_reaches(keys, entries, d, keys[j]),
            decreases count_unmarked(marked@),
        {
            let ghost start = marked@;
            let mut changed = false;
            let mut i: usize = 0;
            while i < n
                invariant
                    self.wf(),
                    n == self.keys@.len(),
                    keys == self.key_seq(),
                    entries == self.entry_seq(),
                    target == spec.id@,
                    !self.has_key(target),
                    marked@.len() == n,
                    start.len() == n,
                    i <= n,
                    forall|j: int| 0 <= j < n && start[j] ==> #[trigger] marked@[j],
                    forall|d: Seq<char>| spec_depends_on(*spec, d) ==> self.has_key(d),
                    forall|j: int|
                        0 <= j < n && spec_depends_on(*spec, #[trigger] keys[j]) ==> marked@[j],
                    changed ==> count_unmarked(marked@) < count_unmarked(start),
                    !changed ==> marked@ == start,
                    !changed ==> forall|i2: int|
                        0 <= i2 < i && #[trigger] start[i2] ==> self.closed_at(i2, marked@, target),
                    forall|j: int|
                        0 <= j < n && #[trigger] marked@[j] ==> exists|d: Seq<char>|
                            spec_depends_on(*spec, d) && dep_reaches(keys, entries, d, keys[j]),
                decreases n - i,
            {
                if marked[i] {
                    let sources = &self.entries[i].spec.sources;
                    let mut k: usize = 0;
                    while k < sources.len()
                        invariant
                            self.wf(),
                            n == self.keys@.len(),
                            keys == self.key_seq(),
                            entries == self.entry_seq(),
                            target == spec.id@,
                            !self.has_key(target),
                            marked@.len() == n,
                            start.len() == n,
                            i < n,
                            marked@[i as int],
                            sources == &self.entries@[i as int].spec.sources,
                            k <= sources@.len(),
                            forall|j: int| 0 <= j < n && start[j] ==> #[trigger] marked@[j],
                            forall|j: int|
                                0 <= j < n && spec_depends_on(*spec, #[trigger] keys[j]) ==> marked@[j],
                            changed ==> count_unmarked(marked@) < count_unmarked(start),
                            !changed ==> marked@ == start,
                            !changed ==> forall|i2: int|
                                0 <= i2 < i && #[trigger] start[i2] ==> self.closed_at(
                                    i2,
                                    marked@,
                                    target,
                                ),
                            !changed ==> forall|k2: int|
                                0 <= k2 < k && (#[trigger] sources@[k2]).source is Projection
                                    ==> self.dep_closed(sources@[k2].source->Projection_id@, marked@, target),
                            forall|j: int|
                                0 <= j < n && #[trigger] marked@[j] ==> exists|d: Seq<char>|
                                    spec_depends_on(*spec, d) && dep_reaches(keys, entries, d, keys[j]),
                        decreases sources@.len() - k,
                    {
                        match &sources[k].source {
                            SourceRef::Projection { id: d, .. } => {
                                proof {
                                    assert(entries[i as int].spec.sources@[k as int].source is Projection);
                                    assert(dep_edge(keys, entries, keys[i as int], d@));
                                }
                                if d.0 == spec.id.0 {
                                    proof {
                                        let d0 = choose|d0: Seq<char>|
                                            spec_depends_on(*spec, d0) && dep_reaches(
                                                keys,
                                                entries,
                                                d0,
                                                keys[i as int],
                                            );
                                        let p = choose|p: Seq<Seq<char>>|
                                            #[trigger] is_dep_path(keys, entries, p) && p[0] == d0
                                                && p.last() == keys[i as int];
                                        self.lemma_path_push(p, target);
                                        assert(dep_reaches(keys, entries, d0, target));
                                    }
                                    return true;
                                }
                                match self.key_index(d) {
                                    Some(j) => {
                                        if !marked[j] {
                                            proof {
                                                let d0 = choose|d0: Seq<char>|
                                                    spec_depends_on(*spec, d0) && dep_reaches(
                                                        keys,
                                                        entries,
                                                        d0,
                                                        keys[i as int],
                                                    );
                                                let p = choose|p: Seq<Seq<char>>|
                                                    #[trigger] is_dep_path(keys, entries, p) && p[0]
                                                        == d0 && p.last() == keys[i as int];
                                                self.lemma_path_push(p, keys[j as int]);
                                                lemma_count_unmarked_set(marked@, j as int);
                                            }
                                            marked.set(j, true);
                                            changed = true;
                                        }
                                    },
                                    None => {},
                                }
                            },
                            _ => {},
                        }
                        k = k + 1;
                    }
                    proof {
                        if !changed {
                            assert forall|d: Seq<char>|
                                spec_depends_on(entries[i as int].spec, d) implies self.dep_closed(
                                d,
                                marked@,
                                target,
                            ) by {
                                let k2 = choose|k2: int|
                                    0 <= k2 < entries[i as int].spec.sources@.len()
                                        && (#[trigger] entries[i as int].spec.sources@[k2]).source is Projection
                                        && entries[i as int].spec.sources@[k2].source->Projection_id@ == d;
                                assert(sources@[k2].source is Projection);
                            }
                            assert(self.closed_at(i as int, marked@, target));
                        }
                    }
                }
                i = i + 1;
            }
            if !changed {
                proof {
                    assert forall|d: Seq<char>|
                        spec_depends_on(*spec, d) implies !dep_reaches(keys, entries, d, target) by {
                        if dep_reaches(keys, entries, d, target) {
                            let p = choose|p: Seq<Seq<char>>|
                                #[trigger] is_dep_path(keys, entries, p) && p[0] == d && p.last() == target;
                            self.lemma_closed_no_path(marked@, p, target, p.len() - 1);
                        }
                    }
                }
                return false;
            }
        }
    }

    /// Every dependency `d` is not the target of the check, and if it is a
    /// key, that key is marked.
    spec fn dep_closed(&self, d: Seq<char>, marked: Seq<bool>, target: Seq<char>) -> bool {
        &&& d != target
        &&& forall|j: int|
            0 <= j < self.key_seq().len() && #[trigger] self.key_seq()[j] == d ==> marked[j]
    }

    spec fn closed_at(&self, i: int, marked: Seq<bool>, target: Seq<char>) -> bool {
        forall|d: Seq<char>|
            spec_depends_on(self.entry_seq()[i].spec, d) ==> #[trigger] self.dep_closed(
                d,
                marked,
                target,
            )
    }

    proof fn lemma_closed_no_path(
        &self,
        marked: Seq<bool>,
        p: Seq<Seq<char>>,
        target: Seq<char>,
        m: int,
    )
        requires
            self.wf(),
            marked.len() == self.keys@.len(),
            !self.has_key(target),
            forall|i2: int|
                0 <= i2 < marked.len() && #[trigger] marked[i2] ==> self.closed_at(i2, marked, target),
            is_dep_path(self.key_seq(), self.entry_seq(), p),
            self.has_key(p[0]),
            forall|j: int| 0 <= j < marked.len() && self.key_seq()[j] == p[0] ==> #[trigger] marked[j],
            0 <= m < p.len(),
        ensures
            m < p.len() - 1 ==> self.has_key(p[m]),
            forall|j: int| 0 <= j < marked.len() && self.key_seq()[j] == p[m] ==> #[trigger] marked[j],
            p[m] != target,
        decreases m,
    {
        let keys = self.key_seq();
        let entries = self.entry_seq();
        if m > 0 {
            self.lemma_closed_no_path(marked, p, target, m - 1);
            assert(dep_edge(keys, entries, p[m - 1], p[m]));
            let i = choose|i: int|
                0 <= i < keys.len() && #[trigger] keys[i] == p[m - 1] && spec_depends_on(entries[i].spec, p[m]);
            assert(marked[i]);
            assert(self.closed_at(i, marked, target));
            assert(self.dep_closed(p[m], marked, target));
            if m < p.len() - 1 {
                assert(dep_edge(keys, entries, p[m], p[m + 1]));
            }
        } else {
            if p.len() > 1 {
                assert(dep_edge(keys, entries, p[0], p[1]));
            }
        }
    }

    /// The messages of `errs` joined by `"; "`.
    fn join_messages(errs: &Vec<SpecValidationError>) -> (r: String)
        ensures
            r@ == joined_messages(errs@),
    {
        let mut out = String::new();
        let mut i: usize = 0;
        while i < errs.len()
            invariant
                i <= errs@.len(),
                out@ == joined_messages(errs@.take(i as int)),
            decreases errs@.len() - i,
        {
            let m = errs[i].message();
            if i > 0 {
                out.append("; ");
            }
            out.append(m.as_str());
            proof {
                assert(errs@.take(i + 1).drop_last() =~= errs@.take(i as int));
                if i == 0 {
                    assert(errs@.take(0) =~= Seq::<SpecValidationError>::empty());
                }
            }
            i = i + 1;
        }
        assert(errs@.take(errs@.len() as int) =~= errs@);
        out
    }

    /// The first projection source of `spec` that is not registered.
    fn first_missing_dep(&self, spec: &ProjectionSpec) -> (r: Option<ProjectionRef>)
        requires
            self.wf(),
        ensures
            r is None <==> !has_missing_dep(*spec, self.key_seq()),
            r matches Some(d) ==> is_first_missing_dep(*spec, self.key_seq(), d@),
    {
        let mut k: usize = 0;
        while k < spec.sources.len()
            invariant
                self.wf(),
                k <= spec.sources@.len(),
                forall|k2: int|
                    0 <= k2 < k && (#[trigger] spec.sources@[k2]).source is Projection
                        ==> self.key_seq().contains(spec.sources@[k2].source->Projection_id@),
            decreases spec.sources@.len() - k,
        {
            match &spec.sources[k].source {
                SourceRef::Projection { id, .. } => {
                    if self.key_index(id).is_none() {
                        proof {
                            assert(spec.sources@[k as int].source is Projection);
                            assert(spec_depends_on(*spec, id@));
                        }
                        return Some(id.duplicate());
                    }
                },
                _ => {},
            }
            k = k + 1;
        }
        proof {
            assert forall|d: Seq<char>| spec_depends_on(*spec, d) implies self.key_seq().contains(d) by {
                let k2 = choose|k2: int|
                    0 <= k2 < spec.sources@.len() && (#[trigger] spec.sources@[k2]).source is Projection
                        && spec.sources@[k2].source->Projection_id@ == d;
            }
        }
        None
    }

    /// Register a projection spec. It must pass validation, its id must be
    /// new, every projection it depends on must be registered, and it must
    /// not close a cycle; the checks are made in that order and the first
    /// that fails is reported. A new entry starts as `Building` and
    /// `Healthy`. Registration keeps an acyclic catalog acyclic.
    pub fn register(&mut self, spec: ProjectionSpec) -> (r: Result<(), CatalogError>)
        requires
            old(self).wf(),
        ensures
            final(self).wf(),
            !spec.is_valid() ==> (r matches Err(CatalogError::InvalidSpec(m)) && m@ == joined_messages(
                spec.validation_errors(),
            )),
            spec.is_valid() && old(self).has_key(spec.id@) ==> (r matches Err(
                CatalogError::AlreadyRegistered(id),
            ) && id@ == spec.id@),
            spec.is_valid() && !old(self).has_key(spec.id@) && has_missing_dep(spec, old(self).key_seq())
                ==> (r matches Err(CatalogError::MissingDependency(d)) && is_first_missing_dep(
                spec,
                old(self).key_seq(),
                d@,
            )),
            spec.is_valid() && !old(self).has_key(spec.id@) && !has_missing_dep(
                spec,
                old(self).key_seq(),
            ) ==> ((r == Err::<(), CatalogError>(CatalogError::CyclicDependency)) == exists|
                d: Seq<char>,
            |
                spec_depends_on(spec, d) && dep_reaches(
                    old(self).key_seq(),
                    old(self).entry_seq(),
                    d,
                    spec.id@,
                )),
            r is Ok ==> final(self).key_seq() == old(self).key_seq().push(spec.id@)
                && final(self).entry_seq() == old(self).entry_seq().push(
                CatalogEntry { spec, status: ProjectionStatus::Building, health: ProjectionHealth::Healthy },
            ),
            r is Err ==> final(self).key_seq() == old(self).key_seq() && final(self).entry_seq()
                == old(self).entry_seq(),
            old(self).is_acyclic() ==> final(self).is_acyclic(),
    {
        match spec.validate() {
            Err(errs) => {
                let m = Self::join_messages(&errs);
                return Err(CatalogError::InvalidSpec(m));
            },
            Ok(()) => {},
        }
        if self.key_index(&spec.id).is_some() {
            return Err(CatalogError::AlreadyRegistered(spec.id.duplicate()));
        }
        match self.first_missing_dep(&spec) {
            Some(d) => {
                return Err(CatalogError::MissingDependency(d));
            },
            None => {},
        }
        proof {
            assert forall|d: Seq<char>| spec_depends_on(spec, d) implies self.has_key(d) by {}
        }
        if self.would_create_cycle(&spec) {
            return Err(CatalogError::CyclicDependency);
        }
        let ghost old_keys = self.key_seq();
        let ghost old_entries = self.entry_seq();
        let ghost id = spec.id@;
        let key = spec.id.duplicate();
        let entry = CatalogEntry {
            spec,
            status: ProjectionStatus::Building,
            health: ProjectionHealth::Healthy,
        };
        self.keys.push(key);
        self.entries.push(entry);
        proof {
            assert(self.key_seq() =~= old_keys.push(id));
            assert(self.key_seq().no_duplicates()) by {
                assert forall|a: int, b: int|
                    0 <= a < b < self.key_seq().len() implies self.key_seq()[a] != self.key_seq()[b] by {
                    if b == old_keys.len() {
                        assert(old_keys.contains(old_keys[a]));
                    }
                }
            }
            assert(old_keys =~= self.key_seq().drop_last());
            assert(old_entries =~= self.entry_seq().drop_last());
            if old(self).is_acyclic() {
                let o = choose|o: Seq<Seq<char>>| is_topological(old_keys, old_entries, o);
                self.lemma_push_keeps_order(old_keys, old_entries, o);
            }
        }
        Ok(())
    }

    proof fn lemma_push_keeps_order(
        &self,
        old_keys: Seq<Seq<char>>,
        old_entries: Seq<CatalogEntry>,
        o: Seq<Seq<char>>,
    )
        requires
            self.wf(),
            old_keys.len() + 1 == self.key_seq().len(),
            old_keys == self.key_seq().drop_last(),
            old_entries == self.entry_seq().drop_last(),
            old_keys.no_duplicates(),
            is_topological(old_keys, old_entries, o),
            !has_missing_dep(self.entry_seq().last().spec, old_keys),
        ensures
            is_topological(self.key_seq(), self.entry_seq(), o.push(self.key_seq().last())),
    {
        let keys = self.key_seq();
        let entries = self.entry_seq();
        let n = old_keys.len();
        let id = keys.last();
        let q = o.push(id);
        lemma_unique_covers(o, old_keys);
        assert(!old_keys.contains(id)) by {
            if old_keys.contains(id) {
                let j = choose|j: int| 0 <= j < n && old_keys[j] == id;
                assert(keys[j] == keys[n as int]);
            }
        }
        assert forall|a: Seq<char>, d: Seq<char>|
            old_keys.contains(a) implies (dep_edge(keys, entries, a, d) <==> dep_edge(
            old_keys,
            old_entries,
            a,
            d,
        )) by {
            if dep_edge(keys, entries, a, d) {
                let i = choose|i: int|
                    0 <= i < keys.len() && #[trigger] keys[i] == a && spec_depends_on(entries[i].spec, d);
                assert(i < n);
                assert(old_keys[i] == a);
            }
            if dep_edge(old_keys, old_entries, a, d) {
                let i = choose|i: int|
                    0 <= i < old_keys.len() && #[trigger] old_keys[i] == a && spec_depends_on(
                        old_entries[i].spec,
                        d,
                    );
                assert(keys[i] == a);
            }
        }
        assert(q.no_duplicates());
        assert forall|k: int| 0 <= k < q.len() implies keys.contains(#[trigger] q[k]) by {
            if k < o.len() {
                assert(old_keys.contains(o[k]));
                let j = choose|j: int| 0 <= j < n && old_keys[j] == o[k];
                assert(keys[j] == o[k]);
            } else {
                assert(keys[n as int] == id);
            }
        }
        assert forall|k: int| 0 <= k < q.len() implies deps_done(
            keys,
            entries,
            q.take(k),
            #[trigger] q[k],
        ) by {
            if k < o.len() {
                assert(q.take(k) =~= o.take(k));
                assert(deps_done(old_keys, old_entries, o.take(k), o[k]));
                assert(old_keys.contains(o[k]));
            } else {
                assert(q.take(k) =~= o);
                assert forall|d: Seq<char>| #[trigger] dep_edge(keys, entries, id, d) implies o.contains(
                    d,
                ) by {
                    let i = choose|i: int|
                        0 <= i < keys.len() && #[trigger] keys[i] == id && spec_depends_on(
                            entries[i].spec,
                            d,
                        );
                    if i < n {
                        assert(old_keys[i] == id);
                    }
                    assert(i == n);
                    assert(old_keys.contains(d));
                }
            }
        }
    }

    /// The projection ids of the entries that declare `id` as a source, in
    /// registration order.
    pub fn dependents(&self, id: &ProjectionRef) -> (r: Vec<ProjectionRef>)
        requires
            self.wf(),
        ensures
            r@.map_values(|p: ProjectionRef| p@) == spec_dependents(self.entry_seq(), id@),
    {
        let mut out: Vec<ProjectionRef> = Vec::new();
        let mut i: usize = 0;
        while i < self.entries.len()
            invariant
                i <= self.entries@.len(),
                out@.map_values(|p: ProjectionRef| p@) == spec_dependents(
                    self.entries@.take(i as int),
                    id@,
                ),
            decreases self.entries@.len() - i,
        {
            let e = &self.entries[i];
            proof {
                assert(self.entries@.take(i + 1).drop_last() =~= self.entries@.take(i as int));
            }
            if Self::spec_has_dep(&e.spec, id) {
                out.push(e.spec.id.duplicate());
            }
            proof {
                assert(out@.map_values(|p: ProjectionRef| p@) =~= spec_dependents(
                    self.entries@.take(i + 1),
                    id@,
                ));
            }
            i = i + 1;
        }
        assert(self.entries@.take(self.entries@.len() as int) =~= self.entries@);
        out
    }

    /// All registered keys, in registration order.
    pub fn list_ids(&self) -> (r: Vec<ProjectionRef>)
        ensures
            r@.map_values(|p: ProjectionRef| p@) == self.key_seq(),
    {
        let mut out: Vec<ProjectionRef> = Vec::new();
        let mut i: usize = 0;
        while i < self.keys.len()
            invariant
                i <= self.keys@.len(),
                out@.map_values(|p: ProjectionRef| p@) == self.key_seq().take(i as int),
            decreases self.keys@.len() - i,
        {
            out.push(self.keys[i].duplicate());
            proof {
                assert(self.key_seq().take(i + 1) =~= self.key_seq().take(i as int).push(
                    self.keys@[i as int]@,
                ));
                assert(out@.map_values(|p: ProjectionRef| p@) =~= self.key_seq().take(i + 1));
            }
            i = i + 1;
        }
        assert(self.key_seq().take(self.keys@.len() as int) =~= self.key_seq());
        out
    }

    /// All entries, in registration order.
    pub fn entries(&self) -> (r: &Vec<CatalogEntry>)
        ensures
            r@ == self.entry_seq(),
    {
        &self.entries
    }

    /// Mutable access to the entry registered under `id`. The key stays as
    /// registered whatever the caller does to the entry.
    pub fn get_mut(&mut self, id: &ProjectionRef) -> (r: Option<&mut CatalogEntry>)
        requires
            old(self).wf(),
        ensures
            r is None <==> !old(self).has_key(id@),
            r is None ==> final(self).entry_seq() == old(self).entry_seq(),
            final(self).wf(),
            final(self).key_seq() == old(self).key_seq(),
            r matches Some(e) ==> exists|i: int|
                0 <= i < old(self).key_seq().len() && old(self).key_seq()[i] == id@ && *e == old(
                    self,
                ).entry_seq()[i] && final(self).entry_seq() == old(self).entry_seq().update(i, *final(e)),
    {
        match self.key_index(id) {
            Some(i) => Some(&mut self.entries[i]),
            None => None,
        }
    }
}

} // verus!
