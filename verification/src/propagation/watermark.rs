//! Watermarks: the incremental propagation position of each projection.

use vstd::prelude::*;

use crate::domain::values::ProjectionRef;
use crate::projection::runner::BuildStatus;
use crate::trusted::now_micros;

verus! {

/// Watermark state of a single projection. `last_build_at` is in
/// microseconds since the Unix epoch.
#[derive(Debug, Clone)]
pub struct WatermarkState {
    pub projection_id: ProjectionRef,
    pub last_processed_position: usize,
    pub last_build_at: i64,
    pub last_build_status: BuildStatus,
    pub pending_count: Option<usize>,
}

impl WatermarkState {
    /// A fresh watermark at position zero, stamped with the current time.
    pub fn new(projection_id: ProjectionRef) -> (r: Self)
        ensures
            r.projection_id == projection_id,
            r.last_processed_position == 0,
            r.last_build_status == BuildStatus::Success,
            r.pending_count is None,
    {
        WatermarkState {
            projection_id,
            last_processed_position: 0,
            last_build_at: now_micros(),
            last_build_status: BuildStatus::Success,
            pending_count: None,
        }
    }
}

/// In-memory watermark store: one state per projection id.
#[derive(Debug)]
pub struct WatermarkStore {
    states: Vec<WatermarkState>,
}

impl View for WatermarkStore {
    type V = Map<Seq<char>, WatermarkState>;

    closed spec fn view(&self) -> Map<Seq<char>, WatermarkState> {
        Map::new(
            |k: Seq<char>|
                exists|i: int|
                    0 <= i < self.states@.len() && #[trigger] self.states@[i].projection_id@ == k,
            |k: Seq<char>|
                self.states@[choose|i: int|
                    0 <= i < self.states@.len() && #[trigger] self.states@[i].projection_id@ == k],
        )
    }
}

impl WatermarkStore {
    /// Each projection id has at most one state.
    pub closed spec fn wf(&self) -> bool {
        forall|i: int, j: int|
            0 <= i < j < self.states@.len() ==> #[trigger] self.states@[i].projection_id@
                != #[trigger] self.states@[j].projection_id@
    }

    proof fn lemma_view_at(&self, i: int)
        requires
            self.wf(),
            0 <= i < self.states@.len(),
        ensures
            self@.contains_key(self.states@[i].projection_id@),
            self@[self.states@[i].projection_id@] == self.states@[i],
    {
        let k = self.states@[i].projection_id@;
        assert(self@.dom().contains(k));
        let j = choose|j: int| 0 <= j < self.states@.len() && #[trigger] self.states@[j].projection_id@ == k;
        if j < i {
            assert(self.states@[j].projection_id@ != self.states@[i].projection_id@);
        } else if i < j {
            assert(self.states@[i].projection_id@ != self.states@[j].projection_id@);
        }
    }

    /// After replacing the state at `i` by one with the same id, the view
    /// changes at that id only.
    proof fn lemma_view_update(old_s: &Self, new_s: &Self, i: int)
        requires
            old_s.wf(),
            0 <= i < old_s.states@.len(),
            new_s.states@.len() == old_s.states@.len(),
            new_s.states@[i].projection_id@ == old_s.states@[i].projection_id@,
            forall|j: int| 0 <= j < old_s.states@.len() && j != i ==> new_s.states@[j] == old_s.states@[j],
        ensures
            new_s.wf(),
            new_s@ == old_s@.insert(old_s.states@[i].projection_id@, new_s.states@[i]),
    {
        assert(new_s.wf()) by {
            assert forall|a: int, b: int|
                0 <= a < b < new_s.states@.len() implies #[trigger] new_s.states@[a].projection_id@
                    != #[trigger] new_s.states@[b].projection_id@ by {
                assert(old_s.states@[a].projection_id@ != old_s.states@[b].projection_id@);
            }
        }
        let k = old_s.states@[i].projection_id@;
        assert forall|x: Seq<char>| #[trigger] new_s@.contains_key(x) <==> old_s@.insert(
            k,
            new_s.states@[i],
        ).contains_key(x) by {
            if new_s@.contains_key(x) {
                let j = choose|j: int|
                    0 <= j < new_s.states@.len() && #[trigger] new_s.states@[j].projection_id@ == x;
                if j != i {
                    old_s.lemma_view_at(j);
                }
            }
            if old_s@.contains_key(x) && x != k {
                let j = choose|j: int|
                    0 <= j < old_s.states@.len() && #[trigger] old_s.states@[j].projection_id@ == x;
                new_s.lemma_view_at(j);
            }
            if x == k {
                new_s.lemma_view_at(i);
            }
        }
        assert forall|x: Seq<char>| #[trigger] new_s@.contains_key(x) implies new_s@[x] == old_s@.insert(
            k,
            new_s.states@[i],
        )[x] by {
            let j = choose|j: int|
                0 <= j < new_s.states@.len() && #[trigger] new_s.states@[j].projection_id@ == x;
            new_s.lemma_view_at(j);
            if j != i {
                old_s.lemma_view_at(j);
            }
        }
        assert(new_s@ =~= old_s@.insert(k, new_s.states@[i]));
    }

    /// After appending a state with a new id, the view gains that id.
    proof fn lemma_view_push(old_s: &Self, new_s: &Self)
        requires
            old_s.wf(),
            new_s.states@.len() == old_s.states@.len() + 1,
            forall|j: int| 0 <= j < old_s.states@.len() ==> new_s.states@[j] == old_s.states@[j],
            !old_s@.contains_key(new_s.states@.last().projection_id@),
        ensures
            new_s.wf(),
            new_s@ == old_s@.insert(new_s.states@.last().projection_id@, new_s.states@.last()),
    {
        let n = old_s.states@.len() as int;
        let k = new_s.states@.last().projection_id@;
        assert(new_s.wf()) by {
            assert forall|a: int, b: int|
                0 <= a < b < new_s.states@.len() implies #[trigger] new_s.states@[a].projection_id@
                    != #[trigger] new_s.states@[b].projection_id@ by {
                if b == n {
                    old_s.lemma_view_at(a);
                } else {
                    assert(old_s.states@[a].projection_id@ != old_s.states@[b].projection_id@);
                }
            }
        }
        assert forall|x: Seq<char>| #[trigger] new_s@.contains_key(x) <==> old_s@.insert(
            k,
            new_s.states@.last(),
        ).contains_key(x) by {
            if new_s@.contains_key(x) {
                let j = choose|j: int|
                    0 <= j < new_s.states@.len() && #[trigger] new_s.states@[j].projection_id@ == x;
                if j < n {
                    old_s.lemma_view_at(j);
                }
            }
            if old_s@.contains_key(x) {
                let j = choose|j: int|
                    0 <= j < old_s.states@.len() && #[trigger] old_s.states@[j].projection_id@ == x;
                new_s.lemma_view_at(j);
            }
            if x == k {
                new_s.lemma_view_at(n);
            }
        }
        assert forall|x: Seq<char>| #[trigger] new_s@.contains_key(x) implies new_s@[x] == old_s@.insert(
            k,
            new_s.states@.last(),
        )[x] by {
            let j = choose|j: int|
                0 <= j < new_s.states@.len() && #[trigger] new_s.states@[j].projection_id@ == x;
            new_s.lemma_view_at(j);
            if j < n {
                old_s.lemma_view_at(j);
            }
        }
        assert(new_s@ =~= old_s@.insert(k, new_s.states@.last()));
    }

    /// Each state is stored under its own projection id.
    pub proof fn lemma_key_is_id(&self)
        requires
            self.wf(),
        ensures
            forall|k: Seq<char>| #[trigger] self@.contains_key(k) ==> self@[k].projection_id@ == k,
    {
        assert forall|k: Seq<char>| #[trigger] self@.contains_key(k) implies self@[k].projection_id@ == k by {
            let j = choose|j: int|
                0 <= j < self.states@.len() && #[trigger] self.states@[j].projection_id@ == k;
            self.lemma_view_at(j);
        }
    }

    pub fn new() -> (r: Self)
        ensures
            r.wf(),
            r@ == Map::<Seq<char>, WatermarkState>::empty(),
    {
        let r = WatermarkStore { states: Vec::new() };
        assert(r@ =~= Map::<Seq<char>, WatermarkState>::empty());
        r
    }

    fn index_of(&self, id: &ProjectionRef) -> (r: Option<usize>)
        requires
            self.wf(),
        ensures
            r is None <==> !self@.contains_key(id@),
            r matches Some(i) ==> i < self.states@.len() && self.states@[i as int].projection_id@
                == id@,
    {
        let mut i: usize = 0;
        while i < self.states.len()
            invariant
                self.wf(),
                i <= self.states@.len(),
                forall|j: int| 0 <= j < i ==> self.states@[j].projection_id@ != id@,
            decreases self.states@.len() - i,
        {
            if self.states[i].projection_id.0 == id.0 {
                proof {
                    self.lemma_view_at(i as int);
                }
                return Some(i);
            }
            i = i + 1;
        }
        None
    }

    pub fn get(&self, projection_id: &ProjectionRef) -> (r: Option<&WatermarkState>)
        requires
            self.wf(),
        ensures
            match r {
                Some(s) => self@.contains_key(projection_id@) && *s == self@[projection_id@],
                None => !self@.contains_key(projection_id@),
            },
    {
        match self.index_of(projection_id) {
            Some(i) => {
                proof {
                    self.lemma_view_at(i as int);
                }
                Some(&self.states[i])
            },
            None => None,
        }
    }

    /// The state of `projection_id`, created at position zero if absent.
    pub fn get_or_init(&mut self, projection_id: &ProjectionRef) -> (r: &WatermarkState)
        requires
            old(self).wf(),
        ensures
            final(self).wf(),
            final(self)@.contains_key(projection_id@),
            *r == final(self)@[projection_id@],
            old(self)@.contains_key(projection_id@) ==> final(self)@ == old(self)@,
            !old(self)@.contains_key(projection_id@) ==> {
                &&& final(self)@.remove(projection_id@) == old(self)@
                &&& r.projection_id@ == projection_id@
                &&& r.last_processed_position == 0
                &&& r.last_build_status == BuildStatus::Success
                &&& r.pending_count is None
            },
    {
        match self.index_of(projection_id) {
            Some(i) => {
                proof {
                    self.lemma_view_at(i as int);
                }
                &self.states[i]
            },
            None => {
                let ghost old_s = *self;
                self.states.push(WatermarkState::new(projection_id.duplicate()));
                proof {
                    Self::lemma_view_push(&old_s, self);
                    assert(self@.remove(projection_id@) =~= old_s@);
                }
                let n = self.states.len() - 1;
                &self.states[n]
            },
        }
    }

    /// Advance the watermark of `projection_id` to `position` after a build
    /// with `status`, creating the state if absent, stamped with the current
    /// time. A watermark never decreases: `position` must not be below the
    /// current one. Whatever the clock gives, the outcome is the one
    /// `update_at` describes for that time.
    pub fn update(&mut self, projection_id: &ProjectionRef, position: usize, status: BuildStatus)
        requires
            old(self).wf(),
            old(self)@.contains_key(projection_id@) ==> position
                >= old(self)@[projection_id@].last_processed_position,
        ensures
            final(self).wf(),
            final(self)@.contains_key(projection_id@),
            final(self)@.remove(projection_id@) == old(self)@.remove(projection_id@),
            final(self)@[projection_id@].projection_id@ == projection_id@,
            final(self)@[projection_id@].last_processed_position == position,
            final(self)@[projection_id@].last_build_status == status,
            final(self)@[projection_id@].pending_count is None,
    {
        let now = now_micros();
        self.update_at(projection_id, position, status, now);
    }

    /// Advance the watermark of `projection_id` to `position` after a build
    /// with `status` that ended at `now`, creating the state if absent. A
    /// watermark never decreases: `position` must not be below the current
    /// one.
    pub fn update_at(&mut self, projection_id: &ProjectionRef, position: usize, status: BuildStatus, now: i64)
        requires
            old(self).wf(),
            old(self)@.contains_key(projection_id@) ==> position
                >= old(self)@[projection_id@].last_processed_position,
        ensures
            final(self).wf(),
            final(self)@.contains_key(projection_id@),
            final(self)@.remove(projection_id@) == old(self)@.remove(projection_id@),
            final(self)@[projection_id@].projection_id@ == projection_id@,
            final(self)@[projection_id@].last_processed_position == position,
            final(self)@[projection_id@].last_build_at == now,
            final(self)@[projection_id@].last_build_status == status,
            final(self)@[projection_id@].pending_count is None,
    {
        let i = match self.index_of(projection_id) {
            Some(i) => i,
            None => {
                let ghost old_s = *self;
                self.states.push(WatermarkState::new(projection_id.duplicate()));
                proof {
                    Self::lemma_view_push(&old_s, self);
                }
                self.states.len() - 1
            },
        };
        let ghost mid = *self;
        let ghost k = self.states@[i as int].projection_id@;
        self.states[i].last_processed_position = position;
        self.states[i].last_build_at = now;
        self.states[i].last_build_status = status;
        self.states[i].pending_count = None;
        proof {
            Self::lemma_view_update(&mid, self, i as int);
            self.lemma_view_at(i as int);
            assert(final(self)@.remove(projection_id@) =~= old(self)@.remove(projection_id@));
        }
    }

    /// Record a failed build: the status becomes `Failed` and the watermark
    /// position stays unchanged. Nothing happens for an unknown id. Whatever
    /// the clock gives, the outcome is the one `record_failure_at` describes
    /// for that time.
    pub fn record_failure(&mut self, projection_id: &ProjectionRef)
        requires
            old(self).wf(),
        ensures
            final(self).wf(),
            !old(self)@.contains_key(projection_id@) ==> final(self)@ == old(self)@,
            old(self)@.contains_key(projection_id@) ==> {
                &&& final(self)@.remove(projection_id@) == old(self)@.remove(projection_id@)
                &&& final(self)@.contains_key(projection_id@)
                &&& final(self)@[projection_id@] == WatermarkState {
                    last_build_status: BuildStatus::Failed,
                    last_build_at: final(self)@[projection_id@].last_build_at,
                    ..old(self)@[projection_id@]
                }
            },
    {
        let now = now_micros();
        self.record_failure_at(projection_id, now);
    }

    /// Record a build of `projection_id` that failed at `now`: the status
    /// becomes `Failed`, the build time `now`, and the watermark position
    /// stays unchanged. Nothing happens for an unknown id.
    pub fn record_failure_at(&mut self, projection_id: &ProjectionRef, now: i64)
        requires
            old(self).wf(),
        ensures
            final(self).wf(),
            !old(self)@.contains_key(projection_id@) ==> final(self)@ == old(self)@,
            old(self)@.contains_key(projection_id@) ==> final(self)@ == old(self)@.insert(
                projection_id@,
                WatermarkState {
                    last_build_status: BuildStatus::Failed,
                    last_build_at: now,
                    ..old(self)@[projection_id@]
                },
            ),
    {
        match self.index_of(projection_id) {
            Some(i) => {
                let ghost mid = *self;
                proof {
                    self.lemma_view_at(i as int);
                }
                self.states[i].last_build_status = BuildStatus::Failed;
                self.states[i].last_build_at = now;
                proof {
                    Self::lemma_view_update(&mid, self, i as int);
                    self.lemma_view_at(i as int);
                }
            },
            None => {},
        }
    }

    /// Set the pending count of `projection_id` to how far `lake_position`
    /// is ahead of its watermark (zero when it is not ahead). Nothing
    /// happens for an unknown id.
    pub fn update_pending(&mut self, projection_id: &ProjectionRef, lake_position: usize)
        requires
            old(self).wf(),
        ensures
            final(self).wf(),
            !old(self)@.contains_key(projection_id@) ==> final(self)@ == old(self)@,
            old(self)@.contains_key(projection_id@) ==> final(self)@ == old(self)@.insert(
                projection_id@,
                WatermarkState {
                    pending_count: Some(
                        if lake_position >= old(self)@[projection_id@].last_processed_position {
                            (lake_position - old(self)@[projection_id@].last_processed_position) as usize
                        } else {
                            0
                        },
                    ),
                    ..old(self)@[projection_id@]
                },
            ),
    {
        match self.index_of(projection_id) {
            Some(i) => {
                let ghost mid = *self;
                proof {
                    self.lemma_view_at(i as int);
                }
                let pos = self.states[i].last_processed_position;
                let pending = if lake_position >= pos {
                    lake_position - pos
                } else {
                    0
                };
                self.states[i].pending_count = Some(pending);
                proof {
                    Self::lemma_view_update(&mid, self, i as int);
                }
            },
            None => {},
        }
    }

    /// All states.
    pub fn all(&self) -> (r: &Vec<WatermarkState>)
        requires
            self.wf(),
        ensures
            forall|i: int|
                0 <= i < r@.len() ==> self@.contains_key(r@[i].projection_id@) && self@[r@[i].projection_id@]
                    == r@[i],
            forall|k: Seq<char>|
                self@.contains_key(k) ==> exists|i: int|
                    0 <= i < r@.len() && #[trigger] r@[i].projection_id@ == k,
    {
        proof {
            assert forall|i: int| 0 <= i < self.states@.len() implies self@.contains_key(
                self.states@[i].projection_id@,
            ) && self@[self.states@[i].projection_id@] == self.states@[i] by {
                self.lemma_view_at(i);
            }
        }
        &self.states
    }
}

} // verus!
