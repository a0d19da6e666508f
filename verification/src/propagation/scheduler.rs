//! Poll-based incremental propagation over the projection DAG.

use vstd::prelude::*;

use crate::domain::types::ProjectionHealth;
use crate::domain::values::ProjectionRef;
use crate::lake::store::LakeStore;
use crate::projection::catalog::{
    is_greatest_ready_first, is_topological, spec_dependents, CatalogEntry, CatalogError,
    ProjectionCatalog,
};
use crate::projection::runner::BuildStatus;
use crate::propagation::watermark::{WatermarkState, WatermarkStore};

verus! {

/// Result of one propagation cycle for one projection.
#[derive(Debug, Clone, PartialEq, Eq)]
pub enum PropagationResult {
    /// No new data: skipped.
    NoOp,
    /// Incremental apply executed.
    Applied { new_position: usize, new_records: usize },
    /// Build failed: watermark unchanged.
    Failed { reason: String },
}

/// The watermark position of `id` before a cycle (zero when it has none).
pub open spec fn prior_position(wm: Map<Seq<char>, WatermarkState>, id: Seq<char>) -> nat {
    if wm.contains_key(id) {
        wm[id].last_processed_position as nat
    } else {
        0
    }
}

/// The lake has data that the projection `id` has not processed yet.
pub open spec fn has_new_data(wm: Map<Seq<char>, WatermarkState>, id: Seq<char>, lake_len: nat) -> bool {
    prior_position(wm, id) < lake_len
}

/// What one propagation step reports for a projection at watermark `cur`
/// when the lake holds `lake_len` observations.
pub open spec fn expected_result(cur: nat, lake_len: nat) -> PropagationResult {
    if cur >= lake_len {
        PropagationResult::NoOp
    } else {
        PropagationResult::Applied {
            new_position: lake_len as usize,
            new_records: (lake_len - cur) as usize,
        }
    }
}

/// The watermark of `id` after one propagation step.
pub open spec fn stepped_state(
    old_wm: Map<Seq<char>, WatermarkState>,
    st: WatermarkState,
    id: Seq<char>,
    lake_len: nat,
) -> bool {
    &&& st.projection_id@ == id
    &&& if has_new_data(old_wm, id, lake_len) {
        &&& st.last_processed_position == lake_len
        &&& st.last_build_status == BuildStatus::Success
        &&& st.pending_count is None
    } else {
        &&& st.last_processed_position == prior_position(old_wm, id)
        &&& st.pending_count == Some(0usize)
        &&& st.last_build_status == if old_wm.contains_key(id) {
            old_wm[id].last_build_status
        } else {
            BuildStatus::Success
        }
    }
}

/// One propagation step for `x` leaves every other watermark as it was
/// and leaves `x` in its stepped state.
proof fn lemma_step_watermarks(
    old_wm: Map<Seq<char>, WatermarkState>,
    before: Map<Seq<char>, WatermarkState>,
    after: Map<Seq<char>, WatermarkState>,
    done: Seq<Seq<char>>,
    x: Seq<char>,
    lake_len: nat,
)
    requires
        !done.contains(x),
        after.contains_key(x),
        after.remove(x) == before.remove(x),
        stepped_state(old_wm, after[x], x, lake_len),
        forall|y: Seq<char>|
            done.contains(y) ==> #[trigger] before.contains_key(y) && stepped_state(
                old_wm,
                before[y],
                y,
                lake_len,
            ),
        forall|y: Seq<char>|
            !done.contains(y) ==> (#[trigger] before.contains_key(y) == old_wm.contains_key(y) && (
            old_wm.contains_key(y) ==> before[y] == old_wm[y])),
    ensures
        forall|y: Seq<char>|
            done.push(x).contains(y) ==> #[trigger] after.contains_key(y) && stepped_state(
                old_wm,
                after[y],
                y,
                lake_len,
            ),
        forall|y: Seq<char>|
            !done.push(x).contains(y) ==> (#[trigger] after.contains_key(y) == old_wm.contains_key(y)
                && (old_wm.contains_key(y) ==> after[y] == old_wm[y])),
{
    assert forall|y: Seq<char>| done.push(x).contains(y) implies #[trigger] after.contains_key(y)
        && stepped_state(old_wm, after[y], y, lake_len) by {
        if y != x {
            let k = choose|k: int| 0 <= k < done.push(x).len() && done.push(x)[k] == y;
            assert(k < done.len());
            assert(done.contains(y));
            assert(after.remove(x).contains_key(y));
            assert(after[y] == after.remove(x)[y]);
        }
    }
    assert forall|y: Seq<char>| !done.push(x).contains(y) implies (#[trigger] after.contains_key(y)
        == old_wm.contains_key(y) && (old_wm.contains_key(y) ==> after[y] == old_wm[y])) by {
        assert(done.push(x)[done.len() as int] == x);
        assert(y != x);
        assert(!done.contains(y)) by {
            if done.contains(y) {
                let k = choose|k: int| 0 <= k < done.len() && done[k] == y;
                assert(done.push(x)[k] == y);
            }
        }
        if after.contains_key(y) {
            assert(after.remove(x).contains_key(y));
        }
        if before.contains_key(y) {
            assert(before.remove(x).contains_key(y));
            assert(after[y] == after.remove(x)[y]);
        }
    }
}

/// Poll-based propagation scheduler.
pub struct PropagationScheduler;

impl PropagationScheduler {
    /// One poll for one projection: make sure it has a watermark, record how
    /// far the lake is ahead of it, and return its position and the lake's.
    pub fn check_and_prepare(
        projection_id: &ProjectionRef,
        lake: &LakeStore,
        watermarks: &mut WatermarkStore,
    ) -> (r: (usize, usize))
        requires
            old(watermarks).wf(),
        ensures
            final(watermarks).wf(),
            r.0 == prior_position(old(watermarks)@, projection_id@),
            r.1 == lake.obs_seq().len(),
            final(watermarks)@.contains_key(projection_id@),
            final(watermarks)@.remove(projection_id@) == old(watermarks)@.remove(projection_id@),
            final(watermarks)@[projection_id@].projection_id@ == projection_id@,
            final(watermarks)@[projection_id@].last_processed_position == r.0,
            final(watermarks)@[projection_id@].pending_count == Some(
                if r.1 >= r.0 {
                    (r.1 - r.0) as usize
                } else {
                    0usize
                },
            ),
            final(watermarks)@[projection_id@].last_build_status == if old(watermarks)@.contains_key(
                projection_id@,
            ) {
                old(watermarks)@[projection_id@].last_build_status
            } else {
                BuildStatus::Success
            },
            old(watermarks)@.contains_key(projection_id@) ==> final(watermarks)@[projection_id@].last_build_at == old(watermarks)@[projection_id@].last_build_at,
    {
        proof {
            old(watermarks).lemma_key_is_id();
        }
        let wm = watermarks.get_or_init(projection_id);
        let current_pos = wm.last_processed_position;
        let lake_pos = match lake.watermark() {
            Some(w) => w.position,
            None => 0,
        };
        let ghost mid = watermarks@;
        watermarks.update_pending(projection_id, lake_pos);
        proof {
            assert(watermarks@.remove(projection_id@) =~= mid.remove(projection_id@));
            if !old(watermarks)@.contains_key(projection_id@) {
                assert(mid.remove(projection_id@) =~= old(watermarks)@.remove(projection_id@));
            }
        }
        (current_pos, lake_pos)
    }

    /// Commit a successful incremental apply: advance the watermark and mark
    /// the projection healthy.
    pub fn commit_success(
        projection_id: &ProjectionRef,
        new_position: usize,
        watermarks: &mut WatermarkStore,
        catalog: &mut ProjectionCatalog,
    )
        requires
            old(watermarks).wf(),
            old(catalog).wf(),
            old(watermarks)@.contains_key(projection_id@) ==> new_position >= old(watermarks)@[projection_id@].last_processed_position,
        ensures
            final(watermarks).wf(),
            final(watermarks)@.contains_key(projection_id@),
            final(watermarks)@.remove(projection_id@) == old(watermarks)@.remove(projection_id@),
            final(watermarks)@[projection_id@].projection_id@ == projection_id@,
            final(watermarks)@[projection_id@].last_processed_position == new_position,
            final(watermarks)@[projection_id@].last_build_status == BuildStatus::Success,
            final(watermarks)@[projection_id@].pending_count is None,
            final(catalog).wf(),
            final(catalog).key_seq() == old(catalog).key_seq(),
            final(catalog).entry_seq().len() == old(catalog).entry_seq().len(),
            forall|i: int|
                0 <= i < old(catalog).entry_seq().len() ==> #[trigger] final(catalog).entry_seq()[i]
                    == if old(catalog).key_seq()[i] == projection_id@ {
                    CatalogEntry { health: ProjectionHealth::Healthy, ..old(catalog).entry_seq()[i] }
                } else {
                    old(catalog).entry_seq()[i]
                },
    {
        watermarks.update(projection_id, new_position, BuildStatus::Success);
        catalog.set_health(projection_id, ProjectionHealth::Healthy);
    }

    /// Record a failed build: the watermark stays, the status becomes
    /// `Failed` and the projection is marked broken.
    pub fn commit_failure(
        projection_id: &ProjectionRef,
        watermarks: &mut WatermarkStore,
        catalog: &mut ProjectionCatalog,
    )
        requires
            old(watermarks).wf(),
            old(catalog).wf(),
        ensures
            final(watermarks).wf(),
            !old(watermarks)@.contains_key(projection_id@) ==> final(watermarks)@ == old(watermarks)@,
            old(watermarks)@.contains_key(projection_id@) ==> {
                &&& final(watermarks)@.remove(projection_id@) == old(watermarks)@.remove(
                    projection_id@,
                )
                &&& final(watermarks)@.contains_key(projection_id@)
                &&& final(watermarks)@[projection_id@] == WatermarkState {
                    last_build_status: BuildStatus::Failed,
                    last_build_at: final(watermarks)@[projection_id@].last_build_at,
                    ..old(watermarks)@[projection_id@]
                }
            },
            final(catalog).wf(),
            final(catalog).key_seq() == old(catalog).key_seq(),
            final(catalog).entry_seq().len() == old(catalog).entry_seq().len(),
            forall|i: int|
                0 <= i < old(catalog).entry_seq().len() ==> #[trigger] final(catalog).entry_seq()[i]
                    == if old(catalog).key_seq()[i] == projection_id@ {
                    CatalogEntry { health: ProjectionHealth::Broken, ..old(catalog).entry_seq()[i] }
                } else {
                    old(catalog).entry_seq()[i]
                },
    {
        watermarks.record_failure(projection_id);
        catalog.set_health(projection_id, ProjectionHealth::Broken);
    }

    /// Mark the projections that depend on `failed_id` as degraded.
    pub fn propagate_upstream_failure(failed_id: &ProjectionRef, catalog: &mut ProjectionCatalog)
        requires
            old(catalog).wf(),
        ensures
            final(catalog).wf(),
            final(catalog).key_seq() == old(catalog).key_seq(),
            final(catalog).entry_seq().len() == old(catalog).entry_seq().len(),
            forall|i: int|
                0 <= i < old(catalog).entry_seq().len() ==> #[trigger] final(catalog).entry_seq()[i]
                    == if spec_dependents(old(catalog).entry_seq(), failed_id@).contains(
                    old(catalog).key_seq()[i],
                ) {
                    CatalogEntry { health: ProjectionHealth::Degraded, ..old(catalog).entry_seq()[i] }
                } else {
                    old(catalog).entry_seq()[i]
                },
    {
        let dependents = catalog.dependents(failed_id);
        let ghost deps = spec_dependents(old(catalog).entry_seq(), failed_id@);
        let ghost old_entries = old(catalog).entry_seq();
        let ghost keys = old(catalog).key_seq();
        let mut k: usize = 0;
        while k < dependents.len()
            invariant
                catalog.wf(),
                catalog.key_seq() == keys,
                catalog.entry_seq().len() == old_entries.len(),
                dependents@.map_values(|p: ProjectionRef| p@) == deps,
                k <= dependents@.len(),
                forall|i: int|
                    0 <= i < old_entries.len() ==> #[trigger] catalog.entry_seq()[i] == if deps.take(
                        k as int,
                    ).contains(keys[i]) {
                        CatalogEntry { health: ProjectionHealth::Degraded, ..old_entries[i] }
                    } else {
                        old_entries[i]
                    },
            decreases dependents@.len() - k,
        {
            let ghost before = catalog.entry_seq();
            catalog.set_health(&dependents[k], ProjectionHealth::Degraded);
            proof {
                assert(deps[k as int] == dependents@[k as int]@);
                assert forall|i: int| 0 <= i < old_entries.len() implies #[trigger] catalog.entry_seq()[i]
                    == if deps.take(k + 1).contains(keys[i]) {
                    CatalogEntry { health: ProjectionHealth::Degraded, ..old_entries[i] }
                } else {
                    old_entries[i]
                } by {
                    assert(deps.take(k + 1) =~= deps.take(k as int).push(deps[k as int]));
                    if deps.take(k as int).contains(keys[i]) {
                        let j = choose|j: int| 0 <= j < k && #[trigger] deps.take(k as int)[j] == keys[i];
                        assert(deps.take(k + 1)[j] == keys[i]);
                    }
                    if keys[i] == deps[k as int] {
                        assert(deps.take(k + 1)[k as int] == keys[i]);
                    } else if deps.take(k + 1).contains(keys[i]) {
                        let j = choose|j: int| 0 <= j < k + 1 && #[trigger] deps.take(k + 1)[j] == keys[i];
                        assert(j != k);
                        assert(deps.take(k as int)[j] == keys[i]);
                    }
                }
            }
            k = k + 1;
        }
        proof {
            assert(deps.take(dependents@.len() as int) =~= deps);
        }
    }

    /// Run one propagation cycle over all projections in dependency order.
    ///
    /// When the catalog has no dependency order, every projection is marked
    /// broken and the error is returned; watermarks are untouched. Otherwise
    /// the result lists the projections in the order of
    /// `ProjectionCatalog::topological_order`; a projection whose watermark is
    /// behind the lake is advanced to the lake's position (reported as
    /// `Applied`, and marked healthy), the others are reported as `NoOp`.
    #[verifier::rlimit(60)]
    pub fn propagate_all(
        lake: &LakeStore,
        watermarks: &mut WatermarkStore,
        catalog: &mut ProjectionCatalog,
    ) -> (r: Result<Vec<(ProjectionRef, PropagationResult)>, CatalogError>)
        requires
            old(watermarks).wf(),
            old(catalog).wf(),
        ensures
            final(watermarks).wf(),
            final(catalog).wf(),
            final(catalog).key_seq() == old(catalog).key_seq(),
            final(catalog).entry_seq().len() == old(catalog).entry_seq().len(),
            r is Ok <==> old(catalog).is_acyclic(),
            r matches Err(e) ==> {
                &&& e == CatalogError::CyclicDependency
                &&& final(watermarks)@ == old(watermarks)@
                &&& forall|i: int|
                    0 <= i < old(catalog).entry_seq().len() ==> #[trigger] final(catalog).entry_seq()[i]
                        == CatalogEntry {
                        health: ProjectionHealth::Broken,
                        ..old(catalog).entry_seq()[i]
                    }
            },
            r matches Ok(results) ==> is_topological(
                old(catalog).key_seq(),
                old(catalog).entry_seq(),
                results@.map_values(|x: (ProjectionRef, PropagationResult)| x.0@),
            ),
            r matches Ok(results) ==> is_greatest_ready_first(
                old(catalog).key_seq(),
                old(catalog).entry_seq(),
                results@.map_values(|x: (ProjectionRef, PropagationResult)| x.0@),
            ),
            r matches Ok(results) ==> forall|k: int|
                0 <= k < results@.len() ==> (#[trigger] results@[k]).1 == expected_result(
                    prior_position(old(watermarks)@, results@[k].0@),
                    lake.obs_seq().len(),
                ),
            r is Ok ==> forall|i: int|
                0 <= i < old(catalog).key_seq().len() ==> #[trigger] final(catalog).entry_seq()[i]
                    == if has_new_data(old(watermarks)@, old(catalog).key_seq()[i], lake.obs_seq().len()) {
                    CatalogEntry { health: ProjectionHealth::Healthy, ..old(catalog).entry_seq()[i] }
                } else {
                    old(catalog).entry_seq()[i]
                },
            r is Ok ==> forall|i: int|
                0 <= i < old(catalog).key_seq().len() ==> final(watermarks)@.contains_key(
                    #[trigger] old(catalog).key_seq()[i],
                ) && stepped_state(
                    old(watermarks)@,
                    final(watermarks)@[old(catalog).key_seq()[i]],
                    old(catalog).key_seq()[i],
                    lake.obs_seq().len(),
                ),
            r is Ok ==> forall|x: Seq<char>|
                !old(catalog).key_seq().contains(x) ==> (#[trigger] final(watermarks)@.contains_key(x)
                    == old(watermarks)@.contains_key(x)),
            r is Ok ==> forall|x: Seq<char>|
                !old(catalog).key_seq().contains(x) && #[trigger] old(watermarks)@.contains_key(x)
                    ==> final(watermarks)@[x] == old(watermarks)@[x],
    {
        let ghost keys = old(catalog).key_seq();
        let ghost old_entries = old(catalog).entry_seq();
        let ghost old_wm = old(watermarks)@;
        let ghost lake_len = lake.obs_seq().len();
        proof {
            old(catalog).lemma_wf_keys();
        }
        let order = match catalog.topological_order() {
            Ok(o) => o,
            Err(err) => {
                let ids = catalog.list_ids();
                let mut k: usize = 0;
                while k < ids.len()
                    invariant
                        catalog.wf(),
                        catalog.key_seq() == keys,
                        keys.no_duplicates(),
                        keys.len() == old_entries.len(),
                        catalog.entry_seq().len() == old_entries.len(),
                        ids@.map_values(|p: ProjectionRef| p@) == keys,
                        k <= ids@.len(),
                        forall|i: int|
                            0 <= i < old_entries.len() ==> #[trigger] catalog.entry_seq()[i] == if i < k {
                                CatalogEntry { health: ProjectionHealth::Broken, ..old_entries[i] }
                            } else {
                                old_entries[i]
                            },
                    decreases ids@.len() - k,
                {
                    catalog.set_health(&ids[k], ProjectionHealth::Broken);
                    proof {
                        assert(ids@[k as int]@ == keys[k as int]);
                        assert forall|i: int| 0 <= i < old_entries.len() && i != k implies keys[i]
                            != keys[k as int] by {}
                    }
                    k = k + 1;
                }
                return Err(err);
            },
        };
        let ghost o = order@.map_values(|p: ProjectionRef| p@);
        proof {
            old(watermarks).lemma_key_is_id();
        }
        let mut results: Vec<(ProjectionRef, PropagationResult)> = Vec::new();
        let mut i: usize = 0;
        while i < order.len()
            invariant
                watermarks.wf(),
                catalog.wf(),
                catalog.key_seq() == keys,
                catalog.entry_seq().len() == old_entries.len(),
                keys.no_duplicates(),
                keys.len() == old_entries.len(),
                o == order@.map_values(|p: ProjectionRef| p@),
                is_topological(keys, old_entries, o),
                i <= order@.len(),
                lake_len == lake.obs_seq().len(),
                results@.len() == i,
                forall|k: int|
                    0 <= k < i ==> (#[trigger] results@[k]).0@ == o[k] && results@[k].1
                        == expected_result(prior_position(old_wm, o[k]), lake_len),
                forall|j: int|
                    0 <= j < keys.len() ==> #[trigger] catalog.entry_seq()[j] == if o.take(
                        i as int,
                    ).contains(keys[j]) && has_new_data(old_wm, keys[j], lake_len) {
                        CatalogEntry { health: ProjectionHealth::Healthy, ..old_entries[j] }
                    } else {
                        old_entries[j]
                    },
                forall|x: Seq<char>|
                    o.take(i as int).contains(x) ==> #[trigger] watermarks@.contains_key(x)
                        && stepped_state(old_wm, watermarks@[x], x, lake_len),
                forall|x: Seq<char>|
                    !o.take(i as int).contains(x) ==> (#[trigger] watermarks@.contains_key(x)
                        == old_wm.contains_key(x) && (old_wm.contains_key(x) ==> watermarks@[x]
                        == old_wm[x])),
                forall|k: Seq<char>| #[trigger] old_wm.contains_key(k) ==> old_wm[k].projection_id@ == k,
            decreases order@.len() - i,
        {
            let id = &order[i];
            let ghost cur_id = id@;
            proof {
                assert(o[i as int] == cur_id);
                assert(!o.take(i as int).contains(cur_id)) by {
                    if o.take(i as int).contains(cur_id) {
                        let k = choose|k: int| 0 <= k < i && #[trigger] o.take(i as int)[k] == cur_id;
                        assert(o[k] == o[i as int]);
                    }
                }
                assert(o.take(i + 1) =~= o.take(i as int).push(cur_id));
            }
            let ghost before = watermarks@;
            let (current, lake_pos) = Self::check_and_prepare(id, lake, watermarks);
            assert(prior_position(before, cur_id) == prior_position(old_wm, cur_id));
            if current >= lake_pos {
                results.push((id.duplicate(), PropagationResult::NoOp));
                proof {
                    assert forall|j: int| 0 <= j < keys.len() implies #[trigger] catalog.entry_seq()[j]
                        == if o.take(i + 1).contains(keys[j]) && has_new_data(old_wm, keys[j], lake_len) {
                        CatalogEntry { health: ProjectionHealth::Healthy, ..old_entries[j] }
                    } else {
                        old_entries[j]
                    } by {
                        crate::seqs::lemma_push_contains(o.take(i as int), cur_id, keys[j]);
                    }
                    self::lemma_step_watermarks(old_wm, before, watermarks@, o.take(i as int), cur_id, lake_len);
                    assert forall|y: Seq<char>| !o.take(i + 1).contains(y) implies (
                    #[trigger] watermarks@.contains_key(y) == old_wm.contains_key(y) && (
                    old_wm.contains_key(y) ==> watermarks@[y] == old_wm[y])) by {
                        crate::seqs::lemma_push_contains(o.take(i as int), cur_id, y);
                        assert(!o.take(i as int).push(cur_id).contains(y));
                        assert(watermarks@.contains_key(y) == old_wm.contains_key(y));
                        assert(old_wm.contains_key(y) ==> watermarks@[y] == old_wm[y]);
                    }
                }
            } else {
                let new_records = lake_pos - current;
                let ghost mid = watermarks@;
                let ghost cat_before = catalog.entry_seq();
                Self::commit_success(id, lake_pos, watermarks, catalog);
                results.push(
                    (
                        id.duplicate(),
                        PropagationResult::Applied { new_position: lake_pos, new_records },
                    ),
                );
                proof {
                    assert(watermarks@.remove(cur_id) =~= before.remove(cur_id));
                    assert forall|j: int| 0 <= j < keys.len() implies #[trigger] catalog.entry_seq()[j]
                        == if o.take(i + 1).contains(keys[j]) && has_new_data(old_wm, keys[j], lake_len) {
                        CatalogEntry { health: ProjectionHealth::Healthy, ..old_entries[j] }
                    } else {
                        old_entries[j]
                    } by {
                        crate::seqs::lemma_push_contains(o.take(i as int), cur_id, keys[j]);
                    }
                    self::lemma_step_watermarks(old_wm, before, watermarks@, o.take(i as int), cur_id, lake_len);
                    assert forall|y: Seq<char>| !o.take(i + 1).contains(y) implies (
                    #[trigger] watermarks@.contains_key(y) == old_wm.contains_key(y) && (
                    old_wm.contains_key(y) ==> watermarks@[y] == old_wm[y])) by {
                        crate::seqs::lemma_push_contains(o.take(i as int), cur_id, y);
                        assert(!o.take(i as int).push(cur_id).contains(y));
                        assert(watermarks@.contains_key(y) == old_wm.contains_key(y));
                        assert(old_wm.contains_key(y) ==> watermarks@[y] == old_wm[y]);
                    }
                }
            }
            proof {
                assert(forall|y: Seq<char>|
                    o.take(i + 1).contains(y) ==> #[trigger] watermarks@.contains_key(y)
                        && stepped_state(old_wm, watermarks@[y], y, lake_len));
                assert(forall|y: Seq<char>|
                    !o.take(i + 1).contains(y) ==> (#[trigger] watermarks@.contains_key(y)
                        == old_wm.contains_key(y) && (old_wm.contains_key(y) ==> watermarks@[y]
                        == old_wm[y])));
            }
            i = i + 1;
        }
        proof {
            assert(o.take(order@.len() as int) =~= o);
            crate::seqs::lemma_unique_covers(o, keys);
            let ids = results@.map_values(|x: (ProjectionRef, PropagationResult)| x.0@);
            assert(ids =~= o);
            assert forall|j: int| 0 <= j < keys.len() implies o.contains(#[trigger] keys[j]) by {
                assert(keys.contains(keys[j]));
            }
            assert forall|k: int| 0 <= k < results@.len() implies (#[trigger] results@[k]).1
                == expected_result(prior_position(old_wm, results@[k].0@), lake_len) by {}
            assert forall|j: int| 0 <= j < keys.len() implies watermarks@.contains_key(
                #[trigger] keys[j],
            ) && stepped_state(old_wm, watermarks@[keys[j]], keys[j], lake_len) by {
                assert(o.contains(keys[j]));
            }
            assert forall|y: Seq<char>| !keys.contains(y) implies (#[trigger] watermarks@.contains_key(y)
                == old_wm.contains_key(y) && (old_wm.contains_key(y) ==> watermarks@[y] == old_wm[y])) by {
                assert(!o.take(order@.len() as int).contains(y) ==> (watermarks@.contains_key(y)
                    == old_wm.contains_key(y) && (old_wm.contains_key(y) ==> watermarks@[y] == old_wm[y])));
                if o.contains(y) {
                    let k = choose|k: int| 0 <= k < o.len() && o[k] == y;
                    assert(keys.contains(o[k]));
                }
            }
        }
        proof {
            assert forall|y: Seq<char>|
                !keys.contains(y) && #[trigger] old_wm.contains_key(y) implies watermarks@[y]
                    == old_wm[y] by {
                assert(watermarks@.contains_key(y) == old_wm.contains_key(y));
            }
            let ids = results@.map_values(|x: (ProjectionRef, PropagationResult)| x.0@);
            assert(is_topological(keys, old_entries, ids));
            assert(is_greatest_ready_first(keys, old_entries, ids));
            assert forall|j: int| 0 <= j < keys.len() implies #[trigger] catalog.entry_seq()[j]
                == if has_new_data(old_wm, keys[j], lake_len) {
                CatalogEntry { health: ProjectionHealth::Healthy, ..old_entries[j] }
            } else {
                old_entries[j]
            } by {
                assert(o.contains(keys[j]));
            }
        }
        Ok(results)
    }
}

} // verus!
