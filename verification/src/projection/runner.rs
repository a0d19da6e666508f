//! Projection runner: the build abstraction and result tracking.

use vstd::prelude::*;
use vstd::string::*;

use crate::domain::types::ReadMode;
use crate::domain::values::ProjectionRef;
use crate::projection::lineage::{total_records, LineageManifest, SourceSnapshot};
use crate::projection::spec::ProjectionSpec;
use crate::trusted::{now_micros, uuid_v7_text};

verus! {

/// Status of a projection build.
#[derive(Debug, Clone, Copy, PartialEq, Eq, Structural)]
pub enum BuildStatus {
    Success,
    Partial,
    Failed,
}

/// Result of running a projection build. `built_at` is in microseconds
/// since the Unix epoch.
#[derive(Debug, Clone)]
pub struct BuildResult {
    pub build_id: String,
    pub projection_id: ProjectionRef,
    pub status: BuildStatus,
    pub built_at: i64,
    pub output_count: usize,
    pub lineage: LineageManifest,
    pub error: Option<String>,
}

/// A projector: the pure functional core of a projection build. It receives
/// inputs and produces output records; it must be deterministic for the
/// academic-pinned read mode.
pub trait Projector {
    type Input;

    type Output;

    fn project(&self, inputs: &[Self::Input]) -> Vec<Self::Output>;
}

/// Orchestrates a build: build id, projector call, lineage.
pub struct ProjectionRunner;

impl ProjectionRunner {
    /// Run `projector` on `inputs` and record the build: a successful result
    /// whose lineage lists the source snapshots, counts their records as
    /// inputs and the projector's outputs as outputs, and is deterministic
    /// exactly when the spec is deterministic under the academic-pinned mode.
    pub fn build<P: Projector>(
        spec: &ProjectionSpec,
        projector: &P,
        inputs: &[P::Input],
        source_snapshots: Vec<SourceSnapshot>,
    ) -> (r: BuildResult)
        requires
            total_records(source_snapshots@) <= usize::MAX,
        ensures
            exists|u: Seq<char>| r.build_id@ == "build-"@ + u,
            r.projection_id@ == spec.id@,
            r.status == BuildStatus::Success,
            r.error is None,
            r.lineage.projection_id@ == spec.id@,
            r.lineage.version@ == spec.version@,
            r.lineage.build_id@ == r.build_id@,
            r.lineage.sources@ == source_snapshots@,
            r.lineage.input_count == total_records(source_snapshots@),
            r.lineage.output_count == r.output_count,
            r.lineage.deterministic == spec.is_academic(),
            r.lineage.seed is None,
    {
        let mut build_id = String::from_str("build-");
        let u = uuid_v7_text();
        build_id.append(u.as_str());
        let outputs = projector.project(inputs);
        let output_count = outputs.len();
        let mut lineage = LineageManifest::new(
            spec.id.duplicate(),
            spec.version.duplicate(),
            build_id.clone(),
        );
        let mut i: usize = 0;
        while i < source_snapshots.len()
            invariant
                i <= source_snapshots@.len(),
                total_records(source_snapshots@) <= usize::MAX,
                lineage.sources@ == source_snapshots@.take(i as int),
                lineage.input_count == total_records(source_snapshots@.take(i as int)),
                lineage.projection_id@ == spec.id@,
                lineage.version@ == spec.version@,
                lineage.build_id@ == build_id@,
                lineage.output_count == 0,
                lineage.deterministic,
                lineage.seed is None,
            decreases source_snapshots@.len() - i,
        {
            proof {
                assert(source_snapshots@.take(i + 1).drop_last() =~= source_snapshots@.take(i as int));
                lemma_total_records_prefix(source_snapshots@, i + 1);
            }
            let src = &source_snapshots[i];
            let snap = SourceSnapshot {
                source_ref: src.source_ref.clone(),
                watermark_position: src.watermark_position,
                record_count: src.record_count,
            };
            assert(snap == source_snapshots@[i as int]);
            lineage.add_source(snap);
            i = i + 1;
        }
        assert(source_snapshots@.take(source_snapshots@.len() as int) =~= source_snapshots@);
        lineage.output_count = output_count;
        let mut deterministic = false;
        let mut k: usize = 0;
        while k < spec.deterministic_in.len()
            invariant
                k <= spec.deterministic_in@.len(),
                deterministic <==> exists|j: int|
                    0 <= j < k && spec.deterministic_in@[j] == ReadMode::AcademicPinned,
            decreases spec.deterministic_in@.len() - k,
        {
            if spec.deterministic_in[k] == ReadMode::AcademicPinned {
                deterministic = true;
            }
            k = k + 1;
        }
        lineage.deterministic = deterministic;
        BuildResult {
            build_id,
            projection_id: spec.id.duplicate(),
            status: BuildStatus::Success,
            built_at: now_micros(),
            output_count,
            lineage,
            error: None,
        }
    }
}

proof fn lemma_total_records_prefix(s: Seq<SourceSnapshot>, i: int)
    requires
        0 <= i <= s.len(),
    ensures
        total_records(s.take(i)) <= total_records(s),
    decreases s.len(),
{
    if i < s.len() {
        assert(s.drop_last().take(i) =~= s.take(i));
        lemma_total_records_prefix(s.drop_last(), i);
    } else {
        assert(s.take(i) =~= s);
    }
}

} // verus!
