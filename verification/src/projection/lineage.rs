//! Lineage manifest: provenance of a projection build.

use vstd::prelude::*;

use crate::domain::values::{ProjectionRef, SemVer};
use crate::trusted::now_micros;

verus! {

/// A snapshot of a single source consumed during a build.
#[derive(Debug, Clone)]
pub struct SourceSnapshot {
    pub source_ref: String,
    pub watermark_position: Option<usize>,
    pub record_count: usize,
}

/// The total number of records of the snapshots.
pub open spec fn total_records(s: Seq<SourceSnapshot>) -> int
    decreases s.len(),
{
    if s.len() == 0 {
        0
    } else {
        total_records(s.drop_last()) + s.last().record_count
    }
}

/// Lineage manifest generated after every build. `built_at` is in
/// microseconds since the Unix epoch.
#[derive(Debug, Clone)]
pub struct LineageManifest {
    pub projection_id: ProjectionRef,
    pub version: SemVer,
    pub build_id: String,
    pub built_at: i64,
    pub sources: Vec<SourceSnapshot>,
    pub input_count: usize,
    pub output_count: usize,
    pub deterministic: bool,
    pub seed: Option<u64>,
}

impl LineageManifest {
    /// A manifest for a build, stamped with the current time, with no
    /// sources yet, deterministic and without seed.
    pub fn new(projection_id: ProjectionRef, version: SemVer, build_id: String) -> (r: Self)
        ensures
            r.projection_id == projection_id,
            r.version == version,
            r.build_id == build_id,
            r.sources@.len() == 0,
            r.input_count == 0,
            r.output_count == 0,
            r.deterministic,
            r.seed is None,
    {
        LineageManifest {
            projection_id,
            version,
            build_id,
            built_at: now_micros(),
            sources: Vec::new(),
            input_count: 0,
            output_count: 0,
            deterministic: true,
            seed: None,
        }
    }

    /// Record a consumed source: it is appended and its records are added
    /// to the input count.
    pub fn add_source(&mut self, snapshot: SourceSnapshot)
        requires
            old(self).input_count + snapshot.record_count <= usize::MAX,
        ensures
            final(self).sources@ == old(self).sources@.push(snapshot),
            final(self).input_count == old(self).input_count + snapshot.record_count,
            final(self).projection_id == old(self).projection_id,
            final(self).version == old(self).version,
            final(self).build_id == old(self).build_id,
            final(self).built_at == old(self).built_at,
            final(self).output_count == old(self).output_count,
            final(self).deterministic == old(self).deterministic,
            final(self).seed == old(self).seed,
    {
        self.input_count = self.input_count + snapshot.record_count;
        self.sources.push(snapshot);
    }
}

} // verus!
