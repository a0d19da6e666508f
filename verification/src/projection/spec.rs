//! Projection spec: the declarative definition of a projection and its
//! validation rules.

use vstd::prelude::*;
use vstd::string::*;

use crate::domain::types::{ProjectionKind, ReadMode};
use crate::domain::values::{ProjectionRef, SchemaRef, SemVer};

verus! {

/// A reference to a projection source.
#[derive(Debug, Clone, PartialEq, Eq, Hash)]
pub enum SourceRef {
    Lake,
    Supplemental,
    Projection { id: ProjectionRef, version: String },
    SourceNative { system: String, read_mode: ReadMode, fallback: Option<String> },
}

/// A single source declaration inside a projection spec.
#[derive(Debug, Clone)]
pub struct SourceDecl {
    pub source: SourceRef,
    pub filter_schemas: Vec<SchemaRef>,
    pub filter_derivations: Vec<String>,
}

impl SourceDecl {
    /// The projection this source depends on, if it is a projection source
    /// (an edge of the projection DAG).
    pub fn projection_dep(&self) -> (r: Option<&ProjectionRef>)
        ensures
            match self.source {
                SourceRef::Projection { id, .. } => r == Some(&id),
                _ => r is None,
            },
    {
        match &self.source {
            SourceRef::Projection { id, .. } => Some(id),
            _ => None,
        }
    }
}

/// Read mode policy attached to a projection.
#[derive(Debug, Clone)]
pub struct ReadModePolicy {
    pub mode: ReadMode,
    pub source_policy: String,
}

/// Build specification.
#[derive(Debug, Clone)]
pub struct BuildSpec {
    pub build_type: String,
    pub entrypoint: Option<String>,
    pub projector: String,
}

/// Output specification.
#[derive(Debug, Clone)]
pub struct OutputSpec {
    pub format: String,
    pub tables: Vec<String>,
}

/// Multi-source reconciliation policy.
#[derive(Debug, Clone, Copy, PartialEq, Eq, Structural)]
pub enum ReconciliationPolicy {
    LakeFirst,
    SourceLatest,
    DualTrack,
}

/// Gap policy action.
#[derive(Debug, Clone, Copy, PartialEq, Eq, Structural)]
pub enum GapAction {
    Warn,
    Block,
    FillNull,
}

/// The full projection specification.
#[derive(Debug, Clone)]
pub struct ProjectionSpec {
    pub id: ProjectionRef,
    pub name: String,
    pub version: SemVer,
    pub kind: ProjectionKind,
    pub sources: Vec<SourceDecl>,
    pub read_modes: Vec<ReadModePolicy>,
    pub build: BuildSpec,
    pub outputs: Vec<OutputSpec>,
    pub reconciliation: Option<ReconciliationPolicy>,
    pub deterministic_in: Vec<ReadMode>,
    pub gap_action: Option<GapAction>,
    pub tags: Vec<String>,
    pub description: Option<String>,
    pub created_by: String,
}

/// Errors detected during spec validation.
#[derive(Debug, Clone, Copy, PartialEq, Eq, Structural)]
pub enum SpecValidationError {
    NoSources,
    MultiSourceWithoutReconciliation,
    AcademicPinnedWithSourceNative,
    MissingVersionPinForAcademicSupplemental,
    NoReadModes,
    NoOutputs,
}

/// The human-readable text of a validation error.
pub open spec fn spec_validation_message(e: SpecValidationError) -> Seq<char> {
    match e {
        SpecValidationError::NoSources => "Projection spec must declare at least one source"@,
        SpecValidationError::MultiSourceWithoutReconciliation =>
            "Multi-source spec requires reconciliation policy"@,
        SpecValidationError::AcademicPinnedWithSourceNative =>
            "AcademicPinned read mode forbids source-native sources"@,
        SpecValidationError::MissingVersionPinForAcademicSupplemental =>
            "AcademicPinned + supplemental requires version pin"@,
        SpecValidationError::NoReadModes => "Projection spec must declare at least one read mode"@,
        SpecValidationError::NoOutputs => "Projection spec must declare at least one output"@,
    }
}

impl SpecValidationError {
    /// The human-readable text of the error.
    pub fn message(&self) -> (r: String)
        ensures
            r@ == spec_validation_message(*self),
    {
        match self {
            SpecValidationError::NoSources => {
                String::from_str("Projection spec must declare at least one source")
            },
            SpecValidationError::MultiSourceWithoutReconciliation => {
                String::from_str("Multi-source spec requires reconciliation policy")
            },
            SpecValidationError::AcademicPinnedWithSourceNative => {
                String::from_str("AcademicPinned read mode forbids source-native sources")
            },
            SpecValidationError::MissingVersionPinForAcademicSupplemental => {
                String::from_str("AcademicPinned + supplemental requires version pin")
            },
            SpecValidationError::NoReadModes => {
                String::from_str("Projection spec must declare at least one read mode")
            },
            SpecValidationError::NoOutputs => {
                String::from_str("Projection spec must declare at least one output")
            },
        }
    }
}

/// The one-element sequence `[e]` when `c` holds, else the empty sequence.
pub open spec fn error_if(c: bool, e: SpecValidationError) -> Seq<SpecValidationError> {
    if c {
        seq![e]
    } else {
        Seq::empty()
    }
}

impl ProjectionSpec {
    pub open spec fn has_lake_source(&self) -> bool {
        exists|i: int| 0 <= i < self.sources@.len() && #[trigger] self.sources@[i].source is Lake
    }

    pub open spec fn has_source_native(&self) -> bool {
        exists|i: int|
            0 <= i < self.sources@.len() && #[trigger] self.sources@[i].source is SourceNative
    }

    pub open spec fn is_academic(&self) -> bool {
        self.deterministic_in@.contains(ReadMode::AcademicPinned)
    }

    /// The validation errors of the spec, in the order they are reported.
    pub open spec fn validation_errors(&self) -> Seq<SpecValidationError> {
        error_if(self.sources@.len() == 0, SpecValidationError::NoSources)
            + error_if(self.read_modes@.len() == 0, SpecValidationError::NoReadModes)
            + error_if(self.outputs@.len() == 0, SpecValidationError::NoOutputs)
            + error_if(
            self.has_lake_source() && self.has_source_native() && self.reconciliation is None,
            SpecValidationError::MultiSourceWithoutReconciliation,
        ) + error_if(
            self.is_academic() && self.has_source_native(),
            SpecValidationError::AcademicPinnedWithSourceNative,
        )
    }

    /// Whether the spec passes validation.
    pub open spec fn is_valid(&self) -> bool {
        self.validation_errors().len() == 0
    }

    /// Validate the spec: every source, read-mode and output rule, and the
    /// multi-source and academic-pinned rules.
    pub fn validate(&self) -> (r: Result<(), Vec<SpecValidationError>>)
        ensures
            r is Ok <==> self.is_valid(),
            r matches Err(errs) ==> errs@ == self.validation_errors(),
    {
        let mut errors: Vec<SpecValidationError> = Vec::new();
        if self.sources.len() == 0 {
            errors.push(SpecValidationError::NoSources);
        }
        if self.read_modes.len() == 0 {
            errors.push(SpecValidationError::NoReadModes);
        }
        if self.outputs.len() == 0 {
            errors.push(SpecValidationError::NoOutputs);
        }
        let mut has_lake = false;
        let mut has_native = false;
        let mut i: usize = 0;
        while i < self.sources.len()
            invariant
                i <= self.sources@.len(),
                has_lake <==> exists|j: int| 0 <= j < i && #[trigger] self.sources@[j].source is Lake,
                has_native <==> exists|j: int|
                    0 <= j < i && #[trigger] self.sources@[j].source is SourceNative,
            decreases self.sources@.len() - i,
        {
            match &self.sources[i].source {
                SourceRef::Lake => {
                    has_lake = true;
                },
                SourceRef::SourceNative { .. } => {
                    has_native = true;
                },
                _ => {},
            }
            i = i + 1;
        }
        if has_lake && has_native && self.reconciliation.is_none() {
            errors.push(SpecValidationError::MultiSourceWithoutReconciliation);
        }
        let mut is_academic = false;
        let mut k: usize = 0;
        while k < self.deterministic_in.len()
            invariant
                k <= self.deterministic_in@.len(),
                is_academic <==> exists|j: int|
                    0 <= j < k && self.deterministic_in@[j] == ReadMode::AcademicPinned,
            decreases self.deterministic_in@.len() - k,
        {
            if self.deterministic_in[k] == ReadMode::AcademicPinned {
                is_academic = true;
            }
            k = k + 1;
        }
        if is_academic && has_native {
            errors.push(SpecValidationError::AcademicPinnedWithSourceNative);
        }
        assert(errors@ == self.validation_errors());
        if errors.len() == 0 {
            Ok(())
        } else {
            Err(errors)
        }
    }
}

} // verus!
