use dokp::domain::types::{ProjectionHealth, ProjectionKind, ProjectionStatus, ReadMode};
use dokp::domain::values::{ProjectionRef, SchemaRef, SemVer};
use dokp::projection::catalog::{CatalogError, ProjectionCatalog};
use dokp::projection::lineage::{LineageManifest, SourceSnapshot};
use dokp::projection::runner::{BuildStatus, ProjectionRunner, Projector};
use dokp::projection::spec::{
    BuildSpec, GapAction, OutputSpec, ProjectionSpec, ReadModePolicy, ReconciliationPolicy,
    SourceDecl, SourceRef, SpecValidationError,
};

fn base_spec() -> ProjectionSpec {
    ProjectionSpec {
        id: ProjectionRef::new("proj:test"),
        name: "Test".into(),
        version: SemVer::new("1.0.0"),
        kind: ProjectionKind::PureProjection,
        sources: vec![SourceDecl {
            source: SourceRef::Lake,
            filter_schemas: vec![SchemaRef::new("schema:slack-message")],
            filter_derivations: vec![],
        }],
        read_modes: vec![ReadModePolicy {
            mode: ReadMode::OperationalLatest,
            source_policy: "lake-latest".into(),
        }],
        build: BuildSpec {
            build_type: "rust".into(),
            entrypoint: None,
            projector: "projections/test".into(),
        },
        outputs: vec![OutputSpec { format: "sql".into(), tables: vec!["test_table".into()] }],
        reconciliation: None,
        deterministic_in: vec![ReadMode::AcademicPinned],
        gap_action: Some(GapAction::Warn),
        tags: vec!["test".into()],
        description: None,
        created_by: "system".into(),
    }
}

#[test]
fn valid_spec_passes() {
    assert!(base_spec().validate().is_ok());
}

#[test]
fn empty_sources_rejected() {
    let mut spec = base_spec();
    spec.sources.clear();
    let errs = spec.validate().unwrap_err();
    assert!(errs.contains(&SpecValidationError::NoSources));
}

#[test]
fn multi_source_without_reconciliation_rejected() {
    let mut spec = base_spec();
    spec.sources.push(SourceDecl {
        source: SourceRef::SourceNative {
            system: "google-slides".into(),
            read_mode: ReadMode::OperationalLatest,
            fallback: Some("lake-snapshot".into()),
        },
        filter_schemas: vec![],
        filter_derivations: vec![],
    });
    let errs = spec.validate().unwrap_err();
    assert!(errs.contains(&SpecValidationError::MultiSourceWithoutReconciliation));
}

#[test]
fn academic_pinned_with_source_native_rejected() {
    let mut spec = base_spec();
    spec.deterministic_in = vec![ReadMode::AcademicPinned];
    spec.sources.push(SourceDecl {
        source: SourceRef::SourceNative {
            system: "google-slides".into(),
            read_mode: ReadMode::OperationalLatest,
            fallback: None,
        },
        filter_schemas: vec![],
        filter_derivations: vec![],
    });
    spec.reconciliation = Some(ReconciliationPolicy::DualTrack);
    let errs = spec.validate().unwrap_err();
    assert!(errs.contains(&SpecValidationError::AcademicPinnedWithSourceNative));
}

#[test]
fn multi_source_with_reconciliation_passes() {
    let mut spec = base_spec();
    spec.deterministic_in.clear();
    spec.sources.push(SourceDecl {
        source: SourceRef::SourceNative {
            system: "google-slides".into(),
            read_mode: ReadMode::OperationalLatest,
            fallback: None,
        },
        filter_schemas: vec![],
        filter_derivations: vec![],
    });
    spec.reconciliation = Some(ReconciliationPolicy::LakeFirst);
    assert!(spec.validate().is_ok());
}

#[test]
fn source_decl_extracts_projection_dep() {
    let decl = SourceDecl {
        source: SourceRef::Projection {
            id: ProjectionRef::new("proj:upstream"),
            version: ">=1.0.0".into(),
        },
        filter_schemas: vec![],
        filter_derivations: vec![],
    };
    assert_eq!(decl.projection_dep().unwrap().as_str(), "proj:upstream");

    let lake_decl = SourceDecl { source: SourceRef::Lake, filter_schemas: vec![], filter_derivations: vec![] };
    assert!(lake_decl.projection_dep().is_none());
}

fn lake_spec(id: &str) -> ProjectionSpec {
    ProjectionSpec {
        id: ProjectionRef::new(id),
        name: id.into(),
        version: SemVer::new("1.0.0"),
        kind: ProjectionKind::PureProjection,
        sources: vec![SourceDecl { source: SourceRef::Lake, filter_schemas: vec![], filter_derivations: vec![] }],
        read_modes: vec![ReadModePolicy {
            mode: ReadMode::OperationalLatest,
            source_policy: "lake-latest".into(),
        }],
        build: BuildSpec { build_type: "rust".into(), entrypoint: None, projector: "proj".into() },
        outputs: vec![OutputSpec { format: "sql".into(), tables: vec!["t".into()] }],
        reconciliation: None,
        deterministic_in: vec![],
        gap_action: None,
        tags: vec![],
        description: None,
        created_by: "test".into(),
    }
}

fn dependent_spec(id: &str, deps: &[&str]) -> ProjectionSpec {
    let mut spec = lake_spec(id);
    spec.sources = deps
        .iter()
        .map(|dep| SourceDecl {
            source: SourceRef::Projection { id: ProjectionRef::new(dep), version: ">=1.0.0".into() },
            filter_schemas: vec![],
            filter_derivations: vec![],
        })
        .collect();
    spec.sources.push(SourceDecl { source: SourceRef::Lake, filter_schemas: vec![], filter_derivations: vec![] });
    spec.reconciliation = Some(ReconciliationPolicy::LakeFirst);
    spec
}

#[test]
fn register_valid_projection() {
    let mut catalog = ProjectionCatalog::new();
    assert!(catalog.register(lake_spec("proj:a")).is_ok());
    assert!(catalog.get(&ProjectionRef::new("proj:a")).is_some());
}

#[test]
fn duplicate_registration_rejected() {
    let mut catalog = ProjectionCatalog::new();
    catalog.register(lake_spec("proj:a")).unwrap();
    let result = catalog.register(lake_spec("proj:a"));
    assert_eq!(result, Err(CatalogError::AlreadyRegistered(ProjectionRef::new("proj:a"))));
}

#[test]
fn missing_dependency_rejected() {
    let mut catalog = ProjectionCatalog::new();
    let spec = dependent_spec("proj:b", &["proj:nonexistent"]);
    assert_eq!(
        catalog.register(spec),
        Err(CatalogError::MissingDependency(ProjectionRef::new("proj:nonexistent")))
    );
}

#[test]
fn valid_dependency_chain() {
    let mut catalog = ProjectionCatalog::new();
    catalog.register(lake_spec("proj:a")).unwrap();
    catalog.register(dependent_spec("proj:b", &["proj:a"])).unwrap();
    assert!(catalog.get(&ProjectionRef::new("proj:b")).is_some());
}

#[test]
fn topological_order_linear() {
    let mut catalog = ProjectionCatalog::new();
    catalog.register(lake_spec("proj:a")).unwrap();
    catalog.register(dependent_spec("proj:b", &["proj:a"])).unwrap();
    catalog.register(dependent_spec("proj:c", &["proj:b"])).unwrap();

    let order = catalog.topological_order().unwrap();
    let ids: Vec<&str> = order.iter().map(|r| r.as_str()).collect();
    let pos_a = ids.iter().position(|&id| id == "proj:a").unwrap();
    let pos_b = ids.iter().position(|&id| id == "proj:b").unwrap();
    let pos_c = ids.iter().position(|&id| id == "proj:c").unwrap();
    assert!(pos_a < pos_b);
    assert!(pos_b < pos_c);
}

#[test]
fn dependents_found() {
    let mut catalog = ProjectionCatalog::new();
    catalog.register(lake_spec("proj:a")).unwrap();
    catalog.register(dependent_spec("proj:b", &["proj:a"])).unwrap();
    catalog.register(dependent_spec("proj:c", &["proj:a"])).unwrap();

    let deps = catalog.dependents(&ProjectionRef::new("proj:a"));
    assert_eq!(deps.len(), 2);
}

#[test]
fn set_status_and_health() {
    let mut catalog = ProjectionCatalog::new();
    catalog.register(lake_spec("proj:a")).unwrap();
    let id = ProjectionRef::new("proj:a");
    assert!(catalog.set_status(&id, ProjectionStatus::Active));
    assert!(catalog.set_health(&id, ProjectionHealth::Stale));
    let entry = catalog.get(&id).unwrap();
    assert_eq!(entry.status, ProjectionStatus::Active);
    assert_eq!(entry.health, ProjectionHealth::Stale);
}

#[test]
fn set_status_of_unknown_projection_is_refused() {
    let mut catalog = ProjectionCatalog::new();
    assert!(!catalog.set_status(&ProjectionRef::new("proj:missing"), ProjectionStatus::Active));
    assert!(!catalog.set_health(&ProjectionRef::new("proj:missing"), ProjectionHealth::Broken));
}

#[test]
fn lineage_manifest_tracks_inputs() {
    let mut manifest = LineageManifest::new(
        ProjectionRef::new("proj:test"),
        SemVer::new("1.0.0"),
        "build-001".into(),
    );
    manifest.add_source(SourceSnapshot {
        source_ref: "lake".into(),
        watermark_position: Some(42),
        record_count: 10,
    });
    manifest.add_source(SourceSnapshot {
        source_ref: "supplemental".into(),
        watermark_position: None,
        record_count: 3,
    });
    assert_eq!(manifest.input_count, 13);
    assert_eq!(manifest.sources.len(), 2);
}

struct CountProjector;

impl Projector for CountProjector {
    type Input = String;
    type Output = usize;

    fn project(&self, inputs: &[String]) -> Vec<usize> {
        vec![inputs.len()]
    }
}

fn count_spec() -> ProjectionSpec {
    let mut spec = lake_spec("proj:count");
    spec.name = "Count".into();
    spec.build.projector = "count".into();
    spec.outputs = vec![OutputSpec { format: "sql".into(), tables: vec!["counts".into()] }];
    spec.deterministic_in = vec![ReadMode::AcademicPinned];
    spec
}

#[test]
fn runner_produces_build_result() {
    let spec = count_spec();
    let projector = CountProjector;
    let inputs: Vec<String> = vec!["a".into(), "b".into(), "c".into()];
    let snapshots = vec![SourceSnapshot {
        source_ref: "lake".into(),
        watermark_position: Some(3),
        record_count: 3,
    }];

    let result = ProjectionRunner::build(&spec, &projector, &inputs, snapshots);
    assert_eq!(result.status, BuildStatus::Success);
    assert_eq!(result.output_count, 1);
    assert_eq!(result.lineage.input_count, 3);
    assert!(result.lineage.deterministic);
    assert!(result.build_id.starts_with("build-"));
    assert_eq!(result.lineage.build_id, result.build_id);
}

#[test]
fn runner_replay_produces_same_output() {
    let spec = count_spec();
    let projector = CountProjector;
    let inputs: Vec<String> = vec!["x".into(), "y".into()];
    let snap = || {
        vec![SourceSnapshot { source_ref: "lake".into(), watermark_position: Some(2), record_count: 2 }]
    };

    let r1 = ProjectionRunner::build(&spec, &projector, &inputs, snap());
    let r2 = ProjectionRunner::build(&spec, &projector, &inputs, snap());
    assert_eq!(r1.output_count, r2.output_count);
}

#[test]
fn catalog_error_texts() {
    assert_eq!(
        CatalogError::InvalidSpec("bad".into()).to_string(),
        "Invalid spec: bad"
    );
    assert_eq!(
        CatalogError::AlreadyRegistered(ProjectionRef::new("proj:a")).to_string(),
        "Already registered: proj:a"
    );
    assert_eq!(
        CatalogError::MissingDependency(ProjectionRef::new("proj:b")).to_string(),
        "Missing dependency: proj:b"
    );
    assert_eq!(CatalogError::CyclicDependency.to_string(), "Cyclic dependency detected");
}
