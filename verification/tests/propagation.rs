use dokp::domain::json::JsonValue;
use dokp::domain::observation::Observation;
use dokp::domain::types::{AuthorityModel, CaptureModel, ProjectionHealth, ProjectionKind, ReadMode};
use dokp::domain::values::{EntityRef, IdempotencyKey, ObserverRef, ProjectionRef, SchemaRef, SemVer};
use dokp::lake::store::LakeStore;
use dokp::projection::catalog::{CatalogError, ProjectionCatalog};
use dokp::projection::runner::BuildStatus;
use dokp::projection::spec::{
    BuildSpec, OutputSpec, ProjectionSpec, ReadModePolicy, ReconciliationPolicy, SourceDecl, SourceRef,
};
use dokp::propagation::scheduler::{PropagationResult, PropagationScheduler};
use dokp::propagation::watermark::{WatermarkState, WatermarkStore};

fn sample_obs(key: &str) -> Observation {
    Observation {
        id: Observation::new_id(),
        schema: SchemaRef::new("schema:test"),
        schema_version: SemVer::new("1.0.0"),
        observer: ObserverRef::new("obs:test"),
        source_system: None,
        actor: None,
        authority_model: AuthorityModel::LakeAuthoritative,
        capture_model: CaptureModel::Event,
        subject: EntityRef::new("msg:1"),
        target: None,
        payload: JsonValue::Object(vec![]),
        attachments: vec![],
        published: chrono::Utc::now().timestamp_micros(),
        recorded_at: chrono::Utc::now().timestamp_micros(),
        consent: None,
        idempotency_key: Some(IdempotencyKey::new(key)),
        meta: JsonValue::Object(vec![]),
    }
}

fn lake_spec(id: &str) -> ProjectionSpec {
    ProjectionSpec {
        id: ProjectionRef::new(id),
        name: id.into(),
        version: SemVer::new("1.0.0"),
        kind: ProjectionKind::PureProjection,
        sources: vec![SourceDecl { source: SourceRef::Lake, filter_schemas: vec![], filter_derivations: vec![] }],
        read_modes: vec![ReadModePolicy {
            mode: ReadMode::OperationalLatest,
            source_policy: "lake-latest".into(),
        }],
        build: BuildSpec { build_type: "rust".into(), entrypoint: None, projector: "p".into() },
        outputs: vec![OutputSpec { format: "sql".into(), tables: vec!["t".into()] }],
        reconciliation: None,
        deterministic_in: vec![],
        gap_action: None,
        tags: vec![],
        description: None,
        created_by: "test".into(),
    }
}

fn depends_on(id: &str) -> SourceDecl {
    SourceDecl {
        source: SourceRef::Projection { id: ProjectionRef::new(id), version: ">=1.0.0".into() },
        filter_schemas: vec![],
        filter_derivations: vec![],
    }
}

#[test]
fn no_new_data_is_noop() {
    let lake = LakeStore::new();
    let mut watermarks = WatermarkStore::new();
    let mut catalog = ProjectionCatalog::new();
    catalog.register(lake_spec("proj:a")).unwrap();

    let results = PropagationScheduler::propagate_all(&lake, &mut watermarks, &mut catalog).unwrap();
    assert_eq!(results.len(), 1);
    assert_eq!(results[0].1, PropagationResult::NoOp);
}

#[test]
fn new_observations_trigger_apply() {
    let mut lake = LakeStore::new();
    lake.append(sample_obs("k1")).unwrap();
    lake.append(sample_obs("k2")).unwrap();

    let mut watermarks = WatermarkStore::new();
    let mut catalog = ProjectionCatalog::new();
    catalog.register(lake_spec("proj:a")).unwrap();

    let results = PropagationScheduler::propagate_all(&lake, &mut watermarks, &mut catalog).unwrap();
    assert_eq!(results.len(), 1);
    assert!(matches!(results[0].1, PropagationResult::Applied { new_position: 2, new_records: 2 }));

    let results2 = PropagationScheduler::propagate_all(&lake, &mut watermarks, &mut catalog).unwrap();
    assert_eq!(results2[0].1, PropagationResult::NoOp);
}

#[test]
fn incremental_after_initial() {
    let mut lake = LakeStore::new();
    lake.append(sample_obs("k1")).unwrap();

    let mut watermarks = WatermarkStore::new();
    let mut catalog = ProjectionCatalog::new();
    catalog.register(lake_spec("proj:a")).unwrap();

    PropagationScheduler::propagate_all(&lake, &mut watermarks, &mut catalog).unwrap();

    lake.append(sample_obs("k2")).unwrap();
    lake.append(sample_obs("k3")).unwrap();

    let results = PropagationScheduler::propagate_all(&lake, &mut watermarks, &mut catalog).unwrap();
    assert!(matches!(results[0].1, PropagationResult::Applied { new_position: 3, new_records: 2 }));
}

#[test]
fn cycle_error_is_returned_and_health_is_broken() {
    let lake = LakeStore::new();
    let mut watermarks = WatermarkStore::new();
    let mut catalog = ProjectionCatalog::new();
    catalog.register(lake_spec("proj:a")).unwrap();

    let mut dep = lake_spec("proj:b");
    dep.sources.insert(0, depends_on("proj:a"));
    dep.reconciliation = Some(ReconciliationPolicy::LakeFirst);
    catalog.register(dep).unwrap();

    let entry = catalog.get_mut(&ProjectionRef::new("proj:a")).unwrap();
    entry.spec.sources.insert(0, depends_on("proj:b"));
    entry.spec.reconciliation = Some(ReconciliationPolicy::LakeFirst);

    let err = PropagationScheduler::propagate_all(&lake, &mut watermarks, &mut catalog).unwrap_err();
    assert_eq!(err, CatalogError::CyclicDependency);
    assert_eq!(catalog.get(&ProjectionRef::new("proj:a")).unwrap().health, ProjectionHealth::Broken);
    assert_eq!(catalog.get(&ProjectionRef::new("proj:b")).unwrap().health, ProjectionHealth::Broken);
}

#[test]
fn upstream_failure_degrades_downstream() {
    let mut catalog = ProjectionCatalog::new();
    catalog.register(lake_spec("proj:a")).unwrap();

    let mut dep = lake_spec("proj:b");
    dep.sources.insert(0, depends_on("proj:a"));
    dep.reconciliation = Some(ReconciliationPolicy::LakeFirst);
    catalog.register(dep).unwrap();

    PropagationScheduler::propagate_upstream_failure(&ProjectionRef::new("proj:a"), &mut catalog);

    let entry = catalog.get(&ProjectionRef::new("proj:b")).unwrap();
    assert_eq!(entry.health, ProjectionHealth::Degraded);
}

#[test]
fn watermark_init_at_zero() {
    let state = WatermarkState::new(ProjectionRef::new("proj:test"));
    assert_eq!(state.last_processed_position, 0);
    assert_eq!(state.last_build_status, BuildStatus::Success);
}

#[test]
fn watermark_update_advances() {
    let mut store = WatermarkStore::new();
    let id = ProjectionRef::new("proj:test");
    store.get_or_init(&id);
    store.update(&id, 5, BuildStatus::Success);
    assert_eq!(store.get(&id).unwrap().last_processed_position, 5);
}

#[test]
fn failure_does_not_change_watermark() {
    let mut store = WatermarkStore::new();
    let id = ProjectionRef::new("proj:test");
    store.update(&id, 10, BuildStatus::Success);
    store.record_failure(&id);
    let state = store.get(&id).unwrap();
    assert_eq!(state.last_processed_position, 10);
    assert_eq!(state.last_build_status, BuildStatus::Failed);
}

#[test]
fn pending_count_calculated() {
    let mut store = WatermarkStore::new();
    let id = ProjectionRef::new("proj:test");
    store.update(&id, 5, BuildStatus::Success);
    store.update_pending(&id, 12);
    assert_eq!(store.get(&id).unwrap().pending_count, Some(7));
}

#[test]
fn timed_update_and_failure_record_the_given_time() {
    let mut store = WatermarkStore::new();
    let id = ProjectionRef::new("proj:timed");
    store.update_at(&id, 7, BuildStatus::Success, 1_000);
    let s = store.get(&id).unwrap();
    assert_eq!(s.last_processed_position, 7);
    assert_eq!(s.last_build_at, 1_000);
    assert_eq!(s.last_build_status, BuildStatus::Success);
    assert_eq!(s.pending_count, None);
    store.record_failure_at(&id, 2_000);
    let s = store.get(&id).unwrap();
    assert_eq!(s.last_processed_position, 7);
    assert_eq!(s.last_build_at, 2_000);
    assert_eq!(s.last_build_status, BuildStatus::Failed);
}
