use dokp::api::envelope::{ErrorResponse, LetheHeaders, ProjectionMetadata, ResponseEnvelope};
use dokp::api::health::HealthResponse;
use dokp::api::pagination::{paginate, PaginatedResponse, PaginationParams};
use dokp::api::read_mode::{ReadModeError, ReadModeResolver};
use dokp::domain::types::{ProjectionHealth, ProjectionKind, ReadMode};
use dokp::domain::values::{ProjectionRef, SemVer};
use dokp::projection::catalog::ProjectionCatalog;
use dokp::projection::spec::{BuildSpec, OutputSpec, ProjectionSpec, ReadModePolicy, SourceDecl, SourceRef};

fn sample_meta() -> ProjectionMetadata {
    ProjectionMetadata {
        projection_id: ProjectionRef::new("proj:person-page"),
        version: SemVer::new("1.0.0"),
        built_at: 1_767_225_600_000_000,
        read_mode: ReadMode::OperationalLatest,
        stale: false,
        lineage_ref: Some("lineage:proj-person-page:build-42".into()),
    }
}

#[test]
fn error_response_variants() {
    let e = ErrorResponse::bad_request("invalid param");
    assert_eq!(e.error, "bad_request");

    let e = ErrorResponse::internal_server_error("boom");
    assert_eq!(e.error, "internal_server_error");

    let e = ErrorResponse::not_found();
    assert_eq!(e.error, "not_found");

    let e = ErrorResponse::service_unavailable(30);
    assert_eq!(e.retry_after, Some(30));
}

#[test]
fn headers_from_metadata() {
    let meta = sample_meta();
    let headers = LetheHeaders::from_metadata(&meta);
    assert_eq!(headers.projection_id, "proj:person-page");
    assert!(!headers.stale);
    assert_eq!(headers.read_mode, "operational_latest");
    assert_eq!(headers.built_at, "2026-01-01T00:00:00+00:00");
    assert_eq!(headers.lineage_ref.as_deref(), Some("lineage:proj-person-page:build-42"));
}

#[test]
fn stale_envelope() {
    let mut meta = sample_meta();
    meta.stale = true;
    let envelope = ResponseEnvelope { data: (), projection_metadata: meta };
    assert!(envelope.projection_metadata.stale);
}

#[test]
fn error_response_details() {
    let e = ErrorResponse::forbidden("scope too low");
    assert_eq!(e.error, "forbidden");
    assert_eq!(e.detail.as_deref(), Some("scope too low"));
    let e = ErrorResponse::unauthorized();
    assert_eq!(e.error, "unauthorized");
    assert!(e.detail.is_none());
    assert!(e.retry_after.is_none());
}

fn lake_spec(id: &str) -> ProjectionSpec {
    ProjectionSpec {
        id: ProjectionRef::new(id),
        name: id.into(),
        version: SemVer::new("1.0.0"),
        kind: ProjectionKind::PureProjection,
        sources: vec![SourceDecl { source: SourceRef::Lake, filter_schemas: vec![], filter_derivations: vec![] }],
        read_modes: vec![ReadModePolicy {
            mode: ReadMode::OperationalLatest,
            source_policy: "lake-latest".into(),
        }],
        build: BuildSpec { build_type: "rust".into(), entrypoint: None, projector: "p".into() },
        outputs: vec![OutputSpec { format: "sql".into(), tables: vec!["t".into()] }],
        reconciliation: None,
        deterministic_in: vec![],
        gap_action: None,
        tags: vec![],
        description: None,
        created_by: "test".into(),
    }
}

#[test]
fn health_ok_when_all_healthy() {
    let mut catalog = ProjectionCatalog::new();
    catalog.register(lake_spec("proj:a")).unwrap();
    catalog.set_health(&ProjectionRef::new("proj:a"), ProjectionHealth::Healthy);

    let resp = HealthResponse::from_catalog(&catalog, "0.1.0");
    assert_eq!(resp.status, "ok");
}

#[test]
fn health_degraded_when_broken() {
    let mut catalog = ProjectionCatalog::new();
    catalog.register(lake_spec("proj:a")).unwrap();
    catalog.set_health(&ProjectionRef::new("proj:a"), ProjectionHealth::Broken);

    let resp = HealthResponse::from_catalog(&catalog, "0.1.0");
    assert_eq!(resp.status, "degraded");
    assert_eq!(resp.version, "0.1.0");
    assert_eq!(resp.projections.len(), 1);
}

#[test]
fn default_pagination() {
    let params = PaginationParams::default();
    assert_eq!(params.offset, 0);
    assert_eq!(params.limit, 20);
    assert_eq!(params.order, "desc");
}

#[test]
fn limit_clamped_to_100() {
    let params = PaginationParams { limit: 200, ..Default::default() };
    let validated = params.validated();
    assert_eq!(validated.limit, 100);
}

#[test]
fn paginate_basic() {
    let items: Vec<i32> = (0..50).collect();
    let params = PaginationParams { offset: 10, limit: 5, ..Default::default() };
    let (page, total) = paginate(&items, &params);
    assert_eq!(total, 50);
    assert_eq!(page, vec![10, 11, 12, 13, 14]);
}

#[test]
fn paginate_beyond_end() {
    let items: Vec<i32> = (0..5).collect();
    let params = PaginationParams { offset: 10, limit: 5, ..Default::default() };
    let (page, total) = paginate(&items, &params);
    assert_eq!(total, 5);
    assert!(page.is_empty());
}

#[test]
fn paginate_partial_page() {
    let items: Vec<i32> = (0..8).collect();
    let params = PaginationParams { offset: 5, limit: 10, ..Default::default() };
    let (page, _) = paginate(&items, &params);
    assert_eq!(page, vec![5, 6, 7]);
}

#[test]
fn paginated_response_keeps_params() {
    let params = PaginationParams { offset: 3, limit: 2, ..Default::default() };
    let resp = PaginatedResponse::from_slice(vec![4, 5], 5, &params);
    assert_eq!(resp.data, vec![4, 5]);
    assert_eq!(resp.total, 5);
    assert_eq!(resp.offset, 3);
    assert_eq!(resp.limit, 2);
}

fn mode_spec() -> ProjectionSpec {
    let mut spec = lake_spec("proj:test");
    spec.name = "Test".into();
    spec.kind = ProjectionKind::CachedProjection;
    spec.read_modes = vec![
        ReadModePolicy { mode: ReadMode::OperationalLatest, source_policy: "lake-latest".into() },
        ReadModePolicy { mode: ReadMode::AcademicPinned, source_policy: "lake-pinned".into() },
    ];
    spec.deterministic_in = vec![ReadMode::AcademicPinned];
    spec
}

#[test]
fn default_mode_from_spec() {
    let spec = mode_spec();
    let mode = ReadModeResolver::resolve(&spec, None, None).unwrap();
    assert_eq!(mode, ReadMode::OperationalLatest);
}

#[test]
fn explicit_operational_latest() {
    let spec = mode_spec();
    let mode = ReadModeResolver::resolve(&spec, Some("operational-latest"), None).unwrap();
    assert_eq!(mode, ReadMode::OperationalLatest);
}

#[test]
fn academic_pinned_with_pin() {
    let spec = mode_spec();
    let mode = ReadModeResolver::resolve(&spec, Some("academic-pinned"), Some("v1.0.0")).unwrap();
    assert_eq!(mode, ReadMode::AcademicPinned);
}

#[test]
fn academic_pinned_without_pin_fails() {
    let spec = mode_spec();
    let result = ReadModeResolver::resolve(&spec, Some("academic-pinned"), None);
    assert_eq!(result, Err(ReadModeError::PinRequired));
}

#[test]
fn unknown_mode_fails() {
    let spec = mode_spec();
    let result = ReadModeResolver::resolve(&spec, Some("unknown"), None);
    assert!(matches!(result, Err(ReadModeError::UnsupportedMode(_))));
}

#[test]
fn unsupported_mode_by_spec_fails() {
    let mut spec = mode_spec();
    spec.read_modes = vec![ReadModePolicy {
        mode: ReadMode::OperationalLatest,
        source_policy: "lake-latest".into(),
    }];
    let result = ReadModeResolver::resolve(&spec, Some("academic-pinned"), Some("v1"));
    assert!(matches!(result, Err(ReadModeError::UnsupportedMode(_))));
}

#[test]
fn read_mode_error_text() {
    assert_eq!(ReadModeError::PinRequired.to_string(), "academic-pinned mode requires ?pin= parameter");
}
