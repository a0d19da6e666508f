//! Response envelopes: every response carries its projection's metadata.

use vstd::prelude::*;
use vstd::string::*;

use crate::domain::types::ReadMode;
use crate::domain::values::{ProjectionRef, SemVer};
use crate::text::spec_signed_decimal;
use crate::text::i64_to_decimal;
use crate::trusted::{format_rfc3339_offset, rfc3339_offset_text};

verus! {

/// The metadata of the projection a response was read from. `built_at`
/// is in microseconds since the Unix epoch.
#[derive(Debug, Clone)]
pub struct ProjectionMetadata {
    pub projection_id: ProjectionRef,
    pub version: SemVer,
    pub built_at: i64,
    pub read_mode: ReadMode,
    pub stale: bool,
    pub lineage_ref: Option<String>,
}

/// A response: the data and the projection metadata.
#[derive(Debug, Clone)]
pub struct ResponseEnvelope<T> {
    pub data: T,
    pub projection_metadata: ProjectionMetadata,
}

/// An error response body.
#[derive(Debug, Clone, PartialEq, Eq)]
pub struct ErrorResponse {
    pub error: String,
    pub detail: Option<String>,
    pub retry_after: Option<u32>,
}

/// Whether an error response is `code` with this detail and retry time.
pub open spec fn error_is(
    r: ErrorResponse,
    code: Seq<char>,
    detail: Option<Seq<char>>,
    retry_after: Option<u32>,
) -> bool {
    &&& r.error@ == code
    &&& match (r.detail, detail) {
        (Some(d), Some(e)) => d@ == e,
        (None, None) => true,
        _ => false,
    }
    &&& r.retry_after == retry_after
}

impl ErrorResponse {
    pub fn bad_request(detail: &str) -> (r: Self)
        ensures
            error_is(r, "bad_request"@, Some(detail@), None),
    {
        ErrorResponse {
            error: String::from_str("bad_request"),
            detail: Some(String::from_str(detail)),
            retry_after: None,
        }
    }

    pub fn internal_server_error(detail: &str) -> (r: Self)
        ensures
            error_is(r, "internal_server_error"@, Some(detail@), None),
    {
        ErrorResponse {
            error: String::from_str("internal_server_error"),
            detail: Some(String::from_str(detail)),
            retry_after: None,
        }
    }

    pub fn unauthorized() -> (r: Self)
        ensures
            error_is(r, "unauthorized"@, None, None),
    {
        ErrorResponse { error: String::from_str("unauthorized"), detail: None, retry_after: None }
    }

    pub fn forbidden(detail: &str) -> (r: Self)
        ensures
            error_is(r, "forbidden"@, Some(detail@), None),
    {
        ErrorResponse {
            error: String::from_str("forbidden"),
            detail: Some(String::from_str(detail)),
            retry_after: None,
        }
    }

    pub fn not_found() -> (r: Self)
        ensures
            error_is(r, "not_found"@, None, None),
    {
        ErrorResponse { error: String::from_str("not_found"), detail: None, retry_after: None }
    }

    pub fn service_unavailable(retry_after: u32) -> (r: Self)
        ensures
            error_is(r, "service_unavailable"@, None, Some(retry_after)),
    {
        ErrorResponse {
            error: String::from_str("service_unavailable"),
            detail: None,
            retry_after: Some(retry_after),
        }
    }
}

/// The HTTP headers of a response.
#[derive(Debug, Clone)]
pub struct LetheHeaders {
    pub projection_id: String,
    pub read_mode: String,
    pub stale: bool,
    pub built_at: String,
    pub lineage_ref: Option<String>,
}

/// The serialised name of a read mode.
pub open spec fn read_mode_name(m: ReadMode) -> Seq<char> {
    match m {
        ReadMode::AcademicPinned => "academic_pinned"@,
        ReadMode::OperationalLatest => "operational_latest"@,
        ReadMode::ApplicationCached => "application_cached"@,
    }
}

/// How the build time is written in a header: RFC 3339, or its number of
/// microseconds when `chrono` cannot represent it.
pub open spec fn built_at_text(micros: i64) -> Seq<char> {
    match rfc3339_offset_text(micros) {
        Some(t) => t,
        None => spec_signed_decimal(micros as int),
    }
}

impl LetheHeaders {
    /// The headers of a response read from a projection with this
    /// metadata.
    pub fn from_metadata(meta: &ProjectionMetadata) -> (r: Self)
        ensures
            r.projection_id@ == meta.projection_id@,
            r.read_mode@ == read_mode_name(meta.read_mode),
            r.stale == meta.stale,
            r.built_at@ == built_at_text(meta.built_at),
            match (r.lineage_ref, meta.lineage_ref) {
                (Some(a), Some(b)) => a@ == b@,
                (None, None) => true,
                _ => false,
            },
    {
        let read_mode = match meta.read_mode {
            ReadMode::AcademicPinned => "academic_pinned",
            ReadMode::OperationalLatest => "operational_latest",
            ReadMode::ApplicationCached => "application_cached",
        };
        let built_at = match format_rfc3339_offset(meta.built_at) {
            Some(t) => t,
            None => i64_to_decimal(meta.built_at),
        };
        LetheHeaders {
            projection_id: meta.projection_id.to_string(),
            read_mode: String::from_str(read_mode),
            stale: meta.stale,
            built_at,
            lineage_ref: match &meta.lineage_ref {
                Some(l) => Some(l.clone()),
                None => None,
            },
        }
    }
}

} // verus!
