//! What the Google Slides and Drive APIs return, and the client
//! abstraction the adapter reads it through.

use vstd::prelude::*;

use crate::adapter::error::AdapterError;
use crate::domain::json::JsonValue;

verus! {

/// The metadata of one revision. `modified_time` is in microseconds since
/// the Unix epoch.
#[derive(Debug, Clone)]
pub struct SlideRevision {
    pub presentation_id: String,
    pub revision_id: String,
    pub modified_time: i64,
    pub last_modifying_user: Option<String>,
}

/// The native structure of a presentation.
#[derive(Debug)]
pub struct PresentationNative {
    pub presentation_id: String,
    pub title: String,
    pub locale: Option<String>,
    pub slides: Vec<SlideNative>,
    pub page_size: Option<PageSize>,
}

#[derive(Debug)]
pub struct SlideNative {
    pub object_id: String,
    pub page_elements: Vec<JsonValue>,
}

#[derive(Debug, Clone, Copy)]
pub struct PageSize {
    pub width_emu: i64,
    pub height_emu: i64,
}

/// Drive metadata of a presentation.
#[derive(Debug, Clone)]
pub struct PresentationMeta {
    pub presentation_id: String,
    pub title: String,
    pub container_id: Option<String>,
    pub canonical_uri: String,
    pub owner: Option<String>,
    pub editors: Vec<String>,
    pub viewers: Vec<String>,
}

/// A rendered image of one slide.
#[derive(Debug, Clone)]
pub struct RenderedSlide {
    pub slide_object_id: String,
    pub format: String,
    pub data: Vec<u8>,
    pub content_url: Option<String>,
}

/// One page of revisions.
#[derive(Debug, Clone)]
pub struct RevisionListPage {
    pub revisions: Vec<SlideRevision>,
    pub next_page_token: Option<String>,
}

/// The Google Slides and Drive APIs as the adapter uses them.
pub trait GoogleSlidesClient {
    fn list_revisions(&self, presentation_id: &str, page_token: Option<&str>) -> Result<RevisionListPage, AdapterError>;

    fn get_presentation(&self, presentation_id: &str) -> Result<PresentationNative, AdapterError>;

    fn get_presentation_meta(&self, presentation_id: &str) -> Result<PresentationMeta, AdapterError>;

    fn render_slide(
        &self,
        presentation_id: &str,
        slide_object_id: &str,
        format: &str,
    ) -> Result<RenderedSlide, AdapterError>;
}

} // verus!
