//! Types of person pages. Times are microseconds since the Unix epoch.

use vstd::prelude::*;

use crate::domain::values::EntityRef;

verus! {

#[derive(Debug, Clone)]
pub struct PersonProfile {
    pub person_id: EntityRef,
    pub display_name: String,
    pub self_intro_text: Option<String>,
    pub self_intro_slide_id: Option<String>,
    pub self_intro_thumbnail: Option<String>,
    pub identities: Vec<IdentityInfo>,
    pub source_count: usize,
    pub last_activity: Option<i64>,
    pub profile_updated_at: i64,
    /// The self-introduction read from the person's latest slide analysis.
    pub frontend_profile: Option<FrontendProfile>,
}

/// What a slide analysis found about a student: the fields of its payload
/// that person pages read.
#[derive(Debug, Clone)]
pub struct StudentProfile {
    pub email: Option<String>,
    pub generated_email: Option<String>,
    pub name: String,
    pub bio_text: Option<String>,
    pub source_slide_object_id: Option<String>,
    pub source_document_id: Option<String>,
    pub source_canonical_uri: Option<String>,
    pub thumbnail_blob_ref: Option<String>,
    pub thumbnail_url: Option<String>,
    pub companion_to_slide_object_id: Option<String>,
}

/// A student profile linked to the slide document it came from.
#[derive(Debug, Clone)]
pub struct FrontendProfile {
    pub source_document_id: String,
    pub source_canonical_uri: Option<String>,
    pub thumbnail_ref: Option<String>,
    pub thumbnail_url: Option<String>,
    pub profile: StudentProfile,
}

#[derive(Debug, Clone)]
pub struct IdentityInfo {
    pub system: String,
    pub external_id: String,
}

#[derive(Debug, Clone)]
pub struct PersonSlide {
    pub id: String,
    pub person_id: EntityRef,
    pub document_id: String,
    pub title: String,
    pub role: String,
    pub last_seen_revision: Option<String>,
    pub slide_count: Option<u32>,
    pub thumbnail_ref: Option<String>,
    pub last_modified: Option<i64>,
}

#[derive(Debug, Clone)]
pub struct PersonMessage {
    pub id: String,
    pub person_id: EntityRef,
    pub channel: String,
    pub text: String,
    pub ts: i64,
    pub thread_ts: Option<String>,
    pub has_attachments: bool,
}

#[derive(Debug, Clone)]
pub struct PersonActivity {
    pub person_id: EntityRef,
    pub total_slides_related: usize,
    pub total_messages: usize,
    pub first_activity: Option<i64>,
    pub last_activity: Option<i64>,
    pub active_channels: Vec<String>,
}

#[derive(Debug, Clone)]
pub struct TimelineEvent {
    pub event_type: String,
    pub document_id: Option<String>,
    pub channel: Option<String>,
    pub title: Option<String>,
    pub text: Option<String>,
    pub ts: i64,
}

#[derive(Debug, Clone)]
pub struct PersonDetailResponse {
    pub person_id: EntityRef,
    pub display_name: String,
    pub self_introduction: Option<SelfIntroduction>,
    pub identities: Vec<IdentityInfo>,
    pub related_slides: Vec<PersonSlide>,
    pub recent_messages: Vec<PersonMessage>,
    pub activity_summary: PersonActivity,
}

#[derive(Debug, Clone)]
pub struct SelfIntroduction {
    pub text: String,
    pub slide_id: Option<String>,
    pub thumbnail_url: Option<String>,
}

#[derive(Debug, Clone)]
pub struct PersonListItem {
    pub person_id: EntityRef,
    pub display_name: String,
    pub source_count: usize,
    pub total_slides: usize,
    pub total_messages: usize,
    pub last_activity: Option<i64>,
    pub thumbnail_url: Option<String>,
}

#[derive(Debug, Clone)]
pub struct PersonPageOutput {
    pub profiles: Vec<PersonProfile>,
    pub slides: Vec<PersonSlide>,
    pub messages: Vec<PersonMessage>,
    pub activities: Vec<PersonActivity>,
}

impl Default for PersonPageOutput {
    fn default() -> (r: Self)
        ensures
            r.profiles@.len() == 0,
            r.slides@.len() == 0,
            r.messages@.len() == 0,
            r.activities@.len() == 0,
    {
        PersonPageOutput {
            profiles: Vec::new(),
            slides: Vec::new(),
            messages: Vec::new(),
            activities: Vec::new(),
        }
    }
}

} // verus!
