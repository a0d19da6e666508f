//! Google Slides revisions as workspace-object snapshot drafts:
//! source-authoritative snapshots of a mutable, multimodal source.

use vstd::prelude::*;
use vstd::string::*;

use crate::adapter::config::AdapterConfig;
use crate::adapter::gslides::client::{GoogleSlidesClient, PresentationMeta, SlideRevision};
use crate::adapter::heartbeat::{instant_json, instant_value};
use crate::adapter::idempotency::gslides_revision_key;
use crate::adapter::slack::mapper::{cursor_of, lookup_cursor, record_cursor};
use crate::adapter::traits::ObservationDraft;
use crate::domain::json::{member, object_json, opt_str_json, strings_json, Json, JsonValue};
use crate::domain::types::{AuthorityModel, CaptureModel};
use crate::domain::values::{BlobRef, EntityRef, ObserverRef, SchemaRef, SemVer, SourceSystemRef};
use crate::text::concat2;

verus! {

pub const WORKSPACE_SNAPSHOT_SCHEMA: &'static str = "schema:workspace-object-snapshot";

pub const WORKSPACE_SNAPSHOT_SCHEMA_VERSION: &'static str = "1.0.0";

pub const OBSERVER_ID: &'static str = "obs:gslides-crawler";

pub const SOURCE_SYSTEM: &'static str = "sys:google-slides";

/// The payload of a revision snapshot.
pub open spec fn revision_payload(
    revision: SlideRevision,
    meta: PresentationMeta,
    native_blob_ref: Option<BlobRef>,
    rendered: nat,
) -> Json {
    Json::Object(
        seq![
            ("title"@, Json::Str(meta.title@)),
            (
                "artifact"@,
                Json::Object(
                    seq![
                        ("provider"@, Json::Str("google"@)),
                        ("service"@, Json::Str("slides"@)),
                        ("objectType"@, Json::Str("presentation"@)),
                        ("sourceObjectId"@, Json::Str(revision.presentation_id@)),
                        ("containerId"@, opt_str_json(meta.container_id)),
                        ("canonicalUri"@, Json::Str(meta.canonical_uri@)),
                    ],
                ),
            ),
            (
                "revision"@,
                Json::Object(
                    seq![
                        ("sourceRevisionId"@, Json::Str(revision.revision_id@)),
                        ("sourceModifiedAt"@, instant_json(revision.modified_time)),
                        ("captureMode"@, Json::Str(if rendered == 0 { "snapshot"@ } else { "hybrid"@ })),
                    ],
                ),
            ),
            (
                "native"@,
                Json::Object(
                    seq![
                        (
                            "encoding"@,
                            Json::Str(if native_blob_ref is Some { "blob-ref"@ } else { "inline-json"@ }),
                        ),
                        (
                            "blobRef"@,
                            match native_blob_ref {
                                Some(b) => Json::Str(b@),
                                None => Json::Null,
                            },
                        ),
                    ],
                ),
            ),
            (
                "relations"@,
                Json::Object(
                    seq![
                        ("owner"@, opt_str_json(meta.owner)),
                        ("editors"@, strings_json(meta.editors@)),
                        ("viewers"@, strings_json(meta.viewers@)),
                    ],
                ),
            ),
        ],
    )
}

/// The Google Slides adapter: a client, its configuration, and one cursor
/// per presentation (the last known revision id).
pub struct GoogleSlidesAdapter<C: GoogleSlidesClient> {
    pub client: C,
    pub config: AdapterConfig,
    /// (presentation id, last known revision id), one entry per
    /// presentation.
    pub cursors: Vec<(String, String)>,
    /// Microseconds since the Unix epoch.
    pub last_successful_capture: Option<i64>,
}

impl<C: GoogleSlidesClient> GoogleSlidesAdapter<C> {
    pub fn new(client: C, config: AdapterConfig) -> (r: Self)
        ensures
            r.client == client,
            r.config == config,
            r.cursors@.len() == 0,
            r.last_successful_capture is None,
    {
        GoogleSlidesAdapter { client, config, cursors: Vec::new(), last_successful_capture: None }
    }

    /// Maps a revision and its presentation's metadata to a snapshot draft.
    /// Rendered slides make it a hybrid capture; a stored native structure
    /// is referenced by blob. The attachments are the rendered slides,
    /// then the native blob.
    pub fn map_revision(
        &self,
        revision: &SlideRevision,
        meta: &PresentationMeta,
        native_blob_ref: Option<BlobRef>,
        rendered_blob_refs: Vec<BlobRef>,
    ) -> (r: ObservationDraft)
        ensures
            r.schema@ == WORKSPACE_SNAPSHOT_SCHEMA@,
            r.schema_version@ == WORKSPACE_SNAPSHOT_SCHEMA_VERSION@,
            r.observer@ == OBSERVER_ID@,
            r.source_system matches Some(s) && s@ == SOURCE_SYSTEM@,
            r.authority_model == AuthorityModel::SourceAuthoritative,
            r.capture_model == CaptureModel::Snapshot,
            r.subject@ == "document:gslides:"@ + revision.presentation_id@,
            r.target is None,
            r.payload@ == revision_payload(*revision, *meta, native_blob_ref, rendered_blob_refs@.len()),
            r.attachments@ == rendered_blob_refs@ + match native_blob_ref {
                Some(b) => seq![b],
                None => Seq::empty(),
            },
            r.published == revision.modified_time,
            r.idempotency_key@ == "gslides:"@ + revision.presentation_id@ + ":rev:"@ + revision.revision_id@,
            r.meta@ == Json::Object(seq![("sourceAdapterVersion"@, Json::Str(self.config.adapter_version@))]),
    {
        let idem_key = gslides_revision_key(revision.presentation_id.as_str(), revision.revision_id.as_str());
        let subject = EntityRef(concat2("document:gslides:", revision.presentation_id.as_str()));
        let capture_mode = if rendered_blob_refs.len() == 0 {
            "snapshot"
        } else {
            "hybrid"
        };
        let native_encoding = match &native_blob_ref {
            Some(_) => "blob-ref",
            None => "inline-json",
        };
        let artifact = JsonValue::object(
            vec![
                member("provider", JsonValue::from_str_value("google")),
                member("service", JsonValue::from_str_value("slides")),
                member("objectType", JsonValue::from_str_value("presentation")),
                member("sourceObjectId", JsonValue::String(revision.presentation_id.clone())),
                member("containerId", JsonValue::opt_string(&meta.container_id)),
                member("canonicalUri", JsonValue::String(meta.canonical_uri.clone())),
            ],
        );
        let rev = JsonValue::object(
            vec![
                member("sourceRevisionId", JsonValue::String(revision.revision_id.clone())),
                member("sourceModifiedAt", instant_value(revision.modified_time)),
                member("captureMode", JsonValue::from_str_value(capture_mode)),
            ],
        );
        let native = JsonValue::object(
            vec![
                member("encoding", JsonValue::from_str_value(native_encoding)),
                member(
                    "blobRef",
                    match &native_blob_ref {
                        Some(b) => JsonValue::String(b.to_string()),
                        None => JsonValue::Null,
                    },
                ),
            ],
        );
        let relations = JsonValue::object(
            vec![
                member("owner", JsonValue::opt_string(&meta.owner)),
                member("editors", JsonValue::strings(&meta.editors)),
                member("viewers", JsonValue::strings(&meta.viewers)),
            ],
        );
        let ghost artifact_model = artifact@;
        let ghost rev_model = rev@;
        let ghost native_model = native@;
        let ghost relations_model = relations@;
        let payload = JsonValue::object(
            vec![
                member("title", JsonValue::String(meta.title.clone())),
                member("artifact", artifact),
                member("revision", rev),
                member("native", native),
                member("relations", relations),
            ],
        );
        proof {
            let want = revision_payload(*revision, *meta, native_blob_ref, rendered_blob_refs@.len());
            assert(artifact_model->Object_0 =~= want->Object_0[1].1->Object_0);
            assert(rev_model->Object_0 =~= want->Object_0[2].1->Object_0);
            assert(native_model->Object_0 =~= want->Object_0[3].1->Object_0);
            assert(relations_model->Object_0 =~= want->Object_0[4].1->Object_0);
            assert(payload@->Object_0 =~= want->Object_0);
        }
        let ghost rendered = rendered_blob_refs@;
        let ghost native_opt = native_blob_ref;
        let mut attachments = rendered_blob_refs;
        match native_blob_ref {
            Some(nb) => {
                attachments.push(nb);
            },
            None => {},
        }
        assert(attachments@ =~= rendered + match native_opt {
            Some(b) => seq![b],
            None => Seq::empty(),
        });
        let meta_json = JsonValue::object(
            vec![member("sourceAdapterVersion", JsonValue::String(self.config.adapter_version.to_string()))],
        );
        assert(meta_json@->Object_0 =~= seq![("sourceAdapterVersion"@, Json::Str(self.config.adapter_version@))]);
        ObservationDraft {
            schema: SchemaRef::new(WORKSPACE_SNAPSHOT_SCHEMA),
            schema_version: SemVer::new(WORKSPACE_SNAPSHOT_SCHEMA_VERSION),
            observer: ObserverRef::new(OBSERVER_ID),
            source_system: Some(SourceSystemRef::new(SOURCE_SYSTEM)),
            authority_model: AuthorityModel::SourceAuthoritative,
            capture_model: CaptureModel::Snapshot,
            subject,
            target: None,
            payload,
            attachments,
            published: revision.modified_time,
            idempotency_key: idem_key,
            meta: meta_json,
        }
    }

    /// Records the latest revision seen of a presentation.
    pub fn update_cursor(&mut self, presentation_id: &str, revision_id: &str)
        ensures
            cursor_of(final(self).cursors@, presentation_id@) == Some(revision_id@),
            forall|k: Seq<char>|
                k != presentation_id@ ==> cursor_of(final(self).cursors@, k) == cursor_of(old(self).cursors@, k),
    {
        record_cursor(&mut self.cursors, presentation_id, revision_id);
    }

    /// The latest revision recorded for a presentation.
    pub fn get_cursor(&self, presentation_id: &str) -> (r: Option<&str>)
        ensures
            match r {
                Some(v) => cursor_of(self.cursors@, presentation_id@) == Some(v@),
                None => cursor_of(self.cursors@, presentation_id@) is None,
            },
    {
        lookup_cursor(&self.cursors, presentation_id)
    }
}

/// The metadata a bare revision is mapped with when nothing else is known
/// of its presentation: no title, the Slides address of the presentation,
/// no container, owner, editors or viewers.
pub fn placeholder_meta(revision: &SlideRevision) -> (r: PresentationMeta)
    ensures
        r.presentation_id@ == revision.presentation_id@,
        r.title@ == Seq::<char>::empty(),
        r.container_id is None,
        r.canonical_uri@ == "https://docs.google.com/presentation/d/"@ + revision.presentation_id@,
        r.owner is None,
        r.editors@.len() == 0,
        r.viewers@.len() == 0,
{
    let mut canonical_uri = String::from_str("https://docs.google.com/presentation/d/");
    canonical_uri.append(revision.presentation_id.as_str());
    PresentationMeta {
        presentation_id: revision.presentation_id.clone(),
        title: String::new(),
        container_id: None,
        canonical_uri,
        owner: None,
        editors: Vec::new(),
        viewers: Vec::new(),
    }
}

} // verus!
