//! The decisions of the Notion client: configuration, the request bodies,
//! the managed section of a page (where it starts, what is archived and
//! what replaces it), thumbnails, and how a response status is read.
//! The HTTP calls themselves are made by the caller.

use vstd::prelude::*;
use vstd::string::*;

use crate::adapter::error::AdapterError;
use crate::adapter::writeback::notion::blocks::{
    archive_toggle, divider, external_image, make_archive_toggle, make_divider, make_obj1,
    make_paragraph, make_rich_text, models, obj1, paragraph, rich_text, thumbnail_external_block,
};
use crate::adapter::writeback::notion::properties::{member_models, upsert, DatabaseSchema};
use crate::adapter::writeback::notion::render::{
    email_of, has_prefix, payload_blocks, payload_email, render_payload_blocks,
};
use crate::adapter::writeback::traits::WriteRecord;
use crate::domain::json::{Json, JsonValue};
use crate::text::{
    concat2, concat3, join_strings, joined, starts_with, str_eq, strip_prefix, strip_prefix_spec,
    views,
};
use crate::trusted::{trim, trimmed};

verus! {

/// Configuration of the Notion destination.
#[derive(Debug, Clone)]
pub struct NotionConfig {
    /// Integration token (bearer).
    pub token: String,
    /// The database that holds the pages.
    pub database_id: String,
    /// Local blob directory that file uploads are read from.
    pub blob_dir: Option<String>,
    /// The `Notion-Version` header.
    pub api_version: String,
}

impl NotionConfig {
    pub fn new(token: &str, database_id: &str) -> (r: Self)
        ensures
            r.token@ == token@,
            r.database_id@ == database_id@,
            r.blob_dir is None,
            r.api_version@ == "2022-06-28"@,
    {
        NotionConfig {
            token: String::from_str(token),
            database_id: String::from_str(database_id),
            blob_dir: None,
            api_version: String::from_str("2022-06-28"),
        }
    }

    pub fn with_blob_dir(self, blob_dir: &str) -> (r: Self)
        ensures
            r.token == self.token,
            r.database_id == self.database_id,
            r.api_version == self.api_version,
            r.blob_dir matches Some(d) && d@ == blob_dir@,
    {
        NotionConfig { blob_dir: Some(String::from_str(blob_dir)), ..self }
    }
}

/// A page of the database.
#[derive(Debug)]
pub struct NotionPage {
    pub id: String,
    pub url: Option<String>,
    pub properties: JsonValue,
}

/// A block of a page: its identifier, its type and its other fields.
#[derive(Debug)]
pub struct NotionBlock {
    pub id: String,
    pub block_type: String,
    pub raw: JsonValue,
}

/// Whether `c` is an ASCII hexadecimal digit.
pub open spec fn is_hex(c: char) -> bool {
    ('0' <= c && c <= '9') || ('a' <= c && c <= 'f') || ('A' <= c && c <= 'F')
}

/// The hash of a `blob:sha256:` reference: 64 hexadecimal digits.
pub open spec fn blob_hash_of(blob_ref: Seq<char>) -> Option<Seq<char>> {
    let p = "blob:sha256:"@;
    if has_prefix(blob_ref, p) {
        let h = blob_ref.skip(p.len() as int);
        if h.len() == 64 && forall|i: int| 0 <= i < h.len() ==> is_hex(#[trigger] h[i]) {
            Some(h)
        } else {
            None
        }
    } else {
        None
    }
}

/// The hash of a `blob:sha256:` reference, when it is 64 hexadecimal
/// digits.
pub fn blob_ref_sha256(blob_ref: &str) -> (r: Option<&str>)
    ensures
        match r {
            Some(h) => blob_hash_of(blob_ref@) == Some(h@),
            None => blob_hash_of(blob_ref@) is None,
        },
{
    proof {
        reveal_strlit("blob:sha256:");
    }
    let hash = match strip_prefix(blob_ref, "blob:sha256:") {
        Some(h) => h,
        None => {
            return None;
        },
    };
    let n = hash.unicode_len();
    if n != 64 {
        return None;
    }
    let mut i: usize = 0;
    while i < n
        invariant
            n == hash@.len(),
            n == 64,
            i <= n,
            strip_prefix_spec(blob_ref@, "blob:sha256:"@) == Some(hash@),
            forall|j: int| 0 <= j < i ==> is_hex(#[trigger] hash@[j]),
        decreases n - i,
    {
        let c = hash.get_char(i);
        if !(('0' <= c && c <= '9') || ('a' <= c && c <= 'f') || ('A' <= c && c <= 'F')) {
            assert(!is_hex(hash@[i as int]));
            return None;
        }
        i = i + 1;
    }
    Some(hash)
}

/// What a managed-section marker reads: the first rich text item's plain
/// text, else its text content.
pub open spec fn marker_text(raw: Json) -> Option<Json> {
    match raw.get("heading_2"@) {
        Some(h) => match h.get("rich_text"@) {
            Some(Json::Array(arr)) => if arr.len() > 0 {
                match arr[0].get("plain_text"@) {
                    Some(p) => Some(p),
                    None => match arr[0].get("text"@) {
                        Some(t) => t.get("content"@),
                        None => None,
                    },
                }
            } else {
                None
            },
            _ => None,
        },
        None => None,
    }
}

/// Whether a block starts the managed section: a divider, or the former
/// heading marker.
pub open spec fn is_marker(b: NotionBlock) -> bool {
    ||| b.block_type@ == "divider"@
    ||| (b.block_type@ == "heading_2"@ && marker_text(b.raw@) == Some(
        Json::Str("🤖 From Google Slide"@),
    ))
}

/// Whether a block starts the managed section: a divider, or a level-2
/// heading that reads `🤖 From Google Slide`.
pub fn is_bot_section_marker(block: &NotionBlock) -> (r: bool)
    ensures
        r == is_marker(*block),
{
    if str_eq(block.block_type.as_str(), "divider") {
        return true;
    }
    if !str_eq(block.block_type.as_str(), "heading_2") {
        return false;
    }
    let item = match block.raw.get("heading_2") {
        Some(h) => match h.get("rich_text") {
            Some(rt) => match rt.as_array() {
                Some(arr) => {
                    if arr.len() == 0 {
                        return false;
                    }
                    &arr[0]
                },
                None => {
                    return false;
                },
            },
            None => {
                return false;
            },
        },
        None => {
            return false;
        },
    };
    let text = match item.get("plain_text") {
        Some(p) => Some(p),
        None => match item.get("text") {
            Some(t) => t.get("content"),
            None => None,
        },
    };
    match text {
        Some(v) => match v.as_str() {
            Some(s) => str_eq(s.as_str(), "🤖 From Google Slide"),
            None => false,
        },
        None => false,
    }
}

/// Whether a block is the managed thumbnail (an image).
pub fn is_managed_thumbnail_block(block: &NotionBlock) -> (r: bool)
    ensures
        r == (block.block_type@ == "image"@),
{
    str_eq(block.block_type.as_str(), "image")
}

/// The trimmed texts an object itself holds: its `plain_text` and its
/// `text.content`, each when not blank.
pub open spec fn own_texts(v: Json) -> Seq<Seq<char>> {
    let a = match v.get_str("plain_text"@) {
        Some(t) => if trimmed(t).len() > 0 {
            seq![trimmed(t)]
        } else {
            Seq::empty()
        },
        None => Seq::empty(),
    };
    let b = match v.get("text"@) {
        Some(tv) => match tv.get_str("content"@) {
            Some(t) => if trimmed(t).len() > 0 {
                seq![trimmed(t)]
            } else {
                Seq::empty()
            },
            None => Seq::empty(),
        },
        None => Seq::empty(),
    };
    a + b
}

/// Every text a value holds, depth first, members and elements in order.
pub open spec fn plain_texts(v: Json) -> Seq<Seq<char>>
    decreases v,
{
    match v {
        Json::Object(ms) => own_texts(v) + member_plain_texts(ms),
        Json::Array(items) => item_plain_texts(items),
        _ => Seq::empty(),
    }
}

pub open spec fn item_plain_texts(items: Seq<Json>) -> Seq<Seq<char>>
    decreases items,
{
    if items.len() == 0 {
        Seq::empty()
    } else {
        item_plain_texts(items.subrange(0, items.len() - 1)) + plain_texts(items[items.len() - 1])
    }
}

pub open spec fn member_plain_texts(ms: Seq<(Seq<char>, Json)>) -> Seq<Seq<char>>
    decreases ms,
{
    if ms.len() == 0 {
        Seq::empty()
    } else {
        member_plain_texts(ms.subrange(0, ms.len() - 1)) + member_value_texts(ms[ms.len() - 1])
    }
}

pub open spec fn member_value_texts(m: (Seq<char>, Json)) -> Seq<Seq<char>>
    decreases m,
{
    plain_texts(m.1)
}

fn push_trimmed(parts: &mut Vec<String>, t: Option<&String>)
    ensures
        views(final(parts)@) == views(old(parts)@) + match t {
            Some(s) => if trimmed(s@).len() > 0 {
                seq![trimmed(s@)]
            } else {
                Seq::empty()
            },
            None => Seq::empty(),
        },
{
    match t {
        Some(s) => {
            let x = trim(s.as_str());
            if x.unicode_len() > 0 {
                parts.push(String::from_str(x));
                assert(views(parts@) =~= views(old(parts)@) + seq![x@]);
            } else {
                assert(views(parts@) =~= views(old(parts)@) + Seq::<Seq<char>>::empty());
            }
        },
        None => {
            assert(views(parts@) =~= views(old(parts)@) + Seq::<Seq<char>>::empty());
        },
    }
}

/// Appends every text the value holds.
pub fn collect_plain_text(value: &JsonValue, parts: &mut Vec<String>)
    ensures
        views(final(parts)@) == views(old(parts)@) + plain_texts(value@),
    decreases value,
{
    match value {
        JsonValue::Object(m) => {
            proof {
                crate::domain::json::lemma_object_view(*value);
            }
            let ghost members = value@->Object_0;
            let ghost start = views(parts@);
            push_trimmed(parts, value.get_str("plain_text"));
            let content = match value.get("text") {
                Some(tv) => tv.get_str("content"),
                None => None,
            };
            push_trimmed(parts, content);
            let ghost own = views(parts@);
            assert(own =~= start + own_texts(value@));
            let mut i: usize = 0;
            assert(members.subrange(0, 0) =~= Seq::<(Seq<char>, Json)>::empty());
            while i < m.len()
                invariant
                    i <= m@.len(),
                    *value == JsonValue::Object(*m),
                    members.len() == m@.len(),
                    forall|k: int| 0 <= k < m@.len() ==> #[trigger] members[k] == (m@[k].0@, m@[k].1@),
                    views(parts@) == own + member_plain_texts(members.subrange(0, i as int)),
                decreases m@.len() - i,
            {
                proof {
                    assert(decreases_to!(*value => (*value)->Object_0));
                    assert(decreases_to!(*m => m@));
                    assert(decreases_to!(m@ => m@[i as int]));
                    assert(decreases_to!(m@[i as int] => m@[i as int].1));
                }
                let ghost before = views(parts@);
                collect_plain_text(&m[i].1, parts);
                proof {
                    let next = members.subrange(0, i + 1);
                    assert(next.subrange(0, next.len() - 1) =~= members.subrange(0, i as int));
                    assert(next[next.len() - 1] == (m@[i as int].0@, m@[i as int].1@));
                    assert(member_value_texts(next[next.len() - 1]) == plain_texts(m@[i as int].1@));
                    assert(views(parts@) =~= own + member_plain_texts(next));
                }
                i = i + 1;
            }
            assert(members.subrange(0, m@.len() as int) =~= members);
            assert(views(parts@) =~= start + (own_texts(value@) + member_plain_texts(members)));
        },
        JsonValue::Array(a) => {
            proof {
                crate::domain::json::lemma_array_view(*value);
            }
            let ghost items = value@->Array_0;
            let ghost start = views(parts@);
            let mut i: usize = 0;
            assert(items.subrange(0, 0) =~= Seq::<Json>::empty());
            while i < a.len()
                invariant
                    i <= a@.len(),
                    *value == JsonValue::Array(*a),
                    items.len() == a@.len(),
                    forall|k: int| 0 <= k < a@.len() ==> #[trigger] items[k] == a@[k]@,
                    views(parts@) == start + item_plain_texts(items.subrange(0, i as int)),
                decreases a@.len() - i,
            {
                proof {
                    assert(decreases_to!(*value => (*value)->Array_0));
                    assert(decreases_to!(*a => a@));
                    assert(decreases_to!(a@ => a@[i as int]));
                }
                collect_plain_text(&a[i], parts);
                proof {
                    let next = items.subrange(0, i + 1);
                    assert(next.subrange(0, next.len() - 1) =~= items.subrange(0, i as int));
                    assert(next[next.len() - 1] == a@[i as int]@);
                    assert(views(parts@) =~= start + item_plain_texts(next));
                }
                i = i + 1;
            }
            assert(items.subrange(0, a@.len() as int) =~= items);
        },
        _ => {
            assert(views(parts@) =~= views(old(parts)@) + Seq::<Seq<char>>::empty());
        },
    }
}

/// Every text a value holds, joined by spaces.
pub fn extract_plain_text(value: &JsonValue) -> (r: String)
    ensures
        r@ == joined(plain_texts(value@), " "@),
{
    let mut parts: Vec<String> = Vec::new();
    assert(views(parts@) =~= Seq::<Seq<char>>::empty());
    collect_plain_text(value, &mut parts);
    assert(views(parts@) =~= plain_texts(value@));
    join_strings(&parts, " ")
}

/// The archived form of a block: a paragraph of its text, when it has any.
pub open spec fn sanitized(b: NotionBlock) -> Option<Json> {
    let t = trimmed(joined(plain_texts(b.raw@), " "@));
    if t.len() > 0 {
        Some(paragraph(t))
    } else {
        None
    }
}

/// The archived form of a block: a paragraph of its text, when it has any.
pub fn sanitize_archived_block(block: &NotionBlock) -> (r: Option<JsonValue>)
    ensures
        match r {
            Some(v) => sanitized(*block) == Some(v@),
            None => sanitized(*block) is None,
        },
{
    let text = extract_plain_text(&block.raw);
    let t = trim(text.as_str());
    if t.unicode_len() == 0 {
        None
    } else {
        Some(make_paragraph(t))
    }
}

/// The position of the first managed-section marker.
pub open spec fn first_marker(blocks: Seq<NotionBlock>) -> Option<int>
    decreases blocks.len(),
{
    if blocks.len() == 0 {
        None
    } else {
        match first_marker(blocks.drop_last()) {
            Some(i) => Some(i),
            None => if is_marker(blocks.last()) {
                Some(blocks.len() - 1)
            } else {
                None
            },
        }
    }
}

/// The identifiers of blocks.
pub open spec fn block_ids(blocks: Seq<NotionBlock>) -> Seq<Seq<char>> {
    blocks.map_values(|b: NotionBlock| b.id@)
}

/// The archived forms of the blocks that have text.
pub open spec fn archived_of(blocks: Seq<NotionBlock>) -> Seq<Json>
    decreases blocks.len(),
{
    if blocks.len() == 0 {
        Seq::empty()
    } else {
        let rest = archived_of(blocks.drop_last());
        match sanitized(blocks.last()) {
            Some(p) => rest.push(p),
            None => rest,
        }
    }
}

/// The blocks the update removes: the managed thumbnail just before the
/// marker, the marker, and everything after it. Nothing without a marker.
pub open spec fn stacking_deletes(blocks: Seq<NotionBlock>) -> Seq<Seq<char>> {
    match first_marker(blocks) {
        Some(mi) => {
            let thumb = if mi > 0 && blocks[mi - 1].block_type@ == "image"@ {
                seq![blocks[mi - 1].id@]
            } else {
                Seq::empty()
            };
            thumb + seq![blocks[mi].id@] + block_ids(blocks.skip(mi + 1))
        },
        None => Seq::empty(),
    }
}

/// The archived forms of the blocks after the marker.
pub open spec fn stacking_archive(blocks: Seq<NotionBlock>) -> Seq<Json> {
    match first_marker(blocks) {
        Some(mi) => archived_of(blocks.skip(mi + 1)),
        None => Seq::empty(),
    }
}

/// What the update removes from a page and what it archives.
pub struct StackingPlan {
    /// Block identifiers to delete, in order.
    pub delete_queue: Vec<String>,
    /// Paragraphs of the previous managed content.
    pub archived: Vec<JsonValue>,
}

/// Finds the managed section of a page: the blocks to delete (the
/// thumbnail before the marker, the marker and all later blocks) and the
/// archived text of the later blocks.
pub fn plan_stacking_update(blocks: &Vec<NotionBlock>) -> (r: StackingPlan)
    ensures
        views(r.delete_queue@) == stacking_deletes(blocks@),
        models(r.archived@) == stacking_archive(blocks@),
{
    let mut delete_queue: Vec<String> = Vec::new();
    let mut archived: Vec<JsonValue> = Vec::new();
    let mut i: usize = 0;
    let mut marker: Option<usize> = None;
    while marker.is_none() && i < blocks.len()
        invariant
            i <= blocks@.len(),
            first_marker(blocks@.take(i as int)) is None,
            marker matches Some(m) ==> m == i && i < blocks@.len() && is_marker(blocks@[i as int]),
        decreases blocks@.len() - i + if marker is None {
            1int
        } else {
            0int
        },
    {
        assert(blocks@.take(i + 1).drop_last() =~= blocks@.take(i as int));
        if is_bot_section_marker(&blocks[i]) {
            marker = Some(i);
        } else {
            i = i + 1;
        }
    }
    let mi = match marker {
        Some(mi) => {
            let n = blocks.len();
            assert(mi < n);
            mi
        },
        None => {
            assert(blocks@.take(blocks@.len() as int) =~= blocks@);
            assert(views(delete_queue@) =~= Seq::<Seq<char>>::empty());
            assert(models(archived@) =~= Seq::<Json>::empty());
            return StackingPlan { delete_queue, archived };
        },
    };
    proof {
        lemma_first_marker_prefix(blocks@, mi as int);
    }
    if mi > 0 && is_managed_thumbnail_block(&blocks[mi - 1]) {
        delete_queue.push(blocks[mi - 1].id.clone());
    }
    delete_queue.push(blocks[mi].id.clone());
    let ghost head = views(delete_queue@);
    let ghost rest = blocks@.skip(mi + 1);
    let mut j: usize = mi + 1;
    assert(rest.take(0) =~= Seq::<NotionBlock>::empty());
    assert(block_ids(rest.take(0)) =~= Seq::<Seq<char>>::empty());
    assert(views(delete_queue@) =~= head + block_ids(rest.take(0)));
    assert(models(archived@) =~= Seq::<Json>::empty());
    while j < blocks.len()
        invariant
            mi < j <= blocks@.len(),
            rest == blocks@.skip(mi + 1),
            views(delete_queue@) == head + block_ids(rest.take(j - mi - 1)),
            models(archived@) == archived_of(rest.take(j - mi - 1)),
        decreases blocks@.len() - j,
    {
        let k = j - mi - 1;
        assert(rest.take(k + 1).drop_last() =~= rest.take(k as int));
        assert(rest.take(k + 1).last() == blocks@[j as int]);
        match sanitize_archived_block(&blocks[j]) {
            Some(p) => {
                let ghost before = models(archived@);
                archived.push(p);
                assert(models(archived@) =~= before.push(archived@.last()@));
            },
            None => {},
        }
        let ghost before_dq = views(delete_queue@);
        delete_queue.push(blocks[j].id.clone());
        assert(views(delete_queue@) =~= before_dq.push(blocks@[j as int].id@));
        assert(block_ids(rest.take(k + 1)) =~= block_ids(rest.take(k as int)).push(blocks@[j as int].id@));
        assert(views(delete_queue@) =~= head + block_ids(rest.take(k + 1)));
        j = j + 1;
    }
    assert(rest.take(rest.len() as int) =~= rest);
    StackingPlan { delete_queue, archived }
}

proof fn lemma_first_marker_prefix(blocks: Seq<NotionBlock>, i: int)
    requires
        0 <= i < blocks.len(),
        first_marker(blocks.take(i)) is None,
        is_marker(blocks[i]),
    ensures
        first_marker(blocks) == Some(i),
    decreases blocks.len(),
{
    if blocks.len() - 1 == i {
        assert(blocks.drop_last() =~= blocks.take(i));
    } else {
        assert(blocks.drop_last().take(i) =~= blocks.take(i));
        lemma_first_marker_prefix(blocks.drop_last(), i);
    }
}

/// The blocks appended after the update: the thumbnail, the divider that
/// marks the managed section, the rendered payload and, when there was
/// previous content, a toggle archiving it under `date`.
pub open spec fn stacking_children(
    thumbnail: Option<Json>,
    payload: Json,
    archived: Seq<Json>,
    date: Seq<char>,
) -> Seq<Json> {
    let t = match thumbnail {
        Some(b) => seq![b],
        None => Seq::empty(),
    };
    let tail = if archived.len() > 0 {
        seq![archive_toggle(date, archived)]
    } else {
        Seq::empty()
    };
    t + seq![divider()] + payload_blocks(payload) + tail
}

/// The blocks appended after the update.
pub fn build_stacking_children(
    thumbnail: Option<JsonValue>,
    payload: &JsonValue,
    archived: Vec<JsonValue>,
    date: &str,
) -> (r: Vec<JsonValue>)
    ensures
        models(r@) == stacking_children(
            match thumbnail {
                Some(b) => Some(b@),
                None => None,
            },
            payload@,
            models(archived@),
            date@,
        ),
{
    let ghost t = match &thumbnail {
        Some(b) => seq![b@],
        None => Seq::<Json>::empty(),
    };
    let ghost arch = models(archived@);
    let mut children: Vec<JsonValue> = Vec::new();
    match thumbnail {
        Some(b) => {
            children.push(b);
        },
        None => {},
    }
    assert(models(children@) =~= t);
    children.push(make_divider());
    assert(models(children@) =~= t + seq![divider()]);
    let mut rendered = render_payload_blocks(payload);
    let ghost (c0, r0) = (children@, rendered@);
    children.append(&mut rendered);
    assert(models(children@) =~= models(c0) + models(r0));
    if archived.len() > 0 {
        children.push(make_archive_toggle(date, archived));
        assert(models(children@) =~= t + seq![divider()] + payload_blocks(payload@) + seq![
            archive_toggle(date@, arch),
        ]);
    } else {
        assert(models(children@) =~= t + seq![divider()] + payload_blocks(payload@)
            + Seq::<Json>::empty());
    }
    children
}

/// Where a page's thumbnail comes from.
#[derive(Debug)]
pub enum ThumbnailPlan {
    /// Upload the blob with this hash under this file name.
    Upload { hash: String, filename: String },
    /// Show an external image.
    External(JsonValue),
    /// No thumbnail.
    Nothing,
}

/// The thumbnail of a payload: an upload of its `thumbnail_blob_ref` (an
/// error when the reference is not a SHA-256 blob reference), else an
/// external image for an `http` `thumbnail_url`, else nothing.
pub open spec fn thumbnail_plan_ok(p: Json, r: ThumbnailPlan) -> bool {
    match p.get_str("thumbnail_blob_ref"@) {
        Some(blob_ref) => match blob_hash_of(blob_ref) {
            Some(h) => r matches ThumbnailPlan::Upload { hash, filename } && hash@ == h
                && filename@ == "lethe-thumbnail-"@ + h.take(8) + ".png"@,
            None => false,
        },
        None => match p.get_str("thumbnail_url"@) {
            Some(u) => if has_prefix(u, "http"@) {
                r matches ThumbnailPlan::External(b) && b@ == external_image(u)
            } else {
                r is Nothing
            },
            None => r is Nothing,
        },
    }
}

/// Decides where a payload's thumbnail comes from.
pub fn plan_thumbnail(payload: &JsonValue) -> (r: Result<ThumbnailPlan, AdapterError>)
    ensures
        match r {
            Ok(plan) => thumbnail_plan_ok(payload@, plan),
            Err(e) => (payload@.get_str("thumbnail_blob_ref"@) matches Some(b) && blob_hash_of(b)
                is None && (e matches AdapterError::Other(m) && m@ == "invalid thumbnail blob ref: "@
                + b)),
        },
{
    match payload.get_str("thumbnail_blob_ref") {
        Some(blob_ref) => match blob_ref_sha256(blob_ref.as_str()) {
            Some(hash) => {
                let prefix = hash.substring_char(0, 8);
                let filename = concat3("lethe-thumbnail-", prefix, ".png");
                Ok(ThumbnailPlan::Upload { hash: String::from_str(hash), filename })
            },
            None => Err(
                AdapterError::Other(concat2("invalid thumbnail blob ref: ", blob_ref.as_str())),
            ),
        },
        None => match payload.get_str("thumbnail_url") {
            Some(url) => {
                if starts_with(url.as_str(), "http") {
                    Ok(ThumbnailPlan::External(thumbnail_external_block(url.as_str())))
                } else {
                    Ok(ThumbnailPlan::Nothing)
                }
            },
            None => Ok(ThumbnailPlan::Nothing),
        },
    }
}

/// The address the record gets looked up by: the payload's email (or
/// generated email), else the entity identifier.
pub fn record_email(record: &WriteRecord) -> (r: &str)
    ensures
        r@ == match email_of(record.payload@) {
            Some(e) => e,
            None => record.entity_id@,
        },
{
    match payload_email(&record.payload) {
        Some(e) => e.as_str(),
        None => record.entity_id.as_str(),
    }
}

/// `s` without any `-`.
pub open spec fn without_hyphens(s: Seq<char>) -> Seq<char>
    decreases s.len(),
{
    if s.len() == 0 {
        Seq::empty()
    } else {
        without_hyphens(s.drop_last()) + if s.last() == '-' {
            Seq::empty()
        } else {
            seq![s.last()]
        }
    }
}

/// The web address of a page: `https://www.notion.so/` and the page
/// identifier without hyphens.
pub fn page_url(page_id: &str) -> (r: String)
    ensures
        r@ == "https://www.notion.so/"@ + without_hyphens(page_id@),
{
    let mut out = String::from_str("https://www.notion.so/");
    let ghost base = out@;
    let n = page_id.unicode_len();
    let mut i: usize = 0;
    while i < n
        invariant
            n == page_id@.len(),
            i <= n,
            out@ == base + without_hyphens(page_id@.take(i as int)),
        decreases n - i,
    {
        let c = page_id.get_char(i);
        assert(page_id@.take(i + 1).drop_last() =~= page_id@.take(i as int));
        if c != '-' {
            out.push(c);
        }
        assert(out@ =~= base + without_hyphens(page_id@.take(i + 1)));
        i = i + 1;
    }
    assert(page_id@.take(n as int) =~= page_id@);
    out
}

/// The query that finds a record's page: by email when there is one and
/// the database has an email property, else by title.
pub open spec fn page_filter(schema: DatabaseSchema, email: Option<Seq<char>>, title: Seq<char>) -> Json {
    match (email, schema.email_property) {
        (Some(e), Some(ep)) => obj1(
            "filter"@,
            Json::Object(
                seq![("property"@, Json::Str(ep@)), ("email"@, obj1("equals"@, Json::Str(e)))],
            ),
        ),
        _ => obj1(
            "filter"@,
            Json::Object(
                seq![
                    ("property"@, Json::Str(schema.title_property@)),
                    ("title"@, obj1("equals"@, Json::Str(title))),
                ],
            ),
        ),
    }
}

/// The query that finds a record's page.
pub fn page_query_filter(schema: &DatabaseSchema, email: Option<&str>, title: &str) -> (r: JsonValue)
    ensures
        r@ == page_filter(
            *schema,
            match email {
                Some(e) => Some(e@),
                None => None,
            },
            title@,
        ),
{
    let (property, kind, value) = match (email, &schema.email_property) {
        (Some(e), Some(ep)) => (ep.clone(), "email", e),
        _ => (schema.title_property.clone(), "title", title),
    };
    let cond = make_obj1("equals", JsonValue::from_str_value(value));
    let ghost cm = cond@;
    let body = JsonValue::object(
        vec![
            (String::from_str("property"), JsonValue::String(property)),
            (String::from_str(kind), cond),
        ],
    );
    assert(body@->Object_0 =~= seq![("property"@, Json::Str(property@)), (kind@, cm)]);
    make_obj1("filter", body)
}

/// The body that creates a record's page: the database as parent, the
/// title and, when the database has one, the email property.
pub open spec fn create_page_body(
    schema: DatabaseSchema,
    database_id: Seq<char>,
    title: Seq<char>,
    email: Seq<char>,
) -> Json {
    let t = upsert(
        Seq::empty(),
        schema.title_property@,
        obj1("title"@, rich_text(title)),
    );
    let props = match schema.email_property {
        Some(ep) => upsert(t, ep@, obj1("email"@, Json::Str(email))),
        None => t,
    };
    Json::Object(
        seq![
            ("parent"@, obj1("database_id"@, Json::Str(database_id))),
            ("properties"@, Json::Object(props)),
        ],
    )
}

/// The body that creates a record's page.
pub fn create_page_payload(schema: &DatabaseSchema, database_id: &str, title: &str, email: &str) -> (r:
    JsonValue)
    ensures
        r@ == create_page_body(*schema, database_id@, title@, email@),
{
    let mut props: Vec<(String, JsonValue)> = Vec::new();
    assert(member_models(props@) =~= Seq::<(Seq<char>, Json)>::empty());
    crate::adapter::writeback::notion::properties::set_member(
        &mut props,
        schema.title_property.as_str(),
        make_obj1("title", make_rich_text(title)),
    );
    match &schema.email_property {
        Some(ep) => {
            crate::adapter::writeback::notion::properties::set_member(
                &mut props,
                ep.as_str(),
                make_obj1("email", JsonValue::from_str_value(email)),
            );
        },
        None => {},
    }
    let properties = JsonValue::object(props);
    let ghost pm = properties@;
    let parent = make_obj1("database_id", JsonValue::from_str_value(database_id));
    let ghost pa = parent@;
    let r = JsonValue::object(
        vec![(String::from_str("parent"), parent), (String::from_str("properties"), properties)],
    );
    assert(r@->Object_0 =~= seq![("parent"@, pa), ("properties"@, pm)]);
    r
}

/// Whether a block is an image shown from a file upload.
pub open spec fn is_file_upload_image(b: Json) -> bool {
    match b.get("image"@) {
        Some(img) => img.get("type"@) == Some(Json::Str("file_upload"@)),
        None => false,
    }
}

/// The API version for appending `children`: the file-upload version when
/// any child is an uploaded image, else `default_version`.
pub fn children_api_version<'a>(children: &Vec<JsonValue>, default_version: &'a str) -> (r: &'a str)
    ensures
        r@ == if exists|i: int|
            0 <= i < children@.len() && is_file_upload_image(#[trigger] children@[i]@) {
            "2026-03-11"@
        } else {
            default_version@
        },
{
    let mut i: usize = 0;
    while i < children.len()
        invariant
            i <= children@.len(),
            forall|k: int| 0 <= k < i ==> !is_file_upload_image(#[trigger] children@[k]@),
        decreases children@.len() - i,
    {
        let found = match children[i].get("image") {
            Some(img) => match img.get("type") {
                Some(t) => match t.as_str() {
                    Some(s) => str_eq(s.as_str(), "file_upload"),
                    None => false,
                },
                None => false,
            },
            None => false,
        };
        if found {
            return "2026-03-11";
        }
        i = i + 1;
    }
    default_version
}

/// How a response status is handled.
#[derive(Debug, Clone, Copy, PartialEq, Eq, Structural)]
pub enum StatusClass {
    /// 429: rate limited.
    RateLimited,
    /// 401 or 403: the token is refused.
    Unauthorized,
    /// Any other client or server error.
    Failed,
    /// The body can be read.
    Success,
}

/// How a response status is handled.
pub fn classify_status(code: u16) -> (r: StatusClass)
    ensures
        r == if code == 429 {
            StatusClass::RateLimited
        } else if code == 401 || code == 403 {
            StatusClass::Unauthorized
        } else if 400 <= code <= 599 {
            StatusClass::Failed
        } else {
            StatusClass::Success
        },
{
    if code == 429 {
        StatusClass::RateLimited
    } else if code == 401 || code == 403 {
        StatusClass::Unauthorized
    } else if 400 <= code && code <= 599 {
        StatusClass::Failed
    } else {
        StatusClass::Success
    }
}

/// Whether property updates hold at least one property.
pub fn has_property_updates(updates: &JsonValue) -> (r: bool)
    ensures
        r == (updates@ matches Json::Object(ms) && ms.len() > 0),
{
    match updates.as_object() {
        Some(m) => m.len() > 0,
        None => false,
    }
}

/// An error unless a file upload ended in the `uploaded` state.
pub fn check_upload_status(upload_id: &str, status: &str) -> (r: Result<(), AdapterError>)
    ensures
        match r {
            Ok(()) => status@ == "uploaded"@,
            Err(e) => status@ != "uploaded"@ && (e matches AdapterError::Other(m) && m@
                == "Notion file upload "@ + upload_id@ + " ended with unexpected status "@
                + status@),
        },
{
    if str_eq(status, "uploaded") {
        Ok(())
    } else {
        let a = concat3("Notion file upload ", upload_id, " ended with unexpected status ");
        Err(AdapterError::Other(concat2(a.as_str(), status)))
    }
}

} // verus!
