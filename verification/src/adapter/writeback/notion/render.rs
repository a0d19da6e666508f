//! Rendering a profile payload into Notion content blocks.

use vstd::prelude::*;
use vstd::string::*;

use crate::adapter::writeback::notion::blocks::{
    callout, external_image, heading3, make_callout, make_heading3, make_paragraph, make_quote,
    models, paragraph, quote, thumbnail_external_block,
};
use crate::adapter::writeback::notion::values::{combined_text, json_list_text, list_values_of};
use crate::domain::json::{Json, JsonValue};
use crate::text::{concat2, join_strings, joined, starts_with, views};
use crate::trusted::{trim, trimmed};

verus! {

/// Whether `s` starts with `p`.
pub open spec fn has_prefix(s: Seq<char>, p: Seq<char>) -> bool {
    p.len() <= s.len() && s.take(p.len() as int) == p
}

/// The member `key` of the payload's `properties` object.
pub open spec fn prop_of(d: Json, key: Seq<char>) -> Option<Json> {
    match d.get("properties"@) {
        Some(p) => p.get(key),
        None => None,
    }
}

/// The string member `key` of the payload's `properties` object.
pub open spec fn prop_str_of(d: Json, key: Seq<char>) -> Option<Seq<char>> {
    match prop_of(d, key) {
        Some(v) => v.as_str(),
        None => None,
    }
}

/// The payload's `email`, else its `generated_email`.
pub open spec fn email_of(d: Json) -> Option<Seq<char>> {
    match d.get_str("email"@) {
        Some(e) => Some(e),
        None => d.get_str("generated_email"@),
    }
}

/// `prefix` followed by the value, when there is one.
pub open spec fn opt_line(prefix: Seq<char>, v: Option<Seq<char>>) -> Seq<Seq<char>> {
    match v {
        Some(x) => seq![prefix + x],
        None => Seq::empty(),
    }
}

/// The strings among `items`, in order and as they are.
pub open spec fn str_items(items: Seq<Json>) -> Seq<Seq<char>>
    decreases items.len(),
{
    if items.len() == 0 {
        Seq::empty()
    } else {
        let rest = str_items(items.drop_last());
        match items.last() {
            Json::Str(s) => rest.push(s),
            _ => rest,
        }
    }
}

/// The source callout: email, slide and document lines.
pub open spec fn source_section(d: Json) -> Seq<Json> {
    let lines = opt_line("Email: "@, email_of(d)) + opt_line(
        "Google Slides: "@,
        d.get_str("source_canonical_uri"@),
    ) + opt_line("Document ID: "@, d.get_str("source_document_id"@));
    if lines.len() > 0 {
        seq![callout(joined(lines, "\n"@), "🔎"@, Some("blue_background"@))]
    } else {
        Seq::empty()
    }
}

/// The profile picture: an image for an `http` URL, else a callout with
/// its description.
pub open spec fn profile_section(d: Json) -> Seq<Json> {
    match d.get("profile_pic"@) {
        Some(pic) => match pic.get_str("url"@) {
            Some(url) => if has_prefix(url, "http"@) {
                seq![external_image(url)]
            } else {
                Seq::empty()
            },
            None => match pic.get_str("description"@) {
                Some(desc) => seq![callout("🖼️ Profile Pic: "@ + desc, "👤"@, None)],
                None => Seq::empty(),
            },
        },
        None => Seq::empty(),
    }
}

/// The basic information callout.
pub open spec fn info_section(d: Json) -> Seq<Json> {
    let lines = opt_line("📛 Nickname: "@, prop_str_of(d, "Nickname"@)) + opt_line(
        "🏢 Affiliation: "@,
        prop_str_of(d, "Affiliation"@),
    ) + opt_line("🧠 MBTI: "@, prop_str_of(d, "MBTI"@)) + opt_line(
        "🙅 Dislikes: "@,
        prop_str_of(d, "Dislikes"@),
    );
    if lines.len() > 0 {
        seq![callout(joined(lines, "\n"@), "ℹ️"@, Some("gray_background"@))]
    } else {
        Seq::empty()
    }
}

/// A heading and a paragraph, when the text is not empty.
pub open spec fn titled_text(title: Seq<char>, text: Option<Seq<char>>) -> Seq<Json> {
    match text {
        Some(t) => if t.len() > 0 {
            seq![heading3(title), paragraph(t)]
        } else {
            Seq::empty()
        },
        None => Seq::empty(),
    }
}

/// `label: text` of a list, when the list has something to show.
pub open spec fn highlight_line(label: Seq<char>, v: Option<Json>) -> Seq<Seq<char>> {
    opt_line(label + ": "@, combined_text(list_values_of(v)))
}

/// The highlights: hobbies, interests, hashtags and attributes.
pub open spec fn highlights_section(d: Json) -> Seq<Json> {
    let lines = highlight_line("Hobbies"@, prop_of(d, "Hobbies"@)) + highlight_line(
        "Interests"@,
        prop_of(d, "Interests"@),
    ) + highlight_line("Hashtags"@, prop_of(d, "Hashtags"@)) + highlight_line(
        "Attributes"@,
        d.get("attributes"@),
    );
    if lines.len() > 0 {
        seq![heading3("Highlights"@), callout(joined(lines, "\n"@), "✨"@, Some("yellow_background"@))]
    } else {
        Seq::empty()
    }
}

/// The likes text: the strings of an array joined by ` • `, or the string.
pub open spec fn likes_text(v: Json) -> Seq<char> {
    match v {
        Json::Array(items) => joined(str_items(items), " • "@),
        Json::Str(s) => s,
        _ => Seq::empty(),
    }
}

pub open spec fn likes_section(d: Json) -> Seq<Json> {
    match prop_of(d, "Likes"@) {
        Some(l) => titled_text("❤️ Likes & Favorites"@, Some(likes_text(l))),
        None => Seq::empty(),
    }
}

/// The message, followed by the SNS handle when there is one.
pub open spec fn message_text(d: Json) -> Seq<char> {
    let base = match prop_str_of(d, "Message"@) {
        Some(m) => m,
        None => Seq::empty(),
    };
    match prop_str_of(d, "SNS"@) {
        Some(s) => if s.len() > 0 {
            base + "\n\n🔗 SNS: "@ + s
        } else {
            base
        },
        None => base,
    }
}

pub open spec fn message_section(d: Json) -> Seq<Json> {
    if trimmed(message_text(d)).len() > 0 {
        seq![quote(message_text(d))]
    } else {
        Seq::empty()
    }
}

/// The narrative fields, each under its heading.
pub open spec fn narrative_section(d: Json) -> Seq<Json> {
    titled_text("🔥 New Challenges"@, prop_str_of(d, "New Challenges"@)) + titled_text(
        "💬 Ask Me About"@,
        prop_str_of(d, "Ask Me About"@),
    ) + titled_text("🔄 Turning Point"@, prop_str_of(d, "Turning Point"@)) + titled_text(
        "👀 BTW"@,
        prop_str_of(d, "BTW"@),
    )
}

/// One gallery image: the image for an `http` URL, then its description.
pub open spec fn gallery_item(img: Json) -> Seq<Json> {
    let image = match img.get_str("url"@) {
        Some(url) => if has_prefix(url, "http"@) {
            seq![external_image(url)]
        } else {
            Seq::empty()
        },
        None => Seq::empty(),
    };
    let desc = match img.get_str("description"@) {
        Some(t) => if t.len() > 0 {
            seq![paragraph(t)]
        } else {
            Seq::empty()
        },
        None => Seq::empty(),
    };
    image + desc
}

pub open spec fn gallery_items(imgs: Seq<Json>) -> Seq<Json>
    decreases imgs.len(),
{
    if imgs.len() == 0 {
        Seq::empty()
    } else {
        gallery_items(imgs.drop_last()) + gallery_item(imgs.last())
    }
}

pub open spec fn gallery_section(d: Json) -> Seq<Json> {
    match d.get("gallery_images"@) {
        Some(Json::Array(imgs)) => if imgs.len() > 0 {
            seq![heading3("📷 Gallery"@)] + gallery_items(imgs)
        } else {
            Seq::empty()
        },
        _ => Seq::empty(),
    }
}

/// The attributes as tags, when there are no likes.
pub open spec fn tags_section(d: Json) -> Seq<Json> {
    if prop_of(d, "Likes"@) is Some {
        Seq::empty()
    } else {
        match d.get("attributes"@) {
            Some(Json::Array(attrs)) => {
                let t = joined(str_items(attrs), ", "@);
                if attrs.len() > 0 && t.len() > 0 {
                    seq![paragraph("Tags: "@ + t)]
                } else {
                    Seq::empty()
                }
            },
            _ => Seq::empty(),
        }
    }
}

/// The blocks of a profile payload, section by section.
pub open spec fn payload_blocks(d: Json) -> Seq<Json> {
    source_section(d) + profile_section(d) + info_section(d) + titled_text(
        "About"@,
        d.get_str("bio_text"@),
    ) + highlights_section(d) + likes_section(d) + message_section(d) + narrative_section(d)
        + gallery_section(d) + tags_section(d)
}

fn prop<'a>(data: &'a JsonValue, key: &str) -> (r: Option<&'a JsonValue>)
    ensures
        match r {
            Some(v) => prop_of(data@, key@) == Some(v@),
            None => prop_of(data@, key@) is None,
        },
{
    match data.get("properties") {
        Some(p) => p.get(key),
        None => None,
    }
}

fn prop_str<'a>(data: &'a JsonValue, key: &str) -> (r: Option<&'a String>)
    ensures
        match r {
            Some(v) => prop_str_of(data@, key@) == Some(v@),
            None => prop_str_of(data@, key@) is None,
        },
{
    match prop(data, key) {
        Some(v) => v.as_str(),
        None => None,
    }
}

/// The payload's `email`, else its `generated_email`.
pub fn payload_email(data: &JsonValue) -> (r: Option<&String>)
    ensures
        match r {
            Some(v) => email_of(data@) == Some(v@),
            None => email_of(data@) is None,
        },
{
    match data.get_str("email") {
        Some(e) => Some(e),
        None => data.get_str("generated_email"),
    }
}

fn push_line(lines: &mut Vec<String>, prefix: &str, v: Option<&String>)
    ensures
        views(final(lines)@) == views(old(lines)@) + opt_line(
            prefix@,
            match v {
                Some(x) => Some(x@),
                None => None,
            },
        ),
{
    match v {
        Some(x) => {
            lines.push(concat2(prefix, x.as_str()));
            assert(views(lines@) =~= views(old(lines)@) + seq![prefix@ + x@]);
        },
        None => {
            assert(views(lines@) =~= views(old(lines)@) + Seq::<Seq<char>>::empty());
        },
    }
}

fn source_blocks(data: &JsonValue) -> (r: Vec<JsonValue>)
    ensures
        models(r@) == source_section(data@),
{
    let mut lines: Vec<String> = Vec::new();
    assert(views(lines@) =~= Seq::<Seq<char>>::empty());
    push_line(&mut lines, "Email: ", payload_email(data));
    push_line(&mut lines, "Google Slides: ", data.get_str("source_canonical_uri"));
    push_line(&mut lines, "Document ID: ", data.get_str("source_document_id"));
    let mut r: Vec<JsonValue> = Vec::new();
    if lines.len() > 0 {
        let text = join_strings(&lines, "\n");
        r.push(make_callout(text.as_str(), "🔎", Some("blue_background")));
        assert(models(r@) =~= seq![r@[0]@]);
    } else {
        assert(models(r@) =~= Seq::<Json>::empty());
    }
    r
}

fn profile_blocks(data: &JsonValue) -> (r: Vec<JsonValue>)
    ensures
        models(r@) == profile_section(data@),
{
    let mut r: Vec<JsonValue> = Vec::new();
    match data.get("profile_pic") {
        Some(pic) => match pic.get_str("url") {
            Some(url) => {
                if starts_with(url.as_str(), "http") {
                    r.push(thumbnail_external_block(url.as_str()));
                }
            },
            None => match pic.get_str("description") {
                Some(desc) => {
                    let text = concat2("🖼️ Profile Pic: ", desc.as_str());
                    r.push(make_callout(text.as_str(), "👤", None));
                },
                None => {},
            },
        },
        None => {},
    }
    assert(models(r@) =~= profile_section(data@));
    r
}

fn info_blocks(data: &JsonValue) -> (r: Vec<JsonValue>)
    ensures
        models(r@) == info_section(data@),
{
    let mut lines: Vec<String> = Vec::new();
    assert(views(lines@) =~= Seq::<Seq<char>>::empty());
    push_line(&mut lines, "📛 Nickname: ", prop_str(data, "Nickname"));
    push_line(&mut lines, "🏢 Affiliation: ", prop_str(data, "Affiliation"));
    push_line(&mut lines, "🧠 MBTI: ", prop_str(data, "MBTI"));
    push_line(&mut lines, "🙅 Dislikes: ", prop_str(data, "Dislikes"));
    let mut r: Vec<JsonValue> = Vec::new();
    if lines.len() > 0 {
        let text = join_strings(&lines, "\n");
        r.push(make_callout(text.as_str(), "ℹ️", Some("gray_background")));
        assert(models(r@) =~= seq![r@[0]@]);
    } else {
        assert(models(r@) =~= Seq::<Json>::empty());
    }
    r
}

fn titled_blocks(title: &str, text: Option<&String>) -> (r: Vec<JsonValue>)
    ensures
        models(r@) == titled_text(
            title@,
            match text {
                Some(t) => Some(t@),
                None => None,
            },
        ),
{
    let mut r: Vec<JsonValue> = Vec::new();
    match text {
        Some(t) => {
            if t.unicode_len() > 0 {
                r.push(make_heading3(title));
                r.push(make_paragraph(t.as_str()));
                assert(models(r@) =~= seq![r@[0]@, r@[1]@]);
            } else {
                assert(models(r@) =~= Seq::<Json>::empty());
            }
        },
        None => {
            assert(models(r@) =~= Seq::<Json>::empty());
        },
    }
    r
}

fn push_highlight(lines: &mut Vec<String>, label: &str, v: Option<&JsonValue>)
    ensures
        views(final(lines)@) == views(old(lines)@) + highlight_line(
            label@,
            match v {
                Some(x) => Some(x@),
                None => None,
            },
        ),
{
    match json_list_text(v) {
        Some(t) => {
            let head = concat2(label, ": ");
            lines.push(concat2(head.as_str(), t.as_str()));
            assert(views(lines@) =~= views(old(lines)@) + seq![label@ + ": "@ + t@]);
        },
        None => {
            assert(views(lines@) =~= views(old(lines)@) + Seq::<Seq<char>>::empty());
        },
    }
}

fn highlight_blocks(data: &JsonValue) -> (r: Vec<JsonValue>)
    ensures
        models(r@) == highlights_section(data@),
{
    let mut lines: Vec<String> = Vec::new();
    assert(views(lines@) =~= Seq::<Seq<char>>::empty());
    push_highlight(&mut lines, "Hobbies", prop(data, "Hobbies"));
    push_highlight(&mut lines, "Interests", prop(data, "Interests"));
    push_highlight(&mut lines, "Hashtags", prop(data, "Hashtags"));
    push_highlight(&mut lines, "Attributes", data.get("attributes"));
    let mut r: Vec<JsonValue> = Vec::new();
    if lines.len() > 0 {
        let text = join_strings(&lines, "\n");
        r.push(make_heading3("Highlights"));
        r.push(make_callout(text.as_str(), "✨", Some("yellow_background")));
        assert(models(r@) =~= seq![r@[0]@, r@[1]@]);
    } else {
        assert(models(r@) =~= Seq::<Json>::empty());
    }
    r
}

/// The strings of an array, joined by `sep`.
fn join_str_items(items: &Vec<JsonValue>, sep: &str) -> (r: String)
    ensures
        r@ == joined(str_items(items@.map_values(|x: JsonValue| x@)), sep@),
{
    let ghost model = items@.map_values(|x: JsonValue| x@);
    let mut parts: Vec<String> = Vec::new();
    let mut i: usize = 0;
    while i < items.len()
        invariant
            i <= items@.len(),
            model == items@.map_values(|x: JsonValue| x@),
            views(parts@) == str_items(model.take(i as int)),
        decreases items@.len() - i,
    {
        assert(model.take(i + 1).drop_last() =~= model.take(i as int));
        assert(model.take(i + 1).last() == items@[i as int]@);
        match items[i].as_str() {
            Some(s) => {
                parts.push(s.clone());
                assert(views(parts@) =~= views(parts@.drop_last()).push(s@));
            },
            None => {},
        }
        i = i + 1;
    }
    assert(model.take(items@.len() as int) =~= model);
    join_strings(&parts, sep)
}

fn likes_blocks(data: &JsonValue) -> (r: Vec<JsonValue>)
    ensures
        models(r@) == likes_section(data@),
{
    match prop(data, "Likes") {
        Some(likes) => {
            let text = match likes.as_array() {
                Some(items) => {
                    assert(items@.map_values(|x: JsonValue| x@) =~= likes@->Array_0);
                    join_str_items(items, " • ")
                },
                None => match likes.as_str() {
                    Some(s) => s.clone(),
                    None => String::new(),
                },
            };
            assert(text@ == likes_text(likes@));
            titled_blocks("❤️ Likes & Favorites", Some(&text))
        },
        None => {
            let r: Vec<JsonValue> = Vec::new();
            assert(models(r@) =~= Seq::<Json>::empty());
            r
        },
    }
}

fn message_blocks(data: &JsonValue) -> (r: Vec<JsonValue>)
    ensures
        models(r@) == message_section(data@),
{
    let mut msg = match prop_str(data, "Message") {
        Some(m) => m.clone(),
        None => String::new(),
    };
    match prop_str(data, "SNS") {
        Some(s) => {
            if s.unicode_len() > 0 {
                msg.append("\n\n🔗 SNS: ");
                msg.append(s.as_str());
            }
        },
        None => {},
    }
    assert(msg@ == message_text(data@));
    let mut r: Vec<JsonValue> = Vec::new();
    if trim(msg.as_str()).unicode_len() > 0 {
        r.push(make_quote(msg.as_str()));
        assert(models(r@) =~= seq![r@[0]@]);
    } else {
        assert(models(r@) =~= Seq::<Json>::empty());
    }
    r
}

fn narrative_blocks(data: &JsonValue) -> (r: Vec<JsonValue>)
    ensures
        models(r@) == narrative_section(data@),
{
    let mut r = titled_blocks("🔥 New Challenges", prop_str(data, "New Challenges"));
    let mut b = titled_blocks("💬 Ask Me About", prop_str(data, "Ask Me About"));
    let mut c = titled_blocks("🔄 Turning Point", prop_str(data, "Turning Point"));
    let mut d = titled_blocks("👀 BTW", prop_str(data, "BTW"));
    let ghost (ra, rb, rc, rd) = (r@, b@, c@, d@);
    r.append(&mut b);
    r.append(&mut c);
    r.append(&mut d);
    assert(r@ =~= ra + rb + rc + rd);
    assert(models(r@) =~= models(ra) + models(rb) + models(rc) + models(rd));
    r
}

fn gallery_item_blocks(img: &JsonValue) -> (r: Vec<JsonValue>)
    ensures
        models(r@) == gallery_item(img@),
{
    let mut r: Vec<JsonValue> = Vec::new();
    match img.get_str("url") {
        Some(url) => {
            if starts_with(url.as_str(), "http") {
                r.push(thumbnail_external_block(url.as_str()));
            }
        },
        None => {},
    }
    let ghost first = models(r@);
    match img.get_str("description") {
        Some(t) => {
            if t.unicode_len() > 0 {
                r.push(make_paragraph(t.as_str()));
                assert(models(r@) =~= first.push(r@.last()@));
            }
        },
        None => {},
    }
    assert(models(r@) =~= gallery_item(img@));
    r
}

fn gallery_blocks(data: &JsonValue) -> (r: Vec<JsonValue>)
    ensures
        models(r@) == gallery_section(data@),
{
    let mut r: Vec<JsonValue> = Vec::new();
    match data.get("gallery_images") {
        Some(g) => match g.as_array() {
            Some(imgs) => {
                if imgs.len() > 0 {
                    let ghost model = g@->Array_0;
                    r.push(make_heading3("📷 Gallery"));
                    let mut i: usize = 0;
                    while i < imgs.len()
                        invariant
                            i <= imgs@.len(),
                            model.len() == imgs@.len(),
                            forall|k: int| 0 <= k < imgs@.len() ==> #[trigger] model[k] == imgs@[k]@,
                            models(r@) == seq![heading3("📷 Gallery"@)] + gallery_items(
                                model.take(i as int),
                            ),
                        decreases imgs@.len() - i,
                    {
                        assert(model.take(i + 1).drop_last() =~= model.take(i as int));
                        assert(model.take(i + 1).last() == imgs@[i as int]@);
                        let mut more = gallery_item_blocks(&imgs[i]);
                        let ghost (before, added) = (r@, more@);
                        r.append(&mut more);
                        assert(models(r@) =~= models(before) + models(added));
                        i = i + 1;
                    }
                    assert(model.take(imgs@.len() as int) =~= model);
                } else {
                    assert(models(r@) =~= Seq::<Json>::empty());
                }
            },
            None => {
                assert(models(r@) =~= Seq::<Json>::empty());
            },
        },
        None => {
            assert(models(r@) =~= Seq::<Json>::empty());
        },
    }
    r
}

fn tags_blocks(data: &JsonValue) -> (r: Vec<JsonValue>)
    ensures
        models(r@) == tags_section(data@),
{
    let mut r: Vec<JsonValue> = Vec::new();
    if prop(data, "Likes").is_none() {
        match data.get("attributes") {
            Some(a) => match a.as_array() {
                Some(attrs) => {
                    if attrs.len() > 0 {
                        let t = join_str_items(attrs, ", ");
                        assert(attrs@.map_values(|x: JsonValue| x@) =~= a@->Array_0);
                        if t.unicode_len() > 0 {
                            let text = concat2("Tags: ", t.as_str());
                            r.push(make_paragraph(text.as_str()));
                        }
                    }
                },
                None => {},
            },
            None => {},
        }
    }
    assert(models(r@) =~= tags_section(data@));
    r
}

/// The Notion blocks of a profile payload: sources, picture, basic
/// information, about text, highlights, likes, message, narrative fields,
/// gallery and, without likes, the attributes as tags.
pub fn render_payload_blocks(data: &JsonValue) -> (r: Vec<JsonValue>)
    ensures
        models(r@) == payload_blocks(data@),
{
    let mut blocks = source_blocks(data);
    let ghost mut acc = models(blocks@);
    let mut more = profile_blocks(data);
    proof { acc = acc + models(more@); }
    blocks.append(&mut more);
    assert(models(blocks@) =~= acc);
    let mut more = info_blocks(data);
    proof { acc = acc + models(more@); }
    blocks.append(&mut more);
    assert(models(blocks@) =~= acc);
    let mut more = titled_blocks("About", data.get_str("bio_text"));
    proof { acc = acc + models(more@); }
    blocks.append(&mut more);
    assert(models(blocks@) =~= acc);
    let mut more = highlight_blocks(data);
    proof { acc = acc + models(more@); }
    blocks.append(&mut more);
    assert(models(blocks@) =~= acc);
    let mut more = likes_blocks(data);
    proof { acc = acc + models(more@); }
    blocks.append(&mut more);
    assert(models(blocks@) =~= acc);
    let mut more = message_blocks(data);
    proof { acc = acc + models(more@); }
    blocks.append(&mut more);
    assert(models(blocks@) =~= acc);
    let mut more = narrative_blocks(data);
    proof { acc = acc + models(more@); }
    blocks.append(&mut more);
    assert(models(blocks@) =~= acc);
    let mut more = gallery_blocks(data);
    proof { acc = acc + models(more@); }
    blocks.append(&mut more);
    assert(models(blocks@) =~= acc);
    let mut more = tags_blocks(data);
    proof { acc = acc + models(more@); }
    blocks.append(&mut more);
    assert(models(blocks@) =~= acc);
    blocks
}

} // verus!
