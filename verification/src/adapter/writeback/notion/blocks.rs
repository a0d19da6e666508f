//! Notion blocks: the shapes the destination accepts, and their builders.

use vstd::prelude::*;
use vstd::string::*;

use crate::domain::json::{Json, JsonValue};

verus! {

/// The models of a sequence of values.
pub open spec fn models(v: Seq<JsonValue>) -> Seq<Json> {
    v.map_values(|b: JsonValue| b@)
}

/// `{"k": v}`.
pub open spec fn obj1(k: Seq<char>, v: Json) -> Json {
    Json::Object(seq![(k, v)])
}

/// `[{"text": {"content": content}}]`.
pub open spec fn rich_text(content: Seq<char>) -> Json {
    Json::Array(seq![obj1("text"@, obj1("content"@, Json::Str(content)))])
}

/// A block of type `kind` whose body is the object `body`.
pub open spec fn block(kind: Seq<char>, body: Seq<(Seq<char>, Json)>) -> Json {
    Json::Object(
        seq![
            ("object"@, Json::Str("block"@)),
            ("type"@, Json::Str(kind)),
            (kind, Json::Object(body)),
        ],
    )
}

/// A block of type `kind` holding one text.
pub open spec fn text_block(kind: Seq<char>, content: Seq<char>) -> Json {
    block(kind, seq![("rich_text"@, rich_text(content))])
}

pub open spec fn heading3(content: Seq<char>) -> Json {
    text_block("heading_3"@, content)
}

pub open spec fn paragraph(content: Seq<char>) -> Json {
    text_block("paragraph"@, content)
}

/// A callout with an emoji icon and, optionally, a background colour.
pub open spec fn callout(content: Seq<char>, emoji: Seq<char>, color: Option<Seq<char>>) -> Json {
    let base = seq![
        ("rich_text"@, rich_text(content)),
        ("icon"@, obj1("emoji"@, Json::Str(emoji))),
    ];
    block(
        "callout"@,
        match color {
            Some(c) => base.push(("color"@, Json::Str(c))),
            None => base,
        },
    )
}

/// A quote in the default colour.
pub open spec fn quote(content: Seq<char>) -> Json {
    block("quote"@, seq![("rich_text"@, rich_text(content)), ("color"@, Json::Str("default"@))])
}

/// An image shown from an external URL.
pub open spec fn external_image(url: Seq<char>) -> Json {
    block(
        "image"@,
        seq![("type"@, Json::Str("external"@)), ("external"@, obj1("url"@, Json::Str(url)))],
    )
}

/// An image shown from a file upload.
pub open spec fn file_upload_image(id: Seq<char>) -> Json {
    block(
        "image"@,
        seq![("type"@, Json::Str("file_upload"@)), ("file_upload"@, obj1("id"@, Json::Str(id)))],
    )
}

/// The divider that starts the managed section.
pub open spec fn divider() -> Json {
    block("divider"@, Seq::empty())
}

/// A toggle holding archived blocks under a dated title.
pub open spec fn archive_toggle(date: Seq<char>, archived: Seq<Json>) -> Json {
    block(
        "toggle"@,
        seq![
            ("rich_text"@, rich_text("📜 Archive: "@ + date)),
            ("children"@, Json::Array(archived)),
        ],
    )
}

/// `{"k": v}`.
pub fn make_obj1(k: &str, v: JsonValue) -> (r: JsonValue)
    ensures
        r@ == obj1(k@, v@),
{
    let r = JsonValue::object(vec![(String::from_str(k), v)]);
    assert(r@->Object_0 =~= seq![(k@, v@)]);
    r
}

fn make_object(members: Vec<(String, JsonValue)>) -> (r: JsonValue)
    ensures
        r@ == Json::Object(members@.map_values(|m: (String, JsonValue)| (m.0@, m.1@))),
{
    JsonValue::object(members)
}

/// `[{"text": {"content": content}}]`.
pub fn make_rich_text(content: &str) -> (r: JsonValue)
    ensures
        r@ == rich_text(content@),
{
    let item = make_obj1("text", make_obj1("content", JsonValue::from_str_value(content)));
    let ghost m = item@;
    let r = JsonValue::array(vec![item]);
    assert(r@->Array_0 =~= seq![m]);
    r
}

/// A block of type `kind` whose body has the given members.
pub fn make_block(kind: &str, body: Vec<(String, JsonValue)>) -> (r: JsonValue)
    ensures
        r@ == block(kind@, body@.map_values(|m: (String, JsonValue)| (m.0@, m.1@))),
{
    let b = make_object(body);
    let ghost bm = b@;
    let r = make_object(
        vec![
            (String::from_str("object"), JsonValue::from_str_value("block")),
            (String::from_str("type"), JsonValue::from_str_value(kind)),
            (String::from_str(kind), b),
        ],
    );
    assert(r@->Object_0 =~= seq![
        ("object"@, Json::Str("block"@)),
        ("type"@, Json::Str(kind@)),
        (kind@, bm),
    ]);
    r
}

/// A block of type `kind` holding one text.
pub fn make_text_block(kind: &str, content: &str) -> (r: JsonValue)
    ensures
        r@ == text_block(kind@, content@),
{
    let rt = make_rich_text(content);
    let ghost m = rt@;
    let body = vec![(String::from_str("rich_text"), rt)];
    assert(body@.map_values(|m: (String, JsonValue)| (m.0@, m.1@)) =~= seq![("rich_text"@, m)]);
    make_block(kind, body)
}

pub fn make_heading3(content: &str) -> (r: JsonValue)
    ensures
        r@ == heading3(content@),
{
    make_text_block("heading_3", content)
}

pub fn make_paragraph(content: &str) -> (r: JsonValue)
    ensures
        r@ == paragraph(content@),
{
    make_text_block("paragraph", content)
}

/// A callout with an emoji icon and, optionally, a background colour.
pub fn make_callout(content: &str, emoji: &str, color: Option<&str>) -> (r: JsonValue)
    ensures
        r@ == callout(
            content@,
            emoji@,
            match color {
                Some(c) => Some(c@),
                None => None,
            },
        ),
{
    let rt = make_rich_text(content);
    let icon = make_obj1("emoji", JsonValue::from_str_value(emoji));
    let ghost base = seq![("rich_text"@, rt@), ("icon"@, icon@)];
    let mut body = vec![(String::from_str("rich_text"), rt), (String::from_str("icon"), icon)];
    match color {
        Some(c) => {
            body.push((String::from_str("color"), JsonValue::from_str_value(c)));
            assert(body@.map_values(|m: (String, JsonValue)| (m.0@, m.1@)) =~= base.push(
                ("color"@, Json::Str(c@)),
            ));
        },
        None => {
            assert(body@.map_values(|m: (String, JsonValue)| (m.0@, m.1@)) =~= base);
        },
    }
    make_block("callout", body)
}

/// A quote in the default colour.
pub fn make_quote(content: &str) -> (r: JsonValue)
    ensures
        r@ == quote(content@),
{
    let rt = make_rich_text(content);
    let ghost m = rt@;
    let body = vec![
        (String::from_str("rich_text"), rt),
        (String::from_str("color"), JsonValue::from_str_value("default")),
    ];
    assert(body@.map_values(|m: (String, JsonValue)| (m.0@, m.1@)) =~= seq![
        ("rich_text"@, m),
        ("color"@, Json::Str("default"@)),
    ]);
    make_block("quote", body)
}

/// An image block that shows `url`.
pub fn thumbnail_external_block(url: &str) -> (r: JsonValue)
    ensures
        r@ == external_image(url@),
{
    let ext = make_obj1("url", JsonValue::from_str_value(url));
    let ghost m = ext@;
    let body = vec![
        (String::from_str("type"), JsonValue::from_str_value("external")),
        (String::from_str("external"), ext),
    ];
    assert(body@.map_values(|m: (String, JsonValue)| (m.0@, m.1@)) =~= seq![
        ("type"@, Json::Str("external"@)),
        ("external"@, m),
    ]);
    make_block("image", body)
}

/// An image block that shows the file upload `file_upload_id`.
pub fn thumbnail_file_upload_block(file_upload_id: &str) -> (r: JsonValue)
    ensures
        r@ == file_upload_image(file_upload_id@),
{
    let up = make_obj1("id", JsonValue::from_str_value(file_upload_id));
    let ghost m = up@;
    let body = vec![
        (String::from_str("type"), JsonValue::from_str_value("file_upload")),
        (String::from_str("file_upload"), up),
    ];
    assert(body@.map_values(|m: (String, JsonValue)| (m.0@, m.1@)) =~= seq![
        ("type"@, Json::Str("file_upload"@)),
        ("file_upload"@, m),
    ]);
    make_block("image", body)
}

/// The divider that starts the managed section.
pub fn make_divider() -> (r: JsonValue)
    ensures
        r@ == divider(),
{
    let body: Vec<(String, JsonValue)> = Vec::new();
    assert(body@.map_values(|m: (String, JsonValue)| (m.0@, m.1@)) =~= Seq::<
        (Seq<char>, Json),
    >::empty());
    make_block("divider", body)
}

/// A toggle titled with the archive date holding the archived blocks.
pub fn make_archive_toggle(date: &str, archived: Vec<JsonValue>) -> (r: JsonValue)
    ensures
        r@ == archive_toggle(date@, models(archived@)),
{
    let title = crate::text::concat2("📜 Archive: ", date);
    let rt = make_rich_text(title.as_str());
    let ghost m = rt@;
    let children = JsonValue::array(archived);
    let ghost c = children@;
    let body = vec![(String::from_str("rich_text"), rt), (String::from_str("children"), children)];
    assert(body@.map_values(|m: (String, JsonValue)| (m.0@, m.1@)) =~= seq![
        ("rich_text"@, m),
        ("children"@, c),
    ]);
    make_block("toggle", body)
}

} // verus!
