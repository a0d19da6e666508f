//! The database schema of the destination and the property updates that a
//! profile payload produces.

use vstd::prelude::*;
use vstd::string::*;

use crate::adapter::writeback::notion::blocks::{make_obj1, make_rich_text, obj1, rich_text};
use crate::adapter::writeback::notion::render::{
    email_of, has_prefix, payload_email, prop_of, prop_str_of, str_items,
};
use crate::adapter::writeback::notion::values::{
    combine_list_texts, combined_text, json_list_values, json_text, json_text_of,
    list_values_of, normalize_property_name, normalized_name, opt_chars,
};
use crate::domain::json::{lemma_member_index, member_index, Json, JsonValue};
use crate::table::{keys_distinct, table_get, table_insert, table_map};
use crate::text::{contains_char, copy_opt_string, starts_with, str_eq, views};
use crate::trusted::{trim, trimmed};

verus! {

/// A property of the destination database and its type.
#[derive(Debug, Clone)]
pub struct NotionProperty {
    pub property_type: String,
}

/// The properties of the destination database: the title and email
/// properties, the type of each property, and the property name for each
/// normalised name.
#[derive(Debug, Clone)]
pub struct DatabaseSchema {
    pub title_property: String,
    pub email_property: Option<String>,
    pub properties: Vec<(String, NotionProperty)>,
    pub actual_names_by_normalized: Vec<(String, String)>,
}

/// The properties as a map; a later entry for a name replaces an earlier
/// one.
pub open spec fn property_table(props: Seq<(String, NotionProperty)>) -> Map<
    Seq<char>,
    NotionProperty,
>
    decreases props.len(),
{
    if props.len() == 0 {
        Map::empty()
    } else {
        property_table(props.drop_last()).insert(props.last().0@, props.last().1)
    }
}

/// Each normalised name mapped to the first property name that has it.
pub open spec fn first_names(props: Seq<(String, NotionProperty)>) -> Map<Seq<char>, String>
    decreases props.len(),
{
    if props.len() == 0 {
        Map::empty()
    } else {
        let m = first_names(props.drop_last());
        let k = normalized_name(props.last().0@);
        if m.contains_key(k) {
            m
        } else {
            m.insert(k, props.last().0)
        }
    }
}

/// The name of the first property of type `ty`.
pub open spec fn first_of_type(props: Seq<(String, NotionProperty)>, ty: Seq<char>) -> Option<
    Seq<char>,
>
    decreases props.len(),
{
    if props.len() == 0 {
        None
    } else {
        match first_of_type(props.drop_last(), ty) {
            Some(n) => Some(n),
            None => if props.last().1.property_type@ == ty {
                Some(props.last().0@)
            } else {
                None
            },
        }
    }
}

impl DatabaseSchema {
    pub open spec fn wf(&self) -> bool {
        &&& keys_distinct(self.properties@)
        &&& keys_distinct(self.actual_names_by_normalized@)
    }

    pub open spec fn property_map(&self) -> Map<Seq<char>, NotionProperty> {
        table_map(self.properties@)
    }

    pub open spec fn name_map(&self) -> Map<Seq<char>, String> {
        table_map(self.actual_names_by_normalized@)
    }

    /// The schema of a database with these properties, listed in the
    /// order the destination reported them: the first title property (or
    /// `Name`), the first email property, each property's type, and each
    /// normalised name mapped to the first property name that has it.
    pub fn from_properties(props: Vec<(String, NotionProperty)>) -> (r: Self)
        ensures
            r.wf(),
            r.title_property@ == match first_of_type(props@, "title"@) {
                Some(n) => n,
                None => "Name"@,
            },
            opt_chars(r.email_property) == first_of_type(props@, "email"@),
            r.property_map() == property_table(props@),
            r.name_map() == first_names(props@),
    {
        let mut title: Option<String> = None;
        let mut email: Option<String> = None;
        let mut properties: Vec<(String, NotionProperty)> = Vec::new();
        let mut names: Vec<(String, String)> = Vec::new();
        let mut i: usize = 0;
        while i < props.len()
            invariant
                i <= props@.len(),
                keys_distinct(properties@),
                keys_distinct(names@),
                table_map(properties@) == property_table(props@.take(i as int)),
                table_map(names@) == first_names(props@.take(i as int)),
                opt_chars(title) == first_of_type(props@.take(i as int), "title"@),
                opt_chars(email) == first_of_type(props@.take(i as int), "email"@),
            decreases props@.len() - i,
        {
            let name = &props[i].0;
            let property = &props[i].1;
            let ghost t = props@.take(i + 1);
            assert(t.drop_last() =~= props@.take(i as int));
            assert(t.last() == props@[i as int]);
            let key = normalize_property_name(name.as_str());
            match table_get(&names, key.as_str()) {
                Some(_) => {},
                None => {
                    table_insert(&mut names, key, name.clone());
                },
            }
            if title.is_none() && str_eq(property.property_type.as_str(), "title") {
                title = Some(name.clone());
            }
            if email.is_none() && str_eq(property.property_type.as_str(), "email") {
                email = Some(name.clone());
            }
            table_insert(
                &mut properties,
                name.clone(),
                NotionProperty { property_type: property.property_type.clone() },
            );
            i = i + 1;
        }
        assert(props@.take(props@.len() as int) =~= props@);
        let title_property = match title {
            Some(t) => t,
            None => String::from_str("Name"),
        };
        DatabaseSchema {
            title_property,
            email_property: email,
            properties,
            actual_names_by_normalized: names,
        }
    }
}

/// The first candidate whose normalised name the schema knows, as the
/// actual property name and its type.
pub open spec fn resolve(schema: DatabaseSchema, candidates: Seq<Seq<char>>) -> Option<
    (Seq<char>, Seq<char>),
>
    decreases candidates.len(),
{
    if candidates.len() == 0 {
        None
    } else {
        let n = normalized_name(candidates[0]);
        if schema.name_map().contains_key(n) && schema.property_map().contains_key(
            schema.name_map()[n]@,
        ) {
            let actual = schema.name_map()[n]@;
            Some((actual, schema.property_map()[actual].property_type@))
        } else {
            resolve(schema, candidates.drop_first())
        }
    }
}

impl DatabaseSchema {
    /// The first candidate the schema knows, as the actual property name
    /// and its type.
    pub fn resolve_property(&self, candidates: &[&str]) -> (r: Option<(String, String)>)
        requires
            self.wf(),
        ensures
            match r {
                Some((n, t)) => resolve(*self, candidates@.map_values(|c: &str| c@)) == Some(
                    (n@, t@),
                ),
                None => resolve(*self, candidates@.map_values(|c: &str| c@)) is None,
            },
    {
        let ghost all = candidates@.map_values(|c: &str| c@);
        assert(all.skip(0) =~= all);
        let mut i: usize = 0;
        while i < candidates.len()
            invariant
                i <= candidates@.len(),
                self.wf(),
                all == candidates@.map_values(|c: &str| c@),
                resolve(*self, all) == resolve(*self, all.skip(i as int)),
            decreases candidates@.len() - i,
        {
            let ghost rest = all.skip(i as int);
            assert(rest[0] == candidates@[i as int]@);
            assert(rest.drop_first() =~= all.skip(i + 1));
            let normalized = normalize_property_name(candidates[i]);
            match table_get(&self.actual_names_by_normalized, normalized.as_str()) {
                Some(actual) => match table_get(&self.properties, actual.as_str()) {
                    Some(property) => {
                        return Some((actual.clone(), property.property_type.clone()));
                    },
                    None => {},
                },
                None => {},
            }
            i = i + 1;
        }
        assert(all.skip(i as int).len() == 0);
        None
    }
}

/// `members` with `key` set to `value`: the first member with that key is
/// replaced in place, else the member is added at the end.
pub open spec fn upsert(ms: Seq<(Seq<char>, Json)>, key: Seq<char>, value: Json) -> Seq<
    (Seq<char>, Json),
> {
    let i = member_index(ms, key);
    if i >= 0 {
        ms.update(i, (key, value))
    } else {
        ms.push((key, value))
    }
}

/// The models of object members.
pub open spec fn member_models(ms: Seq<(String, JsonValue)>) -> Seq<(Seq<char>, Json)> {
    ms.map_values(|m: (String, JsonValue)| (m.0@, m.1@))
}

/// Sets the member `key` of an object under construction, replacing the
/// first member with that key or adding one at the end.
pub fn set_member(ms: &mut Vec<(String, JsonValue)>, key: &str, value: JsonValue)
    ensures
        member_models(final(ms)@) == upsert(member_models(old(ms)@), key@, value@),
{
    let ghost m = member_models(ms@);
    proof {
        lemma_member_index(m, key@);
    }
    let mut i: usize = 0;
    while i < ms.len()
        invariant
            i <= ms@.len(),
            ms@ == old(ms)@,
            m == member_models(ms@),
            forall|j: int| 0 <= j < i ==> (#[trigger] ms@[j]).0@ != key@,
        decreases ms@.len() - i,
    {
        if str_eq(ms[i].0.as_str(), key) {
            assert(m[i as int].0 == key@);
            assert(forall|j: int| 0 <= j < i ==> m[j].0 != key@);
            assert(member_index(m, key@) == i) by {
                lemma_member_index(m, key@);
                let mi = member_index(m, key@);
                if mi < 0 {
                    assert(m[i as int].0 != key@);
                } else if mi < i {
                    assert(m[mi].0 == key@);
                } else if mi > i {
                    assert(m[i as int].0 != key@);
                }
            }
            let ghost v = value@;
            ms.set(i, (String::from_str(key), value));
            assert(member_models(ms@) =~= m.update(i as int, (key@, v)));
            return;
        }
        i = i + 1;
    }
    assert(forall|j: int| 0 <= j < m.len() ==> m[j].0 != key@);
    proof {
        lemma_member_index(m, key@);
    }
    let ghost v = value@;
    ms.push((String::from_str(key), value));
    assert(member_models(ms@) =~= m.push((key@, v)));
}

/// A text that is not blank.
pub open spec fn nonblank(v: Option<Seq<char>>) -> Option<Seq<char>> {
    match v {
        Some(t) => if trimmed(t).len() > 0 {
            Some(t)
        } else {
            None
        },
        None => None,
    }
}

/// The value a property of type `ty` gets for a text: a URL for a `url`
/// property and an `http` text, an email for an `email` property and a
/// text with `@`, a date, a status, or else rich text.
pub open spec fn typed_value(ty: Seq<char>, value: Seq<char>) -> Json {
    if ty == "url"@ && (has_prefix(value, "http://"@) || has_prefix(value, "https://"@)) {
        obj1("url"@, Json::Str(value))
    } else if ty == "email"@ && value.contains('@') {
        obj1("email"@, Json::Str(value))
    } else if ty == "date"@ {
        obj1("date"@, obj1("start"@, Json::Str(value)))
    } else if ty == "status"@ {
        obj1("status"@, obj1("name"@, Json::Str(value)))
    } else {
        obj1("rich_text"@, rich_text(value))
    }
}

/// Sets the first known candidate property to a non-blank text.
#[verifier::opaque]
pub open spec fn add_text(
    ms: Seq<(Seq<char>, Json)>,
    schema: DatabaseSchema,
    candidates: Seq<Seq<char>>,
    value: Option<Seq<char>>,
) -> Seq<(Seq<char>, Json)> {
    match nonblank(value) {
        Some(v) => match resolve(schema, candidates) {
            Some((name, ty)) => upsert(ms, name, typed_value(ty, v)),
            None => ms,
        },
        None => ms,
    }
}

/// Sets a known checkbox property.
#[verifier::opaque]
pub open spec fn add_checkbox(
    ms: Seq<(Seq<char>, Json)>,
    schema: DatabaseSchema,
    candidates: Seq<Seq<char>>,
    value: Option<bool>,
) -> Seq<(Seq<char>, Json)> {
    match value {
        Some(b) => match resolve(schema, candidates) {
            Some((name, ty)) => if ty == "checkbox"@ {
                upsert(ms, name, obj1("checkbox"@, Json::Bool(b)))
            } else {
                ms
            },
            None => ms,
        },
        None => ms,
    }
}

/// The trimmed text of a property.
pub open spec fn prop_text(p: Json, key: Seq<char>) -> Option<Seq<char>> {
    match prop_of(p, key) {
        Some(v) => json_text_of(v),
        None => None,
    }
}

/// The member `field` of the payload's `_lethe` metadata object.
pub open spec fn metadata_of(p: Json, field: Seq<char>) -> Option<Json> {
    match p.get("_lethe"@) {
        Some(m) => m.get(field),
        None => None,
    }
}

pub open spec fn metadata_str_of(p: Json, field: Seq<char>) -> Option<Seq<char>> {
    match metadata_of(p, field) {
        Some(v) => v.as_str(),
        None => None,
    }
}

pub open spec fn metadata_bool_of(p: Json, field: Seq<char>) -> Option<bool> {
    match metadata_of(p, field) {
        Some(Json::Bool(b)) => Some(b),
        _ => None,
    }
}

/// The hashtags followed by the attributes, as one list.
pub open spec fn tag_values(p: Json) -> Seq<Seq<char>> {
    list_values_of(prop_of(p, "Hashtags"@)) + list_values_of(p.get("attributes"@))
}

/// The major (when not empty) followed by the string interests.
pub open spec fn major_interests(p: Json) -> Seq<Seq<char>> {
    let major = match prop_str_of(p, "Major"@) {
        Some(m) => if m.len() > 0 {
            seq![m]
        } else {
            Seq::empty()
        },
        None => Seq::empty(),
    };
    let interests = match prop_of(p, "Interests"@) {
        Some(Json::Array(items)) => str_items(items),
        _ => Seq::empty(),
    };
    major + interests
}

/// The title and email members.
pub open spec fn identity_updates(schema: DatabaseSchema, title: Seq<char>, p: Json) -> Seq<
    (Seq<char>, Json),
> {
    let m0: Seq<(Seq<char>, Json)> = Seq::empty();
    let m1 = if trimmed(title).len() > 0 {
        upsert(m0, schema.title_property@, obj1("title"@, rich_text(trimmed(title))))
    } else {
        m0
    };
    match schema.email_property {
        Some(ep) => match email_of(p) {
            Some(e) => if trimmed(e).len() > 0 {
                upsert(m1, ep@, obj1("email"@, Json::Str(trimmed(e))))
            } else {
                m1
            },
            None => m1,
        },
        None => m1,
    }
}

/// The profile text members: birthplace, birth date, hashtags, major and
/// interests, and the single-text fields. The narrative sections (New
/// Challenges, Ask Me About, Turning Point, BTW) are page body blocks, never
/// properties.
pub open spec fn profile_updates(
    m: Seq<(Seq<char>, Json)>,
    s: DatabaseSchema,
    p: Json,
) -> Seq<(Seq<char>, Json)> {
    let tags = combined_text(tag_values(p));
    let m = add_text(m, s, seq!["Birthplace"@], prop_text(p, "Birthplace"@));
    let m = add_text(m, s, seq!["DoB"@], prop_text(p, "DoB"@));
    let m = add_text(m, s, seq!["Hashtag"@], tags);
    let m = add_text(m, s, seq!["Hashtags"@], tags);
    let m = add_text(
        m,
        s,
        seq!["Major_Interests"@, "Major_interests"@],
        combined_text(major_interests(p)),
    );
    let m = add_text(m, s, seq!["Nickname"@], prop_text(p, "Nickname"@));
    let m = add_text(m, s, seq!["Major"@], prop_text(p, "Major"@));
    let m = add_text(m, s, seq!["Affiliation"@], prop_text(p, "Affiliation"@));
    let m = add_text(m, s, seq!["MBTI"@], prop_text(p, "MBTI"@));
    let m = add_text(m, s, seq!["SNS"@], prop_text(p, "SNS"@));
    let m = add_text(m, s, seq!["Dislikes"@], prop_text(p, "Dislikes"@));
    add_text(m, s, seq!["Message"@], prop_text(p, "Message"@))
}

/// The list members and the metadata members.
pub open spec fn list_and_metadata_updates(
    m: Seq<(Seq<char>, Json)>,
    s: DatabaseSchema,
    p: Json,
) -> Seq<(Seq<char>, Json)> {
    let m = add_text(m, s, seq!["Hobbies"@], combined_text(list_values_of(prop_of(p, "Hobbies"@))));
    let m = add_text(
        m,
        s,
        seq!["Interests"@],
        combined_text(list_values_of(prop_of(p, "Interests"@))),
    );
    let m = add_text(m, s, seq!["Likes"@], combined_text(list_values_of(prop_of(p, "Likes"@))));
    let m = add_text(
        m,
        s,
        seq!["Attributes"@],
        combined_text(list_values_of(p.get("attributes"@))),
    );
    let m = add_text(m, s, seq!["LETHE Person ID"@], metadata_str_of(p, "person_id"@));
    let m = add_text(
        m,
        s,
        seq!["Source Slide URL"@],
        match metadata_str_of(p, "source_slide_url"@) {
            Some(u) => Some(u),
            None => p.get_str("source_canonical_uri"@),
        },
    );
    let m = add_text(m, s, seq!["Last Synced At"@], metadata_str_of(p, "last_synced_at"@));
    let m = add_text(
        m,
        s,
        seq!["Projection Version"@],
        metadata_str_of(p, "projection_version"@),
    );
    let m = add_text(m, s, seq!["Status"@], metadata_str_of(p, "status"@));
    add_checkbox(m, s, seq!["Visibility"@], metadata_bool_of(p, "visibility"@))
}

/// The property updates for a record: its title, its email, and every
/// profile field whose property the schema knows.
pub open spec fn property_updates(schema: DatabaseSchema, title: Seq<char>, p: Json) -> Json {
    Json::Object(
        list_and_metadata_updates(
            profile_updates(identity_updates(schema, title, p), schema, p),
            schema,
            p,
        ),
    )
}

/// The value a property of type `ty` gets for a non-blank text.
fn typed_json(ty: &str, v: String) -> (r: JsonValue)
    ensures
        r@ == typed_value(ty@, v@),
{
    if str_eq(ty, "url") && (starts_with(v.as_str(), "http://") || starts_with(
        v.as_str(),
        "https://",
    )) {
        make_obj1("url", JsonValue::String(v))
    } else if str_eq(ty, "email") && contains_char(v.as_str(), '@') {
        make_obj1("email", JsonValue::String(v))
    } else if str_eq(ty, "date") {
        make_obj1("date", make_obj1("start", JsonValue::String(v)))
    } else if str_eq(ty, "status") {
        make_obj1("status", make_obj1("name", JsonValue::String(v)))
    } else {
        make_obj1("rich_text", make_rich_text(v.as_str()))
    }
}

/// Sets the first known candidate property to a non-blank text.
fn add_text_if_exists(
    ms: &mut Vec<(String, JsonValue)>,
    schema: &DatabaseSchema,
    candidates: &[&str],
    value: Option<String>,
)
    requires
        schema.wf(),
    ensures
        member_models(final(ms)@) == add_text(
            member_models(old(ms)@),
            *schema,
            candidates@.map_values(|c: &str| c@),
            opt_chars(value),
        ),
{
    reveal(add_text);
    match value {
        Some(v) => {
            if trim(v.as_str()).unicode_len() > 0 {
                match schema.resolve_property(candidates) {
                    Some((name, ty)) => {
                        let json = typed_json(ty.as_str(), v);
                        set_member(ms, name.as_str(), json);
                    },
                    None => {},
                }
            }
        },
        None => {},
    }
}

/// Sets the one candidate property to a non-blank text.
fn add_text1(ms: &mut Vec<(String, JsonValue)>, schema: &DatabaseSchema, key: &str, value: Option<String>)
    requires
        schema.wf(),
    ensures
        member_models(final(ms)@) == add_text(
            member_models(old(ms)@),
            *schema,
            seq![key@],
            opt_chars(value),
        ),
{
    let candidates = [key];
    assert(candidates@.map_values(|c: &str| c@) =~= seq![key@]);
    add_text_if_exists(ms, schema, &candidates, value);
}

/// Sets a known checkbox property.
fn add_checkbox_if_exists(
    ms: &mut Vec<(String, JsonValue)>,
    schema: &DatabaseSchema,
    candidates: &[&str],
    value: Option<bool>,
)
    requires
        schema.wf(),
    ensures
        member_models(final(ms)@) == add_checkbox(
            member_models(old(ms)@),
            *schema,
            candidates@.map_values(|c: &str| c@),
            value,
        ),
{
    reveal(add_checkbox);
    let b = match value {
        Some(b) => b,
        None => {
            return ;
        },
    };
    match schema.resolve_property(candidates) {
        Some((name, ty)) => {
            if str_eq(ty.as_str(), "checkbox") {
                set_member(ms, name.as_str(), make_obj1("checkbox", JsonValue::Bool(b)));
            }
        },
        None => {},
    }
}

fn prop<'a>(data: &'a JsonValue, key: &str) -> (r: Option<&'a JsonValue>)
    ensures
        match r {
            Some(v) => prop_of(data@, key@) == Some(v@),
            None => prop_of(data@, key@) is None,
        },
{
    match data.get("properties") {
        Some(p) => p.get(key),
        None => None,
    }
}

fn prop_text_value(data: &JsonValue, key: &str) -> (r: Option<String>)
    ensures
        opt_chars(r) == prop_text(data@, key@),
{
    match prop(data, key) {
        Some(v) => json_text(v),
        None => None,
    }
}

fn metadata<'a>(payload: &'a JsonValue, field: &str) -> (r: Option<&'a JsonValue>)
    ensures
        match r {
            Some(v) => metadata_of(payload@, field@) == Some(v@),
            None => metadata_of(payload@, field@) is None,
        },
{
    match payload.get("_lethe") {
        Some(m) => m.get(field),
        None => None,
    }
}

fn metadata_value(payload: &JsonValue, field: &str) -> (r: Option<String>)
    ensures
        opt_chars(r) == metadata_str_of(payload@, field@),
{
    match metadata(payload, field) {
        Some(v) => match v.as_str() {
            Some(s) => Some(s.clone()),
            None => None,
        },
        None => None,
    }
}

fn metadata_bool(payload: &JsonValue, field: &str) -> (r: Option<bool>)
    ensures
        r == metadata_bool_of(payload@, field@),
{
    match metadata(payload, field) {
        Some(v) => match v {
            JsonValue::Bool(b) => Some(*b),
            _ => None,
        },
        None => None,
    }
}

fn list_text_of(v: Option<&JsonValue>) -> (r: Option<String>)
    ensures
        opt_chars(r) == combined_text(
            list_values_of(
                match v {
                    Some(x) => Some(x@),
                    None => None,
                },
            ),
        ),
{
    let values = json_list_values(v);
    combine_list_texts(&values)
}

fn identity_members(schema: &DatabaseSchema, title: &str, payload: &JsonValue) -> (r: Vec<
    (String, JsonValue),
>)
    ensures
        member_models(r@) == identity_updates(*schema, title@, payload@),
{
    let mut ms: Vec<(String, JsonValue)> = Vec::new();
    assert(member_models(ms@) =~= Seq::<(Seq<char>, Json)>::empty());
    let t = trim(title);
    if t.unicode_len() > 0 {
        let value = make_obj1("title", make_rich_text(t));
        set_member(&mut ms, schema.title_property.as_str(), value);
    }
    match &schema.email_property {
        Some(ep) => match payload_email(payload) {
            Some(e) => {
                let te = trim(e.as_str());
                if te.unicode_len() > 0 {
                    set_member(
                        &mut ms,
                        ep.as_str(),
                        make_obj1("email", JsonValue::from_str_value(te)),
                    );
                }
            },
            None => {},
        },
        None => {},
    }
    ms
}

fn tag_list(payload: &JsonValue) -> (r: Vec<String>)
    ensures
        views(r@) == tag_values(payload@),
{
    let mut tags = json_list_values(prop(payload, "Hashtags"));
    let mut attrs = json_list_values(payload.get("attributes"));
    let ghost (a, b) = (tags@, attrs@);
    tags.append(&mut attrs);
    assert(views(tags@) =~= views(a) + views(b));
    tags
}

fn major_interest_list(payload: &JsonValue) -> (r: Vec<String>)
    ensures
        views(r@) == major_interests(payload@),
{
    let mut out: Vec<String> = Vec::new();
    match prop(payload, "Major") {
        Some(v) => match v.as_str() {
            Some(m) => {
                if m.unicode_len() > 0 {
                    out.push(m.clone());
                }
            },
            None => {},
        },
        None => {},
    }
    let ghost first = views(out@);
    match prop(payload, "Interests") {
        Some(v) => match v.as_array() {
            Some(items) => {
                let ghost model = v@->Array_0;
                let mut i: usize = 0;
                while i < items.len()
                    invariant
                        i <= items@.len(),
                        model.len() == items@.len(),
                        forall|k: int| 0 <= k < items@.len() ==> #[trigger] model[k] == items@[k]@,
                        views(out@) == first + str_items(model.take(i as int)),
                    decreases items@.len() - i,
                {
                    assert(model.take(i + 1).drop_last() =~= model.take(i as int));
                    assert(model.take(i + 1).last() == items@[i as int]@);
                    let ghost before = views(out@);
                    match items[i].as_str() {
                        Some(s) => {
                            out.push(s.clone());
                            assert(views(out@) =~= before.push(s@));
                            assert(str_items(model.take(i + 1)) == str_items(model.take(i as int)).push(s@));
                            assert(first + str_items(model.take(i as int)).push(s@) =~= (first
                                + str_items(model.take(i as int))).push(s@));
                        },
                        None => {},
                    }
                    i = i + 1;
                }
                assert(model.take(items@.len() as int) =~= model);
            },
            None => {
                assert(views(out@) =~= first + Seq::<Seq<char>>::empty());
            },
        },
        None => {
            assert(views(out@) =~= first + Seq::<Seq<char>>::empty());
        },
    }
    assert(views(out@) =~= major_interests(payload@));
    out
}

fn profile_members(ms: &mut Vec<(String, JsonValue)>, s: &DatabaseSchema, p: &JsonValue)
    requires
        s.wf(),
    ensures
        member_models(final(ms)@) == profile_updates(member_models(old(ms)@), *s, p@),
{
    let tags = combine_list_texts(&tag_list(p));
    add_text1(ms, s, "Birthplace", prop_text_value(p, "Birthplace"));
    add_text1(ms, s, "DoB", prop_text_value(p, "DoB"));
    add_text1(ms, s, "Hashtag", copy_opt_string(&tags));
    add_text1(ms, s, "Hashtags", tags);
    let candidates = ["Major_Interests", "Major_interests"];
    assert(candidates@.map_values(|c: &str| c@) =~= seq!["Major_Interests"@, "Major_interests"@]);
    add_text_if_exists(ms, s, &candidates, combine_list_texts(&major_interest_list(p)));
    add_text1(ms, s, "Nickname", prop_text_value(p, "Nickname"));
    add_text1(ms, s, "Major", prop_text_value(p, "Major"));
    add_text1(ms, s, "Affiliation", prop_text_value(p, "Affiliation"));
    add_text1(ms, s, "MBTI", prop_text_value(p, "MBTI"));
    add_text1(ms, s, "SNS", prop_text_value(p, "SNS"));
    add_text1(ms, s, "Dislikes", prop_text_value(p, "Dislikes"));
    add_text1(ms, s, "Message", prop_text_value(p, "Message"));
}

fn list_and_metadata_members(ms: &mut Vec<(String, JsonValue)>, s: &DatabaseSchema, p: &JsonValue)
    requires
        s.wf(),
    ensures
        member_models(final(ms)@) == list_and_metadata_updates(member_models(old(ms)@), *s, p@),
{
    add_text1(ms, s, "Hobbies", list_text_of(prop(p, "Hobbies")));
    add_text1(ms, s, "Interests", list_text_of(prop(p, "Interests")));
    add_text1(ms, s, "Likes", list_text_of(prop(p, "Likes")));
    add_text1(ms, s, "Attributes", list_text_of(p.get("attributes")));
    add_text1(ms, s, "LETHE Person ID", metadata_value(p, "person_id"));
    let source = match metadata_value(p, "source_slide_url") {
        Some(u) => Some(u),
        None => match p.get_str("source_canonical_uri") {
            Some(u) => Some(u.clone()),
            None => None,
        },
    };
    add_text1(ms, s, "Source Slide URL", source);
    add_text1(ms, s, "Last Synced At", metadata_value(p, "last_synced_at"));
    add_text1(ms, s, "Projection Version", metadata_value(p, "projection_version"));
    add_text1(ms, s, "Status", metadata_value(p, "status"));
    let candidates = ["Visibility"];
    assert(candidates@.map_values(|c: &str| c@) =~= seq!["Visibility"@]);
    add_checkbox_if_exists(ms, s, &candidates, metadata_bool(p, "visibility"));
}

/// The property updates for a record: its title and email, then every
/// profile field and metadata field whose property the schema knows, with
/// each value shaped by the property's type.
pub fn build_property_updates(schema: &DatabaseSchema, title: &str, payload: &JsonValue) -> (r:
    JsonValue)
    requires
        schema.wf(),
    ensures
        r@ == property_updates(*schema, title@, payload@),
{
    let mut ms = identity_members(schema, title, payload);
    profile_members(&mut ms, schema, payload);
    list_and_metadata_members(&mut ms, schema, payload);
    let r = JsonValue::object(ms);
    r
}


/// No member name occurs twice.
pub open spec fn member_keys_distinct(ms: Seq<(Seq<char>, Json)>) -> bool {
    forall|i: int, j: int|
        #![trigger ms[i], ms[j]]
        0 <= i < ms.len() && 0 <= j < ms.len() && i != j ==> ms[i].0 != ms[j].0
}

proof fn lemma_upsert_distinct(ms: Seq<(Seq<char>, Json)>, k: Seq<char>, v: Json)
    requires
        member_keys_distinct(ms),
    ensures
        member_keys_distinct(upsert(ms, k, v)),
{
    lemma_member_index(ms, k);
    let u = upsert(ms, k, v);
    let i = member_index(ms, k);
    assert forall|a: int, b: int|
        0 <= a < u.len() && 0 <= b < u.len() && a != b implies #[trigger] u[a].0 != #[trigger] u[b].0 by {
        if i >= 0 {
            assert(u[a].0 == ms[a].0 && u[b].0 == ms[b].0);
        } else if a == ms.len() {
            assert(u[b] == ms[b]);
        } else if b == ms.len() {
            assert(u[a] == ms[a]);
        } else {
            assert(u[a] == ms[a] && u[b] == ms[b]);
        }
    }
}

proof fn lemma_add_text_distinct(
    ms: Seq<(Seq<char>, Json)>,
    schema: DatabaseSchema,
    candidates: Seq<Seq<char>>,
    value: Option<Seq<char>>,
)
    requires
        member_keys_distinct(ms),
    ensures
        member_keys_distinct(add_text(ms, schema, candidates, value)),
{
    reveal(add_text);
    match nonblank(value) {
        Some(v) => match resolve(schema, candidates) {
            Some((name, ty)) => lemma_upsert_distinct(ms, name, typed_value(ty, v)),
            None => {},
        },
        None => {},
    }
}

proof fn lemma_add_checkbox_distinct(
    ms: Seq<(Seq<char>, Json)>,
    schema: DatabaseSchema,
    candidates: Seq<Seq<char>>,
    value: Option<bool>,
)
    requires
        member_keys_distinct(ms),
    ensures
        member_keys_distinct(add_checkbox(ms, schema, candidates, value)),
{
    reveal(add_checkbox);
    match value {
        Some(b) => match resolve(schema, candidates) {
            Some((name, ty)) => if ty == "checkbox"@ {
                lemma_upsert_distinct(ms, name, obj1("checkbox"@, Json::Bool(b)));
            },
            None => {},
        },
        None => {},
    }
}


proof fn lemma_profile_updates_distinct(m: Seq<(Seq<char>, Json)>, s: DatabaseSchema, p: Json)
    requires
        member_keys_distinct(m),
    ensures
        member_keys_distinct(profile_updates(m, s, p)),
{
    let tags = combined_text(tag_values(p));
    lemma_add_text_distinct(m, s, seq!["Birthplace"@], prop_text(p, "Birthplace"@));
    let m = add_text(m, s, seq!["Birthplace"@], prop_text(p, "Birthplace"@));
    lemma_add_text_distinct(m, s, seq!["DoB"@], prop_text(p, "DoB"@));
    let m = add_text(m, s, seq!["DoB"@], prop_text(p, "DoB"@));
    lemma_add_text_distinct(m, s, seq!["Hashtag"@], tags);
    let m = add_text(m, s, seq!["Hashtag"@], tags);
    lemma_add_text_distinct(m, s, seq!["Hashtags"@], tags);
    let m = add_text(m, s, seq!["Hashtags"@], tags);
    lemma_add_text_distinct(
        m,
        s,
        seq!["Major_Interests"@, "Major_interests"@],
        combined_text(major_interests(p)),
    );
    let m = add_text(
        m,
        s,
        seq!["Major_Interests"@, "Major_interests"@],
        combined_text(major_interests(p)),
    );
    lemma_add_text_distinct(m, s, seq!["Nickname"@], prop_text(p, "Nickname"@));
    let m = add_text(m, s, seq!["Nickname"@], prop_text(p, "Nickname"@));
    lemma_add_text_distinct(m, s, seq!["Major"@], prop_text(p, "Major"@));
    let m = add_text(m, s, seq!["Major"@], prop_text(p, "Major"@));
    lemma_add_text_distinct(m, s, seq!["Affiliation"@], prop_text(p, "Affiliation"@));
    let m = add_text(m, s, seq!["Affiliation"@], prop_text(p, "Affiliation"@));
    lemma_add_text_distinct(m, s, seq!["MBTI"@], prop_text(p, "MBTI"@));
    let m = add_text(m, s, seq!["MBTI"@], prop_text(p, "MBTI"@));
    lemma_add_text_distinct(m, s, seq!["SNS"@], prop_text(p, "SNS"@));
    let m = add_text(m, s, seq!["SNS"@], prop_text(p, "SNS"@));
    lemma_add_text_distinct(m, s, seq!["Dislikes"@], prop_text(p, "Dislikes"@));
    let m = add_text(m, s, seq!["Dislikes"@], prop_text(p, "Dislikes"@));
    lemma_add_text_distinct(m, s, seq!["Message"@], prop_text(p, "Message"@));
}


proof fn lemma_list_and_metadata_updates_distinct(m: Seq<(Seq<char>, Json)>, s: DatabaseSchema, p: Json)
    requires
        member_keys_distinct(m),
    ensures
        member_keys_distinct(list_and_metadata_updates(m, s, p)),
{
    lemma_add_text_distinct(m, s, seq!["Hobbies"@], combined_text(list_values_of(prop_of(p, "Hobbies"@))));
    let m = add_text(m, s, seq!["Hobbies"@], combined_text(list_values_of(prop_of(p, "Hobbies"@))));
    lemma_add_text_distinct(
        m,
        s,
        seq!["Interests"@],
        combined_text(list_values_of(prop_of(p, "Interests"@))),
    );
    let m = add_text(
        m,
        s,
        seq!["Interests"@],
        combined_text(list_values_of(prop_of(p, "Interests"@))),
    );
    lemma_add_text_distinct(m, s, seq!["Likes"@], combined_text(list_values_of(prop_of(p, "Likes"@))));
    let m = add_text(m, s, seq!["Likes"@], combined_text(list_values_of(prop_of(p, "Likes"@))));
    lemma_add_text_distinct(
        m,
        s,
        seq!["Attributes"@],
        combined_text(list_values_of(p.get("attributes"@))),
    );
    let m = add_text(
        m,
        s,
        seq!["Attributes"@],
        combined_text(list_values_of(p.get("attributes"@))),
    );
    lemma_add_text_distinct(m, s, seq!["LETHE Person ID"@], metadata_str_of(p, "person_id"@));
    let m = add_text(m, s, seq!["LETHE Person ID"@], metadata_str_of(p, "person_id"@));
    lemma_add_text_distinct(
        m,
        s,
        seq!["Source Slide URL"@],
        match metadata_str_of(p, "source_slide_url"@) {
            Some(u) => Some(u),
            None => p.get_str("source_canonical_uri"@),
        },
    );
    let m = add_text(
        m,
        s,
        seq!["Source Slide URL"@],
        match metadata_str_of(p, "source_slide_url"@) {
            Some(u) => Some(u),
            None => p.get_str("source_canonical_uri"@),
        },
    );
    lemma_add_text_distinct(m, s, seq!["Last Synced At"@], metadata_str_of(p, "last_synced_at"@));
    let m = add_text(m, s, seq!["Last Synced At"@], metadata_str_of(p, "last_synced_at"@));
    lemma_add_text_distinct(
        m,
        s,
        seq!["Projection Version"@],
        metadata_str_of(p, "projection_version"@),
    );
    let m = add_text(
        m,
        s,
        seq!["Projection Version"@],
        metadata_str_of(p, "projection_version"@),
    );
    lemma_add_text_distinct(m, s, seq!["Status"@], metadata_str_of(p, "status"@));
    let m = add_text(m, s, seq!["Status"@], metadata_str_of(p, "status"@));
    lemma_add_checkbox_distinct(m, s, seq!["Visibility"@], metadata_bool_of(p, "visibility"@));
}

/// The property updates never set one property twice: each property name
/// occurs at most once among the members, whatever the schema, title and
/// payload.
pub proof fn lemma_property_updates_distinct(schema: DatabaseSchema, title: Seq<char>, p: Json)
    ensures
        property_updates(schema, title, p) matches Json::Object(ms) && member_keys_distinct(ms),
{
    let m0: Seq<(Seq<char>, Json)> = Seq::empty();
    let m1 = if trimmed(title).len() > 0 {
        lemma_upsert_distinct(m0, schema.title_property@, obj1("title"@, rich_text(trimmed(title))));
        upsert(m0, schema.title_property@, obj1("title"@, rich_text(trimmed(title))))
    } else {
        m0
    };
    match schema.email_property {
        Some(ep) => match email_of(p) {
            Some(e) => if trimmed(e).len() > 0 {
                lemma_upsert_distinct(m1, ep@, obj1("email"@, Json::Str(trimmed(e))));
            },
            None => {},
        },
        None => {},
    }
    let m2 = identity_updates(schema, title, p);
    lemma_profile_updates_distinct(m2, schema, p);
    lemma_list_and_metadata_updates_distinct(profile_updates(m2, schema, p), schema, p);
}

} // verus!
