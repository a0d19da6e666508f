//! Slack messages and channel snapshots as observation drafts.

use vstd::prelude::*;
use vstd::string::*;

use crate::adapter::config::AdapterConfig;
use crate::adapter::heartbeat::{instant_json, instant_value, minute_window};
use crate::adapter::idempotency::{slack_delete_key, slack_edit_key, slack_message_key};
use crate::adapter::slack::client::{
    SlackChannelSnapshot, SlackClient, SlackEdited, SlackFile, SlackMessage, SlackMessageType,
    SlackReaction,
};
use crate::adapter::traits::ObservationDraft;
use crate::domain::json::{member, object_json, opt_str_json, strings_json, Json, JsonValue};
use crate::domain::types::{AuthorityModel, CaptureModel};
use crate::domain::values::{BlobRef, EntityRef, IdempotencyKey, ObserverRef, SchemaRef, SemVer, SourceSystemRef};
use crate::text::{
    char_index, concat2, concat3, find_char, i64_to_decimal, lemma_char_index_bounds, parse_i64,
    parse_i64_spec, parse_u32, parse_u32_spec, spec_decimal, spec_signed_decimal, str_eq,
    u64_to_decimal,
};
use crate::trusted::{format_minute, now_micros, timestamp_from_parts, utc_from_parts};

verus! {

pub const SLACK_MESSAGE_SCHEMA: &'static str = "schema:slack-message";

pub const SLACK_MESSAGE_SCHEMA_VERSION: &'static str = "1.0.0";

pub const SLACK_CHANNEL_SCHEMA: &'static str = "schema:slack-channel-snapshot";

pub const SLACK_CHANNEL_SCHEMA_VERSION: &'static str = "1.0.0";

pub const OBSERVER_ID: &'static str = "obs:slack-crawler";

pub const SOURCE_SYSTEM: &'static str = "sys:slack";

// ---------------------------------------------------------------------------
// Timestamps
// ---------------------------------------------------------------------------

/// The first and second `.`-separated parts of a Slack timestamp.
pub open spec fn ts_parts(ts: Seq<char>) -> (Seq<char>, Option<Seq<char>>) {
    let dot = char_index(ts, '.');
    if dot < 0 {
        (ts, None)
    } else {
        let rest = ts.skip(dot + 1);
        let dot2 = char_index(rest, '.');
        (ts.take(dot), Some(if dot2 < 0 { rest } else { rest.take(dot2) }))
    }
}

/// The microseconds a Slack timestamp names: its fraction, or 0 when it
/// has none or it does not parse.
pub open spec fn ts_micros(ts: Seq<char>) -> nat {
    match ts_parts(ts).1 {
        Some(p) => match parse_u32_spec(p) {
            Some(m) => m,
            None => 0,
        },
        None => 0,
    }
}

/// The instant of a Slack `seconds.micros` timestamp, when its seconds
/// parse and `chrono` accepts it.
pub open spec fn slack_instant(ts: Seq<char>) -> Option<i64> {
    match parse_i64_spec(ts_parts(ts).0) {
        Some(secs) => utc_from_parts(secs as i64, (ts_micros(ts) * 1000) as u32),
        None => None,
    }
}

/// When the seconds of a timestamp parse, its fraction in nanoseconds
/// fits in a `u32` (the parse multiplies it by 1000 in a `u32`).
pub open spec fn ts_fraction_fits(ts: Seq<char>) -> bool {
    parse_i64_spec(ts_parts(ts).0) is Some ==> ts_micros(ts) * 1000 <= u32::MAX
}

/// The seconds part of a timestamp and its fraction part, if any.
fn split_ts(ts: &str) -> (r: (&str, Option<&str>))
    ensures
        r.0@ == ts_parts(ts@).0,
        match r.1 {
            Some(p) => ts_parts(ts@).1 == Some(p@),
            None => ts_parts(ts@).1 is None,
        },
{
    let n = ts.unicode_len();
    match find_char(ts, '.') {
        None => (ts, None),
        Some(d) => {
            let rest = ts.substring_char(d + 1, n);
            assert(rest@ =~= ts@.skip(d + 1));
            let seg = match find_char(rest, '.') {
                None => rest,
                Some(d2) => {
                    let s2 = rest.substring_char(0, d2);
                    assert(s2@ =~= rest@.take(d2 as int));
                    s2
                },
            };
            let head = ts.substring_char(0, d);
            assert(head@ =~= ts@.take(d as int));
            (head, Some(seg))
        },
    }
}

/// The microseconds of a timestamp's fraction part (0 when absent or
/// unparsable).
fn fraction_micros(second: Option<&str>) -> (r: u32)
    ensures
        r == match second {
            Some(p) => match parse_u32_spec(p@) {
                Some(m) => m,
                None => 0,
            },
            None => 0,
        },
{
    match second {
        Some(p) => match parse_u32(p) {
            Some(m) => m,
            None => 0,
        },
        None => 0,
    }
}

/// Whether `parse_slack_ts` accepts the timestamp: a timestamp whose
/// seconds parse must have a fraction of at most 4294967 microseconds.
pub fn slack_ts_supported(ts: &str) -> (r: bool)
    ensures
        r == ts_fraction_fits(ts@),
{
    let (first, second) = split_ts(ts);
    match parse_i64(first) {
        None => true,
        Some(_) => {
            let micros = fraction_micros(second);
            (micros as u64) * 1000 <= 4294967295u64
        },
    }
}

/// Parses Slack's `seconds.micros` timestamp.
pub fn parse_slack_ts(ts: &str) -> (r: Option<i64>)
    requires
        ts_fraction_fits(ts@),
    ensures
        r == slack_instant(ts@),
{
    let (first, second) = split_ts(ts);
    let secs = match parse_i64(first) {
        Some(s) => s,
        None => {
            return None;
        },
    };
    let micros = fraction_micros(second);
    assert(micros == ts_micros(ts@));
    timestamp_from_parts(secs, micros * 1000)
}

// ---------------------------------------------------------------------------
// Payloads
// ---------------------------------------------------------------------------

/// The JSON name of a message type.
pub open spec fn message_type_name(t: SlackMessageType) -> Seq<char> {
    match t {
        SlackMessageType::Message => "message"@,
        SlackMessageType::Edit => "edit"@,
        SlackMessageType::Delete => "delete"@,
        SlackMessageType::ReactionAdd => "reaction_add"@,
        SlackMessageType::ReactionRemove => "reaction_remove"@,
        SlackMessageType::FileShare => "file_share"@,
        SlackMessageType::ChannelJoin => "channel_join"@,
        SlackMessageType::ChannelLeave => "channel_leave"@,
    }
}

fn message_type_str(t: SlackMessageType) -> (r: &'static str)
    ensures
        r@ == message_type_name(t),
{
    match t {
        SlackMessageType::Message => "message",
        SlackMessageType::Edit => "edit",
        SlackMessageType::Delete => "delete",
        SlackMessageType::ReactionAdd => "reaction_add",
        SlackMessageType::ReactionRemove => "reaction_remove",
        SlackMessageType::FileShare => "file_share",
        SlackMessageType::ChannelJoin => "channel_join",
        SlackMessageType::ChannelLeave => "channel_leave",
    }
}

pub open spec fn reaction_json(r: SlackReaction) -> Json {
    Json::Object(
        seq![
            ("name"@, Json::Str(r.name@)),
            ("count"@, Json::Number(spec_decimal(r.count as nat))),
            ("users"@, strings_json(r.users@)),
        ],
    )
}

pub open spec fn file_json(f: SlackFile) -> Json {
    Json::Object(
        seq![
            ("id"@, Json::Str(f.id@)),
            ("name"@, Json::Str(f.name@)),
            ("mimetype"@, Json::Str(f.mimetype@)),
            ("size"@, Json::Number(spec_decimal(f.size as nat))),
        ] + match f.download_url {
            Some(u) => seq![("download_url"@, Json::Str(u@))],
            None => Seq::empty(),
        } + match f.blob_ref {
            Some(b) => seq![("blob_ref"@, Json::Str(b@))],
            None => Seq::empty(),
        },
    )
}

/// The payload of a message draft: the message's fields, with the
/// optional ones only when present.
pub open spec fn message_payload(msg: SlackMessage) -> Json {
    Json::Object(
        seq![
            ("channel_id"@, Json::Str(msg.channel_id@)),
            ("channel_name"@, Json::Str(msg.channel_name@)),
            ("ts"@, Json::Str(msg.ts@)),
            ("user_id"@, Json::Str(msg.user_id@)),
            ("user_name"@, Json::Str(msg.user_name@)),
            ("text"@, Json::Str(msg.text@)),
            ("message_type"@, Json::Str(message_type_name(msg.message_type))),
        ] + match msg.email {
            Some(e) => seq![("email"@, Json::Str(e@))],
            None => Seq::empty(),
        } + match msg.thread_ts {
            Some(t) => seq![("thread_ts"@, Json::Str(t@))],
            None => Seq::empty(),
        } + match msg.edited {
            Some(ed) => seq![
                (
                    "edited"@,
                    Json::Object(seq![("user"@, Json::Str(ed.user@)), ("ts"@, Json::Str(ed.ts@))]),
                ),
            ],
            None => Seq::empty(),
        } + if msg.reactions@.len() > 0 {
            seq![("reactions"@, Json::Array(msg.reactions@.map_values(|r: SlackReaction| reaction_json(r))))]
        } else {
            Seq::empty()
        } + if msg.files@.len() > 0 {
            seq![("files"@, Json::Array(msg.files@.map_values(|f: SlackFile| file_json(f))))]
        } else {
            Seq::empty()
        } + if msg.reply_count > 0 {
            seq![
                ("reply_count"@, Json::Number(spec_decimal(msg.reply_count as nat))),
                ("reply_users_count"@, Json::Number(spec_decimal(msg.reply_users_count as nat))),
            ]
        } else {
            Seq::empty()
        },
    )
}

/// The subject of a message: `message:slack:{channel}-{ts}`.
pub open spec fn message_subject(msg: SlackMessage) -> Seq<char> {
    "message:slack:"@ + msg.channel_id@ + "-"@ + msg.ts@
}

/// The metadata of a message draft: the adapter version, and for a
/// deletion the message it retracts.
pub open spec fn message_meta(msg: SlackMessage, version: Seq<char>) -> Json {
    Json::Object(
        seq![("sourceAdapterVersion"@, Json::Str(version))] + if msg.message_type
            == SlackMessageType::Delete {
            seq![("retracts"@, Json::Str(message_subject(msg)))]
        } else {
            Seq::empty()
        },
    )
}

/// The idempotency key of a message: per edit for edits, per deletion for
/// deletions, per message otherwise.
pub open spec fn message_key(msg: SlackMessage) -> Seq<char> {
    match msg.message_type {
        SlackMessageType::Edit => "slack:"@ + msg.channel_id@ + ":"@ + msg.ts@ + ":edit:"@ + match msg.edited {
            Some(e) => e.ts@,
            None => "unknown"@,
        },
        SlackMessageType::Delete => "slack:"@ + msg.channel_id@ + ":"@ + msg.ts@ + ":delete"@,
        _ => "slack:"@ + msg.channel_id@ + ":"@ + msg.ts@,
    }
}

/// The blob references of the files that have one, in order.
pub open spec fn file_blobs(files: Seq<SlackFile>) -> Seq<Seq<char>>
    decreases files.len(),
{
    if files.len() == 0 {
        Seq::empty()
    } else {
        let prev = file_blobs(files.drop_last());
        match files.last().blob_ref {
            Some(b) => prev.push(b@),
            None => prev,
        }
    }
}

fn reaction_value(r: &SlackReaction) -> (v: JsonValue)
    ensures
        v@ == reaction_json(*r),
{
    let v = JsonValue::object(
        vec![
            member("name", JsonValue::String(r.name.clone())),
            member("count", JsonValue::from_u64(r.count as u64)),
            member("users", JsonValue::strings(&r.users)),
        ],
    );
    proof {
        let ms = seq![
            ("name"@, Json::Str(r.name@)),
            ("count"@, Json::Number(spec_decimal(r.count as nat))),
            ("users"@, strings_json(r.users@)),
        ];
        assert(v@->Object_0 =~= ms);
    }
    v
}

fn file_value(f: &SlackFile) -> (v: JsonValue)
    ensures
        v@ == file_json(*f),
{
    let mut ms = vec![
        member("id", JsonValue::String(f.id.clone())),
        member("name", JsonValue::String(f.name.clone())),
        member("mimetype", JsonValue::String(f.mimetype.clone())),
        member("size", JsonValue::from_u64(f.size)),
    ];
    match &f.download_url {
        Some(u) => {
            ms.push(member("download_url", JsonValue::String(u.clone())));
        },
        None => {},
    }
    match &f.blob_ref {
        Some(b) => {
            ms.push(member("blob_ref", JsonValue::String(b.clone())));
        },
        None => {},
    }
    let v = JsonValue::object(ms);
    assert(v@->Object_0 =~= file_json(*f)->Object_0);
    v
}

/// An array of the models `f` gives the items.
fn reactions_value(rs: &Vec<SlackReaction>) -> (v: JsonValue)
    ensures
        v@ == Json::Array(rs@.map_values(|r: SlackReaction| reaction_json(r))),
{
    let mut items: Vec<JsonValue> = Vec::new();
    let mut i: usize = 0;
    while i < rs.len()
        invariant
            i <= rs@.len(),
            items@.len() == i,
            forall|k: int| 0 <= k < i ==> (#[trigger] items@[k])@ == reaction_json(rs@[k]),
        decreases rs@.len() - i,
    {
        items.push(reaction_value(&rs[i]));
        i = i + 1;
    }
    let v = JsonValue::array(items);
    assert(items@.map_values(|x: JsonValue| x@) =~= rs@.map_values(|r: SlackReaction| reaction_json(r)));
    v
}

fn files_value(fs: &Vec<SlackFile>) -> (v: JsonValue)
    ensures
        v@ == Json::Array(fs@.map_values(|f: SlackFile| file_json(f))),
{
    let mut items: Vec<JsonValue> = Vec::new();
    let mut i: usize = 0;
    while i < fs.len()
        invariant
            i <= fs@.len(),
            items@.len() == i,
            forall|k: int| 0 <= k < i ==> (#[trigger] items@[k])@ == file_json(fs@[k]),
        decreases fs@.len() - i,
    {
        items.push(file_value(&fs[i]));
        i = i + 1;
    }
    let v = JsonValue::array(items);
    assert(items@.map_values(|x: JsonValue| x@) =~= fs@.map_values(|f: SlackFile| file_json(f)));
    v
}

/// The payload of a message draft.
pub fn message_payload_value(msg: &SlackMessage) -> (v: JsonValue)
    ensures
        v@ == message_payload(*msg),
{
    let mut ms = vec![
        member("channel_id", JsonValue::String(msg.channel_id.clone())),
        member("channel_name", JsonValue::String(msg.channel_name.clone())),
        member("ts", JsonValue::String(msg.ts.clone())),
        member("user_id", JsonValue::String(msg.user_id.clone())),
        member("user_name", JsonValue::String(msg.user_name.clone())),
        member("text", JsonValue::String(msg.text.clone())),
        member("message_type", JsonValue::from_str_value(message_type_str(msg.message_type))),
    ];
    match &msg.email {
        Some(e) => {
            ms.push(member("email", JsonValue::String(e.clone())));
        },
        None => {},
    }
    match &msg.thread_ts {
        Some(t) => {
            ms.push(member("thread_ts", JsonValue::String(t.clone())));
        },
        None => {},
    }
    match &msg.edited {
        Some(ed) => {
            let inner = JsonValue::object(
                vec![
                    member("user", JsonValue::String(ed.user.clone())),
                    member("ts", JsonValue::String(ed.ts.clone())),
                ],
            );
            assert(inner@->Object_0 =~= seq![("user"@, Json::Str(ed.user@)), ("ts"@, Json::Str(ed.ts@))]);
            ms.push(member("edited", inner));
        },
        None => {},
    }
    if msg.reactions.len() > 0 {
        ms.push(member("reactions", reactions_value(&msg.reactions)));
    }
    if msg.files.len() > 0 {
        ms.push(member("files", files_value(&msg.files)));
    }
    if msg.reply_count > 0 {
        ms.push(member("reply_count", JsonValue::from_u64(msg.reply_count as u64)));
        ms.push(member("reply_users_count", JsonValue::from_u64(msg.reply_users_count as u64)));
    }
    let v = JsonValue::object(ms);
    assert(v@->Object_0 =~= message_payload(*msg)->Object_0);
    v
}

// ---------------------------------------------------------------------------
// The adapter
// ---------------------------------------------------------------------------

/// The Slack adapter: a client, its configuration, and one cursor per
/// channel (the last known `ts`).
pub struct SlackAdapter<C: SlackClient> {
    pub client: C,
    pub config: AdapterConfig,
    /// (channel id, last known ts), one entry per channel.
    pub cursors: Vec<(String, String)>,
    /// Microseconds since the Unix epoch.
    pub last_successful_capture: Option<i64>,
}

/// The cursor recorded for a key: the value of the last entry with it.
pub open spec fn cursor_of(cursors: Seq<(String, String)>, key: Seq<char>) -> Option<Seq<char>>
    decreases cursors.len(),
{
    if cursors.len() == 0 {
        None
    } else if cursors.last().0@ == key {
        Some(cursors.last().1@)
    } else {
        cursor_of(cursors.drop_last(), key)
    }
}

/// Looks a cursor up.
pub fn lookup_cursor<'a>(cursors: &'a Vec<(String, String)>, key: &str) -> (r: Option<&'a str>)
    ensures
        match r {
            Some(v) => cursor_of(cursors@, key@) == Some(v@),
            None => cursor_of(cursors@, key@) is None,
        },
{
    let mut i: usize = cursors.len();
    assert(cursors@.take(cursors@.len() as int) =~= cursors@);
    while i > 0
        invariant
            i <= cursors@.len(),
            cursor_of(cursors@, key@) == cursor_of(cursors@.take(i as int), key@),
        decreases i,
    {
        assert(cursors@.take(i as int).drop_last() =~= cursors@.take(i - 1));
        if str_eq(cursors[i - 1].0.as_str(), key) {
            return Some(cursors[i - 1].1.as_str());
        }
        i = i - 1;
    }
    assert(cursors@.take(0) =~= Seq::<(String, String)>::empty());
    None
}

/// Records a cursor: later lookups of `key` give `value`.
pub fn record_cursor(cursors: &mut Vec<(String, String)>, key: &str, value: &str)
    ensures
        cursor_of(final(cursors)@, key@) == Some(value@),
        forall|k: Seq<char>| k != key@ ==> cursor_of(final(cursors)@, k) == cursor_of(old(cursors)@, k),
{
    let ghost before = cursors@;
    cursors.push((String::from_str(key), String::from_str(value)));
    assert(cursors@.drop_last() =~= before);
}

impl<C: SlackClient> SlackAdapter<C> {
    pub fn new(client: C, config: AdapterConfig) -> (r: Self)
        ensures
            r.client == client,
            r.config == config,
            r.cursors@.len() == 0,
            r.last_successful_capture is None,
    {
        SlackAdapter { client, config, cursors: Vec::new(), last_successful_capture: None }
    }

    /// Maps a Slack message to a draft: a lake-authoritative event under
    /// the message schema, with the message's key, subject, payload and
    /// metadata, its files' blobs as attachments, and its timestamp as
    /// publication time (the current time when the timestamp does not
    /// parse).
    pub fn map_message(&self, msg: &SlackMessage) -> (r: ObservationDraft)
        requires
            ts_fraction_fits(msg.ts@),
        ensures
            r.schema@ == SLACK_MESSAGE_SCHEMA@,
            r.schema_version@ == SLACK_MESSAGE_SCHEMA_VERSION@,
            r.observer@ == OBSERVER_ID@,
            r.source_system matches Some(s) && s@ == SOURCE_SYSTEM@,
            r.authority_model == AuthorityModel::LakeAuthoritative,
            r.capture_model == CaptureModel::Event,
            r.subject@ == message_subject(*msg),
            r.target is None,
            r.payload@ == message_payload(*msg),
            r.attachments@.map_values(|b: BlobRef| b@) == file_blobs(msg.files@),
            slack_instant(msg.ts@) matches Some(t) ==> r.published == t,
            r.idempotency_key@ == message_key(*msg),
            r.meta@ == message_meta(*msg, self.config.adapter_version@),
    {
        let idem_key = match msg.message_type {
            SlackMessageType::Edit => {
                let edit_ts: &str = match &msg.edited {
                    Some(e) => e.ts.as_str(),
                    None => "unknown",
                };
                slack_edit_key(msg.channel_id.as_str(), msg.ts.as_str(), edit_ts)
            },
            SlackMessageType::Delete => slack_delete_key(msg.channel_id.as_str(), msg.ts.as_str()),
            _ => slack_message_key(msg.channel_id.as_str(), msg.ts.as_str()),
        };
        let subject_text = concat3(
            concat2("message:slack:", msg.channel_id.as_str()).as_str(),
            "-",
            msg.ts.as_str(),
        );
        let mut meta_members = vec![
            member("sourceAdapterVersion", JsonValue::String(self.config.adapter_version.to_string())),
        ];
        if msg.message_type == SlackMessageType::Delete {
            meta_members.push(member("retracts", JsonValue::String(subject_text.clone())));
        }
        let meta = JsonValue::object(meta_members);
        assert(meta@->Object_0 =~= message_meta(*msg, self.config.adapter_version@)->Object_0);
        let payload = message_payload_value(msg);
        let mut attachments: Vec<BlobRef> = Vec::new();
        let mut i: usize = 0;
        assert(msg.files@.take(0) =~= Seq::<SlackFile>::empty());
        while i < msg.files.len()
            invariant
                i <= msg.files@.len(),
                attachments@.map_values(|b: BlobRef| b@) == file_blobs(msg.files@.take(i as int)),
            decreases msg.files@.len() - i,
        {
            assert(msg.files@.take(i + 1).drop_last() =~= msg.files@.take(i as int));
            match &msg.files[i].blob_ref {
                Some(b) => {
                    let ghost prev = attachments@;
                    attachments.push(BlobRef(b.clone()));
                    assert(attachments@.map_values(|b: BlobRef| b@) =~= prev.map_values(|b: BlobRef| b@).push(
                        b@,
                    ));
                },
                None => {},
            }
            i = i + 1;
        }
        assert(msg.files@.take(msg.files@.len() as int) =~= msg.files@);
        let published = match parse_slack_ts(msg.ts.as_str()) {
            Some(t) => t,
            None => now_micros(),
        };
        ObservationDraft {
            schema: SchemaRef::new(SLACK_MESSAGE_SCHEMA),
            schema_version: SemVer::new(SLACK_MESSAGE_SCHEMA_VERSION),
            observer: ObserverRef::new(OBSERVER_ID),
            source_system: Some(SourceSystemRef::new(SOURCE_SYSTEM)),
            authority_model: AuthorityModel::LakeAuthoritative,
            capture_model: CaptureModel::Event,
            subject: EntityRef(subject_text),
            target: None,
            payload,
            attachments,
            published,
            idempotency_key: idem_key,
            meta,
        }
    }

    /// Maps a channel snapshot to a draft, one idempotency key per channel
    /// and minute.
    pub fn map_channel_snapshot(&self, snap: &SlackChannelSnapshot) -> (r: ObservationDraft)
        ensures
            r.schema@ == SLACK_CHANNEL_SCHEMA@,
            r.schema_version@ == SLACK_CHANNEL_SCHEMA_VERSION@,
            r.observer@ == OBSERVER_ID@,
            r.source_system matches Some(s) && s@ == SOURCE_SYSTEM@,
            r.authority_model == AuthorityModel::LakeAuthoritative,
            r.capture_model == CaptureModel::Event,
            r.subject@ == "channel:slack:"@ + snap.channel_id@,
            r.target is None,
            r.payload@ == Json::Object(
                seq![
                    ("channel_id"@, Json::Str(snap.channel_id@)),
                    ("channel_name"@, Json::Str(snap.channel_name@)),
                    ("purpose"@, opt_str_json(snap.purpose)),
                    ("topic"@, opt_str_json(snap.topic)),
                    ("member_count"@, Json::Number(spec_decimal(snap.member_count as nat))),
                    ("members"@, strings_json(snap.members@)),
                    ("is_archived"@, Json::Bool(snap.is_archived)),
                    ("snapshot_at"@, instant_json(snap.snapshot_at)),
                ],
            ),
            r.attachments@.len() == 0,
            r.published == snap.snapshot_at,
            r.idempotency_key@ == "slack:channel:"@ + snap.channel_id@ + ":snapshot:"@ + minute_window(
                snap.snapshot_at,
            ),
            r.meta@ == Json::Object(seq![("sourceAdapterVersion"@, Json::Str(self.config.adapter_version@))]),
    {
        let window = match format_minute(snap.snapshot_at) {
            Some(w) => w,
            None => i64_to_decimal(snap.snapshot_at),
        };
        let key = concat3(
            concat3("slack:channel:", snap.channel_id.as_str(), ":snapshot:").as_str(),
            window.as_str(),
            "",
        );
        proof {
            reveal_strlit("");
        }
        let payload = JsonValue::object(
            vec![
                member("channel_id", JsonValue::String(snap.channel_id.clone())),
                member("channel_name", JsonValue::String(snap.channel_name.clone())),
                member("purpose", JsonValue::opt_string(&snap.purpose)),
                member("topic", JsonValue::opt_string(&snap.topic)),
                member("member_count", JsonValue::from_u64(snap.member_count as u64)),
                member("members", JsonValue::strings(&snap.members)),
                member("is_archived", JsonValue::Bool(snap.is_archived)),
                member("snapshot_at", instant_value(snap.snapshot_at)),
            ],
        );
        let meta = JsonValue::object(
            vec![member("sourceAdapterVersion", JsonValue::String(self.config.adapter_version.to_string()))],
        );
        let r = ObservationDraft {
            schema: SchemaRef::new(SLACK_CHANNEL_SCHEMA),
            schema_version: SemVer::new(SLACK_CHANNEL_SCHEMA_VERSION),
            observer: ObserverRef::new(OBSERVER_ID),
            source_system: Some(SourceSystemRef::new(SOURCE_SYSTEM)),
            authority_model: AuthorityModel::LakeAuthoritative,
            capture_model: CaptureModel::Event,
            subject: EntityRef(concat2("channel:slack:", snap.channel_id.as_str())),
            target: None,
            payload,
            attachments: Vec::new(),
            published: snap.snapshot_at,
            idempotency_key: IdempotencyKey(key),
            meta,
        };
        assert(r.payload@->Object_0 =~= seq![
            ("channel_id"@, Json::Str(snap.channel_id@)),
            ("channel_name"@, Json::Str(snap.channel_name@)),
            ("purpose"@, opt_str_json(snap.purpose)),
            ("topic"@, opt_str_json(snap.topic)),
            ("member_count"@, Json::Number(spec_decimal(snap.member_count as nat))),
            ("members"@, strings_json(snap.members@)),
            ("is_archived"@, Json::Bool(snap.is_archived)),
            ("snapshot_at"@, instant_json(snap.snapshot_at)),
        ]);
        assert(r.meta@->Object_0 =~= seq![("sourceAdapterVersion"@, Json::Str(self.config.adapter_version@))]);
        r
    }

    /// Records the latest `ts` seen in a channel.
    pub fn update_cursor(&mut self, channel_id: &str, latest_ts: &str)
        ensures
            cursor_of(final(self).cursors@, channel_id@) == Some(latest_ts@),
            forall|k: Seq<char>|
                k != channel_id@ ==> cursor_of(final(self).cursors@, k) == cursor_of(old(self).cursors@, k),
    {
        record_cursor(&mut self.cursors, channel_id, latest_ts);
    }

    /// The latest `ts` recorded for a channel.
    pub fn get_cursor(&self, channel_id: &str) -> (r: Option<&str>)
        ensures
            match r {
                Some(v) => cursor_of(self.cursors@, channel_id@) == Some(v@),
                None => cursor_of(self.cursors@, channel_id@) is None,
            },
    {
        lookup_cursor(&self.cursors, channel_id)
    }
}

} // verus!
