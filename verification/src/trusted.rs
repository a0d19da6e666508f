//! Contracts of the standard-library and outside-crate functions that the
//! library calls, and the wrappers that make those calls. Nothing here is
//! proved: each contract states what the called function's documentation
//! promises.

use sha2::Digest;
use vstd::prelude::*;

use crate::domain::json::hex_digit;

verus! {

/// `String::push` appends one character: the string afterwards is the
/// string before followed by `ch`.
pub assume_specification[ std::string::String::push ](s: &mut std::string::String, ch: char)
    ensures
        final(s)@ == old(s)@.push(ch),
;

/// The current wall-clock time, in microseconds since the Unix epoch
/// (`chrono::Utc::now().timestamp_micros()`). Nothing is promised of the
/// value: it depends on the clock.
#[verifier::external_body]
pub(crate) fn now_micros() -> (r: i64) {
    chrono::Utc::now().timestamp_micros()
}

/// `std::time::Instant`, a reading of the monotonic clock; opaque here.
#[verifier::external_type_specification]
#[verifier::external_body]
pub struct ExInstant(std::time::Instant);

/// `std::time::Instant::now`: the current reading of the monotonic clock.
/// Nothing is promised of the value.
#[verifier::external_body]
pub(crate) fn instant_now() -> (r: std::time::Instant) {
    std::time::Instant::now()
}

/// `std::time::Instant::elapsed`, in whole microseconds: the time since
/// `start`. Nothing is promised of the value: it depends on the clock.
#[verifier::external_body]
pub(crate) fn elapsed_micros(start: &std::time::Instant) -> (r: u128) {
    start.elapsed().as_micros()
}

/// A lower-case hexadecimal digit.
pub open spec fn is_lower_hex_digit(c: char) -> bool {
    ('0' <= c && c <= '9') || ('a' <= c && c <= 'f')
}

/// The hyphenated text of a version-7 UUID: 36 characters, hyphens at
/// positions 8, 13, 18 and 23, the version digit `7` at position 14 and a
/// lower-case hexadecimal digit everywhere else.
pub open spec fn hyphenated_v7(s: Seq<char>) -> bool {
    &&& s.len() == 36
    &&& s[8] == '-' && s[13] == '-' && s[18] == '-' && s[23] == '-'
    &&& s[14] == '7'
    &&& forall|i: int|
        0 <= i < 36 && i != 8 && i != 13 && i != 18 && i != 23 ==> is_lower_hex_digit(#[trigger] s[i])
}

/// A fresh time-ordered UUID (`uuid::Uuid::now_v7()`) in its hyphenated
/// lower-case text form (`Display` goes through `LowerHex` of the
/// hyphenated form). Which UUID it is depends on the clock and on a random
/// source, so only its form is stated.
#[verifier::external_body]
pub(crate) fn uuid_v7_text() -> (r: String)
    ensures
        hyphenated_v7(r@),
{
    uuid::Uuid::now_v7().to_string()
}

/// The SHA-256 digest of a byte sequence.
pub uninterp spec fn sha256(data: Seq<u8>) -> Seq<u8>;

/// `sha2::Sha256::digest`: the SHA-256 digest of `data`, which is a
/// function of `data` alone and is 32 bytes long.
#[verifier::external_body]
pub(crate) fn sha256_digest(data: &[u8]) -> (r: Vec<u8>)
    ensures
        r@ == sha256(data@),
        r@.len() == 32,
{
    sha2::Sha256::digest(data).to_vec()
}

/// Two lower-case hexadecimal digits per byte, high nibble first.
pub open spec fn lower_hex(bytes: Seq<u8>) -> Seq<char>
    decreases bytes.len(),
{
    if bytes.len() == 0 {
        Seq::empty()
    } else {
        lower_hex(bytes.drop_last()) + seq![
            hex_digit((bytes.last() / 16) as nat),
            hex_digit((bytes.last() % 16) as nat),
        ]
    }
}

/// `hex::encode`: each byte written as two lower-case hexadecimal digits,
/// in order.
#[verifier::external_body]
pub(crate) fn hex_encode(data: &[u8]) -> (r: String)
    ensures
        r@ == lower_hex(data@),
{
    hex::encode(data)
}

/// The text `chrono` displays for an instant given in microseconds since
/// the Unix epoch (UTC); `None` when `chrono` cannot represent it.
pub uninterp spec fn utc_text(micros: i64) -> Option<Seq<char>>;

/// `chrono::DateTime::<Utc>::from_timestamp_micros` followed by its
/// `Display`: the result is a function of `micros` alone (always UTC).
#[verifier::external_body]
pub(crate) fn format_utc(micros: i64) -> (r: Option<String>)
    ensures
        match r {
            Some(s) => utc_text(micros) == Some(s@),
            None => utc_text(micros) is None,
        },
{
    match chrono::DateTime::<chrono::Utc>::from_timestamp_micros(micros) {
        Some(d) => Some(d.to_string()),
        None => None,
    }
}

/// The lower-case form of a string, as `str::to_lowercase` gives it.
pub uninterp spec fn lowercase_of(s: Seq<char>) -> Seq<char>;

/// `str::to_lowercase`: a function of the characters alone.
#[verifier::external_body]
pub(crate) fn to_lowercase(s: &str) -> (r: String)
    ensures
        r@ == lowercase_of(s@),
{
    s.to_lowercase()
}

/// Whether `char::is_alphanumeric` holds of `c` (Unicode alphabetic or
/// numeric).
pub uninterp spec fn alphanumeric(c: char) -> bool;

/// `char::is_alphanumeric`: a function of the character alone.
#[verifier::external_body]
pub(crate) fn is_alphanumeric(c: char) -> (r: bool)
    ensures
        r == alphanumeric(c),
{
    c.is_alphanumeric()
}

/// The characters that `char::to_lowercase` yields for `c`.
pub uninterp spec fn char_lowercase(c: char) -> Seq<char>;

/// `char::to_lowercase`, collected into a string: a function of the
/// character alone.
#[verifier::external_body]
pub(crate) fn lowercase_char(c: char) -> (r: String)
    ensures
        r@ == char_lowercase(c),
{
    c.to_lowercase().collect()
}

/// Whether `c` has the Unicode property `White_Space`, which is what
/// `char::is_whitespace` and `str::trim` go by.
pub open spec fn is_white_space(c: char) -> bool {
    let u = c as u32;
    ||| 0x9 <= u <= 0xD
    ||| u == 0x20
    ||| u == 0x85
    ||| u == 0xA0
    ||| u == 0x1680
    ||| 0x2000 <= u <= 0x200A
    ||| u == 0x2028
    ||| u == 0x2029
    ||| u == 0x202F
    ||| u == 0x205F
    ||| u == 0x3000
}

/// `s` without its leading white space.
pub open spec fn trim_start(s: Seq<char>) -> Seq<char>
    decreases s.len(),
{
    if s.len() > 0 && is_white_space(s[0]) {
        trim_start(s.drop_first())
    } else {
        s
    }
}

/// `s` without its trailing white space.
pub open spec fn trim_end(s: Seq<char>) -> Seq<char>
    decreases s.len(),
{
    if s.len() > 0 && is_white_space(s.last()) {
        trim_end(s.drop_last())
    } else {
        s
    }
}

/// A string without its leading and trailing white space, as `str::trim`
/// gives it.
pub open spec fn trimmed(s: Seq<char>) -> Seq<char> {
    trim_end(trim_start(s))
}

/// `str::trim`: the slice of `s` left after removing leading and trailing
/// white space (Unicode `White_Space`).
#[verifier::external_body]
pub(crate) fn trim(s: &str) -> (r: &str)
    ensures
        r@ == trimmed(s@),
{
    s.trim()
}

/// The RFC 3339 text `chrono` gives an instant when it serialises it
/// (`SecondsFormat::AutoSi`, with `Z`); `None` when `chrono` cannot
/// represent the instant.
pub uninterp spec fn rfc3339_text(micros: i64) -> Option<Seq<char>>;

/// `chrono::DateTime::<Utc>::from_timestamp_micros` followed by
/// `to_rfc3339_opts(SecondsFormat::AutoSi, true)`: a function of `micros`
/// alone.
#[verifier::external_body]
pub(crate) fn format_rfc3339(micros: i64) -> (r: Option<String>)
    ensures
        match r {
            Some(s) => rfc3339_text(micros) == Some(s@),
            None => rfc3339_text(micros) is None,
        },
{
    match chrono::DateTime::<chrono::Utc>::from_timestamp_micros(micros) {
        Some(d) => Some(d.to_rfc3339_opts(chrono::SecondsFormat::AutoSi, true)),
        None => None,
    }
}

/// The minute of an instant as `chrono` formats it with
/// `%Y-%m-%dT%H:%M` (UTC); `None` when `chrono` cannot represent it.
pub uninterp spec fn minute_text(micros: i64) -> Option<Seq<char>>;

/// `chrono::DateTime::<Utc>::from_timestamp_micros` followed by
/// `format("%Y-%m-%dT%H:%M")`: a function of `micros` alone.
#[verifier::external_body]
pub(crate) fn format_minute(micros: i64) -> (r: Option<String>)
    ensures
        match r {
            Some(s) => minute_text(micros) == Some(s@),
            None => minute_text(micros) is None,
        },
{
    match chrono::DateTime::<chrono::Utc>::from_timestamp_micros(micros) {
        Some(d) => Some(d.format("%Y-%m-%dT%H:%M").to_string()),
        None => None,
    }
}

/// The instant, in microseconds since the Unix epoch, that `chrono` makes
/// of a number of seconds and nanoseconds; `None` when `chrono` rejects
/// them.
pub uninterp spec fn utc_from_parts(secs: i64, nsecs: u32) -> Option<i64>;

/// `chrono::DateTime::<Utc>::from_timestamp(secs, nsecs)` followed by
/// `timestamp_micros`: a function of its arguments alone.
#[verifier::external_body]
pub(crate) fn timestamp_from_parts(secs: i64, nsecs: u32) -> (r: Option<i64>)
    ensures
        r == utc_from_parts(secs, nsecs),
{
    match chrono::DateTime::<chrono::Utc>::from_timestamp(secs, nsecs) {
        Some(d) => Some(d.timestamp_micros()),
        None => None,
    }
}

/// The text `chrono`'s `DateTime::<Utc>::to_rfc3339` gives an instant;
/// `None` when `chrono` cannot represent it.
pub uninterp spec fn rfc3339_offset_text(micros: i64) -> Option<Seq<char>>;

/// `chrono::DateTime::<Utc>::from_timestamp_micros` followed by
/// `to_rfc3339`: a function of `micros` alone.
#[verifier::external_body]
pub(crate) fn format_rfc3339_offset(micros: i64) -> (r: Option<String>)
    ensures
        match r {
            Some(s) => rfc3339_offset_text(micros) == Some(s@),
            None => rfc3339_offset_text(micros) is None,
        },
{
    match chrono::DateTime::<chrono::Utc>::from_timestamp_micros(micros) {
        Some(d) => Some(d.to_rfc3339()),
        None => None,
    }
}

} // verus!
