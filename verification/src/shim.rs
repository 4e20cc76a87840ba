use vstd::prelude::*;

use chrono::TimeZone;

verus! {

/// What chrono renders for a millisecond timestamp in RFC 2822 form.
pub uninterp spec fn rfc2822_of(ms: int) -> Seq<char>;

/// Relies on chrono's `Utc.timestamp_millis_opt` and `DateTime::to_rfc2822`:
/// the rendering depends on the millisecond timestamp alone. Times past the
/// year 9999, which `to_rfc2822` refuses (it aborts on them), render as the
/// empty string instead of being handed to it.
#[verifier::external_body]
pub fn format_rfc2822_ms(ms: u64) -> (r: String)
    ensures
        r@ == rfc2822_of(ms as int),
{
    if ms >= 253_402_300_800_000 {
        return String::new();
    }
    match chrono::Utc.timestamp_millis_opt(ms as i64).single() {
        Some(dt) => dt.to_rfc2822(),
        None => String::new(),
    }
}

/// What chrono reads out of an RFC 2822 date text: seconds since the epoch,
/// or nothing when the text does not parse.
pub uninterp spec fn http_date_secs_of(s: Seq<char>) -> Option<int>;

/// Relies on chrono's `DateTime::parse_from_rfc2822` and `timestamp`: the
/// result depends on the text alone.
#[verifier::external_body]
pub fn parse_http_date(s: &str) -> (r: Option<i64>)
    ensures
        match r {
            Some(v) => http_date_secs_of(s@) == Some(v as int),
            None => http_date_secs_of(s@) is None,
        },
{
    chrono::DateTime::parse_from_rfc2822(s).ok().map(|d| d.timestamp())
}

/// Relies on std's String::push: it appends the given character at the end of
/// the string.
#[verifier::external_body]
pub fn string_push(s: &mut String, c: char)
    ensures
        final(s)@ == old(s)@.push(c),
{
    s.push(c);
}

/// Relies on chrono's `Utc::now`: the wall clock's seconds since the epoch.
/// Nothing is assumed of the value.
#[verifier::external_body]
pub fn now_unix_secs() -> (r: i64) {
    chrono::Utc::now().timestamp()
}

/// The MD5 digest of a byte string: it depends on the bytes alone.
pub uninterp spec fn md5_of(b: Seq<u8>) -> Seq<u8>;

/// Relies on md5's `compute`: the digest is 16 bytes and depends on the input
/// alone.
#[verifier::external_body]
pub fn md5_bytes(b: &Vec<u8>) -> (r: Vec<u8>)
    ensures
        r@ == md5_of(b@),
        r@.len() == 16,
{
    md5::compute(b.as_slice()).0.to_vec()
}

/// What base64 decoding yields for a text: the bytes, or nothing when the
/// text is not valid base64. It depends on the text alone.
pub uninterp spec fn base64_decode_of(s: Seq<char>) -> Option<Seq<u8>>;

/// Relies on base64's `decode` with the standard alphabet: the result depends
/// on the text alone.
#[verifier::external_body]
pub fn base64_decode(s: &str) -> (r: Option<Vec<u8>>)
    ensures
        match r {
            Some(v) => base64_decode_of(s@) == Some(v@),
            None => base64_decode_of(s@) is None,
        },
{
    base64::decode(s).ok()
}

/// Relies on uuid's `Uuid::new_v4` and its simple format: 32 hexadecimal
/// digits. The value is random; nothing more is assumed of it.
#[verifier::external_body]
pub fn uuid_v4_simple() -> (r: String)
    ensures
        r@.len() == 32,
{
    uuid::Uuid::new_v4().simple().to_string()
}

/// Relies on uuid's `Uuid::new_v4` and its hyphenated format: 36 characters.
/// The value is random; nothing more is assumed of it.
#[verifier::external_body]
pub fn uuid_v4_hyphenated() -> (r: String)
    ensures
        r@.len() == 36,
{
    uuid::Uuid::new_v4().to_string()
}

/// The media type guessed from a path's extension, if any; it depends on the
/// path alone.
pub uninterp spec fn mime_of(path: Seq<char>) -> Option<Seq<char>>;

/// Relies on mime_guess's `from_path`: the guess depends on the path alone.
#[verifier::external_body]
pub fn guess_mime(path: &str) -> (r: Option<String>)
    ensures
        match r {
            Some(v) => mime_of(path@) == Some(v@),
            None => mime_of(path@) is None,
        },
{
    mime_guess::from_path(path).first().map(|m| m.to_string())
}

/// Relies on std's String::from_utf8: bytes below 128 decode to one character
/// per byte, each with the same code as the byte.
#[verifier::external_body]
pub fn ascii_to_string(b: &Vec<u8>) -> (r: String)
    requires
        forall|i: int| 0 <= i < b@.len() ==> b@[i] < 128,
    ensures
        r@.len() == b@.len(),
        forall|i: int| 0 <= i < r@.len() ==> r@[i] == b@[i] as char,
{
    String::from_utf8(b.clone()).unwrap_or_default()
}

} // verus!
