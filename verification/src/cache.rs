use vstd::prelude::*;

use crate::shim::{http_date_secs_of, parse_http_date};
use crate::scan::str_eq;
use crate::strnum::{spec_u64_chars, u64_to_string};
use crate::shim::string_push;

verus! {

/// The entity tag computed for a file: `"<mtime_ms>-<size>"`, quotes
/// included. It depends on the modification time and the size alone.
pub open spec fn spec_etag(mtime_ms: u64, size: u64) -> Seq<char> {
    seq!['"'] + spec_u64_chars(mtime_ms as nat) + seq!['-'] + spec_u64_chars(size as nat) + seq![
        '"',
    ]
}

/// Render the entity tag for a file.
pub fn etag_of(mtime_ms: u64, size: u64) -> (r: String)
    ensures
        r@ == spec_etag(mtime_ms, size),
{
    let mut s = String::new();
    string_push(&mut s, '"');
    let a = u64_to_string(mtime_ms);
    s.append(a.as_str());
    string_push(&mut s, '-');
    let b = u64_to_string(size);
    s.append(b.as_str());
    string_push(&mut s, '"');
    assert(s@ =~= spec_etag(mtime_ms, size));
    s
}

/// View of an optional header value.
pub open spec fn opt_view(o: Option<&str>) -> Option<Seq<char>> {
    match o {
        Some(s) => Some(s@),
        None => None,
    }
}

/// A conditional request is answered 304 when `If-None-Match` names the
/// current entity tag (or `*`), or, with no `If-None-Match`, when
/// `If-Modified-Since` is no earlier than the modification time truncated to
/// seconds.
pub open spec fn spec_cached(
    inm: Option<Seq<char>>,
    ims: Option<Seq<char>>,
    mtime_ms: u64,
    size: u64,
) -> bool {
    match inm {
        Some(v) => v == spec_etag(mtime_ms, size) || v == seq!['*'],
        None => match ims {
            Some(d) => match http_date_secs_of(d) {
                Some(t) => mtime_ms as int / 1000 <= t,
                None => false,
            },
            None => false,
        },
    }
}

/// Decide whether a conditional `GET` is answered 304 Not Modified.
pub fn evaluate_cached(
    if_none_match: Option<&str>,
    if_modified_since: Option<&str>,
    mtime_ms: u64,
    size: u64,
) -> (r: bool)
    ensures
        r == spec_cached(opt_view(if_none_match), opt_view(if_modified_since), mtime_ms, size),
{
    match if_none_match {
        Some(v) => {
            let etag = etag_of(mtime_ms, size);
            if str_eq(v, etag.as_str()) {
                return true;
            }
            let star = str_eq(v, "*");
            proof {
                reveal_strlit("*");
                assert("*"@ =~= seq!['*']);
            }
            star
        },
        None => match if_modified_since {
            Some(d) => match parse_http_date(d) {
                Some(t) => {
                    if t >= 0 && mtime_ms / 1000 <= t as u64 {
                        true
                    } else {
                        proof {
                            assert(mtime_ms as int / 1000 >= 0);
                        }
                        false
                    }
                },
                None => false,
            },
            None => false,
        },
    }
}

/// An `If-Range` validator is current when it equals the entity tag or names
/// a time no earlier than the modification time truncated to seconds.
pub open spec fn spec_if_range_current(v: Seq<char>, mtime_ms: u64, size: u64) -> bool {
    v == spec_etag(mtime_ms, size) || (match http_date_secs_of(v) {
        Some(t) => mtime_ms as int / 1000 <= t,
        None => false,
    })
}

/// Decide whether an `If-Range` validator is current, so the range may be
/// honored.
pub fn if_range_current(v: &str, mtime_ms: u64, size: u64) -> (r: bool)
    ensures
        r == spec_if_range_current(v@, mtime_ms, size),
{
    let etag = etag_of(mtime_ms, size);
    if str_eq(v, etag.as_str()) {
        return true;
    }
    match parse_http_date(v) {
        Some(t) => {
            if t >= 0 && mtime_ms / 1000 <= t as u64 {
                true
            } else {
                proof {
                    assert(mtime_ms as int / 1000 >= 0);
                }
                false
            }
        },
        None => false,
    }
}

/// A repeated `GET` that sends back the entity tag it received is answered
/// 304: the tag depends only on the modification time and size, so while they
/// are unchanged the tag still matches.
pub proof fn lemma_etag_round_trip(mtime_ms: u64, size: u64, ims: Option<Seq<char>>)
    ensures
        spec_cached(Some(spec_etag(mtime_ms, size)), ims, mtime_ms, size),
{
}

} // verus!
