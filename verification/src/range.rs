use vstd::prelude::*;

use crate::scan::{find_char, spec_find, str_eq};
use crate::strnum::{all_digits, parse_u64, spec_dec_value};

verus! {

/// A parsed `Range` header: start byte and optional inclusive end byte.
#[derive(Debug, Clone, Copy)]
pub struct RangeValue {
    pub start: u64,
    pub end: Option<u64>,
}

/// True when `s` is a decimal number that fits in a `u64`.
pub open spec fn valid_u64(s: Seq<char>) -> bool {
    all_digits(s) && s.len() > 0 && spec_dec_value(s) <= u64::MAX
}

/// The parse of a `Range` header value: the unit must be `bytes`, then a
/// start byte, then optionally `-` and an inclusive end byte; an empty end
/// means an open range. Anything else parses to nothing.
pub open spec fn spec_parse_range(s: Seq<char>) -> Option<(u64, Option<u64>)> {
    match spec_find(s, '=') {
        None => None,
        Some(eq) => {
            if s.take(eq) != "bytes"@ {
                None
            } else {
                let rest = s.skip(eq + 1);
                match spec_find(rest, '-') {
                    None => if valid_u64(rest) {
                        Some((spec_dec_value(rest) as u64, None))
                    } else {
                        None
                    },
                    Some(d) => {
                        let a = rest.take(d);
                        let b = rest.skip(d + 1);
                        if !valid_u64(a) {
                            None
                        } else if b.len() == 0 {
                            Some((spec_dec_value(a) as u64, None))
                        } else if valid_u64(b) {
                            Some((spec_dec_value(a) as u64, Some(spec_dec_value(b) as u64)))
                        } else {
                            None
                        }
                    },
                }
            }
        },
    }
}

/// Parse a `Range` header value.
pub fn parse_range(s: &str) -> (r: Option<RangeValue>)
    ensures
        match r {
            Some(rv) => spec_parse_range(s@) == Some((rv.start, rv.end)),
            None => spec_parse_range(s@) is None,
        },
{
    let len = s.unicode_len();
    let eq = match find_char(s, '=') {
        Some(i) => i,
        None => {
            return None;
        },
    };
    let units = s.substring_char(0, eq);
    assert(units@ == s@.take(eq as int));
    if !str_eq(units, "bytes") {
        return None;
    }
    let rest = s.substring_char(eq + 1, len);
    assert(rest@ == s@.skip(eq + 1));
    let rest_len = rest.unicode_len();
    match find_char(rest, '-') {
        None => {
            match parse_u64(rest) {
                Some(n) => Some(RangeValue { start: n, end: None }),
                None => None,
            }
        },
        Some(d) => {
            let a = rest.substring_char(0, d);
            assert(a@ == rest@.take(d as int));
            let start = match parse_u64(a) {
                Some(n) => n,
                None => {
                    return None;
                },
            };
            let b = rest.substring_char(d + 1, rest_len);
            assert(b@ == rest@.skip(d + 1));
            if b.unicode_len() == 0 {
                Some(RangeValue { start, end: None })
            } else {
                match parse_u64(b) {
                    Some(e) => Some(RangeValue { start, end: Some(e) }),
                    None => None,
                }
            }
        },
    }
}

/// A range is satisfiable for a file of `size` bytes when it starts inside
/// the file and, if closed, does not end before it starts.
pub open spec fn spec_satisfiable(start: u64, end: Option<u64>, size: u64) -> bool {
    start < size && (match end {
        Some(e) => start <= e,
        None => true,
    })
}

/// The effective inclusive end byte of a satisfiable range.
pub open spec fn spec_range_end(end: Option<u64>, size: u64) -> int {
    match end {
        Some(e) => if e < size - 1 {
            e as int
        } else {
            size - 1
        },
        None => size - 1,
    }
}

/// Clamp a parsed range against the file size: the served window, or nothing
/// when the range is unsatisfiable.
pub fn resolve_range(range: &RangeValue, size: u64) -> (r: Option<(u64, u64)>)
    ensures
        match r {
            Some(p) => spec_satisfiable(range.start, range.end, size) && p.0 == range.start && p.1
                == spec_range_end(range.end, size) && p.0 <= p.1 < size,
            None => !spec_satisfiable(range.start, range.end, size),
        },
{
    if !(range.start < size) {
        return None;
    }
    match range.end {
        Some(e) => {
            if e < range.start {
                return None;
            }
            let end = if e < size - 1 {
                e
            } else {
                size - 1
            };
            Some((range.start, end))
        },
        None => Some((range.start, size - 1)),
    }
}

/// A closed range wholly inside the file is served exactly: the window is
/// `[a, b]` and spans `b - a + 1` bytes.
pub proof fn lemma_exact_range(a: u64, b: u64, size: u64)
    requires
        a <= b < size,
    ensures
        spec_satisfiable(a, Some(b), size),
        spec_range_end(Some(b), size) == b,
        spec_range_end(Some(b), size) - a + 1 == b - a + 1,
{
}

} // verus!
