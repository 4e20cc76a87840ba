use vstd::prelude::*;

use crate::scan::str_eq;

verus! {

/// The request methods the server distinguishes.
#[derive(Debug, Clone, Copy, PartialEq, Eq, Structural)]
pub enum Method {
    Get,
    Head,
    Options,
    Put,
    Delete,
    Propfind,
    Proppatch,
    Mkcol,
    Copy,
    Move,
    Lock,
    Unlock,
    Other,
}

/// Which method a request line names; anything unknown is `Other`.
pub open spec fn spec_parse_method(s: Seq<char>) -> Method {
    if s == seq!['G', 'E', 'T'] {
        Method::Get
    } else if s == seq!['H', 'E', 'A', 'D'] {
        Method::Head
    } else if s == seq!['O', 'P', 'T', 'I', 'O', 'N', 'S'] {
        Method::Options
    } else if s == seq!['P', 'U', 'T'] {
        Method::Put
    } else if s == seq!['D', 'E', 'L', 'E', 'T', 'E'] {
        Method::Delete
    } else if s == seq!['P', 'R', 'O', 'P', 'F', 'I', 'N', 'D'] {
        Method::Propfind
    } else if s == seq!['P', 'R', 'O', 'P', 'P', 'A', 'T', 'C', 'H'] {
        Method::Proppatch
    } else if s == seq!['M', 'K', 'C', 'O', 'L'] {
        Method::Mkcol
    } else if s == seq!['C', 'O', 'P', 'Y'] {
        Method::Copy
    } else if s == seq!['M', 'O', 'V', 'E'] {
        Method::Move
    } else if s == seq!['L', 'O', 'C', 'K'] {
        Method::Lock
    } else if s == seq!['U', 'N', 'L', 'O', 'C', 'K'] {
        Method::Unlock
    } else {
        Method::Other
    }
}

/// Methods that only read: `GET`, `HEAD`, `OPTIONS`, `PROPFIND`.
pub open spec fn spec_is_read_only(m: Method) -> bool {
    m == Method::Get || m == Method::Head || m == Method::Options || m == Method::Propfind
}

/// Parse a request method name.
pub fn parse_method(s: &str) -> (r: Method)
    ensures
        r == spec_parse_method(s@),
{
    proof {
        reveal_strlit("GET");
        reveal_strlit("HEAD");
        reveal_strlit("OPTIONS");
        reveal_strlit("PUT");
        reveal_strlit("DELETE");
        reveal_strlit("PROPFIND");
        reveal_strlit("PROPPATCH");
        reveal_strlit("MKCOL");
        reveal_strlit("COPY");
        reveal_strlit("MOVE");
        reveal_strlit("LOCK");
        reveal_strlit("UNLOCK");
        assert("GET"@ =~= seq!['G', 'E', 'T']);
        assert("HEAD"@ =~= seq!['H', 'E', 'A', 'D']);
        assert("OPTIONS"@ =~= seq!['O', 'P', 'T', 'I', 'O', 'N', 'S']);
        assert("PUT"@ =~= seq!['P', 'U', 'T']);
        assert("DELETE"@ =~= seq!['D', 'E', 'L', 'E', 'T', 'E']);
        assert("PROPFIND"@ =~= seq!['P', 'R', 'O', 'P', 'F', 'I', 'N', 'D']);
        assert("PROPPATCH"@ =~= seq!['P', 'R', 'O', 'P', 'P', 'A', 'T', 'C', 'H']);
        assert("MKCOL"@ =~= seq!['M', 'K', 'C', 'O', 'L']);
        assert("COPY"@ =~= seq!['C', 'O', 'P', 'Y']);
        assert("MOVE"@ =~= seq!['M', 'O', 'V', 'E']);
        assert("LOCK"@ =~= seq!['L', 'O', 'C', 'K']);
        assert("UNLOCK"@ =~= seq!['U', 'N', 'L', 'O', 'C', 'K']);
    }
    if str_eq(s, "GET") {
        Method::Get
    } else if str_eq(s, "HEAD") {
        Method::Head
    } else if str_eq(s, "OPTIONS") {
        Method::Options
    } else if str_eq(s, "PUT") {
        Method::Put
    } else if str_eq(s, "DELETE") {
        Method::Delete
    } else if str_eq(s, "PROPFIND") {
        Method::Propfind
    } else if str_eq(s, "PROPPATCH") {
        Method::Proppatch
    } else if str_eq(s, "MKCOL") {
        Method::Mkcol
    } else if str_eq(s, "COPY") {
        Method::Copy
    } else if str_eq(s, "MOVE") {
        Method::Move
    } else if str_eq(s, "LOCK") {
        Method::Lock
    } else if str_eq(s, "UNLOCK") {
        Method::Unlock
    } else {
        Method::Other
    }
}

/// Whether a method only reads.
pub fn is_read_only(m: &Method) -> (r: bool)
    ensures
        r == spec_is_read_only(*m),
{
    match m {
        Method::Get | Method::Head | Method::Options | Method::Propfind => true,
        _ => false,
    }
}

} // verus!
