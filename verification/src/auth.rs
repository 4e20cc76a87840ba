use vstd::prelude::*;

use crate::scan::{find_char, occurs_at, spec_find, str_eq};
use crate::shim::{base64_decode, base64_decode_of, md5_bytes, md5_of, string_push, uuid_v4_simple};
use vstd::utf8::encode_utf8;

verus! {

/// One user of an access rule.
pub struct Account {
    pub user: String,
    pub pass: String,
}

/// One access rule: a path prefix, the accounts allowed through it, and
/// whether anonymous read access is granted.
pub struct AccessRule {
    pub path: String,
    pub accounts: Vec<Account>,
    pub anonymous: bool,
}

/// The ordered rule list that requests are matched against.
pub struct AccessControl {
    pub rules: Vec<AccessRule>,
}

/// The two challenge schemes.
#[derive(Debug, Clone, Copy, PartialEq, Eq, Structural)]
pub enum AuthMethod {
    Basic,
    Digest,
}

/// The outcome of access control for one request.
#[derive(Debug, Clone, Copy, PartialEq, Eq, Structural)]
pub enum GuardType {
    Pass,
    ReadOnly,
    Reject,
}

impl GuardType {
    /// Whether the request must be answered with a challenge.
    pub fn is_reject(&self) -> (r: bool)
        ensures
            r == (*self == GuardType::Reject),
    {
        match self {
            GuardType::Reject => true,
            _ => false,
        }
    }
}

/// The lowercase hexadecimal digit byte for a value in 0..16.
pub open spec fn hex_lower_char(d: int) -> u8 {
    if d < 10 {
        (48 + d) as u8
    } else {
        (87 + d) as u8
    }
}

/// Lowercase hexadecimal rendering of a byte string.
pub open spec fn spec_hex_lower(b: Seq<u8>) -> Seq<u8>
    decreases b.len(),
{
    if b.len() == 0 {
        Seq::empty()
    } else {
        seq![hex_lower_char(b[0] as int / 16), hex_lower_char(b[0] as int % 16)] + spec_hex_lower(
            b.skip(1),
        )
    }
}

fn hex_lower_from(b: &Vec<u8>, i: usize) -> (r: Vec<u8>)
    requires
        i <= b@.len(),
    ensures
        r@ == spec_hex_lower(b@.skip(i as int)),
    decreases b@.len() - i,
{
    if i == b.len() {
        assert(b@.skip(i as int) =~= Seq::<u8>::empty());
        Vec::new()
    } else {
        let x = b[i];
        let mut v: Vec<u8> = Vec::new();
        let hi = x / 16;
        let lo = x % 16;
        v.push(if hi < 10 { 48 + hi } else { 87 + hi });
        v.push(if lo < 10 { 48 + lo } else { 87 + lo });
        let mut rest = hex_lower_from(b, i + 1);
        v.append(&mut rest);
        proof {
            let s = b@.skip(i as int);
            assert(s[0] == b@[i as int]);
            assert(s.skip(1) =~= b@.skip(i as int + 1));
            assert(v@ =~= seq![hex_lower_char(s[0] as int / 16), hex_lower_char(s[0] as int % 16)]
                + spec_hex_lower(s.skip(1)));
        }
        v
    }
}

/// Render a byte string in lowercase hexadecimal.
pub fn hex_lower(b: &Vec<u8>) -> (r: Vec<u8>)
    ensures
        r@ == spec_hex_lower(b@),
{
    let r = hex_lower_from(b, 0);
    assert(b@.skip(0) =~= b@);
    r
}

/// Append a copy of `src` to `dst`.
pub fn push_bytes(dst: &mut Vec<u8>, src: &Vec<u8>)
    ensures
        final(dst)@ == old(dst)@ + src@,
{
    let mut i: usize = 0;
    while i < src.len()
        invariant
            i <= src@.len(),
            dst@ == old(dst)@ + src@.take(i as int),
        decreases src@.len() - i,
    {
        dst.push(src[i]);
        assert(dst@ =~= old(dst)@ + src@.take(i + 1));
        i = i + 1;
    }
    assert(old(dst)@ + src@.take(src@.len() as int) =~= old(dst)@ + src@);
}

/// Compare two byte strings without leaving early, as credential checks
/// should.
pub fn ct_bytes_eq(a: &Vec<u8>, b: &Vec<u8>) -> (r: bool)
    ensures
        r == (a@ == b@),
{
    if a.len() != b.len() {
        assert(a@ != b@);
        return false;
    }
    let mut ok = true;
    let mut i: usize = 0;
    while i < a.len()
        invariant
            i <= a@.len(),
            a@.len() == b@.len(),
            ok == (forall|j: int| 0 <= j < i ==> a@[j] == b@[j]),
        decreases a@.len() - i,
    {
        let same = a[i] == b[i];
        proof {
            if ok && same {
                assert(forall|j: int| 0 <= j < i + 1 ==> a@[j] == b@[j]);
            }
            if !same {
                assert(!(forall|j: int| 0 <= j < i + 1 ==> a@[j] == b@[j]));
            }
            if !ok {
                let w = choose|j: int| 0 <= j < i && a@[j] != b@[j];
                assert(!(forall|j: int| 0 <= j < i + 1 ==> a@[j] == b@[j]));
            }
        }
        ok = ok && same;
        i = i + 1;
    }
    proof {
        if ok {
            assert(a@ =~= b@);
        }
    }
    ok
}

/// The colon byte that joins credential parts.
pub open spec fn colon() -> Seq<u8> {
    seq![58u8]
}

/// The authentication realm, as characters.
pub open spec fn realm_chars() -> Seq<char> {
    seq!['D', 'U', 'F', 'S']
}

/// A Basic credential is accepted when the base64 token decodes exactly to
/// `user:pass` in UTF-8.
pub open spec fn spec_basic_ok(token: Seq<char>, user: Seq<char>, pass: Seq<char>) -> bool {
    base64_decode_of(token) == Some(encode_utf8(user) + colon() + encode_utf8(pass))
}

/// Check a Basic token against one account.
pub fn basic_ok(token: &str, acct: &Account) -> (r: bool)
    ensures
        r == spec_basic_ok(token@, acct.user@, acct.pass@),
{
    let decoded = match base64_decode(token) {
        Some(v) => v,
        None => {
            return false;
        },
    };
    let mut expected = acct.user.as_str().as_bytes_vec();
    expected.push(58);
    let pb = acct.pass.as_str().as_bytes_vec();
    push_bytes(&mut expected, &pb);
    assert(expected@ =~= encode_utf8(acct.user@) + colon() + encode_utf8(acct.pass@));
    ct_bytes_eq(&decoded, &expected)
}

/// The challenge line for a scheme: `Basic realm="DUFS"`, or
/// `Digest realm="DUFS", nonce="<nonce>", qop="auth"`, with `, stale=true`
/// appended when re-challenging.
pub open spec fn spec_www_auth(method: AuthMethod, nonce: Seq<char>, stale: bool) -> Seq<char> {
    let base = if method == AuthMethod::Basic {
        "Basic realm=\"DUFS\""@
    } else {
        "Digest realm=\"DUFS\", nonce=\""@ + nonce + "\", qop=\"auth\""@
    };
    if stale {
        base + ", stale=true"@
    } else {
        base
    }
}

/// Render the `WWW-Authenticate` challenge for a scheme and nonce.
pub fn generate_www_auth_with(method: &AuthMethod, nonce: &str, stale: bool) -> (r: String)
    ensures
        r@ == spec_www_auth(*method, nonce@, stale),
{
    let mut s = match method {
        AuthMethod::Basic => String::from_str("Basic realm=\"DUFS\""),
        AuthMethod::Digest => {
            let mut d = String::from_str("Digest realm=\"DUFS\", nonce=\"");
            d.append(nonce);
            d.append("\", qop=\"auth\"");
            d
        },
    };
    if stale {
        s.append(", stale=true");
    }
    s
}

/// Render a fresh challenge: for Digest, the nonce is a new random 32-digit
/// value; whatever it is, the challenge has the stated shape.
pub fn generate_www_auth(method: &AuthMethod, stale: bool) -> (r: String)
    ensures
        exists|nonce: Seq<char>|
            r@ == spec_www_auth(*method, nonce, stale) && nonce.len() == 32,
{
    let nonce = uuid_v4_simple();
    let r = generate_www_auth_with(method, nonce.as_str(), stale);
    proof {
        assert(r@ == spec_www_auth(*method, nonce@, stale) && nonce@.len() == 32);
    }
    r
}

/// Characters that may precede a parameter name in a header value.
pub open spec fn is_sep(c: char) -> bool {
    c == ' ' || c == ','
}

/// `pat` occurs at `i` and starts a parameter there: it sits at the front or
/// right after a separator.
pub open spec fn param_at(s: Seq<char>, pat: Seq<char>, i: int) -> bool {
    occurs_at(s, pat, i) && (i == 0 || is_sep(s[i - 1]))
}

/// `i` is the first position where `pat` starts a parameter.
pub open spec fn first_param_at(s: Seq<char>, pat: Seq<char>, i: int) -> bool {
    param_at(s, pat, i) && forall|j: int| 0 <= j < i ==> !param_at(s, pat, j)
}

/// The value of parameter `key` in a header value: the text after `key=`,
/// up to the closing quote when quoted, else up to the next comma.
pub open spec fn spec_param(s: Seq<char>, key: Seq<char>) -> Option<Seq<char>> {
    let pat = key + seq!['='];
    if exists|i: int| first_param_at(s, pat, i) {
        let i = choose|i: int| first_param_at(s, pat, i);
        let vs = i + pat.len();
        if vs < s.len() && s[vs] == '"' {
            match spec_find(s.skip(vs + 1), '"') {
                Some(j) => Some(s.skip(vs + 1).take(j)),
                None => None,
            }
        } else {
            match spec_find(s.skip(vs), ',') {
                Some(j) => Some(s.skip(vs).take(j)),
                None => Some(s.skip(vs)),
            }
        }
    } else {
        None
    }
}

/// Extract the value of parameter `key` from a header value.
pub fn header_param(s: &str, key: &str) -> (r: Option<String>)
    requires
        key@.len() < 10000,
    ensures
        match r {
            Some(v) => spec_param(s@, key@) == Some(v@),
            None => spec_param(s@, key@) is None,
        },
{
    let len = s.unicode_len();
    let klen = key.unicode_len();
    let mut pat = String::from_str(key);
    string_push(&mut pat, '=');
    let patlen = klen + 1;
    assert(pat@ =~= key@ + seq!['=']);
    let ghost gpat = key@ + seq!['='];
    if patlen > len {
        proof {
            if exists|i: int| first_param_at(s@, gpat, i) {
                let w = choose|i: int| first_param_at(s@, gpat, i);
                assert(w + gpat.len() <= s@.len());
            }
        }
        return None;
    }
    let mut i: usize = 0;
    let mut hit: usize = 0;
    let mut found = false;
    while i <= len - patlen && !found
        invariant
            len == s@.len(),
            klen == key@.len(),
            patlen == klen + 1 <= len,
            pat@ == gpat,
            gpat == key@ + seq!['='],
            i <= len - patlen + 1,
            !found ==> forall|k: int| 0 <= k < i ==> !param_at(s@, gpat, k),
            found ==> first_param_at(s@, gpat, hit as int) && hit == i,
        decreases len - patlen + 1 - i, (if found { 0int } else { 1int }),
    {
        let boundary = if i == 0 {
            true
        } else {
            let c = s.get_char(i - 1);
            c == ' ' || c == ','
        };
        if boundary {
            assert(i + patlen <= len);
            let sub = s.substring_char(i, i + patlen);
            assert(gpat.len() == patlen);
            assert(sub@ == s@.subrange(i as int, i + patlen));
            if str_eq(sub, pat.as_str()) {
                assert(occurs_at(s@, gpat, i as int));
                assert(param_at(s@, gpat, i as int));
                hit = i;
                found = true;
            } else {
                assert(!occurs_at(s@, gpat, i as int));
                i = i + 1;
            }
        } else {
            assert(!param_at(s@, gpat, i as int));
            i = i + 1;
        }
    }
    if !found {
        proof {
            if exists|k: int| first_param_at(s@, gpat, k) {
                let w = choose|k: int| first_param_at(s@, gpat, k);
                assert(w + gpat.len() <= s@.len());
                assert(!param_at(s@, gpat, w));
            }
        }
        return None;
    }
    proof {
        assert(first_param_at(s@, gpat, hit as int));
        let w = choose|k: int| first_param_at(s@, gpat, k);
        if w < hit {
            assert(!param_at(s@, gpat, w));
        }
        if w > hit {
            assert(!param_at(s@, gpat, hit as int));
        }
        assert(w == hit);
    }
    let vs = hit + patlen;
    if vs < len && s.get_char(vs) == '"' {
        let rest = s.substring_char(vs + 1, len);
        assert(rest@ =~= s@.skip(vs + 1));
        match find_char(rest, '"') {
            Some(j) => {
                let v = rest.substring_char(0, j);
                assert(v@ =~= rest@.take(j as int));
                Some(v.to_owned())
            },
            None => None,
        }
    } else {
        let rest = s.substring_char(vs, len);
        assert(rest@ =~= s@.skip(vs as int));
        match find_char(rest, ',') {
            Some(j) => {
                let v = rest.substring_char(0, j);
                assert(v@ =~= rest@.take(j as int));
                Some(v.to_owned())
            },
            None => Some(rest.to_owned()),
        }
    }
}

/// The first Digest hash: `MD5(user:realm:pass)` in lowercase hex.
pub open spec fn spec_ha1(user: Seq<char>, pass: Seq<char>) -> Seq<u8> {
    spec_hex_lower(
        md5_of(
            encode_utf8(user) + colon() + encode_utf8(realm_chars()) + colon() + encode_utf8(pass),
        ),
    )
}

/// The second Digest hash: `MD5(method:uri)` in lowercase hex.
pub open spec fn spec_ha2(method: Seq<char>, uri: Seq<char>) -> Seq<u8> {
    spec_hex_lower(md5_of(encode_utf8(method) + colon() + encode_utf8(uri)))
}

/// A Digest credential is accepted when its `response` parameter equals the
/// recomputation from the account's password: with `qop=auth`,
/// `MD5(HA1:nonce:nc:cnonce:qop:HA2)`; without `qop`, `MD5(HA1:nonce:HA2)`.
pub open spec fn spec_digest_ok(
    h: Seq<char>,
    method: Seq<char>,
    user: Seq<char>,
    pass: Seq<char>,
) -> bool {
    match spec_param(h, seq!['u', 's', 'e', 'r', 'n', 'a', 'm', 'e']) {
        None => false,
        Some(u) => if u != user {
            false
        } else {
            match spec_param(h, seq!['n', 'o', 'n', 'c', 'e']) {
                None => false,
                Some(n) => match spec_param(h, seq!['u', 'r', 'i']) {
                    None => false,
                    Some(ur) => match spec_param(h, seq!['r', 'e', 's', 'p', 'o', 'n', 's', 'e']) {
                        None => false,
                        Some(resp) => {
                            let ha1 = spec_ha1(user, pass);
                            let ha2 = spec_ha2(method, ur);
                            match spec_param(h, seq!['q', 'o', 'p']) {
                                None => encode_utf8(resp) == spec_hex_lower(
                                    md5_of(ha1 + colon() + encode_utf8(n) + colon() + ha2),
                                ),
                                Some(q) => if q != seq!['a', 'u', 't', 'h'] {
                                    false
                                } else {
                                    match spec_param(h, seq!['n', 'c']) {
                                        None => false,
                                        Some(nc) => match spec_param(
                                            h,
                                            seq!['c', 'n', 'o', 'n', 'c', 'e'],
                                        ) {
                                            None => false,
                                            Some(cn) => encode_utf8(resp) == spec_hex_lower(
                                                md5_of(
                                                    ha1 + colon() + encode_utf8(n) + colon()
                                                        + encode_utf8(nc) + colon() + encode_utf8(
                                                        cn,
                                                    ) + colon() + encode_utf8(q) + colon() + ha2,
                                                ),
                                            ),
                                        },
                                    }
                                },
                            }
                        },
                    },
                },
            }
        },
    }
}

/// Check a Digest credential (the header value after `Digest `) against one
/// account.
pub fn digest_ok(h: &str, method: &str, acct: &Account) -> (r: bool)
    ensures
        r == spec_digest_ok(h@, method@, acct.user@, acct.pass@),
{
    proof {
        reveal_strlit("username");
        reveal_strlit("nonce");
        reveal_strlit("uri");
        reveal_strlit("response");
        reveal_strlit("qop");
        reveal_strlit("nc");
        reveal_strlit("cnonce");
        reveal_strlit("auth");
        reveal_strlit("DUFS");
        assert("username"@ =~= seq!['u', 's', 'e', 'r', 'n', 'a', 'm', 'e']);
        assert("nonce"@ =~= seq!['n', 'o', 'n', 'c', 'e']);
        assert("uri"@ =~= seq!['u', 'r', 'i']);
        assert("response"@ =~= seq!['r', 'e', 's', 'p', 'o', 'n', 's', 'e']);
        assert("qop"@ =~= seq!['q', 'o', 'p']);
        assert("nc"@ =~= seq!['n', 'c']);
        assert("cnonce"@ =~= seq!['c', 'n', 'o', 'n', 'c', 'e']);
        assert("auth"@ =~= seq!['a', 'u', 't', 'h']);
        assert("DUFS"@ =~= realm_chars());
    }
    let username = match header_param(h, "username") {
        Some(v) => v,
        None => {
            return false;
        },
    };
    if !str_eq(username.as_str(), acct.user.as_str()) {
        return false;
    }
    let nonce = match header_param(h, "nonce") {
        Some(v) => v,
        None => {
            return false;
        },
    };
    let uri = match header_param(h, "uri") {
        Some(v) => v,
        None => {
            return false;
        },
    };
    let response = match header_param(h, "response") {
        Some(v) => v,
        None => {
            return false;
        },
    };
    let mut a1: Vec<u8> = acct.user.as_str().as_bytes_vec();
    a1.push(58);
    let realm = "DUFS".as_bytes_vec();
    push_bytes(&mut a1, &realm);
    a1.push(58);
    let pb = acct.pass.as_str().as_bytes_vec();
    push_bytes(&mut a1, &pb);
    assert(a1@ =~= encode_utf8(acct.user@) + colon() + encode_utf8(realm_chars()) + colon()
        + encode_utf8(acct.pass@));
    let d1 = md5_bytes(&a1);
    let ha1 = hex_lower(&d1);
    let mut a2: Vec<u8> = method.as_bytes_vec();
    a2.push(58);
    let ub = uri.as_str().as_bytes_vec();
    push_bytes(&mut a2, &ub);
    assert(a2@ =~= encode_utf8(method@) + colon() + encode_utf8(uri@));
    let d2 = md5_bytes(&a2);
    let ha2 = hex_lower(&d2);
    let resp_bytes = response.as_str().as_bytes_vec();
    match header_param(h, "qop") {
        None => {
            let mut a3: Vec<u8> = Vec::new();
            push_bytes(&mut a3, &ha1);
            a3.push(58);
            let nb = nonce.as_str().as_bytes_vec();
            push_bytes(&mut a3, &nb);
            a3.push(58);
            push_bytes(&mut a3, &ha2);
            assert(a3@ =~= spec_ha1(acct.user@, acct.pass@) + colon() + encode_utf8(nonce@)
                + colon() + spec_ha2(method@, uri@));
            let d3 = md5_bytes(&a3);
            let expected = hex_lower(&d3);
            ct_bytes_eq(&resp_bytes, &expected)
        },
        Some(q) => {
            if !str_eq(q.as_str(), "auth") {
                return false;
            }
            let nc = match header_param(h, "nc") {
                Some(v) => v,
                None => {
                    return false;
                },
            };
            let cnonce = match header_param(h, "cnonce") {
                Some(v) => v,
                None => {
                    return false;
                },
            };
            let mut a3: Vec<u8> = Vec::new();
            push_bytes(&mut a3, &ha1);
            a3.push(58);
            let nb = nonce.as_str().as_bytes_vec();
            push_bytes(&mut a3, &nb);
            a3.push(58);
            let ncb = nc.as_str().as_bytes_vec();
            push_bytes(&mut a3, &ncb);
            a3.push(58);
            let cnb = cnonce.as_str().as_bytes_vec();
            push_bytes(&mut a3, &cnb);
            a3.push(58);
            let qb = q.as_str().as_bytes_vec();
            push_bytes(&mut a3, &qb);
            a3.push(58);
            push_bytes(&mut a3, &ha2);
            assert(a3@ =~= spec_ha1(acct.user@, acct.pass@) + colon() + encode_utf8(nonce@)
                + colon() + encode_utf8(nc@) + colon() + encode_utf8(cnonce@) + colon()
                + encode_utf8(q@) + colon() + spec_ha2(method@, uri@));
            let d3 = md5_bytes(&a3);
            let expected = hex_lower(&d3);
            ct_bytes_eq(&resp_bytes, &expected)
        },
    }
}

/// A rule path matches a request path when it is a component-wise prefix: the
/// whole path, or a prefix that ends at a `/`.
pub open spec fn spec_rule_matches(rule: Seq<char>, path: Seq<char>) -> bool {
    path.len() >= rule.len() && path.take(rule.len() as int) == rule && (path.len() == rule.len()
        || (rule.len() > 0 && rule[rule.len() - 1] == '/') || path[rule.len() as int] == '/')
}

/// Whether one rule path matches a request path.
pub fn rule_matches(rule: &str, path: &str) -> (r: bool)
    ensures
        r == spec_rule_matches(rule@, path@),
{
    let rlen = rule.unicode_len();
    let plen = path.unicode_len();
    if plen < rlen {
        return false;
    }
    let head = path.substring_char(0, rlen);
    if !str_eq(head, rule) {
        assert(path@.take(rlen as int) != rule@);
        return false;
    }
    if plen == rlen {
        return true;
    }
    if rlen > 0 && rule.get_char(rlen - 1) == '/' {
        return true;
    }
    path.get_char(rlen) == '/'
}

/// The first rule with the longest matching path prefix, scanning from `i`.
pub open spec fn spec_best_from(rules: Seq<AccessRule>, path: Seq<char>, i: int) -> Option<int>
    decreases rules.len() - i,
{
    if i < 0 || i >= rules.len() {
        None
    } else {
        let rest = spec_best_from(rules, path, i + 1);
        if !spec_rule_matches(rules[i].path@, path) {
            rest
        } else {
            match rest {
                None => Some(i),
                Some(j) => if rules[j].path@.len() > rules[i].path@.len() {
                    Some(j)
                } else {
                    Some(i)
                },
            }
        }
    }
}

fn best_rule_from(rules: &Vec<AccessRule>, path: &str, i: usize) -> (r: Option<usize>)
    requires
        i <= rules@.len(),
    ensures
        match r {
            Some(j) => spec_best_from(rules@, path@, i as int) == Some(j as int) && i <= j
                < rules@.len(),
            None => spec_best_from(rules@, path@, i as int) is None,
        },
    decreases rules@.len() - i,
{
    if i == rules.len() {
        return None;
    }
    let rest = best_rule_from(rules, path, i + 1);
    if !rule_matches(rules[i].path.as_str(), path) {
        rest
    } else {
        match rest {
            None => Some(i),
            Some(j) => if rules[j].path.as_str().unicode_len() > rules[i].path.as_str().unicode_len() {
                Some(j)
            } else {
                Some(i)
            },
        }
    }
}

/// What access control decides for one request, given the rule list, the
/// request path and method, the `Authorization` header if any, and the
/// configured scheme.
pub open spec fn spec_guard(
    rules: Seq<AccessRule>,
    path: Seq<char>,
    method: Seq<char>,
    authorization: Option<Seq<char>>,
    scheme: AuthMethod,
) -> GuardType {
    match spec_best_from(rules, path, 0) {
        None => GuardType::Pass,
        Some(j) => {
            let rule = rules[j];
            if crate::method::spec_parse_method(method) == crate::method::Method::Options {
                GuardType::ReadOnly
            } else if rule.anonymous && crate::method::spec_is_read_only(
                crate::method::spec_parse_method(method),
            ) {
                GuardType::ReadOnly
            } else {
                match authorization {
                    None => GuardType::Reject,
                    Some(h) => match scheme {
                        AuthMethod::Basic => if h.len() >= 6 && h.take(6) == seq![
                            'B',
                            'a',
                            's',
                            'i',
                            'c',
                            ' ',
                        ] && (exists|k: int|
                            0 <= k < rule.accounts@.len() && spec_basic_ok(
                                h.skip(6),
                                rule.accounts@[k].user@,
                                rule.accounts@[k].pass@,
                            )) {
                            GuardType::Pass
                        } else {
                            GuardType::Reject
                        },
                        AuthMethod::Digest => if h.len() >= 7 && h.take(7) == seq![
                            'D',
                            'i',
                            'g',
                            'e',
                            's',
                            't',
                            ' ',
                        ] && (exists|k: int|
                            0 <= k < rule.accounts@.len() && spec_digest_ok(
                                h.skip(7),
                                method,
                                rule.accounts@[k].user@,
                                rule.accounts@[k].pass@,
                            )) {
                            GuardType::Pass
                        } else {
                            GuardType::Reject
                        },
                    },
                }
            }
        },
    }
}

impl AccessControl {
    /// Decide whether a request passes, passes read-only, or must be
    /// challenged.
    #[verifier::loop_isolation(false)]
    pub fn guard(
        &self,
        path: &str,
        method: &str,
        authorization: Option<&str>,
        scheme: &AuthMethod,
    ) -> (r: GuardType)
        ensures
            r == spec_guard(
                self.rules@,
                path@,
                method@,
                crate::cache::opt_view(authorization),
                *scheme,
            ),
    {
        let j = match best_rule_from(&self.rules, path, 0) {
            Some(j) => j,
            None => {
                return GuardType::Pass;
            },
        };
        let rule = &self.rules[j];
        let m = crate::method::parse_method(method);
        if matches!(m, crate::method::Method::Options) {
            return GuardType::ReadOnly;
        }
        if rule.anonymous {
            if crate::method::is_read_only(&m) {
                return GuardType::ReadOnly;
            }
        }
        let h = match authorization {
            Some(h) => h,
            None => {
                return GuardType::Reject;
            },
        };
        let hlen = h.unicode_len();
        match scheme {
            AuthMethod::Basic => {
                proof {
                    reveal_strlit("Basic ");
                    assert("Basic "@ =~= seq!['B', 'a', 's', 'i', 'c', ' ']);
                }
                if hlen < 6 {
                    return GuardType::Reject;
                }
                let head = h.substring_char(0, 6);
                if !str_eq(head, "Basic ") {
                    assert(h@.take(6) != seq!['B', 'a', 's', 'i', 'c', ' ']);
                    return GuardType::Reject;
                }
                let token = h.substring_char(6, hlen);
                assert(token@ =~= h@.skip(6));
                let mut k: usize = 0;
                while k < rule.accounts.len()
                    invariant
                        k <= rule.accounts@.len(),
                        forall|x: int|
                            0 <= x < k ==> !spec_basic_ok(
                                token@,
                                rule.accounts@[x].user@,
                                rule.accounts@[x].pass@,
                            ),
                    decreases rule.accounts@.len() - k,
                {
                    if basic_ok(token, &rule.accounts[k]) {
                        assert(spec_basic_ok(
                            token@,
                            rule.accounts@[k as int].user@,
                            rule.accounts@[k as int].pass@,
                        ));
                        return GuardType::Pass;
                    }
                    k = k + 1;
                }
                GuardType::Reject
            },
            AuthMethod::Digest => {
                proof {
                    reveal_strlit("Digest ");
                    assert("Digest "@ =~= seq!['D', 'i', 'g', 'e', 's', 't', ' ']);
                }
                if hlen < 7 {
                    return GuardType::Reject;
                }
                let head = h.substring_char(0, 7);
                if !str_eq(head, "Digest ") {
                    assert(h@.take(7) != seq!['D', 'i', 'g', 'e', 's', 't', ' ']);
                    return GuardType::Reject;
                }
                let token = h.substring_char(7, hlen);
                assert(token@ =~= h@.skip(7));
                let mut k: usize = 0;
                while k < rule.accounts.len()
                    invariant
                        k <= rule.accounts@.len(),
                        forall|x: int|
                            0 <= x < k ==> !spec_digest_ok(
                                token@,
                                method@,
                                rule.accounts@[x].user@,
                                rule.accounts@[x].pass@,
                            ),
                    decreases rule.accounts@.len() - k,
                {
                    if digest_ok(token, method, &rule.accounts[k]) {
                        assert(spec_digest_ok(
                            token@,
                            method@,
                            rule.accounts@[k as int].user@,
                            rule.accounts@[k as int].pass@,
                        ));
                        return GuardType::Pass;
                    }
                    k = k + 1;
                }
                GuardType::Reject
            },
        }
    }
}

/// A request without credentials is rejected whenever the matched rule does
/// not grant anonymous access: the server then answers 401 with a challenge.
/// The one method exempt is `OPTIONS`, which never requires authentication.
pub proof fn lemma_no_credentials_rejected(
    rules: Seq<AccessRule>,
    path: Seq<char>,
    method: Seq<char>,
    scheme: AuthMethod,
    j: int,
)
    requires
        spec_best_from(rules, path, 0) == Some(j),
        0 <= j < rules.len(),
        !rules[j].anonymous,
        crate::method::spec_parse_method(method) != crate::method::Method::Options,
    ensures
        spec_guard(rules, path, method, None, scheme) == GuardType::Reject,
{
}

} // verus!
