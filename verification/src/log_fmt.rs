use vstd::prelude::*;

use crate::strnum::{spec_u64_chars, u64_to_string};

verus! {

/// One piece of an access-log template: literal text, or a `$`-variable.
#[derive(Debug, Clone, PartialEq, Eq)]
pub enum LogToken {
    Lit(String),
    Var(String),
}

/// A template piece with its text as a character sequence.
pub enum LogTokenModel {
    Lit(Seq<char>),
    Var(Seq<char>),
}

/// The mathematical value of one template piece.
pub open spec fn token_model(t: LogToken) -> LogTokenModel {
    match t {
        LogToken::Lit(s) => LogTokenModel::Lit(s@),
        LogToken::Var(s) => LogTokenModel::Var(s@),
    }
}

/// The mathematical value of a parsed template.
pub open spec fn tokens_model(ts: Seq<LogToken>) -> Seq<LogTokenModel> {
    ts.map_values(|t: LogToken| token_model(t))
}

/// Characters a variable name is made of.
pub open spec fn is_var_char(c: char) -> bool {
    (97 <= c as u32 && c as u32 <= 122) || (48 <= c as u32 && c as u32 <= 57) || c == '_'
}

/// The text a token list was parsed from: literals as they stand, variables
/// behind their `$`.
pub open spec fn spec_untokenize(ts: Seq<LogTokenModel>) -> Seq<char>
    decreases ts.len(),
{
    if ts.len() == 0 {
        Seq::empty()
    } else {
        (match ts[0] {
            LogTokenModel::Lit(t) => t,
            LogTokenModel::Var(v) => seq!['$'] + v,
        }) + spec_untokenize(ts.skip(1))
    }
}

/// Shape of a faithful parse: no empty pieces, variable names made of name
/// characters only, and every variable maximal: what follows it cannot extend
/// it.
pub open spec fn token_ok(ts: Seq<LogTokenModel>, i: int) -> bool {
    match ts[i] {
        LogTokenModel::Lit(t) => t.len() > 0,
        LogTokenModel::Var(v) => v.len() > 0 && (forall|j: int| 0 <= j < v.len() ==> is_var_char(v[j]))
            && (i + 1 < ts.len() ==> match ts[i + 1] {
            LogTokenModel::Lit(t) => t.len() > 0 && !is_var_char(t[0]),
            LogTokenModel::Var(_) => true,
        }),
    }
}

/// Shape of a faithful parse, over the whole list.
pub open spec fn tokens_ok(ts: Seq<LogTokenModel>) -> bool {
    forall|i: int| 0 <= i < ts.len() ==> #[trigger] token_ok(ts, i)
}

/// Whether a character can be part of a variable name.
pub fn is_var_char_exec(c: char) -> (r: bool)
    ensures
        r == is_var_char(c),
{
    let u = c as u32;
    (97 <= u && u <= 122) || (48 <= u && u <= 57) || c == '_'
}

proof fn lemma_untokenize_push(ts: Seq<LogTokenModel>, t: LogTokenModel)
    ensures
        spec_untokenize(ts.push(t)) == spec_untokenize(ts) + (match t {
            LogTokenModel::Lit(s) => s,
            LogTokenModel::Var(v) => seq!['$'] + v,
        }),
    decreases ts.len(),
{
    let piece = match t {
        LogTokenModel::Lit(s) => s,
        LogTokenModel::Var(v) => seq!['$'] + v,
    };
    if ts.len() == 0 {
        assert(ts.push(t)[0] == t);
        assert(ts.push(t).skip(1) =~= Seq::<LogTokenModel>::empty());
        assert(spec_untokenize(Seq::<LogTokenModel>::empty()) =~= Seq::<char>::empty());
        assert(piece + Seq::<char>::empty() =~= piece);
        assert(spec_untokenize(ts.push(t)) =~= piece);
        assert(spec_untokenize(ts) + piece =~= piece);
    } else {
        lemma_untokenize_push(ts.skip(1), t);
        assert(ts.push(t)[0] == ts[0]);
        assert(ts.push(t).skip(1) =~= ts.skip(1).push(t));
        let head = match ts[0] {
            LogTokenModel::Lit(s) => s,
            LogTokenModel::Var(v) => seq!['$'] + v,
        };
        assert(spec_untokenize(ts.push(t)) == head + spec_untokenize(ts.skip(1).push(t)));
        assert(head + (spec_untokenize(ts.skip(1)) + piece) =~= (head + spec_untokenize(ts.skip(1)))
            + piece);
    }
}

/// Parse an access-log template into its pieces: `$` followed by name
/// characters starts a variable that runs as far as they do; everything else
/// is literal text. The pieces spell the template back exactly.
#[verifier::loop_isolation(false)]
pub fn parse_log_format(fmt: &str) -> (r: Vec<LogToken>)
    ensures
        spec_untokenize(tokens_model(r@)) == fmt@,
        tokens_ok(tokens_model(r@)),
{
    let len = fmt.unicode_len();
    let mut out: Vec<LogToken> = Vec::new();
    let mut i: usize = 0;
    proof {
        assert(tokens_model(out@) =~= Seq::<LogTokenModel>::empty());
        assert(spec_untokenize(tokens_model(out@)) =~= fmt@.take(0));
    }
    while i < len
        invariant
            i <= len,
            spec_untokenize(tokens_model(out@)) == fmt@.take(i as int),
            tokens_ok(tokens_model(out@)),
            (out@.len() > 0 && tokens_model(out@)[out@.len() - 1] is Var) ==> (i == len
                || !is_var_char(fmt@[i as int])),
        decreases len - i,
    {
        let ghost pre = tokens_model(out@);
        let c = fmt.get_char(i);
        let c_is_dollar = c == '$';
        let next_is_var = if i + 1 < len {
            is_var_char_exec(fmt.get_char(i + 1))
        } else {
            false
        };
        if c_is_dollar && next_is_var {
            let mut j = i + 1;
            while j < len && is_var_char_exec(fmt.get_char(j))
                invariant
                    i + 1 <= j <= len,
                    forall|k: int| i + 1 <= k < j ==> is_var_char(fmt@[k]),
                decreases len - j,
            {
                j = j + 1;
            }
            assert(j == len || !is_var_char(fmt@[j as int]));
            let name = fmt.substring_char(i + 1, j);
            assert(name@ =~= fmt@.subrange(i + 1, j as int));
            assert(name@.len() > 0 && is_var_char(name@[0]));
            out.push(LogToken::Var(name.to_owned()));
            proof {
                let t = LogTokenModel::Var(fmt@.subrange(i + 1, j as int));
                assert(tokens_model(out@) =~= pre.push(t));
                lemma_untokenize_push(pre, t);
                assert(fmt@.take(i as int) + (seq!['$'] + fmt@.subrange(i + 1, j as int))
                    =~= fmt@.take(j as int));
                assert forall|x: int| 0 <= x < pre.push(t).len() implies token_ok(pre.push(t), x) by {
                    if x < pre.len() {
                        assert(token_ok(pre, x));
                        if x + 1 < pre.len() {
                            assert(pre.push(t)[x + 1] == pre[x + 1]);
                        }
                    }
                }
            }
            i = j;
        } else {
            let mut j = i + 1;
            while j < len && fmt.get_char(j) != '$'
                invariant
                    i + 1 <= j <= len,
                    forall|k: int| i < k < j ==> fmt@[k] != '$',
                decreases len - j,
            {
                j = j + 1;
            }
            let lit = fmt.substring_char(i, j);
            assert(lit@ =~= fmt@.subrange(i as int, j as int));
            assert(lit@.len() > 0);
            out.push(LogToken::Lit(lit.to_owned()));
            proof {
                let t = LogTokenModel::Lit(fmt@.subrange(i as int, j as int));
                assert(tokens_model(out@) =~= pre.push(t));
                lemma_untokenize_push(pre, t);
                assert(fmt@.take(i as int) + fmt@.subrange(i as int, j as int) =~= fmt@.take(
                    j as int,
                ));
                assert forall|x: int| 0 <= x < pre.push(t).len() implies token_ok(pre.push(t), x) by {
                    if x < pre.len() {
                        assert(token_ok(pre, x));
                        if x + 1 < pre.len() {
                            assert(pre.push(t)[x + 1] == pre[x + 1]);
                        } else {
                            if pre[x] is Var {
                                assert(!is_var_char(fmt@[i as int]));
                                assert((fmt@.subrange(i as int, j as int))[0] == fmt@[i as int]);
                            }
                        }
                    }
                }
                if j < len {
                    assert(fmt@[j as int] == '$');
                    assert(!is_var_char(fmt@[j as int]));
                }
            }
            i = j;
        }
    }
    assert(fmt@.take(len as int) =~= fmt@);
    out
}

/// A variable name turned into a header name: underscores become hyphens.
pub open spec fn header_name_of(v: Seq<char>) -> Seq<char> {
    Seq::new(v.len(), |i: int| if v[i] == '_' {
        '-'
    } else {
        v[i]
    })
}

/// The first value under a name in a header list, or nothing rendered when it
/// is absent.
pub open spec fn spec_header_lookup(headers: Seq<(Seq<char>, Seq<char>)>, name: Seq<char>) -> Seq<
    char,
>
    decreases headers.len(),
{
    if headers.len() == 0 {
        Seq::empty()
    } else if headers[0].0 == name {
        headers[0].1
    } else {
        spec_header_lookup(headers.skip(1), name)
    }
}

/// What one variable renders to: the peer's address, the authenticated user
/// (or nothing), the request line, the status, or a request header for
/// `http_`-prefixed names; an unknown name stands as written.
pub open spec fn spec_log_var(
    name: Seq<char>,
    addr: Seq<char>,
    user: Option<Seq<char>>,
    request: Seq<char>,
    status: u16,
    headers: Seq<(Seq<char>, Seq<char>)>,
) -> Seq<char> {
    if name == "remote_addr"@ {
        addr
    } else if name == "remote_user"@ {
        match user {
            Some(u) => u,
            None => Seq::empty(),
        }
    } else if name == "request"@ {
        request
    } else if name == "status"@ {
        spec_u64_chars(status as nat)
    } else if name.len() > 5 && name.take(5) == "http_"@ {
        spec_header_lookup(headers, header_name_of(name.skip(5)))
    } else {
        seq!['$'] + name
    }
}

/// What a whole template renders to.
pub open spec fn spec_render_log(
    ts: Seq<LogTokenModel>,
    addr: Seq<char>,
    user: Option<Seq<char>>,
    request: Seq<char>,
    status: u16,
    headers: Seq<(Seq<char>, Seq<char>)>,
) -> Seq<char>
    decreases ts.len(),
{
    if ts.len() == 0 {
        Seq::empty()
    } else {
        (match ts[0] {
            LogTokenModel::Lit(t) => t,
            LogTokenModel::Var(v) => spec_log_var(v, addr, user, request, status, headers),
        }) + spec_render_log(ts.skip(1), addr, user, request, status, headers)
    }
}

/// View of a header list handed in from outside.
pub open spec fn headers_view(h: Seq<(String, String)>) -> Seq<(Seq<char>, Seq<char>)> {
    h.map_values(|p: (String, String)| (p.0@, p.1@))
}

fn header_lookup(headers: &Vec<(String, String)>, name: &str, i: usize) -> (r: String)
    requires
        i <= headers@.len(),
    ensures
        r@ == spec_header_lookup(headers_view(headers@).skip(i as int), name@),
    decreases headers@.len() - i,
{
    if i == headers.len() {
        assert(headers_view(headers@).skip(i as int) =~= Seq::<(Seq<char>, Seq<char>)>::empty());
        String::new()
    } else {
        proof {
            let hv = headers_view(headers@);
            assert(hv.skip(i as int)[0] == hv[i as int]);
            assert(hv.skip(i as int).skip(1) =~= hv.skip(i as int + 1));
        }
        if crate::scan::str_eq(headers[i].0.as_str(), name) {
            headers[i].1.clone()
        } else {
            header_lookup(headers, name, i + 1)
        }
    }
}

fn render_var(
    name: &str,
    addr: &str,
    user: Option<&str>,
    request: &str,
    status: u16,
    headers: &Vec<(String, String)>,
) -> (r: String)
    ensures
        r@ == spec_log_var(
            name@,
            addr@,
            crate::cache::opt_view(user),
            request@,
            status,
            headers_view(headers@),
        ),
{
    if crate::scan::str_eq(name, "remote_addr") {
        return addr.to_owned();
    }
    if crate::scan::str_eq(name, "remote_user") {
        return match user {
            Some(u) => u.to_owned(),
            None => String::new(),
        };
    }
    if crate::scan::str_eq(name, "request") {
        return request.to_owned();
    }
    if crate::scan::str_eq(name, "status") {
        return u64_to_string(status as u64);
    }
    let nlen = name.unicode_len();
    if nlen > 5 {
        let head = name.substring_char(0, 5);
        proof {
            reveal_strlit("http_");
        }
        if crate::scan::str_eq(head, "http_") {
            assert(name@.take(5) =~= head@);
            let tail = name.substring_char(5, nlen);
            assert(tail@ =~= name@.skip(5));
            let mut mapped = String::new();
            let mut i: usize = 0;
            while i < nlen - 5
                invariant
                    nlen == name@.len(),
                    i <= nlen - 5,
                    tail@ == name@.skip(5),
                    tail@.len() == nlen - 5,
                    mapped@ == header_name_of(tail@).take(i as int),
                decreases nlen - 5 - i,
            {
                let c = tail.get_char(i);
                let m = if c == '_' {
                    '-'
                } else {
                    c
                };
                crate::shim::string_push(&mut mapped, m);
                assert(mapped@ =~= header_name_of(tail@).take(i + 1));
                i = i + 1;
            }
            assert(header_name_of(tail@).take(header_name_of(tail@).len() as int) =~= header_name_of(
                tail@,
            ));
            let r = header_lookup(headers, mapped.as_str(), 0);
            assert(headers_view(headers@).skip(0) =~= headers_view(headers@));
            return r;
        }
        assert(name@.take(5) != "http_"@);
    }
    let mut out = String::new();
    crate::shim::string_push(&mut out, '$');
    out.append(name);
    assert(out@ =~= seq!['$'] + name@);
    out
}

fn render_log_from(
    tokens: &Vec<LogToken>,
    i: usize,
    addr: &str,
    user: Option<&str>,
    request: &str,
    status: u16,
    headers: &Vec<(String, String)>,
) -> (r: String)
    requires
        i <= tokens@.len(),
    ensures
        r@ == spec_render_log(
            tokens_model(tokens@).skip(i as int),
            addr@,
            crate::cache::opt_view(user),
            request@,
            status,
            headers_view(headers@),
        ),
    decreases tokens@.len() - i,
{
    if i == tokens.len() {
        assert(tokens_model(tokens@).skip(i as int) =~= Seq::<LogTokenModel>::empty());
        String::new()
    } else {
        proof {
            let tm = tokens_model(tokens@);
            assert(tm.skip(i as int)[0] == tm[i as int]);
            assert(tm.skip(i as int).skip(1) =~= tm.skip(i as int + 1));
        }
        let mut out = match &tokens[i] {
            LogToken::Lit(t) => t.clone(),
            LogToken::Var(v) => render_var(v.as_str(), addr, user, request, status, headers),
        };
        let rest = render_log_from(tokens, i + 1, addr, user, request, status, headers);
        out.append(rest.as_str());
        out
    }
}

/// Render one access-log line from a parsed template and the request's
/// values.
pub fn render_log(
    tokens: &Vec<LogToken>,
    addr: &str,
    user: Option<&str>,
    request: &str,
    status: u16,
    headers: &Vec<(String, String)>,
) -> (r: String)
    ensures
        r@ == spec_render_log(
            tokens_model(tokens@),
            addr@,
            crate::cache::opt_view(user),
            request@,
            status,
            headers_view(headers@),
        ),
{
    let r = render_log_from(tokens, 0, addr, user, request, status, headers);
    assert(tokens_model(tokens@).skip(0) =~= tokens_model(tokens@));
    r
}

} // verus!
