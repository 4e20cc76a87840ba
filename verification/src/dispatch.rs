use vstd::prelude::*;

use crate::auth::GuardType;
use crate::cache::{evaluate_cached, opt_view, spec_cached, spec_etag, etag_of, if_range_current,
    spec_if_range_current};
use crate::method::Method;
use crate::range::{parse_range, resolve_range, spec_parse_range, spec_range_end, spec_satisfiable,
    valid_u64};
use crate::render::{inline_disposition, spec_inline_disposition};
use crate::scan::str_eq;
use crate::shim::{format_rfc2822_ms, guess_mime, mime_of, rfc2822_of, string_push};
use crate::strnum::{parse_u64, spec_dec_value, spec_u64_chars, u64_to_string};

verus! {

/// The capability and rendering switches a server is started with.
#[derive(Debug, Clone, Copy, PartialEq, Eq, Structural)]
pub struct Flags {
    pub path_is_file: bool,
    pub allow_upload: bool,
    pub allow_delete: bool,
    pub allow_search: bool,
    pub allow_symlink: bool,
    pub render_index: bool,
    pub render_try_index: bool,
    pub render_spa: bool,
    pub enable_cors: bool,
}

/// What the dispatcher tells the caller to do for one request.
#[derive(Debug, Clone, PartialEq, Eq)]
pub enum Action {
    Favicon,
    AuthReject,
    SendFile,
    SendRootIndexFile,
    RenderIndex,
    ListDir,
    SearchDir { query: String },
    ZipDir,
    Upload,
    DeleteResource { is_dir: bool },
    Options,
    PropfindDir,
    PropfindFile,
    Proppatch,
    Mkcol,
    CopyFile,
    MoveFile,
    Lock,
    Ok200,
    Forbid,
    NotFound,
    MethodNotAllowed,
}

/// The dispatcher's outcome with the search query as a character sequence.
pub enum ActionModel {
    Favicon,
    AuthReject,
    SendFile,
    SendRootIndexFile,
    RenderIndex,
    ListDir,
    SearchDir { query: Seq<char> },
    ZipDir,
    Upload,
    DeleteResource { is_dir: bool },
    Options,
    PropfindDir,
    PropfindFile,
    Proppatch,
    Mkcol,
    CopyFile,
    MoveFile,
    Lock,
    Ok200,
    Forbid,
    NotFound,
    MethodNotAllowed,
}

/// The mathematical value of an action.
pub open spec fn action_model(a: Action) -> ActionModel {
    match a {
        Action::Favicon => ActionModel::Favicon,
        Action::AuthReject => ActionModel::AuthReject,
        Action::SendFile => ActionModel::SendFile,
        Action::SendRootIndexFile => ActionModel::SendRootIndexFile,
        Action::RenderIndex => ActionModel::RenderIndex,
        Action::ListDir => ActionModel::ListDir,
        Action::SearchDir { query } => ActionModel::SearchDir { query: query@ },
        Action::ZipDir => ActionModel::ZipDir,
        Action::Upload => ActionModel::Upload,
        Action::DeleteResource { is_dir } => ActionModel::DeleteResource { is_dir },
        Action::Options => ActionModel::Options,
        Action::PropfindDir => ActionModel::PropfindDir,
        Action::PropfindFile => ActionModel::PropfindFile,
        Action::Proppatch => ActionModel::Proppatch,
        Action::Mkcol => ActionModel::Mkcol,
        Action::CopyFile => ActionModel::CopyFile,
        Action::MoveFile => ActionModel::MoveFile,
        Action::Lock => ActionModel::Lock,
        Action::Ok200 => ActionModel::Ok200,
        Action::Forbid => ActionModel::Forbid,
        Action::NotFound => ActionModel::NotFound,
        Action::MethodNotAllowed => ActionModel::MethodNotAllowed,
    }
}

/// What one request is answered with, as a function of the method, the probed
/// resource state, the capability flags, access control's verdict, and the
/// query. The favicon is served before access control; a rejected guard is
/// challenged; a configured single-file root is always streamed; a path that
/// does not resolve, or that leaves the root without symlink permission, is
/// not found. A `GET` of a missing path is not found (unless the application
/// serves a single page), and a `PUT` aimed at a directory is forbidden.
pub open spec fn spec_dispatch(
    req_path: Seq<char>,
    method: Method,
    query: Seq<char>,
    guard: GuardType,
    path_resolved: bool,
    contained: bool,
    exists: bool,
    is_dir: bool,
    is_file: bool,
    size: u64,
    flags: Flags,
    resolved_has_ext: bool,
) -> ActionModel {
    if req_path == "/favicon.ico"@ && method == Method::Get {
        ActionModel::Favicon
    } else if guard == GuardType::Reject {
        ActionModel::AuthReject
    } else if flags.path_is_file {
        ActionModel::SendFile
    } else if !path_resolved {
        ActionModel::NotFound
    } else if !flags.allow_symlink && exists && !contained {
        ActionModel::NotFound
    } else {
        match method {
            Method::Get | Method::Head => {
                if is_dir {
                    if flags.render_try_index && query == "zip"@ {
                        ActionModel::ZipDir
                    } else if flags.render_index || flags.render_spa || flags.render_try_index {
                        ActionModel::RenderIndex
                    } else if query == "zip"@ {
                        ActionModel::ZipDir
                    } else if query.len() >= 2 && query.take(2) == "q="@ {
                        ActionModel::SearchDir { query: query.skip(2) }
                    } else {
                        ActionModel::ListDir
                    }
                } else if is_file {
                    ActionModel::SendFile
                } else if flags.render_spa {
                    if !resolved_has_ext {
                        ActionModel::SendRootIndexFile
                    } else {
                        ActionModel::NotFound
                    }
                } else {
                    ActionModel::NotFound
                }
            },
            Method::Options => ActionModel::Options,
            Method::Put => {
                if !flags.allow_upload || is_dir || (!flags.allow_delete && is_file && size > 0) {
                    ActionModel::Forbid
                } else {
                    ActionModel::Upload
                }
            },
            Method::Delete => {
                if !flags.allow_delete {
                    ActionModel::Forbid
                } else if exists {
                    ActionModel::DeleteResource { is_dir }
                } else {
                    ActionModel::NotFound
                }
            },
            Method::Propfind => {
                if is_dir {
                    ActionModel::PropfindDir
                } else if is_file {
                    ActionModel::PropfindFile
                } else {
                    ActionModel::NotFound
                }
            },
            Method::Proppatch => {
                if is_file {
                    ActionModel::Proppatch
                } else {
                    ActionModel::NotFound
                }
            },
            Method::Mkcol => {
                if !flags.allow_upload || exists {
                    ActionModel::Forbid
                } else {
                    ActionModel::Mkcol
                }
            },
            Method::Copy => {
                if !flags.allow_upload {
                    ActionModel::Forbid
                } else if !exists {
                    ActionModel::NotFound
                } else {
                    ActionModel::CopyFile
                }
            },
            Method::Move => {
                if !flags.allow_upload || !flags.allow_delete {
                    ActionModel::Forbid
                } else if !exists {
                    ActionModel::NotFound
                } else {
                    ActionModel::MoveFile
                }
            },
            Method::Lock => {
                if is_file {
                    ActionModel::Lock
                } else {
                    ActionModel::NotFound
                }
            },
            Method::Unlock => {
                if !exists {
                    ActionModel::NotFound
                } else {
                    ActionModel::Ok200
                }
            },
            Method::Other => ActionModel::MethodNotAllowed,
        }
    }
}

/// Decide what to do for one request.
pub fn dispatch(
    req_path: &str,
    method: &Method,
    query: &str,
    guard: &GuardType,
    path_resolved: bool,
    contained: bool,
    exists: bool,
    is_dir: bool,
    is_file: bool,
    size: u64,
    flags: &Flags,
    resolved_has_ext: bool,
) -> (r: Action)
    ensures
        action_model(r) == spec_dispatch(
            req_path@,
            *method,
            query@,
            *guard,
            path_resolved,
            contained,
            exists,
            is_dir,
            is_file,
            size,
            *flags,
            resolved_has_ext,
        ),
{
    proof {
        reveal_strlit("/favicon.ico");
        reveal_strlit("zip");
        reveal_strlit("q=");
    }
    if str_eq(req_path, "/favicon.ico") && matches!(method, Method::Get) {
        return Action::Favicon;
    }
    if matches!(guard, GuardType::Reject) {
        return Action::AuthReject;
    }
    if flags.path_is_file {
        return Action::SendFile;
    }
    if !path_resolved {
        return Action::NotFound;
    }
    if !flags.allow_symlink && exists && !contained {
        return Action::NotFound;
    }
    match method {
        Method::Get | Method::Head => {
            if is_dir {
                if flags.render_try_index && str_eq(query, "zip") {
                    Action::ZipDir
                } else if flags.render_index || flags.render_spa || flags.render_try_index {
                    Action::RenderIndex
                } else if str_eq(query, "zip") {
                    Action::ZipDir
                } else {
                    let qlen = query.unicode_len();
                    if qlen >= 2 {
                        let head = query.substring_char(0, 2);
                        if str_eq(head, "q=") {
                            assert(query@.take(2) =~= head@);
                            let q = query.substring_char(2, qlen);
                            assert(q@ =~= query@.skip(2));
                            return Action::SearchDir { query: q.to_owned() };
                        }
                        assert(query@.take(2) != "q="@);
                        return Action::ListDir;
                    }
                    Action::ListDir
                }
            } else if is_file {
                Action::SendFile
            } else if flags.render_spa {
                if !resolved_has_ext {
                    Action::SendRootIndexFile
                } else {
                    Action::NotFound
                }
            } else {
                Action::NotFound
            }
        },
        Method::Options => Action::Options,
        Method::Put => {
            if !flags.allow_upload || is_dir || (!flags.allow_delete && is_file && size > 0) {
                Action::Forbid
            } else {
                Action::Upload
            }
        },
        Method::Delete => {
            if !flags.allow_delete {
                Action::Forbid
            } else if exists {
                Action::DeleteResource { is_dir }
            } else {
                Action::NotFound
            }
        },
        Method::Propfind => {
            if is_dir {
                Action::PropfindDir
            } else if is_file {
                Action::PropfindFile
            } else {
                Action::NotFound
            }
        },
        Method::Proppatch => {
            if is_file {
                Action::Proppatch
            } else {
                Action::NotFound
            }
        },
        Method::Mkcol => {
            if !flags.allow_upload || exists {
                Action::Forbid
            } else {
                Action::Mkcol
            }
        },
        Method::Copy => {
            if !flags.allow_upload {
                Action::Forbid
            } else if !exists {
                Action::NotFound
            } else {
                Action::CopyFile
            }
        },
        Method::Move => {
            if !flags.allow_upload || !flags.allow_delete {
                Action::Forbid
            } else if !exists {
                Action::NotFound
            } else {
                Action::MoveFile
            }
        },
        Method::Lock => {
            if is_file {
                Action::Lock
            } else {
                Action::NotFound
            }
        },
        Method::Unlock => {
            if !exists {
                Action::NotFound
            } else {
                Action::Ok200
            }
        },
        Method::Other => Action::MethodNotAllowed,
    }
}

/// How a directory is answered when index rendering is on.
#[derive(Debug, Clone, Copy, PartialEq, Eq, Structural)]
pub enum RenderIndexAction {
    ServeIndexFile,
    ListDirectory,
    NotFound,
}

/// What a directory under index rendering gets: its `index.html` when that
/// is a file; otherwise the listing when try-index is set, else nothing.
pub open spec fn spec_render_index_action(
    index_is_file: bool,
    render_try_index: bool,
) -> RenderIndexAction {
    if index_is_file {
        RenderIndexAction::ServeIndexFile
    } else if render_try_index {
        RenderIndexAction::ListDirectory
    } else {
        RenderIndexAction::NotFound
    }
}

/// Decide how a directory under index rendering is answered.
pub fn render_index_action(index_is_file: bool, render_try_index: bool) -> (r: RenderIndexAction)
    ensures
        r == spec_render_index_action(index_is_file, render_try_index),
{
    if index_is_file {
        RenderIndexAction::ServeIndexFile
    } else if render_try_index {
        RenderIndexAction::ListDirectory
    } else {
        RenderIndexAction::NotFound
    }
}

/// The `Depth` a `PROPFIND` asks for: absent means one level, `infinity` is
/// bounded to one level, a number is itself; anything else is an error.
pub open spec fn spec_parse_depth(v: Option<Seq<char>>) -> Option<int> {
    match v {
        None => Some(1),
        Some(s) => if s == "infinity"@ {
            Some(1)
        } else if valid_u64(s) {
            Some(spec_dec_value(s))
        } else {
            None
        },
    }
}

/// Parse the `Depth` header of a `PROPFIND`.
pub fn parse_depth(v: Option<&str>) -> (r: Option<u64>)
    ensures
        match r {
            Some(d) => spec_parse_depth(opt_view(v)) == Some(d as int),
            None => spec_parse_depth(opt_view(v)) is None,
        },
{
    proof {
        reveal_strlit("infinity");
    }
    match v {
        None => Some(1),
        Some(s) => {
            if str_eq(s, "infinity") {
                Some(1)
            } else {
                parse_u64(s)
            }
        },
    }
}

/// The breadcrumb shown for a directory: its path relative to the root,
/// behind a leading slash.
pub fn breadcrumb_of(rel: &str) -> (r: String)
    ensures
        r@ == seq!['/'] + rel@,
{
    let mut out = String::new();
    string_push(&mut out, '/');
    out.append(rel);
    assert(out@ =~= seq!['/'] + rel@);
    out
}

/// How a file is answered: the status, the headers in order, and the byte
/// window to stream, if a body is owed.
pub struct FilePlan {
    pub status: u16,
    pub headers: Vec<(String, String)>,
    pub window: Option<(u64, u64)>,
}

/// The always-set headers of a file answer: media type from the path's
/// extension (or the octet-stream default), the inline disposition, range
/// support, and the two validators.
pub open spec fn spec_file_headers(path: Seq<char>, name: Seq<char>, mtime_ms: u64, size: u64) -> Seq<
    (Seq<char>, Seq<char>),
> {
    let ct = match mime_of(path) {
        Some(m) => m,
        None => "application/octet-stream"@,
    };
    seq![
        ("Content-Type"@, ct),
        ("Content-Disposition"@, spec_inline_disposition(name)),
        ("Accept-Ranges"@, "bytes"@),
        ("ETag"@, spec_etag(mtime_ms, size)),
        ("Last-Modified"@, rfc2822_of(mtime_ms as int)),
    ]
}

/// The `Content-Range` of a partial answer.
pub open spec fn spec_content_range(start: u64, end: int, size: u64) -> Seq<char> {
    "bytes "@ + spec_u64_chars(start as nat) + seq!['-'] + spec_u64_chars(end as nat) + seq!['/']
        + spec_u64_chars(size as nat)
}

/// The `Content-Range` of an unsatisfiable-range answer.
pub open spec fn spec_content_range_unsat(size: u64) -> Seq<char> {
    "bytes */"@ + spec_u64_chars(size as nat)
}

/// Whether a `Range` header is honored: only when no `If-Range` validator is
/// given or the given one is current.
pub open spec fn spec_use_range(
    range_hdr: Option<Seq<char>>,
    if_range: Option<Seq<char>>,
    mtime_ms: u64,
    size: u64,
) -> bool {
    match range_hdr {
        None => false,
        Some(_) => match if_range {
            None => true,
            Some(v) => spec_if_range_current(v, mtime_ms, size),
        },
    }
}

/// The whole file answer: 304 with the validators echoed when the request's
/// conditionals match; otherwise 206 with the exact byte window for a
/// satisfiable range, 416 for an unsatisfiable one, or 200 with the whole
/// file; a `HEAD` omits the body.
pub open spec fn spec_send_file_plan(
    path: Seq<char>,
    name: Seq<char>,
    mtime_ms: u64,
    size: u64,
    head_only: bool,
    inm: Option<Seq<char>>,
    ims: Option<Seq<char>>,
    range_hdr: Option<Seq<char>>,
    if_range: Option<Seq<char>>,
) -> (int, Seq<(Seq<char>, Seq<char>)>, Option<(u64, u64)>) {
    if spec_cached(inm, ims, mtime_ms, size) {
        (
            304,
            seq![
                ("ETag"@, spec_etag(mtime_ms, size)),
                ("Last-Modified"@, rfc2822_of(mtime_ms as int)),
            ],
            None,
        )
    } else {
        let base = spec_file_headers(path, name, mtime_ms, size);
        let range = if spec_use_range(range_hdr, if_range, mtime_ms, size) {
            spec_parse_range(range_hdr.unwrap())
        } else {
            None
        };
        match range {
            Some((start, end_opt)) => {
                if spec_satisfiable(start, end_opt, size) {
                    let end = spec_range_end(end_opt, size);
                    let part = end - start + 1;
                    (
                        206,
                        base + seq![
                            ("Content-Range"@, spec_content_range(start, end, size)),
                            ("Content-Length"@, spec_u64_chars(part as nat)),
                        ],
                        if head_only {
                            None
                        } else {
                            Some((start, part as u64))
                        },
                    )
                } else {
                    (
                        416,
                        base + seq![("Content-Range"@, spec_content_range_unsat(size))],
                        None,
                    )
                }
            },
            None => (
                200,
                base + seq![("Content-Length"@, spec_u64_chars(size as nat))],
                if head_only {
                    None
                } else {
                    Some((0u64, size))
                },
            ),
        }
    }
}

/// Plan the answer for a file request.
pub fn plan_send_file(
    path: &str,
    name: &str,
    mtime_ms: u64,
    size: u64,
    head_only: bool,
    if_none_match: Option<&str>,
    if_modified_since: Option<&str>,
    range_hdr: Option<&str>,
    if_range: Option<&str>,
) -> (r: FilePlan)
    ensures
        ({
            let plan = spec_send_file_plan(
                path@,
                name@,
                mtime_ms,
                size,
                head_only,
                opt_view(if_none_match),
                opt_view(if_modified_since),
                opt_view(range_hdr),
                opt_view(if_range),
            );
            r.status as int == plan.0 && r.window == plan.2 && r.headers@.len() == plan.1.len()
                && forall|i: int|
                0 <= i < plan.1.len() ==> r.headers@[i].0@ == plan.1[i].0 && r.headers@[i].1@
                    == plan.1[i].1
        }),
{
    let etag = etag_of(mtime_ms, size);
    let last_modified = format_rfc2822_ms(mtime_ms);
    if evaluate_cached(if_none_match, if_modified_since, mtime_ms, size) {
        let mut headers: Vec<(String, String)> = Vec::new();
        headers.push((String::from_str("ETag"), etag));
        headers.push((String::from_str("Last-Modified"), last_modified));
        return FilePlan { status: 304, headers, window: None };
    }
    let mut headers: Vec<(String, String)> = Vec::new();
    match guess_mime(path) {
        Some(m) => headers.push((String::from_str("Content-Type"), m)),
        None => headers.push(
            (String::from_str("Content-Type"), String::from_str("application/octet-stream")),
        ),
    }
    headers.push((String::from_str("Content-Disposition"), inline_disposition(name)));
    headers.push((String::from_str("Accept-Ranges"), String::from_str("bytes")));
    headers.push((String::from_str("ETag"), etag));
    headers.push((String::from_str("Last-Modified"), last_modified));
    let use_range = match range_hdr {
        None => false,
        Some(_) => match if_range {
            None => true,
            Some(v) => if_range_current(v, mtime_ms, size),
        },
    };
    let range = if use_range {
        match range_hdr {
            Some(h) => parse_range(h),
            None => None,
        }
    } else {
        None
    };
    match range {
        Some(rv) => {
            match resolve_range(&rv, size) {
                Some((start, end)) => {
                    let part = end - start + 1;
                    let mut cr = String::from_str("bytes ");
                    let s1 = u64_to_string(start);
                    cr.append(s1.as_str());
                    string_push(&mut cr, '-');
                    let s2 = u64_to_string(end);
                    cr.append(s2.as_str());
                    string_push(&mut cr, '/');
                    let s3 = u64_to_string(size);
                    cr.append(s3.as_str());
                    assert(cr@ =~= spec_content_range(start, end as int, size));
                    headers.push((String::from_str("Content-Range"), cr));
                    headers.push((String::from_str("Content-Length"), u64_to_string(part)));
                    FilePlan {
                        status: 206,
                        headers,
                        window: if head_only {
                            None
                        } else {
                            Some((start, part))
                        },
                    }
                },
                None => {
                    let mut cr = String::from_str("bytes */");
                    let s3 = u64_to_string(size);
                    cr.append(s3.as_str());
                    assert(cr@ =~= spec_content_range_unsat(size));
                    headers.push((String::from_str("Content-Range"), cr));
                    FilePlan { status: 416, headers, window: None }
                },
            }
        },
        None => {
            headers.push((String::from_str("Content-Length"), u64_to_string(size)));
            FilePlan {
                status: 200,
                headers,
                window: if head_only {
                    None
                } else {
                    Some((0, size))
                },
            }
        },
    }
}

/// A closed range wholly inside the file is served exactly: when the
/// conditionals do not match and `bytes=a-b` with `a <= b < size` is asked
/// for, the answer is 206, the streamed window starts at `a` and spans
/// `b - a + 1` bytes, and `Content-Length` says so.
pub proof fn lemma_range_served_exactly(
    path: Seq<char>,
    name: Seq<char>,
    mtime_ms: u64,
    size: u64,
    inm: Option<Seq<char>>,
    ims: Option<Seq<char>>,
    h: Seq<char>,
    a: u64,
    b: u64,
)
    requires
        a <= b < size,
        spec_parse_range(h) == Some((a, Some(b))),
        !spec_cached(inm, ims, mtime_ms, size),
    ensures
        ({
            let plan = spec_send_file_plan(
                path,
                name,
                mtime_ms,
                size,
                false,
                inm,
                ims,
                Some(h),
                None,
            );
            plan.0 == 206 && plan.2 == Some((a, (b - a + 1) as u64)) && plan.1[plan.1.len() - 1]
                == ("Content-Length"@, spec_u64_chars((b - a + 1) as nat))
        }),
{
    crate::range::lemma_exact_range(a, b, size);
}

/// An unconditional `GET` streams the file whole: whatever was stored is
/// handed back from its first byte to its last, and `Content-Length` names
/// the full size.
pub proof fn lemma_whole_file_served(path: Seq<char>, name: Seq<char>, mtime_ms: u64, size: u64)
    ensures
        ({
            let plan = spec_send_file_plan(
                path,
                name,
                mtime_ms,
                size,
                false,
                None,
                None,
                None,
                None,
            );
            plan.0 == 200 && plan.2 == Some((0u64, size)) && plan.1[plan.1.len() - 1] == (
                "Content-Length"@,
                spec_u64_chars(size as nat),
            )
        }),
{
}

/// A repeated `GET` that sends back the entity tag it received is answered
/// 304 with no body, whatever else it asks for.
pub proof fn lemma_etag_revalidation(
    path: Seq<char>,
    name: Seq<char>,
    mtime_ms: u64,
    size: u64,
    head_only: bool,
    ims: Option<Seq<char>>,
    range_hdr: Option<Seq<char>>,
    if_range: Option<Seq<char>>,
)
    ensures
        ({
            let plan = spec_send_file_plan(
                path,
                name,
                mtime_ms,
                size,
                head_only,
                Some(spec_etag(mtime_ms, size)),
                ims,
                range_hdr,
                if_range,
            );
            plan.0 == 304 && plan.2 is None
        }),
{
    crate::cache::lemma_etag_round_trip(mtime_ms, size, ims);
}

/// A path that does not resolve — a bad escape or a missing prefix — or that
/// resolves outside the root without symlink permission, is answered 404, not
/// 403: its existence is not disclosed.
pub proof fn lemma_unresolved_is_not_found(
    req_path: Seq<char>,
    method: Method,
    query: Seq<char>,
    guard: GuardType,
    path_resolved: bool,
    contained: bool,
    exists: bool,
    is_dir: bool,
    is_file: bool,
    size: u64,
    flags: Flags,
    resolved_has_ext: bool,
)
    requires
        !(req_path == "/favicon.ico"@ && method == Method::Get),
        guard != GuardType::Reject,
        !flags.path_is_file,
        !path_resolved || (!flags.allow_symlink && exists && !contained),
    ensures
        spec_dispatch(
            req_path,
            method,
            query,
            guard,
            path_resolved,
            contained,
            exists,
            is_dir,
            is_file,
            size,
            flags,
            resolved_has_ext,
        ) == ActionModel::NotFound,
{
}

/// A request without credentials for a path whose matched rule grants no
/// anonymous access is challenged, whatever it asks for — except the favicon,
/// which is served before access control, and `OPTIONS`, which never requires
/// authentication.
pub proof fn lemma_unauthenticated_is_challenged(
    rules: Seq<crate::auth::AccessRule>,
    scheme: crate::auth::AuthMethod,
    j: int,
    req_path: Seq<char>,
    method: Method,
    method_text: Seq<char>,
    query: Seq<char>,
    path_resolved: bool,
    contained: bool,
    exists: bool,
    is_dir: bool,
    is_file: bool,
    size: u64,
    flags: Flags,
    resolved_has_ext: bool,
)
    requires
        !(req_path == "/favicon.ico"@ && method == Method::Get),
        crate::auth::spec_best_from(rules, req_path, 0) == Some(j),
        0 <= j < rules.len(),
        !rules[j].anonymous,
        crate::method::spec_parse_method(method_text) != Method::Options,
    ensures
        spec_dispatch(
            req_path,
            method,
            query,
            crate::auth::spec_guard(rules, req_path, method_text, None, scheme),
            path_resolved,
            contained,
            exists,
            is_dir,
            is_file,
            size,
            flags,
            resolved_has_ext,
        ) == ActionModel::AuthReject,
{
    crate::auth::lemma_no_credentials_rejected(rules, req_path, method_text, scheme, j);
}

/// One access-log line: `<address> "<method> <uri>" - <status>`.
pub open spec fn spec_log_line(
    addr: Seq<char>,
    method: Seq<char>,
    uri: Seq<char>,
    status: u16,
) -> Seq<char> {
    addr + " \""@ + method + seq![' '] + uri + "\" - "@ + spec_u64_chars(status as nat)
}

/// Render one access-log line.
pub fn log_line(addr: &str, method: &str, uri: &str, status: u16) -> (r: String)
    ensures
        r@ == spec_log_line(addr@, method@, uri@, status),
{
    let mut out = String::from_str(addr);
    out.append(" \"");
    out.append(method);
    string_push(&mut out, ' ');
    out.append(uri);
    out.append("\" - ");
    let s = u64_to_string(status as u64);
    out.append(s.as_str());
    assert(out@ =~= spec_log_line(addr@, method@, uri@, status));
    out
}

} // verus!
