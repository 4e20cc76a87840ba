use dufs::auth::GuardType;
use dufs::dispatch::{
    dispatch, log_line, parse_depth, plan_send_file, render_index_action, Action, Flags,
    RenderIndexAction,
};
use dufs::glob::{glob_matches, is_hidden};
use dufs::method::{parse_method, Method};
use dufs::pathitem::{
    base_name_of, get_file_name, has_extension, normalize_path, sort_path_items, to_timestamp,
    PathItem, PathType,
};
use dufs::log_fmt::{parse_log_format, render_log, LogToken};
use dufs::render::{
    index_json, item_json, lock_body, make_lock_token, matches_query, multistatus_for,
    proppatch_body, render_page, zip_disposition,
};

fn flags() -> Flags {
    Flags {
        path_is_file: false,
        allow_upload: false,
        allow_delete: false,
        allow_search: false,
        allow_symlink: false,
        render_index: false,
        render_try_index: false,
        render_spa: false,
        enable_cors: false,
    }
}

fn item(path_type: PathType, name: &str, mtime: u64, size: Option<u64>) -> PathItem {
    PathItem { path_type, name: name.to_string(), mtime, size }
}

#[test]
fn methods_parse() {
    assert_eq!(parse_method("GET"), Method::Get);
    assert_eq!(parse_method("PROPFIND"), Method::Propfind);
    assert_eq!(parse_method("BREW"), Method::Other);
}

#[test]
fn get_file_serves_whole_file() {
    // A five-byte file, no conditions: 200, the whole window, exact length.
    let plan = plan_send_file("/tmp/d/hello.txt", "hello.txt", 1000, 5, false, None, None, None, None);
    assert_eq!(plan.status, 200);
    assert_eq!(plan.window, Some((0, 5)));
    let hdrs: Vec<(String, String)> = plan.headers;
    assert!(hdrs.contains(&("Content-Length".to_string(), "5".to_string())));
    assert!(hdrs.contains(&("Accept-Ranges".to_string(), "bytes".to_string())));
    assert!(hdrs.contains(&("ETag".to_string(), "\"1000-5\"".to_string())));
    assert!(hdrs.contains(&("Content-Type".to_string(), "text/plain".to_string())));
}

#[test]
fn get_file_range_partial() {
    let plan = plan_send_file(
        "/tmp/d/hello.txt", "hello.txt", 1000, 5, false, None, None, Some("bytes=1-3"), None,
    );
    assert_eq!(plan.status, 206);
    assert_eq!(plan.window, Some((1, 3)));
    assert!(plan.headers.contains(&("Content-Range".to_string(), "bytes 1-3/5".to_string())));
    assert!(plan.headers.contains(&("Content-Length".to_string(), "3".to_string())));
}

#[test]
fn get_file_unsatisfiable_range() {
    let plan = plan_send_file(
        "/tmp/d/hello.txt", "hello.txt", 1000, 5, false, None, None, Some("bytes=9-"), None,
    );
    assert_eq!(plan.status, 416);
    assert_eq!(plan.window, None);
    assert!(plan.headers.contains(&("Content-Range".to_string(), "bytes */5".to_string())));
}

#[test]
fn get_file_revalidation_yields_304() {
    let first = plan_send_file("/d/a.txt", "a.txt", 7000, 9, false, None, None, None, None);
    assert_eq!(first.status, 200);
    let etag = first
        .headers
        .iter()
        .find(|(k, _)| k == "ETag")
        .map(|(_, v)| v.clone())
        .unwrap();
    let second =
        plan_send_file("/d/a.txt", "a.txt", 7000, 9, false, Some(&etag), None, None, None);
    assert_eq!(second.status, 304);
    assert_eq!(second.window, None);
}

#[test]
fn head_omits_body() {
    let plan = plan_send_file("/d/a.txt", "a.txt", 1, 4, true, None, None, None, None);
    assert_eq!(plan.status, 200);
    assert_eq!(plan.window, None);
    assert!(plan.headers.contains(&("Content-Length".to_string(), "4".to_string())));
}

#[test]
fn if_range_stale_ignores_range() {
    let plan = plan_send_file(
        "/d/a.txt", "a.txt", 1000, 5, false, None, None, Some("bytes=1-3"), Some("\"999-5\""),
    );
    assert_eq!(plan.status, 200);
    assert_eq!(plan.window, Some((0, 5)));
}

#[test]
fn unknown_extension_is_octet_stream() {
    let plan = plan_send_file("/d/blob.weirdext", "blob.weirdext", 1, 4, true, None, None, None, None);
    assert!(plan
        .headers
        .contains(&("Content-Type".to_string(), "application/octet-stream".to_string())));
}

#[test]
fn dispatch_table_get() {
    let f = flags();
    // A present file is served.
    let a = dispatch("/a.txt", &Method::Get, "", &GuardType::Pass, true, true, true, false, true, 5, &f, true);
    assert_eq!(a, Action::SendFile);
    // A present directory is listed.
    let a = dispatch("/", &Method::Get, "", &GuardType::Pass, true, true, true, true, false, 0, &f, false);
    assert_eq!(a, Action::ListDir);
    // `?zip` on a directory streams an archive.
    let a = dispatch("/", &Method::Get, "zip", &GuardType::Pass, true, true, true, true, false, 0, &f, false);
    assert_eq!(a, Action::ZipDir);
    // `?q=` on a directory searches.
    let a = dispatch("/", &Method::Get, "q=doc", &GuardType::Pass, true, true, true, true, false, 0, &f, false);
    assert_eq!(a, Action::SearchDir { query: "doc".to_string() });
    // A missing resource is not found.
    let a = dispatch("/gone", &Method::Get, "", &GuardType::Pass, true, true, false, false, false, 0, &f, true);
    assert_eq!(a, Action::NotFound);
    // Still not found with uploads on and a trailing slash: GET of a missing
    // path discloses nothing.
    let mut fu = flags();
    fu.allow_upload = true;
    let a = dispatch("/gone/", &Method::Get, "", &GuardType::Pass, true, true, false, false, false, 0, &fu, false);
    assert_eq!(a, Action::NotFound);
}

#[test]
fn dispatch_guard_and_favicon() {
    let f = flags();
    let a = dispatch("/favicon.ico", &Method::Get, "", &GuardType::Reject, true, true, false, false, false, 0, &f, true);
    assert_eq!(a, Action::Favicon);
    let a = dispatch("/x", &Method::Get, "", &GuardType::Reject, true, true, false, false, false, 0, &f, true);
    assert_eq!(a, Action::AuthReject);
}

#[test]
fn dispatch_put_rules() {
    let mut f = flags();
    // Uploads denied without the capability.
    let a = dispatch("/a", &Method::Put, "", &GuardType::Pass, true, true, false, false, false, 0, &f, true);
    assert_eq!(a, Action::Forbid);
    f.allow_upload = true;
    // A missing target is created.
    let a = dispatch("/a/b/c.txt", &Method::Put, "", &GuardType::Pass, true, true, false, false, false, 0, &f, true);
    assert_eq!(a, Action::Upload);
    // Overwriting a nonempty file needs delete too.
    let a = dispatch("/a.txt", &Method::Put, "", &GuardType::Pass, true, true, true, false, true, 3, &f, true);
    assert_eq!(a, Action::Forbid);
    // An empty file may be overwritten.
    let a = dispatch("/a.txt", &Method::Put, "", &GuardType::Pass, true, true, true, false, true, 0, &f, true);
    assert_eq!(a, Action::Upload);
    f.allow_delete = true;
    let a = dispatch("/a.txt", &Method::Put, "", &GuardType::Pass, true, true, true, false, true, 3, &f, true);
    assert_eq!(a, Action::Upload);
    // A directory can never be the target of a PUT.
    let a = dispatch("/d", &Method::Put, "", &GuardType::Pass, true, true, true, true, false, 0, &f, false);
    assert_eq!(a, Action::Forbid);
}

#[test]
fn dispatch_webdav_rules() {
    let mut f = flags();
    f.allow_upload = true;
    f.allow_delete = true;
    let a = dispatch("/newdir", &Method::Mkcol, "", &GuardType::Pass, true, true, false, false, false, 0, &f, false);
    assert_eq!(a, Action::Mkcol);
    let a = dispatch("/newdir", &Method::Mkcol, "", &GuardType::Pass, true, true, true, true, false, 0, &f, false);
    assert_eq!(a, Action::Forbid);
    let a = dispatch("/d", &Method::Propfind, "", &GuardType::Pass, true, true, true, true, false, 0, &f, false);
    assert_eq!(a, Action::PropfindDir);
    let a = dispatch("/f", &Method::Propfind, "", &GuardType::Pass, true, true, true, false, true, 1, &f, true);
    assert_eq!(a, Action::PropfindFile);
    let a = dispatch("/f", &Method::Proppatch, "", &GuardType::Pass, true, true, true, false, true, 1, &f, true);
    assert_eq!(a, Action::Proppatch);
    let a = dispatch("/f", &Method::Copy, "", &GuardType::Pass, true, true, true, false, true, 1, &f, true);
    assert_eq!(a, Action::CopyFile);
    let a = dispatch("/gone", &Method::Copy, "", &GuardType::Pass, true, true, false, false, false, 0, &f, true);
    assert_eq!(a, Action::NotFound);
    let a = dispatch("/f", &Method::Move, "", &GuardType::Pass, true, true, true, false, true, 1, &f, true);
    assert_eq!(a, Action::MoveFile);
    let a = dispatch("/f", &Method::Lock, "", &GuardType::Pass, true, true, true, false, true, 1, &f, true);
    assert_eq!(a, Action::Lock);
    let a = dispatch("/f", &Method::Unlock, "", &GuardType::Pass, true, true, true, false, true, 1, &f, true);
    assert_eq!(a, Action::Ok200);
    let a = dispatch("/gone", &Method::Unlock, "", &GuardType::Pass, true, true, false, false, false, 0, &f, true);
    assert_eq!(a, Action::NotFound);
    let a = dispatch("/x", &Method::Other, "", &GuardType::Pass, true, true, false, false, false, 0, &f, true);
    assert_eq!(a, Action::MethodNotAllowed);
}

#[test]
fn dispatch_symlink_escape_hidden_as_not_found() {
    let f = flags();
    let a = dispatch("/link", &Method::Get, "", &GuardType::Pass, true, false, true, false, true, 5, &f, true);
    assert_eq!(a, Action::NotFound);
    // Unresolvable paths are not found either.
    let a = dispatch("/%GG", &Method::Get, "", &GuardType::Pass, false, true, false, false, false, 0, &f, true);
    assert_eq!(a, Action::NotFound);
}

#[test]
fn depth_header() {
    assert_eq!(parse_depth(None), Some(1));
    assert_eq!(parse_depth(Some("0")), Some(0));
    assert_eq!(parse_depth(Some("1")), Some(1));
    assert_eq!(parse_depth(Some("infinity")), Some(1));
    assert_eq!(parse_depth(Some("junk")), None);
}

#[test]
fn listing_sort_order() {
    let items = vec![
        item(PathType::File, "b.txt", 0, Some(1)),
        item(PathType::Dir, "zdir", 0, None),
        item(PathType::File, "a.txt", 0, Some(1)),
        item(PathType::SymlinkDir, "adir", 0, None),
        item(PathType::Dir, "adir2", 0, None),
    ];
    let sorted = sort_path_items(items);
    let names: Vec<&str> = sorted.iter().map(|p| p.name.as_str()).collect();
    assert_eq!(names, vec!["adir2", "zdir", "adir", "a.txt", "b.txt"]);
}

#[test]
fn names_and_extensions() {
    assert_eq!(base_name_of("a/b/c.txt"), "c.txt");
    assert_eq!(base_name_of("c.txt"), "c.txt");
    assert_eq!(get_file_name("/tmp/d/hello.txt").as_deref(), Some("hello.txt"));
    assert_eq!(get_file_name("a/.."), None);
    assert_eq!(get_file_name("dir/").as_deref(), Some("dir"));
    assert_eq!(get_file_name("/"), None);
    assert!(has_extension("a/b.txt"));
    assert!(!has_extension("a/b"));
    assert!(!has_extension("a.b/c"));
    assert!(!has_extension("a/.hidden"));
    assert_eq!(normalize_path("a/b"), "a/b");
    assert_eq!(to_timestamp(12, 345_000_000), 12_345);
}

#[test]
fn dav_xml_and_multistatus() {
    let d = item(PathType::Dir, "newdir", 0, None);
    let xml = multistatus_for(&vec![d], "/");
    assert!(xml.starts_with("<?xml version=\"1.0\" encoding=\"utf-8\" ?>\n<D:multistatus"));
    assert_eq!(xml.matches("<D:response>").count(), 1);
    assert!(xml.contains("<D:href>/newdir/</D:href>"));
    assert!(xml.contains("<D:resourcetype><D:collection/></D:resourcetype>"));
    assert!(!xml.contains("getcontentlength"));

    let f = item(PathType::File, "a&b.txt", 0, Some(7));
    let xml = multistatus_for(&vec![f], "/");
    assert!(xml.contains("<D:displayname>a&amp;b.txt</D:displayname>"));
    assert!(xml.contains("<D:getcontentlength>7</D:getcontentlength>"));
    assert!(xml.contains("<D:href>/a%26b.txt</D:href>"));
}

#[test]
fn proppatch_denies_everything() {
    let body = proppatch_body("/f.txt");
    assert!(body.contains("<D:href>/f.txt</D:href>"));
    assert!(body.contains("HTTP/1.1 403 Forbidden"));
}

#[test]
fn lock_tokens_and_body() {
    let t = make_lock_token(true);
    assert!(t.starts_with("opaquelocktoken:"));
    assert_eq!(t.len(), "opaquelocktoken:".len() + 36);
    let t2 = make_lock_token(false);
    assert!(t2.chars().all(|c| c.is_ascii_digit()));
    let body = lock_body("tok", "/f.txt");
    assert!(body.contains("<D:locktoken><D:href>tok</D:href></D:locktoken>"));
    assert!(body.contains("<D:lockroot><D:href>/f.txt</D:href></D:lockroot>"));
}

#[test]
fn search_matching_is_case_insensitive() {
    assert!(matches_query("My-Document.TXT", "document"));
    assert!(matches_query("abc", ""));
    assert!(!matches_query("abc", "zzz"));
}

#[test]
fn json_payload() {
    let it = item(PathType::File, "a\"b", 2, Some(3));
    assert_eq!(item_json(&it), "{\"path_type\":\"File\",\"name\":\"a\\\"b\",\"mtime\":2,\"size\":3}");
    let d = item(PathType::Dir, "d", 9, None);
    assert_eq!(item_json(&d), "{\"path_type\":\"Dir\",\"name\":\"d\",\"mtime\":9,\"size\":null}");
    let json = index_json("/sub", &vec![d, it], true, false, true);
    assert_eq!(
        json,
        "{\"breadcrumb\":\"/sub\",\"paths\":[{\"path_type\":\"Dir\",\"name\":\"d\",\"mtime\":9,\"size\":null},{\"path_type\":\"File\",\"name\":\"a\\\"b\",\"mtime\":2,\"size\":3}],\"allow_upload\":true,\"allow_delete\":false,\"dir_exists\":true}"
    );
}

#[test]
fn page_slot_substitution() {
    let page = render_page("<html>__SLOT__</html>", "__SLOT__", "<title>x</title>");
    assert_eq!(page, "<html><title>x</title></html>");
    let untouched = render_page("<html></html>", "__SLOT__", "ignored");
    assert_eq!(untouched, "<html></html>");
}

#[test]
fn zip_headers() {
    assert_eq!(zip_disposition("my dir"), "attachment; filename=\"my%20dir.zip\"");
}

#[test]
fn log_lines() {
    assert_eq!(log_line("127.0.0.1", "GET", "/a.txt", 200), "127.0.0.1 \"GET /a.txt\" - 200");
}

#[test]
fn prefix_normalization() {
    assert_eq!(dufs::scan::trim_slashes("/docs/"), "docs");
    assert_eq!(dufs::scan::trim_slashes("///"), "");
    assert_eq!(dufs::scan::trim_slashes("a/b"), "a/b");
    assert_eq!(dufs::render::uri_prefix_of(""), "/");
    assert_eq!(dufs::render::uri_prefix_of("my docs"), "/my%20docs/");
}

#[test]
fn log_template_parsing_and_rendering() {
    let tokens = parse_log_format("$remote_addr \"$request\" - $status");
    assert_eq!(
        tokens,
        vec![
            LogToken::Var("remote_addr".to_string()),
            LogToken::Lit(" \"".to_string()),
            LogToken::Var("request".to_string()),
            LogToken::Lit("\" - ".to_string()),
            LogToken::Var("status".to_string()),
        ]
    );
    let line = render_log(&tokens, "127.0.0.1", None, "GET /a.txt", 200, &vec![]);
    assert_eq!(line, "127.0.0.1 \"GET /a.txt\" - 200");
    assert_eq!(line, log_line("127.0.0.1", "GET", "/a.txt", 200));

    let tokens = parse_log_format("$remote_user");
    assert_eq!(render_log(&tokens, "a", Some("alice"), "r", 200, &vec![]), "alice");
    assert_eq!(render_log(&tokens, "a", None, "r", 200, &vec![]), "");

    let tokens = parse_log_format("agent=$http_user_agent");
    let headers = vec![("user-agent".to_string(), "curl/8".to_string())];
    assert_eq!(render_log(&tokens, "a", None, "r", 200, &headers), "agent=curl/8");
    assert_eq!(render_log(&tokens, "a", None, "r", 200, &vec![]), "agent=");

    // A `$` that starts no known variable is kept as written.
    let tokens = parse_log_format("cost: 5$ $nosuchvar");
    assert_eq!(render_log(&tokens, "a", None, "r", 200, &vec![]), "cost: 5$ $nosuchvar");
}

#[test]
fn path_item_kind_queries() {
    let d = item(PathType::SymlinkDir, "sub/link", 0, None);
    assert!(d.is_dir());
    assert_eq!(d.base_name(), "link");
    let f = item(PathType::File, "sub/x.txt", 0, Some(1));
    assert!(!f.is_dir());
    assert_eq!(f.base_name(), "x.txt");
}


#[test]
fn hidden_name_patterns() {
    assert!(glob_matches(".git", ".git"));
    assert!(!glob_matches(".git", ".gitignore"));
    assert!(glob_matches("*.tmp", "draft.tmp"));
    assert!(!glob_matches("*.tmp", "draft.tmpx"));
    assert!(glob_matches("a?c", "abc"));
    assert!(!glob_matches("a?c", "ac"));
    assert!(glob_matches("*", ""));
    let hidden = vec![".git".to_string(), "*.bak".to_string()];
    assert!(is_hidden(&hidden, ".git"));
    assert!(is_hidden(&hidden, "notes.bak"));
    assert!(!is_hidden(&hidden, "notes.txt"));
    assert!(!is_hidden(&Vec::new(), ".git"));
}

#[test]
fn render_index_fallbacks() {
    assert_eq!(render_index_action(true, false), RenderIndexAction::ServeIndexFile);
    assert_eq!(render_index_action(true, true), RenderIndexAction::ServeIndexFile);
    assert_eq!(render_index_action(false, true), RenderIndexAction::ListDirectory);
    assert_eq!(render_index_action(false, false), RenderIndexAction::NotFound);
}

#[test]
fn path_item_from_probe() {
    let d = PathItem::from_probe(false, true, "sub".to_string(), 7, 4096);
    assert_eq!(d.path_type, PathType::Dir);
    assert_eq!(d.size, None);
    assert_eq!(d.mtime, 7);
    let l = PathItem::from_probe(true, false, "ln".to_string(), 8, 12);
    assert_eq!(l.path_type, PathType::SymlinkFile);
    assert_eq!(l.size, Some(12));
    let sd = PathItem::from_probe(true, true, "sl".to_string(), 9, 0);
    assert_eq!(sd.path_type, PathType::SymlinkDir);
    let f = PathItem::from_probe(false, false, "f.txt".to_string(), 10, 3);
    assert_eq!(f.path_type, PathType::File);
    assert_eq!(f.size, Some(3));
}

#[test]
fn far_future_times_render_harmlessly() {
    // A modification time past the year 9999 must not break the plan: the
    // date header is empty, everything else is exact.
    let plan = plan_send_file("/d/a.txt", "a.txt", 300_000_000_000_000_000, 5, false, None, None, None, None);
    assert_eq!(plan.status, 200);
    assert_eq!(plan.window, Some((0, 5)));
    let lm = plan.headers.iter().find(|(k, _)| k == "Last-Modified").map(|(_, v)| v.clone());
    assert_eq!(lm.as_deref(), Some(""));
    let item = PathItem { path_type: PathType::File, name: "a.txt".to_string(), mtime: u64::MAX, size: Some(5) };
    let xml = item.to_dav_xml("/");
    assert!(xml.contains("<D:getlastmodified></D:getlastmodified>"));
}
