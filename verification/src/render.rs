use vstd::prelude::*;

use crate::auth::hex_lower_char;
use crate::pathitem::{spec_base_name, PathItem, PathType};
use crate::shim::{ascii_to_string, format_rfc2822_ms, rfc2822_of, string_push, uuid_v4_hyphenated,
    now_unix_secs};
use crate::strnum::{spec_u64_chars, u64_to_string};
use crate::uri::{lemma_encode_ascii, percent_encode, spec_percent_encode};
use vstd::utf8::encode_utf8;

verus! {

/// PCDATA escaping: `<`, `>` and `&` become entities, all else stands.
pub open spec fn spec_xml_escape_char(c: char) -> Seq<char> {
    if c == '<' {
        seq!['&', 'l', 't', ';']
    } else if c == '>' {
        seq!['&', 'g', 't', ';']
    } else if c == '&' {
        seq!['&', 'a', 'm', 'p', ';']
    } else {
        seq![c]
    }
}

/// PCDATA escaping of a whole text.
pub open spec fn spec_xml_escape(s: Seq<char>) -> Seq<char>
    decreases s.len(),
{
    if s.len() == 0 {
        Seq::empty()
    } else {
        spec_xml_escape_char(s[0]) + spec_xml_escape(s.skip(1))
    }
}

/// Relies on xml's `escape_str_pcdata`: it replaces `<` with `&lt;`, `>` with
/// `&gt;` and `&` with `&amp;`, and leaves every other character unchanged.
#[verifier::external_body]
pub fn xml_escape_pcdata(s: &str) -> (r: String)
    ensures
        r@ == spec_xml_escape(s@),
{
    xml::escape::escape_str_pcdata(s).into_owned()
}

/// The characters spelled by a sequence of ASCII bytes.
pub open spec fn ascii_chars(b: Seq<u8>) -> Seq<char> {
    Seq::new(b.len(), |i: int| b[i] as char)
}

/// Percent-encode a text for use in a URL, keeping `/` separators.
pub fn encode_uri(s: &str) -> (r: String)
    ensures
        r@ == ascii_chars(spec_percent_encode(encode_utf8(s@))),
{
    let bytes = s.as_bytes_vec();
    let enc = percent_encode(&bytes);
    proof {
        lemma_encode_ascii(bytes@);
    }
    let r = ascii_to_string(&enc);
    assert(r@ =~= ascii_chars(spec_percent_encode(encode_utf8(s@))));
    r
}

/// The URL prefix under which everything is served: `/` alone, or the
/// percent-encoded path prefix between slashes.
pub open spec fn spec_uri_prefix(p: Seq<char>) -> Seq<char> {
    if p.len() == 0 {
        seq!['/']
    } else {
        seq!['/'] + ascii_chars(spec_percent_encode(encode_utf8(p))) + seq!['/']
    }
}

/// Build the URL prefix for a normalized path prefix.
pub fn uri_prefix_of(p: &str) -> (r: String)
    ensures
        r@ == spec_uri_prefix(p@),
{
    let mut out = String::new();
    string_push(&mut out, '/');
    if p.unicode_len() == 0 {
        assert(out@ =~= spec_uri_prefix(p@));
        return out;
    }
    let enc = encode_uri(p);
    out.append(enc.as_str());
    string_push(&mut out, '/');
    assert(out@ =~= spec_uri_prefix(p@));
    out
}

/// The `<D:response>` element for one entry: href, display name, modification
/// time, and, for files, content length.
pub open spec fn spec_dav_xml(item: PathItem, prefix: Seq<char>) -> Seq<char> {
    let href0 = ascii_chars(spec_percent_encode(encode_utf8(prefix + item.name@)));
    let is_dir = item.path_type == PathType::Dir || item.path_type == PathType::SymlinkDir;
    let href = if is_dir && !(href0.len() > 0 && href0[href0.len() - 1] == '/') {
        href0.push('/')
    } else {
        href0
    };
    let displayname = spec_xml_escape(spec_base_name(item.name@));
    let mtime = rfc2822_of(item.mtime as int);
    if is_dir {
        "<D:response>\n<D:href>"@ + href + "</D:href>\n<D:propstat>\n<D:prop>\n<D:displayname>"@
            + displayname + "</D:displayname>\n<D:getlastmodified>"@ + mtime
            + "</D:getlastmodified>\n<D:resourcetype><D:collection/></D:resourcetype>\n</D:prop>\n<D:status>HTTP/1.1 200 OK</D:status>\n</D:propstat>\n</D:response>"@
    } else {
        let size = spec_u64_chars(
            (match item.size {
                Some(n) => n,
                None => 0u64,
            }) as nat,
        );
        "<D:response>\n<D:href>"@ + href + "</D:href>\n<D:propstat>\n<D:prop>\n<D:displayname>"@
            + displayname + "</D:displayname>\n<D:getcontentlength>"@ + size
            + "</D:getcontentlength>\n<D:getlastmodified>"@ + mtime
            + "</D:getlastmodified>\n<D:resourcetype></D:resourcetype>\n</D:prop>\n<D:status>HTTP/1.1 200 OK</D:status>\n</D:propstat>\n</D:response>"@
    }
}

impl PathItem {
    /// Render this entry as a WebDAV `<D:response>` element.
    pub fn to_dav_xml(&self, prefix: &str) -> (r: String)
        ensures
            r@ == spec_dav_xml(*self, prefix@),
    {
        let mut full = String::from_str(prefix);
        full.append(self.name.as_str());
        let mut href = encode_uri(full.as_str());
        let hlen = href.as_str().unicode_len();
        let is_dir = self.is_dir();
        if is_dir && (hlen == 0 || href.as_str().get_char(hlen - 1) != '/') {
            string_push(&mut href, '/');
        }
        let base = self.base_name();
        let displayname = xml_escape_pcdata(base.as_str());
        let mtime = format_rfc2822_ms(self.mtime);
        let mut out = String::from_str("<D:response>\n<D:href>");
        out.append(href.as_str());
        out.append("</D:href>\n<D:propstat>\n<D:prop>\n<D:displayname>");
        out.append(displayname.as_str());
        if is_dir {
            out.append("</D:displayname>\n<D:getlastmodified>");
            out.append(mtime.as_str());
            out.append(
                "</D:getlastmodified>\n<D:resourcetype><D:collection/></D:resourcetype>\n</D:prop>\n<D:status>HTTP/1.1 200 OK</D:status>\n</D:propstat>\n</D:response>",
            );
        } else {
            out.append("</D:displayname>\n<D:getcontentlength>");
            let size = u64_to_string(
                match self.size {
                    Some(n) => n,
                    None => 0,
                },
            );
            out.append(size.as_str());
            out.append("</D:getcontentlength>\n<D:getlastmodified>");
            out.append(mtime.as_str());
            out.append(
                "</D:getlastmodified>\n<D:resourcetype></D:resourcetype>\n</D:prop>\n<D:status>HTTP/1.1 200 OK</D:status>\n</D:propstat>\n</D:response>",
            );
        }
        assert(out@ =~= spec_dav_xml(*self, prefix@));
        out
    }
}

/// A whole Multi-Status document around the given response elements.
pub open spec fn spec_multistatus(content: Seq<char>) -> Seq<char> {
    "<?xml version=\"1.0\" encoding=\"utf-8\" ?>\n<D:multistatus xmlns:D=\"DAV:\">\n"@ + content
        + "\n</D:multistatus>"@
}

/// Wrap response elements in the Multi-Status envelope.
pub fn multistatus_body(content: &str) -> (r: String)
    ensures
        r@ == spec_multistatus(content@),
{
    let mut out = String::from_str(
        "<?xml version=\"1.0\" encoding=\"utf-8\" ?>\n<D:multistatus xmlns:D=\"DAV:\">\n",
    );
    out.append(content);
    out.append("\n</D:multistatus>");
    out
}

/// The response elements for a whole listing, concatenated.
pub open spec fn spec_dav_xml_all(items: Seq<PathItem>, prefix: Seq<char>) -> Seq<char>
    decreases items.len(),
{
    if items.len() == 0 {
        Seq::empty()
    } else {
        spec_dav_xml(items[0], prefix) + spec_dav_xml_all(items.skip(1), prefix)
    }
}

fn dav_xml_from(items: &Vec<PathItem>, prefix: &str, i: usize) -> (r: String)
    requires
        i <= items@.len(),
    ensures
        r@ == spec_dav_xml_all(items@.skip(i as int), prefix@),
    decreases items@.len() - i,
{
    if i == items.len() {
        assert(items@.skip(i as int) =~= Seq::<PathItem>::empty());
        String::new()
    } else {
        let mut out = items[i].to_dav_xml(prefix);
        let rest = dav_xml_from(items, prefix, i + 1);
        out.append(rest.as_str());
        proof {
            let s = items@.skip(i as int);
            assert(s[0] == items@[i as int]);
            assert(s.skip(1) =~= items@.skip(i as int + 1));
        }
        out
    }
}

/// Render the Multi-Status document for a listing.
pub fn multistatus_for(items: &Vec<PathItem>, prefix: &str) -> (r: String)
    ensures
        r@ == spec_multistatus(spec_dav_xml_all(items@, prefix@)),
{
    let inner = dav_xml_from(items, prefix, 0);
    assert(items@.skip(0) =~= items@);
    multistatus_body(inner.as_str())
}

/// The `PROPPATCH` reply for one resource: a 403 for every property, since
/// properties are never stored.
pub open spec fn spec_proppatch_body(uri: Seq<char>) -> Seq<char> {
    "<D:response>\n<D:href>"@ + uri
        + "</D:href>\n<D:propstat>\n<D:prop>\n</D:prop>\n<D:status>HTTP/1.1 403 Forbidden</D:status>\n</D:propstat>\n</D:response>"@
}

/// Render the inner `PROPPATCH` response element.
pub fn proppatch_body(uri: &str) -> (r: String)
    ensures
        r@ == spec_proppatch_body(uri@),
{
    let mut out = String::from_str("<D:response>\n<D:href>");
    out.append(uri);
    out.append(
        "</D:href>\n<D:propstat>\n<D:prop>\n</D:prop>\n<D:status>HTTP/1.1 403 Forbidden</D:status>\n</D:propstat>\n</D:response>",
    );
    out
}

/// The `LOCK` reply body around a token and the locked path.
pub open spec fn spec_lock_body(token: Seq<char>, uri: Seq<char>) -> Seq<char> {
    "<?xml version=\"1.0\" encoding=\"utf-8\"?>\n<D:prop xmlns:D=\"DAV:\"><D:lockdiscovery><D:activelock>\n<D:locktoken><D:href>"@
        + token + "</D:href></D:locktoken>\n<D:lockroot><D:href>"@ + uri
        + "</D:href></D:lockroot>\n</D:activelock></D:lockdiscovery></D:prop>"@
}

/// Render the `LOCK` reply body.
pub fn lock_body(token: &str, uri: &str) -> (r: String)
    ensures
        r@ == spec_lock_body(token@, uri@),
{
    let mut out = String::from_str(
        "<?xml version=\"1.0\" encoding=\"utf-8\"?>\n<D:prop xmlns:D=\"DAV:\"><D:lockdiscovery><D:activelock>\n<D:locktoken><D:href>",
    );
    out.append(token);
    out.append("</D:href></D:locktoken>\n<D:lockroot><D:href>");
    out.append(uri);
    out.append("</D:href></D:lockroot>\n</D:activelock></D:lockdiscovery></D:prop>");
    out
}

/// Make a lock token: an opaque UUID token for an authenticated caller, a
/// decimal timestamp otherwise. No state is recorded either way.
pub fn make_lock_token(auth: bool) -> (r: String)
    ensures
        auth ==> exists|u: Seq<char>| u.len() == 36 && r@ == "opaquelocktoken:"@ + u,
        !auth ==> exists|n: u64| r@ == spec_u64_chars(n as nat),
{
    if auth {
        let u = uuid_v4_hyphenated();
        let mut out = String::from_str("opaquelocktoken:");
        out.append(u.as_str());
        proof {
            assert(u@.len() == 36 && out@ == "opaquelocktoken:"@ + u@);
        }
        out
    } else {
        let t = now_unix_secs();
        let n: u64 = if t < 0 {
            0
        } else {
            t as u64
        };
        let out = u64_to_string(n);
        proof {
            assert(out@ == spec_u64_chars(n as nat));
        }
        out
    }
}

/// JSON escaping of one character: quotes and backslashes are escaped, the
/// named control characters take their short forms, other control characters
/// their `\u00..` form.
pub open spec fn spec_json_escape_char(c: char) -> Seq<char> {
    if c == '"' {
        seq!['\\', '"']
    } else if c == '\\' {
        seq!['\\', '\\']
    } else if c == '\n' {
        seq!['\\', 'n']
    } else if c == '\r' {
        seq!['\\', 'r']
    } else if c == '\t' {
        seq!['\\', 't']
    } else if (c as u32) < 32 {
        seq!['\\', 'u', '0', '0', hex_lower_char(c as u32 as int / 16) as char, hex_lower_char(
            c as u32 as int % 16,
        ) as char]
    } else {
        seq![c]
    }
}

/// JSON escaping of a whole text.
pub open spec fn spec_json_escape(s: Seq<char>) -> Seq<char>
    decreases s.len(),
{
    if s.len() == 0 {
        Seq::empty()
    } else {
        spec_json_escape_char(s[0]) + spec_json_escape(s.skip(1))
    }
}

fn json_escape_from(s: &str, i: usize, len: usize) -> (r: String)
    requires
        len == s@.len(),
        i <= len,
    ensures
        r@ == spec_json_escape(s@.skip(i as int)),
    decreases len - i,
{
    if i == len {
        assert(s@.skip(i as int) =~= Seq::<char>::empty());
        String::new()
    } else {
        let c = s.get_char(i);
        let mut out = String::new();
        if c == '"' {
            string_push(&mut out, '\\');
            string_push(&mut out, '"');
        } else if c == '\\' {
            string_push(&mut out, '\\');
            string_push(&mut out, '\\');
        } else if c == '\n' {
            string_push(&mut out, '\\');
            string_push(&mut out, 'n');
        } else if c == '\r' {
            string_push(&mut out, '\\');
            string_push(&mut out, 'r');
        } else if c == '\t' {
            string_push(&mut out, '\\');
            string_push(&mut out, 't');
        } else if (c as u32) < 32 {
            string_push(&mut out, '\\');
            string_push(&mut out, 'u');
            string_push(&mut out, '0');
            string_push(&mut out, '0');
            let code = c as u32;
            let hi = (code / 16) as u8;
            let lo = (code % 16) as u8;
            string_push(&mut out, (if hi < 10 { 48 + hi } else { 87 + hi }) as char);
            string_push(&mut out, (if lo < 10 { 48 + lo } else { 87 + lo }) as char);
        } else {
            string_push(&mut out, c);
        }
        assert(out@ =~= spec_json_escape_char(s@.skip(i as int)[0]));
        let rest = json_escape_from(s, i + 1, len);
        out.append(rest.as_str());
        assert(s@.skip(i as int).skip(1) =~= s@.skip(i as int + 1));
        out
    }
}

/// Escape a text for inclusion in a JSON string literal.
pub fn json_escape(s: &str) -> (r: String)
    ensures
        r@ == spec_json_escape(s@),
{
    let len = s.unicode_len();
    let r = json_escape_from(s, 0, len);
    assert(s@.skip(0) =~= s@);
    r
}

/// The JSON object for one listing entry.
pub open spec fn spec_item_json(item: PathItem) -> Seq<char> {
    let t = match item.path_type {
        PathType::Dir => "Dir"@,
        PathType::SymlinkDir => "SymlinkDir"@,
        PathType::File => "File"@,
        PathType::SymlinkFile => "SymlinkFile"@,
    };
    let size = match item.size {
        Some(n) => spec_u64_chars(n as nat),
        None => "null"@,
    };
    "{\"path_type\":\""@ + t + "\",\"name\":\""@ + spec_json_escape(item.name@) + "\",\"mtime\":"@
        + spec_u64_chars(item.mtime as nat) + ",\"size\":"@ + size + "}"@
}

/// Render the JSON object for one listing entry.
pub fn item_json(item: &PathItem) -> (r: String)
    ensures
        r@ == spec_item_json(*item),
{
    let mut out = String::from_str("{\"path_type\":\"");
    match item.path_type {
        PathType::Dir => out.append("Dir"),
        PathType::SymlinkDir => out.append("SymlinkDir"),
        PathType::File => out.append("File"),
        PathType::SymlinkFile => out.append("SymlinkFile"),
    }
    out.append("\",\"name\":\"");
    let name = json_escape(item.name.as_str());
    out.append(name.as_str());
    out.append("\",\"mtime\":");
    let mtime = u64_to_string(item.mtime);
    out.append(mtime.as_str());
    out.append(",\"size\":");
    match item.size {
        Some(n) => {
            let s = u64_to_string(n);
            out.append(s.as_str());
        },
        None => out.append("null"),
    }
    out.append("}");
    out
}

/// The JSON array elements for a listing, comma separated.
pub open spec fn spec_items_json(items: Seq<PathItem>) -> Seq<char>
    decreases items.len(),
{
    if items.len() == 0 {
        Seq::empty()
    } else if items.len() == 1 {
        spec_item_json(items[0])
    } else {
        spec_item_json(items[0]) + seq![','] + spec_items_json(items.skip(1))
    }
}

fn items_json_from(items: &Vec<PathItem>, i: usize) -> (r: String)
    requires
        i <= items@.len(),
    ensures
        r@ == spec_items_json(items@.skip(i as int)),
    decreases items@.len() - i,
{
    if i == items.len() {
        assert(items@.skip(i as int) =~= Seq::<PathItem>::empty());
        String::new()
    } else {
        let mut out = item_json(&items[i]);
        proof {
            let s = items@.skip(i as int);
            assert(s[0] == items@[i as int]);
            assert(s.skip(1) =~= items@.skip(i as int + 1));
        }
        if i + 1 < items.len() {
            string_push(&mut out, ',');
            let rest = items_json_from(items, i + 1);
            out.append(rest.as_str());
        } else {
            assert(items@.skip(i as int).len() == 1);
        }
        out
    }
}

/// The JSON payload handed to the index page.
pub open spec fn spec_index_json(
    breadcrumb: Seq<char>,
    items: Seq<PathItem>,
    allow_upload: bool,
    allow_delete: bool,
    dir_exists: bool,
) -> Seq<char> {
    "{\"breadcrumb\":\""@ + spec_json_escape(breadcrumb) + "\",\"paths\":["@ + spec_items_json(
        items,
    ) + "],\"allow_upload\":"@ + (if allow_upload {
        "true"@
    } else {
        "false"@
    }) + ",\"allow_delete\":"@ + (if allow_delete {
        "true"@
    } else {
        "false"@
    }) + ",\"dir_exists\":"@ + (if dir_exists {
        "true"@
    } else {
        "false"@
    }) + "}"@
}

/// Render the JSON payload handed to the index page.
pub fn index_json(
    breadcrumb: &str,
    items: &Vec<PathItem>,
    allow_upload: bool,
    allow_delete: bool,
    dir_exists: bool,
) -> (r: String)
    ensures
        r@ == spec_index_json(breadcrumb@, items@, allow_upload, allow_delete, dir_exists),
{
    let mut out = String::from_str("{\"breadcrumb\":\"");
    let bc = json_escape(breadcrumb);
    out.append(bc.as_str());
    out.append("\",\"paths\":[");
    let ij = items_json_from(items, 0);
    assert(items@.skip(0) =~= items@);
    out.append(ij.as_str());
    out.append("],\"allow_upload\":");
    out.append(if allow_upload { "true" } else { "false" });
    out.append(",\"allow_delete\":");
    out.append(if allow_delete { "true" } else { "false" });
    out.append(",\"dir_exists\":");
    out.append(if dir_exists { "true" } else { "false" });
    out.append("}");
    out
}

/// `small` occurs in `big` first at `i`.
pub open spec fn first_occurrence_at(big: Seq<char>, small: Seq<char>, i: int) -> bool {
    crate::scan::occurs_at(big, small, i) && forall|j: int|
        0 <= j < i ==> !crate::scan::occurs_at(big, small, j)
}

/// The page for a directory: the template with its single slot replaced by
/// the given content; a template without the slot stands unchanged.
pub open spec fn spec_render_page(template: Seq<char>, slot: Seq<char>, content: Seq<char>) -> Seq<
    char,
> {
    if exists|i: int| first_occurrence_at(template, slot, i) {
        let i = choose|i: int| first_occurrence_at(template, slot, i);
        template.take(i) + content + template.skip(i + slot.len())
    } else {
        template
    }
}

/// Replace the first occurrence of `slot` in `template` with `content`.
#[verifier::loop_isolation(false)]
pub fn render_page(template: &str, slot: &str, content: &str) -> (r: String)
    requires
        slot@.len() > 0,
    ensures
        r@ == spec_render_page(template@, slot@, content@),
{
    let tlen = template.unicode_len();
    let slen = slot.unicode_len();
    if slen > tlen {
        proof {
            if exists|i: int| first_occurrence_at(template@, slot@, i) {
                let w = choose|i: int| first_occurrence_at(template@, slot@, i);
            }
        }
        return template.to_owned();
    }
    let mut i: usize = 0;
    while i <= tlen - slen
        invariant
            i <= tlen - slen + 1,
            forall|k: int| 0 <= k < i ==> !crate::scan::occurs_at(template@, slot@, k),
        decreases tlen - slen + 1 - i,
    {
        let sub = template.substring_char(i, i + slen);
        if crate::scan::str_eq(sub, slot) {
            assert(crate::scan::occurs_at(template@, slot@, i as int));
            proof {
                assert(first_occurrence_at(template@, slot@, i as int));
                let w = choose|k: int| first_occurrence_at(template@, slot@, k);
                if w < i {
                    assert(!crate::scan::occurs_at(template@, slot@, w));
                }
                if w > i {
                    assert(!crate::scan::occurs_at(template@, slot@, i as int));
                }
                assert(w == i);
            }
            let mut out = template.substring_char(0, i).to_owned();
            out.append(content);
            let tail = template.substring_char(i + slen, tlen);
            out.append(tail);
            assert(out@ =~= template@.take(i as int) + content@ + template@.skip(
                i + slot@.len(),
            ));
            return out;
        }
        assert(!crate::scan::occurs_at(template@, slot@, i as int));
        i = i + 1;
    }
    proof {
        if exists|k: int| first_occurrence_at(template@, slot@, k) {
            let w = choose|k: int| first_occurrence_at(template@, slot@, k);
            assert(!crate::scan::occurs_at(template@, slot@, w));
        }
    }
    template.to_owned()
}

/// What the index page's slot holds: the title, the inlined style, and the
/// data script.
pub open spec fn spec_index_slot(
    breadcrumb: Seq<char>,
    css: Seq<char>,
    data: Seq<char>,
    js: Seq<char>,
) -> Seq<char> {
    "\n<title>Index of "@ + breadcrumb + " - Duf</title>\n<style>"@ + css
        + "</style>\n<script>\nconst DATA = \n"@ + data + "\n"@ + js + "</script>\n"@
}

/// Render the slot content for the index page.
pub fn index_slot(breadcrumb: &str, css: &str, data: &str, js: &str) -> (r: String)
    ensures
        r@ == spec_index_slot(breadcrumb@, css@, data@, js@),
{
    let mut out = String::from_str("\n<title>Index of ");
    out.append(breadcrumb);
    out.append(" - Duf</title>\n<style>");
    out.append(css);
    out.append("</style>\n<script>\nconst DATA = \n");
    out.append(data);
    out.append("\n");
    out.append(js);
    out.append("</script>\n");
    out
}

/// What lowercasing yields for a text; it depends on the characters alone.
pub uninterp spec fn lower_of(s: Seq<char>) -> Seq<char>;

/// Relies on str's `to_lowercase`: the result depends on the characters
/// alone.
#[verifier::external_body]
pub fn to_lowercase(s: &str) -> (r: String)
    ensures
        r@ == lower_of(s@),
{
    s.to_lowercase()
}

/// Whether an entry name matches a search: its lowercase form contains the
/// lowercase form of the query.
pub fn matches_query(name: &str, query: &str) -> (r: bool)
    ensures
        r == crate::scan::spec_contains(lower_of(name@), lower_of(query@)),
{
    let ln = to_lowercase(name);
    let lq = to_lowercase(query);
    crate::scan::str_contains(ln.as_str(), lq.as_str())
}

/// The headers added to every response when CORS is enabled.
pub fn cors_headers() -> (r: Vec<(String, String)>)
    ensures
        r@.len() == 3,
        r@[0].0@ == "Access-Control-Allow-Origin"@ && r@[0].1@ == "*"@,
        r@[1].0@ == "Access-Control-Allow-Credentials"@ && r@[1].1@ == "true"@,
        r@[2].0@ == "Access-Control-Allow-Headers"@ && r@[2].1@
            == "Range, Content-Type, Accept, Origin, WWW-Authenticate"@,
{
    let mut v: Vec<(String, String)> = Vec::new();
    v.push((String::from_str("Access-Control-Allow-Origin"), String::from_str("*")));
    v.push((String::from_str("Access-Control-Allow-Credentials"), String::from_str("true")));
    v.push(
        (
            String::from_str("Access-Control-Allow-Headers"),
            String::from_str("Range, Content-Type, Accept, Origin, WWW-Authenticate"),
        ),
    );
    v
}

/// The headers carried by `OPTIONS` and challenge responses: the allowed
/// methods and the WebDAV class.
pub fn webdav_headers() -> (r: Vec<(String, String)>)
    ensures
        r@.len() == 2,
        r@[0].0@ == "Allow"@ && r@[0].1@ == "GET,HEAD,PUT,OPTIONS,DELETE,PROPFIND,COPY,MOVE"@,
        r@[1].0@ == "DAV"@ && r@[1].1@ == "1,2"@,
{
    let mut v: Vec<(String, String)> = Vec::new();
    v.push(
        (String::from_str("Allow"), String::from_str("GET,HEAD,PUT,OPTIONS,DELETE,PROPFIND,COPY,MOVE")),
    );
    v.push((String::from_str("DAV"), String::from_str("1,2")));
    v
}

/// The `Content-Disposition` for a zipped directory download.
pub open spec fn spec_zip_disposition(name: Seq<char>) -> Seq<char> {
    "attachment; filename=\""@ + ascii_chars(spec_percent_encode(encode_utf8(name))) + ".zip\""@
}

/// Render the `Content-Disposition` for a zipped directory download.
pub fn zip_disposition(name: &str) -> (r: String)
    ensures
        r@ == spec_zip_disposition(name@),
{
    let mut out = String::from_str("attachment; filename=\"");
    let enc = encode_uri(name);
    out.append(enc.as_str());
    out.append(".zip\"");
    out
}

/// The `Content-Disposition` for a served file.
pub open spec fn spec_inline_disposition(name: Seq<char>) -> Seq<char> {
    "inline; filename=\""@ + ascii_chars(spec_percent_encode(encode_utf8(name))) + "\""@
}

/// Render the `Content-Disposition` for a served file.
pub fn inline_disposition(name: &str) -> (r: String)
    ensures
        r@ == spec_inline_disposition(name@),
{
    let mut out = String::from_str("inline; filename=\"");
    let enc = encode_uri(name);
    out.append(enc.as_str());
    out.append("\"");
    out
}

} // verus!
