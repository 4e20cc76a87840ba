use dufs::auth::{AccessControl, AccessRule, Account, AuthMethod, GuardType};
use dufs::cache::{etag_of, evaluate_cached, if_range_current};
use dufs::range::{parse_range, resolve_range};
use dufs::resolve::{extract_path, path_within_root, strip_path_prefix};
use dufs::strnum::{parse_u64, u64_to_string};
use dufs::uri::{percent_decode, percent_encode};

fn md5_hex(data: &str) -> String {
    let digest = md5::compute(data.as_bytes());
    let mut out = String::new();
    for b in digest.0.iter() {
        out.push_str(&format!("{:02x}", b));
    }
    out
}

#[test]
fn u64_rendering() {
    assert_eq!(u64_to_string(0), "0");
    assert_eq!(u64_to_string(5), "5");
    assert_eq!(u64_to_string(1234567890), "1234567890");
    assert_eq!(u64_to_string(u64::MAX), "18446744073709551615");
}

#[test]
fn u64_parsing() {
    assert_eq!(parse_u64("0"), Some(0));
    assert_eq!(parse_u64("0042"), Some(42));
    assert_eq!(parse_u64("18446744073709551615"), Some(u64::MAX));
    assert_eq!(parse_u64("18446744073709551616"), None);
    assert_eq!(parse_u64(""), None);
    assert_eq!(parse_u64("12a"), None);
    assert_eq!(parse_u64("-3"), None);
}

#[test]
fn percent_coding_round_trip() {
    let cases: &[&[u8]] = &[
        b"hello.txt",
        b"a b/c d.txt",
        b"100%/x?y&z",
        b"\xffbin\x00ary",
        b"",
    ];
    for c in cases {
        let enc = percent_encode(&c.to_vec());
        assert!(enc.iter().all(|b| *b < 128));
        let dec = percent_decode(&enc).expect("encoded text must decode");
        assert_eq!(&dec, c);
    }
}

#[test]
fn percent_coding_exact() {
    assert_eq!(percent_encode(&b"a b".to_vec()), b"a%20b".to_vec());
    assert_eq!(percent_decode(&b"a%20b".to_vec()), Some(b"a b".to_vec()));
    assert_eq!(percent_decode(&b"a%2fb".to_vec()), Some(b"a/b".to_vec()));
    assert_eq!(percent_decode(&b"bad%zz".to_vec()), None);
    assert_eq!(percent_decode(&b"short%2".to_vec()), None);
}

#[test]
fn resolve_plain_path() {
    let uri = b"/hello.txt".to_vec();
    let got = extract_path(&uri, &Vec::new(), &b"/tmp/d".to_vec());
    assert_eq!(got, Some(b"/tmp/d/hello.txt".to_vec()));
}

#[test]
fn resolve_encoded_path_round_trip() {
    let uri = b"/a%20b/c%25d.txt".to_vec();
    let got = extract_path(&uri, &Vec::new(), &b"/tmp/d".to_vec());
    assert_eq!(got, Some(b"/tmp/d/a b/c%d.txt".to_vec()));
}

#[test]
fn resolve_with_prefix() {
    let root = b"/srv".to_vec();
    let prefix = b"files".to_vec();
    assert_eq!(
        extract_path(&b"/files/a.txt".to_vec(), &prefix, &root),
        Some(b"/srv/a.txt".to_vec())
    );
    assert_eq!(extract_path(&b"/files".to_vec(), &prefix, &root), Some(b"/srv".to_vec()));
    assert_eq!(extract_path(&b"/other/a.txt".to_vec(), &prefix, &root), None);
    assert_eq!(extract_path(&b"/filesx".to_vec(), &prefix, &root), None);
}

#[test]
fn resolve_bad_escape_is_rejected() {
    assert_eq!(extract_path(&b"/a%GGb".to_vec(), &Vec::new(), &b"/r".to_vec()), None);
}

#[test]
fn containment_check() {
    let root = b"/srv/root".to_vec();
    assert!(path_within_root(&b"/srv/root".to_vec(), &root));
    assert!(path_within_root(&b"/srv/root/a/b".to_vec(), &root));
    assert!(!path_within_root(&b"/srv/rootx".to_vec(), &root));
    assert!(!path_within_root(&b"/etc/passwd".to_vec(), &root));
}

#[test]
fn strip_prefix_component_wise() {
    assert_eq!(
        strip_path_prefix(&b"/tmp/d/a.txt".to_vec(), &b"/tmp/d".to_vec()),
        Some(b"a.txt".to_vec())
    );
    assert_eq!(strip_path_prefix(&b"/tmp/d".to_vec(), &b"/tmp/d".to_vec()), Some(b"".to_vec()));
    assert_eq!(strip_path_prefix(&b"/tmp/dd".to_vec(), &b"/tmp/d".to_vec()), None);
}

#[test]
fn range_parsing() {
    let r = parse_range("bytes=1-3").unwrap();
    assert_eq!((r.start, r.end), (1, Some(3)));
    let r = parse_range("bytes=5-").unwrap();
    assert_eq!((r.start, r.end), (5, None));
    let r = parse_range("bytes=5").unwrap();
    assert_eq!((r.start, r.end), (5, None));
    assert!(parse_range("items=1-3").is_none());
    assert!(parse_range("bytes=a-3").is_none());
    assert!(parse_range("bytes=1-b").is_none());
    assert!(parse_range("nonsense").is_none());
}

#[test]
fn range_resolution() {
    let rv = parse_range("bytes=1-3").unwrap();
    assert_eq!(resolve_range(&rv, 5), Some((1, 3)));
    let rv = parse_range("bytes=2-").unwrap();
    assert_eq!(resolve_range(&rv, 5), Some((2, 4)));
    let rv = parse_range("bytes=2-100").unwrap();
    assert_eq!(resolve_range(&rv, 5), Some((2, 4)));
    let rv = parse_range("bytes=5-").unwrap();
    assert_eq!(resolve_range(&rv, 5), None);
    let rv = parse_range("bytes=3-1").unwrap();
    assert_eq!(resolve_range(&rv, 5), None);
    let rv = parse_range("bytes=0-0").unwrap();
    assert_eq!(resolve_range(&rv, 0), None);
}

#[test]
fn etag_and_conditionals() {
    let etag = etag_of(1000, 5);
    assert_eq!(etag, "\"1000-5\"");
    assert!(evaluate_cached(Some("\"1000-5\""), None, 1000, 5));
    assert!(evaluate_cached(Some("*"), None, 1000, 5));
    assert!(!evaluate_cached(Some("\"999-5\""), None, 1000, 5));
    assert!(!evaluate_cached(None, None, 1000, 5));
}

#[test]
fn if_modified_since_dates() {
    // The epoch, in the form the server itself emits.
    assert!(evaluate_cached(None, Some("Thu, 01 Jan 1970 00:00:00 +0000"), 0, 1));
    assert!(evaluate_cached(None, Some("Thu, 01 Jan 1970 00:00:01 +0000"), 500, 1));
    assert!(!evaluate_cached(None, Some("Thu, 01 Jan 1970 00:00:00 +0000"), 5000, 1));
    assert!(!evaluate_cached(None, Some("not a date"), 0, 1));
}

#[test]
fn if_range_validators() {
    assert!(if_range_current("\"1000-5\"", 1000, 5));
    assert!(!if_range_current("\"999-5\"", 1000, 5));
    assert!(if_range_current("Thu, 01 Jan 1970 00:00:02 +0000", 1500, 5));
    assert!(!if_range_current("garbage", 1000, 5));
}

fn one_rule(anonymous: bool) -> AccessControl {
    AccessControl {
        rules: vec![AccessRule {
            path: "/".to_string(),
            accounts: vec![Account { user: "user".to_string(), pass: "pass".to_string() }],
            anonymous,
        }],
    }
}

#[test]
fn guard_rejects_missing_credentials() {
    let ac = one_rule(false);
    let g = ac.guard("/", "GET", None, &AuthMethod::Digest);
    assert_eq!(g, GuardType::Reject);
    assert!(g.is_reject());
    let g = ac.guard("/", "GET", None, &AuthMethod::Basic);
    assert_eq!(g, GuardType::Reject);
}

#[test]
fn options_never_requires_credentials() {
    let ac = one_rule(false);
    assert_eq!(ac.guard("/", "OPTIONS", None, &AuthMethod::Digest), GuardType::ReadOnly);
    assert_eq!(ac.guard("/", "OPTIONS", None, &AuthMethod::Basic), GuardType::ReadOnly);
}

#[test]
fn guard_anonymous_read_only() {
    let ac = one_rule(true);
    assert_eq!(ac.guard("/x", "GET", None, &AuthMethod::Digest), GuardType::ReadOnly);
    assert_eq!(ac.guard("/x", "PROPFIND", None, &AuthMethod::Digest), GuardType::ReadOnly);
    assert_eq!(ac.guard("/x", "PUT", None, &AuthMethod::Digest), GuardType::Reject);
}

#[test]
fn guard_no_rules_passes() {
    let ac = AccessControl { rules: vec![] };
    assert_eq!(ac.guard("/", "PUT", None, &AuthMethod::Digest), GuardType::Pass);
}

#[test]
fn guard_basic_credentials() {
    let ac = one_rule(false);
    // "user:pass" in base64.
    let ok = ac.guard("/", "GET", Some("Basic dXNlcjpwYXNz"), &AuthMethod::Basic);
    assert_eq!(ok, GuardType::Pass);
    let bad = ac.guard("/", "GET", Some("Basic dXNlcjpXUk9ORw=="), &AuthMethod::Basic);
    assert_eq!(bad, GuardType::Reject);
    let malformed = ac.guard("/", "GET", Some("Basic !!!"), &AuthMethod::Basic);
    assert_eq!(malformed, GuardType::Reject);
}

#[test]
fn guard_digest_credentials() {
    let ac = one_rule(false);
    let ha1 = md5_hex("user:DUFS:pass");
    let ha2 = md5_hex("GET:/");
    let response = md5_hex(&format!("{}:abc:00000001:xyz:auth:{}", ha1, ha2));
    let header = format!(
        "Digest username=\"user\", realm=\"DUFS\", nonce=\"abc\", uri=\"/\", qop=auth, nc=00000001, cnonce=\"xyz\", response=\"{}\"",
        response
    );
    assert_eq!(ac.guard("/", "GET", Some(&header), &AuthMethod::Digest), GuardType::Pass);
    // A wrong password on the client side fails the same check.
    let bad1 = md5_hex("user:DUFS:wrong");
    let bad_response = md5_hex(&format!("{}:abc:00000001:xyz:auth:{}", bad1, ha2));
    let bad_header = format!(
        "Digest username=\"user\", realm=\"DUFS\", nonce=\"abc\", uri=\"/\", qop=auth, nc=00000001, cnonce=\"xyz\", response=\"{}\"",
        bad_response
    );
    assert_eq!(ac.guard("/", "GET", Some(&bad_header), &AuthMethod::Digest), GuardType::Reject);
}

#[test]
fn guard_longest_prefix_wins() {
    let ac = AccessControl {
        rules: vec![
            AccessRule { path: "/".to_string(), accounts: vec![], anonymous: true },
            AccessRule {
                path: "/private".to_string(),
                accounts: vec![Account { user: "u".to_string(), pass: "p".to_string() }],
                anonymous: false,
            },
        ],
    };
    assert_eq!(ac.guard("/public.txt", "GET", None, &AuthMethod::Basic), GuardType::ReadOnly);
    assert_eq!(ac.guard("/private/a.txt", "GET", None, &AuthMethod::Basic), GuardType::Reject);
    assert_eq!(ac.guard("/privateer", "GET", None, &AuthMethod::Basic), GuardType::ReadOnly);
}

#[test]
fn www_auth_challenges() {
    let basic = dufs::auth::generate_www_auth_with(&AuthMethod::Basic, "n", false);
    assert_eq!(basic, "Basic realm=\"DUFS\"");
    let digest = dufs::auth::generate_www_auth_with(&AuthMethod::Digest, "deadbeef", false);
    assert_eq!(digest, "Digest realm=\"DUFS\", nonce=\"deadbeef\", qop=\"auth\"");
    let stale = dufs::auth::generate_www_auth_with(&AuthMethod::Digest, "deadbeef", true);
    assert_eq!(stale, "Digest realm=\"DUFS\", nonce=\"deadbeef\", qop=\"auth\", stale=true");
    let fresh = dufs::auth::generate_www_auth(&AuthMethod::Digest, false);
    assert!(fresh.starts_with("Digest realm=\"DUFS\", nonce=\""));
    let nonce: String = fresh["Digest realm=\"DUFS\", nonce=\"".len()..]
        .chars()
        .take_while(|c| *c != '"')
        .collect();
    assert_eq!(nonce.len(), 32);
}

#[test]
fn header_params() {
    let h = "username=\"user\", qop=auth, nc=00000001, cnonce=\"x,y\"";
    assert_eq!(dufs::auth::header_param(h, "username").as_deref(), Some("user"));
    assert_eq!(dufs::auth::header_param(h, "qop").as_deref(), Some("auth"));
    assert_eq!(dufs::auth::header_param(h, "nc").as_deref(), Some("00000001"));
    assert_eq!(dufs::auth::header_param(h, "cnonce").as_deref(), Some("x,y"));
    assert_eq!(dufs::auth::header_param(h, "nonce"), None);
}
