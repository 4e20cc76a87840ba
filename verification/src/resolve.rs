use vstd::prelude::*;

use crate::uri::{spec_percent_decode, spec_percent_encode, lemma_percent_round_trip};
use crate::uri::percent_decode;

verus! {

/// Compare two byte strings.
pub fn bytes_eq(a: &Vec<u8>, b: &Vec<u8>) -> (r: bool)
    ensures
        r == (a@ == b@),
{
    if a.len() != b.len() {
        assert(a@ != b@);
        return false;
    }
    let mut i: usize = 0;
    while i < a.len()
        invariant
            i <= a@.len(),
            a@.len() == b@.len(),
            forall|j: int| 0 <= j < i ==> a@[j] == b@[j],
        decreases a@.len() - i,
    {
        if a[i] != b[i] {
            return false;
        }
        i = i + 1;
    }
    assert(a@ =~= b@);
    true
}

/// The bytes of `v` from `from` on.
pub fn bytes_from(v: &Vec<u8>, from: usize) -> (r: Vec<u8>)
    requires
        from <= v@.len(),
    ensures
        r@ == v@.skip(from as int),
{
    let mut out: Vec<u8> = Vec::new();
    let mut i: usize = from;
    while i < v.len()
        invariant
            from <= i <= v@.len(),
            out@ == v@.subrange(from as int, i as int),
        decreases v@.len() - i,
    {
        out.push(v[i]);
        assert(out@ =~= v@.subrange(from as int, i + 1));
        i = i + 1;
    }
    assert(v@.subrange(from as int, v@.len() as int) =~= v@.skip(from as int));
    out
}

/// Strip a leading path prefix, component-wise: the prefix must be the whole
/// path or be followed by a `/`.
pub open spec fn spec_strip_prefix(d: Seq<u8>, prefix: Seq<u8>) -> Option<Seq<u8>> {
    if prefix.len() == 0 {
        Some(d)
    } else if d == prefix {
        Some(Seq::empty())
    } else if d.len() > prefix.len() && d.take(prefix.len() as int) == prefix && d[prefix.len() as int]
        == 47 {
        Some(d.skip(prefix.len() as int + 1))
    } else {
        None
    }
}

/// Join a relative path onto a root path.
pub open spec fn spec_join(root: Seq<u8>, rel: Seq<u8>) -> Seq<u8> {
    if rel.len() == 0 {
        root
    } else {
        root + seq![47u8] + rel
    }
}

/// Resolution of a request URI path against a configured prefix and root:
/// drop the leading `/`, percent-decode, strip the prefix, join onto the root.
pub open spec fn spec_extract_path(uri: Seq<u8>, prefix: Seq<u8>, root: Seq<u8>) -> Option<
    Seq<u8>,
> {
    match spec_percent_decode(uri.skip(1)) {
        None => None,
        Some(d) => match spec_strip_prefix(d, prefix) {
            None => None,
            Some(rel) => Some(spec_join(root, rel)),
        },
    }
}

/// Strip `prefix` from the front of `d`, component-wise.
pub fn strip_path_prefix(d: &Vec<u8>, prefix: &Vec<u8>) -> (r: Option<Vec<u8>>)
    ensures
        match r {
            Some(v) => spec_strip_prefix(d@, prefix@) == Some(v@),
            None => spec_strip_prefix(d@, prefix@) is None,
        },
{
    if prefix.len() == 0 {
        let mut out: Vec<u8> = Vec::new();
        let mut i: usize = 0;
        while i < d.len()
            invariant
                i <= d@.len(),
                out@ == d@.take(i as int),
            decreases d@.len() - i,
        {
            out.push(d[i]);
            assert(out@ =~= d@.take(i + 1));
            i = i + 1;
        }
        assert(d@.take(d@.len() as int) =~= d@);
        return Some(out);
    }
    if d.len() == prefix.len() {
        if bytes_eq(d, prefix) {
            return Some(Vec::new());
        }
        assert(d@ != prefix@);
        assert(spec_strip_prefix(d@, prefix@) is None);
        return None;
    }
    if d.len() < prefix.len() {
        proof {
            if d@ == prefix@ {
                assert(false);
            }
        }
        return None;
    }
    let mut i: usize = 0;
    while i < prefix.len()
        invariant
            i <= prefix@.len() < d@.len(),
            forall|j: int| 0 <= j < i ==> d@[j] == prefix@[j],
        decreases prefix@.len() - i,
    {
        if d[i] != prefix[i] {
            proof {
                assert(d@.take(prefix@.len() as int)[i as int] != prefix@[i as int]);
                if d@ == prefix@ {
                    assert(false);
                }
            }
            return None;
        }
        i = i + 1;
    }
    assert(d@.take(prefix@.len() as int) =~= prefix@);
    if d[prefix.len()] != 47 {
        return None;
    }
    Some(bytes_from(d, prefix.len() + 1))
}

/// Resolve a request URI path: percent-decode it, strip the configured
/// prefix, and join what remains onto the root. `None` when an escape is
/// malformed or the prefix is absent.
pub fn extract_path(uri: &Vec<u8>, prefix: &Vec<u8>, root: &Vec<u8>) -> (r: Option<Vec<u8>>)
    requires
        uri@.len() >= 1,
    ensures
        match r {
            Some(v) => spec_extract_path(uri@, prefix@, root@) == Some(v@),
            None => spec_extract_path(uri@, prefix@, root@) is None,
        },
{
    let tail = bytes_from(uri, 1);
    let decoded = match percent_decode(&tail) {
        Some(v) => v,
        None => {
            return None;
        },
    };
    let rel = match strip_path_prefix(&decoded, prefix) {
        Some(v) => v,
        None => {
            return None;
        },
    };
    let mut out: Vec<u8> = Vec::new();
    let mut i: usize = 0;
    while i < root.len()
        invariant
            i <= root@.len(),
            out@ == root@.take(i as int),
        decreases root@.len() - i,
    {
        out.push(root[i]);
        assert(out@ =~= root@.take(i + 1));
        i = i + 1;
    }
    assert(out@ =~= root@);
    if rel.len() == 0 {
        return Some(out);
    }
    out.push(47);
    let mut j: usize = 0;
    while j < rel.len()
        invariant
            j <= rel@.len(),
            out@ == root@ + seq![47u8] + rel@.take(j as int),
        decreases rel@.len() - j,
    {
        out.push(rel[j]);
        assert(out@ =~= root@ + seq![47u8] + rel@.take(j + 1));
        j = j + 1;
    }
    assert(rel@.take(rel@.len() as int) =~= rel@);
    Some(out)
}

/// True when `path` lies at or below `root`, component-wise.
pub open spec fn spec_within_root(path: Seq<u8>, root: Seq<u8>) -> bool {
    path == root || (path.len() > root.len() && path.take(root.len() as int) == root && path[root.len() as int]
        == 47)
}

/// Containment check for a canonicalized path against the canonical root.
pub fn path_within_root(path: &Vec<u8>, root: &Vec<u8>) -> (r: bool)
    ensures
        r == spec_within_root(path@, root@),
{
    if path.len() == root.len() {
        let e = bytes_eq(path, root);
        proof {
            if path@.len() > root@.len() {
                assert(false);
            }
        }
        return e;
    }
    if path.len() < root.len() {
        proof {
            if path@ == root@ {
                assert(false);
            }
        }
        return false;
    }
    let mut i: usize = 0;
    while i < root.len()
        invariant
            i <= root@.len() < path@.len(),
            forall|j: int| 0 <= j < i ==> path@[j] == root@[j],
        decreases root@.len() - i,
    {
        if path[i] != root[i] {
            proof {
                assert(path@.take(root@.len() as int)[i as int] != root@[i as int]);
                if path@ == root@ {
                    assert(false);
                }
            }
            return false;
        }
        i = i + 1;
    }
    assert(path@.take(root@.len() as int) =~= root@);
    path[root.len()] == 47
}

/// Resolution undoes encoding: for every path `p` and configured prefix, the
/// URI written as `/` + encode(prefix, then `/`, then `p`) resolves to the
/// root joined with `p` exactly.
pub proof fn lemma_resolve_round_trip(root: Seq<u8>, prefix: Seq<u8>, p: Seq<u8>)
    ensures
        spec_extract_path(
            seq![47u8] + spec_percent_encode(
                if prefix.len() == 0 {
                    p
                } else {
                    prefix + seq![47u8] + p
                },
            ),
            prefix,
            root,
        ) == Some(spec_join(root, p)),
{
    let d = if prefix.len() == 0 {
        p
    } else {
        prefix + seq![47u8] + p
    };
    let uri = seq![47u8] + spec_percent_encode(d);
    assert(uri.skip(1) =~= spec_percent_encode(d));
    lemma_percent_round_trip(d);
    assert(spec_percent_decode(uri.skip(1)) == Some(d));
    if prefix.len() == 0 {
        assert(spec_strip_prefix(d, prefix) == Some(p));
    } else {
        if p.len() == 0 {
            assert(d =~= prefix + seq![47u8]);
            assert(d.len() == prefix.len() + 1);
            assert(d != prefix);
            assert(d.take(prefix.len() as int) =~= prefix);
            assert(d[prefix.len() as int] == 47);
            assert(d.skip(prefix.len() as int + 1) =~= p);
            assert(spec_strip_prefix(d, prefix) == Some(p));
        } else {
            assert(d.len() == prefix.len() + 1 + p.len());
            if d == prefix {
                assert(false);
            }
            assert(d.take(prefix.len() as int) =~= prefix);
            assert(d[prefix.len() as int] == 47);
            assert(d.skip(prefix.len() as int + 1) =~= p);
            assert(spec_strip_prefix(d, prefix) == Some(p));
        }
    }
}

} // verus!
