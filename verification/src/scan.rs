use vstd::prelude::*;

verus! {

/// `i` is the position of the first occurrence of `c` in `s`.
pub open spec fn first_at(s: Seq<char>, c: char, i: int) -> bool {
    0 <= i < s.len() && s[i] == c && forall|j: int| 0 <= j < i ==> s[j] != c
}

/// Position of the first occurrence of `c` in `s`, if any.
pub open spec fn spec_find(s: Seq<char>, c: char) -> Option<int> {
    if exists|i: int| first_at(s, c, i) {
        Some(choose|i: int| first_at(s, c, i))
    } else {
        None
    }
}

/// Find the first occurrence of `c` in `s`.
pub fn find_char(s: &str, c: char) -> (r: Option<usize>)
    ensures
        match r {
            Some(i) => i < s@.len() && spec_find(s@, c) == Some(i as int),
            None => spec_find(s@, c) is None,
        },
{
    let len = s.unicode_len();
    let mut i: usize = 0;
    while i < len
        invariant
            len == s@.len(),
            i <= len,
            forall|j: int| 0 <= j < i ==> s@[j] != c,
        decreases len - i,
    {
        if s.get_char(i) == c {
            proof {
                assert(first_at(s@, c, i as int));
                let w = choose|k: int| first_at(s@, c, k);
                if w < i {
                    assert(s@[w] != c);
                }
                if w > i {
                    assert(s@[i as int] != c);
                }
                assert(w == i);
            }
            return Some(i);
        }
        i = i + 1;
    }
    proof {
        if exists|k: int| first_at(s@, c, k) {
            let w = choose|k: int| first_at(s@, c, k);
            assert(s@[w] != c);
        }
    }
    None
}

/// Compare two strings character by character.
pub fn str_eq(a: &str, b: &str) -> (r: bool)
    ensures
        r == (a@ == b@),
{
    let la = a.unicode_len();
    let lb = b.unicode_len();
    if la != lb {
        assert(a@ != b@);
        return false;
    }
    let mut i: usize = 0;
    while i < la
        invariant
            la == a@.len() == b@.len(),
            i <= la,
            forall|j: int| 0 <= j < i ==> a@[j] == b@[j],
        decreases la - i,
    {
        if a.get_char(i) != b.get_char(i) {
            return false;
        }
        i = i + 1;
    }
    assert(a@ =~= b@);
    true
}

/// True when `small` occurs in `big` starting at `i`.
pub open spec fn occurs_at(big: Seq<char>, small: Seq<char>, i: int) -> bool {
    0 <= i && i + small.len() <= big.len() && big.subrange(i, i + small.len()) == small
}

/// True when `small` occurs somewhere in `big`.
pub open spec fn spec_contains(big: Seq<char>, small: Seq<char>) -> bool {
    exists|i: int| occurs_at(big, small, i)
}

/// Substring search: does `small` occur anywhere in `big`?
pub fn str_contains(big: &str, small: &str) -> (r: bool)
    ensures
        r == spec_contains(big@, small@),
{
    let lb = big.unicode_len();
    let ls = small.unicode_len();
    if ls > lb {
        proof {
            if exists|i: int| occurs_at(big@, small@, i) {
                let w = choose|i: int| occurs_at(big@, small@, i);
            }
        }
        return false;
    }
    if ls == 0 {
        assert(big@.subrange(0, 0) =~= small@);
        assert(occurs_at(big@, small@, 0));
        return true;
    }
    let mut i: usize = 0;
    while i <= lb - ls
        invariant
            lb == big@.len(),
            ls == small@.len(),
            0 < ls <= lb,
            i <= lb - ls + 1,
            forall|k: int| 0 <= k < i ==> !occurs_at(big@, small@, k),
        decreases lb - ls + 1 - i,
    {
        let sub = big.substring_char(i, i + ls);
        if str_eq(sub, small) {
            assert(occurs_at(big@, small@, i as int));
            return true;
        }
        assert(big@.subrange(i as int, i + ls as int) != small@);
        i = i + 1;
    }
    proof {
        if exists|k: int| occurs_at(big@, small@, k) {
            let w = choose|k: int| occurs_at(big@, small@, k);
            assert(w + ls <= lb);
            assert(!occurs_at(big@, small@, w));
        }
    }
    false
}

/// `s` without its leading slashes.
pub open spec fn spec_trim_lead(s: Seq<char>) -> Seq<char>
    decreases s.len(),
{
    if s.len() > 0 && s[0] == '/' {
        spec_trim_lead(s.skip(1))
    } else {
        s
    }
}

/// `s` without its trailing slashes.
pub open spec fn spec_trim_trail(s: Seq<char>) -> Seq<char>
    decreases s.len(),
{
    if s.len() > 0 && s[s.len() - 1] == '/' {
        spec_trim_trail(s.take(s.len() - 1))
    } else {
        s
    }
}

/// `s` without leading and trailing slashes.
pub open spec fn spec_trim_slashes(s: Seq<char>) -> Seq<char> {
    spec_trim_trail(spec_trim_lead(s))
}

/// Trim leading and trailing slashes, as a configured path prefix is
/// normalized.
pub fn trim_slashes(s: &str) -> (r: String)
    ensures
        r@ == spec_trim_slashes(s@),
{
    let len = s.unicode_len();
    let mut i: usize = 0;
    assert(s@.skip(0) =~= s@);
    while i < len && s.get_char(i) == '/'
        invariant
            len == s@.len(),
            i <= len,
            spec_trim_lead(s@) == spec_trim_lead(s@.skip(i as int)),
        decreases len - i,
    {
        assert(s@.skip(i as int)[0] == '/');
        assert(s@.skip(i as int).skip(1) =~= s@.skip(i as int + 1));
        i = i + 1;
    }
    proof {
        if i < len {
            assert(s@.skip(i as int)[0] != '/');
        } else {
            assert(s@.skip(i as int).len() == 0);
        }
        assert(spec_trim_lead(s@) == s@.skip(i as int));
    }
    let ghost u = s@.skip(i as int);
    let mut j: usize = len;
    assert(u.take(len - i) =~= u);
    while j > i && s.get_char(j - 1) == '/'
        invariant
            len == s@.len(),
            i <= j <= len,
            u == s@.skip(i as int),
            spec_trim_trail(u) == spec_trim_trail(u.take(j - i)),
        decreases j,
    {
        proof {
            let t = u.take(j - i);
            assert(t[t.len() - 1] == s@[j - 1]);
            assert(t.take(t.len() - 1) =~= u.take(j - 1 - i));
        }
        j = j - 1;
    }
    proof {
        let t = u.take(j - i);
        if j > i {
            assert(t[t.len() - 1] == s@[j - 1]);
            assert(spec_trim_trail(t) == t);
        } else {
            assert(t.len() == 0);
            assert(spec_trim_trail(t) == t);
            assert(t =~= u.take(0));
        }
    }
    let r = s.substring_char(i, j);
    assert(r@ =~= s@.skip(i as int).take(j - i));
    r.to_owned()
}

} // verus!
