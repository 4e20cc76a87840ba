use vstd::prelude::*;

verus! {

/// Whether a name pattern matches a name: `*` stands for any run of
/// characters, `?` for exactly one, anything else for itself.
pub open spec fn spec_glob_matches(p: Seq<char>, s: Seq<char>) -> bool
    decreases p.len(), s.len(),
{
    if p.len() == 0 {
        s.len() == 0
    } else if p[0] == '*' {
        spec_glob_matches(p.skip(1), s) || (s.len() > 0 && spec_glob_matches(p, s.skip(1)))
    } else if s.len() == 0 {
        false
    } else {
        (p[0] == '?' || p[0] == s[0]) && spec_glob_matches(p.skip(1), s.skip(1))
    }
}

fn glob_from(p: &str, s: &str, i: usize, j: usize, lp: usize, ls: usize) -> (r: bool)
    requires
        lp == p@.len(),
        ls == s@.len(),
        i <= lp,
        j <= ls,
    ensures
        r == spec_glob_matches(p@.skip(i as int), s@.skip(j as int)),
    decreases lp - i, ls - j,
{
    proof {
        if i < lp {
            assert(p@.skip(i as int)[0] == p@[i as int]);
            assert(p@.skip(i as int).skip(1) =~= p@.skip(i as int + 1));
        }
        if j < ls {
            assert(s@.skip(j as int)[0] == s@[j as int]);
            assert(s@.skip(j as int).skip(1) =~= s@.skip(j as int + 1));
        }
    }
    if i == lp {
        j == ls
    } else if p.get_char(i) == '*' {
        if glob_from(p, s, i + 1, j, lp, ls) {
            true
        } else {
            j < ls && glob_from(p, s, i, j + 1, lp, ls)
        }
    } else if j == ls {
        false
    } else {
        let pc = p.get_char(i);
        let sc = s.get_char(j);
        (pc == '?' || pc == sc) && glob_from(p, s, i + 1, j + 1, lp, ls)
    }
}

/// Whether a name pattern matches a name.
pub fn glob_matches(p: &str, s: &str) -> (r: bool)
    ensures
        r == spec_glob_matches(p@, s@),
{
    let lp = p.unicode_len();
    let ls = s.unicode_len();
    let r = glob_from(p, s, 0, 0, lp, ls);
    assert(p@.skip(0) =~= p@);
    assert(s@.skip(0) =~= s@);
    r
}

/// Whether a name is hidden from listings: some configured pattern matches
/// it.
pub fn is_hidden(hidden: &Vec<String>, name: &str) -> (r: bool)
    ensures
        r == exists|k: int|
            0 <= k < hidden@.len() && spec_glob_matches(hidden@[k]@, name@),
{
    let mut k: usize = 0;
    while k < hidden.len()
        invariant
            k <= hidden@.len(),
            forall|x: int| 0 <= x < k ==> !spec_glob_matches(hidden@[x]@, name@),
        decreases hidden@.len() - k,
    {
        if glob_matches(hidden[k].as_str(), name) {
            assert(spec_glob_matches(hidden@[k as int]@, name@));
            return true;
        }
        k = k + 1;
    }
    proof {
        if exists|x: int| 0 <= x < hidden@.len() && spec_glob_matches(hidden@[x]@, name@) {
            let w = choose|x: int| 0 <= x < hidden@.len() && spec_glob_matches(hidden@[x]@, name@);
            assert(!spec_glob_matches(hidden@[w]@, name@));
        }
    }
    false
}

} // verus!
