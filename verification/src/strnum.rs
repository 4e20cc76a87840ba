use vstd::prelude::*;

use crate::shim::string_push;

verus! {

/// True when `c` is an ASCII decimal digit.
pub open spec fn is_digit_char(c: char) -> bool {
    48 <= c as u32 && c as u32 <= 57
}

/// Numeric value of an ASCII decimal digit character.
pub open spec fn digit_val(c: char) -> int {
    c as u32 - 48
}

/// The ASCII decimal digit character for a value in 0..10.
pub open spec fn digit_char(d: int) -> char {
    ((48 + d) as u8) as char
}

/// The decimal representation of `n`, most significant digit first.
pub open spec fn spec_u64_chars(n: nat) -> Seq<char>
    decreases n,
{
    if n < 10 {
        seq![digit_char(n as int)]
    } else {
        spec_u64_chars(n / 10).push(digit_char((n % 10) as int))
    }
}

/// True when every character of `s` is an ASCII decimal digit.
pub open spec fn all_digits(s: Seq<char>) -> bool {
    forall|i: int| 0 <= i < s.len() ==> is_digit_char(s[i])
}

/// The numeric value of a digit string, read in base ten.
pub open spec fn spec_dec_value(s: Seq<char>) -> int
    decreases s.len(),
{
    if s.len() == 0 {
        0
    } else {
        spec_dec_value(s.take(s.len() - 1)) * 10 + digit_val(s[s.len() - 1])
    }
}

fn u64_digits(n: u64) -> (r: Vec<char>)
    ensures
        r@ == spec_u64_chars(n as nat),
    decreases n,
{
    if n < 10 {
        let mut v: Vec<char> = Vec::new();
        v.push(((48 + n) as u8) as char);
        assert(v@ =~= seq![digit_char(n as int)]);
        v
    } else {
        let mut v = u64_digits(n / 10);
        v.push(((48 + n % 10) as u8) as char);
        assert(v@ =~= spec_u64_chars((n / 10) as nat).push(digit_char((n % 10) as int)));
        v
    }
}

/// Render `n` in decimal.
pub fn u64_to_string(n: u64) -> (r: String)
    ensures
        r@ == spec_u64_chars(n as nat),
{
    let digits = u64_digits(n);
    let mut s = String::new();
    let mut i: usize = 0;
    while i < digits.len()
        invariant
            i <= digits@.len(),
            digits@ == spec_u64_chars(n as nat),
            s@ == digits@.take(i as int),
        decreases digits@.len() - i,
    {
        string_push(&mut s, digits[i]);
        assert(digits@.take(i + 1) =~= digits@.take(i as int).push(digits@[i as int]));
        i = i + 1;
    }
    assert(digits@.take(digits@.len() as int) =~= digits@);
    s
}

proof fn lemma_dec_value_nonneg(s: Seq<char>)
    requires
        all_digits(s),
    ensures
        spec_dec_value(s) >= 0,
    decreases s.len(),
{
    if s.len() > 0 {
        assert(all_digits(s.take(s.len() - 1)));
        lemma_dec_value_nonneg(s.take(s.len() - 1));
    }
}

proof fn lemma_dec_value_monotone(s: Seq<char>, i: int)
    requires
        all_digits(s),
        0 <= i <= s.len(),
    ensures
        spec_dec_value(s) >= spec_dec_value(s.take(i)),
    decreases s.len() - i,
{
    if i < s.len() {
        lemma_dec_value_monotone(s, i + 1);
        let t = s.take(i + 1);
        assert(t.take(t.len() - 1) =~= s.take(i));
        assert(all_digits(t.take(t.len() - 1)));
        lemma_dec_value_nonneg(s.take(i));
        assert(spec_dec_value(t) == spec_dec_value(s.take(i)) * 10 + digit_val(s[i]));
        assert(spec_dec_value(t) >= spec_dec_value(s.take(i)));
    } else {
        assert(s.take(i) =~= s);
    }
}

/// Parse a decimal number. Returns the value exactly when the whole string is
/// one or more ASCII digits and the value fits in a `u64`.
pub fn parse_u64(s: &str) -> (r: Option<u64>)
    ensures
        match r {
            Some(n) => all_digits(s@) && s@.len() > 0 && spec_dec_value(s@) == n,
            None => !(all_digits(s@) && s@.len() > 0 && spec_dec_value(s@) <= u64::MAX),
        },
{
    let len = s.unicode_len();
    if len == 0 {
        return None;
    }
    let mut acc: u128 = 0;
    let mut i: usize = 0;
    while i < len
        invariant
            0 < len == s@.len(),
            i <= len,
            all_digits(s@.take(i as int)),
            acc == spec_dec_value(s@.take(i as int)),
            acc <= u64::MAX,
        decreases len - i,
    {
        let c = s.get_char(i);
        let u = c as u32;
        if !(48 <= u && u <= 57) {
            assert(!is_digit_char(s@[i as int]));
            return None;
        }
        let d: u128 = (u - 48) as u128;
        let next: u128 = acc * 10 + d;
        assert(s@.take(i + 1).take(i as int) =~= s@.take(i as int));
        assert(next == spec_dec_value(s@.take(i + 1)));
        if next > u64::MAX as u128 {
            proof {
                if all_digits(s@) {
                    lemma_dec_value_monotone(s@, i + 1);
                    assert(spec_dec_value(s@) >= spec_dec_value(s@.take(i + 1)));
                }
            }
            return None;
        }
        acc = next;
        i = i + 1;
    }
    assert(s@.take(len as int) =~= s@);
    Some(acc as u64)
}

} // verus!
