use vstd::prelude::*;

verus! {

/// Bytes that percent-encoding leaves as they are: ASCII letters and digits,
/// `-`, `.`, `_`, `~`, and the path separator `/`.
pub open spec fn is_plain_byte(b: u8) -> bool {
    (48 <= b && b <= 57)  // 0-9
    || (65 <= b && b <= 90)  // A-Z
    || (97 <= b && b <= 122)  // a-z
    || b == 45 || b == 46 || b == 95 || b == 126  // - . _ ~
    || b == 47  // /
}

/// True when `b` is an ASCII hexadecimal digit.
pub open spec fn is_hex_byte(b: u8) -> bool {
    (48 <= b && b <= 57) || (65 <= b && b <= 70) || (97 <= b && b <= 102)
}

/// Numeric value of an ASCII hexadecimal digit byte.
pub open spec fn hex_byte_val(b: u8) -> int {
    if 48 <= b && b <= 57 {
        b - 48
    } else if 65 <= b && b <= 70 {
        b - 55
    } else {
        b - 87
    }
}

/// The uppercase hexadecimal digit byte for a value in 0..16.
pub open spec fn hex_byte_char(d: int) -> u8 {
    if d < 10 {
        (48 + d) as u8
    } else {
        (55 + d) as u8
    }
}

/// How one byte is written in a percent-encoded string: plain bytes stand for
/// themselves, every other byte becomes `%` and two uppercase hex digits.
pub open spec fn spec_encode_byte(b: u8) -> Seq<u8> {
    if is_plain_byte(b) {
        seq![b]
    } else {
        seq![37u8, hex_byte_char(b as int / 16), hex_byte_char(b as int % 16)]
    }
}

/// Percent-encode a byte string.
pub open spec fn spec_percent_encode(s: Seq<u8>) -> Seq<u8>
    decreases s.len(),
{
    if s.len() == 0 {
        Seq::empty()
    } else {
        spec_encode_byte(s[0]) + spec_percent_encode(s.skip(1))
    }
}

/// Percent-decode a byte string. `%` must be followed by two hex digits;
/// every other byte stands for itself.
pub open spec fn spec_percent_decode(s: Seq<u8>) -> Option<Seq<u8>>
    decreases s.len(),
{
    if s.len() == 0 {
        Some(Seq::empty())
    } else if s[0] == 37 {
        if s.len() >= 3 && is_hex_byte(s[1]) && is_hex_byte(s[2]) {
            match spec_percent_decode(s.skip(3)) {
                Some(t) => Some(seq![(hex_byte_val(s[1]) * 16 + hex_byte_val(s[2])) as u8] + t),
                None => None,
            }
        } else {
            None
        }
    } else {
        match spec_percent_decode(s.skip(1)) {
            Some(t) => Some(seq![s[0]] + t),
            None => None,
        }
    }
}

/// Percent-encode `s`.
pub fn percent_encode(s: &Vec<u8>) -> (r: Vec<u8>)
    ensures
        r@ == spec_percent_encode(s@),
{
    let mut out: Vec<u8> = Vec::new();
    let mut i: usize = 0;
    while i < s.len()
        invariant
            i <= s@.len(),
            out@ == spec_percent_encode(s@.take(i as int)),
        decreases s@.len() - i,
    {
        let b = s[i];
        let plain = (48 <= b && b <= 57) || (65 <= b && b <= 90) || (97 <= b && b <= 122) || b
            == 45 || b == 46 || b == 95 || b == 126 || b == 47;
        if plain {
            out.push(b);
        } else {
            out.push(37);
            let hi = b / 16;
            let lo = b % 16;
            out.push(if hi < 10 { 48 + hi } else { 55 + hi });
            out.push(if lo < 10 { 48 + lo } else { 55 + lo });
        }
        proof {
            lemma_encode_take_step(s@, i as int);
        }
        i = i + 1;
    }
    assert(s@.take(s@.len() as int) =~= s@);
    out
}

proof fn lemma_encode_take_step(s: Seq<u8>, i: int)
    requires
        0 <= i < s.len(),
    ensures
        spec_percent_encode(s.take(i + 1)) == spec_percent_encode(s.take(i)) + spec_encode_byte(
            s[i],
        ),
    decreases i,
{
    if i == 0 {
        let t = s.take(1);
        assert(t.len() == 1 && t[0] == s[0]);
        assert(t.skip(1) =~= s.take(0));
        assert(s.take(0).len() == 0);
        assert(spec_percent_encode(s.take(0)) == Seq::<u8>::empty());
        assert(spec_percent_encode(t) == spec_encode_byte(t[0]) + spec_percent_encode(t.skip(1)));
        assert(spec_encode_byte(s[0]) + Seq::<u8>::empty() =~= spec_encode_byte(s[0]));
        assert(Seq::<u8>::empty() + spec_encode_byte(s[0]) =~= spec_encode_byte(s[0]));
        assert(spec_percent_encode(s.take(1)) =~= spec_percent_encode(s.take(0)) + spec_encode_byte(
            s[0],
        ));
    } else {
        lemma_encode_take_step(s.skip(1), i - 1);
        assert(s.take(i + 1).skip(1) =~= s.skip(1).take(i));
        assert(s.take(i).skip(1) =~= s.skip(1).take(i - 1));
        assert(s.skip(1)[i - 1] == s[i]);
        assert(spec_percent_encode(s.take(i + 1)) == spec_encode_byte(s[0])
            + spec_percent_encode(s.skip(1).take(i)));
        assert(spec_percent_encode(s.take(i)) == spec_encode_byte(s[0]) + spec_percent_encode(
            s.skip(1).take(i - 1),
        ));
        assert(spec_percent_encode(s.take(i + 1)) =~= spec_percent_encode(s.take(i))
            + spec_encode_byte(s[i]));
    }
}

/// Percent-decode `s`; `None` on a malformed escape.
pub fn percent_decode(s: &Vec<u8>) -> (r: Option<Vec<u8>>)
    ensures
        match r {
            Some(v) => spec_percent_decode(s@) == Some(v@),
            None => spec_percent_decode(s@) is None,
        },
{
    let mut out: Vec<u8> = Vec::new();
    let mut i: usize = 0;
    proof {
        assert(s@.skip(0) =~= s@);
        if spec_percent_decode(s@) is Some {
            let t = spec_percent_decode(s@).unwrap();
            assert(out@ + t =~= t);
        }
    }
    while i < s.len()
        invariant
            i <= s@.len(),
            spec_percent_decode(s@) == match spec_percent_decode(s@.skip(i as int)) {
                Some(t) => Some(out@ + t),
                None => None::<Seq<u8>>,
            },
        decreases s@.len() - i,
    {
        let ghost pre = out@;
        let ghost rest = s@.skip(i as int);
        let b = s[i];
        assert(rest[0] == b);
        if b == 37 {
            if s.len() - i < 3 {
                assert(rest.len() < 3);
                return None;
            }
            let h1 = s[i + 1];
            let h2 = s[i + 2];
            assert(rest[1] == h1 && rest[2] == h2);
            let v1: u8 = if 48 <= h1 && h1 <= 57 {
                h1 - 48
            } else if 65 <= h1 && h1 <= 70 {
                h1 - 55
            } else if 97 <= h1 && h1 <= 102 {
                h1 - 87
            } else {
                assert(!is_hex_byte(rest[1]));
                return None;
            };
            let v2: u8 = if 48 <= h2 && h2 <= 57 {
                h2 - 48
            } else if 65 <= h2 && h2 <= 70 {
                h2 - 55
            } else if 97 <= h2 && h2 <= 102 {
                h2 - 87
            } else {
                assert(!is_hex_byte(rest[2]));
                return None;
            };
            assert(v1 == hex_byte_val(rest[1]) && v1 < 16);
            assert(v2 == hex_byte_val(rest[2]) && v2 < 16);
            out.push(v1 * 16 + v2);
            assert(s@.skip(i + 3) =~= rest.skip(3));
            assert(out@ =~= pre + seq![(hex_byte_val(rest[1]) * 16 + hex_byte_val(rest[2])) as u8]);
            proof {
                if spec_percent_decode(rest.skip(3)) is Some {
                    let t = spec_percent_decode(rest.skip(3)).unwrap();
                    assert(spec_percent_decode(rest) == Some(
                        seq![(hex_byte_val(rest[1]) * 16 + hex_byte_val(rest[2])) as u8] + t,
                    ));
                    assert(pre + (seq![(hex_byte_val(rest[1]) * 16 + hex_byte_val(rest[2])) as u8]
                        + t) =~= out@ + t);
                }
            }
            i = i + 3;
        } else {
            out.push(b);
            assert(s@.skip(i + 1) =~= rest.skip(1));
            proof {
                if spec_percent_decode(rest.skip(1)) is Some {
                    let t = spec_percent_decode(rest.skip(1)).unwrap();
                    assert(spec_percent_decode(rest) == Some(seq![rest[0]] + t));
                    assert(pre + (seq![rest[0]] + t) =~= out@ + t);
                }
            }
            i = i + 1;
        }
    }
    assert(s@.skip(s@.len() as int) =~= Seq::<u8>::empty());
    assert(out@ + Seq::<u8>::empty() =~= out@);
    Some(out)
}

/// Every byte of a percent-encoded string is printable ASCII.
pub proof fn lemma_encode_ascii(s: Seq<u8>)
    ensures
        forall|i: int|
            0 <= i < spec_percent_encode(s).len() ==> #[trigger] spec_percent_encode(s)[i] < 128,
    decreases s.len(),
{
    if s.len() > 0 {
        lemma_encode_ascii(s.skip(1));
        let e = spec_percent_encode(s);
        let eb = spec_encode_byte(s[0]);
        let rest = spec_percent_encode(s.skip(1));
        assert(s[0] as int / 16 < 16) by (nonlinear_arith);
        assert(s[0] as int / 16 >= 0) by (nonlinear_arith);
        assert forall|i: int| 0 <= i < e.len() implies #[trigger] e[i] < 128 by {
            if i < eb.len() {
                assert(e[i] == eb[i]);
            } else {
                assert(e[i] == rest[i - eb.len()]);
            }
        }
    }
}

/// Decoding inverts encoding: every byte string comes back unchanged.
pub proof fn lemma_percent_round_trip(s: Seq<u8>)
    ensures
        spec_percent_decode(spec_percent_encode(s)) == Some(s),
    decreases s.len(),
{
    if s.len() == 0 {
        assert(spec_percent_encode(s) =~= Seq::<u8>::empty());
    } else {
        lemma_percent_round_trip(s.skip(1));
        let e = spec_percent_encode(s);
        let b = s[0];
        if is_plain_byte(b) {
            assert(e == seq![b] + spec_percent_encode(s.skip(1)));
            assert(e[0] == b && b != 37);
            assert(e.skip(1) =~= spec_percent_encode(s.skip(1)));
            assert(spec_percent_decode(e) == Some(seq![b] + s.skip(1)));
            assert(seq![b] + s.skip(1) =~= s);
        } else {
            let hi = hex_byte_char(b as int / 16);
            let lo = hex_byte_char(b as int % 16);
            assert(e == seq![37u8, hi, lo] + spec_percent_encode(s.skip(1)));
            assert(e[0] == 37 && e[1] == hi && e[2] == lo);
            assert(e.len() >= 3);
            assert(is_hex_byte(hi) && is_hex_byte(lo));
            assert(hex_byte_val(hi) == b as int / 16 && hex_byte_val(lo) == b as int % 16);
            assert(e.skip(3) =~= spec_percent_encode(s.skip(1)));
            assert((hex_byte_val(hi) * 16 + hex_byte_val(lo)) as u8 == b);
            assert(spec_percent_decode(e) == Some(seq![b] + s.skip(1)));
            assert(seq![b] + s.skip(1) =~= s);
        }
    }
}

} // verus!
