//! Lowercase hexadecimal encoding and tolerant decoding of byte strings.
//!
//! Telegram sends the `hash` field as lowercase hex; decoding accepts both
//! cases, and fails on an odd length or a non-digit, exactly as the spec
//! functions here state.

use vstd::prelude::*;

verus! {

/// The lowercase hex digit of a value below 16.
pub open spec fn hex_digit(n: u8) -> u8 {
    if n < 10 {
        (48 + n) as u8
    } else {
        (87 + n) as u8
    }
}

/// The lowercase hex text of a byte string: two digits per byte, high
/// nibble first.
pub open spec fn hex_lower(b: Seq<u8>) -> Seq<u8>
    decreases b.len(),
{
    if b.len() == 0 {
        Seq::empty()
    } else {
        hex_lower(b.drop_last()) + seq![hex_digit(b.last() / 16), hex_digit(b.last() % 16)]
    }
}

/// The value of one hex digit, either case; `None` for a non-digit.
pub open spec fn hex_val(c: u8) -> Option<u8> {
    if 48 <= c <= 57 {
        Some((c - 48) as u8)
    } else if 97 <= c <= 102 {
        Some((c - 87) as u8)
    } else if 65 <= c <= 70 {
        Some((c - 55) as u8)
    } else {
        None
    }
}

/// The bytes a hex text stands for: `None` on an odd length or a non-digit.
pub open spec fn hex_decoded(s: Seq<u8>) -> Option<Seq<u8>>
    decreases s.len(),
{
    if s.len() % 2 != 0 {
        None
    } else if s.len() == 0 {
        Some(Seq::empty())
    } else {
        let hi = hex_val(s[s.len() - 2]);
        let lo = hex_val(s[s.len() - 1]);
        let rest = hex_decoded(s.take(s.len() - 2));
        if hi is Some && lo is Some && rest is Some {
            Some(rest->0.push((hi->0 * 16 + lo->0) as u8))
        } else {
            None
        }
    }
}

/// Encode a byte string as lowercase hex.
pub fn hex_encode(b: &[u8]) -> (r: Vec<u8>)
    ensures
        r@ == hex_lower(b@),
{
    let mut out: Vec<u8> = Vec::new();
    let mut i: usize = 0;
    while i < b.len()
        invariant
            0 <= i <= b@.len(),
            out@ == hex_lower(b@.take(i as int)),
        decreases b@.len() - i,
    {
        let hi = b[i] / 16;
        let lo = b[i] % 16;
        out.push(if hi < 10 { 48 + hi } else { 87 + hi });
        out.push(if lo < 10 { 48 + lo } else { 87 + lo });
        proof {
            let t = b@.take(i + 1 as int);
            assert(t.drop_last() =~= b@.take(i as int));
            assert(t.last() == b@[i as int]);
            assert(out@ =~= hex_lower(b@.take(i + 1 as int)));
        }
        i = i + 1;
    }
    proof {
        assert(b@.take(b@.len() as int) =~= b@);
    }
    out
}

/// A hex text that decodes must be made of digits throughout.
proof fn lemma_hex_decoded_digit(s: Seq<u8>, i: int)
    requires
        hex_decoded(s) is Some,
        0 <= i < s.len(),
    ensures
        hex_val(s[i]) is Some,
    decreases s.len(),
{
    if s.len() >= 2 && i < s.len() - 2 {
        assert(s.take(s.len() - 2)[i] == s[i]);
        lemma_hex_decoded_digit(s.take(s.len() - 2), i);
    }
}

/// Decode a hex text, accepting both digit cases.
pub fn hex_decode(s: &[u8]) -> (r: Option<Vec<u8>>)
    ensures
        match r {
            Some(v) => hex_decoded(s@) == Some(v@),
            None => hex_decoded(s@) is None,
        },
{
    if s.len() % 2 != 0 {
        return None;
    }
    let mut out: Vec<u8> = Vec::new();
    let mut i: usize = 0;
    while i < s.len()
        invariant
            s@.len() % 2 == 0,
            i % 2 == 0,
            0 <= i <= s@.len(),
            hex_decoded(s@.take(i as int)) == Some(out@),
        decreases s@.len() - i,
    {
        let hi = hex_val_of(s[i]);
        let lo = hex_val_of(s[i + 1]);
        match (hi, lo) {
            (Some(h), Some(l)) => {
                out.push(h * 16 + l);
                proof {
                    let t = s@.take(i + 2 as int);
                    assert(t.take(t.len() - 2) =~= s@.take(i as int));
                    assert(t[t.len() - 2] == s@[i as int]);
                    assert(t[t.len() - 1] == s@[i + 1 as int]);
                    assert(hex_decoded(t) == Some(out@)) by {
                        assert(hex_decoded(t)->0 =~= out@);
                    }
                }
                i = i + 2;
            },
            _ => {
                proof {
                    let j: int = if hex_val(s@[i as int]) is None {
                        i as int
                    } else {
                        i + 1 as int
                    };
                    if hex_decoded(s@) is Some {
                        lemma_hex_decoded_digit(s@, j);
                    }
                }
                return None;
            },
        }
    }
    proof {
        assert(s@.take(s@.len() as int) =~= s@);
    }
    Some(out)
}

/// The value of one hex digit, either case.
pub(crate) fn hex_val_of(c: u8) -> (r: Option<u8>)
    ensures
        r == hex_val(c),
{
    if 48 <= c && c <= 57 {
        Some(c - 48)
    } else if 97 <= c && c <= 102 {
        Some(c - 87)
    } else if 65 <= c && c <= 70 {
        Some(c - 55)
    } else {
        None
    }
}

} // verus!
