//! Percent-decoding of URL-encoded values.
//!
//! Telegram signs the decoded value of every field, so each wire value must
//! be decoded before it enters the check string. A `%` followed by two hex
//! digits becomes one byte; any other byte, a malformed `%` sequence
//! included, is copied verbatim.

use vstd::prelude::*;

use crate::hexcode::hex_val;
use crate::hexcode::hex_val_of;
use crate::names::PCT;

verus! {

/// The percent-decoded form of a byte string.
pub open spec fn percent_decoded(s: Seq<u8>) -> Seq<u8>
    decreases s.len(),
{
    if s.len() == 0 {
        Seq::empty()
    } else if s[0] == PCT && s.len() >= 3 && hex_val(s[1]) is Some && hex_val(s[2]) is Some {
        seq![(hex_val(s[1])->0 * 16 + hex_val(s[2])->0) as u8] + percent_decoded(s.skip(3))
    } else {
        seq![s[0]] + percent_decoded(s.skip(1))
    }
}

/// Percent-decode a byte string.
pub fn percent_decode(s: &[u8]) -> (r: Vec<u8>)
    ensures
        r@ == percent_decoded(s@),
{
    let mut out: Vec<u8> = Vec::new();
    let mut i: usize = 0;
    proof {
        assert(s@.skip(0) =~= s@);
        assert(Seq::<u8>::empty() + percent_decoded(s@) =~= percent_decoded(s@));
    }
    while i < s.len()
        invariant
            0 <= i <= s@.len(),
            percent_decoded(s@) == out@ + percent_decoded(s@.skip(i as int)),
        decreases s@.len() - i,
    {
        let ghost rest = s@.skip(i as int);
        if s[i] == PCT && s.len() - i > 2 {
            let hi = hex_val_of(s[i + 1]);
            let lo = hex_val_of(s[i + 2]);
            match (hi, lo) {
                (Some(h), Some(l)) => {
                    out.push(h * 16 + l);
                    proof {
                        assert(rest[0] == s@[i as int]);
                        assert(rest[1] == s@[i + 1 as int]);
                        assert(rest[2] == s@[i + 2 as int]);
                        assert(rest.skip(3) =~= s@.skip(i + 3 as int));
                        assert(percent_decoded(s@) =~= out@ + percent_decoded(
                            s@.skip(i + 3 as int),
                        ));
                    }
                    i = i + 3;
                },
                _ => {
                    out.push(s[i]);
                    proof {
                        assert(rest[0] == s@[i as int]);
                        assert(rest.skip(1) =~= s@.skip(i + 1 as int));
                        assert(percent_decoded(s@) =~= out@ + percent_decoded(
                            s@.skip(i + 1 as int),
                        ));
                    }
                    i = i + 1;
                },
            }
        } else {
            out.push(s[i]);
            proof {
                assert(rest[0] == s@[i as int]);
                assert(rest.skip(1) =~= s@.skip(i + 1 as int));
                assert(percent_decoded(s@) =~= out@ + percent_decoded(s@.skip(i + 1 as int)));
            }
            i = i + 1;
        }
    }
    proof {
        assert(s@.skip(s@.len() as int) =~= Seq::<u8>::empty());
        assert(out@ =~= out@ + percent_decoded(Seq::<u8>::empty()));
    }
    out
}

} // verus!
