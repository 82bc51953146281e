//! The compact date-time-with-DST-flag token used throughout telegrams.
//!
//! A token is twelve decimal digits (two each for year, month, day, hour,
//! minute, second) followed by one flag character: `S` for daylight-saving
//! (summer) time, `W` for winter time. Any other flag, any non-digit, or a
//! wrong length is malformed. Out-of-range calendar fields pass through
//! unchecked: the decoder is purely syntactic, as the meter itself is.

use vstd::prelude::*;

use crate::scan::{all_digits, is_digit, FLAG_SUMMER, FLAG_WINTER};
use crate::types::Timestamp;

verus! {

/// The two-digit field starting at position `i` of a token.
pub open spec fn two_digits(s: Seq<u8>, i: int) -> u8 {
    (((s[i] - 48) * 10 + (s[i + 1] - 48))) as u8
}

/// What a timestamp token decodes to, if well formed.
pub open spec fn spec_parse_timestamp(s: Seq<u8>) -> Option<Timestamp> {
    if s.len() == 13 && all_digits(s.take(12)) && (s[12] == FLAG_SUMMER || s[12] == FLAG_WINTER) {
        Some(
            Timestamp {
                year: two_digits(s, 0),
                month: two_digits(s, 2),
                day: two_digits(s, 4),
                hour: two_digits(s, 6),
                minute: two_digits(s, 8),
                second: two_digits(s, 10),
                dst: s[12] == FLAG_SUMMER,
            },
        )
    } else {
        None
    }
}

/// Decode the token `v[lo..hi)`.
#[verifier::loop_isolation(false)]
pub fn parse_timestamp(v: &Vec<u8>, lo: usize, hi: usize) -> (r: Option<Timestamp>)
    requires
        lo <= hi <= v@.len(),
    ensures
        r == spec_parse_timestamp(v@.subrange(lo as int, hi as int)),
{
    let ghost s = v@.subrange(lo as int, hi as int);
    if hi - lo != 13 {
        return None;
    }
    let mut i: usize = 0;
    while i < 12
        invariant
            0 <= i <= 12,
            all_digits(s.take(i as int)),
        decreases 12 - i,
    {
        let b = v[lo + i];
        assert(b == s[i as int]);
        if b < 48 || b > 57 {
            assert(!all_digits(s.take(12))) by {
                assert(s.take(12)[i as int] == s[i as int]);
                assert(!is_digit(s.take(12)[i as int]));
            }
            return None;
        }
        proof {
            let tk = s.take(i + 1 as int);
            assert(forall|j: int| 0 <= j < i ==> tk[j] == s.take(i as int)[j]);
            assert(tk[i as int] == s[i as int]);
            assert(all_digits(tk));
        }
        i = i + 1;
    }
    let flag = v[lo + 12];
    assert(flag == s[12]);
    if flag != FLAG_SUMMER && flag != FLAG_WINTER {
        return None;
    }
    proof {
        assert(forall|j: int| 0 <= j < 12 ==> s.take(12)[j] == #[trigger] s[j]);
        assert(forall|j: int| 0 <= j < 12 ==> is_digit(#[trigger] s.take(12)[j]));
    }
    let r = Timestamp {
        year: pair_at(v, lo),
        month: pair_at(v, lo + 2),
        day: pair_at(v, lo + 4),
        hour: pair_at(v, lo + 6),
        minute: pair_at(v, lo + 8),
        second: pair_at(v, lo + 10),
        dst: flag == FLAG_SUMMER,
    };
    proof {
        assert(v@.subrange(lo as int, lo + 2) =~= s.subrange(0, 2));
        assert(s[0] == v@[lo as int] && s[1] == v@[lo + 1]);
        assert(s[2] == v@[lo + 2] && s[3] == v@[lo + 3]);
        assert(s[4] == v@[lo + 4] && s[5] == v@[lo + 5]);
        assert(s[6] == v@[lo + 6] && s[7] == v@[lo + 7]);
        assert(s[8] == v@[lo + 8] && s[9] == v@[lo + 9]);
        assert(s[10] == v@[lo + 10] && s[11] == v@[lo + 11]);
    }
    Some(r)
}

/// The two-digit number at `v[i..i+2)`.
fn pair_at(v: &Vec<u8>, i: usize) -> (r: u8)
    requires
        i + 2 <= v@.len(),
        is_digit(v@[i as int]),
        is_digit(v@[i + 1]),
    ensures
        r == two_digits(v@, i as int),
{
    let n = v.len();
    assert(i + 2 <= n);
    (v[i] - 48) * 10 + (v[i + 1] - 48)
}

} // verus!
