//! Byte-level scanning and numeral helpers shared by the frame reader and
//! the OBIS object parser.
//!
//! All searching specs speak about a window `[lo, hi)` of one byte sequence,
//! so that executable code can work with plain indices into one buffer.

use vstd::prelude::*;

verus! {

/// Frame start marker `/`.
pub const SLASH: u8 = 47;
/// Frame end marker `!`.
pub const BANG: u8 = 33;
/// Line feed.
pub const LF: u8 = 10;
/// Carriage return.
pub const CR: u8 = 13;
/// `-` inside a reference code.
pub const DASH: u8 = 45;
/// `:` inside a reference code.
pub const COLON: u8 = 58;
/// `.` inside a reference code or a numeral.
pub const DOT: u8 = 46;
/// `(` opening a value group.
pub const LPAREN: u8 = 40;
/// `)` closing a value group.
pub const RPAREN: u8 = 41;
/// `*` separating a numeral from its unit tag.
pub const STAR: u8 = 42;
/// Daylight-saving flag for summer time.
pub const FLAG_SUMMER: u8 = 83;
/// Daylight-saving flag for winter time.
pub const FLAG_WINTER: u8 = 87;

pub open spec fn is_digit(b: u8) -> bool {
    48 <= b && b <= 57
}

pub open spec fn all_digits(s: Seq<u8>) -> bool {
    forall|i: int| 0 <= i < s.len() ==> #[trigger] is_digit(s[i])
}

/// Numeric value of a run of ASCII digits, most significant digit first.
pub open spec fn digits_val(s: Seq<u8>) -> int
    decreases s.len(),
{
    if s.len() == 0 {
        0
    } else {
        digits_val(s.drop_last()) * 10 + (s.last() - 48)
    }
}

pub open spec fn pow10(n: nat) -> int
    decreases n,
{
    if n == 0 {
        1
    } else {
        10 * pow10((n - 1) as nat)
    }
}

pub proof fn lemma_pow10_pos(n: nat)
    ensures
        pow10(n) >= 1,
    decreases n,
{
    if n > 0 {
        lemma_pow10_pos((n - 1) as nat);
    }
}

pub proof fn lemma_pow10_mono(m: nat, n: nat)
    requires
        m <= n,
    ensures
        pow10(m) <= pow10(n),
    decreases n,
{
    if m < n {
        lemma_pow10_mono(m, (n - 1) as nat);
        lemma_pow10_pos((n - 1) as nat);
    }
}

pub proof fn lemma_pow10_add(m: nat, n: nat)
    ensures
        pow10(m + n) == pow10(m) * pow10(n),
    decreases m,
{
    if m == 0 {
    } else {
        lemma_pow10_add((m - 1) as nat, n);
        assert(pow10(m + n) == 10 * pow10(((m - 1) + n) as nat));
        assert(10 * (pow10((m - 1) as nat) * pow10(n)) == (10 * pow10((m - 1) as nat)) * pow10(n))
            by (nonlinear_arith);
    }
}

/// The value of an `n`-digit numeral is below `10^n`.
pub proof fn lemma_digits_val_bound(s: Seq<u8>)
    requires
        all_digits(s),
    ensures
        0 <= digits_val(s) < pow10(s.len()),
    decreases s.len(),
{
    if s.len() > 0 {
        assert(all_digits(s.drop_last())) by {
            assert(forall|i: int|
                0 <= i < s.len() - 1 ==> s.drop_last()[i] == s[i] && is_digit(s[i]));
        }
        lemma_digits_val_bound(s.drop_last());
        assert(is_digit(s.last()));
        assert(pow10(s.len()) == 10 * pow10((s.len() - 1) as nat));
    }
}

/// First index of `t` in `s[lo..hi)`, if any.
pub open spec fn spec_find(s: Seq<u8>, lo: int, hi: int, t: u8) -> Option<int>
    decreases hi - lo,
{
    if lo < 0 || hi > s.len() || lo >= hi {
        None
    } else if s[lo] == t {
        Some(lo)
    } else {
        spec_find(s, lo + 1, hi, t)
    }
}

/// Last index of `t` in `s[lo..hi)`, if any.
pub open spec fn spec_rfind(s: Seq<u8>, lo: int, hi: int, t: u8) -> Option<int>
    decreases hi - lo,
{
    if lo < 0 || hi > s.len() || lo >= hi {
        None
    } else if s[hi - 1] == t {
        Some(hi - 1)
    } else {
        spec_rfind(s, lo, hi - 1, t)
    }
}

pub proof fn lemma_find_props(s: Seq<u8>, lo: int, hi: int, t: u8)
    requires
        0 <= lo <= hi <= s.len(),
    ensures
        match spec_find(s, lo, hi, t) {
            Some(k) => lo <= k < hi && s[k] == t && forall|j: int| lo <= j < k ==> s[j] != t,
            None => forall|j: int| lo <= j < hi ==> s[j] != t,
        },
    decreases hi - lo,
{
    if lo < hi && s[lo] != t {
        lemma_find_props(s, lo + 1, hi, t);
    }
}

pub proof fn lemma_rfind_props(s: Seq<u8>, lo: int, hi: int, t: u8)
    requires
        0 <= lo <= hi <= s.len(),
    ensures
        match spec_rfind(s, lo, hi, t) {
            Some(k) => lo <= k < hi && s[k] == t && forall|j: int| k < j < hi ==> s[j] != t,
            None => forall|j: int| lo <= j < hi ==> s[j] != t,
        },
    decreases hi - lo,
{
    if lo < hi && s[hi - 1] != t {
        lemma_rfind_props(s, lo, hi - 1, t);
    }
}

/// First occurrence of `t` in `v[lo..hi)`.
#[verifier::loop_isolation(false)]
pub fn find_byte(v: &Vec<u8>, lo: usize, hi: usize, t: u8) -> (r: Option<usize>)
    requires
        lo <= hi <= v@.len(),
    ensures
        (match r {
            Some(k) => spec_find(v@, lo as int, hi as int, t) == Some(k as int) && lo <= k < hi,
            None => spec_find(v@, lo as int, hi as int, t) is None,
        }),
{
    let mut i: usize = lo;
    while i < hi
        invariant
            lo <= i <= hi,
            spec_find(v@, lo as int, hi as int, t) == spec_find(v@, i as int, hi as int, t),
        decreases hi - i,
    {
        if v[i] == t {
            return Some(i);
        }
        i = i + 1;
    }
    None
}

/// Last occurrence of `t` in `v[lo..hi)`.
#[verifier::loop_isolation(false)]
pub fn rfind_byte(v: &Vec<u8>, lo: usize, hi: usize, t: u8) -> (r: Option<usize>)
    requires
        lo <= hi <= v@.len(),
    ensures
        (match r {
            Some(k) => spec_rfind(v@, lo as int, hi as int, t) == Some(k as int) && lo <= k < hi,
            None => spec_rfind(v@, lo as int, hi as int, t) is None,
        }),
{
    let mut i: usize = hi;
    while i > lo
        invariant
            lo <= i <= hi,
            spec_rfind(v@, lo as int, hi as int, t) == spec_rfind(v@, lo as int, i as int, t),
        decreases i,
    {
        if v[i - 1] == t {
            return Some(i - 1);
        }
        i = i - 1;
    }
    None
}

/// A numeral token: one to eighteen ASCII digits. The length cap keeps every
/// representable value inside `u64`; meters emit far shorter numerals.
pub open spec fn spec_parse_uint(s: Seq<u8>) -> Option<u64> {
    if 1 <= s.len() <= 18 && all_digits(s) {
        Some(digits_val(s) as u64)
    } else {
        None
    }
}

/// Decimal value of the digits `v[lo..hi)`, or `None` when the run is empty,
/// longer than eighteen digits, or holds a non-digit.
#[verifier::loop_isolation(false)]
pub fn parse_uint(v: &Vec<u8>, lo: usize, hi: usize) -> (r: Option<u64>)
    requires
        lo <= hi <= v@.len(),
    ensures
        r == spec_parse_uint(v@.subrange(lo as int, hi as int)),
{
    let ghost s = v@.subrange(lo as int, hi as int);
    let n = hi - lo;
    if n < 1 || n > 18 {
        return None;
    }
    let mut acc: u64 = 0;
    let mut i: usize = 0;
    while i < n
        invariant
            0 <= i <= n,
            all_digits(s.take(i as int)),
            acc == digits_val(s.take(i as int)),
            0 <= acc < pow10(i as nat),
        decreases n - i,
    {
        let b = v[lo + i];
        assert(b == s[i as int]);
        if b < 48 || b > 57 {
            assert(!is_digit(s[i as int]));
            assert(!all_digits(s));
            return None;
        }
        proof {
            let tk = s.take(i as int + 1);
            assert(tk.drop_last() =~= s.take(i as int));
            assert(tk.last() == s[i as int]);
            assert(all_digits(tk)) by {
                assert(forall|j: int| 0 <= j < i ==> tk[j] == s.take(i as int)[j]);
            }
            lemma_digits_val_bound(tk);
            lemma_pow10_mono((i + 1) as nat, 18);
            assert(pow10(18) == 1000000000000000000) by {
                reveal_with_fuel(pow10, 19);
            }
        }
        acc = acc * 10 + ((b - 48) as u64);
        i = i + 1;
    }
    proof {
        assert(s.take(n as int) =~= s);
        lemma_digits_val_bound(s);
    }
    Some(acc)
}

/// `10^n` for `n <= 18`.
#[verifier::loop_isolation(false)]
pub fn pow10_exec(n: usize) -> (r: u64)
    requires
        n <= 18,
    ensures
        r == pow10(n as nat),
{
    let mut r: u64 = 1;
    let mut i: usize = 0;
    while i < n
        invariant
            0 <= i <= n,
            r == pow10(i as nat),
        decreases n - i,
    {
        proof {
            lemma_pow10_pos(i as nat);
            lemma_pow10_mono((i + 1) as nat, 18);
            assert(pow10(18) == 1000000000000000000) by {
                reveal_with_fuel(pow10, 19);
            }
        }
        r = r * 10;
        i = i + 1;
    }
    r
}

/// Copy of the window `v[lo..hi)`, so that token parsers can use indices
/// that coincide with positions in the token itself.
#[verifier::loop_isolation(false)]
pub fn copy_range(v: &Vec<u8>, lo: usize, hi: usize) -> (r: Vec<u8>)
    requires
        lo <= hi <= v@.len(),
    ensures
        r@ == v@.subrange(lo as int, hi as int),
{
    let mut r: Vec<u8> = Vec::new();
    let mut i: usize = lo;
    while i < hi
        invariant
            lo <= i <= hi,
            r@ == v@.subrange(lo as int, i as int),
        decreases hi - i,
    {
        r.push(v[i]);
        proof {
            assert(r@ =~= v@.subrange(lo as int, i + 1 as int));
        }
        i = i + 1;
    }
    r
}

} // verus!
