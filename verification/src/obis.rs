//! The OBIS object parser: one data line of a frame becomes one typed field
//! update, or is ignored, or yields a per-frame error.
//!
//! A data line is a dotted-numeric reference code of the shape `a-b:c.d.e`
//! followed by one or more parenthesized value groups. Unrecognized
//! reference codes are ignored without error, a forward-compatibility
//! requirement: meter firmware revisions add and reorder fields. A
//! malformed value group under a recognized code aborts decoding of the
//! current telegram only.

use vstd::prelude::*;

use crate::scan::{
    all_digits, copy_range, digits_val, find_byte, parse_uint, pow10, pow10_exec,
    lemma_digits_val_bound, lemma_pow10_add, lemma_pow10_mono, lemma_pow10_pos, spec_find,
    spec_parse_uint, COLON, DASH, DOT, LPAREN, RPAREN, STAR,
};
use crate::timestamp::{parse_timestamp, spec_parse_timestamp};
use crate::types::{DecodeError, Decimal, Object};

verus! {

/// A numeral value group: digits with an optional fractional part and an
/// optional `*unit` tag, which is stripped without interpretation. The
/// digit count is capped at eighteen so every value fits the mantissa.
pub open spec fn spec_parse_decimal(s: Seq<u8>) -> Option<Decimal> {
    let n = s.len() as int;
    let numend = match spec_find(s, 0, n, STAR) {
        Some(k) => k,
        None => n,
    };
    match spec_find(s, 0, numend, DOT) {
        None => match spec_parse_uint(s.subrange(0, numend)) {
            Some(m) => Some(Decimal { mantissa: m, scale: 0 }),
            None => None,
        },
        Some(d) => {
            let ip = s.subrange(0, d);
            let fp = s.subrange(d + 1, numend);
            if spec_parse_uint(ip) is Some && spec_parse_uint(fp) is Some && ip.len() + fp.len()
                <= 18 {
                Some(
                    Decimal {
                        mantissa: (digits_val(ip) * pow10(fp.len()) + digits_val(fp)) as u64,
                        scale: fp.len() as u8,
                    },
                )
            } else {
                None
            }
        },
    }
}

/// Parse the numeral group `v[lo..hi)`.
#[verifier::rlimit(50)]
pub fn parse_decimal(v: &Vec<u8>, lo: usize, hi: usize) -> (r: Option<Decimal>)
    requires
        lo <= hi <= v@.len(),
    ensures
        r == spec_parse_decimal(v@.subrange(lo as int, hi as int)),
{
    let w = copy_range(v, lo, hi);
    let n = w.len();
    let numend = match find_byte(&w, 0, n, STAR) {
        Some(k) => k,
        None => n,
    };
    match find_byte(&w, 0, numend, DOT) {
        None => match parse_uint(&w, 0, numend) {
            Some(m) => Some(Decimal { mantissa: m, scale: 0 }),
            None => None,
        },
        Some(d) => {
            let ipv = match parse_uint(&w, 0, d) {
                Some(x) => x,
                None => {
                    return None;
                },
            };
            let fpv = match parse_uint(&w, d + 1, numend) {
                Some(x) => x,
                None => {
                    return None;
                },
            };
            let il = d;
            let fl = numend - (d + 1);
            if il + fl > 18 {
                return None;
            }
            let ghost ip = w@.subrange(0, d as int);
            let ghost fp = w@.subrange(d + 1 as int, numend as int);
            proof {
                lemma_digits_val_bound(ip);
                lemma_digits_val_bound(fp);
                lemma_pow10_add(il as nat, fl as nat);
                lemma_pow10_mono((il + fl) as nat, 18);
                lemma_pow10_mono(il as nat, 18);
                lemma_pow10_mono(fl as nat, 18);
                lemma_pow10_pos(il as nat);
                lemma_pow10_pos(fl as nat);
                assert(pow10(18) == 1000000000000000000) by {
                    reveal_with_fuel(pow10, 19);
                }
                assert(ipv == digits_val(ip));
                assert(fpv == digits_val(fp));
                assert(digits_val(ip) * pow10(fl as nat) + digits_val(fp) < pow10(il as nat)
                    * pow10(fl as nat)) by (nonlinear_arith)
                    requires
                        digits_val(ip) < pow10(il as nat),
                        digits_val(fp) < pow10(fl as nat),
                        pow10(il as nat) >= 1,
                        pow10(fl as nat) >= 1,
                ;
            }
            let p = pow10_exec(fl);
            let mantissa = ipv * p + fpv;
            Some(Decimal { mantissa, scale: fl as u8 })
        },
    }
}

/// A reference code `a-b:c.d.e`: five numbers, each at most three digits
/// and at most 255.
pub open spec fn spec_component(s: Seq<u8>, lo: int, hi: int) -> Option<u8> {
    match spec_parse_uint(s.subrange(lo, hi)) {
        Some(n) => if hi - lo <= 3 && n <= 255 {
            Some(n as u8)
        } else {
            None
        },
        None => None,
    }
}

pub open spec fn spec_parse_reference(s: Seq<u8>, lo: int, hi: int) -> Option<
    (u8, u8, u8, u8, u8),
> {
    match spec_find(s, lo, hi, DASH) {
        None => None,
        Some(d) => match spec_find(s, d + 1, hi, COLON) {
            None => None,
            Some(c) => match spec_find(s, c + 1, hi, DOT) {
                None => None,
                Some(dot1) => match spec_find(s, dot1 + 1, hi, DOT) {
                    None => None,
                    Some(dot2) => match (
                        spec_component(s, lo, d),
                        spec_component(s, d + 1, c),
                        spec_component(s, c + 1, dot1),
                        spec_component(s, dot1 + 1, dot2),
                        spec_component(s, dot2 + 1, hi),
                    ) {
                        (Some(a), Some(b), Some(e1), Some(e2), Some(e3)) => Some(
                            (a, b, e1, e2, e3),
                        ),
                        _ => None,
                    },
                },
            },
        },
    }
}

/// Parse the component `v[lo..hi)` of a reference code.
fn parse_component(v: &Vec<u8>, lo: usize, hi: usize) -> (r: Option<u8>)
    requires
        lo <= hi <= v@.len(),
    ensures
        r == spec_component(v@, lo as int, hi as int),
{
    match parse_uint(v, lo, hi) {
        Some(n) => if hi - lo <= 3 && n <= 255 {
            Some(n as u8)
        } else {
            None
        },
        None => None,
    }
}

/// Parse the reference code `v[lo..hi)`.
pub fn parse_reference(v: &Vec<u8>, lo: usize, hi: usize) -> (r: Option<(u8, u8, u8, u8, u8)>)
    requires
        lo <= hi <= v@.len(),
    ensures
        r == spec_parse_reference(v@, lo as int, hi as int),
{
    let d = match find_byte(v, lo, hi, DASH) {
        Some(k) => k,
        None => {
            return None;
        },
    };
    let c = match find_byte(v, d + 1, hi, COLON) {
        Some(k) => k,
        None => {
            return None;
        },
    };
    let dot1 = match find_byte(v, c + 1, hi, DOT) {
        Some(k) => k,
        None => {
            return None;
        },
    };
    let dot2 = match find_byte(v, dot1 + 1, hi, DOT) {
        Some(k) => k,
        None => {
            return None;
        },
    };
    let a = parse_component(v, lo, d);
    let b = parse_component(v, d + 1, c);
    let e1 = parse_component(v, c + 1, dot1);
    let e2 = parse_component(v, dot1 + 1, dot2);
    let e3 = parse_component(v, dot2 + 1, hi);
    match (a, b, e1, e2, e3) {
        (Some(a), Some(b), Some(e1), Some(e2), Some(e3)) => Some((a, b, e1, e2, e3)),
        _ => None,
    }
}

/// Which field family a reference code targets, with its tariff, phase or
/// channel number.
#[derive(Clone, Copy, Debug, PartialEq, Eq)]
pub enum Kind {
    DateTime,
    MeterTo(u8),
    MeterBy(u8),
    TariffIndicator,
    PowerDelivered,
    PowerReceived,
    PowerFailures,
    LongPowerFailures,
    Sags(u8),
    Swells(u8),
    Voltage(u8),
    Current(u8),
    PowerPlus(u8),
    PowerNeg(u8),
    SlaveType(u8),
    SlaveReading(u8),
}

/// The mapping table from reference codes to fields. Codes not listed are
/// unrecognized and their lines are ignored.
pub open spec fn classify(r: (u8, u8, u8, u8, u8)) -> Option<Kind> {
    if r == (0u8, 0u8, 1u8, 0u8, 0u8) {
        Some(Kind::DateTime)
    } else if r == (1u8, 0u8, 1u8, 8u8, 1u8) {
        Some(Kind::MeterTo(1))
    } else if r == (1u8, 0u8, 1u8, 8u8, 2u8) {
        Some(Kind::MeterTo(2))
    } else if r == (1u8, 0u8, 2u8, 8u8, 1u8) {
        Some(Kind::MeterBy(1))
    } else if r == (1u8, 0u8, 2u8, 8u8, 2u8) {
        Some(Kind::MeterBy(2))
    } else if r == (0u8, 0u8, 96u8, 14u8, 0u8) {
        Some(Kind::TariffIndicator)
    } else if r == (1u8, 0u8, 1u8, 7u8, 0u8) {
        Some(Kind::PowerDelivered)
    } else if r == (1u8, 0u8, 2u8, 7u8, 0u8) {
        Some(Kind::PowerReceived)
    } else if r == (0u8, 0u8, 96u8, 7u8, 21u8) {
        Some(Kind::PowerFailures)
    } else if r == (0u8, 0u8, 96u8, 7u8, 9u8) {
        Some(Kind::LongPowerFailures)
    } else if r == (1u8, 0u8, 32u8, 32u8, 0u8) {
        Some(Kind::Sags(1))
    } else if r == (1u8, 0u8, 52u8, 32u8, 0u8) {
        Some(Kind::Sags(2))
    } else if r == (1u8, 0u8, 72u8, 32u8, 0u8) {
        Some(Kind::Sags(3))
    } else if r == (1u8, 0u8, 32u8, 36u8, 0u8) {
        Some(Kind::Swells(1))
    } else if r == (1u8, 0u8, 52u8, 36u8, 0u8) {
        Some(Kind::Swells(2))
    } else if r == (1u8, 0u8, 72u8, 36u8, 0u8) {
        Some(Kind::Swells(3))
    } else if r == (1u8, 0u8, 32u8, 7u8, 0u8) {
        Some(Kind::Voltage(1))
    } else if r == (1u8, 0u8, 52u8, 7u8, 0u8) {
        Some(Kind::Voltage(2))
    } else if r == (1u8, 0u8, 72u8, 7u8, 0u8) {
        Some(Kind::Voltage(3))
    } else if r == (1u8, 0u8, 31u8, 7u8, 0u8) {
        Some(Kind::Current(1))
    } else if r == (1u8, 0u8, 51u8, 7u8, 0u8) {
        Some(Kind::Current(2))
    } else if r == (1u8, 0u8, 71u8, 7u8, 0u8) {
        Some(Kind::Current(3))
    } else if r == (1u8, 0u8, 21u8, 7u8, 0u8) {
        Some(Kind::PowerPlus(1))
    } else if r == (1u8, 0u8, 41u8, 7u8, 0u8) {
        Some(Kind::PowerPlus(2))
    } else if r == (1u8, 0u8, 61u8, 7u8, 0u8) {
        Some(Kind::PowerPlus(3))
    } else if r == (1u8, 0u8, 22u8, 7u8, 0u8) {
        Some(Kind::PowerNeg(1))
    } else if r == (1u8, 0u8, 42u8, 7u8, 0u8) {
        Some(Kind::PowerNeg(2))
    } else if r == (1u8, 0u8, 62u8, 7u8, 0u8) {
        Some(Kind::PowerNeg(3))
    } else if r.0 == 0 && 1 <= r.1 <= 4 && r.2 == 24 && r.3 == 1 && r.4 == 0 {
        Some(Kind::SlaveType(r.1))
    } else if r.0 == 0 && 1 <= r.1 <= 4 && r.2 == 24 && r.3 == 2 && r.4 == 1 {
        Some(Kind::SlaveReading(r.1))
    } else {
        None
    }
}

pub fn classify_exec(r: (u8, u8, u8, u8, u8)) -> (k: Option<Kind>)
    ensures
        k == classify(r),
{
    if r.0 == 0 && r.1 == 0 && r.2 == 1 && r.3 == 0 && r.4 == 0 {
        Some(Kind::DateTime)
    } else if r.0 == 1 && r.1 == 0 && r.2 == 1 && r.3 == 8 && r.4 == 1 {
        Some(Kind::MeterTo(1))
    } else if r.0 == 1 && r.1 == 0 && r.2 == 1 && r.3 == 8 && r.4 == 2 {
        Some(Kind::MeterTo(2))
    } else if r.0 == 1 && r.1 == 0 && r.2 == 2 && r.3 == 8 && r.4 == 1 {
        Some(Kind::MeterBy(1))
    } else if r.0 == 1 && r.1 == 0 && r.2 == 2 && r.3 == 8 && r.4 == 2 {
        Some(Kind::MeterBy(2))
    } else if r.0 == 0 && r.1 == 0 && r.2 == 96 && r.3 == 14 && r.4 == 0 {
        Some(Kind::TariffIndicator)
    } else if r.0 == 1 && r.1 == 0 && r.2 == 1 && r.3 == 7 && r.4 == 0 {
        Some(Kind::PowerDelivered)
    } else if r.0 == 1 && r.1 == 0 && r.2 == 2 && r.3 == 7 && r.4 == 0 {
        Some(Kind::PowerReceived)
    } else if r.0 == 0 && r.1 == 0 && r.2 == 96 && r.3 == 7 && r.4 == 21 {
        Some(Kind::PowerFailures)
    } else if r.0 == 0 && r.1 == 0 && r.2 == 96 && r.3 == 7 && r.4 == 9 {
        Some(Kind::LongPowerFailures)
    } else if r.0 == 1 && r.1 == 0 && r.3 == 32 && r.4 == 0 && (r.2 == 32 || r.2 == 52 || r.2
        == 72) {
        Some(Kind::Sags(if r.2 == 32 { 1 } else if r.2 == 52 { 2 } else { 3 }))
    } else if r.0 == 1 && r.1 == 0 && r.3 == 36 && r.4 == 0 && (r.2 == 32 || r.2 == 52 || r.2
        == 72) {
        Some(Kind::Swells(if r.2 == 32 { 1 } else if r.2 == 52 { 2 } else { 3 }))
    } else if r.0 == 1 && r.1 == 0 && r.3 == 7 && r.4 == 0 && (r.2 == 32 || r.2 == 52 || r.2
        == 72) {
        Some(Kind::Voltage(if r.2 == 32 { 1 } else if r.2 == 52 { 2 } else { 3 }))
    } else if r.0 == 1 && r.1 == 0 && r.3 == 7 && r.4 == 0 && (r.2 == 31 || r.2 == 51 || r.2
        == 71) {
        Some(Kind::Current(if r.2 == 31 { 1 } else if r.2 == 51 { 2 } else { 3 }))
    } else if r.0 == 1 && r.1 == 0 && r.3 == 7 && r.4 == 0 && (r.2 == 21 || r.2 == 41 || r.2
        == 61) {
        Some(Kind::PowerPlus(if r.2 == 21 { 1 } else if r.2 == 41 { 2 } else { 3 }))
    } else if r.0 == 1 && r.1 == 0 && r.3 == 7 && r.4 == 0 && (r.2 == 22 || r.2 == 42 || r.2
        == 62) {
        Some(Kind::PowerNeg(if r.2 == 22 { 1 } else if r.2 == 42 { 2 } else { 3 }))
    } else if r.0 == 0 && 1 <= r.1 && r.1 <= 4 && r.2 == 24 && r.3 == 1 && r.4 == 0 {
        Some(Kind::SlaveType(r.1))
    } else if r.0 == 0 && 1 <= r.1 && r.1 <= 4 && r.2 == 24 && r.3 == 2 && r.4 == 1 {
        Some(Kind::SlaveReading(r.1))
    } else {
        None
    }
}

/// The parenthesized value groups in `s[lo..hi)`: group contents in order,
/// or `None` when the region is not a run of balanced groups.
pub open spec fn spec_groups(s: Seq<u8>, lo: int, hi: int) -> Option<Seq<Seq<u8>>>
    decreases hi - lo,
{
    if lo < 0 || hi > s.len() || lo >= hi {
        Some(Seq::empty())
    } else if s[lo] != LPAREN {
        None
    } else {
        match spec_find(s, lo + 1, hi, RPAREN) {
            None => None,
            Some(k) => if lo < k + 1 <= hi {
                match spec_groups(s, k + 1, hi) {
                    None => None,
                    Some(rest) => Some(seq![s.subrange(lo + 1, k)].add(rest)),
                }
            } else {
                None
            },
        }
    }
}

/// Group boundaries of `v[lo..hi)`: for each group the window of its
/// content, between its parentheses.
#[verifier::loop_isolation(false)]
pub fn parse_groups(v: &Vec<u8>, lo: usize, hi: usize) -> (r: Option<Vec<(usize, usize)>>)
    requires
        lo <= hi <= v@.len(),
    ensures
        (match r {
            None => spec_groups(v@, lo as int, hi as int) is None,
            Some(gs) => spec_groups(v@, lo as int, hi as int) == Some(
                gs@.map_values(|g: (usize, usize)| v@.subrange(g.0 as int, g.1 as int)),
            ) && forall|i: int| 0 <= i < gs@.len() ==> lo <= #[trigger] gs@[i].0 <= gs@[i].1 <= hi,
        }),
{
    let ghost f = |g: (usize, usize)| v@.subrange(g.0 as int, g.1 as int);
    let mut gs: Vec<(usize, usize)> = Vec::new();
    let mut pos: usize = lo;
    while pos < hi
        invariant
            lo <= pos <= hi,
            forall|i: int| 0 <= i < gs@.len() ==> lo <= #[trigger] gs@[i].0 <= gs@[i].1 <= hi,
            (match spec_groups(v@, pos as int, hi as int) {
                None => spec_groups(v@, lo as int, hi as int) is None,
                Some(rest) => spec_groups(v@, lo as int, hi as int) == Some(
                    gs@.map_values(f).add(rest),
                ),
            }),
        decreases hi - pos,
    {
        if v[pos] != LPAREN {
            return None;
        }
        let k = match find_byte(v, pos + 1, hi, RPAREN) {
            Some(k) => k,
            None => {
                return None;
            },
        };
        proof {
            let old_gs = gs@;
            let rest0 = spec_groups(v@, k + 1 as int, hi as int);
            if rest0 is None {
                assert(spec_groups(v@, pos as int, hi as int) is None);
            }
        }
        let ghost old_gs = gs@;
        gs.push((pos + 1, k));
        proof {
            assert(gs@ =~= old_gs.push(((pos + 1) as usize, k)));
            match spec_groups(v@, k + 1 as int, hi as int) {
                Some(rest) => {
                    assert(spec_groups(v@, pos as int, hi as int) == Some(
                        seq![v@.subrange(pos + 1 as int, k as int)].add(rest),
                    ));
                    assert(gs@.map_values(f).add(rest) =~= old_gs.map_values(f).add(
                        seq![v@.subrange(pos + 1 as int, k as int)].add(rest),
                    ));
                },
                None => {},
            }
        }
        pos = k + 1;
    }
    proof {
        assert(spec_groups(v@, pos as int, hi as int) == Some(Seq::<Seq<u8>>::empty()));
        assert(gs@.map_values(f).add(Seq::empty()) =~= gs@.map_values(f));
    }
    Some(gs)
}

/// The all-zero placeholder a meter sends for a sub-meter with no capture.
pub open spec fn zero_reading() -> Seq<u8> {
    seq![48u8, 48u8, 48u8, 48u8, 48u8, 48u8, 48u8, 48u8, 46u8, 48u8, 48u8, 48u8, 48u8]
}

/// Is `v[lo..hi)` the all-zero placeholder reading `00000000.0000`?
#[verifier::loop_isolation(false)]
pub fn is_zero_reading(v: &Vec<u8>, lo: usize, hi: usize) -> (r: bool)
    requires
        lo <= hi <= v@.len(),
    ensures
        r == (v@.subrange(lo as int, hi as int) == zero_reading()),
{
    if hi - lo != 13 {
        proof {
            assert(v@.subrange(lo as int, hi as int).len() != zero_reading().len());
        }
        return false;
    }
    let mut i: usize = 0;
    while i < 13
        invariant
            0 <= i <= 13,
            forall|j: int| 0 <= j < i ==> v@.subrange(lo as int, hi as int)[j] == zero_reading()[j],
        decreases 13 - i,
    {
        let expected: u8 = if i == 8 {
            DOT
        } else {
            48
        };
        if v[lo + i] != expected {
            proof {
                assert(v@.subrange(lo as int, hi as int)[i as int] != zero_reading()[i as int]);
            }
            return false;
        }
        i = i + 1;
    }
    proof {
        assert(v@.subrange(lo as int, hi as int) =~= zero_reading());
    }
    true
}

/// Hexadecimal digit value, both cases accepted.
pub open spec fn hex_val(b: u8) -> Option<u8> {
    if 48 <= b <= 57 {
        Some((b - 48) as u8)
    } else if 65 <= b <= 70 {
        Some((b - 55) as u8)
    } else if 97 <= b <= 102 {
        Some((b - 87) as u8)
    } else {
        None
    }
}

fn hex_val_exec(b: u8) -> (r: Option<u8>)
    ensures
        r == hex_val(b),
{
    if 48 <= b && b <= 57 {
        Some(b - 48)
    } else if 65 <= b && b <= 70 {
        Some(b - 55)
    } else if 97 <= b && b <= 102 {
        Some(b - 87)
    } else {
        None
    }
}

/// A tariff indicator group: four hexadecimal digits naming two bytes.
pub open spec fn spec_parse_tariff_indicator(s: Seq<u8>) -> Option<(u8, u8)> {
    if s.len() == 4 {
        match (hex_val(s[0]), hex_val(s[1]), hex_val(s[2]), hex_val(s[3])) {
            (Some(h0), Some(h1), Some(h2), Some(h3)) => Some(
                ((h0 * 16 + h1) as u8, (h2 * 16 + h3) as u8),
            ),
            _ => None,
        }
    } else {
        None
    }
}

fn parse_tariff_indicator(v: &Vec<u8>, lo: usize, hi: usize) -> (r: Option<(u8, u8)>)
    requires
        lo <= hi <= v@.len(),
    ensures
        r == spec_parse_tariff_indicator(v@.subrange(lo as int, hi as int)),
{
    if hi - lo != 4 {
        return None;
    }
    let n = v.len();
    match (
        hex_val_exec(v[lo]),
        hex_val_exec(v[lo + 1]),
        hex_val_exec(v[lo + 2]),
        hex_val_exec(v[lo + 3]),
    ) {
        (Some(h0), Some(h1), Some(h2), Some(h3)) => Some((h0 * 16 + h1, h2 * 16 + h3)),
        _ => None,
    }
}

/// What one data line `s[lo..hi)` means: `Ok(None)` for an ignored line,
/// `Ok(Some(o))` for a recognized field update, `Err` for a malformed value
/// group under a recognized reference code.
pub open spec fn spec_parse_line(s: Seq<u8>, lo: int, hi: int) -> Result<
    Option<Object>,
    DecodeError,
> {
    let ref_end = match spec_find(s, lo, hi, LPAREN) {
        Some(k) => k,
        None => hi,
    };
    match spec_parse_reference(s, lo, ref_end) {
        None => Ok(None),
        Some(r) => match classify(r) {
            None => Ok(None),
            Some(k) => match spec_groups(s, ref_end, hi) {
                None => Err(DecodeError::ObisParse { reference: r }),
                Some(gs) => spec_object_of(k, r, gs),
            },
        },
    }
}

/// Build the object for a recognized reference code from its value groups.
pub open spec fn spec_object_of(k: Kind, r: (u8, u8, u8, u8, u8), gs: Seq<Seq<u8>>) -> Result<
    Option<Object>,
    DecodeError,
> {
    match k {
        Kind::DateTime => if gs.len() == 1 {
            match spec_parse_timestamp(gs[0]) {
                Some(t) => Ok(Some(Object::DateTime(t))),
                None => Err(DecodeError::TimestampFormat { line_reference: Some(r) }),
            }
        } else {
            Err(DecodeError::ObisParse { reference: r })
        },
        Kind::MeterTo(t) => dec_object(r, gs, |d: Decimal| Object::MeterReadingTo(t, d)),
        Kind::MeterBy(t) => dec_object(r, gs, |d: Decimal| Object::MeterReadingBy(t, d)),
        Kind::TariffIndicator => if gs.len() == 1 {
            match spec_parse_tariff_indicator(gs[0]) {
                Some(p) => Ok(Some(Object::TariffIndicator(p.0, p.1))),
                None => Err(DecodeError::ObisParse { reference: r }),
            }
        } else {
            Err(DecodeError::ObisParse { reference: r })
        },
        Kind::PowerDelivered => dec_object(r, gs, |d: Decimal| Object::PowerDelivered(d)),
        Kind::PowerReceived => dec_object(r, gs, |d: Decimal| Object::PowerReceived(d)),
        Kind::PowerFailures => int_object(r, gs, |n: u64| Object::PowerFailures(n)),
        Kind::LongPowerFailures => int_object(r, gs, |n: u64| Object::LongPowerFailures(n)),
        Kind::Sags(ph) => int_object(r, gs, |n: u64| Object::VoltageSags(ph, n)),
        Kind::Swells(ph) => int_object(r, gs, |n: u64| Object::VoltageSwells(ph, n)),
        Kind::Voltage(ph) => dec_object(r, gs, |d: Decimal| Object::Voltage(ph, d)),
        Kind::Current(ph) => int_object(r, gs, |n: u64| Object::Current(ph, n)),
        Kind::PowerPlus(ph) => dec_object(r, gs, |d: Decimal| Object::ActivePowerPlus(ph, d)),
        Kind::PowerNeg(ph) => dec_object(r, gs, |d: Decimal| Object::ActivePowerNeg(ph, d)),
        Kind::SlaveType(ch) => if gs.len() == 1 {
            if gs[0].len() == 0 {
                Ok(Some(Object::SlaveDeviceType(ch, None)))
            } else {
                match spec_parse_uint(gs[0]) {
                    Some(n) => Ok(Some(Object::SlaveDeviceType(ch, Some(n)))),
                    None => Err(DecodeError::ObisParse { reference: r }),
                }
            }
        } else {
            Err(DecodeError::ObisParse { reference: r })
        },
        Kind::SlaveReading(ch) => if gs.len() == 2 {
            match spec_parse_timestamp(gs[0]) {
                None => Err(DecodeError::TimestampFormat { line_reference: Some(r) }),
                Some(t) => if gs[1] == zero_reading() {
                    Ok(Some(Object::SlaveMeterReading(ch, t, None)))
                } else {
                    match spec_parse_decimal(gs[1]) {
                        Some(d) => Ok(Some(Object::SlaveMeterReading(ch, t, Some(d)))),
                        None => Err(DecodeError::ObisParse { reference: r }),
                    }
                },
            }
        } else {
            Err(DecodeError::ObisParse { reference: r })
        },
    }
}

/// A single numeral-with-optional-unit group, made into an object.
pub open spec fn dec_object(
    r: (u8, u8, u8, u8, u8),
    gs: Seq<Seq<u8>>,
    make: spec_fn(Decimal) -> Object,
) -> Result<Option<Object>, DecodeError> {
    if gs.len() == 1 {
        match spec_parse_decimal(gs[0]) {
            Some(d) => Ok(Some(make(d))),
            None => Err(DecodeError::ObisParse { reference: r }),
        }
    } else {
        Err(DecodeError::ObisParse { reference: r })
    }
}

/// A single integer-count group, made into an object. A unit tag is
/// accepted and stripped; a fractional part is not.
pub open spec fn int_object(
    r: (u8, u8, u8, u8, u8),
    gs: Seq<Seq<u8>>,
    make: spec_fn(u64) -> Object,
) -> Result<Option<Object>, DecodeError> {
    if gs.len() == 1 {
        match spec_parse_decimal(gs[0]) {
            Some(d) => if d.scale == 0 {
                Ok(Some(make(d.mantissa)))
            } else {
                Err(DecodeError::ObisParse { reference: r })
            },
            None => Err(DecodeError::ObisParse { reference: r }),
        }
    } else {
        Err(DecodeError::ObisParse { reference: r })
    }
}

/// Parse the data line `v[lo..hi)`.
pub fn parse_line(v: &Vec<u8>, lo: usize, hi: usize) -> (r: Result<Option<Object>, DecodeError>)
    requires
        lo <= hi <= v@.len(),
    ensures
        r == spec_parse_line(v@, lo as int, hi as int),
{
    let ref_end = match find_byte(v, lo, hi, LPAREN) {
        Some(k) => k,
        None => hi,
    };
    let rc = match parse_reference(v, lo, ref_end) {
        Some(rc) => rc,
        None => {
            return Ok(None);
        },
    };
    let kind = match classify_exec(rc) {
        Some(k) => k,
        None => {
            return Ok(None);
        },
    };
    let gs = match parse_groups(v, ref_end, hi) {
        Some(gs) => gs,
        None => {
            return Err(DecodeError::ObisParse { reference: rc });
        },
    };
    let ghost gseq = gs@.map_values(|g: (usize, usize)| v@.subrange(g.0 as int, g.1 as int));
    match kind {
        Kind::DateTime => {
            if gs.len() == 1 {
                match parse_timestamp(v, gs[0].0, gs[0].1) {
                    Some(t) => Ok(Some(Object::DateTime(t))),
                    None => Err(DecodeError::TimestampFormat { line_reference: Some(rc) }),
                }
            } else {
                Err(DecodeError::ObisParse { reference: rc })
            }
        },
        Kind::MeterTo(t) => match one_decimal(v, &gs) {
            Some(d) => Ok(Some(Object::MeterReadingTo(t, d))),
            None => Err(DecodeError::ObisParse { reference: rc }),
        },
        Kind::MeterBy(t) => match one_decimal(v, &gs) {
            Some(d) => Ok(Some(Object::MeterReadingBy(t, d))),
            None => Err(DecodeError::ObisParse { reference: rc }),
        },
        Kind::TariffIndicator => {
            if gs.len() == 1 {
                match parse_tariff_indicator(v, gs[0].0, gs[0].1) {
                    Some(p) => Ok(Some(Object::TariffIndicator(p.0, p.1))),
                    None => Err(DecodeError::ObisParse { reference: rc }),
                }
            } else {
                Err(DecodeError::ObisParse { reference: rc })
            }
        },
        Kind::PowerDelivered => match one_decimal(v, &gs) {
            Some(d) => Ok(Some(Object::PowerDelivered(d))),
            None => Err(DecodeError::ObisParse { reference: rc }),
        },
        Kind::PowerReceived => match one_decimal(v, &gs) {
            Some(d) => Ok(Some(Object::PowerReceived(d))),
            None => Err(DecodeError::ObisParse { reference: rc }),
        },
        Kind::PowerFailures => match one_integer(v, &gs) {
            Some(n) => Ok(Some(Object::PowerFailures(n))),
            None => Err(DecodeError::ObisParse { reference: rc }),
        },
        Kind::LongPowerFailures => match one_integer(v, &gs) {
            Some(n) => Ok(Some(Object::LongPowerFailures(n))),
            None => Err(DecodeError::ObisParse { reference: rc }),
        },
        Kind::Sags(ph) => match one_integer(v, &gs) {
            Some(n) => Ok(Some(Object::VoltageSags(ph, n))),
            None => Err(DecodeError::ObisParse { reference: rc }),
        },
        Kind::Swells(ph) => match one_integer(v, &gs) {
            Some(n) => Ok(Some(Object::VoltageSwells(ph, n))),
            None => Err(DecodeError::ObisParse { reference: rc }),
        },
        Kind::Voltage(ph) => match one_decimal(v, &gs) {
            Some(d) => Ok(Some(Object::Voltage(ph, d))),
            None => Err(DecodeError::ObisParse { reference: rc }),
        },
        Kind::Current(ph) => match one_integer(v, &gs) {
            Some(n) => Ok(Some(Object::Current(ph, n))),
            None => Err(DecodeError::ObisParse { reference: rc }),
        },
        Kind::PowerPlus(ph) => match one_decimal(v, &gs) {
            Some(d) => Ok(Some(Object::ActivePowerPlus(ph, d))),
            None => Err(DecodeError::ObisParse { reference: rc }),
        },
        Kind::PowerNeg(ph) => match one_decimal(v, &gs) {
            Some(d) => Ok(Some(Object::ActivePowerNeg(ph, d))),
            None => Err(DecodeError::ObisParse { reference: rc }),
        },
        Kind::SlaveType(ch) => {
            if gs.len() == 1 {
                if gs[0].1 - gs[0].0 == 0 {
                    assert(gseq[0].len() == 0);
                    Ok(Some(Object::SlaveDeviceType(ch, None)))
                } else {
                    assert(gseq[0].len() != 0);
                    match parse_uint(v, gs[0].0, gs[0].1) {
                        Some(n) => Ok(Some(Object::SlaveDeviceType(ch, Some(n)))),
                        None => Err(DecodeError::ObisParse { reference: rc }),
                    }
                }
            } else {
                Err(DecodeError::ObisParse { reference: rc })
            }
        },
        Kind::SlaveReading(ch) => {
            if gs.len() == 2 {
                match parse_timestamp(v, gs[0].0, gs[0].1) {
                    None => Err(DecodeError::TimestampFormat { line_reference: Some(rc) }),
                    Some(t) => {
                        if is_zero_reading(v, gs[1].0, gs[1].1) {
                            Ok(Some(Object::SlaveMeterReading(ch, t, None)))
                        } else {
                            match parse_decimal(v, gs[1].0, gs[1].1) {
                                Some(d) => Ok(Some(Object::SlaveMeterReading(ch, t, Some(d)))),
                                None => Err(DecodeError::ObisParse { reference: rc }),
                            }
                        }
                    },
                }
            } else {
                Err(DecodeError::ObisParse { reference: rc })
            }
        },
    }
}

/// The decimal in a single-group body, if the body is one well-formed
/// numeral group.
fn one_decimal(v: &Vec<u8>, gs: &Vec<(usize, usize)>) -> (r: Option<Decimal>)
    requires
        forall|i: int| 0 <= i < gs@.len() ==> #[trigger] gs@[i].0 <= gs@[i].1 <= v@.len(),
    ensures
        (r == if gs@.len() == 1 {
            spec_parse_decimal(v@.subrange(gs@[0].0 as int, gs@[0].1 as int))
        } else {
            None::<Decimal>
        }),
{
    if gs.len() == 1 {
        parse_decimal(v, gs[0].0, gs[0].1)
    } else {
        None
    }
}

/// The integer in a single-group body: a numeral group with no fractional
/// part, its unit tag stripped.
fn one_integer(v: &Vec<u8>, gs: &Vec<(usize, usize)>) -> (r: Option<u64>)
    requires
        forall|i: int| 0 <= i < gs@.len() ==> #[trigger] gs@[i].0 <= gs@[i].1 <= v@.len(),
    ensures
        (r == if gs@.len() == 1 {
            match spec_parse_decimal(v@.subrange(gs@[0].0 as int, gs@[0].1 as int)) {
                Some(d) => if d.scale == 0 {
                    Some(d.mantissa)
                } else {
                    None::<u64>
                },
                None => None::<u64>,
            }
        } else {
            None::<u64>
        }),
{
    if gs.len() == 1 {
        match parse_decimal(v, gs[0].0, gs[0].1) {
            Some(d) => if d.scale == 0 {
                Some(d.mantissa)
            } else {
                None
            },
            None => None,
        }
    } else {
        None
    }
}

} // verus!
