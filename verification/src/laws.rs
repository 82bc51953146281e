//! The decoder's general guarantees, stated and proved once and for all
//! inputs, over the same spec functions the executable contracts use.

use vstd::prelude::*;

use crate::crc::{
    crc16, crc_byte, crc_from, crc_hex, lemma_crc_detects_byte_change, lemma_crc_hex_injective,
};
use crate::decode::{frame_data_start, run_segments, spec_decode_frame, spec_next_frame};
use crate::obis::{spec_groups, spec_parse_line, spec_parse_reference};
use crate::scan::{
    lemma_find_props, spec_find, BANG, COLON, CR, DASH, DOT, LF, LPAREN, RPAREN, SLASH,
};
use crate::types::{
    apply_object, empty_state, line_of, slave_of, DecodeError, Line, MeterReading, Object, Slave,
    State,
};

verus! {

/// Every recognized object maps to exactly its own State field: the
/// targeted field takes the object's value, and every field the object
/// does not target keeps its value — absent lines leave fields unset.
pub proof fn lemma_apply_object_targets(s: State, o: Object)
    ensures
        !(o is DateTime) ==> apply_object(s, o).datetime == s.datetime,
        o matches Object::DateTime(t) ==> apply_object(s, o).datetime == Some(t),
        !(o is TariffIndicator) ==> apply_object(s, o).tariff_indicator == s.tariff_indicator,
        o matches Object::TariffIndicator(a, b) ==> apply_object(s, o).tariff_indicator == Some(
            (a, b),
        ),
        !(o is PowerDelivered) ==> apply_object(s, o).power_delivered == s.power_delivered,
        o matches Object::PowerDelivered(d) ==> apply_object(s, o).power_delivered == Some(d),
        !(o is PowerReceived) ==> apply_object(s, o).power_received == s.power_received,
        o matches Object::PowerReceived(d) ==> apply_object(s, o).power_received == Some(d),
        !(o is PowerFailures) ==> apply_object(s, o).power_failures == s.power_failures,
        o matches Object::PowerFailures(n) ==> apply_object(s, o).power_failures == Some(n),
        !(o is LongPowerFailures) ==> apply_object(s, o).long_power_failures
            == s.long_power_failures,
        o matches Object::LongPowerFailures(n) ==> apply_object(s, o).long_power_failures == Some(
            n,
        ),
        !(o is MeterReadingTo || o is MeterReadingBy) ==> apply_object(s, o).meterreading1
            == s.meterreading1 && apply_object(s, o).meterreading2 == s.meterreading2,
        o matches Object::MeterReadingTo(t, d) ==> (t == 1 ==> apply_object(s, o).meterreading1
            == (MeterReading { to: Some(d), ..s.meterreading1 }) && apply_object(
            s,
            o,
        ).meterreading2 == s.meterreading2) && (t == 2 ==> apply_object(s, o).meterreading2
            == (MeterReading { to: Some(d), ..s.meterreading2 }) && apply_object(
            s,
            o,
        ).meterreading1 == s.meterreading1),
        o matches Object::MeterReadingBy(t, d) ==> (t == 1 ==> apply_object(s, o).meterreading1
            == (MeterReading { by: Some(d), ..s.meterreading1 }) && apply_object(
            s,
            o,
        ).meterreading2 == s.meterreading2) && (t == 2 ==> apply_object(s, o).meterreading2
            == (MeterReading { by: Some(d), ..s.meterreading2 }) && apply_object(
            s,
            o,
        ).meterreading1 == s.meterreading1),
        !(o is VoltageSags || o is VoltageSwells || o is Voltage || o is Current
            || o is ActivePowerPlus || o is ActivePowerNeg) ==> apply_object(s, o).line1 == s.line1
            && apply_object(s, o).line2 == s.line2 && apply_object(s, o).line3 == s.line3,
        o matches Object::VoltageSags(ph, n) ==> (1 <= ph <= 3 ==> line_of(apply_object(s, o), ph)
            == (Line { voltage_sags: Some(n), ..line_of(s, ph) }) && (forall|q: u8|
            1 <= q <= 3 && q != ph ==> #[trigger] line_of(apply_object(s, o), q) == line_of(s, q))),
        o matches Object::VoltageSwells(ph, n) ==> (1 <= ph <= 3 ==> line_of(
            apply_object(s, o),
            ph,
        ) == (Line { voltage_swells: Some(n), ..line_of(s, ph) }) && (forall|q: u8|
            1 <= q <= 3 && q != ph ==> #[trigger] line_of(apply_object(s, o), q) == line_of(s, q))),
        o matches Object::Voltage(ph, d) ==> (1 <= ph <= 3 ==> line_of(apply_object(s, o), ph)
            == (Line { voltage: Some(d), ..line_of(s, ph) }) && (forall|q: u8|
            1 <= q <= 3 && q != ph ==> #[trigger] line_of(apply_object(s, o), q) == line_of(s, q))),
        o matches Object::Current(ph, n) ==> (1 <= ph <= 3 ==> line_of(apply_object(s, o), ph)
            == (Line { current: Some(n), ..line_of(s, ph) }) && (forall|q: u8|
            1 <= q <= 3 && q != ph ==> #[trigger] line_of(apply_object(s, o), q) == line_of(s, q))),
        o matches Object::ActivePowerPlus(ph, d) ==> (1 <= ph <= 3 ==> line_of(
            apply_object(s, o),
            ph,
        ) == (Line { active_power_plus: Some(d), ..line_of(s, ph) }) && (forall|q: u8|
            1 <= q <= 3 && q != ph ==> #[trigger] line_of(apply_object(s, o), q) == line_of(s, q))),
        o matches Object::ActivePowerNeg(ph, d) ==> (1 <= ph <= 3 ==> line_of(
            apply_object(s, o),
            ph,
        ) == (Line { active_power_neg: Some(d), ..line_of(s, ph) }) && (forall|q: u8|
            1 <= q <= 3 && q != ph ==> #[trigger] line_of(apply_object(s, o), q) == line_of(s, q))),
        !(o is SlaveDeviceType || o is SlaveMeterReading) ==> apply_object(s, o).slave1 == s.slave1
            && apply_object(s, o).slave2 == s.slave2 && apply_object(s, o).slave3 == s.slave3
            && apply_object(s, o).slave4 == s.slave4,
        o matches Object::SlaveDeviceType(ch, n) ==> (1 <= ch <= 4 ==> slave_of(
            apply_object(s, o),
            ch,
        ) == (Slave { device_type: n, ..slave_of(s, ch) }) && (forall|q: u8|
            1 <= q <= 4 && q != ch ==> #[trigger] slave_of(apply_object(s, o), q) == slave_of(
                s,
                q,
            ))),
        o matches Object::SlaveMeterReading(ch, t, d) ==> (1 <= ch <= 4 ==> slave_of(
            apply_object(s, o),
            ch,
        ) == (Slave {
            meter_reading: match d {
                Some(d) => Some((t, d)),
                None => None,
            },
            ..slave_of(s, ch)
        }) && (forall|q: u8|
            1 <= q <= 4 && q != ch ==> #[trigger] slave_of(apply_object(s, o), q) == slave_of(
                s,
                q,
            ))),
{
}

/// Success is owed: a frame whose checksum digits spell the checksum of
/// its content, and whose data lines all parse, decodes to exactly the
/// folded state.
pub proof fn lemma_valid_frame_decodes(s: Seq<u8>, start: int, bang: int, check: bool, st: State)
    requires
        0 <= start <= bang < s.len(),
        check ==> bang + 5 <= s.len() && s.subrange(bang + 1, bang + 5) == crc_hex(
            crc16(s, start, bang + 1),
        ),
        run_segments(empty_state(), s, frame_data_start(s, start, bang), bang) == Ok::<
            State,
            DecodeError,
        >(st),
    ensures
        spec_decode_frame(s, start, bang, check) == Ok::<State, DecodeError>(st),
{
}

/// Checksum validation guards the content: when the trailing digits do not
/// spell the checksum of the content, the frame yields a checksum-mismatch
/// error and no state — never a silently accepted wrong value.
pub proof fn lemma_checksum_mismatch_rejected(s: Seq<u8>, start: int, bang: int)
    requires
        0 <= start <= bang,
        bang + 5 <= s.len(),
        s.subrange(bang + 1, bang + 5) != crc_hex(crc16(s, start, bang + 1)),
    ensures
        spec_decode_frame(s, start, bang, true) == Err::<State, DecodeError>(
            DecodeError::ChecksumMismatch {
                computed: crc16(s, start, bang + 1),
                found: (s[bang + 1], s[bang + 2], s[bang + 3], s[bang + 4]),
            },
        ),
{
}

/// Flipping any single bit of a valid frame's content — its checksum
/// digits left alone — makes validation fail with a checksum mismatch,
/// never a silently accepted wrong value: the polynomial detects every
/// change confined to one byte.
pub proof fn lemma_bit_flip_detected(s1: Seq<u8>, s2: Seq<u8>, start: int, bang: int, j: int, k: u8)
    requires
        0 <= start <= j <= bang,
        bang + 5 <= s1.len(),
        s1.len() == s2.len(),
        k < 8,
        s2[j] == s1[j] ^ (1u8 << k),
        forall|i: int| 0 <= i < s1.len() && i != j ==> s1[i] == s2[i],
        s1.subrange(bang + 1, bang + 5) == crc_hex(crc16(s1, start, bang + 1)),
    ensures
        spec_decode_frame(s2, start, bang, true) is Err,
        spec_decode_frame(s2, start, bang, true) matches Err(e) ==> e is ChecksumMismatch,
{
    let b1 = s1[j];
    let b2 = s2[j];
    assert(b2 != b1) by {
        assert(b1 ^ (1u8 << k) != b1) by (bit_vector)
            requires
                k < 8,
        ;
    }
    lemma_crc_detects_byte_change(0, s1, s2, start, bang + 1, j);
    assert(s2.subrange(bang + 1, bang + 5) =~= s1.subrange(bang + 1, bang + 5));
    if s2.subrange(bang + 1, bang + 5) == crc_hex(crc16(s2, start, bang + 1)) {
        lemma_crc_hex_injective(crc16(s1, start, bang + 1), crc16(s2, start, bang + 1));
    }
}

/// Equal windows at shifted positions have equal searches.
proof fn lemma_find_shift(s1: Seq<u8>, s2: Seq<u8>, d: int, lo: int, hi: int, t: u8)
    requires
        0 <= lo <= hi <= s1.len(),
        0 <= lo + d,
        hi + d <= s2.len(),
        forall|i: int| lo <= i < hi ==> #[trigger] s1[i] == s2[i + d],
    ensures
        spec_find(s2, lo + d, hi + d, t) == (match spec_find(s1, lo, hi, t) {
            Some(k) => Some(k + d),
            None => None::<int>,
        }),
    decreases hi - lo,
{
    if lo < hi && s1[lo] != t {
        lemma_find_shift(s1, s2, d, lo + 1, hi, t);
    }
}

/// Equal windows at shifted positions are equal as sequences.
proof fn lemma_subrange_shift(s1: Seq<u8>, s2: Seq<u8>, d: int, a: int, b: int)
    requires
        0 <= a <= b <= s1.len(),
        0 <= a + d,
        b + d <= s2.len(),
        forall|i: int| a <= i < b ==> #[trigger] s1[i] == s2[i + d],
    ensures
        s1.subrange(a, b) == s2.subrange(a + d, b + d),
{
    assert(s1.subrange(a, b) =~= s2.subrange(a + d, b + d));
}

/// Equal windows at shifted positions have equal checksums.
proof fn lemma_crc_from_shift(c: u16, s1: Seq<u8>, s2: Seq<u8>, d: int, lo: int, hi: int)
    requires
        0 <= lo <= hi <= s1.len(),
        0 <= lo + d,
        hi + d <= s2.len(),
        forall|i: int| lo <= i < hi ==> #[trigger] s1[i] == s2[i + d],
    ensures
        crc_from(c, s2, lo + d, hi + d) == crc_from(c, s1, lo, hi),
    decreases hi - lo,
{
    if lo < hi {
        lemma_crc_from_shift(crc_byte(c, s1[lo]), s1, s2, d, lo + 1, hi);
    }
}

/// Equal windows at shifted positions parse to the same reference code.
proof fn lemma_reference_shift(s1: Seq<u8>, s2: Seq<u8>, d: int, lo: int, hi: int)
    requires
        0 <= lo <= hi <= s1.len(),
        0 <= lo + d,
        hi + d <= s2.len(),
        forall|i: int| lo <= i < hi ==> #[trigger] s1[i] == s2[i + d],
    ensures
        spec_parse_reference(s2, lo + d, hi + d) == spec_parse_reference(s1, lo, hi),
{
    lemma_find_shift(s1, s2, d, lo, hi, DASH);
    match spec_find(s1, lo, hi, DASH) {
        None => {},
        Some(dd) => {
            lemma_find_props(s1, lo, hi, DASH);
            lemma_find_shift(s1, s2, d, dd + 1, hi, COLON);
            match spec_find(s1, dd + 1, hi, COLON) {
                None => {},
                Some(c) => {
                    lemma_find_props(s1, dd + 1, hi, COLON);
                    lemma_find_shift(s1, s2, d, c + 1, hi, DOT);
                    match spec_find(s1, c + 1, hi, DOT) {
                        None => {},
                        Some(dot1) => {
                            lemma_find_props(s1, c + 1, hi, DOT);
                            lemma_find_shift(s1, s2, d, dot1 + 1, hi, DOT);
                            match spec_find(s1, dot1 + 1, hi, DOT) {
                                None => {},
                                Some(dot2) => {
                                    lemma_find_props(s1, dot1 + 1, hi, DOT);
                                    lemma_subrange_shift(s1, s2, d, lo, dd);
                                    lemma_subrange_shift(s1, s2, d, dd + 1, c);
                                    lemma_subrange_shift(s1, s2, d, c + 1, dot1);
                                    lemma_subrange_shift(s1, s2, d, dot1 + 1, dot2);
                                    lemma_subrange_shift(s1, s2, d, dot2 + 1, hi);
                                },
                            }
                        },
                    }
                },
            }
        },
    }
}

/// Equal windows at shifted positions split into the same value groups.
proof fn lemma_groups_shift(s1: Seq<u8>, s2: Seq<u8>, d: int, lo: int, hi: int)
    requires
        0 <= lo <= hi <= s1.len(),
        0 <= lo + d,
        hi + d <= s2.len(),
        forall|i: int| lo <= i < hi ==> #[trigger] s1[i] == s2[i + d],
    ensures
        spec_groups(s2, lo + d, hi + d) == spec_groups(s1, lo, hi),
    decreases hi - lo,
{
    if lo < hi && s1[lo] == LPAREN {
        lemma_find_shift(s1, s2, d, lo + 1, hi, RPAREN);
        match spec_find(s1, lo + 1, hi, RPAREN) {
            None => {},
            Some(k) => {
                lemma_find_props(s1, lo + 1, hi, RPAREN);
                lemma_groups_shift(s1, s2, d, k + 1, hi);
                lemma_subrange_shift(s1, s2, d, lo + 1, k);
            },
        }
    }
}

/// Equal windows at shifted positions parse to the same line outcome.
proof fn lemma_parse_line_shift(s1: Seq<u8>, s2: Seq<u8>, d: int, lo: int, hi: int)
    requires
        0 <= lo <= hi <= s1.len(),
        0 <= lo + d,
        hi + d <= s2.len(),
        forall|i: int| lo <= i < hi ==> #[trigger] s1[i] == s2[i + d],
    ensures
        spec_parse_line(s2, lo + d, hi + d) == spec_parse_line(s1, lo, hi),
{
    lemma_find_shift(s1, s2, d, lo, hi, LPAREN);
    let ref_end = match spec_find(s1, lo, hi, LPAREN) {
        Some(k) => k,
        None => hi,
    };
    if spec_find(s1, lo, hi, LPAREN) is Some {
        lemma_find_props(s1, lo, hi, LPAREN);
    }
    lemma_reference_shift(s1, s2, d, lo, ref_end);
    lemma_groups_shift(s1, s2, d, ref_end, hi);
}

/// Equal windows at shifted positions fold to the same state.
proof fn lemma_run_segments_shift(st: State, s1: Seq<u8>, s2: Seq<u8>, d: int, lo: int, hi: int)
    requires
        0 <= lo <= hi <= s1.len(),
        0 <= lo + d,
        hi + d <= s2.len(),
        forall|i: int| lo <= i < hi ==> #[trigger] s1[i] == s2[i + d],
    ensures
        run_segments(st, s2, lo + d, hi + d) == run_segments(st, s1, lo, hi),
    decreases hi - lo,
{
    if lo < hi {
        lemma_find_shift(s1, s2, d, lo, hi, LF);
        match spec_find(s1, lo, hi, LF) {
            None => {},
            Some(k) => {
                lemma_find_props(s1, lo, hi, LF);
                let lend = if k > lo && s1[k - 1] == CR {
                    k - 1
                } else {
                    k
                };
                if lend == lo {
                    lemma_run_segments_shift(st, s1, s2, d, k + 1, hi);
                } else {
                    lemma_parse_line_shift(s1, s2, d, lo, lend);
                    match spec_parse_line(s1, lo, lend) {
                        Err(_) => {},
                        Ok(None) => {
                            lemma_run_segments_shift(st, s1, s2, d, k + 1, hi);
                        },
                        Ok(Some(o)) => {
                            lemma_run_segments_shift(apply_object(st, o), s1, s2, d, k + 1, hi);
                        },
                    }
                }
            },
        }
    }
}

/// Decoding is a pure function of the frame bytes alone: a frame made of
/// the same bytes decodes to the same result wherever it stands in
/// whatever buffer, so decoding a frame twice, or two equal frames back to
/// back, yields equal results.
pub proof fn lemma_decode_depends_on_frame_bytes_alone(
    s1: Seq<u8>,
    s2: Seq<u8>,
    d: int,
    start: int,
    bang: int,
    check: bool,
)
    requires
        0 <= start <= bang < s1.len(),
        0 <= start + d,
        bang + 1 + d <= s2.len(),
        check ==> bang + 5 <= s1.len() && bang + 5 + d <= s2.len(),
        forall|i: int| start <= i < bang + 1 ==> #[trigger] s1[i] == s2[i + d],
        check ==> (forall|i: int| bang + 1 <= i < bang + 5 ==> #[trigger] s1[i] == s2[i + d]),
    ensures
        spec_decode_frame(s2, start + d, bang + d, check) == spec_decode_frame(
            s1,
            start,
            bang,
            check,
        ),
{
    lemma_crc_from_shift(0, s1, s2, d, start, bang + 1);
    if check {
        assert(s1.subrange(bang + 1, bang + 5) =~= s2.subrange(bang + 1 + d, bang + 5 + d));
    }
    lemma_find_shift(s1, s2, d, start, bang, LF);
    if spec_find(s1, start, bang, LF) is Some {
        lemma_find_props(s1, start, bang, LF);
    }
    lemma_run_segments_shift(
        empty_state(),
        s1,
        s2,
        d,
        frame_data_start(s1, start, bang),
        bang,
    );
}

/// An unrecognized reference code is ignored without error: folding a
/// region whose first line parses to nothing equals folding the region
/// after that line, so every other recognized field is populated normally.
pub proof fn lemma_unrecognized_line_ignored(st: State, s: Seq<u8>, lo: int, hi: int, k: int)
    requires
        0 <= lo < hi <= s.len(),
        spec_find(s, lo, hi, LF) == Some(k),
        ({
            let lend = if k > lo && s[k - 1] == CR {
                k - 1
            } else {
                k
            };
            lend > lo && spec_parse_line(s, lo, lend) == Ok::<Option<Object>, DecodeError>(None)
        }),
    ensures
        run_segments(st, s, lo, hi) == run_segments(st, s, k + 1, hi),
{
    lemma_find_props(s, lo, hi, LF);
}

/// A frame truncated before its end marker — or, when digits are required,
/// before its checksum digits — yields neither a state nor an error: no
/// frame is found, and scanning stands still for the next input.
pub proof fn lemma_truncated_frame_dropped(s: Seq<u8>, pos: int, check: bool, p0: int)
    requires
        0 <= pos <= s.len(),
        spec_find(s, pos, s.len() as int, SLASH) == Some(p0),
        (match spec_find(s, p0, s.len() as int, BANG) {
            None => true,
            Some(b) => check && b + 5 > s.len(),
        }),
    ensures
        spec_next_frame(s, pos, check) is None,
{
}

} // verus!
