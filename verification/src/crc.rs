//! The 16-bit cyclic redundancy check guarding a frame.
//!
//! The reflected CRC-16 with polynomial `0xA001` and initial value 0,
//! processed byte by byte, bit by bit, least-significant bit first, over
//! all bytes from the start marker through the end marker inclusive. The
//! computed value is compared, as four uppercase hexadecimal digits, with
//! the digits trailing the end marker.

use vstd::prelude::*;

verus! {

/// One shift step: divide out the lowest bit against the polynomial.
pub open spec fn crc_shift(c: u16) -> u16 {
    if c & 1 == 1 {
        (c >> 1) ^ 0xA001
    } else {
        c >> 1
    }
}

/// `n` shift steps.
pub open spec fn crc_rounds(c: u16, n: nat) -> u16
    decreases n,
{
    if n == 0 {
        c
    } else {
        crc_shift(crc_rounds(c, (n - 1) as nat))
    }
}

/// Fold one byte into the running checksum: mix it into the low bits, then
/// shift eight times.
pub open spec fn crc_byte(c: u16, b: u8) -> u16 {
    crc_rounds(c ^ (b as u16), 8)
}

/// Fold the window `s[lo..hi)` into a running checksum `c`.
pub open spec fn crc_from(c: u16, s: Seq<u8>, lo: int, hi: int) -> u16
    decreases hi - lo,
{
    if lo < 0 || hi > s.len() || lo >= hi {
        c
    } else {
        crc_from(crc_byte(c, s[lo]), s, lo + 1, hi)
    }
}

/// The checksum of the window `s[lo..hi)`, from initial value 0.
pub open spec fn crc16(s: Seq<u8>, lo: int, hi: int) -> u16 {
    crc_from(0, s, lo, hi)
}

/// Uppercase hexadecimal digit for a nibble.
pub open spec fn hex_digit(n: u16) -> u8 {
    if n < 10 {
        (48 + n) as u8
    } else {
        (55 + n) as u8
    }
}

/// A checksum as the four uppercase hexadecimal digits a frame carries.
pub open spec fn crc_hex(c: u16) -> Seq<u8> {
    seq![
        hex_digit((c >> 12) & 0xF),
        hex_digit((c >> 8) & 0xF),
        hex_digit((c >> 4) & 0xF),
        hex_digit(c & 0xF),
    ]
}

/// A shift step loses no information.
pub proof fn lemma_crc_shift_injective(c1: u16, c2: u16)
    requires
        crc_shift(c1) == crc_shift(c2),
    ensures
        c1 == c2,
{
    assert((if c1 & 1 == 1 {
        (c1 >> 1) ^ 0xA001u16
    } else {
        c1 >> 1
    }) == (if c2 & 1 == 1 {
        (c2 >> 1) ^ 0xA001u16
    } else {
        c2 >> 1
    }) ==> c1 == c2) by (bit_vector);
}

pub proof fn lemma_crc_rounds_injective(c1: u16, c2: u16, n: nat)
    requires
        crc_rounds(c1, n) == crc_rounds(c2, n),
    ensures
        c1 == c2,
    decreases n,
{
    if n > 0 {
        lemma_crc_shift_injective(crc_rounds(c1, (n - 1) as nat), crc_rounds(c2, (n - 1) as nat));
        lemma_crc_rounds_injective(c1, c2, (n - 1) as nat);
    }
}

/// Folding a byte loses no information: equal results mean the running
/// checksums agreed, and, for one running checksum, the bytes agreed.
pub proof fn lemma_crc_byte_injective(c1: u16, c2: u16, b1: u8, b2: u8)
    requires
        crc_byte(c1, b1) == crc_byte(c2, b2),
    ensures
        c1 ^ (b1 as u16) == c2 ^ (b2 as u16),
        b1 == b2 ==> c1 == c2,
        c1 == c2 ==> b1 == b2,
{
    lemma_crc_rounds_injective(c1 ^ (b1 as u16), c2 ^ (b2 as u16), 8);
    assert(c1 ^ (b1 as u16) == c2 ^ (b2 as u16) && b1 == b2 ==> c1 == c2) by (bit_vector);
    assert(c1 ^ (b1 as u16) == c2 ^ (b2 as u16) && c1 == c2 ==> b1 == b2) by (bit_vector);
}

/// Folding equal windows from different running checksums keeps them
/// apart: the fold is injective in its starting value.
pub proof fn lemma_crc_from_state_injective(
    c1: u16,
    c2: u16,
    s1: Seq<u8>,
    s2: Seq<u8>,
    lo: int,
    hi: int,
)
    requires
        0 <= lo <= hi <= s1.len(),
        hi <= s2.len(),
        forall|i: int| lo <= i < hi ==> s1[i] == s2[i],
        crc_from(c1, s1, lo, hi) == crc_from(c2, s2, lo, hi),
    ensures
        c1 == c2,
    decreases hi - lo,
{
    if lo < hi {
        lemma_crc_from_state_injective(
            crc_byte(c1, s1[lo]),
            crc_byte(c2, s2[lo]),
            s1,
            s2,
            lo + 1,
            hi,
        );
        lemma_crc_byte_injective(c1, c2, s1[lo], s2[lo]);
    }
}

/// The checksum detects every change confined to one byte of the window:
/// two windows equal everywhere but at one byte never share a checksum.
/// A single flipped bit is such a change.
pub proof fn lemma_crc_detects_byte_change(
    c: u16,
    s1: Seq<u8>,
    s2: Seq<u8>,
    lo: int,
    hi: int,
    j: int,
)
    requires
        0 <= lo <= j < hi <= s1.len(),
        hi <= s2.len(),
        forall|i: int| lo <= i < hi && i != j ==> s1[i] == s2[i],
        s1[j] != s2[j],
    ensures
        crc_from(c, s1, lo, hi) != crc_from(c, s2, lo, hi),
    decreases hi - lo,
{
    if lo == j {
        if crc_byte(c, s1[lo]) == crc_byte(c, s2[lo]) {
            lemma_crc_byte_injective(c, c, s1[lo], s2[lo]);
        }
        if crc_from(c, s1, lo, hi) == crc_from(c, s2, lo, hi) {
            lemma_crc_from_state_injective(
                crc_byte(c, s1[lo]),
                crc_byte(c, s2[lo]),
                s1,
                s2,
                lo + 1,
                hi,
            );
        }
    } else {
        lemma_crc_detects_byte_change(crc_byte(c, s1[lo]), s1, s2, lo + 1, hi, j);
    }
}

/// Four hexadecimal digits name one checksum: the rendering is injective.
pub proof fn lemma_crc_hex_injective(c1: u16, c2: u16)
    requires
        crc_hex(c1) == crc_hex(c2),
    ensures
        c1 == c2,
{
    assert(crc_hex(c1)[0] == crc_hex(c2)[0]);
    assert(crc_hex(c1)[1] == crc_hex(c2)[1]);
    assert(crc_hex(c1)[2] == crc_hex(c2)[2]);
    assert(crc_hex(c1)[3] == crc_hex(c2)[3]);
    assert((c1 >> 12) & 0xF < 16 && (c1 >> 8) & 0xF < 16 && (c1 >> 4) & 0xF < 16 && c1 & 0xF < 16)
        by (bit_vector);
    assert((c2 >> 12) & 0xF < 16 && (c2 >> 8) & 0xF < 16 && (c2 >> 4) & 0xF < 16 && c2 & 0xF < 16)
        by (bit_vector);
    lemma_hex_digit_injective((c1 >> 12) & 0xF, (c2 >> 12) & 0xF);
    lemma_hex_digit_injective((c1 >> 8) & 0xF, (c2 >> 8) & 0xF);
    lemma_hex_digit_injective((c1 >> 4) & 0xF, (c2 >> 4) & 0xF);
    lemma_hex_digit_injective(c1 & 0xF, c2 & 0xF);
    assert((c1 >> 12) & 0xF == (c2 >> 12) & 0xF && (c1 >> 8) & 0xF == (c2 >> 8) & 0xF && (c1 >> 4)
        & 0xF == (c2 >> 4) & 0xF && c1 & 0xF == c2 & 0xF ==> c1 == c2) by (bit_vector);
}

proof fn lemma_hex_digit_injective(n1: u16, n2: u16)
    requires
        n1 < 16,
        n2 < 16,
        hex_digit(n1) == hex_digit(n2),
    ensures
        n1 == n2,
{
}

fn crc_shift_exec(c: u16) -> (r: u16)
    ensures
        r == crc_shift(c),
{
    if c & 1 == 1 {
        (c >> 1) ^ 0xA001
    } else {
        c >> 1
    }
}

#[verifier::loop_isolation(false)]
fn crc_byte_exec(c: u16, b: u8) -> (r: u16)
    ensures
        r == crc_byte(c, b),
{
    let mut r: u16 = c ^ (b as u16);
    let mut i: usize = 0;
    while i < 8
        invariant
            0 <= i <= 8,
            r == crc_rounds(c ^ (b as u16), i as nat),
        decreases 8 - i,
    {
        r = crc_shift_exec(r);
        i = i + 1;
    }
    r
}

/// The checksum of the bytes `v[lo..hi)`.
#[verifier::loop_isolation(false)]
pub fn crc16_of(v: &Vec<u8>, lo: usize, hi: usize) -> (r: u16)
    requires
        lo <= hi <= v@.len(),
    ensures
        r == crc16(v@, lo as int, hi as int),
{
    let mut r: u16 = 0;
    let mut i: usize = lo;
    while i < hi
        invariant
            lo <= i <= hi,
            crc16(v@, lo as int, hi as int) == crc_from(r, v@, i as int, hi as int),
        decreases hi - i,
    {
        r = crc_byte_exec(r, v[i]);
        i = i + 1;
    }
    r
}

/// The four uppercase hexadecimal digits of a checksum.
pub fn crc_hex_of(c: u16) -> (r: (u8, u8, u8, u8))
    ensures
        crc_hex(c) == seq![r.0, r.1, r.2, r.3],
{
    proof {
        assert((c >> 12) & 0xF < 16 && (c >> 8) & 0xF < 16 && (c >> 4) & 0xF < 16 && c & 0xF < 16)
            by (bit_vector);
    }
    let d0 = hex_digit_exec((c >> 12) & 0xF);
    let d1 = hex_digit_exec((c >> 8) & 0xF);
    let d2 = hex_digit_exec((c >> 4) & 0xF);
    let d3 = hex_digit_exec(c & 0xF);
    proof {
        assert(crc_hex(c) =~= seq![d0, d1, d2, d3]);
    }
    (d0, d1, d2, d3)
}

fn hex_digit_exec(n: u16) -> (r: u8)
    requires
        n < 16,
    ensures
        r == hex_digit(n),
{
    if n < 10 {
        48 + (n as u8)
    } else {
        55 + (n as u8)
    }
}

} // verus!
