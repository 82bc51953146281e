//! The frame reader and the telegram decoder.
//!
//! [`Reader`] scans a byte buffer for frames: a frame starts at a `/`
//! marker and runs through the first following `!` marker; when checksum
//! digits are required, the four bytes after the `!` belong to the frame
//! too. A `/` seen while collecting restarts the frame, so an interrupted
//! transmission never corrupts the telegram that follows it. A partial
//! frame at the end of the buffer is dropped, not surfaced, unless the
//! caller asks for end-of-stream diagnostics.

use vstd::prelude::*;

use crate::crc::{crc16, crc16_of, crc_hex, crc_hex_of};
use crate::obis::{parse_line, spec_parse_line};
use crate::scan::{find_byte, rfind_byte, lemma_find_props, lemma_rfind_props, spec_find,
    spec_rfind, BANG, CR, LF, SLASH};
use crate::types::{apply_object, empty_state, DecodeError, State};

verus! {

/// Where one frame stands in the buffer: its start marker, its end marker,
/// and where scanning resumes afterwards.
pub ghost struct FrameBounds {
    pub start: int,
    pub bang: int,
    pub next: int,
}

/// The next complete frame at or after `pos`: the first `!` after the first
/// `/`, started at the last `/` before that `!` (a restarted frame wins).
/// With `check`, the four checksum digits must be present too, else the
/// frame is incomplete and dropped.
pub open spec fn spec_next_frame(s: Seq<u8>, pos: int, check: bool) -> Option<FrameBounds> {
    match spec_find(s, pos, s.len() as int, SLASH) {
        None => None,
        Some(p0) => match spec_find(s, p0, s.len() as int, BANG) {
            None => None,
            Some(bang) => {
                let start = match spec_rfind(s, p0, bang, SLASH) {
                    Some(st) => st,
                    None => p0,
                };
                if check {
                    if bang + 5 <= s.len() {
                        Some(FrameBounds { start, bang, next: bang + 5 })
                    } else {
                        None
                    }
                } else {
                    Some(FrameBounds { start, bang, next: bang + 1 })
                }
            },
        },
    }
}

/// Fold the data lines in `s[lo..hi)` into `st`, in line order. Lines are
/// terminated by a line feed; a trailing carriage return is stripped and
/// empty lines are skipped. Trailing bytes with no line feed belong to the
/// end-marker line and carry no data. The first error aborts the fold:
/// last write wins, no state is produced for a malformed telegram.
pub open spec fn run_segments(st: State, s: Seq<u8>, lo: int, hi: int) -> Result<
    State,
    DecodeError,
>
    decreases hi - lo,
{
    if lo < 0 || hi > s.len() || lo >= hi {
        Ok(st)
    } else {
        match spec_find(s, lo, hi, LF) {
            None => Ok(st),
            Some(k) => if lo <= k < hi {
                let lend = if k > lo && s[k - 1] == CR {
                    k - 1
                } else {
                    k
                };
                if lend == lo {
                    run_segments(st, s, k + 1, hi)
                } else {
                    match spec_parse_line(s, lo, lend) {
                        Err(e) => Err(e),
                        Ok(None) => run_segments(st, s, k + 1, hi),
                        Ok(Some(o)) => run_segments(apply_object(st, o), s, k + 1, hi),
                    }
                }
            } else {
                Ok(st)
            },
        }
    }
}

/// What the frame `s[start..bang]` decodes to. The checksum is recomputed
/// over start marker through end marker inclusive; when `check` holds it
/// must equal, as four uppercase hexadecimal digits, the four bytes after
/// the end marker, else no state is produced. The identification line
/// (from the start marker to the first line feed) carries no data.
pub open spec fn spec_decode_frame(s: Seq<u8>, start: int, bang: int, check: bool) -> Result<
    State,
    DecodeError,
> {
    let computed = crc16(s, start, bang + 1);
    if check && s.subrange(bang + 1, bang + 5) != crc_hex(computed) {
        Err(
            DecodeError::ChecksumMismatch {
                computed,
                found: (s[bang + 1], s[bang + 2], s[bang + 3], s[bang + 4]),
            },
        )
    } else {
        run_segments(empty_state(), s, frame_data_start(s, start, bang), bang)
    }
}

/// Where a frame's data lines begin: right after the identification line.
pub open spec fn frame_data_start(s: Seq<u8>, start: int, bang: int) -> int {
    match spec_find(s, start, bang, LF) {
        Some(k) => k + 1,
        None => bang,
    }
}

/// Decode the frame `v[start..bang]`, whose checksum digits (if `check`)
/// are `v[bang+1..bang+5)`.
#[verifier::loop_isolation(false)]
#[verifier::rlimit(100)]
pub fn decode_frame(v: &Vec<u8>, start: usize, bang: usize, check: bool) -> (r: Result<
    State,
    DecodeError,
>)
    requires
        start <= bang < v@.len(),
        check ==> bang + 5 <= v@.len(),
    ensures
        r == spec_decode_frame(v@, start as int, bang as int, check),
{
    let n = v.len();
    assert(bang < n);
    let computed = crc16_of(v, start, bang + 1);
    if check {
        let (h0, h1, h2, h3) = crc_hex_of(computed);
        let d0 = v[bang + 1];
        let d1 = v[bang + 2];
        let d2 = v[bang + 3];
        let d3 = v[bang + 4];
        proof {
            assert(v@.subrange(bang + 1 as int, bang + 5 as int) =~= seq![d0, d1, d2, d3]);
        }
        if d0 != h0 || d1 != h1 || d2 != h2 || d3 != h3 {
            proof {
                assert(v@.subrange(bang + 1 as int, bang + 5 as int) != crc_hex(computed));
            }
            return Err(DecodeError::ChecksumMismatch { computed, found: (d0, d1, d2, d3) });
        }
        proof {
            assert(v@.subrange(bang + 1 as int, bang + 5 as int) == crc_hex(computed));
        }
    }
    let dstart = match find_byte(v, start, bang, LF) {
        Some(k) => k + 1,
        None => bang,
    };
    let mut st = State::new_empty();
    let mut pos = dstart;
    loop
        invariant
            dstart <= pos <= bang < v@.len(),
            run_segments(empty_state(), v@, dstart as int, bang as int) == run_segments(
                st,
                v@,
                pos as int,
                bang as int,
            ),
        decreases bang - pos,
    {
        let k = match find_byte(v, pos, bang, LF) {
            Some(k) => k,
            None => {
                break ;
            },
        };
        let lend = if k > pos && v[k - 1] == CR {
            k - 1
        } else {
            k
        };
        if lend > pos {
            match parse_line(v, pos, lend) {
                Err(e) => {
                    return Err(e);
                },
                Ok(Some(o)) => {
                    st.apply(o);
                },
                Ok(None) => {},
            }
        }
        pos = k + 1;
    }
    Ok(st)
}

/// A pull-based reader of telegrams from one byte buffer. Each call of
/// [`Reader::next_telegram`] scans from the cursor for the next complete
/// frame, decodes it, and moves the cursor past it.
pub struct Reader {
    buf: Vec<u8>,
    pos: usize,
    check: bool,
}

impl Reader {
    /// The bytes the reader scans.
    pub closed spec fn bytes(&self) -> Seq<u8> {
        self.buf@
    }

    /// Where the next scan starts.
    pub closed spec fn cursor(&self) -> int {
        self.pos as int
    }

    /// Whether frames must carry checksum digits, which are then verified.
    pub closed spec fn checking(&self) -> bool {
        self.check
    }

    pub closed spec fn wf(&self) -> bool {
        self.pos <= self.buf@.len()
    }

    /// A reader that requires and verifies checksum digits on every frame.
    pub fn new(buf: Vec<u8>) -> (r: Reader)
        ensures
            r.bytes() == buf@,
            r.cursor() == 0,
            r.checking(),
            r.wf(),
    {
        Reader { buf, pos: 0, check: true }
    }

    /// A reader for the telegram variant that omits checksum digits:
    /// frames end at the end marker and validation is skipped.
    pub fn new_unchecked(buf: Vec<u8>) -> (r: Reader)
        ensures
            r.bytes() == buf@,
            r.cursor() == 0,
            !r.checking(),
            r.wf(),
    {
        Reader { buf, pos: 0, check: false }
    }

    /// The next telegram: `None` when no complete frame remains (a partial
    /// frame at the end of the buffer is dropped, and the cursor does not
    /// move), else the decode of the next complete frame, after which the
    /// cursor stands past that frame.
    pub fn next_telegram(&mut self) -> (r: Option<Result<State, DecodeError>>)
        requires
            old(self).wf(),
        ensures
            final(self).wf(),
            final(self).bytes() == old(self).bytes(),
            final(self).checking() == old(self).checking(),
            (match spec_next_frame(old(self).bytes(), old(self).cursor(), old(self).checking()) {
                None => r is None && final(self).cursor() == old(self).cursor(),
                Some(fb) => final(self).cursor() == fb.next && r == Some(
                    spec_decode_frame(old(self).bytes(), fb.start, fb.bang, old(self).checking()),
                ),
            }),
    {
        let len = self.buf.len();
        let p0 = match find_byte(&self.buf, self.pos, len, SLASH) {
            Some(p) => p,
            None => {
                return None;
            },
        };
        let bang = match find_byte(&self.buf, p0, len, BANG) {
            Some(b) => b,
            None => {
                return None;
            },
        };
        let start = match rfind_byte(&self.buf, p0, bang, SLASH) {
            Some(st) => st,
            None => p0,
        };
        proof {
            lemma_rfind_props(self.buf@, p0 as int, bang as int, SLASH);
            lemma_find_props(self.buf@, p0 as int, len as int, BANG);
            lemma_find_props(self.buf@, self.pos as int, len as int, SLASH);
            if p0 < bang {
                assert(self.buf@[p0 as int] == SLASH);
                assert(spec_rfind(self.buf@, p0 as int, bang as int, SLASH) is Some);
            }
        }
        if self.check {
            if len - bang < 5 {
                return None;
            }
            let r = decode_frame(&self.buf, start, bang, true);
            self.pos = bang + 5;
            Some(r)
        } else {
            let r = decode_frame(&self.buf, start, bang, false);
            self.pos = bang + 1;
            Some(r)
        }
    }

    /// End-of-stream diagnostics: a framing error iff a start marker lies
    /// at or after the cursor but no complete frame follows it — the
    /// buffer ended mid-frame.
    pub fn end_diagnostics(&self) -> (r: Option<DecodeError>)
        requires
            self.wf(),
        ensures
            (r == if spec_next_frame(self.bytes(), self.cursor(), self.checking()) is None
                && spec_find(self.bytes(), self.cursor(), self.bytes().len() as int, SLASH)
                is Some {
                Some(DecodeError::Framing)
            } else {
                None::<DecodeError>
            }),
    {
        let len = self.buf.len();
        let p0 = match find_byte(&self.buf, self.pos, len, SLASH) {
            Some(p) => p,
            None => {
                return None;
            },
        };
        let bang = match find_byte(&self.buf, p0, len, BANG) {
            Some(b) => b,
            None => {
                return Some(DecodeError::Framing);
            },
        };
        if self.check && len - bang < 5 {
            return Some(DecodeError::Framing);
        }
        None
    }
}

} // verus!
