//! Reading the single-message Poly1305 harness's output, one line at a time.

use vstd::prelude::*;
use crate::scan::{took_cycles, took_at, class_end, first_run, run_at, CharClass};
use crate::primitives::{hex_decode, hex_bytes, hex_decodable};

verus! {

/// One tag and the cycle count (decimal digits) reported before it.
pub struct Poly1305Result {
    pub result: [u8; 16],
    pub cycle_count: String,
}

/// What one line does to the reader.
pub enum Poly1305Step {
    Pending,
    Complete(Poly1305Result),
    /// A line with 32 lowercase hex digits that is not, as a whole, hex.
    BadResult,
    /// The reader takes no more lines.
    Finished,
}

/// Reads tags from the board's output lines.
pub struct Poly1305Reader {
    pub finished: bool,
    pub pending: Poly1305Result,
}

/// A result before any line: no tag, a cycle count of `0`.
pub open spec fn fresh(r: Poly1305Result) -> bool {
    r.result@ == Seq::new(16, |i: int| 0u8) && r.cycle_count@ == seq!['0']
}

fn fresh_result() -> (r: Poly1305Result)
    ensures
        fresh(r),
{
    let r = Poly1305Result { result: [0u8; 16], cycle_count: String::from_str("0") };
    proof {
        reveal_strlit("0");
    }
    assert(r.result@ =~= Seq::new(16, |i: int| 0u8));
    assert(r.cycle_count@ =~= seq!['0']);
    r
}

impl Poly1305Reader {
    pub fn new() -> (r: Poly1305Reader)
        ensures
            !r.finished,
            fresh(r.pending),
    {
        Poly1305Reader { finished: false, pending: fresh_result() }
    }

    /// Takes one line: `This took <digits> cycles` sets the cycle count;
    /// otherwise a line with 32 lowercase hex digits in a row is decoded as
    /// a whole and its first 16 bytes end the reading.
    pub fn feed_line(&mut self, line: &str) -> (r: Poly1305Step)
        ensures
            final(self).finished == old(self).finished,
            if old(self).finished {
                r is Finished && final(self).pending == old(self).pending
            } else if exists|i: int| took_at(line@, i) {
                &&& r is Pending
                &&& final(self).pending.result == old(self).pending.result
                &&& exists|i: int|
                    took_at(line@, i) && (forall|q: int| 0 <= q < i ==> !took_at(line@, q))
                        && final(self).pending.cycle_count@ == line@.subrange(
                        i + 10,
                        class_end(line@, CharClass::Digit, i + 10),
                    )
            } else if exists|q: int| run_at(line@, CharClass::HexLower, 32, q) {
                if hex_decodable(line@) {
                    &&& r is Complete
                    &&& r->Complete_0.cycle_count == old(self).pending.cycle_count
                    &&& r->Complete_0.result@ == hex_bytes(line@).take(16)
                    &&& fresh(final(self).pending)
                } else {
                    r is BadResult
                }
            } else {
                r is Pending && final(self).pending == old(self).pending
            },
    {
        if self.finished {
            return Poly1305Step::Finished;
        }
        match took_cycles(line) {
            Some(digits) => {
                self.pending.cycle_count = digits;
                return Poly1305Step::Pending;
            },
            None => {},
        }
        let n = line.unicode_len();
        match first_run(line, CharClass::HexLower, 32) {
            None => Poly1305Step::Pending,
            Some(p) => {
                proof {
                    assert(run_at(line@, CharClass::HexLower, 32, p as int));
                }
                match hex_decode(line) {
                    None => Poly1305Step::BadResult,
                    Some(bytes) => {
                        let mut res = [0u8; 16];
                        let mut i: usize = 0;
                        while i < 16
                            invariant
                                i <= 16,
                                bytes@.len() >= 16,
                                forall|j: int| 0 <= j < i ==> res@[j] == bytes@[j],
                            decreases 16 - i,
                        {
                            res[i] = bytes[i];
                            i = i + 1;
                        }
                        assert(res@ =~= bytes@.take(16));
                        let mut done = fresh_result();
                        std::mem::swap(&mut done, &mut self.pending);
                        Poly1305Step::Complete(Poly1305Result { result: res, cycle_count: done.cycle_count })
                    },
                }
            },
        }
    }
}

} // verus!
