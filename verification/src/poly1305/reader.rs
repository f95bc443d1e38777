//! Reading Poly1305 tags from the board's output, one line at a time.

use vstd::prelude::*;
use crate::scan::{cycle_tokens, cycle_count_tokens, has_cycle_counts, first_run, run_at, CharClass};
use crate::primitives::{hex_decode, hex_bytes, hex_decodable};
use crate::format::string_views;

verus! {

/// One tag and the cycle counts (decimal digits) reported before it.
pub struct Poly1305Result {
    pub result: [u8; 16],
    pub cycle_counts: Vec<String>,
}

/// What one line does to the reader.
pub enum Poly1305Step {
    Pending,
    Complete(Poly1305Result),
    /// A line with 32 lowercase hex digits that is not, as a whole, hex.
    BadResult,
}

/// Reads tags from the board's output lines; `outputlen` is the number of
/// hex digits a tag line holds at least.
pub struct Reader {
    pub outputlen: usize,
    pub pending: Poly1305Result,
}

/// A result before any line.
pub open spec fn fresh(r: Poly1305Result) -> bool {
    r.result@ == Seq::new(16, |i: int| 0u8) && r.cycle_counts@.len() == 0
}

fn fresh_result() -> (r: Poly1305Result)
    ensures
        fresh(r),
{
    let r = Poly1305Result { result: [0u8; 16], cycle_counts: Vec::new() };
    assert(r.result@ =~= Seq::new(16, |i: int| 0u8));
    r
}

impl Reader {
    pub fn new_poly1305() -> (r: Reader)
        ensures
            r.outputlen == 32,
            fresh(r.pending),
    {
        Reader { outputlen: 32, pending: fresh_result() }
    }

    /// Takes one line: a line with cycle counts sets them; otherwise a
    /// line with `outputlen` lowercase hex digits in a row is decoded as a
    /// whole and its first 16 bytes end the reading.
    pub fn feed_line(&mut self, line: &str) -> (r: Poly1305Step)
        requires
            old(self).outputlen >= 32,
        ensures
            final(self).outputlen == old(self).outputlen,
            if cycle_tokens(line@).len() > 0 {
                &&& r is Pending
                &&& final(self).pending.result == old(self).pending.result
                &&& string_views(final(self).pending.cycle_counts@) == cycle_tokens(line@)
            } else if exists|q: int| run_at(line@, CharClass::HexLower, old(self).outputlen as int, q) {
                if hex_decodable(line@) {
                    &&& r is Complete
                    &&& r->Complete_0.cycle_counts == old(self).pending.cycle_counts
                    &&& r->Complete_0.result@ == hex_bytes(line@).take(16)
                    &&& fresh(final(self).pending)
                } else {
                    r is BadResult
                }
            } else {
                &&& r is Pending
                &&& final(self).pending.result == old(self).pending.result
                &&& final(self).pending.cycle_counts == old(self).pending.cycle_counts
            },
    {
        if has_cycle_counts(line) {
            let tokens = cycle_count_tokens(line);
            self.pending.cycle_counts = tokens;
            proof {
                assert(string_views(self.pending.cycle_counts@) =~= cycle_tokens(line@));
            }
            return Poly1305Step::Pending;
        }
        let n = line.unicode_len();
        match first_run(line, CharClass::HexLower, self.outputlen) {
            None => Poly1305Step::Pending,
            Some(p) => {
                proof {
                    assert(run_at(line@, CharClass::HexLower, self.outputlen as int, p as int));
                }
                match hex_decode(line) {
                    None => Poly1305Step::BadResult,
                    Some(bytes) => {
                        assert(bytes@.len() >= 16);
                        let mut res = [0u8; 16];
                        let mut i: usize = 0;
                        while i < 16
                            invariant
                                i <= 16,
                                bytes@.len() >= 16,
                                forall|j: int| 0 <= j < i ==> res@[j] == bytes@[j],
                            decreases 16 - i,
                        {
                            res[i] = bytes[i];
                            i = i + 1;
                        }
                        assert(res@ =~= bytes@.take(16));
                        let mut done = fresh_result();
                        std::mem::swap(&mut done, &mut self.pending);
                        Poly1305Step::Complete(Poly1305Result { result: res, cycle_counts: done.cycle_counts })
                    },
                }
            },
        }
    }
}

} // verus!
