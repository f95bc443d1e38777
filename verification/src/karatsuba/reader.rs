//! Reading the Karatsuba benchmark's output, one line at a time.

use vstd::prelude::*;
use crate::scan::{cycle_tokens, cycle_count_tokens, has_cycle_counts, first_run, run_at, CharClass};
use crate::primitives::{hex_decode, hex_bytes, hex_decodable};
use crate::format::string_views;
use crate::reader::{kept, keep_line, str_views};

verus! {

/// What the board reported for one benchmark: the cycle counts (decimal
/// digits), the raw output lines and the product (big-endian bytes).
pub struct KaratsubaResult {
    pub cycle_counts: Vec<String>,
    pub raw_output: Vec<String>,
    pub result: Vec<u8>,
}

/// Seconds to wait for the board's answer.
pub const TIMEOUT: u64 = 15;

/// The trimmed lines that never enter the raw output.
pub open spec fn ignored_lines() -> Seq<Seq<char>> {
    seq!["ATE0-->ATE0"@, "AT+BLEINIT=0-->OK"@, "AT+CWMODE=0-->OK"@, "OK"@, "Bench Clock Reset Complete"@]
}

fn ignore_list() -> (r: Vec<&'static str>)
    ensures
        str_views(r@) == ignored_lines(),
{
    let mut v: Vec<&'static str> = Vec::new();
    v.push("ATE0-->ATE0");
    v.push("AT+BLEINIT=0-->OK");
    v.push("AT+CWMODE=0-->OK");
    v.push("OK");
    v.push("Bench Clock Reset Complete");
    assert(str_views(v@) =~= ignored_lines());
    v
}

/// What one line does to the reader.
pub enum KaratsubaStep {
    /// The benchmark is not finished yet.
    Pending,
    /// The result line arrived; here is the whole benchmark.
    Complete(KaratsubaResult),
    /// The first run of 64 characters from `[0-9a-z]` is not hex.
    BadResult,
}

/// Reads benchmark results from the board's output lines.
pub struct Reader {
    pub pending: KaratsubaResult,
}

/// The state of a reader before any line of a benchmark.
pub open spec fn fresh(r: KaratsubaResult) -> bool {
    &&& r.cycle_counts@.len() == 0
    &&& r.raw_output@.len() == 0
    &&& r.result@ == seq![1u8]
}

fn fresh_result() -> (r: KaratsubaResult)
    ensures
        fresh(r),
{
    let mut result: Vec<u8> = Vec::new();
    result.push(1);
    assert(result@ =~= seq![1u8]);
    KaratsubaResult { cycle_counts: Vec::new(), raw_output: Vec::new(), result }
}

impl Reader {
    pub fn new() -> (r: Reader)
        ensures
            fresh(r.pending),
    {
        Reader { pending: fresh_result() }
    }

    /// Takes one line: a kept line joins the raw output, a line with cycle
    /// counts sets them, and otherwise a line with 64 characters from
    /// `[0-9a-z]` ends the benchmark with the first such run, hex-decoded.
    pub fn feed_line(&mut self, line: String) -> (r: KaratsubaStep)
        ensures
            ({
                let raw = if kept(line@, ignored_lines()) {
                    old(self).pending.raw_output@.push(line)
                } else {
                    old(self).pending.raw_output@
                };
                if cycle_tokens(line@).len() > 0 {
                    &&& r is Pending
                    &&& final(self).pending.raw_output@ == raw
                    &&& final(self).pending.result == old(self).pending.result
                    &&& string_views(final(self).pending.cycle_counts@) == cycle_tokens(line@)
                } else if exists|q: int| run_at(line@, CharClass::LowerAlnum, 64, q) {
                    exists|p: int|
                        run_at(line@, CharClass::LowerAlnum, 64, p) && (forall|q: int|
                            0 <= q < p ==> !run_at(line@, CharClass::LowerAlnum, 64, q)) && if hex_decodable(
                            line@.subrange(p, p + 64),
                        ) {
                            &&& r is Complete
                            &&& r->Complete_0.raw_output@ == raw
                            &&& r->Complete_0.cycle_counts == old(self).pending.cycle_counts
                            &&& r->Complete_0.result@ == hex_bytes(line@.subrange(p, p + 64))
                            &&& fresh(final(self).pending)
                        } else {
                            r is BadResult
                        }
                } else {
                    &&& r is Pending
                    &&& final(self).pending.raw_output@ == raw
                    &&& final(self).pending.result == old(self).pending.result
                    &&& final(self).pending.cycle_counts == old(self).pending.cycle_counts
                }
            }),
    {
        let ignored = ignore_list();
        let keep = keep_line(line.as_str(), &ignored);
        let is_cycles = has_cycle_counts(line.as_str());
        let tokens = cycle_count_tokens(line.as_str());
        let found = first_run(line.as_str(), CharClass::LowerAlnum, 64);
        let _len = line.as_str().unicode_len();
        let ghost l = line@;
        let decoded = match found {
            None => None,
            Some(p) => Some((p, hex_decode(line.as_str().substring_char(p, p + 64)))),
        };
        if keep {
            self.pending.raw_output.push(line);
        }
        if is_cycles {
            self.pending.cycle_counts = tokens;
            proof {
                assert(string_views(self.pending.cycle_counts@) =~= cycle_tokens(l));
            }
            KaratsubaStep::Pending
        } else {
            match decoded {
                None => KaratsubaStep::Pending,
                Some((p, None)) => {
                    proof {
                        assert(run_at(l, CharClass::LowerAlnum, 64, p as int));
                    }
                    KaratsubaStep::BadResult
                },
                Some((p, Some(bytes))) => {
                    let mut done = fresh_result();
                    std::mem::swap(&mut done, &mut self.pending);
                    done.result = bytes;
                    proof {
                        assert(run_at(l, CharClass::LowerAlnum, 64, p as int));
                    }
                    KaratsubaStep::Complete(done)
                },
            }
        }
    }
}

} // verus!
