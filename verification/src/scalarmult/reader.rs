//! Reading scalar multiplication results from the board's output, one line
//! at a time.

use vstd::prelude::*;
use crate::text::{starts_with, contains_str, contains_pat};
use crate::scan::{cycle_tokens, cycle_count_tokens, first_run, run_at, CharClass};
use crate::primitives::{hex_decode, hex_bytes, hex_decodable, is_hex_char};
use crate::format::string_views;
use crate::reader::{kept, keep_line, str_views};

verus! {

/// One product point, the cycle counts (decimal digits) and the raw output.
pub struct ScalarMultResult {
    pub result: [u8; 32],
    pub cycle_counts: Vec<String>,
    pub raw_output: Vec<String>,
}

/// Seconds to wait for the board's answer.
pub const TIMEOUT: u64 = 180;

/// The trimmed lines that never enter the raw output.
pub open spec fn ignored_lines() -> Seq<Seq<char>> {
    seq![
        "ATE0-->ATE0"@,
        "ATE0-->OK"@,
        "AT+BLEINIT=0-->OK"@,
        "AT+CWMODE=0-->OK"@,
        "OK"@,
        "Bench Clock Reset Complete"@,
        "Send Flag Timed Out Busy. Giving Up."@,
        "Receive Length Timed Out Busy"@,
        "AT+BLEINIT=0-->Send Flag Timed Out Busy. Giving Up."@,
        "ATE0--> Send Flag error: #0 #0 #0 #0 AT+BLEINIT=0-->AT+BLEINIT=0"@,
        "AT+CWMODE=0-->AT+CWMODE=0"@,
    ]
}

fn ignore_list() -> (r: Vec<&'static str>)
    ensures
        str_views(r@) == ignored_lines(),
{
    let mut v: Vec<&'static str> = Vec::new();
    v.push("ATE0-->ATE0");
    v.push("ATE0-->OK");
    v.push("AT+BLEINIT=0-->OK");
    v.push("AT+CWMODE=0-->OK");
    v.push("OK");
    v.push("Bench Clock Reset Complete");
    v.push("Send Flag Timed Out Busy. Giving Up.");
    v.push("Receive Length Timed Out Busy");
    v.push("AT+BLEINIT=0-->Send Flag Timed Out Busy. Giving Up.");
    v.push("ATE0--> Send Flag error: #0 #0 #0 #0 AT+BLEINIT=0-->AT+BLEINIT=0");
    v.push("AT+CWMODE=0-->AT+CWMODE=0");
    assert(str_views(v@) =~= ignored_lines());
    v
}

/// Whether the raw output keeps `line`.
pub open spec fn kept_line(line: Seq<char>) -> bool {
    kept(line, ignored_lines()) && !contains_pat(line, "Bench Clock Reset Complete"@)
}

/// What one line does to the reader.
pub enum ScalarMultStep {
    Pending,
    Complete(ScalarMultResult),
    /// A `Result: ` line without `outputlen` lowercase hex digits in a row.
    MissingResult,
}

/// Reads results from the board's output lines; `outputlen` is the number
/// of hex digits of a result.
pub struct Reader {
    pub outputlen: usize,
    pub pending: ScalarMultResult,
}

/// A result before any line.
pub open spec fn fresh(r: ScalarMultResult) -> bool {
    &&& r.result@ == Seq::new(32, |i: int| 0u8)
    &&& r.cycle_counts@.len() == 0
    &&& r.raw_output@.len() == 0
}

fn fresh_result() -> (r: ScalarMultResult)
    ensures
        fresh(r),
{
    let r = ScalarMultResult { result: [0u8; 32], cycle_counts: Vec::new(), raw_output: Vec::new() };
    assert(r.result@ =~= Seq::new(32, |i: int| 0u8));
    r
}

impl Reader {
    pub fn new_scalarmult() -> (r: Reader)
        ensures
            r.outputlen == 64,
            fresh(r.pending),
    {
        Reader { outputlen: 64, pending: fresh_result() }
    }

    /// Takes one line: a kept line joins the raw output, a line starting
    /// with `Cycle counts:` and ten spaces sets them, and a `Result: ` line
    /// ends the reading with its first run of `outputlen` hex digits.
    pub fn feed_line(&mut self, line: String) -> (r: ScalarMultStep)
        requires
            64 <= old(self).outputlen <= usize::MAX / 2,
            old(self).outputlen % 2 == 0,
        ensures
            final(self).outputlen == old(self).outputlen,
            ({
                let raw = if kept_line(line@) {
                    old(self).pending.raw_output@.push(line)
                } else {
                    old(self).pending.raw_output@
                };
                let n = old(self).outputlen as int;
                if "Cycle counts:          "@.is_prefix_of(line@) {
                    &&& r is Pending
                    &&& final(self).pending.raw_output@ == raw
                    &&& final(self).pending.result == old(self).pending.result
                    &&& string_views(final(self).pending.cycle_counts@) == cycle_tokens(line@)
                } else if "Result: "@.is_prefix_of(line@) {
                    if exists|q: int| run_at(line@, CharClass::HexLower, n, q) {
                        &&& r is Complete
                        &&& r->Complete_0.raw_output@ == raw
                        &&& r->Complete_0.cycle_counts == old(self).pending.cycle_counts
                        &&& exists|p: int|
                            run_at(line@, CharClass::HexLower, n, p) && (forall|q: int|
                                0 <= q < p ==> !run_at(line@, CharClass::HexLower, n, q))
                                && r->Complete_0.result@ == hex_bytes(line@.subrange(p, p + n)).take(32)
                        &&& fresh(final(self).pending)
                    } else {
                        r is MissingResult
                    }
                } else {
                    &&& r is Pending
                    &&& final(self).pending.raw_output@ == raw
                    &&& final(self).pending.result == old(self).pending.result
                    &&& final(self).pending.cycle_counts == old(self).pending.cycle_counts
                }
            }),
    {
        proof {
            reveal_strlit("Cycle counts:          ");
            reveal_strlit("Result: ");
        }
        let ignored = ignore_list();
        let keep = keep_line(line.as_str(), &ignored) && !contains_str(line.as_str(), "Bench Clock Reset Complete");
        let is_cycles = starts_with(line.as_str(), "Cycle counts:          ");
        let is_result = starts_with(line.as_str(), "Result: ");
        let tokens = cycle_count_tokens(line.as_str());
        let n = self.outputlen;
        let _len = line.as_str().unicode_len();
        let found = first_run(line.as_str(), CharClass::HexLower, n);
        let ghost l = line@;
        let decoded = match found {
            None => None,
            Some(p) => {
                let hex_text = line.as_str().substring_char(p, p + n);
                proof {
                    assert forall|k: int| 0 <= k < hex_text@.len() implies is_hex_char(#[trigger] hex_text@[k]) by {
                        assert(hex_text@[k] == l[p + k]);
                    }
                    assert(hex_decodable(hex_text@));
                }
                let d = hex_decode(hex_text);
                proof {
                    assert(d is Some);
                    assert(d->Some_0@ == hex_bytes(l.subrange(p as int, p + n)));
                    assert(d->Some_0@.len() == n / 2);
                }
                Some((p, d))
            },
        };
        if keep {
            self.pending.raw_output.push(line);
        }
        if is_cycles {
            self.pending.cycle_counts = tokens;
            proof {
                assert(string_views(self.pending.cycle_counts@) =~= cycle_tokens(l));
            }
            ScalarMultStep::Pending
        } else if is_result {
            match decoded {
                None => ScalarMultStep::MissingResult,
                Some((p, None)) => {
                    proof {
                        assert(run_at(l, CharClass::HexLower, n as int, p as int));
                    }
                    ScalarMultStep::MissingResult
                },
                Some((p, Some(bytes))) => {
                    proof {
                        assert(run_at(l, CharClass::HexLower, n as int, p as int));
                    }
                    let mut res = [0u8; 32];
                    let mut i: usize = 0;
                    while i < 32
                        invariant
                            i <= 32,
                            bytes@.len() >= 32,
                            forall|j: int| 0 <= j < i ==> res@[j] == bytes@[j],
                        decreases 32 - i,
                    {
                        res[i] = bytes[i];
                        i = i + 1;
                    }
                    assert(res@ =~= bytes@.take(32));
                    let mut done = fresh_result();
                    std::mem::swap(&mut done, &mut self.pending);
                    ScalarMultStep::Complete(
                        ScalarMultResult { result: res, cycle_counts: done.cycle_counts, raw_output: done.raw_output },
                    )
                },
            }
        } else {
            ScalarMultStep::Pending
        }
    }
}

} // verus!
