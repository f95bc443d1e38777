//! Reading the multiplication benchmark's output, one line at a time.

use vstd::prelude::*;
use crate::limbs::be_value;
use crate::scan::{cycle_tokens, cycle_count_tokens, has_cycle_counts, first_hex_literal, hex_literal_at, class_end, CharClass};
use crate::primitives::{hex_decode, hex_bytes, hex_decodable, is_hex_char, read_u64_be};
use crate::format::string_views;
use crate::reader::{kept, keep_line, str_views};

verus! {

/// The product the board printed, its cycle counts (decimal digits) and the
/// raw output.
pub struct SecuremulResult {
    pub result: u64,
    pub cycle_counts: Vec<String>,
    pub raw_output: Vec<String>,
}

/// Seconds to wait for the board's answer.
pub const TIMEOUT: u64 = 10;

/// The trimmed lines that never enter the raw output.
pub open spec fn ignored_lines() -> Seq<Seq<char>> {
    seq![
        "ATE0-->ATE0"@,
        "AT+BLEINIT=0-->OK"@,
        "AT+CWMODE=0-->OK"@,
        "OK"@,
        "Bench Clock Reset Complete"@,
        "Send Flag Timed Out Busy. Giving Up."@,
        "Receive Length Timed Out Busy"@,
        "AT+BLEINIT=0-->Send Flag Timed Out Busy. Giving Up."@,
    ]
}

fn ignore_list() -> (r: Vec<&'static str>)
    ensures
        str_views(r@) == ignored_lines(),
{
    let mut v: Vec<&'static str> = Vec::new();
    v.push("ATE0-->ATE0");
    v.push("AT+BLEINIT=0-->OK");
    v.push("AT+CWMODE=0-->OK");
    v.push("OK");
    v.push("Bench Clock Reset Complete");
    v.push("Send Flag Timed Out Busy. Giving Up.");
    v.push("Receive Length Timed Out Busy");
    v.push("AT+BLEINIT=0-->Send Flag Timed Out Busy. Giving Up.");
    assert(str_views(v@) =~= ignored_lines());
    v
}

/// The hex digits that `0x([0-9a-f]+)` captures at position `i`.
pub open spec fn literal_digits(s: Seq<char>, i: int) -> Seq<char> {
    s.subrange(i + 2, class_end(s, CharClass::HexLower, i + 2))
}

/// The digits with a `0` in front when their number is odd.
pub open spec fn padded(h: Seq<char>) -> Seq<char> {
    if h.len() % 2 == 1 {
        seq!['0'] + h
    } else {
        h
    }
}

/// What one line does to the reader.
pub enum SecuremulStep {
    Pending,
    Complete(SecuremulResult),
    /// The printed number has fewer than eight bytes.
    BadResult,
}

/// Reads products from the board's output lines.
pub struct Reader {
    pub pending: SecuremulResult,
}

/// A result before any line.
pub open spec fn fresh(r: SecuremulResult) -> bool {
    r.result == 0 && r.cycle_counts@.len() == 0 && r.raw_output@.len() == 0
}

fn fresh_result() -> (r: SecuremulResult)
    ensures
        fresh(r),
{
    SecuremulResult { result: 0, cycle_counts: Vec::new(), raw_output: Vec::new() }
}

/// Puts a `0` in front of an odd number of digits.
fn pad_even(h: String) -> (r: String)
    ensures
        r@ == padded(h@),
{
    if h.as_str().unicode_len() % 2 != 0 {
        let mut z = String::from_str("0");
        z.append(h.as_str());
        proof {
            reveal_strlit("0");
            assert(z@ =~= seq!['0'] + h@);
        }
        z
    } else {
        h
    }
}

impl Reader {
    pub fn new_securemul() -> (r: Reader)
        ensures
            fresh(r.pending),
    {
        Reader { pending: fresh_result() }
    }

    /// Takes one line: a kept line joins the raw output, a line with cycle
    /// counts sets them, and otherwise a line with `0x` and hex digits ends
    /// the reading with the first eight bytes of that number, big-endian.
    pub fn feed_line(&mut self, line: String) -> (r: SecuremulStep)
        ensures
            ({
                let raw = if kept(line@, ignored_lines()) {
                    old(self).pending.raw_output@.push(line)
                } else {
                    old(self).pending.raw_output@
                };
                if cycle_tokens(line@).len() > 0 {
                    &&& r is Pending
                    &&& final(self).pending.raw_output@ == raw
                    &&& final(self).pending.result == old(self).pending.result
                    &&& string_views(final(self).pending.cycle_counts@) == cycle_tokens(line@)
                } else if exists|i: int| hex_literal_at(line@, i) {
                    exists|i: int|
                        hex_literal_at(line@, i) && (forall|q: int| 0 <= q < i ==> !hex_literal_at(line@, q))
                            && {
                            let bytes = hex_bytes(padded(literal_digits(line@, i)));
                            if bytes.len() >= 8 {
                                &&& r is Complete
                                &&& r->Complete_0.result == be_value(bytes.take(8))
                                &&& r->Complete_0.raw_output@ == raw
                                &&& r->Complete_0.cycle_counts == old(self).pending.cycle_counts
                                &&& fresh(final(self).pending)
                            } else {
                                r is BadResult
                            }
                        }
                } else {
                    &&& r is Pending
                    &&& final(self).pending.raw_output@ == raw
                    &&& final(self).pending.result == old(self).pending.result
                    &&& final(self).pending.cycle_counts == old(self).pending.cycle_counts
                }
            }),
    {
        let ignored = ignore_list();
        let keep = keep_line(line.as_str(), &ignored);
        let is_cycles = has_cycle_counts(line.as_str());
        let tokens = cycle_count_tokens(line.as_str());
        let literal = first_hex_literal(line.as_str());
        let ghost l = line@;
        if keep {
            self.pending.raw_output.push(line);
        }
        if is_cycles {
            self.pending.cycle_counts = tokens;
            proof {
                assert(string_views(self.pending.cycle_counts@) =~= cycle_tokens(l));
            }
            return SecuremulStep::Pending;
        }
        match literal {
            None => SecuremulStep::Pending,
            Some(h) => {
                let ghost i = choose|i: int|
                    hex_literal_at(l, i) && (forall|q: int| 0 <= q < i ==> !hex_literal_at(l, q)) && h@
                        == l.subrange(i + 2, class_end(l, CharClass::HexLower, i + 2));
                proof {
                    crate::scan::lemma_class_end(l, CharClass::HexLower, i + 2);
                }
                let hexstr = pad_even(h);
                proof {
                    let d = literal_digits(l, i);
                    assert(d == h@);
                    assert forall|k: int| 0 <= k < hexstr@.len() implies is_hex_char(#[trigger] hexstr@[k]) by {
                        if h@.len() % 2 == 1 {
                            if k > 0 {
                                assert(hexstr@[k] == h@[k - 1]);
                                assert(h@[k - 1] == l[i + 2 + k - 1]);
                            }
                        } else {
                            assert(h@[k] == l[i + 2 + k]);
                        }
                    }
                    assert(hex_decodable(hexstr@));
                }
                let bytes = match hex_decode(hexstr.as_str()) {
                    Some(b) => b,
                    None => Vec::new(),
                };
                match read_u64_be(bytes.as_slice()) {
                    None => SecuremulStep::BadResult,
                    Some(v) => {
                        let mut done = fresh_result();
                        std::mem::swap(&mut done, &mut self.pending);
                        done.result = v;
                        SecuremulStep::Complete(done)
                    },
                }
            },
        }
    }
}

} // verus!
