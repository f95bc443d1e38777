//! Reading a test result from the board's serial output, one line at a time.

use vstd::prelude::*;
use crate::text::{trimmed, trim_str, starts_with, str_eq};
use crate::scan::{cycle_tokens, cycle_count_tokens, first_run, run_at, CharClass};
use crate::primitives::{hex_decode, hex_bytes, hex_decodable};
use crate::format::{string_views, hex2, hex_char};
use crate::primitives::{is_hex_char, hex_char_value};
use crate::scan::in_class;

verus! {

/// What the board reported for one test case: the result bytes, the cycle
/// counts (as the decimal digits printed) and every non-blank line seen.
pub struct ReadResultObj {
    pub result: Vec<u8>,
    pub cycle_counts: Vec<String>,
    pub raw_output: Vec<String>,
}

impl ReadResultObj {
    pub fn new() -> (r: ReadResultObj)
        ensures
            r.result@.len() == 0,
            r.cycle_counts@.len() == 0,
            r.raw_output@.len() == 0,
    {
        ReadResultObj { result: Vec::new(), cycle_counts: Vec::new(), raw_output: Vec::new() }
    }

    /// Keeps a line of raw output unless it is blank.
    pub fn add_to_raw(&mut self, line: String)
        ensures
            final(self).result == old(self).result,
            final(self).cycle_counts == old(self).cycle_counts,
            trimmed(line@).len() == 0 ==> final(self).raw_output@ == old(self).raw_output@,
            trimmed(line@).len() != 0 ==> final(self).raw_output@ == old(self).raw_output@.push(
                line,
            ),
    {
        if trim_str(line.as_str()).unicode_len() == 0 {
            return;
        }
        self.raw_output.push(line);
    }

    pub fn get_raw_output(&self) -> (r: &Vec<String>)
        ensures
            r == &self.raw_output,
    {
        &self.raw_output
    }

    pub fn get_result(&self) -> (r: &Vec<u8>)
        ensures
            r == &self.result,
    {
        &self.result
    }

    pub fn get_cycle_count(&self) -> (r: &Vec<String>)
        ensures
            r == &self.cycle_counts,
    {
        &self.cycle_counts
    }
}

/// The views of a list of string slices.
pub open spec fn str_views(v: Seq<&str>) -> Seq<Seq<char>> {
    v.map_values(|s: &str| s@)
}

/// Whether a reader keeps `line` in its raw output: it is not blank, and
/// trimmed it is none of the `ignored` lines.
pub open spec fn kept(line: Seq<char>, ignored: Seq<Seq<char>>) -> bool {
    trimmed(line).len() != 0 && !ignored.contains(trimmed(line))
}

/// Tests whether `line` is kept, given the lines to ignore.
pub fn keep_line(line: &str, ignored: &Vec<&str>) -> (r: bool)
    ensures
        r == kept(line@, str_views(ignored@)),
{
    let t = trim_str(line);
    if t.unicode_len() == 0 {
        return false;
    }
    for i in 0..ignored.len()
        invariant
            t@ == trimmed(line@),
            forall|k: int| 0 <= k < i ==> ignored@[k]@ != t@,
    {
        if str_eq(ignored[i], t) {
            proof {
                assert(str_views(ignored@)[i as int] == t@);
            }
            return false;
        }
    }
    proof {
        if str_views(ignored@).contains(t@) {
            let k = choose|k: int| 0 <= k < str_views(ignored@).len() && str_views(ignored@)[k] == t@;
            assert(ignored@[k]@ == t@);
        }
    }
    true
}

/// What one line does to the reader.
pub enum ReadStep {
    /// The test case is not finished yet.
    Pending,
    /// The result line arrived; here is the whole test case.
    Complete(ReadResultObj),
    /// A result line without the expected run of hex digits.
    MissingResult,
}

/// Reads test results from the board's output lines. `outputlen` is the
/// number of result bytes, printed as twice as many hex digits.
pub struct ReaderObj {
    pub outputlen: usize,
    pub pending: ReadResultObj,
}

impl ReaderObj {
    pub fn new(outputlen: usize) -> (r: ReaderObj)
        ensures
            r.outputlen == outputlen,
            r.pending.result@.len() == 0,
            r.pending.cycle_counts@.len() == 0,
            r.pending.raw_output@.len() == 0,
    {
        ReaderObj { outputlen, pending: ReadResultObj::new() }
    }

    /// Takes one line: every non-blank line joins the raw output, a
    /// `Cycle counts:` line sets the cycle counts, and a `Result:` line ends
    /// the test case with the first `2 * outputlen` lowercase hex digits of
    /// the line, decoded.
    pub fn feed_line(&mut self, line: String) -> (r: ReadStep)
        requires
            old(self).outputlen <= usize::MAX / 2,
        ensures
            final(self).outputlen == old(self).outputlen,
            ({
                let raw = if trimmed(line@).len() == 0 {
                    old(self).pending.raw_output@
                } else {
                    old(self).pending.raw_output@.push(line)
                };
                let n = 2 * old(self).outputlen;
                if "Cycle counts:"@.is_prefix_of(line@) {
                    &&& r is Pending
                    &&& final(self).pending.raw_output@ == raw
                    &&& final(self).pending.result == old(self).pending.result
                    &&& string_views(final(self).pending.cycle_counts@) == cycle_tokens(line@)
                } else if "Result:"@.is_prefix_of(line@) {
                    if exists|q: int| run_at(line@, CharClass::HexLower, n as int, q) {
                        &&& r is Complete
                        &&& r->Complete_0.raw_output@ == raw
                        &&& r->Complete_0.cycle_counts == old(self).pending.cycle_counts
                        &&& exists|p: int|
                            run_at(line@, CharClass::HexLower, n as int, p) && (forall|q: int|
                                0 <= q < p ==> !run_at(line@, CharClass::HexLower, n as int, q))
                                && r->Complete_0.result@ == hex_bytes(line@.subrange(p, p + n))
                        &&& final(self).pending.raw_output@.len() == 0
                        &&& final(self).pending.cycle_counts@.len() == 0
                        &&& final(self).pending.result@.len() == 0
                    } else {
                        r is MissingResult
                    }
                } else {
                    &&& r is Pending
                    &&& final(self).pending.raw_output@ == raw
                    &&& final(self).pending.result == old(self).pending.result
                    &&& final(self).pending.cycle_counts == old(self).pending.cycle_counts
                }
            }),
    {
        proof {
            reveal_strlit("Cycle counts:");
            reveal_strlit("Result:");
        }
        let is_cycles = starts_with(line.as_str(), "Cycle counts:");
        let is_result = starts_with(line.as_str(), "Result:");
        let tokens = cycle_count_tokens(line.as_str());
        let n = 2 * self.outputlen;
        let len = line.as_str().unicode_len();
        let found = first_run(line.as_str(), CharClass::HexLower, n);
        let ghost l = line@;
        let decoded = match found {
            None => None,
            Some(p) => {
                let hex_text = line.as_str().substring_char(p, p + n);
                proof {
                    assert(hex_decodable(hex_text@)) by {
                        assert forall|k: int| 0 <= k < hex_text@.len() implies crate::primitives::is_hex_char(
                            #[trigger] hex_text@[k],
                        ) by {
                            assert(hex_text@[k] == l[p + k]);
                        }
                    }
                }
                hex_decode(hex_text)
            },
        };
        self.pending.add_to_raw(line);
        if is_cycles {
            self.pending.cycle_counts = tokens;
            proof {
                assert(string_views(self.pending.cycle_counts@) =~= cycle_tokens(l));
            }
            ReadStep::Pending
        } else if is_result {
            match decoded {
                None => ReadStep::MissingResult,
                Some(b) => {
                    let mut done = ReadResultObj::new();
                    std::mem::swap(&mut done, &mut self.pending);
                    done.result = b;
                    ReadStep::Complete(done)
                },
            }
        } else {
            ReadStep::Pending
        }
    }
}

/// What the harness's `printresult` prints for bytes `b`: each byte as two
/// lowercase hex digits (`%02x`).
pub open spec fn printed_hex(b: Seq<u8>) -> Seq<char>
    decreases b.len(),
{
    if b.len() == 0 {
        Seq::empty()
    } else {
        printed_hex(b.drop_last()) + hex2(b.last())
    }
}

proof fn lemma_printed_hex(b: Seq<u8>)
    ensures
        printed_hex(b).len() == 2 * b.len(),
        forall|i: int|
            #![trigger b[i]]
            0 <= i < b.len() ==> printed_hex(b)[2 * i] == hex_char((b[i] / 16) as int)
                && printed_hex(b)[2 * i + 1] == hex_char((b[i] % 16) as int),
    decreases b.len(),
{
    if b.len() > 0 {
        let d = b.drop_last();
        lemma_printed_hex(d);
        let p = printed_hex(b);
        assert(p == printed_hex(d) + hex2(b.last()));
        assert forall|i: int| #![trigger b[i]] 0 <= i < b.len() implies p[2 * i] == hex_char((b[i] / 16) as int)
            && p[2 * i + 1] == hex_char((b[i] % 16) as int) by {
            if i < b.len() - 1 {
                assert(d[i] == b[i]);
                assert(p[2 * i] == printed_hex(d)[2 * i]);
                assert(p[2 * i + 1] == printed_hex(d)[2 * i + 1]);
            } else {
                assert(p[2 * i] == hex2(b.last())[0]);
                assert(p[2 * i + 1] == hex2(b.last())[1]);
            }
        }
    }
}

proof fn lemma_hex_char(d: int)
    requires
        0 <= d < 16,
    ensures
        in_class(CharClass::HexLower, hex_char(d)),
        is_hex_char(hex_char(d)),
        hex_char_value(hex_char(d)) == d,
{
}

/// What the board prints as its result line is read back as the bytes it
/// printed: in `Result: ` followed by the `%02x` digits of `b`, the first
/// run of `2 * b.len()` lowercase hex digits starts right after the prefix,
/// and those digits decode to `b`.
pub proof fn lemma_result_line_read_back(b: Seq<u8>)
    requires
        b.len() > 0,
    ensures
        ({
            let line = "Result: "@ + printed_hex(b);
            let n = 2 * b.len() as int;
            &&& "Result:"@.is_prefix_of(line)
            &&& run_at(line, CharClass::HexLower, n, 8)
            &&& forall|q: int| 0 <= q < 8 ==> !run_at(line, CharClass::HexLower, n, q)
            &&& hex_decodable(line.subrange(8, 8 + n))
            &&& hex_bytes(line.subrange(8, 8 + n)) == b
        }),
{
    reveal_strlit("Result: ");
    reveal_strlit("Result:");
    let line = "Result: "@ + printed_hex(b);
    let n = 2 * b.len() as int;
    let h = printed_hex(b);
    lemma_printed_hex(b);
    assert(line.subrange(8, 8 + n) =~= h);
    assert forall|k: int| 0 <= k < n implies in_class(CharClass::HexLower, #[trigger] h[k]) && is_hex_char(h[k]) by {
        let i = k / 2;
        assert(h[2 * i] == hex_char((b[i] / 16) as int));
        lemma_hex_char((b[i] / 16) as int);
        lemma_hex_char((b[i] % 16) as int);
        if k % 2 == 1 {
            assert(k == 2 * i + 1);
        } else {
            assert(k == 2 * i);
        }
    }
    assert forall|k: int| 8 <= k < 8 + n implies in_class(CharClass::HexLower, #[trigger] line[k]) by {
        assert(line[k] == h[k - 8]);
    }
    assert forall|q: int| 0 <= q < 8 implies !run_at(line, CharClass::HexLower, n, q) by {
        if q == 1 {
            assert(!in_class(CharClass::HexLower, line[2]));
        } else {
            assert(!in_class(CharClass::HexLower, line[q]));
        }
    }
    assert(hex_bytes(h) =~= b) by {
        assert forall|i: int| 0 <= i < b.len() implies #[trigger] hex_bytes(h)[i] == b[i] by {
            lemma_hex_char((b[i] / 16) as int);
            lemma_hex_char((b[i] % 16) as int);
            assert(h[2 * i] == hex_char((b[i] / 16) as int));
        }
    }
    assert("Result:"@ =~= line.subrange(0, 7));
}

} // verus!
