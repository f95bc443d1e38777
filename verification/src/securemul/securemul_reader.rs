//! Reading the multiplication benchmark's output with the product taken
//! little-endian, one line at a time.

use vstd::prelude::*;
use crate::scan::{cycle_tokens, cycle_count_tokens, has_cycle_counts, first_hex_literal, hex_literal_at, class_end, CharClass};
use crate::primitives::{hex_decode, hex_bytes, hex_decodable};
use crate::format::string_views;
use crate::securemul::reader::literal_digits;

verus! {

/// The product the board printed and its cycle counts (decimal digits).
pub struct SecuremulResult {
    pub result: u64,
    pub cycle_counts: Vec<String>,
}

/// What one line does to the reader.
pub enum SecuremulStep {
    Pending,
    Complete(SecuremulResult),
    /// The printed number has two bytes or more: shifting the second byte
    /// of a `u8` by eight bits overflows.
    BadResult,
}

/// Reads products from the board's output lines.
pub struct Reader {
    pub pending: SecuremulResult,
}

/// A result before any line.
pub open spec fn fresh(r: SecuremulResult) -> bool {
    r.result == 0 && r.cycle_counts@.len() == 0
}

/// The bytes of the printed digits: nothing when their number is odd.
pub open spec fn literal_bytes(h: Seq<char>) -> Seq<u8> {
    if hex_decodable(h) {
        hex_bytes(h)
    } else {
        Seq::empty()
    }
}

impl Reader {
    pub fn new_securemul() -> (r: Reader)
        ensures
            fresh(r.pending),
    {
        Reader { pending: SecuremulResult { result: 0, cycle_counts: Vec::new() } }
    }

    /// Takes one line: a line with cycle counts sets them, and otherwise a
    /// line with `0x` and hex digits ends the reading with that number of
    /// at most one byte.
    pub fn feed_line(&mut self, line: &str) -> (r: SecuremulStep)
        ensures
            if cycle_tokens(line@).len() > 0 {
                &&& r is Pending
                &&& final(self).pending.result == old(self).pending.result
                &&& string_views(final(self).pending.cycle_counts@) == cycle_tokens(line@)
            } else if exists|i: int| hex_literal_at(line@, i) {
                exists|i: int|
                    hex_literal_at(line@, i) && (forall|q: int| 0 <= q < i ==> !hex_literal_at(line@, q)) && {
                        let bytes = literal_bytes(literal_digits(line@, i));
                        if bytes.len() <= 1 {
                            &&& r is Complete
                            &&& r->Complete_0.result == (if bytes.len() == 0 { 0 } else { bytes[0] as int })
                            &&& r->Complete_0.cycle_counts == old(self).pending.cycle_counts
                            &&& fresh(final(self).pending)
                        } else {
                            r is BadResult
                        }
                    }
            } else {
                r is Pending && final(self).pending == old(self).pending
            },
    {
        if has_cycle_counts(line) {
            let tokens = cycle_count_tokens(line);
            self.pending.cycle_counts = tokens;
            proof {
                assert(string_views(self.pending.cycle_counts@) =~= cycle_tokens(line@));
            }
            return SecuremulStep::Pending;
        }
        match first_hex_literal(line) {
            None => SecuremulStep::Pending,
            Some(h) => {
                let ghost i = choose|i: int|
                    hex_literal_at(line@, i) && (forall|q: int| 0 <= q < i ==> !hex_literal_at(line@, q)) && h@
                        == line@.subrange(i + 2, class_end(line@, CharClass::HexLower, i + 2));
                proof {
                    assert(literal_digits(line@, i) == h@);
                }
                let hex = match hex_decode(h.as_str()) {
                    Some(b) => b,
                    None => Vec::new(),
                };
                assert(hex@ == literal_bytes(h@));
                if hex.len() >= 2 {
                    proof {
                        assert(hex_literal_at(line@, i));
                    }
                    return SecuremulStep::BadResult;
                }
                let mut val: u64 = 0;
                if hex.len() == 1 {
                    val = hex[0] as u64;
                }
                let mut done = SecuremulResult { result: 0, cycle_counts: Vec::new() };
                std::mem::swap(&mut done, &mut self.pending);
                let r = SecuremulStep::Complete(SecuremulResult { result: val, cycle_counts: done.cycle_counts });
                proof {
                    let bytes = literal_bytes(literal_digits(line@, i));
                    assert(bytes == hex@);
                    assert(hex_literal_at(line@, i));
                }
                r
            },
        }
    }
}

} // verus!
