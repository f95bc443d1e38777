//! The generators of the current test campaign: each draws random inputs,
//! computes the expected output with a reference implementation and
//! renders the benchmark harness that runs the same inputs on the board.

pub mod crypto_box;
pub mod crypto_secretbox;
pub mod crypto_stream;
pub mod scalarmult;

use vstd::prelude::*;
use crate::benchmark::{lines_of, push_lines};
use crate::format::string_views;

verus! {

/// `m` with its first `n` bytes set to zero.
pub open spec fn zero_prefix(m: Seq<u8>, n: int) -> Seq<u8> {
    Seq::new(m.len(), |i: int| if i < n { 0u8 } else { m[i] })
}

/// Sets the first `n` bytes of `m` to zero (the zero padding that
/// crypto_box and crypto_secretbox expect in front of a message).
pub fn clear_prefix(m: &mut [u8], n: usize)
    requires
        n <= old(m)@.len(),
    ensures
        final(m)@ == zero_prefix(old(m)@, n as int),
{
    let ghost start = m@;
    let mut i: usize = 0;
    while i < n
        invariant
            i <= n,
            n <= start.len(),
            m@.len() == start.len(),
            forall|j: int| 0 <= j < i ==> m@[j] == 0,
            forall|j: int| i <= j < start.len() ==> m@[j] == start[j],
        decreases n - i,
    {
        m[i] = 0;
        i = i + 1;
    }
    assert(m@ =~= zero_prefix(start, n as int));
}

/// What a test case appends to the raw output file: every line the board
/// sent, then the expected result.
pub open spec fn raw_report_text(raw: Seq<Seq<char>>, expected: Seq<char>) -> Seq<char> {
    lines_of(raw) + "Expected result: "@ + expected + seq!['\n']
}

/// Renders the raw output lines followed by `Expected result: <expected>`.
pub fn raw_report(raw_output: &Vec<String>, expected: &str) -> (r: String)
    ensures
        r@ == raw_report_text(string_views(raw_output@), expected@),
{
    let mut s = String::new();
    push_lines(&mut s, raw_output);
    s.append("Expected result: ");
    s.append(expected);
    proof {
        reveal_strlit("\n");
        assert("\n"@ =~= seq!['\n']);
    }
    s.append("\n");
    s
}

} // verus!
