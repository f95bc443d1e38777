//! Reading the block-loop benchmark's output, one line at a time.

use vstd::prelude::*;
use crate::scan::{cycle_tokens, cycle_count_tokens};
use crate::format::string_views;

verus! {

/// The cycle counts (decimal digits) of one block-loop benchmark.
pub struct AuthLoopResult {
    pub cycle_counts: Vec<String>,
}

/// The benchmark's result if `line` carries its cycle counts: the first
/// line with a match of `(?:([0-9]+), )` ends the benchmark.
pub fn read_line(line: &str) -> (r: Option<AuthLoopResult>)
    ensures
        r is Some <==> cycle_tokens(line@).len() > 0,
        r is Some ==> string_views(r->Some_0.cycle_counts@) == cycle_tokens(line@),
{
    let tokens = cycle_count_tokens(line);
    if tokens.len() > 0 {
        proof {
            assert(string_views(tokens@) =~= cycle_tokens(line@));
        }
        Some(AuthLoopResult { cycle_counts: tokens })
    } else {
        None
    }
}

} // verus!
