//! Inputs for timing the board's `mulmod226asm`.

use vstd::prelude::*;
use vstd::slice::{slice_subrange, slice_to_vec};
use crate::primitives::random_fill;
use crate::utils::{short_initializer, short_initializer_text};
use crate::format::string_views;
use crate::benchmark::{mulmod_harness_source, mulmod_harness_text, lemma_mulmod_harness_multiplies};
use crate::text::contains_pat;

verus! {

/// The declarations of one modular multiplication benchmark.
#[derive(Debug)]
pub struct MulModTestcase {
    pub variables: Vec<String>,
}

/// The name under which results are filed.
pub fn generator_name() -> (r: String)
    ensures
        r@ == "mulmod"@,
{
    String::from_str("mulmod")
}

/// The two operand declarations for 32 random bytes: `a_bytes` holds the
/// first sixteen, and `b_bytes` the last sixteen followed by the last byte
/// once more.
pub open spec fn mulmod_variables(m: Seq<u8>) -> Seq<Seq<char>> {
    seq![
        short_initializer_text("        static unsigned char a_bytes[16] = {"@, m.subrange(0, 16)),
        short_initializer_text("        static unsigned char b_bytes[16] = {"@, m.subrange(16, 32).push(m[31])),
    ]
}

/// The modular multiplication benchmark multiplies the bytes it was built
/// from: its harness declares `a_bytes` with the first sixteen bytes and
/// `b_bytes` with the last sixteen followed by the last byte once more,
/// loads `a` from `a_bytes` and `b` from `b_bytes`, and times
/// `mulmod226asm(a,b)`.
pub proof fn lemma_mulmod_benchmark_multiplies(m: Seq<u8>)
    requires
        m.len() == 32,
    ensures
        contains_pat(
            mulmod_harness_text(mulmod_variables(m)),
            short_initializer_text("        static unsigned char a_bytes[16] = {"@, m.subrange(0, 16)),
        ),
        contains_pat(
            mulmod_harness_text(mulmod_variables(m)),
            short_initializer_text("        static unsigned char b_bytes[16] = {"@, m.subrange(16, 32).push(m[31])),
        ),
        contains_pat(
            mulmod_harness_text(mulmod_variables(m)),
            "convert_to_radix226(a, a_bytes);\n        convert_to_radix226(b,b_bytes);"@,
        ),
        contains_pat(mulmod_harness_text(mulmod_variables(m)), "timings[i]=getcycles();\n            mulmod226asm(a,b);"@),
{
    let vs = mulmod_variables(m);
    lemma_mulmod_harness_multiplies(vs);
    assert(vs[0] == short_initializer_text("        static unsigned char a_bytes[16] = {"@, m.subrange(0, 16)));
    assert(vs[1] == short_initializer_text("        static unsigned char b_bytes[16] = {"@, m.subrange(16, 32).push(m[31])));
}

/// The benchmark for the given 32 bytes and its harness.
pub fn testcase_from(message: [u8; 32]) -> (r: (MulModTestcase, String))
    ensures
        string_views(r.0.variables@) == mulmod_variables(message@),
        r.1@ == mulmod_harness_text(mulmod_variables(message@)),
{
    let mut variables: Vec<String> = Vec::new();
    let a = slice_subrange(&message, 0, 16);
    variables.push(short_initializer("        static unsigned char a_bytes[16] = {", a));
    let mut b = slice_to_vec(slice_subrange(&message, 16, 32));
    b.push(message[31]);
    variables.push(short_initializer("        static unsigned char b_bytes[16] = {", b.as_slice()));
    proof {
        assert(b@ =~= message@.subrange(16, 32).push(message@[31]));
        assert(string_views(variables@) =~= mulmod_variables(message@));
    }
    let source = mulmod_harness_source(&variables);
    (MulModTestcase { variables }, source)
}

/// Draws 32 random bytes and builds their benchmark.
pub fn generate_testcase() -> (r: (MulModTestcase, String))
    ensures
        exists|m: Seq<u8>|
            m.len() == 32 && string_views(r.0.variables@) == #[trigger] mulmod_variables(m) && r.1@
                == mulmod_harness_text(mulmod_variables(m)),
{
    let mut message = [0u8; 32];
    random_fill(&mut message);
    testcase_from(message)
}

} // verus!
