//! Inputs for timing `karatsuba226asm` followed by `squeeze226asm`.

use vstd::prelude::*;
use crate::limbs::le_value;
use crate::primitives::{random_fill, minimal_le};
use crate::format::string_views;
use crate::benchmark::{
    karatsuba_squeeze_harness_source, karatsuba_squeeze_harness_text, lemma_karatsuba_squeeze_harness_multiplies,
};
use crate::text::contains_pat;
use crate::utils::short_initializer_text;
use crate::karatsuba::generator::{
    operand, operand_variables, operand_declarations, clamp_operand, product_mod_p1305, p1305,
};

verus! {

/// The declarations of one benchmark, the operands (17 little-endian bytes
/// each) and their product modulo 2^130 - 5 (minimal little-endian bytes).
#[derive(Debug)]
#[allow(non_snake_case)]
pub struct KaratsubaTestcase {
    pub variables: Vec<String>,
    pub expected_result: Vec<u8>,
    pub A: Vec<u8>,
    pub B: Vec<u8>,
}

/// The Karatsuba-and-squeeze benchmark multiplies the operands it was
/// built from: its harness declares `a_bytes` with `a` and `b_bytes` with
/// `b`, loads `a` from `a_bytes` and `b` from `b_bytes`, times
/// `karatsuba226asm(out, a,b)` and prints the squeezed product.
pub proof fn lemma_squeeze_benchmark_multiplies(a: Seq<u8>, b: Seq<u8>)
    ensures
        contains_pat(
            karatsuba_squeeze_harness_text(operand_variables("18"@, a, b)),
            short_initializer_text("        static unsigned char a_bytes["@ + "18"@ + "] = {"@, a),
        ),
        contains_pat(
            karatsuba_squeeze_harness_text(operand_variables("18"@, a, b)),
            short_initializer_text("        static unsigned char b_bytes["@ + "18"@ + "] = {"@, b),
        ),
        contains_pat(
            karatsuba_squeeze_harness_text(operand_variables("18"@, a, b)),
            "convert_to_radix226(a, a_bytes);\n        convert_to_radix226(b,b_bytes);"@,
        ),
        contains_pat(
            karatsuba_squeeze_harness_text(operand_variables("18"@, a, b)),
            "timings[i]=getcycles();\n            karatsuba226asm(out, a,b);"@,
        ),
        contains_pat(
            karatsuba_squeeze_harness_text(operand_variables("18"@, a, b)),
            "squeeze226asm(out);\n        toradix28(out);\n        printarrayinv(out,17);"@,
        ),
{
    let vs = operand_variables("18"@, a, b);
    lemma_karatsuba_squeeze_harness_multiplies(vs);
    assert(vs[0] == short_initializer_text("        static unsigned char a_bytes["@ + "18"@ + "] = {"@, a));
    assert(vs[1] == short_initializer_text("        static unsigned char b_bytes["@ + "18"@ + "] = {"@, b));
}

/// The name under which results are filed.
pub fn generator_name() -> (r: String)
    ensures
        r@ == "karatsuba"@,
{
    String::from_str("karatsuba")
}

/// The benchmark for two 17-byte operands, after clamping their top bytes.
pub fn testcase_from(a: [u8; 17], b: [u8; 17]) -> (r: (KaratsubaTestcase, String))
    ensures
        r.0.A@ == operand(a@),
        r.0.B@ == operand(b@),
        string_views(r.0.variables@) == operand_variables("18"@, operand(a@), operand(b@)),
        le_value(r.0.expected_result@) == (le_value(operand(a@)) * le_value(operand(b@))) % p1305(),
        minimal_le(r.0.expected_result@),
        r.1@ == karatsuba_squeeze_harness_text(operand_variables("18"@, operand(a@), operand(b@))),
        contains_pat(r.1@, short_initializer_text("        static unsigned char a_bytes["@ + "18"@ + "] = {"@, r.0.A@)),
        contains_pat(r.1@, short_initializer_text("        static unsigned char b_bytes["@ + "18"@ + "] = {"@, r.0.B@)),
{
    let mut a = a;
    let mut b = b;
    clamp_operand(&mut a);
    clamp_operand(&mut b);
    let variables = operand_declarations("18", &a, &b);
    let source = karatsuba_squeeze_harness_source(&variables);
    let expected_result = product_mod_p1305(&a, &b);
    let t = KaratsubaTestcase {
        variables,
        expected_result,
        A: vstd::slice::slice_to_vec(&a),
        B: vstd::slice::slice_to_vec(&b),
    };
    proof {
        lemma_squeeze_benchmark_multiplies(a@, b@);
    }
    (t, source)
}

/// Draws two operands and builds their benchmark.
pub fn generate_testcase() -> (r: (KaratsubaTestcase, String))
    ensures
        r.0.A@.len() == 17 && r.0.B@.len() == 17,
        r.0.A@[16] < 4 && r.0.B@[16] < 4,
        string_views(r.0.variables@) == operand_variables("18"@, r.0.A@, r.0.B@),
        le_value(r.0.expected_result@) == (le_value(r.0.A@) * le_value(r.0.B@)) % p1305(),
        r.1@ == karatsuba_squeeze_harness_text(operand_variables("18"@, r.0.A@, r.0.B@)),
{
    let mut a = [0u8; 17];
    random_fill(&mut a);
    let mut b = [0u8; 17];
    random_fill(&mut b);
    let r = testcase_from(a, b);
    proof {
        let x = a@[16];
        let y = b@[16];
        assert(x & 3u8 < 4) by (bit_vector);
        assert(y & 3u8 < 4) by (bit_vector);
    }
    r
}

} // verus!
