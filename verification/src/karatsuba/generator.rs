//! Inputs for timing the board's `karatsuba226asm`, and the product modulo
//! 2^130 - 5 that it should print.

use vstd::prelude::*;
use crate::limbs::{le_value, byte_pow};
use crate::primitives::{random_fill, biguint_mul_le, biguint_rem_le, minimal_le};
use crate::utils::{short_initializer, short_initializer_text};
use crate::format::string_views;
use crate::benchmark::{karatsuba_harness_source, karatsuba_harness_text, lemma_karatsuba_harness_multiplies};
use crate::text::contains_pat;

verus! {

/// The declarations of one Karatsuba benchmark, the operands (17
/// little-endian bytes each) and their product modulo 2^130 - 5 (minimal
/// little-endian bytes).
#[allow(non_snake_case)]
pub struct KaratsubaTestcase {
    pub variables: Vec<String>,
    pub expected_result: Vec<u8>,
    pub A: Vec<u8>,
    pub B: Vec<u8>,
}

/// The name under which results are filed.
pub fn generator_name() -> (r: String)
    ensures
        r@ == "karatsuba"@,
{
    String::from_str("karatsuba")
}

/// 2^130 - 5, the Poly1305 prime.
pub open spec fn p1305() -> int {
    1361129467683753853853498429727072845819int
}

/// 2^130 - 5 in little-endian bytes.
pub const P1305_LE: [u8; 17] = [
    0xfb, 0xff, 0xff, 0xff, 0xff, 0xff, 0xff, 0xff, 0xff, 0xff, 0xff, 0xff, 0xff, 0xff, 0xff, 0xff, 0x03,
];

/// The bytes of `P1305_LE`.
spec fn p1305_seq() -> Seq<u8> {
    Seq::new(17, |i: int| if i == 0 { 0xfbu8 } else if i == 16 { 0x03u8 } else { 0xffu8 })
}

proof fn lemma_p1305_prefix(k: nat)
    requires
        1 <= k <= 16,
    ensures
        le_value(p1305_seq().take(k as int)) == byte_pow(k) - 5,
    decreases k,
{
    let s = p1305_seq();
    let t = s.take(k as int);
    assert(t.drop_last() =~= s.take(k - 1));
    assert(le_value(t) == le_value(t.drop_last()) + t.last() * byte_pow((k - 1) as nat));
    assert(byte_pow(k) == 256 * byte_pow((k - 1) as nat));
    if k > 1 {
        lemma_p1305_prefix((k - 1) as nat);
        assert(t.last() == 0xffu8);
    } else {
        assert(s.take(0) =~= Seq::<u8>::empty());
        assert(t.last() == 0xfbu8);
        assert(byte_pow(0) == 1);
    }
}

proof fn lemma_p1305_bytes()
    ensures
        le_value(P1305_LE@) == p1305(),
{
    let s = p1305_seq();
    assert(P1305_LE@ =~= s);
    lemma_p1305_prefix(16);
    assert(s.drop_last() =~= s.take(16));
    assert(le_value(s) == le_value(s.take(16)) + 3 * byte_pow(16));
    reveal_with_fuel(byte_pow, 17);
    assert(byte_pow(16) == 340282366920938463463374607431768211456int);
}

/// A 17-byte operand with all but the two low bits of its top byte cleared,
/// so that it stays below 2^130.
pub open spec fn operand(a: Seq<u8>) -> Seq<u8> {
    a.update(16, a[16] & 3u8)
}

/// The product of two operands modulo 2^130 - 5, in minimal little-endian
/// bytes, computed with num-bigint.
pub fn product_mod_p1305(a: &[u8], b: &[u8]) -> (r: Vec<u8>)
    ensures
        le_value(r@) == (le_value(a@) * le_value(b@)) % p1305(),
        minimal_le(r@),
{
    proof {
        lemma_p1305_bytes();
    }
    let res = biguint_mul_le(a, b);
    biguint_rem_le(res.as_slice(), &P1305_LE)
}

/// The declarations of the operands, `a_bytes[<size>]` and `b_bytes[<size>]`.
pub open spec fn operand_variables(size: Seq<char>, a: Seq<u8>, b: Seq<u8>) -> Seq<Seq<char>> {
    seq![
        short_initializer_text("        static unsigned char a_bytes["@ + size + "] = {"@, a),
        short_initializer_text("        static unsigned char b_bytes["@ + size + "] = {"@, b),
    ]
}

/// Declares the operands as `a_bytes[<size>]` and `b_bytes[<size>]`.
pub fn operand_declarations(size: &str, a: &[u8], b: &[u8]) -> (r: Vec<String>)
    ensures
        string_views(r@) == operand_variables(size@, a@, b@),
{
    let mut variables: Vec<String> = Vec::new();
    let mut opening = String::from_str("        static unsigned char a_bytes[");
    opening.append(size);
    opening.append("] = {");
    variables.push(short_initializer(opening.as_str(), a));
    let mut opening = String::from_str("        static unsigned char b_bytes[");
    opening.append(size);
    opening.append("] = {");
    variables.push(short_initializer(opening.as_str(), b));
    proof {
        assert(string_views(variables@) =~= operand_variables(size@, a@, b@));
    }
    variables
}

/// The Karatsuba benchmark multiplies the operands it was built from: its
/// harness declares `a_bytes` with `a` and `b_bytes` with `b`, loads the
/// operand `a` from `a_bytes` and `b` from `b_bytes`, times
/// `karatsuba226asm(out, a,b)` with the cycle counter in slot 0 of each
/// triple, and prints the product `out`.
pub proof fn lemma_karatsuba_benchmark_multiplies(a: Seq<u8>, b: Seq<u8>)
    ensures
        contains_pat(
            karatsuba_harness_text(operand_variables("32"@, a, b)),
            short_initializer_text("        static unsigned char a_bytes["@ + "32"@ + "] = {"@, a),
        ),
        contains_pat(
            karatsuba_harness_text(operand_variables("32"@, a, b)),
            short_initializer_text("        static unsigned char b_bytes["@ + "32"@ + "] = {"@, b),
        ),
        contains_pat(
            karatsuba_harness_text(operand_variables("32"@, a, b)),
            "convert_to_radix226_kara(a, a_bytes);\n        convert_to_radix226_kara(b,b_bytes);"@,
        ),
        contains_pat(
            karatsuba_harness_text(operand_variables("32"@, a, b)),
            "for(int i =0;i<21;i++){\n            getcycles(&counters[i*3]);\n            karatsuba226asm(out, a,b);"@,
        ),
        contains_pat(
            karatsuba_harness_text(operand_variables("32"@, a, b)),
            "printf(\"Cycle counts:          \");\n        printcounters(counters, 0);"@,
        ),
        contains_pat(
            karatsuba_harness_text(operand_variables("32"@, a, b)),
            "toradix28(out);\n        printf(\"Result: \");\n        printarrayinv(out,17);"@,
        ),
{
    let vs = operand_variables("32"@, a, b);
    lemma_karatsuba_harness_multiplies(vs);
    assert(vs[0] == short_initializer_text("        static unsigned char a_bytes["@ + "32"@ + "] = {"@, a));
    assert(vs[1] == short_initializer_text("        static unsigned char b_bytes["@ + "32"@ + "] = {"@, b));
}

/// Clears all but the two low bits of byte 16.
pub fn clamp_operand(a: &mut [u8; 17])
    ensures
        final(a)@ == operand(old(a)@),
{
    a[16] = a[16] & 3;
    proof {
        assert(final(a)@ =~= operand(old(a)@));
    }
}

/// The benchmark for two 17-byte operands, after clamping their top bytes.
pub fn testcase_from(a: [u8; 17], b: [u8; 17]) -> (r: (KaratsubaTestcase, String))
    ensures
        r.0.A@ == operand(a@),
        r.0.B@ == operand(b@),
        string_views(r.0.variables@) == operand_variables("32"@, operand(a@), operand(b@)),
        le_value(r.0.expected_result@) == (le_value(operand(a@)) * le_value(operand(b@))) % p1305(),
        minimal_le(r.0.expected_result@),
        r.1@ == karatsuba_harness_text(operand_variables("32"@, operand(a@), operand(b@))),
        contains_pat(r.1@, short_initializer_text("        static unsigned char a_bytes["@ + "32"@ + "] = {"@, r.0.A@)),
        contains_pat(r.1@, short_initializer_text("        static unsigned char b_bytes["@ + "32"@ + "] = {"@, r.0.B@)),
{
    let mut a = a;
    let mut b = b;
    clamp_operand(&mut a);
    clamp_operand(&mut b);
    let variables = operand_declarations("32", &a, &b);
    let source = karatsuba_harness_source(&variables);
    let expected_result = product_mod_p1305(&a, &b);
    let t = KaratsubaTestcase {
        variables,
        expected_result,
        A: vstd::slice::slice_to_vec(&a),
        B: vstd::slice::slice_to_vec(&b),
    };
    proof {
        lemma_karatsuba_benchmark_multiplies(a@, b@);
    }
    (t, source)
}

/// Draws two operands and builds their benchmark.
pub fn generate_testcase() -> (r: (KaratsubaTestcase, String))
    ensures
        r.0.A@.len() == 17 && r.0.B@.len() == 17,
        r.0.A@[16] < 4 && r.0.B@[16] < 4,
        string_views(r.0.variables@) == operand_variables("32"@, r.0.A@, r.0.B@),
        le_value(r.0.expected_result@) == (le_value(r.0.A@) * le_value(r.0.B@)) % p1305(),
        r.1@ == karatsuba_harness_text(operand_variables("32"@, r.0.A@, r.0.B@)),
{
    let mut a = [0u8; 17];
    random_fill(&mut a);
    let mut b = [0u8; 17];
    random_fill(&mut b);
    let r = testcase_from(a, b);
    proof {
        let x = a@[16];
        let y = b@[16];
        assert(x & 3u8 < 4) by (bit_vector);
        assert(y & 3u8 < 4) by (bit_vector);
    }
    r
}

} // verus!
