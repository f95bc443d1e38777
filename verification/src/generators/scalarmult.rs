//! Test cases for the Curve25519 scalar multiplication.

use vstd::prelude::*;
use crate::curve25519::{clamp_scalar, lemma_clamp_idempotent, x25519_bytes};
use crate::primitives::{random_fill, crypto_scalarmult, spec_crypto_scalarmult};
use crate::utils::{c_variable, u8_to_string, u8_to_string_variable};
use crate::format::{byte_list, string_views};
use crate::benchmark::{harness_source, harness_text, lemma_harness_runs_inputs};
use crate::text::contains_pat;
use crate::reader::ReadResultObj;
use crate::generators::{raw_report, raw_report_text};
use crate::traits::Generator;
use crate::functions_and_testcases::{ScalarmultGenerator, TestcaseEnum};

verus! {

/// One scalar multiplication test case: scalar `n`, point `G`.
#[allow(non_snake_case)]
pub struct ScalarMultTestcase {
    pub n: [u8; 32],
    pub G: [u8; 32],
    pub expected_result: [u8; 32],
    pub result: [u8; 32],
    pub cycle_counts: Vec<String>,
    pub raw_output: Vec<String>,
}

impl Default for ScalarMultTestcase {
    fn default() -> (t: Self)
        ensures
            t.n@ == Seq::new(32, |i: int| 0u8),
            t.G@ == Seq::new(32, |i: int| 0u8),
            t.expected_result@ == Seq::new(32, |i: int| 0u8),
            t.result@ == Seq::new(32, |i: int| 0u8),
            t.cycle_counts@.len() == 0,
            t.raw_output@.len() == 0,
    {
        let t = ScalarMultTestcase {
            n: [0u8; 32],
            G: [0u8; 32],
            expected_result: [0u8; 32],
            result: [0u8; 32],
            cycle_counts: Vec::new(),
            raw_output: Vec::new(),
        };
        assert(t.n@ =~= Seq::new(32, |i: int| 0u8));
        assert(t.G@ =~= Seq::new(32, |i: int| 0u8));
        assert(t.expected_result@ =~= Seq::new(32, |i: int| 0u8));
        assert(t.result@ =~= Seq::new(32, |i: int| 0u8));
        t
    }
}

/// The declarations the scalar multiplication harness starts with.
pub open spec fn scalarmult_variables(n: Seq<u8>, g: Seq<u8>) -> Seq<Seq<char>> {
    seq![c_variable(n, "n_bytes"@), c_variable(g, "g_bytes"@), "unsigned char q[32];"@]
}

/// The harness that runs the board's scalar multiplication on the test case's inputs.
pub open spec fn scalarmult_harness(runs: nat, t: ScalarMultTestcase) -> Seq<char> {
    harness_text(
        runs,
        scalarmult_variables(t.n@, t.G@),
        "crypto_scalarmult_asm(q, n_bytes, g_bytes);"@,
        "printresult(q, 32);"@,
    )
}

/// Clears bits 0, 1, 2 and 255 of a little-endian scalar and sets bit 254.
pub fn clamp(k: &mut [u8; 32])
    ensures
        final(k)@ == clamp_scalar(old(k)@),
{
    k[0] = k[0] & 248;
    k[31] = k[31] & 127;
    k[31] = k[31] | 64;
    proof {
        assert(final(k)@ =~= clamp_scalar(old(k)@));
    }
}

/// The scalar multiplication harness runs the board on the test case's own
/// inputs: it declares `n_bytes` with the scalar and `g_bytes` with the
/// point whose product is the expected result, hands those arrays to
/// `crypto_scalarmult_asm` in that order, reports the cycle counter on its
/// `Cycle counts:` line and prints the product `q`.
pub proof fn lemma_scalarmult_harness_uses_testcase(runs: nat, t: ScalarMultTestcase)
    ensures
        contains_pat(scalarmult_harness(runs, t), c_variable(t.n@, "n_bytes"@)),
        contains_pat(scalarmult_harness(runs, t), c_variable(t.G@, "g_bytes"@)),
        contains_pat(scalarmult_harness(runs, t), "crypto_scalarmult_asm(q, n_bytes, g_bytes);"@),
        contains_pat(
            scalarmult_harness(runs, t),
            "printf(\"Cycle counts:          \");\n        printcounters(counters, 0);"@,
        ),
        contains_pat(scalarmult_harness(runs, t), "printresult(q, 32);"@),
{
    let vs = scalarmult_variables(t.n@, t.G@);
    lemma_harness_runs_inputs(runs, vs, "crypto_scalarmult_asm(q, n_bytes, g_bytes);"@, "printresult(q, 32);"@);
    assert(vs[0] == c_variable(t.n@, "n_bytes"@));
    assert(vs[1] == c_variable(t.G@, "g_bytes"@));
}

impl ScalarMultTestcase {
    /// Whether the board's point equals the expected one.
    pub fn is_correct(&self) -> (r: bool)
        ensures
            r == (self.result@ == self.expected_result@),
    {
        let mut i: usize = 0;
        while i < 32
            invariant
                i <= 32,
                forall|j: int| 0 <= j < i ==> self.result@[j] == self.expected_result@[j],
            decreases 32 - i,
        {
            if self.result[i] != self.expected_result[i] {
                return false;
            }
            i = i + 1;
        }
        assert(self.result@ =~= self.expected_result@);
        true
    }

    /// The expected point as byte literals.
    pub fn get_expected(&self) -> (r: String)
        ensures
            r@ == byte_list(self.expected_result@),
    {
        u8_to_string(&self.expected_result)
    }

    /// Takes over what the board reported.
    pub fn copy_result_variables(&mut self, read_result: ReadResultObj)
        requires
            read_result.result@.len() == 32,
        ensures
            final(self).result@ == read_result.result@,
            final(self).cycle_counts == read_result.cycle_counts,
            final(self).raw_output == read_result.raw_output,
            final(self).n == old(self).n,
            final(self).G == old(self).G,
            final(self).expected_result == old(self).expected_result,
    {
        let ReadResultObj { result, cycle_counts, raw_output } = read_result;
        let mut res = [0u8; 32];
        let mut i: usize = 0;
        while i < 32
            invariant
                i <= 32,
                result@.len() == 32,
                forall|j: int| 0 <= j < i ==> res@[j] == result@[j],
            decreases 32 - i,
        {
            res[i] = result[i];
            i = i + 1;
        }
        assert(res@ =~= result@);
        self.result = res;
        self.cycle_counts = cycle_counts;
        self.raw_output = raw_output;
    }

    /// The raw output lines and the expected result.
    pub fn raw_report(&self) -> (r: String)
        ensures
            r@ == raw_report_text(string_views(self.raw_output@), byte_list(self.expected_result@)),
    {
        let e = self.get_expected();
        raw_report(&self.raw_output, e.as_str())
    }
}

impl ScalarmultGenerator {
    /// The test case for a scalar and a point, both clamped, with the
    /// harness that runs it `runs + 1` times; `None` where libsodium refuses
    /// the multiplication.
    pub fn testcase_from(&self, n_bytes: [u8; 32], g_bytes: [u8; 32], runs: u64) -> (r: Option<
        (ScalarMultTestcase, String),
    >)
        requires
            runs < u64::MAX,
        ensures
            r is Some <==> spec_crypto_scalarmult(clamp_scalar(n_bytes@), clamp_scalar(g_bytes@)) is Some,
            x25519_bytes(clamp_scalar(n_bytes@), clamp_scalar(g_bytes@)) == Seq::new(32, |i: int| 0u8)
                ==> r is None,
            r matches Some((t, src)) ==> {
                &&& t.n@ == clamp_scalar(n_bytes@)
                &&& t.G@ == clamp_scalar(g_bytes@)
                &&& t.expected_result@ == spec_crypto_scalarmult(t.n@, t.G@)->Some_0
                &&& t.expected_result@ == x25519_bytes(t.n@, t.G@)
                &&& t.result@ == Seq::new(32, |i: int| 0u8)
                &&& t.cycle_counts@.len() == 0
                &&& t.raw_output@.len() == 0
                &&& src@ == scalarmult_harness((runs + 1) as nat, t)
                &&& contains_pat(src@, c_variable(clamp_scalar(n_bytes@), "n_bytes"@))
                &&& contains_pat(src@, c_variable(clamp_scalar(g_bytes@), "g_bytes"@))
            },
    {
        let mut n = n_bytes;
        clamp(&mut n);
        let mut g = g_bytes;
        clamp(&mut g);
        let mut variables: Vec<String> = Vec::new();
        variables.push(u8_to_string_variable(&n, "n_bytes"));
        variables.push(u8_to_string_variable(&g, "g_bytes"));
        variables.push(String::from_str("unsigned char q[32];"));
        let source = harness_source(runs, &variables, "crypto_scalarmult_asm(q, n_bytes, g_bytes);", "printresult(q, 32);");
        match crypto_scalarmult(&n, &g) {
            None => None,
            Some(expected_result) => {
                let mut t = ScalarMultTestcase::default();
                t.n = n;
                t.G = g;
                t.expected_result = expected_result;
                proof {
                    assert(string_views(variables@) =~= scalarmult_variables(n@, g@));
                    lemma_scalarmult_harness_uses_testcase((runs + 1) as nat, t);
                }
                Some((t, source))
            },
        }
    }
}

/// What the scalar multiplication generator may return: a test case with
/// its harness, or nothing when libsodium refused the drawn (clamped)
/// scalar and point.
pub open spec fn scalarmult_generated(runs: nat, r: Option<(TestcaseEnum, String)>) -> bool {
    &&& r is None ==> exists|n: Seq<u8>, g: Seq<u8>|
        n.len() == 32 && g.len() == 32 && n == clamp_scalar(n) && g == clamp_scalar(g)
            && (#[trigger] spec_crypto_scalarmult(n, g)) is None
    &&& r matches Some((e, src)) ==> e matches TestcaseEnum::scalarmult(t) && {
        &&& t.n@ == clamp_scalar(t.n@)
        &&& t.G@ == clamp_scalar(t.G@)
        &&& spec_crypto_scalarmult(t.n@, t.G@) is Some
        &&& t.expected_result@ == spec_crypto_scalarmult(t.n@, t.G@)->Some_0
        &&& t.expected_result@ == x25519_bytes(t.n@, t.G@)
        &&& t.result@ == Seq::new(32, |i: int| 0u8)
        &&& t.cycle_counts@.len() == 0
        &&& t.raw_output@.len() == 0
        &&& src@ == scalarmult_harness(runs, t)
    }
}

impl Generator for ScalarmultGenerator {
    fn get_generator_name(&self) -> (r: String)
        ensures
            r@ == "scalarmult"@,
    {
        String::from_str("scalarmult")
    }

    /// Draws a scalar and a point and builds their test case; `None` where
    /// libsodium refuses the multiplication.
    fn generate_testcase(&self, runs: u64) -> (r: Option<(TestcaseEnum, String)>)
        ensures
            scalarmult_generated((runs + 1) as nat, r),
    {
        let mut n_bytes = [0u8; 32];
        random_fill(&mut n_bytes);
        let mut g_bytes = [0u8; 32];
        random_fill(&mut g_bytes);
        match self.testcase_from(n_bytes, g_bytes, runs) {
            None => {
                proof {
                    lemma_clamp_idempotent(n_bytes@);
                    lemma_clamp_idempotent(g_bytes@);
                    let n = clamp_scalar(n_bytes@);
                    let g = clamp_scalar(g_bytes@);
                    assert(n.len() == 32 && g.len() == 32);
                    assert(spec_crypto_scalarmult(n, g) is None);
                }
                None
            },
            Some((t, source)) => {
                proof {
                    lemma_clamp_idempotent(n_bytes@);
                    lemma_clamp_idempotent(g_bytes@);
                }
                Some((TestcaseEnum::scalarmult(t), source))
            },
        }
    }

    fn get_timeout(&self) -> (r: u64)
        ensures
            r == 210,
    {
        210
    }

    fn get_outputlen(&self) -> (r: usize)
        ensures
            r == 32,
    {
        32
    }
}

} // verus!
