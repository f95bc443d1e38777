//! Test cases for crypto_onetimeauth (Poly1305).

use vstd::prelude::*;
use crate::primitives::{random_fill, onetimeauth_gen_key, onetimeauth_authenticate, spec_onetimeauth};
use crate::utils::{c_variable, u8_to_string_variable};
use crate::format::{hex_debug_list, hex_debug_string, string_views};
use crate::benchmark::{harness_source, harness_text, lemma_harness_runs_inputs};
use crate::text::contains_pat;
use crate::reader::ReadResultObj;
use crate::generators::{raw_report, raw_report_text};
use crate::traits::Generator;
use crate::functions_and_testcases::TestcaseEnum;

verus! {

/// The message length of every Poly1305 test case.
pub const MESSAGELEN: usize = 132;

/// One Poly1305 test case.
pub struct TestcasePoly1305 {
    pub message: [u8; MESSAGELEN],
    pub key: [u8; 32],
    pub expected_result: [u8; 16],
    pub result: [u8; 16],
    pub cycle_counts: Vec<String>,
    pub raw_output: Vec<String>,
}

impl Default for TestcasePoly1305 {
    fn default() -> (t: Self)
        ensures
            t.message@ == Seq::new(MESSAGELEN as nat, |i: int| 0u8),
            t.key@ == Seq::new(32, |i: int| 0u8),
            t.expected_result@ == Seq::new(16, |i: int| 0u8),
            t.result@ == Seq::new(16, |i: int| 0u8),
            t.cycle_counts@.len() == 0,
            t.raw_output@.len() == 0,
    {
        let t = TestcasePoly1305 {
            message: [0u8; MESSAGELEN],
            key: [0u8; 32],
            expected_result: [0u8; 16],
            result: [0u8; 16],
            cycle_counts: Vec::new(),
            raw_output: Vec::new(),
        };
        assert(t.message@ =~= Seq::new(MESSAGELEN as nat, |i: int| 0u8));
        assert(t.key@ =~= Seq::new(32, |i: int| 0u8));
        assert(t.expected_result@ =~= Seq::new(16, |i: int| 0u8));
        assert(t.result@ =~= Seq::new(16, |i: int| 0u8));
        t
    }
}

/// The declarations the Poly1305 harness starts with.
pub open spec fn poly1305_variables(m: Seq<u8>, k: Seq<u8>) -> Seq<Seq<char>> {
    seq!["unsigned char a[16];"@, c_variable(m, "c"@), c_variable(k, "rs"@)]
}

/// The harness that runs crypto_onetimeauth on the test case's inputs.
pub open spec fn poly1305_harness(runs: nat, t: TestcasePoly1305) -> Seq<char> {
    harness_text(
        runs,
        poly1305_variables(t.message@, t.key@),
        "crypto_onetimeauth(a,c,132,rs);"@,
        "printresult(a, 16);"@,
    )
}

/// The Poly1305 harness authenticates the test case's own data: it
/// declares `c` with the message and `rs` with the key the expected tag was
/// computed from, calls `crypto_onetimeauth` on them into `a`, reports the
/// cycle counter on its `Cycle counts:` line and prints the tag `a`.
pub proof fn lemma_poly1305_harness_uses_testcase(runs: nat, t: TestcasePoly1305)
    ensures
        contains_pat(poly1305_harness(runs, t), c_variable(t.message@, "c"@)),
        contains_pat(poly1305_harness(runs, t), c_variable(t.key@, "rs"@)),
        contains_pat(poly1305_harness(runs, t), "unsigned char a[16];"@),
        contains_pat(poly1305_harness(runs, t), "crypto_onetimeauth(a,c,132,rs);"@),
        contains_pat(
            poly1305_harness(runs, t),
            "printf(\"Cycle counts:          \");\n        printcounters(counters, 0);"@,
        ),
        contains_pat(poly1305_harness(runs, t), "printresult(a, 16);"@),
{
    let vs = poly1305_variables(t.message@, t.key@);
    lemma_harness_runs_inputs(runs, vs, "crypto_onetimeauth(a,c,132,rs);"@, "printresult(a, 16);"@);
    assert(vs[0] == "unsigned char a[16];"@);
    assert(vs[1] == c_variable(t.message@, "c"@));
    assert(vs[2] == c_variable(t.key@, "rs"@));
}

impl TestcasePoly1305 {
    /// Whether the board's tag equals the expected one.
    pub fn is_correct(&self) -> (r: bool)
        ensures
            r == (self.result@ == self.expected_result@),
    {
        let mut i: usize = 0;
        while i < 16
            invariant
                i <= 16,
                forall|j: int| 0 <= j < i ==> self.result@[j] == self.expected_result@[j],
            decreases 16 - i,
        {
            if self.result[i] != self.expected_result[i] {
                return false;
            }
            i = i + 1;
        }
        assert(self.result@ =~= self.expected_result@);
        true
    }

    /// The expected tag as a bracketed list of hex bytes.
    pub fn get_expected(&self) -> (r: String)
        ensures
            r@ == hex_debug_list(self.expected_result@),
    {
        hex_debug_string(&self.expected_result)
    }

    /// Takes over what the board reported.
    pub fn copy_result_variables(&mut self, read_result: ReadResultObj)
        requires
            read_result.result@.len() == 16,
        ensures
            final(self).result@ == read_result.result@,
            final(self).cycle_counts == read_result.cycle_counts,
            final(self).raw_output == read_result.raw_output,
            final(self).message == old(self).message,
            final(self).key == old(self).key,
            final(self).expected_result == old(self).expected_result,
    {
        let ReadResultObj { result, cycle_counts, raw_output } = read_result;
        let mut res = [0u8; 16];
        let mut i: usize = 0;
        while i < 16
            invariant
                i <= 16,
                result@.len() == 16,
                forall|j: int| 0 <= j < i ==> res@[j] == result@[j],
            decreases 16 - i,
        {
            res[i] = result[i];
            i = i + 1;
        }
        assert(res@ =~= result@);
        self.result = res;
        self.cycle_counts = cycle_counts;
        self.raw_output = raw_output;
    }

    /// The raw output lines and the expected result.
    pub fn raw_report(&self) -> (r: String)
        ensures
            r@ == raw_report_text(string_views(self.raw_output@), hex_debug_list(self.expected_result@)),
    {
        let e = self.get_expected();
        raw_report(&self.raw_output, e.as_str())
    }
}

/// Generates Poly1305 test cases.
pub struct Poly1305Generator {}

impl Poly1305Generator {
    /// The test case for a message and a key, with the harness that runs it
    /// `runs + 1` times.
    pub fn testcase_from(&self, message: [u8; MESSAGELEN], key: [u8; 32], runs: u64) -> (r: (TestcasePoly1305, String))
        requires
            runs < u64::MAX,
        ensures
            r.0.message == message,
            r.0.key == key,
            r.0.expected_result@ == spec_onetimeauth(message@, key@),
            r.0.result@ == Seq::new(16, |i: int| 0u8),
            r.0.cycle_counts@.len() == 0,
            r.0.raw_output@.len() == 0,
            r.1@ == poly1305_harness((runs + 1) as nat, r.0),
            contains_pat(r.1@, c_variable(message@, "c"@)),
            contains_pat(r.1@, c_variable(key@, "rs"@)),
    {
        let mut variables: Vec<String> = Vec::new();
        variables.push(String::from_str("unsigned char a[16];"));
        variables.push(u8_to_string_variable(&message, "c"));
        variables.push(u8_to_string_variable(&key, "rs"));
        let expected_result = onetimeauth_authenticate(&message, &key);
        let source = harness_source(runs, &variables, "crypto_onetimeauth(a,c,132,rs);", "printresult(a, 16);");
        let mut t = TestcasePoly1305::default();
        t.message = message;
        t.key = key;
        t.expected_result = expected_result;
        proof {
            assert(string_views(variables@) =~= poly1305_variables(message@, key@));
            lemma_poly1305_harness_uses_testcase((runs + 1) as nat, t);
        }
        (t, source)
    }
}

/// A Poly1305 test case as the generator draws it, with its harness.
pub open spec fn poly1305_generated(runs: nat, r: Option<(TestcaseEnum, String)>) -> bool {
    r matches Some((TestcaseEnum::poly130(t), src)) && {
        &&& t.expected_result@ == spec_onetimeauth(t.message@, t.key@)
        &&& t.result@ == Seq::new(16, |i: int| 0u8)
        &&& t.cycle_counts@.len() == 0
        &&& t.raw_output@.len() == 0
        &&& src@ == poly1305_harness(runs, t)
    }
}

impl Generator for Poly1305Generator {
    fn get_generator_name(&self) -> (r: String)
        ensures
            r@ == "poly1305"@,
    {
        String::from_str("poly1305")
    }

    /// Draws a message and a key and builds their test case.
    fn generate_testcase(&self, runs: u64) -> (r: Option<(TestcaseEnum, String)>)
        ensures
            poly1305_generated((runs + 1) as nat, r),
    {
        let mut message = [0u8; MESSAGELEN];
        random_fill(&mut message);
        let key = onetimeauth_gen_key();
        let (t, source) = self.testcase_from(message, key, runs);
        Some((TestcaseEnum::poly130(t), source))
    }

    fn get_timeout(&self) -> (r: u64)
        ensures
            r == 15,
    {
        15
    }

    fn get_outputlen(&self) -> (r: usize)
        ensures
            r == 16,
    {
        16
    }
}

} // verus!
