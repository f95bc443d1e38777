//! Test cases for crypto_stream_salsa20.

use vstd::prelude::*;
use crate::primitives::{salsa20_gen_key, salsa20_gen_nonce, salsa20_stream, spec_salsa20_stream};
use crate::utils::{c_variable, u8_to_string, u8_to_string_variable};
use crate::format::{byte_list, string_views};
use crate::benchmark::{harness_source, harness_text, lemma_harness_runs_inputs};
use crate::text::contains_pat;
use crate::reader::ReadResultObj;
use crate::generators::{raw_report, raw_report_text};
use crate::traits::Generator;
use crate::functions_and_testcases::{StreamGenerator, TestcaseEnum};

verus! {

/// The number of key stream bytes each test case asks for.
pub const CLEN: usize = 1024;

/// One crypto_stream test case.
pub struct TestcaseStream {
    pub key: [u8; 32],
    pub nonce: [u8; 8],
    pub expected_result: Vec<u8>,
    pub result: Vec<u8>,
    pub cycle_counts: Vec<String>,
    pub raw_output: Vec<String>,
}

impl Default for TestcaseStream {
    fn default() -> (t: Self)
        ensures
            t.key@ == Seq::new(32, |i: int| 0u8),
            t.nonce@ == Seq::new(8, |i: int| 0u8),
            t.expected_result@.len() == 0,
            t.result@.len() == 0,
            t.cycle_counts@.len() == 0,
            t.raw_output@.len() == 0,
    {
        let t = TestcaseStream {
            key: [0u8; 32],
            nonce: [0u8; 8],
            expected_result: Vec::new(),
            result: Vec::new(),
            cycle_counts: Vec::new(),
            raw_output: Vec::new(),
        };
        assert(t.key@ =~= Seq::new(32, |i: int| 0u8));
        assert(t.nonce@ =~= Seq::new(8, |i: int| 0u8));
        t
    }
}

/// The declarations the crypto_stream harness starts with.
pub open spec fn stream_variables(n: Seq<u8>, k: Seq<u8>) -> Seq<Seq<char>> {
    seq!["unsigned char c[1024];"@, c_variable(n, "n"@), c_variable(k, "k"@)]
}

/// The harness that runs crypto_stream_salsa20 on the test case's inputs.
pub open spec fn stream_harness(runs: nat, t: TestcaseStream) -> Seq<char> {
    harness_text(
        runs,
        stream_variables(t.nonce@, t.key@),
        "crypto_stream_salsa20(c,1024, n, k);"@,
        "printresult(c, 1024);"@,
    )
}

/// The stream harness runs the board on the test case's own inputs: it
/// declares `n` with the nonce and `k` with the key the expected key stream
/// was computed from, calls `crypto_stream_salsa20` on them into `c`,
/// reports the cycle counter on its `Cycle counts:` line and prints `c`.
pub proof fn lemma_stream_harness_uses_testcase(runs: nat, t: TestcaseStream)
    ensures
        contains_pat(stream_harness(runs, t), c_variable(t.nonce@, "n"@)),
        contains_pat(stream_harness(runs, t), c_variable(t.key@, "k"@)),
        contains_pat(stream_harness(runs, t), "unsigned char c[1024];"@),
        contains_pat(stream_harness(runs, t), "crypto_stream_salsa20(c,1024, n, k);"@),
        contains_pat(
            stream_harness(runs, t),
            "printf(\"Cycle counts:          \");\n        printcounters(counters, 0);"@,
        ),
        contains_pat(stream_harness(runs, t), "printresult(c, 1024);"@),
{
    let vs = stream_variables(t.nonce@, t.key@);
    lemma_harness_runs_inputs(runs, vs, "crypto_stream_salsa20(c,1024, n, k);"@, "printresult(c, 1024);"@);
    assert(vs[0] == "unsigned char c[1024];"@);
    assert(vs[1] == c_variable(t.nonce@, "n"@));
    assert(vs[2] == c_variable(t.key@, "k"@));
}

impl TestcaseStream {
    /// Whether the first `CLEN` bytes the board returned equal the expected ones.
    pub fn is_correct(&self) -> (r: bool)
        requires
            self.result@.len() >= CLEN,
            self.expected_result@.len() >= CLEN,
        ensures
            r == (self.result@.take(CLEN as int) == self.expected_result@.take(CLEN as int)),
    {
        let mut i: usize = 0;
        while i < CLEN
            invariant
                i <= CLEN,
                self.result@.len() >= CLEN,
                self.expected_result@.len() >= CLEN,
                forall|j: int| 0 <= j < i ==> self.result@[j] == self.expected_result@[j],
            decreases CLEN - i,
        {
            if self.result[i] != self.expected_result[i] {
                assert(self.result@.take(CLEN as int)[i as int] != self.expected_result@.take(CLEN as int)[i as int]);
                return false;
            }
            i = i + 1;
        }
        assert(self.result@.take(CLEN as int) =~= self.expected_result@.take(CLEN as int));
        true
    }

    /// The expected key stream as byte literals.
    pub fn get_expected(&self) -> (r: String)
        requires
            self.expected_result@.len() > 0,
        ensures
            r@ == byte_list(self.expected_result@),
    {
        u8_to_string(self.expected_result.as_slice())
    }

    /// Takes over what the board reported.
    pub fn copy_result_variables(&mut self, read_result: ReadResultObj)
        ensures
            final(self).result == read_result.result,
            final(self).cycle_counts == read_result.cycle_counts,
            final(self).raw_output == read_result.raw_output,
            final(self).key == old(self).key,
            final(self).nonce == old(self).nonce,
            final(self).expected_result == old(self).expected_result,
    {
        let ReadResultObj { result, cycle_counts, raw_output } = read_result;
        self.cycle_counts = cycle_counts;
        self.result = result;
        self.raw_output = raw_output;
    }

    /// The raw output lines and the expected result.
    pub fn raw_report(&self) -> (r: String)
        requires
            self.expected_result@.len() > 0,
        ensures
            r@ == raw_report_text(string_views(self.raw_output@), byte_list(self.expected_result@)),
    {
        let e = self.get_expected();
        raw_report(&self.raw_output, e.as_str())
    }
}

impl StreamGenerator {
    /// The test case for a key and a nonce, with the harness that runs it
    /// `runs + 1` times.
    pub fn testcase_from(&self, key: [u8; 32], nonce: [u8; 8], runs: u64) -> (r: (TestcaseStream, String))
        requires
            runs < u64::MAX,
        ensures
            r.0.key == key,
            r.0.nonce == nonce,
            r.0.expected_result@ == spec_salsa20_stream(CLEN as nat, nonce@, key@),
            r.0.expected_result@.len() == CLEN,
            r.0.result@.len() == 0,
            r.0.cycle_counts@.len() == 0,
            r.0.raw_output@.len() == 0,
            r.1@ == stream_harness((runs + 1) as nat, r.0),
            contains_pat(r.1@, c_variable(nonce@, "n"@)),
            contains_pat(r.1@, c_variable(key@, "k"@)),
    {
        let mut variables: Vec<String> = Vec::new();
        variables.push(String::from_str("unsigned char c[1024];"));
        variables.push(u8_to_string_variable(&nonce, "n"));
        variables.push(u8_to_string_variable(&key, "k"));
        let expected_result = salsa20_stream(CLEN, &nonce, &key);
        let source = harness_source(runs, &variables, "crypto_stream_salsa20(c,1024, n, k);", "printresult(c, 1024);");
        let mut t = TestcaseStream::default();
        t.nonce = nonce;
        t.key = key;
        t.expected_result = expected_result;
        proof {
            assert(string_views(variables@) =~= stream_variables(nonce@, key@));
            lemma_stream_harness_uses_testcase((runs + 1) as nat, t);
        }
        (t, source)
    }
}

/// A crypto_stream test case as the generator draws it, with its harness.
pub open spec fn stream_generated(runs: nat, r: Option<(TestcaseEnum, String)>) -> bool {
    r matches Some((TestcaseEnum::salsa20(t), src)) && {
        &&& t.expected_result@ == spec_salsa20_stream(CLEN as nat, t.nonce@, t.key@)
        &&& t.expected_result@.len() == CLEN
        &&& t.result@.len() == 0
        &&& t.cycle_counts@.len() == 0
        &&& t.raw_output@.len() == 0
        &&& src@ == stream_harness(runs, t)
    }
}

impl Generator for StreamGenerator {
    fn get_generator_name(&self) -> (r: String)
        ensures
            r@ == "stream_xsalsa20"@,
    {
        String::from_str("stream_xsalsa20")
    }

    /// Draws a key and a nonce and builds their test case.
    fn generate_testcase(&self, runs: u64) -> (r: Option<(TestcaseEnum, String)>)
        ensures
            stream_generated((runs + 1) as nat, r),
    {
        let key = salsa20_gen_key();
        let nonce = salsa20_gen_nonce();
        let (t, source) = self.testcase_from(key, nonce, runs);
        Some((TestcaseEnum::salsa20(t), source))
    }

    fn get_timeout(&self) -> (r: u64)
        ensures
            r == 60,
    {
        60
    }

    fn get_outputlen(&self) -> (r: usize)
        ensures
            r == CLEN,
    {
        CLEN
    }
}

} // verus!
