//! Test cases for crypto_secretbox (XSalsa20 and Poly1305).

use vstd::prelude::*;
use crate::primitives::{random_fill, secretbox_seal, spec_secretbox};
use crate::utils::{c_variable, u8_to_string, u8_to_string_variable};
use crate::format::{byte_list, string_views};
use crate::benchmark::{harness_source, harness_text, lemma_harness_runs_inputs};
use crate::text::contains_pat;
use crate::reader::ReadResultObj;
use crate::generators::{clear_prefix, zero_prefix, raw_report, raw_report_text};
use crate::traits::Generator;
use crate::functions_and_testcases::{SecretBoxGenerator, TestcaseEnum};

verus! {

/// The message length of every crypto_secretbox test case, zero padding included.
pub const MESSAGELEN: usize = 1024;

/// One crypto_secretbox test case.
pub struct SecretboxTestcase {
    pub message: [u8; MESSAGELEN],
    pub key: [u8; 32],
    pub nonce: [u8; 24],
    pub expected_result: [u8; MESSAGELEN],
    pub result: [u8; MESSAGELEN],
    pub cycle_counts: Vec<String>,
    pub raw_output: Vec<String>,
}

impl Default for SecretboxTestcase {
    fn default() -> (t: Self)
        ensures
            t.message@ == Seq::new(MESSAGELEN as nat, |i: int| 0u8),
            t.key@ == Seq::new(32, |i: int| 0u8),
            t.nonce@ == Seq::new(24, |i: int| 0u8),
            t.expected_result@ == Seq::new(MESSAGELEN as nat, |i: int| 0u8),
            t.result@ == Seq::new(MESSAGELEN as nat, |i: int| 0u8),
            t.cycle_counts@.len() == 0,
            t.raw_output@.len() == 0,
    {
        let t = SecretboxTestcase {
            message: [0u8; MESSAGELEN],
            key: [0u8; 32],
            nonce: [0u8; 24],
            expected_result: [0u8; MESSAGELEN],
            result: [0u8; MESSAGELEN],
            cycle_counts: Vec::new(),
            raw_output: Vec::new(),
        };
        assert(t.message@ =~= Seq::new(MESSAGELEN as nat, |i: int| 0u8));
        assert(t.key@ =~= Seq::new(32, |i: int| 0u8));
        assert(t.nonce@ =~= Seq::new(24, |i: int| 0u8));
        assert(t.expected_result@ =~= Seq::new(MESSAGELEN as nat, |i: int| 0u8));
        assert(t.result@ =~= Seq::new(MESSAGELEN as nat, |i: int| 0u8));
        t
    }
}

/// The declarations the crypto_secretbox harness starts with.
pub open spec fn secretbox_variables(m: Seq<u8>, n: Seq<u8>, k: Seq<u8>) -> Seq<Seq<char>> {
    seq!["unsigned char c[1024];"@, c_variable(m, "m"@), c_variable(n, "n"@), c_variable(k, "k"@)]
}

/// The harness that runs crypto_secretbox on the test case's inputs.
pub open spec fn secretbox_harness(runs: nat, t: SecretboxTestcase) -> Seq<char> {
    harness_text(
        runs,
        secretbox_variables(t.message@, t.nonce@, t.key@),
        "crypto_secretbox(c,m, 1024, n, k);"@,
        "printresult(c, 1024);"@,
    )
}

/// The crypto_secretbox harness runs the board on the test case's own
/// inputs: it declares `m` with the message, `n` with the nonce and `k` with
/// the key the expected ciphertext was computed from, calls
/// `crypto_secretbox` on those arrays into `c`, reports the cycle counter on
/// its `Cycle counts:` line and prints `c`.
pub proof fn lemma_secretbox_harness_uses_testcase(runs: nat, t: SecretboxTestcase)
    ensures
        contains_pat(secretbox_harness(runs, t), c_variable(t.message@, "m"@)),
        contains_pat(secretbox_harness(runs, t), c_variable(t.nonce@, "n"@)),
        contains_pat(secretbox_harness(runs, t), c_variable(t.key@, "k"@)),
        contains_pat(secretbox_harness(runs, t), "unsigned char c[1024];"@),
        contains_pat(secretbox_harness(runs, t), "crypto_secretbox(c,m, 1024, n, k);"@),
        contains_pat(
            secretbox_harness(runs, t),
            "printf(\"Cycle counts:          \");\n        printcounters(counters, 0);"@,
        ),
        contains_pat(secretbox_harness(runs, t), "printresult(c, 1024);"@),
{
    let vs = secretbox_variables(t.message@, t.nonce@, t.key@);
    lemma_harness_runs_inputs(runs, vs, "crypto_secretbox(c,m, 1024, n, k);"@, "printresult(c, 1024);"@);
    assert(vs[0] == "unsigned char c[1024];"@);
    assert(vs[1] == c_variable(t.message@, "m"@));
    assert(vs[2] == c_variable(t.nonce@, "n"@));
    assert(vs[3] == c_variable(t.key@, "k"@));
}

impl SecretboxTestcase {
    /// Whether the board's ciphertext equals the expected one.
    pub fn is_correct(&self) -> (r: bool)
        ensures
            r == (self.result@ == self.expected_result@),
    {
        let mut i: usize = 0;
        while i < MESSAGELEN
            invariant
                i <= MESSAGELEN,
                forall|j: int| 0 <= j < i ==> self.result@[j] == self.expected_result@[j],
            decreases MESSAGELEN - i,
        {
            if self.result[i] != self.expected_result[i] {
                return false;
            }
            i = i + 1;
        }
        assert(self.result@ =~= self.expected_result@);
        true
    }

    /// The expected ciphertext as byte literals.
    pub fn get_expected(&self) -> (r: String)
        ensures
            r@ == byte_list(self.expected_result@),
    {
        u8_to_string(&self.expected_result)
    }

    /// Takes over what the board reported.
    pub fn copy_result_variables(&mut self, read_result: ReadResultObj)
        requires
            read_result.result@.len() == MESSAGELEN,
        ensures
            final(self).result@ == read_result.result@,
            final(self).cycle_counts == read_result.cycle_counts,
            final(self).raw_output == read_result.raw_output,
            final(self).message == old(self).message,
            final(self).key == old(self).key,
            final(self).nonce == old(self).nonce,
            final(self).expected_result == old(self).expected_result,
    {
        let ReadResultObj { result, cycle_counts, raw_output } = read_result;
        let mut res = [0u8; MESSAGELEN];
        let mut i: usize = 0;
        while i < MESSAGELEN
            invariant
                i <= MESSAGELEN,
                result@.len() == MESSAGELEN,
                forall|j: int| 0 <= j < i ==> res@[j] == result@[j],
            decreases MESSAGELEN - i,
        {
            res[i] = result[i];
            i = i + 1;
        }
        assert(res@ =~= result@);
        self.result = res;
        self.cycle_counts = cycle_counts;
        self.raw_output = raw_output;
    }

    /// The raw output lines and the expected result.
    pub fn raw_report(&self) -> (r: String)
        ensures
            r@ == raw_report_text(string_views(self.raw_output@), byte_list(self.expected_result@)),
    {
        let e = self.get_expected();
        raw_report(&self.raw_output, e.as_str())
    }
}

impl SecretBoxGenerator {
    /// The test case for a message (whose first 32 bytes are zeroed), a key
    /// and a nonce, with the harness that runs it `runs + 1` times.
    pub fn testcase_from(&self, message: [u8; MESSAGELEN], key: [u8; 32], nonce: [u8; 24], runs: u64) -> (r: (
        SecretboxTestcase,
        String,
    ))
        requires
            runs < u64::MAX,
        ensures
            r.0.message@ == zero_prefix(message@, 32),
            r.0.key == key,
            r.0.nonce == nonce,
            r.0.expected_result@ == spec_secretbox(r.0.message@, nonce@, key@),
            r.0.result@ == Seq::new(MESSAGELEN as nat, |i: int| 0u8),
            r.0.cycle_counts@.len() == 0,
            r.0.raw_output@.len() == 0,
            r.1@ == secretbox_harness((runs + 1) as nat, r.0),
            contains_pat(r.1@, c_variable(r.0.message@, "m"@)),
            contains_pat(r.1@, c_variable(nonce@, "n"@)),
            contains_pat(r.1@, c_variable(key@, "k"@)),
    {
        let mut message = message;
        clear_prefix(&mut message, 32);
        let mut variables: Vec<String> = Vec::new();
        variables.push(String::from_str("unsigned char c[1024];"));
        variables.push(u8_to_string_variable(&message, "m"));
        variables.push(u8_to_string_variable(&nonce, "n"));
        variables.push(u8_to_string_variable(&key, "k"));
        let mut expected_result = [0u8; MESSAGELEN];
        let _ = secretbox_seal(&mut expected_result, &message, &nonce, &key);
        let source = harness_source(runs, &variables, "crypto_secretbox(c,m, 1024, n, k);", "printresult(c, 1024);");
        let mut t = SecretboxTestcase::default();
        t.message = message;
        t.key = key;
        t.nonce = nonce;
        t.expected_result = expected_result;
        proof {
            assert(string_views(variables@) =~= secretbox_variables(message@, nonce@, key@));
            lemma_secretbox_harness_uses_testcase((runs + 1) as nat, t);
        }
        (t, source)
    }
}

/// A crypto_secretbox test case as the generator draws it, with its harness.
pub open spec fn secretbox_generated(runs: nat, r: Option<(TestcaseEnum, String)>) -> bool {
    r matches Some((TestcaseEnum::secretbox(t), src)) && {
        &&& forall|i: int| 0 <= i < 32 ==> t.message@[i] == 0
        &&& t.expected_result@ == spec_secretbox(t.message@, t.nonce@, t.key@)
        &&& t.result@ == Seq::new(MESSAGELEN as nat, |i: int| 0u8)
        &&& t.cycle_counts@.len() == 0
        &&& t.raw_output@.len() == 0
        &&& src@ == secretbox_harness(runs, t)
    }
}

impl Generator for SecretBoxGenerator {
    fn get_generator_name(&self) -> (r: String)
        ensures
            r@ == "secretbox"@,
    {
        String::from_str("secretbox")
    }

    /// Draws a message, a key and a nonce and builds their test case.
    fn generate_testcase(&self, runs: u64) -> (r: Option<(TestcaseEnum, String)>)
        ensures
            secretbox_generated((runs + 1) as nat, r),
    {
        let mut message = [0u8; MESSAGELEN];
        random_fill(&mut message);
        let mut key = [0u8; 32];
        random_fill(&mut key);
        let mut nonce = [0u8; 24];
        random_fill(&mut nonce);
        let (t, source) = self.testcase_from(message, key, nonce, runs);
        Some((TestcaseEnum::secretbox(t), source))
    }

    fn get_timeout(&self) -> (r: u64)
        ensures
            r == 60,
    {
        60
    }

    fn get_outputlen(&self) -> (r: usize)
        ensures
            r == MESSAGELEN,
    {
        MESSAGELEN
    }
}

} // verus!
