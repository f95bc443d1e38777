//! Test cases for crypto_box (Curve25519, XSalsa20 and Poly1305).

use vstd::prelude::*;
use crate::curve25519::{box_, box_keypair, beforenm_key, x25519_bytes, C_9};
use crate::primitives::{random_fill, spec_secretbox};
use crate::utils::{c_variable, u8_to_string, u8_to_string_variable};
use crate::format::{byte_list, string_views};
use crate::benchmark::{harness_source, harness_text, lemma_harness_runs_inputs};
use crate::text::contains_pat;
use crate::reader::ReadResultObj;
use crate::generators::{clear_prefix, zero_prefix, raw_report, raw_report_text};
use crate::traits::Generator;
use crate::functions_and_testcases::{CryptoboxGenerator, TestcaseEnum};

verus! {

/// The message length of every crypto_box test case, zero padding included.
pub const MESSAGELEN: usize = 132;

/// One crypto_box test case: the inputs, the ciphertext the reference
/// computed and what the board returned.
pub struct CryptoBoxTestcase {
    pub pk: [u8; 32],
    pub sk: [u8; 32],
    pub nonce: [u8; 24],
    pub message: [u8; MESSAGELEN],
    pub expected_result: [u8; MESSAGELEN],
    pub result: [u8; MESSAGELEN],
    pub cycle_counts: Vec<String>,
    pub raw_output: Vec<String>,
}

impl Default for CryptoBoxTestcase {
    fn default() -> (t: Self)
        ensures
            t.pk@ == Seq::new(32, |i: int| 0u8),
            t.sk@ == Seq::new(32, |i: int| 0u8),
            t.nonce@ == Seq::new(24, |i: int| 0u8),
            t.message@ == Seq::new(MESSAGELEN as nat, |i: int| 0u8),
            t.expected_result@ == Seq::new(MESSAGELEN as nat, |i: int| 0u8),
            t.result@ == Seq::new(MESSAGELEN as nat, |i: int| 0u8),
            t.cycle_counts@.len() == 0,
            t.raw_output@.len() == 0,
    {
        let t = CryptoBoxTestcase {
            pk: [0u8; 32],
            sk: [0u8; 32],
            nonce: [0u8; 24],
            message: [0u8; MESSAGELEN],
            expected_result: [0u8; MESSAGELEN],
            result: [0u8; MESSAGELEN],
            cycle_counts: Vec::new(),
            raw_output: Vec::new(),
        };
        assert(t.pk@ =~= Seq::new(32, |i: int| 0u8));
        assert(t.sk@ =~= Seq::new(32, |i: int| 0u8));
        assert(t.nonce@ =~= Seq::new(24, |i: int| 0u8));
        assert(t.message@ =~= Seq::new(MESSAGELEN as nat, |i: int| 0u8));
        assert(t.expected_result@ =~= Seq::new(MESSAGELEN as nat, |i: int| 0u8));
        assert(t.result@ =~= Seq::new(MESSAGELEN as nat, |i: int| 0u8));
        t
    }
}

/// The expected ciphertext as the raw output file shows it: the byte
/// literals in double quotes.
pub open spec fn cryptobox_expected_text(expected: Seq<u8>) -> Seq<char> {
    seq!['"'] + byte_list(expected) + seq!['"']
}

/// The declarations the crypto_box harness starts with.
pub open spec fn cryptobox_variables(m: Seq<u8>, n: Seq<u8>, pk: Seq<u8>, sk: Seq<u8>) -> Seq<Seq<char>> {
    seq![
        c_variable(m, "m"@),
        c_variable(n, "n"@),
        c_variable(pk, "pk"@),
        c_variable(sk, "sk"@),
        "unsigned char c[132];"@,
    ]
}

/// The harness that runs crypto_box on the test case's inputs.
pub open spec fn cryptobox_harness(runs: nat, t: CryptoBoxTestcase) -> Seq<char> {
    harness_text(
        runs,
        cryptobox_variables(t.message@, t.nonce@, t.pk@, t.sk@),
        "crypto_box(c, m, 132, n, pk, sk);"@,
        "printresult(c,132);"@,
    )
}

/// The crypto_box harness runs the board on the test case's own inputs:
/// it declares `m` with the message, `n` with the nonce, `pk` with the
/// public key and `sk` with the secret key the expected ciphertext was
/// computed from, calls `crypto_box` on those arrays, reports the cycle
/// counter on its `Cycle counts:` line and prints the ciphertext.
pub proof fn lemma_cryptobox_harness_uses_testcase(runs: nat, t: CryptoBoxTestcase)
    ensures
        contains_pat(cryptobox_harness(runs, t), c_variable(t.message@, "m"@)),
        contains_pat(cryptobox_harness(runs, t), c_variable(t.nonce@, "n"@)),
        contains_pat(cryptobox_harness(runs, t), c_variable(t.pk@, "pk"@)),
        contains_pat(cryptobox_harness(runs, t), c_variable(t.sk@, "sk"@)),
        contains_pat(cryptobox_harness(runs, t), "crypto_box(c, m, 132, n, pk, sk);"@),
        contains_pat(
            cryptobox_harness(runs, t),
            "printf(\"Cycle counts:          \");\n        printcounters(counters, 0);"@,
        ),
        contains_pat(cryptobox_harness(runs, t), "printresult(c,132);"@),
{
    let vs = cryptobox_variables(t.message@, t.nonce@, t.pk@, t.sk@);
    lemma_harness_runs_inputs(runs, vs, "crypto_box(c, m, 132, n, pk, sk);"@, "printresult(c,132);"@);
    assert(vs[0] == c_variable(t.message@, "m"@));
    assert(vs[1] == c_variable(t.nonce@, "n"@));
    assert(vs[2] == c_variable(t.pk@, "pk"@));
    assert(vs[3] == c_variable(t.sk@, "sk"@));
}

impl CryptoBoxTestcase {
    /// Whether the board's ciphertext equals the expected one.
    pub fn is_correct(&self) -> (r: bool)
        ensures
            r == (self.result@ == self.expected_result@),
    {
        let mut i: usize = 0;
        while i < MESSAGELEN
            invariant
                i <= MESSAGELEN,
                forall|j: int| 0 <= j < i ==> self.result@[j] == self.expected_result@[j],
            decreases MESSAGELEN - i,
        {
            if self.result[i] != self.expected_result[i] {
                return false;
            }
            i = i + 1;
        }
        assert(self.result@ =~= self.expected_result@);
        true
    }

    /// The expected ciphertext as text.
    pub fn get_expected(&self) -> (r: String)
        ensures
            r@ == cryptobox_expected_text(self.expected_result@),
    {
        let mut s = String::new();
        proof {
            reveal_strlit("\"");
            assert("\""@ =~= seq!['"']);
        }
        s.append("\"");
        let body = u8_to_string(&self.expected_result);
        s.append(body.as_str());
        s.append("\"");
        s
    }

    /// Takes over what the board reported.
    pub fn copy_result_variables(&mut self, read_result: ReadResultObj)
        requires
            read_result.result@.len() == MESSAGELEN,
        ensures
            final(self).result@ == read_result.result@,
            final(self).cycle_counts == read_result.cycle_counts,
            final(self).raw_output == read_result.raw_output,
            final(self).pk == old(self).pk,
            final(self).sk == old(self).sk,
            final(self).nonce == old(self).nonce,
            final(self).message == old(self).message,
            final(self).expected_result == old(self).expected_result,
    {
        let ReadResultObj { result, cycle_counts, raw_output } = read_result;
        let mut res = [0u8; MESSAGELEN];
        let mut i: usize = 0;
        while i < MESSAGELEN
            invariant
                i <= MESSAGELEN,
                result@.len() == MESSAGELEN,
                forall|j: int| 0 <= j < i ==> res@[j] == result@[j],
            decreases MESSAGELEN - i,
        {
            res[i] = result[i];
            i = i + 1;
        }
        assert(res@ =~= result@);
        self.result = res;
        self.cycle_counts = cycle_counts;
        self.raw_output = raw_output;
    }

    /// The raw output lines and the expected result, as the raw output
    /// file receives them.
    pub fn raw_report(&self) -> (r: String)
        ensures
            r@ == raw_report_text(string_views(self.raw_output@), cryptobox_expected_text(self.expected_result@)),
    {
        let e = self.get_expected();
        raw_report(&self.raw_output, e.as_str())
    }
}

impl CryptoboxGenerator {
    /// The test case for a key pair, a nonce and a message (whose first 32
    /// bytes are zeroed), with the harness that runs it `runs + 1` times.
    pub fn testcase_from(
        &self,
        pk: [u8; 32],
        sk: [u8; 32],
        nonce: [u8; 24],
        message: [u8; MESSAGELEN],
        runs: u64,
    ) -> (r: (CryptoBoxTestcase, String))
        requires
            runs < u64::MAX,
        ensures
            r.0.pk == pk,
            r.0.sk == sk,
            r.0.nonce == nonce,
            r.0.message@ == zero_prefix(message@, 32),
            r.0.expected_result@ == spec_secretbox(r.0.message@, nonce@, beforenm_key(pk@, sk@)),
            r.0.result@ == Seq::new(MESSAGELEN as nat, |i: int| 0u8),
            r.0.cycle_counts@.len() == 0,
            r.0.raw_output@.len() == 0,
            r.1@ == cryptobox_harness((runs + 1) as nat, r.0),
            contains_pat(r.1@, c_variable(r.0.message@, "m"@)),
            contains_pat(r.1@, c_variable(nonce@, "n"@)),
            contains_pat(r.1@, c_variable(pk@, "pk"@)),
            contains_pat(r.1@, c_variable(sk@, "sk"@)),
    {
        let mut message = message;
        clear_prefix(&mut message, 32);
        let mut variables: Vec<String> = Vec::new();
        variables.push(u8_to_string_variable(&message, "m"));
        variables.push(u8_to_string_variable(&nonce, "n"));
        variables.push(u8_to_string_variable(&pk, "pk"));
        variables.push(u8_to_string_variable(&sk, "sk"));
        variables.push(String::from_str("unsigned char c[132];"));
        let source = harness_source(runs, &variables, "crypto_box(c, m, 132, n, pk, sk);", "printresult(c,132);");
        let mut cipher = [0u8; MESSAGELEN];
        let _ = box_(&mut cipher, &message, &nonce, &pk, &sk);
        let mut t = CryptoBoxTestcase::default();
        t.pk = pk;
        t.sk = sk;
        t.nonce = nonce;
        t.message = message;
        t.expected_result = cipher;
        proof {
            assert(string_views(variables@) =~= cryptobox_variables(message@, nonce@, pk@, sk@));
            lemma_cryptobox_harness_uses_testcase((runs + 1) as nat, t);
        }
        (t, source)
    }
}

/// A crypto_box test case as the generator draws it, with its harness.
pub open spec fn cryptobox_generated(runs: nat, r: Option<(TestcaseEnum, String)>) -> bool {
    r matches Some((TestcaseEnum::cryptobox(t), src)) && {
        &&& t.pk@ == x25519_bytes(t.sk@, C_9@)
        &&& forall|i: int| 0 <= i < 32 ==> t.message@[i] == 0
        &&& t.expected_result@ == spec_secretbox(t.message@, t.nonce@, beforenm_key(t.pk@, t.sk@))
        &&& t.result@ == Seq::new(MESSAGELEN as nat, |i: int| 0u8)
        &&& t.cycle_counts@.len() == 0
        &&& t.raw_output@.len() == 0
        &&& src@ == cryptobox_harness(runs, t)
    }
}

impl Generator for CryptoboxGenerator {
    fn get_generator_name(&self) -> (r: String)
        ensures
            r@ == "crypto_box"@,
    {
        String::from_str("crypto_box")
    }

    /// Draws a key pair, a nonce and a message and builds their test case.
    fn generate_testcase(&self, runs: u64) -> (r: Option<(TestcaseEnum, String)>)
        ensures
            cryptobox_generated((runs + 1) as nat, r),
    {
        let mut receiver_key = [0u8; 32];
        let mut sender_key = [0u8; 32];
        box_keypair(&mut receiver_key, &mut sender_key);
        let mut message = [0u8; MESSAGELEN];
        random_fill(&mut message);
        let mut nonce = [0u8; 24];
        random_fill(&mut nonce);
        let (t, source) = self.testcase_from(receiver_key, sender_key, nonce, message, runs);
        Some((TestcaseEnum::cryptobox(t), source))
    }

    fn get_timeout(&self) -> (r: u64)
        ensures
            r == 240,
    {
        240
    }

    fn get_outputlen(&self) -> (r: usize)
        ensures
            r == MESSAGELEN,
    {
        MESSAGELEN
    }
}

} // verus!
