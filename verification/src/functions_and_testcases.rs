//! The functions of the board's library that can be tested, and one test
//! case of any of them.

use vstd::prelude::*;
use crate::traits::Generator;
use crate::reader::ReadResultObj;
use crate::format::{byte_list, hex_debug_list};
use crate::text::str_eq;
use crate::generators::crypto_box::{CryptoBoxTestcase, cryptobox_expected_text, cryptobox_generated};
use crate::generators::crypto_secretbox::{SecretboxTestcase, secretbox_generated};
use crate::generators::crypto_stream::{TestcaseStream, CLEN, stream_generated};
use crate::generators::scalarmult::{ScalarMultTestcase, scalarmult_generated};
use crate::poly1305::generator::{Poly1305Generator, TestcasePoly1305, poly1305_generated};

verus! {

/// Generates Curve25519 scalar multiplication test cases.
pub struct ScalarmultGenerator {}

/// Generates crypto_box test cases.
pub struct CryptoboxGenerator {}

/// Generates crypto_stream (Salsa20) test cases.
pub struct StreamGenerator {}

/// Generates crypto_secretbox test cases.
pub struct SecretBoxGenerator {}

/// A function under test, with its generator.
#[allow(non_camel_case_types)]
pub enum Function {
    poly1305(Poly1305Generator),
    scalarmult(ScalarmultGenerator),
    cryptobox(CryptoboxGenerator),
    salsa20(StreamGenerator),
    secretbox(SecretBoxGenerator),
}

/// The function whose variant carries `name`: `poly1305`, `scalarmult`,
/// `cryptobox`, `salsa20` or `secretbox`.
pub open spec fn function_named(name: Seq<char>) -> Option<Function> {
    if name == "poly1305"@ {
        Some(Function::poly1305(Poly1305Generator {}))
    } else if name == "scalarmult"@ {
        Some(Function::scalarmult(ScalarmultGenerator {}))
    } else if name == "cryptobox"@ {
        Some(Function::cryptobox(CryptoboxGenerator {}))
    } else if name == "salsa20"@ {
        Some(Function::salsa20(StreamGenerator {}))
    } else if name == "secretbox"@ {
        Some(Function::secretbox(SecretBoxGenerator {}))
    } else {
        None
    }
}

impl Function {
    /// The function named on the command line, if any has that name.
    pub fn from_name(name: &str) -> (r: Option<Function>)
        ensures
            r == function_named(name@),
    {
        if str_eq(name, "poly1305") {
            Some(Function::poly1305(Poly1305Generator {}))
        } else if str_eq(name, "scalarmult") {
            Some(Function::scalarmult(ScalarmultGenerator {}))
        } else if str_eq(name, "cryptobox") {
            Some(Function::cryptobox(CryptoboxGenerator {}))
        } else if str_eq(name, "salsa20") {
            Some(Function::salsa20(StreamGenerator {}))
        } else if str_eq(name, "secretbox") {
            Some(Function::secretbox(SecretBoxGenerator {}))
        } else {
            None
        }
    }

    /// Every function, in the order of the variants.
    pub fn all() -> (r: Vec<Function>)
        ensures
            r@ == seq![
                Function::poly1305(Poly1305Generator {}),
                Function::scalarmult(ScalarmultGenerator {}),
                Function::cryptobox(CryptoboxGenerator {}),
                Function::salsa20(StreamGenerator {}),
                Function::secretbox(SecretBoxGenerator {}),
            ],
    {
        let mut v: Vec<Function> = Vec::new();
        v.push(Function::poly1305(Poly1305Generator {}));
        v.push(Function::scalarmult(ScalarmultGenerator {}));
        v.push(Function::cryptobox(CryptoboxGenerator {}));
        v.push(Function::salsa20(StreamGenerator {}));
        v.push(Function::secretbox(SecretBoxGenerator {}));
        v
    }
}

impl Generator for Function {
    fn get_generator_name(&self) -> (r: String)
        ensures
            r@ == match *self {
                Function::poly1305(_) => "poly1305"@,
                Function::scalarmult(_) => "scalarmult"@,
                Function::cryptobox(_) => "crypto_box"@,
                Function::salsa20(_) => "stream_xsalsa20"@,
                Function::secretbox(_) => "secretbox"@,
            },
    {
        match self {
            Function::poly1305(g) => g.get_generator_name(),
            Function::scalarmult(g) => g.get_generator_name(),
            Function::cryptobox(g) => g.get_generator_name(),
            Function::salsa20(g) => g.get_generator_name(),
            Function::secretbox(g) => g.get_generator_name(),
        }
    }

    fn generate_testcase(&self, runs: u64) -> (r: Option<(TestcaseEnum, String)>)
        ensures
            match *self {
                Function::poly1305(_) => poly1305_generated((runs + 1) as nat, r),
                Function::scalarmult(_) => scalarmult_generated((runs + 1) as nat, r),
                Function::cryptobox(_) => cryptobox_generated((runs + 1) as nat, r),
                Function::salsa20(_) => stream_generated((runs + 1) as nat, r),
                Function::secretbox(_) => secretbox_generated((runs + 1) as nat, r),
            },
    {
        match self {
            Function::poly1305(g) => g.generate_testcase(runs),
            Function::scalarmult(g) => g.generate_testcase(runs),
            Function::cryptobox(g) => g.generate_testcase(runs),
            Function::salsa20(g) => g.generate_testcase(runs),
            Function::secretbox(g) => g.generate_testcase(runs),
        }
    }

    fn get_timeout(&self) -> (r: u64)
        ensures
            r == match *self {
                Function::poly1305(_) => 15u64,
                Function::scalarmult(_) => 210u64,
                Function::cryptobox(_) => 240u64,
                Function::salsa20(_) => 60u64,
                Function::secretbox(_) => 60u64,
            },
    {
        match self {
            Function::poly1305(g) => g.get_timeout(),
            Function::scalarmult(g) => g.get_timeout(),
            Function::cryptobox(g) => g.get_timeout(),
            Function::salsa20(g) => g.get_timeout(),
            Function::secretbox(g) => g.get_timeout(),
        }
    }

    fn get_outputlen(&self) -> (r: usize)
        ensures
            r == match *self {
                Function::poly1305(_) => 16usize,
                Function::scalarmult(_) => 32usize,
                Function::cryptobox(_) => 132usize,
                Function::salsa20(_) => 1024usize,
                Function::secretbox(_) => 1024usize,
            },
    {
        match self {
            Function::poly1305(g) => g.get_outputlen(),
            Function::scalarmult(g) => g.get_outputlen(),
            Function::cryptobox(g) => g.get_outputlen(),
            Function::salsa20(g) => g.get_outputlen(),
            Function::secretbox(g) => g.get_outputlen(),
        }
    }
}

/// A test case of any of the functions.
#[allow(non_camel_case_types)]
pub enum TestcaseEnum {
    poly130(TestcasePoly1305),
    scalarmult(ScalarMultTestcase),
    cryptobox(CryptoBoxTestcase),
    salsa20(TestcaseStream),
    secretbox(SecretboxTestcase),
}

impl TestcaseEnum {
    /// Whether the board's result matches the expected one.
    pub open spec fn correct(self) -> bool {
        match self {
            TestcaseEnum::poly130(t) => t.result@ == t.expected_result@,
            TestcaseEnum::scalarmult(t) => t.result@ == t.expected_result@,
            TestcaseEnum::cryptobox(t) => t.result@ == t.expected_result@,
            TestcaseEnum::salsa20(t) => t.result@.take(CLEN as int) == t.expected_result@.take(CLEN as int),
            TestcaseEnum::secretbox(t) => t.result@ == t.expected_result@,
        }
    }

    /// A stream test case can be checked once both outputs hold `CLEN` bytes.
    pub open spec fn can_check(self) -> bool {
        match self {
            TestcaseEnum::salsa20(t) => t.result@.len() >= CLEN && t.expected_result@.len() >= CLEN,
            _ => true,
        }
    }

    /// A stream test case can render its expected result once it has one.
    pub open spec fn has_expected(self) -> bool {
        match self {
            TestcaseEnum::salsa20(t) => t.expected_result@.len() > 0,
            _ => true,
        }
    }

    /// The number of result bytes a test case can take over (any number for a stream).
    pub open spec fn takes_result_len(self, n: nat) -> bool {
        match self {
            TestcaseEnum::poly130(_) => n == 16,
            TestcaseEnum::scalarmult(_) => n == 32,
            TestcaseEnum::cryptobox(_) => n == 132,
            TestcaseEnum::salsa20(_) => true,
            TestcaseEnum::secretbox(_) => n == 1024,
        }
    }

    /// The expected result as the raw output file shows it.
    pub open spec fn expected_text(self) -> Seq<char> {
        match self {
            TestcaseEnum::poly130(t) => hex_debug_list(t.expected_result@),
            TestcaseEnum::scalarmult(t) => byte_list(t.expected_result@),
            TestcaseEnum::cryptobox(t) => cryptobox_expected_text(t.expected_result@),
            TestcaseEnum::salsa20(t) => byte_list(t.expected_result@),
            TestcaseEnum::secretbox(t) => byte_list(t.expected_result@),
        }
    }

    /// `after` is `before` with the board's report taken over.
    pub open spec fn took_over(before: TestcaseEnum, after: TestcaseEnum, rr: ReadResultObj) -> bool {
        match (before, after) {
            (TestcaseEnum::poly130(a), TestcaseEnum::poly130(b)) => {
                &&& b.result@ == rr.result@ && b.cycle_counts == rr.cycle_counts && b.raw_output == rr.raw_output
                &&& b.message == a.message && b.key == a.key && b.expected_result == a.expected_result
            },
            (TestcaseEnum::scalarmult(a), TestcaseEnum::scalarmult(b)) => {
                &&& b.result@ == rr.result@ && b.cycle_counts == rr.cycle_counts && b.raw_output == rr.raw_output
                &&& b.n == a.n && b.G == a.G && b.expected_result == a.expected_result
            },
            (TestcaseEnum::cryptobox(a), TestcaseEnum::cryptobox(b)) => {
                &&& b.result@ == rr.result@ && b.cycle_counts == rr.cycle_counts && b.raw_output == rr.raw_output
                &&& b.pk == a.pk && b.sk == a.sk && b.nonce == a.nonce && b.message == a.message
                &&& b.expected_result == a.expected_result
            },
            (TestcaseEnum::salsa20(a), TestcaseEnum::salsa20(b)) => {
                &&& b.result == rr.result && b.cycle_counts == rr.cycle_counts && b.raw_output == rr.raw_output
                &&& b.key == a.key && b.nonce == a.nonce && b.expected_result == a.expected_result
            },
            (TestcaseEnum::secretbox(a), TestcaseEnum::secretbox(b)) => {
                &&& b.result@ == rr.result@ && b.cycle_counts == rr.cycle_counts && b.raw_output == rr.raw_output
                &&& b.message == a.message && b.key == a.key && b.nonce == a.nonce
                &&& b.expected_result == a.expected_result
            },
            _ => false,
        }
    }

    /// Whether the board's result matches the expected one.
    pub fn is_correct(&self) -> (r: bool)
        requires
            self.can_check(),
        ensures
            r == self.correct(),
    {
        match self {
            TestcaseEnum::poly130(t) => t.is_correct(),
            TestcaseEnum::scalarmult(t) => t.is_correct(),
            TestcaseEnum::cryptobox(t) => t.is_correct(),
            TestcaseEnum::salsa20(t) => t.is_correct(),
            TestcaseEnum::secretbox(t) => t.is_correct(),
        }
    }

    /// The expected result as text.
    pub fn get_expected(&self) -> (r: String)
        requires
            self.has_expected(),
        ensures
            r@ == self.expected_text(),
    {
        match self {
            TestcaseEnum::poly130(t) => t.get_expected(),
            TestcaseEnum::scalarmult(t) => t.get_expected(),
            TestcaseEnum::cryptobox(t) => t.get_expected(),
            TestcaseEnum::salsa20(t) => t.get_expected(),
            TestcaseEnum::secretbox(t) => t.get_expected(),
        }
    }

    /// Takes over what the board reported.
    pub fn copy_result_variables(&mut self, read_result: ReadResultObj)
        requires
            old(self).takes_result_len(read_result.result@.len()),
        ensures
            TestcaseEnum::took_over(*old(self), *final(self), read_result),
    {
        match self {
            TestcaseEnum::poly130(t) => t.copy_result_variables(read_result),
            TestcaseEnum::scalarmult(t) => t.copy_result_variables(read_result),
            TestcaseEnum::cryptobox(t) => t.copy_result_variables(read_result),
            TestcaseEnum::salsa20(t) => t.copy_result_variables(read_result),
            TestcaseEnum::secretbox(t) => t.copy_result_variables(read_result),
        }
    }

    /// The raw output lines and the expected result, as the raw output
    /// file receives them.
    pub fn raw_report(&self) -> (r: String)
        requires
            self.has_expected(),
        ensures
            r@ == crate::generators::raw_report_text(
                crate::format::string_views(self.raw_lines()@),
                self.expected_text(),
            ),
    {
        match self {
            TestcaseEnum::poly130(t) => t.raw_report(),
            TestcaseEnum::scalarmult(t) => t.raw_report(),
            TestcaseEnum::cryptobox(t) => t.raw_report(),
            TestcaseEnum::salsa20(t) => t.raw_report(),
            TestcaseEnum::secretbox(t) => t.raw_report(),
        }
    }

    /// The raw output lines the board sent for this test case.
    pub open spec fn raw_lines(self) -> Vec<String> {
        match self {
            TestcaseEnum::poly130(t) => t.raw_output,
            TestcaseEnum::scalarmult(t) => t.raw_output,
            TestcaseEnum::cryptobox(t) => t.raw_output,
            TestcaseEnum::salsa20(t) => t.raw_output,
            TestcaseEnum::secretbox(t) => t.raw_output,
        }
    }
}

} // verus!
