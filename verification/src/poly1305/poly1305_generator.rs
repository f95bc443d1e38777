//! Inputs for the single-message Poly1305 harness that reports one timing.

use vstd::prelude::*;
use vstd::slice::slice_subrange;
use crate::primitives::{random_fill, onetimeauth_gen_key, onetimeauth_authenticate, spec_onetimeauth};
use crate::utils::{short_initializer, short_initializer_text};
use crate::format::string_views;
use crate::benchmark::{
    poly1305_single_harness_source, poly1305_single_harness_text, lemma_poly1305_single_harness_authenticates,
};
use crate::text::contains_pat;

verus! {

/// The declarations of one Poly1305 test and the tag libsodium computed.
#[derive(Debug)]
pub struct TestcasePoly1305 {
    pub variables: Vec<String>,
    pub expected_result: [u8; 16],
}

/// The number of message bytes the harness authenticates.
pub const MESSAGELEN: usize = 131;

/// The declarations of the message `c` and the key `rs`.
pub open spec fn single_variables(message: Seq<u8>, key: Seq<u8>) -> Seq<Seq<char>> {
    seq![
        short_initializer_text("        static unsigned char c[131] = {"@, message.subrange(0, 131)),
        short_initializer_text("        static unsigned char rs[32] = {"@, key),
    ]
}

/// The single-message harness authenticates the data the expected tag was
/// computed from: it declares `c` with the first 131 bytes of the message
/// and `rs` with the key, and times `crypto_onetimeauth(a, c, 131, rs)`.
pub proof fn lemma_poly1305_single_uses_inputs(message: Seq<u8>, key: Seq<u8>)
    requires
        message.len() >= 131,
    ensures
        contains_pat(
            poly1305_single_harness_text(single_variables(message, key)),
            short_initializer_text("        static unsigned char c[131] = {"@, message.subrange(0, 131)),
        ),
        contains_pat(
            poly1305_single_harness_text(single_variables(message, key)),
            short_initializer_text("        static unsigned char rs[32] = {"@, key),
        ),
        contains_pat(
            poly1305_single_harness_text(single_variables(message, key)),
            "oldcount = getcycles();\n        crypto_onetimeauth(a, c, 131, rs);\n        newcount = getcycles();"@,
        ),
{
    let vs = single_variables(message, key);
    lemma_poly1305_single_harness_authenticates(vs);
    assert(vs[0] == short_initializer_text("        static unsigned char c[131] = {"@, message.subrange(0, 131)));
    assert(vs[1] == short_initializer_text("        static unsigned char rs[32] = {"@, key));
}

/// The test for the first 131 bytes of `message` and a key, with its harness.
pub fn testcase_from(message: [u8; 256], key: [u8; 32]) -> (r: (TestcasePoly1305, String))
    ensures
        string_views(r.0.variables@) == single_variables(message@, key@),
        r.0.expected_result@ == spec_onetimeauth(message@.subrange(0, 131), key@),
        r.1@ == poly1305_single_harness_text(single_variables(message@, key@)),
{
    let mut variables: Vec<String> = Vec::new();
    let message_slice = slice_subrange(&message, 0, MESSAGELEN);
    variables.push(short_initializer("        static unsigned char c[131] = {", message_slice));
    variables.push(short_initializer("        static unsigned char rs[32] = {", &key));
    let result = onetimeauth_authenticate(message_slice, &key);
    proof {
        assert(string_views(variables@) =~= single_variables(message@, key@));
    }
    let source = poly1305_single_harness_source(&variables);
    (TestcasePoly1305 { variables, expected_result: result }, source)
}

/// Draws a message and a Poly1305 key and builds their test.
pub fn generate_testcase() -> (r: (TestcasePoly1305, String))
    ensures
        exists|m: Seq<u8>, k: Seq<u8>|
            m.len() == 256 && k.len() == 32 && string_views(r.0.variables@) == #[trigger] single_variables(m, k)
                && r.0.expected_result@ == spec_onetimeauth(m.subrange(0, 131), k) && r.1@
                == poly1305_single_harness_text(single_variables(m, k)),
{
    let mut message = [0u8; 256];
    random_fill(&mut message);
    let key = onetimeauth_gen_key();
    testcase_from(message, key)
}

} // verus!
