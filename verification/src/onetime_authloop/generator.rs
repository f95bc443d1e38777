//! Inputs for timing the board's `onetime_authloop` over a message prefix.

use vstd::prelude::*;
use vstd::slice::{slice_subrange, slice_to_vec};
use crate::primitives::{random_fill, onetimeauth_gen_key};
use crate::utils::{short_initializer, short_initializer_text};
use crate::format::{decimal, push_decimal, string_views};
use crate::benchmark::{authloop_harness_source, authloop_harness_text, lemma_authloop_harness_loops};
use crate::text::contains_pat;

verus! {

/// The declarations of one block-loop benchmark and the message length.
#[derive(Debug)]
pub struct TestcaseAuthLoop {
    pub variables: Vec<String>,
    pub messagelen: usize,
}

/// The name under which results are filed.
pub fn generator_name() -> (r: String)
    ensures
        r@ == "authloop"@,
{
    String::from_str("authloop")
}

/// The declarations for a message prefix of `len` bytes and a key: `in`
/// holds the prefix, `k[16]` the first sixteen key bytes followed by the
/// last key byte.
pub open spec fn authloop_variables(message: Seq<u8>, len: nat, key: Seq<u8>) -> Seq<Seq<char>> {
    seq![
        short_initializer_text(
            "        static unsigned char in["@ + decimal(len) + "] = {"@,
            message.subrange(0, len as int),
        ),
        short_initializer_text("        static unsigned char k[16] = {"@, key.subrange(0, 16).push(key[31])),
    ]
}

/// The block-loop benchmark runs on the bytes it was built from: its
/// harness declares `in` with the first `len` message bytes and `k` with
/// the first sixteen key bytes followed by the last one, and times
/// `onetimeauth_loop` over exactly `len` bytes of `in`.
pub proof fn lemma_authloop_benchmark_uses_inputs(message: Seq<u8>, len: nat, key: Seq<u8>)
    requires
        len <= message.len(),
        key.len() == 32,
    ensures
        contains_pat(
            authloop_harness_text(authloop_variables(message, len, key), len),
            short_initializer_text("        static unsigned char in["@ + decimal(len) + "] = {"@, message.subrange(0, len as int)),
        ),
        contains_pat(
            authloop_harness_text(authloop_variables(message, len, key), len),
            short_initializer_text("        static unsigned char k[16] = {"@, key.subrange(0, 16).push(key[31])),
        ),
        contains_pat(
            authloop_harness_text(authloop_variables(message, len, key), len),
            "timings[i]=getcycles();\n            onetimeauth_loop(in, "@ + decimal(len) + ", h, r, c);"@,
        ),
{
    let vs = authloop_variables(message, len, key);
    lemma_authloop_harness_loops(vs, len);
    assert(vs[0] == short_initializer_text("        static unsigned char in["@ + decimal(len) + "] = {"@, message.subrange(0, len as int)));
    assert(vs[1] == short_initializer_text("        static unsigned char k[16] = {"@, key.subrange(0, 16).push(key[31])));
}

/// The benchmark for the first `messagelen` bytes of `message` and a key,
/// with its harness.
pub fn testcase_from(message: [u8; 256], key: [u8; 32], messagelen: usize) -> (r: (TestcaseAuthLoop, String))
    requires
        1 <= messagelen <= 256,
    ensures
        r.0.messagelen == messagelen,
        string_views(r.0.variables@) == authloop_variables(message@, messagelen as nat, key@),
        r.1@ == authloop_harness_text(authloop_variables(message@, messagelen as nat, key@), messagelen as nat),
{
    let mut variables: Vec<String> = Vec::new();
    let mut opening = String::from_str("        static unsigned char in[");
    push_decimal(&mut opening, messagelen as u64);
    opening.append("] = {");
    variables.push(short_initializer(opening.as_str(), slice_subrange(&message, 0, messagelen)));
    let mut k = slice_to_vec(slice_subrange(&key, 0, 16));
    k.push(key[31]);
    variables.push(short_initializer("        static unsigned char k[16] = {", k.as_slice()));
    proof {
        assert(k@ =~= key@.subrange(0, 16).push(key@[31]));
        assert(string_views(variables@) =~= authloop_variables(message@, messagelen as nat, key@));
    }
    let source = authloop_harness_source(&variables, messagelen);
    (TestcaseAuthLoop { variables, messagelen }, source)
}

/// Draws a message and a Poly1305 key and builds the benchmark for the
/// first `messagelen` message bytes.
pub fn generate_testcase(messagelen: usize) -> (r: (TestcaseAuthLoop, String))
    requires
        1 <= messagelen <= 256,
    ensures
        r.0.messagelen == messagelen,
        exists|m: Seq<u8>, k: Seq<u8>|
            m.len() == 256 && k.len() == 32 && string_views(r.0.variables@) == #[trigger] authloop_variables(
                m,
                messagelen as nat,
                k,
            ) && r.1@ == authloop_harness_text(authloop_variables(m, messagelen as nat, k), messagelen as nat),
{
    let mut message = [0u8; 256];
    random_fill(&mut message);
    let key = onetimeauth_gen_key();
    testcase_from(message, key, messagelen)
}

} // verus!
