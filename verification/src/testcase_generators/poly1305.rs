//! Declarations of a Poly1305 message and key for a hand-written harness.

use vstd::prelude::*;
use vstd::slice::slice_subrange;
use crate::primitives::random_fill;
use crate::utils::{short_initializer, short_initializer_text};
use crate::format::string_views;

verus! {

/// The declarations of a 131-byte message `c` and a key `rs`.
pub open spec fn poly1305_declarations(message: Seq<u8>, key: Seq<u8>) -> Seq<Seq<char>> {
    seq![
        short_initializer_text("        unsigned char c[131] = {"@, message.subrange(0, 131)),
        short_initializer_text("        unsigned char rs[32] = {"@, key),
    ]
}

/// The declarations for the first 131 bytes of `message` and a key.
pub fn declarations_from(message: [u8; 256], key: [u8; 32]) -> (r: Vec<String>)
    ensures
        string_views(r@) == poly1305_declarations(message@, key@),
{
    let mut m: Vec<String> = Vec::new();
    m.push(short_initializer("        unsigned char c[131] = {", slice_subrange(&message, 0, 131)));
    m.push(short_initializer("        unsigned char rs[32] = {", &key));
    proof {
        assert(string_views(m@) =~= poly1305_declarations(message@, key@));
    }
    m
}

/// Draws a message and a key and declares them.
pub fn generate_testcase() -> (r: Vec<String>)
    ensures
        exists|m: Seq<u8>, k: Seq<u8>|
            m.len() == 256 && k.len() == 32 && string_views(r@) == #[trigger] poly1305_declarations(m, k),
{
    let mut message = [0u8; 256];
    random_fill(&mut message);
    let mut key = [0u8; 32];
    random_fill(&mut key);
    declarations_from(message, key)
}

} // verus!
