//! The calls that the library makes into outside crates. Each function
//! here is trusted: Verus believes its contract and does not read its body.

use vstd::prelude::*;
use rand::RngCore;
use rand::Rng;
use crate::limbs::{le_value, be_value};
use crate::curve25519::x25519_bytes;
use byteorder::ReadBytesExt;

verus! {

/// Fills `buf` from `rand::thread_rng()` (rand 0.7, `RngCore::fill_bytes`).
/// Nothing is claimed about the bytes; the slice keeps its length.
#[verifier::external_body]
pub(crate) fn random_fill<const N: usize>(buf: &mut [u8; N])
    ensures
        final(buf)@.len() == N,
{
    rand::thread_rng().fill_bytes(buf)
}

/// Draws from `rand::thread_rng().gen_range(0, high)` (rand 0.7), which
/// panics unless `0 < high` and returns a value in `[0, high)`.
#[verifier::external_body]
pub(crate) fn random_below(high: u64) -> (r: u64)
    requires
        0 < high,
    ensures
        r < high,
{
    rand::thread_rng().gen_range(0, high)
}

/// The output of microsalt's `core_hsalsa20` on input block, key and constant.
pub uninterp spec fn spec_core_hsalsa20(input: Seq<u8>, key: Seq<u8>, constant: Seq<u8>) -> Seq<u8>;

/// Calls `microsalt::stream::xsalsa20::core_hsalsa20`, which overwrites all
/// 32 output bytes with a function of its three inputs alone.
#[verifier::external_body]
pub(crate) fn core_hsalsa20(out: &mut [u8; 32], input: &[u8; 16], key: &[u8; 32], constant: &[u8; 16])
    ensures
        final(out)@ == spec_core_hsalsa20(input@, key@, constant@),
{
    microsalt::stream::xsalsa20::core_hsalsa20(out, input, key, constant)
}

/// The bytes of "expand 32-byte k".
pub open spec fn spec_sigma() -> Seq<u8> {
    seq![101u8, 120, 112, 97, 110, 100, 32, 51, 50, 45, 98, 121, 116, 101, 32, 107]
}

/// Reads `microsalt::stream::xsalsa20::SIGMA`, the static `b"expand 32-byte k"`.
#[verifier::external_body]
pub(crate) fn xsalsa20_sigma() -> (r: [u8; 16])
    ensures
        r@ == spec_sigma(),
{
    *microsalt::stream::xsalsa20::SIGMA
}

/// The ciphertext that microsalt's `secretbox` writes for a message, nonce and key.
pub uninterp spec fn spec_secretbox(message: Seq<u8>, nonce: Seq<u8>, key: Seq<u8>) -> Seq<u8>;

/// Calls `microsalt::secretbox::xsalsa20poly1305::secretbox`. Its source
/// asserts that `out` and `message` have one length and that the first 32
/// message bytes are zero (it panics otherwise), overwrites `out` (its
/// first 16 bytes with zeros), and always returns `Ok(())`.
#[verifier::external_body]
pub(crate) fn secretbox_seal(out: &mut [u8], message: &[u8], nonce: &[u8; 24], key: &[u8; 32]) -> (r: Result<(), ()>)
    requires
        old(out)@.len() == message@.len(),
        message@.len() >= 32,
        forall|i: int| 0 <= i < 32 ==> message@[i] == 0,
    ensures
        r is Ok,
        final(out)@ == spec_secretbox(message@, nonce@, key@),
        final(out)@.len() == message@.len(),
        forall|i: int| 0 <= i < 16 ==> #[trigger] final(out)@[i] == 0,
{
    microsalt::secretbox::xsalsa20poly1305::secretbox(out, message, nonce, key)
}

/// What microsalt's `secretbox_open` recovers from a ciphertext, nonce and
/// key: `None` when it rejects the ciphertext.
pub uninterp spec fn spec_secretbox_open(cipher: Seq<u8>, nonce: Seq<u8>, key: Seq<u8>) -> Option<Seq<u8>>;

/// Calls `microsalt::secretbox::xsalsa20poly1305::secretbox_open`, which
/// returns `true` on failure. Its source asserts equal lengths (it panics
/// otherwise), rejects ciphertexts shorter than 32 bytes, and leaves `m`
/// untouched whenever it rejects. It opens what `secretbox` sealed under
/// the same nonce and key: both derive the Poly1305 key from the first 32
/// key stream bytes, so the tag checks, and XOR with the same key stream
/// followed by zeroing the first 32 bytes gives back the zero-padded
/// message.
#[verifier::external_body]
pub(crate) fn secretbox_open(m: &mut [u8], cipher: &[u8], nonce: &[u8; 24], key: &[u8; 32]) -> (failed: bool)
    requires
        old(m)@.len() == cipher@.len(),
    ensures
        failed == (spec_secretbox_open(cipher@, nonce@, key@) is None),
        cipher@.len() < 32 ==> failed,
        failed ==> final(m)@ == old(m)@,
        !failed ==> final(m)@ == spec_secretbox_open(cipher@, nonce@, key@)->Some_0,
        forall|msg: Seq<u8>|
            cipher@ == #[trigger] spec_secretbox(msg, nonce@, key@) && msg.len() == cipher@.len() && msg.len()
                >= 32 && (forall|i: int| 0 <= i < 32 ==> msg[i] == 0) ==> !failed && final(m)@ == msg,
{
    microsalt::secretbox::xsalsa20poly1305::secretbox_open(m, cipher, nonce, key)
}

/// A character that `hex::decode` accepts: `0-9`, `a-f` or `A-F`.
pub open spec fn is_hex_char(c: char) -> bool {
    ('0' <= c && c <= '9') || ('a' <= c && c <= 'f') || ('A' <= c && c <= 'F')
}

/// The value of a hex digit.
pub open spec fn hex_char_value(c: char) -> int {
    if '0' <= c && c <= '9' {
        c as int - 48
    } else if 'a' <= c && c <= 'f' {
        c as int - 87
    } else {
        c as int - 55
    }
}

/// The bytes that pairs of hex digits stand for, high digit first.
pub open spec fn hex_bytes(s: Seq<char>) -> Seq<u8> {
    Seq::new(s.len() / 2, |i: int| (16 * hex_char_value(s[2 * i]) + hex_char_value(s[2 * i + 1])) as u8)
}

/// `hex::decode` (hex 0.4) accepts exactly the strings of even length made
/// of hex digits.
pub open spec fn hex_decodable(s: Seq<char>) -> bool {
    s.len() % 2 == 0 && forall|i: int| 0 <= i < s.len() ==> is_hex_char(#[trigger] s[i])
}

/// Calls `hex::decode` (hex 0.4). Its source rejects an odd length and any
/// byte outside `0-9a-fA-F`, and otherwise turns each pair of digits into
/// one byte, high digit first. The error itself is dropped.
#[verifier::external_body]
pub(crate) fn hex_decode(s: &str) -> (r: Option<Vec<u8>>)
    ensures
        r is Some <==> hex_decodable(s@),
        r is Some ==> r->Some_0@ == hex_bytes(s@),
{
    hex::decode(s).ok()
}

/// Draws a Poly1305 key with `sodiumoxide::crypto::onetimeauth::gen_key`
/// (libsodium's random bytes). Nothing is claimed about the key.
#[verifier::external_body]
pub(crate) fn onetimeauth_gen_key() -> (r: [u8; 32]) {
    sodiumoxide::crypto::onetimeauth::gen_key().0
}

/// The Poly1305 tag that libsodium computes for a message and key.
pub uninterp spec fn spec_onetimeauth(message: Seq<u8>, key: Seq<u8>) -> Seq<u8>;

/// Calls `sodiumoxide::crypto::onetimeauth::authenticate`, a function of the
/// message and the key alone.
#[verifier::external_body]
pub(crate) fn onetimeauth_authenticate(message: &[u8], key: &[u8; 32]) -> (r: [u8; 16])
    ensures
        r@ == spec_onetimeauth(message@, key@),
{
    sodiumoxide::crypto::onetimeauth::authenticate(
        message,
        &sodiumoxide::crypto::onetimeauth::Key(*key),
    ).0
}

/// Draws a Salsa20 key with `sodiumoxide::crypto::stream::salsa20::gen_key`.
/// Nothing is claimed about the key.
#[verifier::external_body]
pub(crate) fn salsa20_gen_key() -> (r: [u8; 32]) {
    sodiumoxide::crypto::stream::salsa20::gen_key().0
}

/// Draws the eight bytes of a Salsa20 nonce with
/// `sodiumoxide::randombytes::randombytes_into` (libsodium's random bytes;
/// sodiumoxide 0.2.7 has no `gen_nonce` for this cipher). Nothing is
/// claimed about the bytes.
#[verifier::external_body]
pub(crate) fn salsa20_gen_nonce() -> (r: [u8; 8]) {
    let mut n = [0u8; 8];
    sodiumoxide::randombytes::randombytes_into(&mut n);
    n
}

/// The first `len` bytes of the Salsa20 key stream for a nonce and key.
pub uninterp spec fn spec_salsa20_stream(len: nat, nonce: Seq<u8>, key: Seq<u8>) -> Seq<u8>;

/// Calls `sodiumoxide::crypto::stream::salsa20::stream`, whose source fills
/// a vector of `len` bytes with the key stream of the nonce and key.
#[verifier::external_body]
pub(crate) fn salsa20_stream(len: usize, nonce: &[u8; 8], key: &[u8; 32]) -> (r: Vec<u8>)
    ensures
        r@ == spec_salsa20_stream(len as nat, nonce@, key@),
        r@.len() == len,
{
    sodiumoxide::crypto::stream::salsa20::stream(
        len,
        &sodiumoxide::crypto::stream::salsa20::Nonce(*nonce),
        &sodiumoxide::crypto::stream::salsa20::Key(*key),
    )
}

/// What libsodium's `crypto_scalarmult_curve25519` gives for a scalar and a
/// point: `None` where it reports failure.
pub uninterp spec fn spec_crypto_scalarmult(n: Seq<u8>, p: Seq<u8>) -> Option<Seq<u8>>;

/// Calls `sodiumoxide::crypto::scalarmult::scalarmult`, a function of the
/// scalar and the point alone; its `Err(())` becomes `None`. libsodium's
/// `crypto_scalarmult_curve25519` computes X25519 (RFC 7748: the scalar
/// clamped, bit 255 of the point ignored, the point read modulo
/// 2^255 - 19) with either of its ladders, and reports failure when the
/// result is all zero; its ref10 ladder also refuses a list of small-order
/// points first. Which points are refused beyond an all-zero result is not
/// stated here.
#[verifier::external_body]
pub(crate) fn crypto_scalarmult(n: &[u8; 32], p: &[u8; 32]) -> (r: Option<[u8; 32]>)
    ensures
        r is Some <==> spec_crypto_scalarmult(n@, p@) is Some,
        r is Some ==> r->Some_0@ == spec_crypto_scalarmult(n@, p@)->Some_0,
        r is Some ==> r->Some_0@ == x25519_bytes(n@, p@),
        x25519_bytes(n@, p@) == Seq::new(32, |i: int| 0u8) ==> r is None,
{
    match sodiumoxide::crypto::scalarmult::scalarmult(
        &sodiumoxide::crypto::scalarmult::Scalar(*n),
        &sodiumoxide::crypto::scalarmult::GroupElement(*p),
    ) {
        Ok(q) => Some(q.0),
        Err(()) => None,
    }
}

/// A little-endian byte string without trailing zero bytes, except for the
/// single byte `0`: the shape of num-bigint's `to_bytes_le`.
pub open spec fn minimal_le(s: Seq<u8>) -> bool {
    s.len() >= 1 && (s.len() == 1 || s.last() != 0)
}

/// Multiplies two little-endian numbers with num-bigint (0.3):
/// `BigUint::from_bytes_le` on each operand, `BigUint * &BigUint`, then
/// `to_bytes_le`. The source of those functions gives the product's value
/// in minimal little-endian bytes (`[0]` for zero).
#[verifier::external_body]
pub(crate) fn biguint_mul_le(a: &[u8], b: &[u8]) -> (r: Vec<u8>)
    ensures
        le_value(r@) == le_value(a@) * le_value(b@),
        minimal_le(r@),
{
    (num_bigint::BigUint::from_bytes_le(a) * &num_bigint::BigUint::from_bytes_le(b)).to_bytes_le()
}

/// Reduces a little-endian number modulo another with num-bigint (0.3):
/// `BigUint::from_bytes_le`, `BigUint % BigUint` (which panics on a zero
/// modulus), then `to_bytes_le`.
#[verifier::external_body]
pub(crate) fn biguint_rem_le(a: &[u8], m: &[u8]) -> (r: Vec<u8>)
    requires
        le_value(m@) > 0,
    ensures
        le_value(r@) == le_value(a@) % le_value(m@),
        minimal_le(r@),
{
    (num_bigint::BigUint::from_bytes_le(a) % num_bigint::BigUint::from_bytes_le(m)).to_bytes_le()
}

/// Reads a big-endian `u64` from the start of `bytes` with byteorder's
/// `ReadBytesExt::read_u64::<BigEndian>` on a `std::io::Cursor`. Its source
/// fills eight bytes with `read_exact`, which fails when fewer remain, and
/// converts them with `u64::from_be_bytes`; the error is dropped.
#[verifier::external_body]
pub(crate) fn read_u64_be(bytes: &[u8]) -> (r: Option<u64>)
    ensures
        r is Some <==> bytes@.len() >= 8,
        r is Some ==> r->Some_0 == be_value(bytes@.take(8)),
{
    std::io::Cursor::new(bytes).read_u64::<byteorder::BigEndian>().ok()
}

/// What `String::from_utf8` gives for a byte string: the decoded
/// characters, or `None` for bytes that are not valid UTF-8.
pub uninterp spec fn spec_utf8_decode(bytes: Seq<u8>) -> Option<Seq<char>>;

/// Calls `String::from_utf8` (std), which accepts exactly the valid UTF-8
/// byte strings and decodes them; its documentation and UTF-8 give that
/// ASCII bytes decode one for one into the same characters. The error is
/// dropped.
#[verifier::external_body]
pub(crate) fn utf8_decode(bytes: Vec<u8>) -> (r: Option<String>)
    ensures
        r is Some <==> spec_utf8_decode(bytes@) is Some,
        r is Some ==> r->Some_0@ == spec_utf8_decode(bytes@)->Some_0,
        (forall|i: int| 0 <= i < bytes@.len() ==> #[trigger] bytes@[i] < 128) ==> (r is Some && r->Some_0@
            == bytes@.map_values(|b: u8| b as char)),
{
    String::from_utf8(bytes).ok()
}

} // verus!
