//! X25519 on top of the TweetNaCl field arithmetic, and the crypto_box
//! operations built on it.

use vstd::prelude::*;
use vstd::arithmetic::power::pow;
use crate::limbs::{le_value, le_encode, lemma_le_encode_value};
use crate::field::{
    two_256,
    Gf, gf_value, gf_reduced, limbs_bounded, mul_limit, carry_limit, prime, two_255, gf_add,
    gf_subtract, gf_multiply, gf_square, sel25519, unpack25519, inv25519, pack25519,
    lemma_reduced_bounded, lemma_mul_congruent,
};
use crate::primitives::{
    random_fill, core_hsalsa20, xsalsa20_sigma, secretbox_seal, secretbox_open, spec_core_hsalsa20,
    spec_sigma, spec_secretbox, spec_secretbox_open,
};

verus! {

/// The scalar after X25519 clamping: the low three bits cleared, bit 255
/// cleared and bit 254 set.
pub open spec fn clamp_scalar(k: Seq<u8>) -> Seq<u8> {
    k.update(31, (k[31] & 127u8) | 64u8).update(0, k[0] & 248u8)
}

/// Bit `i` of the little-endian integer held in `z`.
pub open spec fn scalar_bit(z: Seq<u8>, i: int) -> bool {
    ((z[i / 8] >> ((i % 8) as u8)) & 1u8) == 1u8
}

/// The u-coordinate that a 32-byte string encodes: its little-endian value
/// with bit 255 ignored.
pub open spec fn decode_u(u: Seq<u8>) -> int {
    le_value(u.take(32)) % two_255()
}

/// The constant (A - 2) / 4 = 121665 of Curve25519.
pub open spec fn a24() -> int {
    121665
}

/// Exchanges `(x2, z2)` with `(x3, z3)` when `bit` is set.
pub open spec fn cswap(st: (int, int, int, int), bit: bool) -> (int, int, int, int) {
    if bit {
        (st.2, st.3, st.0, st.1)
    } else {
        st
    }
}

/// The combined doubling and differential addition of RFC 7748, section 5,
/// on `(x2, z2, x3, z3)` with base u-coordinate `x1`, modulo 2^255 - 19.
pub open spec fn ladder_core(x1: int, st: (int, int, int, int)) -> (int, int, int, int) {
    let p = prime();
    let (x2, z2, x3, z3) = st;
    let a = (x2 + z2) % p;
    let aa = (a * a) % p;
    let b = (x2 - z2) % p;
    let bb = (b * b) % p;
    let e = (aa - bb) % p;
    let c = (x3 + z3) % p;
    let d = (x3 - z3) % p;
    let da = (d * a) % p;
    let cb = (c * b) % p;
    let sum = (da + cb) % p;
    let diff = (da - cb) % p;
    let nx3 = (sum * sum) % p;
    let nz3 = (x1 * ((diff * diff) % p)) % p;
    let nx2 = (aa * bb) % p;
    let nz2 = (e * ((aa + a24() * e) % p)) % p;
    (nx2, nz2, nx3, nz3)
}

/// One step of the Montgomery ladder: swap by the key bit, combine, swap back.
pub open spec fn ladder_step(x1: int, st: (int, int, int, int), bit: bool) -> (int, int, int, int) {
    cswap(ladder_core(x1, cswap(st, bit)), bit)
}

/// The ladder state after the `n` highest of the bits 254..0 of `z`.
pub open spec fn ladder(z: Seq<u8>, x1: int, n: nat) -> (int, int, int, int)
    decreases n,
{
    if n == 0 {
        (1, 0, x1 % prime(), 1)
    } else {
        ladder_step(x1, ladder(z, x1, (n - 1) as nat), scalar_bit(z, 255 - n))
    }
}

/// X25519(k, u) as an integer modulo 2^255 - 19: the clamped scalar `k`
/// times the point with u-coordinate `u`, projected back to x / z.
pub open spec fn x25519(k: Seq<u8>, u: Seq<u8>) -> int {
    let st = ladder(clamp_scalar(k), decode_u(u), 255);
    (st.0 * pow(st.1, (prime() - 2) as nat)) % prime()
}

/// `x` and `y` are the same element modulo 2^255 - 19.
pub open spec fn cong(x: int, y: int) -> bool {
    x % prime() == y % prime()
}

proof fn lemma_add_congruent(x: int, y: int, x2: int, y2: int)
    requires
        cong(x, x2),
        cong(y, y2),
    ensures
        cong(x + y, x2 + y2),
{
    vstd::arithmetic::div_mod::lemma_add_mod_noop(x, y, prime());
    vstd::arithmetic::div_mod::lemma_add_mod_noop(x2, y2, prime());
}

proof fn lemma_sub_congruent(x: int, y: int, x2: int, y2: int)
    requires
        cong(x, x2),
        cong(y, y2),
    ensures
        cong(x - y, x2 - y2),
{
    vstd::arithmetic::div_mod::lemma_sub_mod_noop(x, y, prime());
    vstd::arithmetic::div_mod::lemma_sub_mod_noop(x2, y2, prime());
}

proof fn lemma_cong_mod(x: int)
    ensures
        cong(x, x % prime()),
        0 <= x % prime() < prime(),
{
    vstd::arithmetic::div_mod::lemma_mod_twice(x, prime());
    vstd::arithmetic::div_mod::lemma_mod_bound(x, prime());
}

/// Sums and differences of reduced elements are fit for multiplication.
proof fn lemma_reduced_sum(a: Gf, b: Gf)
    requires
        gf_reduced(a),
        gf_reduced(b),
    ensures
        forall|i: int| 0 <= i < 16 ==> i64::MIN <= #[trigger] a[i] + b[i] <= i64::MAX,
        forall|i: int| 0 <= i < 16 ==> i64::MIN <= #[trigger] a[i] - b[i] <= i64::MAX,
{
}

proof fn lemma_sum_bounded(o: Gf, a: Gf, b: Gf, sign: int)
    requires
        gf_reduced(a),
        gf_reduced(b),
        sign == 1 || sign == -1,
        forall|i: int| 0 <= i < 16 ==> #[trigger] o[i] == a[i] + sign * b[i],
    ensures
        limbs_bounded(o, mul_limit()),
{
    assert forall|i: int| 0 <= i < 16 implies -mul_limit() <= #[trigger] o[i] <= mul_limit() by {
        assert(o[i] == a[i] + sign * b[i]);
    }
}

proof fn lemma_step_add(vo: int, vx: int, vy: int, x: int, y: int)
    requires
        vo == vx + vy,
        cong(vx, x),
        cong(vy, y),
    ensures
        cong(vo, (x + y) % prime()),
{
    lemma_add_congruent(vx, vy, x, y);
    lemma_cong_mod(x + y);
}

proof fn lemma_step_sub(vo: int, vx: int, vy: int, x: int, y: int)
    requires
        vo == vx - vy,
        cong(vx, x),
        cong(vy, y),
    ensures
        cong(vo, (x - y) % prime()),
{
    lemma_sub_congruent(vx, vy, x, y);
    lemma_cong_mod(x - y);
}

proof fn lemma_step_mul(vo: int, vx: int, vy: int, x: int, y: int)
    requires
        cong(vo, vx * vy),
        cong(vx, x),
        cong(vy, y),
    ensures
        cong(vo, (x * y) % prime()),
{
    lemma_mul_congruent(vx, vy, x, y);
    lemma_cong_mod(x * y);
}

/// The values that one pass of the ladder body computes are congruent to
/// the ladder step of RFC 7748.
proof fn lemma_ladder_body(
    x1: int,
    st: (int, int, int, int),
    a0: int, b0: int, c0: int, d0: int, x0: int,
    e1: int, a1: int, c1: int, b1: int, d1: int, f1: int, a2: int, c2: int, e2: int, a3: int,
    b2: int, c3: int, a4: int, a5: int, c4: int, a6: int, d2: int, b3: int,
)
    requires
        cong(a0, st.0),
        cong(c0, st.1),
        cong(b0, st.2),
        cong(d0, st.3),
        cong(x0, x1),
        e1 == a0 + c0,
        a1 == a0 - c0,
        c1 == b0 + d0,
        b1 == b0 - d0,
        cong(d1, e1 * e1),
        cong(f1, a1 * a1),
        cong(a2, c1 * a1),
        cong(c2, b1 * e1),
        e2 == a2 + c2,
        a3 == a2 - c2,
        cong(b2, a3 * a3),
        c3 == d1 - f1,
        cong(a4, c3 * 121665),
        a5 == a4 + d1,
        cong(c4, c3 * a5),
        cong(a6, d1 * f1),
        cong(d2, b2 * x0),
        cong(b3, e2 * e2),
    ensures
        cong(a6, ladder_core(x1, st).0),
        cong(c4, ladder_core(x1, st).1),
        cong(b3, ladder_core(x1, st).2),
        cong(d2, ladder_core(x1, st).3),
{
    let p = prime();
    let (x2, z2, x3, z3) = st;
    let a = (x2 + z2) % p;
    let aa = (a * a) % p;
    let b = (x2 - z2) % p;
    let bb = (b * b) % p;
    let e = (aa - bb) % p;
    let c = (x3 + z3) % p;
    let d = (x3 - z3) % p;
    let da = (d * a) % p;
    let cb = (c * b) % p;
    let sum = (da + cb) % p;
    let diff = (da - cb) % p;
    lemma_step_add(e1, a0, c0, x2, z2);
    lemma_step_sub(a1, a0, c0, x2, z2);
    lemma_step_add(c1, b0, d0, x3, z3);
    lemma_step_sub(b1, b0, d0, x3, z3);
    lemma_step_mul(d1, e1, e1, a, a);
    lemma_step_mul(f1, a1, a1, b, b);
    lemma_step_mul(a2, c1, a1, c, b);
    lemma_step_mul(c2, b1, e1, d, a);
    // e2 = cb + da
    lemma_step_add(e2, a2, c2, cb, da);
    assert((cb + da) % p == sum);
    // a3 = cb - da, squared equals diff squared
    lemma_step_sub(a3, a2, c2, cb, da);
    lemma_step_mul(b2, a3, a3, (cb - da) % p, (cb - da) % p);
    lemma_cong_mod(cb - da);
    lemma_cong_mod(da - cb);
    lemma_mul_congruent((cb - da) % p, (cb - da) % p, cb - da, cb - da);
    lemma_mul_congruent(diff, diff, da - cb, da - cb);
    assert((cb - da) * (cb - da) == (da - cb) * (da - cb)) by (nonlinear_arith);
    lemma_cong_mod(diff * diff);
    lemma_cong_mod(((cb - da) % p) * ((cb - da) % p));
    assert(cong(b2, (diff * diff) % p));
    // e = aa - bb
    lemma_step_sub(c3, d1, f1, aa, bb);
    // a4 = e * 121665, a5 = a4 + aa
    lemma_step_mul(a4, c3, 121665, e, 121665);
    lemma_step_add(a5, a4, d1, (e * 121665) % p, aa);
    lemma_cong_mod(e * 121665);
    lemma_add_congruent((e * 121665) % p, aa, e * 121665, aa);
    lemma_cong_mod(aa + a24() * e);
    lemma_cong_mod(((e * 121665) % p + aa) % p);
    assert(e * 121665 + aa == aa + a24() * e);
    assert(cong(a5, (aa + a24() * e) % p));
    lemma_step_mul(c4, c3, a5, e, (aa + a24() * e) % p);
    // x2' = aa * bb
    lemma_step_mul(a6, d1, f1, aa, bb);
    // z3' = x1 * diff^2
    lemma_step_mul(d2, b2, x0, (diff * diff) % p, x1);
    assert(((diff * diff) % p) * x1 == x1 * ((diff * diff) % p)) by (nonlinear_arith);
    // x3' = (da + cb)^2
    lemma_step_mul(b3, e2, e2, sum, sum);
}

/// The field element 121665 = 0xDB41 + 65536.
const C_121665: Gf = [0xDB41, 1, 0, 0, 0, 0, 0, 0, 0, 0, 0, 0, 0, 0, 0, 0];

/// The base point u = 9.
pub const C_9: [u8; 32] = [
    9, 0, 0, 0, 0, 0, 0, 0, 0, 0, 0, 0, 0, 0, 0, 0, 0, 0, 0, 0, 0, 0, 0, 0, 0, 0, 0, 0, 0, 0, 0, 0,
];

proof fn lemma_c_121665()
    ensures
        gf_value(C_121665) == 121665,
        gf_reduced(C_121665),
{
    crate::limbs::lemma_limbs_value_two(C_121665@);
}

/// Reads bit `i` of the clamped scalar.
fn scalar_bit_at(z: &[u8; 32], i: usize) -> (r: u8)
    requires
        i < 256,
    ensures
        r == 0 || r == 1,
        (r == 1) == scalar_bit(z@, i as int),
{
    let byte = z[i / 8];
    let sh = (i % 8) as u8;
    let r = (byte >> sh) & 1;
    proof {
        assert(((byte >> sh) & 1u8) == 0u8 || ((byte >> sh) & 1u8) == 1u8) by (bit_vector);
    }
    r
}

/// The 32-byte little-endian encoding of X25519(k, u).
pub open spec fn x25519_bytes(k: Seq<u8>, u: Seq<u8>) -> Seq<u8> {
    le_encode(x25519(k, u), 32)
}

/// X25519: multiplies the point with u-coordinate `p` by the clamped scalar
/// `n` and stores the u-coordinate of the result in `q`.
pub fn scalarmult(q: &mut [u8; 32], n: &[u8; 32], p: &[u8; 32])
    ensures
        final(q)@ == x25519_bytes(n@, p@),
        le_value(final(q)@) == x25519(n@, p@),
{
    let mut z = *n;
    let mut x: Gf = [0i64; 16];
    let mut a: Gf = [0i64; 16];
    let mut c = a;
    let mut d = a;
    let mut e = a;
    let mut f = a;
    z[31] = (n[31] & 127) | 64;
    z[0] &= 248;
    proof {
        assert(z@ =~= clamp_scalar(n@));
    }
    unpack25519(&mut x, p.as_slice());
    let mut b: Gf = [0i64; 16];
    for i in 0..16
        invariant
            forall|k: int| 0 <= k < i ==> #[trigger] b[k] == x[k],
    {
        b[i] = x[i];
    }
    a[0] = 1;
    d[0] = 1;
    let ghost x1 = gf_value(x);
    proof {
        assert(b =~= x);
        assert(x1 == decode_u(p@));
        assert(gf_reduced(x)) by {
            assert forall|k: int| 1 <= k < 16 implies 0 <= #[trigger] x[k] < 65536 by {
                if k < 15 {
                    assert(x[k] == p[2 * k] + 256 * p[2 * k + 1]);
                }
            }
        }
        crate::limbs::lemma_limbs_value_two(a@);
        crate::limbs::lemma_limbs_value_two(c@);
        crate::limbs::lemma_limbs_value_two(d@);
        assert(gf_value(a) == 1);
        assert(gf_value(d) == 1);
        assert(gf_value(c) == 0);
        lemma_cong_mod(x1);
        lemma_c_121665();
    }
    let mut i: usize = 255;
    while i > 0
        invariant
            i <= 255,
            x1 == gf_value(x),
            gf_reduced(x),
            gf_reduced(a),
            gf_reduced(b),
            gf_reduced(c),
            gf_reduced(d),
            gf_value(C_121665) == 121665,
            gf_reduced(C_121665),
            cong(gf_value(a), ladder(z@, x1, (255 - i) as nat).0),
            cong(gf_value(c), ladder(z@, x1, (255 - i) as nat).1),
            cong(gf_value(b), ladder(z@, x1, (255 - i) as nat).2),
            cong(gf_value(d), ladder(z@, x1, (255 - i) as nat).3),
        decreases i,
    {
        i = i - 1;
        let ghost st = ladder(z@, x1, (254 - i) as nat);
        let r = scalar_bit_at(&z, i);
        sel25519(&mut a, &mut b, r as isize);
        sel25519(&mut c, &mut d, r as isize);
        let ghost sw = cswap(st, r == 1);
        let ghost (a0, b0, c0, d0) = (gf_value(a), gf_value(b), gf_value(c), gf_value(d));
        let mut tmp: Gf = [0i64; 16];
        proof {
            lemma_reduced_sum(a, c);
            lemma_reduced_sum(b, d);
        }
        gf_add(&mut e, a, c);
        gf_subtract(&mut tmp, a, c);
        proof {
            lemma_sum_bounded(e, a, c, 1);
            lemma_sum_bounded(tmp, a, c, -1);
        }
        a = tmp;
        gf_add(&mut c, b, d);
        gf_subtract(&mut tmp, b, d);
        proof {
            lemma_sum_bounded(c, b, d, 1);
            lemma_sum_bounded(tmp, b, d, -1);
        }
        b = tmp;
        let ghost (e1, a1, c1, b1) = (gf_value(e), gf_value(a), gf_value(c), gf_value(b));
        gf_square(&mut d, e);
        gf_square(&mut f, a);
        gf_multiply(&mut tmp, c, a);
        a = tmp;
        gf_multiply(&mut c, b, e);
        let ghost (d1, f1, a2, c2) = (gf_value(d), gf_value(f), gf_value(a), gf_value(c));
        proof {
            lemma_reduced_sum(a, c);
        }
        gf_add(&mut e, a, c);
        gf_subtract(&mut tmp, a, c);
        proof {
            lemma_sum_bounded(e, a, c, 1);
            lemma_sum_bounded(tmp, a, c, -1);
        }
        a = tmp;
        let ghost (e2, a3) = (gf_value(e), gf_value(a));
        gf_square(&mut b, a);
        proof {
            lemma_reduced_sum(d, f);
        }
        gf_subtract(&mut c, d, f);
        proof {
            lemma_sum_bounded(c, d, f, -1);
            lemma_reduced_bounded(C_121665);
        }
        let ghost (b2, c3) = (gf_value(b), gf_value(c));
        gf_multiply(&mut a, c, C_121665);
        let ghost a4 = gf_value(a);
        proof {
            lemma_reduced_sum(a, d);
        }
        gf_add(&mut tmp, a, d);
        proof {
            lemma_sum_bounded(tmp, a, d, 1);
        }
        a = tmp;
        let ghost a5 = gf_value(a);
        gf_multiply(&mut tmp, c, a);
        c = tmp;
        proof {
            lemma_reduced_bounded(d);
            lemma_reduced_bounded(f);
            lemma_reduced_bounded(b);
            lemma_reduced_bounded(x);
        }
        gf_multiply(&mut a, d, f);
        gf_multiply(&mut d, b, x);
        gf_square(&mut b, e);
        proof {
            lemma_ladder_body(
                x1, sw, a0, b0, c0, d0, x1, e1, a1, c1, b1, d1, f1, a2, c2, e2, a3, b2, c3, a4,
                a5, gf_value(c), gf_value(a), gf_value(d), gf_value(b),
            );
        }
        sel25519(&mut a, &mut b, r as isize);
        sel25519(&mut c, &mut d, r as isize);
        proof {
            assert(ladder(z@, x1, (255 - i) as nat) == ladder_step(x1, st, scalar_bit(
                z@,
                i as int,
            )));
        }
    }
    // x2 * z2^(p - 2)
    let mut tmp: Gf = [0i64; 16];
    proof {
        lemma_reduced_bounded(c);
        lemma_reduced_bounded(a);
    }
    inv25519(&mut tmp, c);
    let ghost st = ladder(z@, x1, 255);
    let ghost ex = (prime() - 2) as nat;
    proof {
        vstd::arithmetic::power::lemma_pow_mod_noop(gf_value(c), ex, prime());
        vstd::arithmetic::power::lemma_pow_mod_noop(st.1, ex, prime());
        lemma_reduced_bounded(tmp);
    }
    let mut res: Gf = [0i64; 16];
    gf_multiply(&mut res, a, tmp);
    proof {
        lemma_mul_congruent(gf_value(a), gf_value(tmp), st.0, pow(st.1, ex));
        lemma_reduced_bounded(res);
        assert(limbs_bounded(res, carry_limit()));
    }
    pack25519(q, res);
    proof {
        lemma_le_encode_value(q@);
    }
}

/// X25519 with the base point u = 9: the public key of secret `n`.
pub fn scalarmult_base(q: &mut [u8; 32], n: &[u8; 32])
    ensures
        final(q)@ == x25519_bytes(n@, C_9@),
{
    scalarmult(q, n, &C_9)
}

pub const SECRET_KEY_LEN: usize = 32;

pub const PUBLIC_KEY_LEN: usize = 32;

pub const NONCE_LEN: usize = 24;

pub const ZERO_LEN: usize = 32;

pub const BOX_ZERO_LEN: usize = 16;

pub type BoxPublicKey = [u8; 32];

pub type BoxSecretKey = [u8; 32];

pub type BoxNonce = [u8; 24];

/// Sixteen zero bytes, the HSalsa20 input block for key derivation.
const C_0: [u8; 16] = [0, 0, 0, 0, 0, 0, 0, 0, 0, 0, 0, 0, 0, 0, 0, 0];

/// The shared key of `box_beforenm`: HSalsa20 of the X25519 shared secret.
pub open spec fn beforenm_key(public_key: Seq<u8>, secret_key: Seq<u8>) -> Seq<u8> {
    spec_core_hsalsa20(Seq::new(16, |i: int| 0u8), x25519_bytes(secret_key, public_key), spec_sigma())
}

/// Draws a random secret key and computes its public key.
pub fn box_keypair(public_key: &mut BoxPublicKey, secret_key: &mut BoxSecretKey)
    ensures
        final(public_key)@ == x25519_bytes(final(secret_key)@, C_9@),
{
    random_fill(secret_key);
    scalarmult_base(public_key, secret_key)
}

/// Derives the symmetric key shared by `secret_key` and `public_key`.
pub fn box_beforenm(key: &mut [u8; 32], public_key: &BoxPublicKey, secret_key: &BoxSecretKey)
    ensures
        final(key)@ == beforenm_key(public_key@, secret_key@),
{
    let mut s = [0u8; 32];
    scalarmult(&mut s, secret_key, public_key);
    let sigma = xsalsa20_sigma();
    core_hsalsa20(key, &C_0, &s, &sigma);
    proof {
        assert(C_0@ =~= Seq::new(16, |i: int| 0u8));
    }
}

/// Encrypts and authenticates `message` under a derived key.
pub fn box_afternm(cipher: &mut [u8], message: &[u8], nonce: &[u8; 24], key: &[u8; 32]) -> (r: Result<(), ()>)
    requires
        old(cipher)@.len() == message@.len(),
        message@.len() >= 32,
        forall|i: int| 0 <= i < 32 ==> message@[i] == 0,
    ensures
        r is Ok,
        final(cipher)@ == spec_secretbox(message@, nonce@, key@),
        forall|i: int| 0 <= i < 16 ==> #[trigger] final(cipher)@[i] == 0,
{
    secretbox_seal(cipher, message, nonce, key)
}

/// Verifies and decrypts `c` under a derived key.
pub fn box_open_afternm(m: &mut [u8], c: &[u8], n: &[u8; 24], k: &[u8; 32]) -> (r: Result<(), ()>)
    requires
        old(m)@.len() == c@.len(),
    ensures
        r is Ok <==> spec_secretbox_open(c@, n@, k@) is Some,
        r is Ok ==> final(m)@ == spec_secretbox_open(c@, n@, k@)->Some_0,
        r is Err ==> final(m)@ == old(m)@,
        forall|msg: Seq<u8>|
            c@ == #[trigger] spec_secretbox(msg, n@, k@) && msg.len() == c@.len() && msg.len() >= 32 && (forall|
                i: int,
            | 0 <= i < 32 ==> msg[i] == 0) ==> r is Ok && final(m)@ == msg,
{
    if secretbox_open(m, c, n, k) == false {
        Ok(())
    } else {
        Err(())
    }
}

/// crypto_box: encrypts `message` (whose first 32 bytes are zero) from the
/// holder of `sk` to the holder of `pk`.
pub fn box_(cipher: &mut [u8], message: &[u8], nonce: &BoxNonce, pk: &BoxPublicKey, sk: &BoxSecretKey) -> (r: Result<(), ()>)
    requires
        old(cipher)@.len() == message@.len(),
        message@.len() >= 32,
        forall|i: int| 0 <= i < 32 ==> message@[i] == 0,
    ensures
        r is Ok,
        final(cipher)@ == spec_secretbox(message@, nonce@, beforenm_key(pk@, sk@)),
        forall|i: int| 0 <= i < 16 ==> #[trigger] final(cipher)@[i] == 0,
{
    let mut k = [0u8; 32];
    box_beforenm(&mut k, pk, sk);
    box_afternm(cipher, message, nonce, &k)
}

/// crypto_box_open: verifies and decrypts `cipher` (whose first 16 bytes are
/// zero) sent by the holder of `sk`'s peer `pk`.
pub fn box_open(message: &mut [u8], cipher: &[u8], nonce: &BoxNonce, pk: &BoxPublicKey, sk: &BoxSecretKey) -> (r: Result<(), ()>)
    requires
        old(message)@.len() == cipher@.len(),
        cipher@.len() >= 16,
        forall|i: int| 0 <= i < 16 ==> cipher@[i] == 0,
    ensures
        r is Ok <==> spec_secretbox_open(cipher@, nonce@, beforenm_key(pk@, sk@)) is Some,
        r is Ok ==> final(message)@ == spec_secretbox_open(cipher@, nonce@, beforenm_key(pk@, sk@))->Some_0,
        r is Err ==> final(message)@ == old(message)@,
        forall|msg: Seq<u8>|
            cipher@ == #[trigger] spec_secretbox(msg, nonce@, beforenm_key(pk@, sk@)) && msg.len()
                == cipher@.len() && msg.len() >= 32 && (forall|i: int| 0 <= i < 32 ==> msg[i] == 0) ==> r is Ok
                && final(message)@ == msg,
{
    let mut k = [0u8; 32];
    box_beforenm(&mut k, pk, sk);
    box_open_afternm(message, cipher, nonce, &k)
}

/// Clamping a clamped scalar changes nothing.
pub proof fn lemma_clamp_idempotent(k: Seq<u8>)
    requires
        k.len() == 32,
    ensures
        clamp_scalar(clamp_scalar(k)) == clamp_scalar(k),
{
    let c = clamp_scalar(k);
    assert(c[0] & 248u8 == c[0]) by {
        let x = k[0];
        assert((x & 248u8) & 248u8 == x & 248u8) by (bit_vector);
    }
    assert((c[31] & 127u8) | 64u8 == c[31]) by {
        let x = k[31];
        assert((((x & 127u8) | 64u8) & 127u8) | 64u8 == (x & 127u8) | 64u8) by (bit_vector);
    }
    assert(clamp_scalar(c) =~= c);
}

/// X25519 reads only the clamped scalar: clamping the scalar first gives
/// the same result (RFC 7748, section 5).
pub proof fn lemma_x25519_clamped(k: Seq<u8>, u: Seq<u8>)
    requires
        k.len() == 32,
    ensures
        x25519(clamp_scalar(k), u) == x25519(k, u),
{
    lemma_clamp_idempotent(k);
}

/// X25519 ignores the top bit of the u-coordinate (RFC 7748, section 5):
/// flipping bit 255 gives the same result.
pub proof fn lemma_x25519_masks_top_bit(k: Seq<u8>, u: Seq<u8>)
    requires
        u.len() == 32,
    ensures
        x25519(k, u.update(31, u[31] ^ 128u8)) == x25519(k, u),
{
    let v = u.update(31, u[31] ^ 128u8);
    assert(v.take(32).drop_last() =~= u.take(32).drop_last());
    assert(u.take(32) =~= u);
    assert(v.take(32) =~= v);
    let w = crate::limbs::byte_pow(31);
    let x = u[31];
    let y = v[31];
    assert(y == x ^ 128u8);
    assert(y as int == x as int + 128 || y as int == x as int - 128) by {
        assert((x ^ 128u8) == x + 128 || (x ^ 128u8) == x - 128) by (bit_vector);
    }
    assert(le_value(v) == le_value(v.drop_last()) + y * w);
    assert(le_value(u) == le_value(u.drop_last()) + x * w);
    assert(v.drop_last() =~= u.drop_last());
    lemma_byte_pow_255();
    assert(le_value(v) == le_value(u) + two_255() || le_value(v) == le_value(u) - two_255()) by (nonlinear_arith)
        requires
            le_value(v) == le_value(u.drop_last()) + y * w,
            le_value(u) == le_value(u.drop_last()) + x * w,
            y == x + 128 || y == x - 128,
            128 * w == two_255(),
    ;
    vstd::arithmetic::div_mod::lemma_mod_add_multiples_vanish(le_value(u), two_255());
    vstd::arithmetic::div_mod::lemma_mod_sub_multiples_vanish(le_value(u), two_255());
}

proof fn lemma_byte_pow_255()
    ensures
        128 * crate::limbs::byte_pow(31) == two_255(),
{
    reveal_with_fuel(crate::limbs::byte_pow, 32);
}

/// Swapping twice by the same key bit restores the ladder state.
pub proof fn lemma_cswap_involution(st: (int, int, int, int), bit: bool)
    ensures
        cswap(cswap(st, bit), bit) == st,
{
}

/// X25519 yields a canonical field element, so its 32-byte encoding reads
/// back as the same integer.
pub proof fn lemma_x25519_canonical(k: Seq<u8>, u: Seq<u8>)
    ensures
        0 <= x25519(k, u) < prime(),
        le_value(x25519_bytes(k, u)) == x25519(k, u),
{
    let v = x25519(k, u);
    assert(0 <= v < prime());
    crate::field::lemma_two_256();
    reveal_with_fuel(crate::limbs::byte_pow, 33);
    assert(crate::limbs::byte_pow(32) == two_256());
    crate::limbs::lemma_le_value_encode(v, 32);
}

} // verus!