//! Arithmetic modulo 2^255 - 19 on sixteen signed radix-2^16 limbs.

use vstd::prelude::*;
use vstd::arithmetic::power::pow;
use crate::limbs::{
    base_pow, limbs_value, le_value, lemma_limbs_value_byte_pairs, lemma_limbs_value_first, lemma_limbs_value_update, lemma_limbs_value_digits,
    lemma_limbs_value_bound, lemma_base_pow_pos, lemma_base_pow_adds, lemma_limbs_value_take,
    lemma_limbs_value_append, lemma_limbs_value_zero,
};

verus! {

/// A 256-bit integer as sixteen little-endian radix-2^16 limbs.
pub type Gf = [i64; 16];

/// The field prime 2^255 - 19.
pub open spec fn prime() -> int {
    57896044618658097711785492504343953926634992332820282019728792003956564819949int
}

/// 2^256, the weight just above the sixteenth limb.
pub open spec fn two_256() -> int {
    115792089237316195423570985008687907853269984665640564039457584007913129639936int
}

/// The integer that a field element's limbs stand for.
pub open spec fn gf_value(g: Gf) -> int {
    limbs_value(g@)
}

/// Every limb lies in `[-b, b]`.
pub open spec fn limbs_bounded(g: Gf, b: int) -> bool {
    forall|i: int| 0 <= i < 16 ==> -b <= #[trigger] g[i] <= b
}

/// The shape that two carry passes leave: limbs 1..15 are digits and
/// limb 0 is a digit give or take 38.
pub open spec fn gf_reduced(g: Gf) -> bool {
    &&& -38 <= g[0] < 65536 + 38
    &&& forall|i: int| 1 <= i < 16 ==> 0 <= #[trigger] g[i] < 65536
}

/// The largest limb magnitude that a carry pass accepts.
pub open spec fn carry_limit() -> int {
    0x4000_0000_0000_0000
}

pub proof fn lemma_two_256()
    ensures
        base_pow(16) == two_256(),
        two_256() == 2 * prime() + 38,
        base_pow(15) * 65536 == two_256(),
{
    reveal_with_fuel(base_pow, 17);
}

pub proof fn lemma_shr16(x: i64)
    ensures
        x >> 16u64 == x / 65536,
{
    assert(x >> 16u64 == x / 65536) by (bit_vector);
}

pub proof fn lemma_shl16(c: i64)
    requires
        -0x7fff_0000_0000 <= c <= 0x7fff_0000_0000,
    ensures
        c << 16u64 == c * 65536,
{
    assert(c << 16u64 == c * 65536) by (bit_vector)
        requires
            -0x7fff_0000_0000 <= c <= 0x7fff_0000_0000,
    ;
}

/// Adds two 256-bit integers limb by limb.
pub fn gf_add(o: &mut Gf, a: Gf, b: Gf)
    requires
        forall|i: int| 0 <= i < 16 ==> i64::MIN <= #[trigger] a[i] + b[i] <= i64::MAX,
    ensures
        forall|i: int| 0 <= i < 16 ==> #[trigger] final(o)[i] == a[i] + b[i],
        gf_value(*final(o)) == gf_value(a) + gf_value(b),
{
    for i in 0..16
        invariant
            forall|k: int| 0 <= k < i ==> #[trigger] o[k] == a[k] + b[k],
            forall|k: int| 0 <= k < 16 ==> i64::MIN <= #[trigger] a[k] + b[k] <= i64::MAX,
    {
        assert(i64::MIN <= a[i as int] + b[i as int] <= i64::MAX);
        o[i] = a[i] + b[i];
    }
    proof {
        lemma_gf_value_pointwise(*o, a, b, 1);
    }
}

/// Subtracts two 256-bit integers limb by limb.
pub fn gf_subtract(o: &mut Gf, a: Gf, b: Gf)
    requires
        forall|i: int| 0 <= i < 16 ==> i64::MIN <= #[trigger] a[i] - b[i] <= i64::MAX,
    ensures
        forall|i: int| 0 <= i < 16 ==> #[trigger] final(o)[i] == a[i] - b[i],
        gf_value(*final(o)) == gf_value(a) - gf_value(b),
{
    for i in 0..16
        invariant
            forall|k: int| 0 <= k < i ==> #[trigger] o[k] == a[k] - b[k],
            forall|k: int| 0 <= k < 16 ==> i64::MIN <= #[trigger] a[k] - b[k] <= i64::MAX,
    {
        assert(i64::MIN <= a[i as int] - b[i as int] <= i64::MAX);
        o[i] = a[i] - b[i];
    }
    proof {
        lemma_gf_value_pointwise(*o, a, b, -1);
    }
}

/// The value of `a + sign * b` taken limb by limb.
pub proof fn lemma_gf_value_pointwise(o: Gf, a: Gf, b: Gf, sign: int)
    requires
        sign == 1 || sign == -1,
        forall|i: int| 0 <= i < 16 ==> #[trigger] o[i] == a[i] + sign * b[i],
    ensures
        gf_value(o) == gf_value(a) + sign * gf_value(b),
{
    lemma_limbs_value_pointwise(o@, a@, b@, sign);
}

proof fn lemma_limbs_value_pointwise(o: Seq<i64>, a: Seq<i64>, b: Seq<i64>, sign: int)
    requires
        sign == 1 || sign == -1,
        o.len() == a.len(),
        o.len() == b.len(),
        forall|i: int| 0 <= i < o.len() ==> #[trigger] o[i] == a[i] + sign * b[i],
    ensures
        limbs_value(o) == limbs_value(a) + sign * limbs_value(b),
    decreases o.len(),
{
    if o.len() > 0 {
        let (o1, a1, b1) = (o.drop_last(), a.drop_last(), b.drop_last());
        assert forall|i: int| 0 <= i < o1.len() implies #[trigger] o1[i] == a1[i] + sign * b1[i] by {
            assert(o1[i] == o[i] && a1[i] == a[i] && b1[i] == b[i]);
        }
        lemma_limbs_value_pointwise(o1, a1, b1, sign);
        let w = base_pow((o.len() - 1) as nat);
        assert(o.last() == a.last() + sign * b.last());
        assert(o.last() * w == a.last() * w + sign * (b.last() * w)) by (nonlinear_arith)
            requires
                o.last() == a.last() + sign * b.last(),
        ;
        assert(sign * limbs_value(b) == sign * limbs_value(b1) + sign * (b.last() * w))
            by (nonlinear_arith)
            requires
                limbs_value(b) == limbs_value(b1) + b.last() * w,
        ;
    }
}

/// The mask that `sel25519` builds from its flag: all ones for 1, zero for 0.
pub open spec fn swap_mask(b: isize) -> i64 {
    !((b - 1) as isize) as i64
}

/// Conditionally swaps two 256-bit integers, without branching on the flag.
pub fn sel25519(p: &mut Gf, q: &mut Gf, b: isize)
    requires
        b > isize::MIN,
    ensures
        forall|i: int| 0 <= i < 16 ==> #[trigger] final(p)[i] == old(p)[i] ^ (swap_mask(b) & (
        old(p)[i] ^ old(q)[i])),
        forall|i: int| 0 <= i < 16 ==> #[trigger] final(q)[i] == old(q)[i] ^ (swap_mask(b) & (
        old(p)[i] ^ old(q)[i])),
        b == 1 ==> *final(p) == *old(q) && *final(q) == *old(p),
        b == 0 ==> *final(p) == *old(p) && *final(q) == *old(q),
{
    let ghost p0 = *p;
    let ghost q0 = *q;
    let c: i64 = !(b - 1) as i64;
    for i in 0..16
        invariant
            c == swap_mask(b),
            forall|k: int| 0 <= k < i ==> #[trigger] p[k] == p0[k] ^ (c & (p0[k] ^ q0[k])),
            forall|k: int| 0 <= k < i ==> #[trigger] q[k] == q0[k] ^ (c & (p0[k] ^ q0[k])),
            forall|k: int| i <= k < 16 ==> #[trigger] p[k] == p0[k],
            forall|k: int| i <= k < 16 ==> #[trigger] q[k] == q0[k],
    {
        let t = c & (p[i] ^ q[i]);
        p[i] ^= t;
        q[i] ^= t;
    }
    proof {
        if b == 1 {
            assert(c == -1i64) by (bit_vector)
                requires
                    c == !((b - 1) as isize) as i64,
                    b == 1,
            ;
            assert forall|k: int| 0 <= k < 16 implies p[k] == q0[k] && q[k] == p0[k] by {
                let (x, y) = (p0[k], q0[k]);
                assert((x ^ (c & (x ^ y))) == y && (y ^ (c & (x ^ y))) == x) by (bit_vector)
                    requires
                        c == -1i64,
                ;
            }
            assert(*p =~= q0);
            assert(*q =~= p0);
        }
        if b == 0 {
            assert(c == 0i64) by (bit_vector)
                requires
                    c == !((b - 1) as isize) as i64,
                    b == 0,
            ;
            assert forall|k: int| 0 <= k < 16 implies p[k] == p0[k] && q[k] == q0[k] by {
                let (x, y) = (p0[k], q0[k]);
                assert((x ^ (c & (x ^ y))) == x && (y ^ (c & (x ^ y))) == y) by (bit_vector)
                    requires
                        c == 0i64,
                ;
            }
            assert(*p =~= p0);
            assert(*q =~= q0);
        }
    }
}

/// The value that one carry pass leaves: the low 256 bits, plus 38 times
/// what lay above them (since 2^256 = 38 modulo the prime).
pub open spec fn carried_value(v: int) -> int {
    v % two_256() + 38 * (v / two_256())
}

proof fn lemma_carry_bound(y: i64, c: i64)
    requires
        -0x4000_8000_0000_0000 <= y <= 0x4000_8000_0001_0000,
        c == y / 65536,
    ensures
        -0x4001_0000_0000 <= c <= 0x4001_0000_0000,
        0 <= y - c * 65536 < 65536,
{
    vstd::arithmetic::div_mod::lemma_fundamental_div_mod(y as int, 65536);
    vstd::arithmetic::div_mod::lemma_mod_bound(y as int, 65536);
}

/// One carry pass: brings limbs 1..15 into `[0, 65536)` and folds the carry
/// out of the top limb back into limb 0, times 38.
pub fn car25519(o: &mut Gf)
    requires
        limbs_bounded(*old(o), carry_limit()),
    ensures
        forall|i: int| 1 <= i < 16 ==> 0 <= #[trigger] final(o)[i] < 65536,
        0 <= final(o)[0] - 38 * (gf_value(*old(o)) / two_256()) < 65536,
        gf_value(*final(o)) == carried_value(gf_value(*old(o))),
        -0x4001_0000_0001 <= gf_value(*old(o)) / two_256() <= 0x4001_0000_0000,
{
    let ghost orig = *o;
    let ghost v0 = gf_value(*o);
    proof {
        lemma_two_256();
    }
    for i in 0..15
        invariant
            gf_value(*o) == v0,
            v0 == gf_value(orig),
            limbs_bounded(orig, carry_limit()),
            forall|k: int| 0 <= k < i ==> 0 <= #[trigger] o[k] < 65536,
            forall|k: int| i < k < 16 ==> #[trigger] o[k] == orig[k],
            -carry_limit() - 0x8000_0000_0000 <= o[i as int] <= carry_limit() + 0x8000_0000_0000,
    {
        let ghost before = *o;
        let x = o[i];
        o[i] = x + 65536;
        let c = o[i] >> 16;
        proof {
            lemma_shr16((x + 65536) as i64);
            lemma_carry_bound((x + 65536) as i64, c);
            lemma_shl16(c);
            assert(-carry_limit() <= orig[i + 1] <= carry_limit());
        }
        o[i + 1] = o[i + 1] + (c - 1);
        o[i] = o[i] - (c << 16);
        proof {
            let w = base_pow(i as nat);
            let mid = before@.update(i as int, (x + 65536 - c * 65536) as i64);
            lemma_limbs_value_update(before@, i as int, (x + 65536 - c * 65536) as i64);
            lemma_limbs_value_update(mid, i + 1, (before[i + 1] + c - 1) as i64);
            assert(o@ =~= mid.update(i + 1, (before[i + 1] + c - 1) as i64));
            assert(base_pow((i + 1) as nat) == 65536 * w);
            assert((65536 - c * 65536) * w + (c - 1) * (65536 * w) == 0) by (nonlinear_arith);
            assert(0 <= x + 65536 - c * 65536 < 65536);
        }
    }
    let ghost before = *o;
    let x = o[15];
    o[15] = x + 65536;
    let c = o[15] >> 16;
    proof {
        lemma_shr16((x + 65536) as i64);
        lemma_carry_bound((x + 65536) as i64, c);
        lemma_shl16(c);
    }
    o[0] = o[0] + (c - 1 + 37 * (c - 1));
    o[15] = o[15] - (c << 16);
    proof {
        let d15 = (x + 65536 - c * 65536) as i64;
        let d0 = before[0];
        let mid = before@.update(15, d15);
        lemma_limbs_value_update(before@, 15, d15);
        lemma_limbs_value_update(mid, 0, (d0 + 38 * (c - 1)) as i64);
        assert(o@ =~= mid.update(0, (d0 + 38 * (c - 1)) as i64));
        assert(base_pow(0) == 1);
        let w = base_pow(15);
        assert((65536 - c * 65536) * w == (1 - c) * two_256()) by (nonlinear_arith)
            requires
                w * 65536 == two_256(),
        ;
        // the digits alone
        lemma_limbs_value_digits(mid);
        let low = limbs_value(mid);
        assert(gf_value(*o) == low + 38 * (c - 1));
        assert(v0 == low + (c - 1) * two_256());
        vstd::arithmetic::div_mod::lemma_fundamental_div_mod_converse(v0, two_256(), c - 1, low);
    }
}

/// A carry pass keeps the value modulo the prime.
pub proof fn lemma_carried_value_mod(v: int)
    ensures
        carried_value(v) % prime() == v % prime(),
{
    lemma_two_256();
    let q = v / two_256();
    let r = v % two_256();
    vstd::arithmetic::div_mod::lemma_fundamental_div_mod(v, two_256());
    assert(carried_value(v) == prime() * (-2 * q) + v) by (nonlinear_arith)
        requires
            v == two_256() * q + r,
            carried_value(v) == r + 38 * q,
            two_256() == 2 * prime() + 38,
    ;
    vstd::arithmetic::div_mod::lemma_mod_multiples_vanish(-2 * q, v, prime());
}

/// The largest limb magnitude that `gf_multiply` accepts.
pub open spec fn mul_limit() -> int {
    0x200_0000
}

/// Limbs that are reduced are within the multiplication bound.
pub proof fn lemma_reduced_bounded(g: Gf)
    requires
        gf_reduced(g),
    ensures
        limbs_bounded(g, mul_limit()),
        limbs_bounded(g, 65574),
{
}

/// Two carry passes, the first over an element whose value is below
/// 2^302 in magnitude, leave a reduced element.
proof fn lemma_two_carries(v: int, g1: Gf, g2: Gf)
    requires
        -0x4001_0000_0001 <= v / two_256() <= 0x4001_0000_0000,
        forall|i: int| 1 <= i < 16 ==> 0 <= #[trigger] g1[i] < 65536,
        0 <= g1[0] - 38 * (v / two_256()) < 65536,
        gf_value(g1) == carried_value(v),
        forall|i: int| 1 <= i < 16 ==> 0 <= #[trigger] g2[i] < 65536,
        0 <= g2[0] - 38 * (gf_value(g1) / two_256()) < 65536,
        gf_value(g2) == carried_value(gf_value(g1)),
    ensures
        limbs_bounded(g1, carry_limit()),
        gf_reduced(g2),
        gf_value(g2) % prime() == v % prime(),
{
    lemma_two_256();
    let q = v / two_256();
    vstd::arithmetic::div_mod::lemma_fundamental_div_mod(v, two_256());
    vstd::arithmetic::div_mod::lemma_mod_bound(v, two_256());
    assert(-0x4_0000_0000_0000 <= q <= 0x4_0000_0000_0000);
    let v1 = gf_value(g1);
    let q1 = v1 / two_256();
    vstd::arithmetic::div_mod::lemma_fundamental_div_mod(v1, two_256());
    vstd::arithmetic::div_mod::lemma_mod_bound(v1, two_256());
    assert(-1 <= q1 <= 1) by (nonlinear_arith)
        requires
            v1 == v % two_256() + 38 * q,
            0 <= v % two_256() < two_256(),
            -0x4_0000_0000_0000 <= q <= 0x4_0000_0000_0000,
            v1 == two_256() * q1 + v1 % two_256(),
            0 <= v1 % two_256() < two_256(),
            two_256() == 2 * prime() + 38,
            prime() > 0x1_0000_0000_0000_0000,
    ;
    lemma_carried_value_mod(v);
    lemma_carried_value_mod(v1);
}

/// How large limb `k` of the schoolbook product can be after `i` full rows
/// and `j` steps of the next one.
spec fn row_bound(i: int, j: int, k: int) -> int {
    i * 0x4_0000_0000_0000 + if i <= k < i + j {
        0x4_0000_0000_0000int
    } else {
        0int
    }
}

/// Multiplies modulo 2^255 - 19: schoolbook product, fold of the upper half
/// times 38, then two carry passes.
pub fn gf_multiply(o: &mut Gf, a: Gf, b: Gf)
    requires
        limbs_bounded(a, mul_limit()),
        limbs_bounded(b, mul_limit()),
    ensures
        gf_reduced(*final(o)),
        gf_value(*final(o)) % prime() == (gf_value(a) * gf_value(b)) % prime(),
{
    let mut t = [0i64; 31];
    proof {
        assert(limbs_value(a@.take(0)) == 0);
        lemma_limbs_value_zero(t@);
    }
    for i in 0..16
        invariant
            limbs_bounded(a, mul_limit()),
            limbs_bounded(b, mul_limit()),
            limbs_value(t@) == limbs_value(a@.take(i as int)) * gf_value(b),
            forall|k: int| 0 <= k < 31 ==> -(i as int) * 0x4_0000_0000_0000 <= #[trigger] t[k] <= (i as int) * 0x4_0000_0000_0000,
    {
        proof {
            assert(limbs_value(b@.take(0)) == 0);
        }
        for j in 0..16
            invariant
                0 <= i < 16,
                limbs_bounded(a, mul_limit()),
                limbs_bounded(b, mul_limit()),
                limbs_value(t@) == limbs_value(a@.take(i as int)) * gf_value(b) + a[i as int]
                    * base_pow(i as nat) * limbs_value(b@.take(j as int)),
                forall|k: int|
                    0 <= k < 31 ==> -row_bound(i as int, j as int, k) <= #[trigger] t[k]
                        <= row_bound(i as int, j as int, k),
        {
            let ghost before = t;
            let x = a[i];
            let y = b[j];
            proof {
                assert(-mul_limit() <= x <= mul_limit());
                assert(-mul_limit() <= y <= mul_limit());
                assert(-0x4_0000_0000_0000 <= x * y <= 0x4_0000_0000_0000) by (nonlinear_arith)
                    requires
                        -0x200_0000 <= x <= 0x200_0000,
                        -0x200_0000 <= y <= 0x200_0000,
                ;
                assert(-row_bound(i as int, j as int, (i + j) as int) <= before[(i + j) as int]
                    <= row_bound(i as int, j as int, (i + j) as int));
            }
            t[i + j] = t[i + j] + x * y;
            proof {
                lemma_limbs_value_update(before@, (i + j) as int, t[(i + j) as int]);
                assert(t@ =~= before@.update((i + j) as int, t[(i + j) as int]));
                lemma_base_pow_adds(i as nat, j as nat);
                lemma_limbs_value_take(b@, j as int);
                let wi = base_pow(i as nat);
                let wj = base_pow(j as nat);
                let bj = limbs_value(b@.take(j as int));
                assert(x * wi * (bj + y * wj) == x * wi * bj + x * y * (wi * wj)) by (nonlinear_arith);
            }
        }
        proof {
            assert(b@.take(16) =~= b@);
            lemma_limbs_value_take(a@, i as int);
            let wi = base_pow(i as nat);
            let ai = limbs_value(a@.take(i as int));
            assert((ai + a[i as int] * wi) * gf_value(b) == ai * gf_value(b) + a[i as int] * wi * gf_value(b))
                by (nonlinear_arith);
        }
    }
    proof {
        assert(a@.take(16) =~= a@);
    }
    let ghost t0 = t;
    proof {
        assert(limbs_value(t0@.skip(16).take(0)) == 0);
    }
    for i in 0..15
        invariant
            forall|k: int| 0 <= k < 31 ==> -0x40_0000_0000_0000 <= #[trigger] t0[k] <= 0x40_0000_0000_0000,
            forall|k: int| 0 <= k < i ==> -0x1000_0000_0000_0000 <= #[trigger] t[k] <= 0x1000_0000_0000_0000,
            forall|k: int| i <= k < 31 ==> #[trigger] t[k] == t0[k],
            limbs_value(t@.take(16)) == limbs_value(t0@.take(16)) + 38 * limbs_value(
                t0@.skip(16).take(i as int),
            ),
    {
        let ghost before = t;
        proof {
            assert(t[(i + 16) as int] == t0[(i + 16) as int]);
            assert(t[i as int] == t0[i as int]);
        }
        t[i] = t[i] + 38 * t[i + 16];
        proof {
            lemma_limbs_value_update(before@.take(16), i as int, t[i as int]);
            assert(t@.take(16) =~= before@.take(16).update(i as int, t[i as int]));
            lemma_limbs_value_take(t0@.skip(16), i as int);
            assert(t0@.skip(16)[i as int] == t0[(i + 16) as int]);
            let y = t0[(i + 16) as int];
            let w = base_pow(i as nat);
            assert((t[i as int] - before@.take(16)[i as int]) * w == 38 * (y * w)) by (nonlinear_arith)
                requires
                    t[i as int] - before@.take(16)[i as int] == 38 * y,
            ;
        }
    }
    let ghost v = limbs_value(t@.take(16));
    proof {
        assert(t0@.skip(16).take(15) =~= t0@.skip(16));
        assert(t0@ =~= t0@.take(16) + t0@.skip(16));
        lemma_limbs_value_append(t0@.take(16), t0@.skip(16));
        lemma_two_256();
        let s = limbs_value(t0@.skip(16));
        let l = limbs_value(t0@.take(16));
        assert(v == prime() * (-2 * s) + limbs_value(t0@)) by (nonlinear_arith)
            requires
                v == l + 38 * s,
                limbs_value(t0@) == l + base_pow(16) * s,
                base_pow(16) == 2 * prime() + 38,
        ;
        vstd::arithmetic::div_mod::lemma_mod_multiples_vanish(-2 * s, limbs_value(t0@), prime());
    }
    for i in 0..16
        invariant
            forall|k: int| 0 <= k < i ==> #[trigger] o[k] == t[k],
    {
        o[i] = t[i];
    }
    proof {
        assert(o@ =~= t@.take(16));
        assert forall|k: int| 0 <= k < 16 implies -carry_limit() <= #[trigger] o[k] <= carry_limit() by {
            if k == 15 {
                assert(o[15] == t0[15]);
            }
        }
        lemma_two_256();
    }
    let ghost g0 = *o;
    car25519(o);
    let ghost g1 = *o;
    proof {
        lemma_two_carries_first(gf_value(g0), g1);
    }
    car25519(o);
    proof {
        lemma_two_carries(gf_value(g0), g1, *o);
    }
}

proof fn lemma_two_carries_first(v: int, g1: Gf)
    requires
        -0x4001_0000_0001 <= v / two_256() <= 0x4001_0000_0000,
        forall|i: int| 1 <= i < 16 ==> 0 <= #[trigger] g1[i] < 65536,
        0 <= g1[0] - 38 * (v / two_256()) < 65536,
    ensures
        limbs_bounded(g1, carry_limit()),
{
    lemma_two_256();
    let q = v / two_256();
    vstd::arithmetic::div_mod::lemma_fundamental_div_mod(v, two_256());
    vstd::arithmetic::div_mod::lemma_mod_bound(v, two_256());
    assert(-0x4_0000_0000_0000 <= q <= 0x4_0000_0000_0000);
}

/// Constant-time comparison: zero when the two byte strings are equal,
/// -1 when they differ (TweetNaCl's `(1 & ((d - 1) >> 8)) - 1`, read as a
/// signed integer).
fn vn(x: &[u8], y: &[u8]) -> (r: isize)
    requires
        x.len() == y.len(),
    ensures
        r == (if x@ == y@ { 0isize } else { -1isize }),
{
    let mut d = 0u32;
    for i in 0..x.len()
        invariant
            x.len() == y.len(),
            d < 256,
            d == 0 <==> forall|k: int| 0 <= k < i ==> x@[k] == y@[k],
    {
        let z = (x[i] ^ y[i]) as u32;
        let ghost d0 = d;
        proof {
            let (a, b) = (x@[i as int], y@[i as int]);
            assert(((a ^ b) as u32) < 256 && (((a ^ b) as u32 == 0) <==> a == b)) by (bit_vector);
            assert((d0 | z) < 256 && ((d0 | z) == 0 <==> (d0 == 0 && z == 0))) by (bit_vector)
                requires
                    d0 < 256,
                    z < 256,
            ;
        }
        d |= z;
    }
    let dm = d.wrapping_sub(1);
    let r = (1u32 & (dm >> 8u32)).wrapping_sub(1);
    proof {
        if d == 0 {
            assert(x@ =~= y@);
            assert(dm == 0xffff_ffffu32);
            assert((1u32 & (0xffff_ffffu32 >> 8u32)) == 1) by (bit_vector);
            assert(r == 0);
        } else {
            assert(x@ != y@) by {
                if x@ == y@ {
                    assert forall|k: int| 0 <= k < x.len() implies x@[k] == y@[k] by {}
                }
            }
            assert(dm == d - 1);
            assert((dm >> 8u32) == 0) by (bit_vector)
                requires
                    dm < 255,
            ;
            assert((1u32 & 0u32) == 0) by (bit_vector);
            assert(r == 0xffff_ffffu32);
        }
        assert((0xffff_ffffu32 as i32) == -1i32) by (bit_vector);
        assert((0u32 as i32) == 0i32) by (bit_vector);
    }
    #[verifier::truncate]
    let signed = r as i32;
    signed as isize
}

/// Compares two 16-byte strings in constant time.
pub fn verify_16(x: &[u8; 16], y: &[u8; 16]) -> (r: bool)
    ensures
        r == (x@ == y@),
{
    let d = vn(x.as_slice(), y.as_slice());
    d == 0
}

/// Compares two 32-byte strings in constant time.
pub fn verify_32(x: &[u8; 32], y: &[u8; 32]) -> (r: bool)
    ensures
        r == (x@ == y@),
{
    let d = vn(x.as_slice(), y.as_slice());
    d == 0
}

/// 2^255, the bound below which `unpack25519` reads an integer.
pub open spec fn two_255() -> int {
    57896044618658097711785492504343953926634992332820282019728792003956564819968int
}

/// Loads the first 32 bytes as a little-endian integer, dropping bit 255.
pub fn unpack25519(o: &mut Gf, n: &[u8])
    requires
        n.len() >= 32,
    ensures
        forall|i: int| 0 <= i < 15 ==> #[trigger] final(o)[i] == n[2 * i] + 256 * n[2 * i + 1],
        final(o)[15] == n[30] + 256 * (n[31] % 128),
        gf_value(*final(o)) == le_value(n@.take(32)) % two_255(),
{
    for i in 0..16
        invariant
            n.len() >= 32,
            forall|k: int| 0 <= k < i ==> #[trigger] o[k] == n[2 * k] + 256 * n[2 * k + 1],
    {
        let lo = n[2 * i] as i64;
        let hi = n[2 * i + 1] as i64;
        proof {
            assert(hi << 8u64 == hi * 256) by (bit_vector)
                requires
                    0 <= hi < 256,
            ;
        }
        o[i] = lo + (hi << 8);
    }
    let ghost full = *o;
    let ghost top = n[31];
    o[15] &= 0x7fff;
    proof {
        let lo = n@[30] as i64;
        let hi = top as i64;
        assert((((lo + hi * 256) as i64) & 0x7fffi64) == lo + (hi % 128) * 256) by (bit_vector)
            requires
                0 <= lo < 256,
                0 <= hi < 256,
        ;
        lemma_two_256();
        lemma_limbs_value_byte_pairs(full@, n@.take(32));
        lemma_limbs_value_update(full@, 15, o[15]);
        assert(o@ =~= full@.update(15, o[15]));
        // the masked limbs stay below 2^255
        let low = o@.take(15);
        assert forall|k: int| 0 <= k < 15 implies 0 <= #[trigger] low[k] < 65536 by {
            assert(low[k] == o[k]);
        }
        lemma_limbs_value_digits(low);
        assert(o@.take(15) + seq![o[15]] =~= o@);
        crate::limbs::lemma_limbs_value_append(low, seq![o[15]]);
        crate::limbs::lemma_limbs_value_single(o[15]);
        let w = base_pow(15);
        assert(w * 65536 == two_256());
        let v = gf_value(*o);
        assert(0 <= v < two_255()) by (nonlinear_arith)
            requires
                v == limbs_value(low) + w * o[15],
                0 <= limbs_value(low) < w,
                0 <= o[15] < 32768,
                w * 65536 == two_256(),
                two_256() == 2 * two_255(),
        ;
        assert(le_value(n@.take(32)) == v + (hi / 128) * two_255()) by (nonlinear_arith)
            requires
                le_value(n@.take(32)) == gf_value(full),
                gf_value(*o) == gf_value(full) + (o[15] - full[15]) * w,
                full[15] == lo + 256 * hi,
                o[15] == lo + (hi % 128) * 256,
                v == gf_value(*o),
                0 <= hi < 256,
                hi == (hi / 128) * 128 + hi % 128,
                w * 65536 == two_256(),
                two_256() == 2 * two_255(),
        ;
        vstd::arithmetic::div_mod::lemma_fundamental_div_mod_converse(
            le_value(n@.take(32)),
            two_255(),
            hi / 128,
            v,
        );
    }
}

/// Squares modulo 2^255 - 19.
pub fn gf_square(o: &mut Gf, a: Gf)
    requires
        limbs_bounded(a, mul_limit()),
    ensures
        gf_reduced(*final(o)),
        gf_value(*final(o)) % prime() == (gf_value(a) * gf_value(a)) % prime(),
{
    gf_multiply(o, a, a);
}

/// `2^n`.
pub open spec fn two_pow(n: nat) -> int
    decreases n,
{
    if n == 0 {
        1
    } else {
        2 * two_pow((n - 1) as nat)
    }
}

proof fn lemma_two_pow_adds(a: nat, b: nat)
    ensures
        two_pow(a + b) == two_pow(a) * two_pow(b),
    decreases b,
{
    if b > 0 {
        lemma_two_pow_adds(a, (b - 1) as nat);
        assert(two_pow(a + b) == 2 * two_pow((a + b - 1) as nat));
        assert(two_pow(a) * (2 * two_pow((b - 1) as nat)) == 2 * (two_pow(a) * two_pow(
            (b - 1) as nat,
        ))) by (nonlinear_arith);
    }
}

proof fn lemma_two_pow_base(k: nat)
    ensures
        two_pow(16 * k) == base_pow(k),
    decreases k,
{
    if k > 0 {
        lemma_two_pow_base((k - 1) as nat);
        lemma_two_pow_adds(16 * ((k - 1) as nat), 16);
        assert(16 * ((k - 1) as nat) + 16 == 16 * k);
        assert(two_pow(16) == 65536) by {
            reveal_with_fuel(two_pow, 17);
        }
    }
}

pub proof fn lemma_two_pow_255()
    ensures
        two_pow(255) == two_255(),
        two_pow(256) == two_256(),
        prime() == two_pow(255) - 19,
{
    lemma_two_pow_base(16);
    lemma_two_256();
}

/// The exponent that `inv25519` has raised its input to after `n` steps of
/// square-and-multiply; step `n` handles bit `254 - n` of 2^255 - 21.
pub open spec fn inv_exponent(n: nat) -> nat
    decreases n,
{
    if n == 0 {
        1
    } else {
        let a = 254 - n;
        (2 * inv_exponent((n - 1) as nat) + if a != 2 && a != 4 {
            1nat
        } else {
            0nat
        }) as nat
    }
}

proof fn lemma_inv_exponent_ones(n: nat)
    requires
        n <= 249,
    ensures
        inv_exponent(n) == two_pow(n + 1) - 1,
    decreases n,
{
    if n > 0 {
        lemma_inv_exponent_ones((n - 1) as nat);
        assert(two_pow(n + 1) == 2 * two_pow(n));
    } else {
        assert(two_pow(0) == 1);
        assert(two_pow(1) == 2 * two_pow(0));
    }
}

/// All 254 steps raise to 2^255 - 21, that is p - 2.
pub proof fn lemma_inv_exponent_final()
    ensures
        inv_exponent(254) == prime() - 2,
{
    lemma_inv_exponent_ones(249);
    assert(inv_exponent(250) == two_pow(251) - 2);
    assert(inv_exponent(251) == two_pow(252) - 3);
    assert(inv_exponent(252) == two_pow(253) - 6);
    assert(inv_exponent(253) == two_pow(254) - 11);
    assert(inv_exponent(254) == two_pow(255) - 21);
    lemma_two_pow_255();
}

/// Congruent factors give congruent products.
pub proof fn lemma_mul_congruent(x: int, y: int, x2: int, y2: int)
    requires
        x % prime() == x2 % prime(),
        y % prime() == y2 % prime(),
    ensures
        (x * y) % prime() == (x2 * y2) % prime(),
{
    vstd::arithmetic::div_mod::lemma_mul_mod_noop(x, y, prime());
    vstd::arithmetic::div_mod::lemma_mul_mod_noop(x2, y2, prime());
}

/// Raises to the power 2^255 - 21, the inverse modulo 2^255 - 19 of a
/// non-zero element.
pub fn inv25519(o: &mut Gf, i: Gf)
    requires
        limbs_bounded(i, mul_limit()),
    ensures
        gf_reduced(*final(o)),
        gf_value(*final(o)) % prime() == pow(gf_value(i), (prime() - 2) as nat) % prime(),
{
    let ghost v = gf_value(i);
    let mut c: Gf = [0i64; 16];
    for a in 0..16
        invariant
            forall|k: int| 0 <= k < a ==> #[trigger] c[k] == i[k],
    {
        c[a] = i[a];
    }
    proof {
        assert(c =~= i);
        vstd::arithmetic::power::lemma_pow1(v);
    }
    let mut a: usize = 254;
    while a > 0
        invariant
            a <= 254,
            v == gf_value(i),
            limbs_bounded(i, mul_limit()),
            limbs_bounded(c, mul_limit()),
            a < 254 ==> gf_reduced(c),
            gf_value(c) % prime() == pow(v, inv_exponent((254 - a) as nat)) % prime(),
        decreases a,
    {
        a = a - 1;
        let ghost e = inv_exponent((253 - a) as nat);
        let ghost cv = gf_value(c);
        let mut tmp: Gf = [0i64; 16];
        gf_square(&mut tmp, c);
        proof {
            vstd::arithmetic::power::lemma_pow_adds(v, e, e);
            lemma_mul_congruent(cv, cv, pow(v, e), pow(v, e));
            lemma_reduced_bounded(tmp);
            assert(gf_value(tmp) % prime() == pow(v, 2 * e) % prime());
        }
        if a != 2 && a != 4 {
            gf_multiply(&mut c, tmp, i);
            proof {
                vstd::arithmetic::power::lemma_pow_adds(v, 2 * e, 1);
                vstd::arithmetic::power::lemma_pow1(v);
                lemma_mul_congruent(gf_value(tmp), v, pow(v, 2 * e), v);
                assert(inv_exponent((254 - a) as nat) == 2 * e + 1);
            }
        } else {
            c = tmp;
            proof {
                assert(inv_exponent((254 - a) as nat) == 2 * e);
            }
        }
        proof {
            lemma_reduced_bounded(c);
        }
    }
    for k in 0..16
        invariant
            forall|m: int| 0 <= m < k ==> #[trigger] o[m] == c[m],
    {
        o[k] = c[k];
    }
    proof {
        assert(*o =~= c);
        lemma_inv_exponent_final();
    }
}

/// The limbs of the prime 2^255 - 19 in radix 2^16.
pub open spec fn prime_limb(i: int) -> int {
    if i == 0 {
        0xffed
    } else if i == 15 {
        0x7fff
    } else {
        0xffff
    }
}

/// The value of the lowest `i` limbs of the prime.
pub open spec fn prime_prefix(i: nat) -> int
    decreases i,
{
    if i == 0 {
        0
    } else {
        prime_prefix((i - 1) as nat) + prime_limb(i - 1) * base_pow((i - 1) as nat)
    }
}

proof fn lemma_prime_prefix_full()
    ensures
        prime_prefix(16) == prime(),
{
    reveal_with_fuel(prime_prefix, 17);
    reveal_with_fuel(base_pow, 17);
}

/// All sixteen limbs are digits in `[0, 65536)`.
pub open spec fn gf_digits(g: Gf) -> bool {
    forall|i: int| 0 <= i < 16 ==> 0 <= #[trigger] g[i] < 65536
}

proof fn lemma_borrow_bits(x: i64)
    requires
        -65536 <= x < 65536,
    ensures
        ((x >> 16u64) & 1i64) == (if x < 0 { 1i64 } else { 0i64 }),
        (x & 0xffffi64) == (if x < 0 { x + 65536 } else { x as int }),
{
    assert(((x >> 16u64) & 1i64) == (if x < 0 { 1i64 } else { 0i64 })) by (bit_vector)
        requires
            -65536 <= x < 65536,
    ;
    assert((x & 0xffffi64) == (if x < 0 { (x + 65536) as i64 } else { x })) by (bit_vector)
        requires
            -65536 <= x < 65536,
    ;
}

/// Three carry passes over limbs bounded by 2^62 leave sixteen digits whose
/// value lies in `[0, 2^256)` and is congruent to the input.
proof fn lemma_three_carries(g0: Gf, g1: Gf, g2: Gf, g3: Gf)
    requires
        forall|i: int| 1 <= i < 16 ==> 0 <= #[trigger] g1[i] < 65536,
        0 <= g1[0] - 38 * (gf_value(g0) / two_256()) < 65536,
        gf_value(g1) == carried_value(gf_value(g0)),
        -0x4001_0000_0001 <= gf_value(g0) / two_256() <= 0x4001_0000_0000,
        forall|i: int| 1 <= i < 16 ==> 0 <= #[trigger] g2[i] < 65536,
        0 <= g2[0] - 38 * (gf_value(g1) / two_256()) < 65536,
        gf_value(g2) == carried_value(gf_value(g1)),
        forall|i: int| 1 <= i < 16 ==> 0 <= #[trigger] g3[i] < 65536,
        0 <= g3[0] - 38 * (gf_value(g2) / two_256()) < 65536,
        gf_value(g3) == carried_value(gf_value(g2)),
    ensures
        limbs_bounded(g1, carry_limit()),
        limbs_bounded(g2, carry_limit()),
        gf_digits(g3),
        0 <= gf_value(g3) < two_256(),
        gf_value(g3) % prime() == gf_value(g0) % prime(),
{
    lemma_two_256();
    let (v0, v1, v2, v3) = (gf_value(g0), gf_value(g1), gf_value(g2), gf_value(g3));
    let (q0, q1, q2) = (v0 / two_256(), v1 / two_256(), v2 / two_256());
    vstd::arithmetic::div_mod::lemma_fundamental_div_mod(v0, two_256());
    vstd::arithmetic::div_mod::lemma_mod_bound(v0, two_256());
    vstd::arithmetic::div_mod::lemma_fundamental_div_mod(v1, two_256());
    vstd::arithmetic::div_mod::lemma_mod_bound(v1, two_256());
    vstd::arithmetic::div_mod::lemma_fundamental_div_mod(v2, two_256());
    vstd::arithmetic::div_mod::lemma_mod_bound(v2, two_256());
    assert(-1 <= q1 <= 1) by (nonlinear_arith)
        requires
            v1 == v0 % two_256() + 38 * q0,
            0 <= v0 % two_256() < two_256(),
            -0x4001_0000_0001 <= q0 <= 0x4001_0000_0000,
            v1 == two_256() * q1 + v1 % two_256(),
            0 <= v1 % two_256() < two_256(),
            two_256() > 0x1_0000_0000_0000_0000,
    ;
    assert(-1 <= q2 <= 1) by (nonlinear_arith)
        requires
            v2 == v1 % two_256() + 38 * q1,
            0 <= v1 % two_256() < two_256(),
            -1 <= q1 <= 1,
            v2 == two_256() * q2 + v2 % two_256(),
            0 <= v2 % two_256() < two_256(),
            two_256() > 0x1_0000_0000_0000_0000,
    ;
    // limb 0 of the third pass is a digit too
    crate::limbs::lemma_limbs_value_first(g3@);
    let rest = g3@.drop_first();
    assert forall|k: int| 0 <= k < rest.len() implies 0 <= #[trigger] rest[k] < 65536 by {
        assert(rest[k] == g3[k + 1]);
    }
    lemma_limbs_value_digits(rest);
    let r = limbs_value(rest);
    if q2 == 1 {
        assert(0 <= g3[0] < 65536) by (nonlinear_arith)
            requires
                v3 == g3[0] + 65536 * r,
                r >= 0,
                v3 == v2 % two_256() + 38,
                v2 == two_256() + v2 % two_256(),
                v2 < two_256() + 38,
                0 <= g3[0] - 38,
        ;
    } else if q2 == -1 {
        assert(0 <= g3[0] < 65536) by (nonlinear_arith)
            requires
                v3 == g3[0] + 65536 * r,
                v3 == v2 % two_256() - 38,
                v2 == -two_256() + v2 % two_256(),
                -38 <= v2 < 0,
                0 <= g3[0] + 38 < 65536,
                two_256() == 65536 * 0x1000000000000000000000000000000000000000000000000000000000000,
        ;
    }
    assert(gf_digits(g3));
    lemma_limbs_value_digits(g3@);
    assert(base_pow(16) == two_256());
    lemma_carried_value_mod(v0);
    lemma_carried_value_mod(v1);
    lemma_carried_value_mod(v2);
}

/// Reduces fully modulo 2^255 - 19 and stores the result as 32
/// little-endian bytes.
pub fn pack25519(o: &mut [u8; 32], n: Gf)
    requires
        limbs_bounded(n, carry_limit()),
    ensures
        le_value(final(o)@) == gf_value(n) % prime(),
{
    let mut m: Gf = [0i64; 16];
    let mut t: Gf = n;
    for i in 0..16
        invariant
            forall|k: int| 0 <= k < 16 ==> #[trigger] t[k] == n[k],
    {
        t[i] = n[i];
    }
    proof {
        assert(t =~= n);
    }
    let ghost g0 = t;
    car25519(&mut t);
    let ghost g1 = t;
    proof {
        lemma_two_256();
        assert(limbs_bounded(g1, carry_limit())) by {
            let q0 = gf_value(g0) / two_256();
            assert(-0x4001_0000_0001 <= q0 <= 0x4001_0000_0000);
        }
    }
    car25519(&mut t);
    let ghost g2 = t;
    proof {
        assert(limbs_bounded(g2, carry_limit())) by {
            lemma_three_carries_second(g0, g1, g2);
        }
    }
    car25519(&mut t);
    proof {
        lemma_three_carries(g0, g1, g2, t);
        lemma_prime_prefix_full();
    }
    for _round in 0..2
        invariant
            gf_digits(t),
            0 <= gf_value(t),
            gf_value(t) < two_256() - _round * prime() || gf_value(t) < prime(),
            gf_value(t) % prime() == gf_value(n) % prime(),
            prime_prefix(16) == prime(),
            two_256() == 2 * prime() + 38,
    {
        let ghost tv = gf_value(t);
        m[0] = t[0] - 0xffed;
        proof {
            assert(m@.take(1) =~= seq![m[0]]);
            crate::limbs::lemma_limbs_value_single(m[0]);
            assert(t@.take(1) =~= seq![t[0]]);
            crate::limbs::lemma_limbs_value_single(t[0]);
            reveal_with_fuel(prime_prefix, 2);
            assert(base_pow(0) == 1);
        }
        for i in 1..15
            invariant
                gf_digits(t),
                forall|k: int| 0 <= k < i - 1 ==> 0 <= #[trigger] m[k] < 65536,
                -65536 <= m[i - 1] < 65536,
                limbs_value(m@.take(i as int)) == limbs_value(t@.take(i as int)) - prime_prefix(
                    i as nat,
                ),
        {
            let ghost before = m;
            let prev = m[i - 1];
            proof {
                lemma_borrow_bits(prev);
            }
            m[i] = t[i] - 0xffff - ((m[i - 1] >> 16) & 1);
            m[i - 1] &= 0xffff;
            proof {
                let b = if prev < 0 { 1int } else { 0int };
                let w = base_pow((i - 1) as nat);
                assert(prime_prefix((i + 1) as nat) == prime_prefix(i as nat) + 0xffff * base_pow(
                    i as nat,
                ));
                assert(base_pow(i as nat) == 65536 * w);
                lemma_limbs_value_update(before@.take(i as int), i - 1, m[i - 1]);
                assert(m@.take(i as int) =~= before@.take(i as int).update(i - 1, m[i - 1]));
                crate::limbs::lemma_limbs_value_take(m@, i as int);
                crate::limbs::lemma_limbs_value_take(t@, i as int);
                assert(m[i - 1] - prev == 65536 * b);
                assert(m[i as int] == t[i as int] - 0xffff - b);
                let bw = base_pow(i as nat);
                assert((m[i - 1] - prev) * w + m[i as int] * bw == t[i as int] * bw - 0xffff * bw)
                    by (nonlinear_arith)
                    requires
                        m[i - 1] - prev == 65536 * b,
                        m[i as int] == t[i as int] - 0xffff - b,
                        bw == 65536 * w,
                ;
                assert(before@.take(i as int)[i - 1] == prev);
                let ov = limbs_value(before@.take(i as int));
                assert(ov == limbs_value(t@.take(i as int)) - prime_prefix(i as nat));
                assert(limbs_value(m@.take(i as int)) == ov + (m[i - 1] - prev) * w);
                assert(limbs_value(m@.take(i + 1)) == limbs_value(m@.take(i as int)) + m[i as int]
                    * base_pow(i as nat));
                assert(limbs_value(t@.take(i + 1)) == limbs_value(t@.take(i as int)) + t[i as int]
                    * base_pow(i as nat));
            }
        }
        let ghost after_loop = m;
        let prev = m[14];
        proof {
            lemma_borrow_bits(prev);
        }
        m[15] = t[15] - 0x7fff - ((m[14] >> 16) & 1);
        let top = m[15];
        proof {
            lemma_borrow_bits(top);
        }
        let b: isize = ((m[15] >> 16) & 1) as isize;
        let ghost before = m;
        m[14] &= 0xffff;
        proof {
            let bb = if prev < 0 { 1int } else { 0int };
            let w = base_pow(14);
            assert(prime_prefix(16) == prime_prefix(15) + 0x7fff * base_pow(15));
            assert(base_pow(15) == 65536 * w);
            lemma_limbs_value_update(before@.take(15), 14, m[14]);
            assert(m@.take(15) =~= before@.take(15).update(14, m[14]));
            crate::limbs::lemma_limbs_value_take(m@, 15);
            crate::limbs::lemma_limbs_value_take(t@, 15);
            assert(m@.take(16) =~= m@);
            assert(t@.take(16) =~= t@);
            let bw = base_pow(15);
            assert((m[14] - prev) * w + m[15] * bw == t[15] * bw - 0x7fff * bw)
                by (nonlinear_arith)
                requires
                    m[14] - prev == 65536 * bb,
                    m[15] == t[15] - 0x7fff - bb,
                    bw == 65536 * w,
            ;
            assert(before@.take(15)[14] == prev);
            assert(before@.take(15) =~= after_loop@.take(15));
            let ov = limbs_value(before@.take(15));
            assert(ov == limbs_value(t@.take(15)) - prime_prefix(15));
            assert(limbs_value(m@.take(15)) == ov + (m[14] - prev) * w);
            assert(limbs_value(m@.take(16)) == limbs_value(m@.take(15)) + m[15] * bw);
            assert(limbs_value(t@.take(16)) == limbs_value(t@.take(15)) + t[15] * bw);
            assert(gf_value(m) == tv - prime());
            // the low fifteen limbs of m are digits
            let low = m@.take(15);
            assert forall|k: int| 0 <= k < 15 implies 0 <= #[trigger] low[k] < 65536 by {
                assert(low[k] == m[k]);
            }
            lemma_limbs_value_digits(low);
            lemma_base_pow_pos(15);
            assert(gf_value(m) == limbs_value(low) + m[15] * base_pow(15));
            if top < 0 {
                assert(tv < prime()) by (nonlinear_arith)
                    requires
                        tv - prime() == limbs_value(low) + top * base_pow(15),
                        limbs_value(low) < base_pow(15),
                        top < 0,
                        base_pow(15) >= 1,
                ;
            } else {
                assert(tv >= prime()) by (nonlinear_arith)
                    requires
                        tv - prime() == limbs_value(low) + top * base_pow(15),
                        limbs_value(low) >= 0,
                        top >= 0,
                        base_pow(15) >= 1,
                ;
            }
        }
        sel25519(&mut t, &mut m, 1 - b);
        proof {
            if top >= 0 {
                assert(gf_value(t) == tv - prime());
                vstd::arithmetic::div_mod::lemma_mod_sub_multiples_vanish(tv, prime());
            }
        }
    }
    proof {
        assert(gf_value(t) < prime()) by {
            if gf_value(t) >= prime() {
                assert(gf_value(t) < two_256() - 2 * prime());
            }
        }
    }
    for i in 0..16
        invariant
            gf_digits(t),
            forall|k: int| 0 <= k < i ==> #[trigger] t[k] == o[2 * k] + 256 * o[2 * k + 1],
    {
        let x = t[i];
        proof {
            assert((x as u8) == x % 256 && ((x >> 8u64) as u8) == x / 256) by (bit_vector)
                requires
                    0 <= x < 65536,
            ;
        }
        o[2 * i] = #[verifier::truncate] (t[i] as u8);
        o[2 * i + 1] = #[verifier::truncate] ((t[i] >> 8) as u8);
    }
    proof {
        lemma_limbs_value_byte_pairs(t@, o@);
        vstd::arithmetic::div_mod::lemma_small_mod(gf_value(t) as nat, prime() as nat);
    }
}

proof fn lemma_three_carries_second(g0: Gf, g1: Gf, g2: Gf)
    requires
        forall|i: int| 1 <= i < 16 ==> 0 <= #[trigger] g1[i] < 65536,
        0 <= g1[0] - 38 * (gf_value(g0) / two_256()) < 65536,
        gf_value(g1) == carried_value(gf_value(g0)),
        -0x4001_0000_0001 <= gf_value(g0) / two_256() <= 0x4001_0000_0000,
        forall|i: int| 1 <= i < 16 ==> 0 <= #[trigger] g2[i] < 65536,
        0 <= g2[0] - 38 * (gf_value(g1) / two_256()) < 65536,
        gf_value(g2) == carried_value(gf_value(g1)),
    ensures
        limbs_bounded(g2, carry_limit()),
{
    lemma_two_256();
    let (v0, v1) = (gf_value(g0), gf_value(g1));
    let (q0, q1) = (v0 / two_256(), v1 / two_256());
    vstd::arithmetic::div_mod::lemma_fundamental_div_mod(v0, two_256());
    vstd::arithmetic::div_mod::lemma_mod_bound(v0, two_256());
    vstd::arithmetic::div_mod::lemma_fundamental_div_mod(v1, two_256());
    vstd::arithmetic::div_mod::lemma_mod_bound(v1, two_256());
    assert(-1 <= q1 <= 1) by (nonlinear_arith)
        requires
            v1 == v0 % two_256() + 38 * q0,
            0 <= v0 % two_256() < two_256(),
            -0x4001_0000_0001 <= q0 <= 0x4001_0000_0000,
            v1 == two_256() * q1 + v1 % two_256(),
            0 <= v1 % two_256() < two_256(),
            two_256() > 0x1_0000_0000_0000_0000,
    ;
}

/// Unpacking then packing gives back every canonical encoding: for 32
/// bytes `b` that encode a value below 2^255 - 19, any 32 bytes whose value
/// is the one `unpack25519` reads from `b`, reduced as `pack25519` reduces
/// it, are `b` itself.
pub proof fn lemma_unpack_pack_roundtrip(b: Seq<u8>)
    requires
        b.len() == 32,
        le_value(b) < prime(),
    ensures
        forall|o: Seq<u8>|
            o.len() == 32 && le_value(o) == (le_value(b.take(32)) % two_255()) % prime() ==> o == b,
{
    assert(b.take(32) =~= b);
    crate::limbs::lemma_le_value_bound(b);
    assert(prime() < two_255());
    assert forall|o: Seq<u8>|
        o.len() == 32 && le_value(o) == (le_value(b.take(32)) % two_255()) % prime() implies o == b by {
        vstd::arithmetic::div_mod::lemma_small_mod(le_value(b) as nat, two_255() as nat);
        vstd::arithmetic::div_mod::lemma_small_mod(le_value(b) as nat, prime() as nat);
        crate::limbs::lemma_le_encode_value(o);
        crate::limbs::lemma_le_encode_value(b);
    }
}

/// Packing always yields a canonical encoding: 32 bytes that read back as
/// the packed value reduced modulo 2^255 - 19, which is below the prime.
pub proof fn lemma_pack_canonical(o: Seq<u8>, n: Gf)
    requires
        o.len() == 32,
        le_value(o) == gf_value(n) % prime(),
    ensures
        le_value(o) < prime(),
        o == crate::limbs::le_encode(gf_value(n) % prime(), 32),
{
    crate::limbs::lemma_le_encode_value(o);
}

} // verus!