//! Positional values of limb and byte sequences.

use vstd::prelude::*;

verus! {

/// `65536^k`, the weight of limb `k` in radix 2^16.
pub open spec fn base_pow(k: nat) -> int
    decreases k,
{
    if k == 0 {
        1
    } else {
        65536 * base_pow((k - 1) as nat)
    }
}

/// The integer `sum s[i] * 65536^i` (little-endian, radix 2^16, signed limbs).
pub open spec fn limbs_value(s: Seq<i64>) -> int
    decreases s.len(),
{
    if s.len() == 0 {
        0
    } else {
        limbs_value(s.drop_last()) + s.last() * base_pow((s.len() - 1) as nat)
    }
}

/// `256^k`, the weight of byte `k`.
pub open spec fn byte_pow(k: nat) -> int
    decreases k,
{
    if k == 0 {
        1
    } else {
        256 * byte_pow((k - 1) as nat)
    }
}

/// The unsigned little-endian integer that a byte string encodes.
pub open spec fn le_value(s: Seq<u8>) -> int
    decreases s.len(),
{
    if s.len() == 0 {
        0
    } else {
        le_value(s.drop_last()) + s.last() * byte_pow((s.len() - 1) as nat)
    }
}

/// The unsigned big-endian integer that a byte string encodes.
pub open spec fn be_value(s: Seq<u8>) -> int
    decreases s.len(),
{
    if s.len() == 0 {
        0
    } else {
        be_value(s.drop_last()) * 256 + s.last()
    }
}

pub proof fn lemma_base_pow_pos(k: nat)
    ensures
        base_pow(k) >= 1,
    decreases k,
{
    if k > 0 {
        lemma_base_pow_pos((k - 1) as nat);
    }
}

pub proof fn lemma_base_pow_adds(a: nat, b: nat)
    ensures
        base_pow(a + b) == base_pow(a) * base_pow(b),
    decreases b,
{
    if b > 0 {
        lemma_base_pow_adds(a, (b - 1) as nat);
        assert(base_pow(a + b) == 65536 * base_pow((a + b - 1) as nat));
        assert(base_pow(a) * base_pow(b) == base_pow(a) * (65536 * base_pow((b - 1) as nat)));
        assert(base_pow(a) * (65536 * base_pow((b - 1) as nat)) == 65536 * (base_pow(a)
            * base_pow((b - 1) as nat))) by (nonlinear_arith);
    }
}

pub proof fn lemma_byte_pow_pos(k: nat)
    ensures
        byte_pow(k) >= 1,
    decreases k,
{
    if k > 0 {
        lemma_byte_pow_pos((k - 1) as nat);
    }
}

/// Two bytes weigh as much as one radix-2^16 limb.
pub proof fn lemma_byte_pow_double(k: nat)
    ensures
        byte_pow(2 * k) == base_pow(k),
        byte_pow(2 * k + 1) == 256 * base_pow(k),
    decreases k,
{
    if k > 0 {
        lemma_byte_pow_double((k - 1) as nat);
        assert(byte_pow(2 * k) == 256 * byte_pow((2 * k - 1) as nat));
        assert(byte_pow((2 * k - 1) as nat) == 256 * byte_pow((2 * k - 2) as nat));
        assert((2 * k - 2) as nat == 2 * ((k - 1) as nat));
    }
}

/// Changing one limb moves the value by the change times its weight.
pub proof fn lemma_limbs_value_update(s: Seq<i64>, k: int, v: i64)
    requires
        0 <= k < s.len(),
    ensures
        limbs_value(s.update(k, v)) == limbs_value(s) + (v - s[k]) * base_pow(k as nat),
    decreases s.len(),
{
    let t = s.update(k, v);
    if k == s.len() - 1 {
        assert(t.drop_last() =~= s.drop_last());
        assert(t.last() * base_pow(k as nat) == s.last() * base_pow(k as nat) + (v - s[k])
            * base_pow(k as nat)) by (nonlinear_arith)
            requires
                t.last() == v,
                s.last() == s[k],
        ;
    } else {
        lemma_limbs_value_update(s.drop_last(), k, v);
        assert(t.drop_last() =~= s.drop_last().update(k, v));
    }
}

/// The value of a prefix grows by one weighted limb.
pub proof fn lemma_limbs_value_take(s: Seq<i64>, k: int)
    requires
        0 <= k < s.len(),
    ensures
        limbs_value(s.take(k + 1)) == limbs_value(s.take(k)) + s[k] * base_pow(k as nat),
{
    assert(s.take(k + 1).drop_last() =~= s.take(k));
}

/// The value of a concatenation.
pub proof fn lemma_limbs_value_append(a: Seq<i64>, b: Seq<i64>)
    ensures
        limbs_value(a + b) == limbs_value(a) + base_pow(a.len()) * limbs_value(b),
    decreases b.len(),
{
    if b.len() == 0 {
        assert(a + b =~= a);
    } else {
        lemma_limbs_value_append(a, b.drop_last());
        assert((a + b).drop_last() =~= a + b.drop_last());
        lemma_base_pow_adds(a.len(), (b.len() - 1) as nat);
        assert((a + b).last() == b.last());
        assert(((a.len() + b.len() - 1) as nat) == a.len() + ((b.len() - 1) as nat));
        let x = base_pow(a.len());
        let y = base_pow((b.len() - 1) as nat);
        assert(b.last() * (x * y) == x * (b.last() * y)) by (nonlinear_arith);
        assert(x * limbs_value(b) == x * limbs_value(b.drop_last()) + x * (b.last() * y))
            by (nonlinear_arith)
            requires
                limbs_value(b) == limbs_value(b.drop_last()) + b.last() * y,
        ;
    }
}

/// Limbs that are digits in `[0, 65536)` give a value in `[0, 65536^len)`.
pub proof fn lemma_limbs_value_digits(s: Seq<i64>)
    requires
        forall|i: int| 0 <= i < s.len() ==> 0 <= #[trigger] s[i] < 65536,
    ensures
        0 <= limbs_value(s) < base_pow(s.len()),
    decreases s.len(),
{
    if s.len() > 0 {
        let t = s.drop_last();
        assert forall|i: int| 0 <= i < t.len() implies 0 <= #[trigger] t[i] < 65536 by {
            assert(t[i] == s[i]);
        }
        lemma_limbs_value_digits(t);
        let w = base_pow((s.len() - 1) as nat);
        lemma_base_pow_pos((s.len() - 1) as nat);
        let d = s.last();
        assert(0 <= d < 65536);
        assert(0 <= d * w <= 65535 * w) by (nonlinear_arith)
            requires
                0 <= d < 65536,
                w >= 1,
        ;
    }
}

/// Limbs bounded by `b` in absolute value give a value bounded by `b * 65536^len`.
pub proof fn lemma_limbs_value_bound(s: Seq<i64>, b: int)
    requires
        b >= 0,
        forall|i: int| 0 <= i < s.len() ==> -b <= #[trigger] s[i] <= b,
    ensures
        -b * base_pow(s.len()) <= limbs_value(s) <= b * base_pow(s.len()),
    decreases s.len(),
{
    if s.len() > 0 {
        let t = s.drop_last();
        assert forall|i: int| 0 <= i < t.len() implies -b <= #[trigger] t[i] <= b by {
            assert(t[i] == s[i]);
        }
        lemma_limbs_value_bound(t, b);
        let w = base_pow((s.len() - 1) as nat);
        lemma_base_pow_pos((s.len() - 1) as nat);
        let d = s.last();
        assert(-b <= d <= b);
        assert(-b * w <= d * w <= b * w) by (nonlinear_arith)
            requires
                -b <= d <= b,
                w >= 1,
        ;
        assert(b * base_pow(s.len()) == 65536 * (b * w)) by (nonlinear_arith)
            requires
                base_pow(s.len()) == 65536 * w,
        ;
        let v = limbs_value(t);
        assert(-b * base_pow(s.len()) <= v + d * w <= b * base_pow(s.len())) by (nonlinear_arith)
            requires
                b >= 0,
                w >= 1,
                -b * w <= v <= b * w,
                -b * w <= d * w <= b * w,
                base_pow(s.len()) == 65536 * w,
        ;
    }
}

/// Limbs made of byte pairs have the value of the byte string.
pub proof fn lemma_limbs_value_byte_pairs(s: Seq<i64>, b: Seq<u8>)
    requires
        b.len() == 2 * s.len(),
        forall|i: int| 0 <= i < s.len() ==> #[trigger] s[i] == b[2 * i] + 256 * b[2 * i + 1],
    ensures
        limbs_value(s) == le_value(b),
    decreases s.len(),
{
    if s.len() > 0 {
        let m = s.len() - 1;
        let s1 = s.drop_last();
        let b1 = b.drop_last().drop_last();
        assert forall|i: int| 0 <= i < s1.len() implies #[trigger] s1[i] == b1[2 * i] + 256 * b1[2
            * i + 1] by {
            assert(s1[i] == s[i]);
            assert(b1[2 * i] == b[2 * i]);
            assert(b1[2 * i + 1] == b[2 * i + 1]);
        }
        lemma_limbs_value_byte_pairs(s1, b1);
        lemma_byte_pow_double(m as nat);
        assert(b.drop_last().drop_last() =~= b1);
        assert(b.drop_last().last() == b[2 * m]);
        assert(b.last() == b[2 * m + 1]);
        assert(le_value(b) == le_value(b.drop_last()) + b[2 * m + 1] * byte_pow((2 * m + 1) as nat));
        assert(le_value(b.drop_last()) == le_value(b1) + b[2 * m] * byte_pow((2 * m) as nat));
        let w = base_pow(m as nat);
        assert(s.last() * w == b[2 * m] * w + b[2 * m + 1] * (256 * w)) by (nonlinear_arith)
            requires
                s.last() == b[2 * m] + 256 * b[2 * m + 1],
        ;
    }
}

/// The value seen from the low end: the first limb plus 65536 times the rest.
pub proof fn lemma_limbs_value_first(s: Seq<i64>)
    requires
        s.len() > 0,
    ensures
        limbs_value(s) == s[0] + 65536 * limbs_value(s.drop_first()),
    decreases s.len(),
{
    if s.len() == 1 {
        assert(s.drop_last().len() == 0);
        assert(s.drop_first().len() == 0);
        assert(base_pow(0) == 1);
        assert(s.last() == s[0]);
        assert(limbs_value(s.drop_first()) == 0);
        assert(limbs_value(s.drop_last()) == 0);
        assert(limbs_value(s) == s[0] * base_pow(0));
    } else {
        lemma_limbs_value_first(s.drop_last());
        assert(s.drop_last().drop_first() =~= s.drop_first().drop_last());
        let n = (s.len() - 1) as nat;
        let w = base_pow((n - 1) as nat);
        assert(base_pow(n) == 65536 * w);
        assert(s.drop_first().last() == s.last());
        assert(s.drop_last()[0] == s[0]);
        assert(s.drop_first().len() as nat - 1 == n - 1);
        let r = limbs_value(s.drop_first().drop_last());
        assert(limbs_value(s.drop_first()) == r + s.last() * w);
        assert(limbs_value(s.drop_last()) == s[0] + 65536 * r);
        assert(limbs_value(s) == limbs_value(s.drop_last()) + s.last() * base_pow(n));
        assert(65536 * (r + s.last() * w) == 65536 * r + s.last() * (65536 * w)) by (nonlinear_arith);
    }
}

pub proof fn lemma_limbs_value_single(v: i64)
    ensures
        limbs_value(seq![v]) == v,
{
    assert(seq![v].drop_last().len() == 0);
    assert(limbs_value(seq![v].drop_last()) == 0);
    assert(base_pow(0) == 1);
    assert(seq![v].last() == v);
}

/// All-zero limbs are worth zero.
pub proof fn lemma_limbs_value_zero(s: Seq<i64>)
    requires
        forall|k: int| 0 <= k < s.len() ==> #[trigger] s[k] == 0,
    ensures
        limbs_value(s) == 0,
    decreases s.len(),
{
    if s.len() > 0 {
        let t = s.drop_last();
        assert forall|k: int| 0 <= k < t.len() implies #[trigger] t[k] == 0 by {
            assert(t[k] == s[k]);
        }
        lemma_limbs_value_zero(t);
    }
}

/// Limbs that vanish from index 2 on are worth the two lowest limbs.
pub proof fn lemma_limbs_value_two(s: Seq<i64>)
    requires
        s.len() >= 2,
        forall|k: int| 2 <= k < s.len() ==> #[trigger] s[k] == 0,
    ensures
        limbs_value(s) == s[0] + 65536 * s[1],
{
    lemma_limbs_value_first(s);
    let r = s.drop_first();
    lemma_limbs_value_first(r);
    let rr = r.drop_first();
    assert forall|k: int| 0 <= k < rr.len() implies #[trigger] rr[k] == 0 by {
        assert(rr[k] == s[k + 2]);
    }
    lemma_limbs_value_zero(rr);
}

/// The `n` little-endian bytes of `v` (for `0 <= v < 256^n`).
pub open spec fn le_encode(v: int, n: nat) -> Seq<u8>
    decreases n,
{
    if n == 0 {
        Seq::empty()
    } else {
        le_encode(v % byte_pow((n - 1) as nat), (n - 1) as nat).push(
            (v / byte_pow((n - 1) as nat)) as u8,
        )
    }
}

/// A byte string of length `n` holds a value in `[0, 256^n)`.
pub proof fn lemma_le_value_bound(s: Seq<u8>)
    ensures
        0 <= le_value(s) < byte_pow(s.len()),
    decreases s.len(),
{
    if s.len() > 0 {
        lemma_le_value_bound(s.drop_last());
        let w = byte_pow((s.len() - 1) as nat);
        lemma_byte_pow_pos((s.len() - 1) as nat);
        let d = s.last();
        assert(0 <= d * w <= 255 * w) by (nonlinear_arith)
            requires
                0 <= d < 256,
                w >= 1,
        ;
    }
}

/// A byte string is the encoding of its own value.
pub proof fn lemma_le_encode_value(s: Seq<u8>)
    ensures
        le_encode(le_value(s), s.len()) == s,
    decreases s.len(),
{
    if s.len() > 0 {
        let d = s.drop_last();
        let n = s.len();
        let w = byte_pow((n - 1) as nat);
        lemma_le_value_bound(d);
        lemma_le_encode_value(d);
        vstd::arithmetic::div_mod::lemma_fundamental_div_mod_converse(
            le_value(s),
            w,
            s.last() as int,
            le_value(d),
        );
        assert(d.push(s.last()) =~= s);
    }
}

/// Encoding a value below `256^n` in `n` bytes and reading it back gives
/// the value.
pub proof fn lemma_le_value_encode(v: int, n: nat)
    requires
        0 <= v < byte_pow(n),
    ensures
        le_encode(v, n).len() == n,
        le_value(le_encode(v, n)) == v,
    decreases n,
{
    if n > 0 {
        let w = byte_pow((n - 1) as nat);
        lemma_byte_pow_pos((n - 1) as nat);
        assert(byte_pow(n) == 256 * w);
        vstd::arithmetic::div_mod::lemma_fundamental_div_mod(v, w);
        vstd::arithmetic::div_mod::lemma_mod_bound(v, w);
        assert(0 <= v / w < 256) by {
            vstd::arithmetic::div_mod::lemma_div_pos_is_pos(v, w);
            vstd::arithmetic::div_mod::lemma_div_by_multiple_is_strongly_ordered(v, 256 * w, 256, w);
            vstd::arithmetic::div_mod::lemma_div_multiples_vanish(256, w);
        }
        lemma_le_value_encode(v % w, (n - 1) as nat);
        let e = le_encode(v, n);
        assert(e.drop_last() =~= le_encode(v % w, (n - 1) as nat));
        assert(e.last() as int == v / w);
        assert(le_value(e) == le_value(e.drop_last()) + e.last() * w);
        assert(v == w * (v / w) + v % w);
        assert(e.last() * w == w * (v / w)) by (nonlinear_arith)
            requires
                e.last() as int == v / w,
        ;
    }
}

} // verus!