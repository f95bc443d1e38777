use testframework::field::{
    car25519, gf_add, gf_multiply, gf_square, gf_subtract, inv25519, pack25519, sel25519, unpack25519,
    verify_16, verify_32, Gf,
};

fn small(v: i64) -> Gf {
    let mut g = [0i64; 16];
    g[0] = v;
    g
}

fn bytes_of(g: Gf) -> [u8; 32] {
    let mut o = [0u8; 32];
    pack25519(&mut o, g);
    o
}

#[test]
fn add_and_subtract_are_limbwise() {
    let mut a = [0i64; 16];
    let mut b = [0i64; 16];
    for i in 0..16 {
        a[i] = i as i64 * 3;
        b[i] = 100 - i as i64;
    }
    let mut s = [0i64; 16];
    gf_add(&mut s, a, b);
    let mut d = [0i64; 16];
    gf_subtract(&mut d, a, b);
    for i in 0..16 {
        assert_eq!(s[i], a[i] + b[i]);
        assert_eq!(d[i], a[i] - b[i]);
    }
}

#[test]
fn sel25519_swaps_on_one_and_keeps_on_zero() {
    let mut p = small(5);
    let mut q = small(9);
    sel25519(&mut p, &mut q, 1);
    assert_eq!(p, small(9));
    assert_eq!(q, small(5));
    sel25519(&mut p, &mut q, 0);
    assert_eq!(p, small(9));
    assert_eq!(q, small(5));
    // swapping twice with the same flag restores both
    sel25519(&mut p, &mut q, 1);
    sel25519(&mut p, &mut q, 1);
    assert_eq!(p, small(9));
    assert_eq!(q, small(5));
}

#[test]
fn car25519_carries_and_folds_top_limb() {
    let mut o = [0i64; 16];
    o[0] = 65536 + 7;
    o[15] = 65536 * 2 + 1;
    car25519(&mut o);
    assert_eq!(o[0], 7 + 38 * 2);
    assert_eq!(o[1], 1);
    assert_eq!(o[15], 1);
    // a negative limb borrows from the next one
    let mut n = [0i64; 16];
    n[3] = -1;
    n[4] = 5;
    car25519(&mut n);
    assert_eq!(n[3], 65535);
    assert_eq!(n[4], 4);
}

#[test]
fn multiply_and_square_small_values() {
    let mut o = [0i64; 16];
    gf_multiply(&mut o, small(6), small(7));
    assert_eq!(bytes_of(o), bytes_of(small(42)));
    gf_square(&mut o, small(12));
    assert_eq!(bytes_of(o), bytes_of(small(144)));
}

#[test]
fn multiply_wraps_modulo_the_prime() {
    // 2^128 * 2^128 = 2^256 = 38 (mod 2^255 - 19)
    let mut a = [0i64; 16];
    a[8] = 1;
    let mut o = [0i64; 16];
    gf_multiply(&mut o, a, a);
    assert_eq!(bytes_of(o), bytes_of(small(38)));
}

#[test]
fn inverse_of_small_values() {
    let mut inv = [0i64; 16];
    inv25519(&mut inv, small(1));
    assert_eq!(bytes_of(inv), bytes_of(small(1)));
    inv25519(&mut inv, small(2));
    let mut prod = [0i64; 16];
    gf_multiply(&mut prod, inv, small(2));
    assert_eq!(bytes_of(prod), bytes_of(small(1)));
}

#[test]
fn pack_reduces_modulo_the_prime() {
    // p = 2^255 - 19 packs to zero, p + 1 to one
    let mut p = [0xffffi64; 16];
    p[0] = 0xffed;
    p[15] = 0x7fff;
    assert_eq!(bytes_of(p), [0u8; 32]);
    p[0] = 0xffee;
    assert_eq!(bytes_of(p), bytes_of(small(1)));
}

#[test]
fn unpack_then_pack_gives_back_canonical_bytes() {
    let mut b = [0u8; 32];
    for i in 0..32 {
        b[i] = (i * 7 + 3) as u8;
    }
    b[31] = 0x12;
    let mut g = [0i64; 16];
    unpack25519(&mut g, &b);
    assert_eq!(g[0], 3 + 256 * 10);
    assert_eq!(bytes_of(g), b);
}

#[test]
fn unpack_drops_the_top_bit() {
    let mut b = [0u8; 32];
    b[0] = 1;
    b[31] = 0x80;
    let mut g = [0i64; 16];
    unpack25519(&mut g, &b);
    assert_eq!(g[15], 0);
    assert_eq!(bytes_of(g), bytes_of(small(1)));
}

#[test]
fn verify_compares_all_bytes() {
    let x = [3u8; 16];
    let mut y = [3u8; 16];
    assert!(verify_16(&x, &y));
    y[15] = 4;
    assert!(!verify_16(&x, &y));
    let a = [9u8; 32];
    let mut b = [9u8; 32];
    assert!(verify_32(&a, &b));
    b[0] = 0;
    assert!(!verify_32(&a, &b));
}

#[test]
fn multiply_accepts_limbs_up_to_two_to_the_25() {
    let a = [1i64 << 25; 16];
    let mut b = [-(1i64 << 25); 16];
    b[3] = 1 << 25;
    let mut one_times_a = [0i64; 16];
    gf_multiply(&mut one_times_a, a, small(1));
    assert_eq!(bytes_of(one_times_a), bytes_of(a));
    // a * b and b * a agree, and a * (-1) is the negation of a
    let mut ab = [0i64; 16];
    let mut ba = [0i64; 16];
    gf_multiply(&mut ab, a, b);
    gf_multiply(&mut ba, b, a);
    assert_eq!(bytes_of(ab), bytes_of(ba));
    let mut neg = [0i64; 16];
    gf_multiply(&mut neg, a, small(-1));
    let mut sum = [0i64; 16];
    gf_add(&mut sum, neg, a);
    assert_eq!(bytes_of(sum), [0u8; 32]);
}
