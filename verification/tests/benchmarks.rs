use testframework::karatsuba::generator as karatsuba;
use testframework::mulmod::generator as mulmod;
use testframework::onetime_authloop::generator as authloop;
use testframework::poly1305::poly1305_generator as single;
use testframework::scalarmult::generator as squeeze;
use testframework::securemul::securemul_generator as securemul;
use testframework::testcase_generators::poly1305 as declarations;

#[test]
fn generator_names() {
    assert_eq!(karatsuba::generator_name(), "karatsuba");
    assert_eq!(squeeze::generator_name(), "karatsuba");
    assert_eq!(mulmod::generator_name(), "mulmod");
    assert_eq!(authloop::generator_name(), "authloop");
}

#[test]
fn mulmod_declares_both_halves() {
    let mut m = [0u8; 32];
    for i in 0..32 {
        m[i] = i as u8;
    }
    let (t, src) = mulmod::testcase_from(m);
    assert_eq!(
        t.variables[0],
        "        static unsigned char a_bytes[16] = {0x0, 0x1, 0x2, 0x3, 0x4, 0x5, 0x6, 0x7, 0x8, 0x9, 0xa, 0xb, 0xc, 0xd, 0xe, 0xf};"
    );
    assert_eq!(
        t.variables[1],
        "        static unsigned char b_bytes[16] = {0x10, 0x11, 0x12, 0x13, 0x14, 0x15, 0x16, 0x17, 0x18, 0x19, 0x1a, 0x1b, 0x1c, 0x1d, 0x1e, 0x1f, 0x1f};"
    );
    assert!(src.contains("            mulmod226asm(a,b);\n"));
    assert!(src.contains(&t.variables[1]));
    let (g, _) = mulmod::generate_testcase();
    assert_eq!(g.variables.len(), 2);
}

#[test]
fn securemul_declares_operands_and_product() {
    let (t, src) = securemul::testcase_from(25, 26);
    assert_eq!(t.variables, vec!["static unsigned int a = 25;", "static unsigned int b = 26;"]);
    assert_eq!(t.expected_result, 650);
    assert!(src.contains("static unsigned int b = 26;\n"));
    assert!(src.contains("securemul226(a,b);"));
    assert_eq!(securemul::OPERAND_BOUND, 27);
    for _ in 0..20 {
        let (g, _) = securemul::generate_testcase();
        assert!(g.expected_result <= 26 * 26);
    }
}

#[test]
fn authloop_declares_the_prefix_and_key() {
    let mut m = [0u8; 256];
    m[0] = 0xab;
    m[1] = 0x01;
    let mut k = [0u8; 32];
    k[0] = 0x10;
    k[31] = 0xee;
    let (t, src) = authloop::testcase_from(m, k, 2);
    assert_eq!(t.messagelen, 2);
    assert_eq!(t.variables[0], "        static unsigned char in[2] = {0xab, 0x1};");
    assert_eq!(
        t.variables[1],
        "        static unsigned char k[16] = {0x10, 0x0, 0x0, 0x0, 0x0, 0x0, 0x0, 0x0, 0x0, 0x0, 0x0, 0x0, 0x0, 0x0, 0x0, 0x0, 0xee};"
    );
    assert!(src.contains("onetimeauth_loop(in, 2, h, r, c);"));
    let (g, _) = authloop::generate_testcase(131);
    assert_eq!(g.messagelen, 131);
    assert!(g.variables[0].starts_with("        static unsigned char in[131] = {0x"));
}

#[test]
fn karatsuba_expected_is_the_product_modulo_p() {
    let mut a = [0u8; 17];
    let mut b = [0u8; 17];
    a[0] = 3;
    b[0] = 5;
    a[16] = 0xff;
    let (t, src) = karatsuba::testcase_from(a, b);
    assert_eq!(t.A[16], 3);
    // (3 + 3 * 2^128) * 5 = 15 + 3 * 2^130 + 3 * 2^128 = 30 + 3 * 2^128 (mod 2^130 - 5)
    let mut expected = vec![0u8; 17];
    expected[0] = 30;
    expected[16] = 3;
    assert_eq!(t.expected_result, expected);
    assert!(t.variables[0].starts_with("        static unsigned char a_bytes[32] = {0x3, 0x0,"));
    assert!(t.variables[0].ends_with(", 0x3};"));
    assert!(src.contains("karatsuba226asm(out, a,b);"));

    // (2^130 - 6) * 2 = 2^131 - 12 = 2 * (2^130 - 5) - 2 = -2 (mod p), i.e. p - 2
    let mut big = [0xffu8; 17];
    big[0] = 0xfa;
    big[16] = 0x03;
    let mut two = [0u8; 17];
    two[0] = 2;
    let (t2, _) = karatsuba::testcase_from(big, two);
    let mut p_minus_2 = vec![0xffu8; 17];
    p_minus_2[0] = 0xf9;
    p_minus_2[16] = 0x03;
    assert_eq!(t2.expected_result, p_minus_2);

    let zero = [0u8; 17];
    let (t3, _) = karatsuba::testcase_from(zero, big);
    assert_eq!(t3.expected_result, vec![0]);
}

#[test]
fn karatsuba_squeeze_declares_eighteen_bytes() {
    let a = [1u8; 17];
    let b = [2u8; 17];
    let (t, src) = squeeze::testcase_from(a, b);
    assert!(t.variables[1].starts_with("        static unsigned char b_bytes[18] = {0x2, 0x2,"));
    assert!(src.contains("squeeze226asm(out);"));
    let (k, _) = karatsuba::testcase_from(a, b);
    assert_eq!(t.expected_result, k.expected_result);
    let (g, _) = squeeze::generate_testcase();
    assert!(g.A[16] < 4 && g.B[16] < 4);
}

#[test]
fn single_poly1305_declares_131_bytes_and_authenticates_them() {
    let mut m = [0u8; 256];
    for i in 0..256 {
        m[i] = i as u8;
    }
    let k = [9u8; 32];
    let (t, src) = single::testcase_from(m, k);
    assert!(t.variables[0].starts_with("        static unsigned char c[131] = {0x0, 0x1, 0x2,"));
    assert!(t.variables[0].ends_with("0x81, 0x82};"));
    let tag = sodiumoxide::crypto::onetimeauth::authenticate(&m[..131], &sodiumoxide::crypto::onetimeauth::Key(k));
    assert_eq!(t.expected_result, tag.0);
    assert!(src.contains("crypto_onetimeauth(a, c, 131, rs);"));
}

#[test]
fn plain_poly1305_declarations() {
    let m = [0x0fu8; 256];
    let k = [0xf0u8; 32];
    let d = declarations::declarations_from(m, k);
    assert!(d[0].starts_with("        unsigned char c[131] = {0xf, 0xf,"));
    assert!(d[1].starts_with("        unsigned char rs[32] = {0xf0, 0xf0,"));
    assert_eq!(d[1].matches("0xf0").count(), 32);
    assert_eq!(declarations::generate_testcase().len(), 2);
}
