use testframework::curve25519::{scalarmult, scalarmult_base};

#[test]
fn test_scalar_vector_1() {
    // corresponding to tests/scalarmult.c and tests/scalarmult3.cpp from NaCl
    let alicesk = [0x77, 0x07, 0x6d, 0x0a, 0x73, 0x18, 0xa5, 0x7d, 0x3c, 0x16, 0xc1,
        0x72, 0x51, 0xb2, 0x66, 0x45, 0xdf, 0x4c, 0x2f, 0x87, 0xeb, 0xc0,
        0x99, 0x2a, 0xb1, 0x77, 0xfb, 0xa5, 0x1d, 0xb9, 0x2c, 0x2a];

    let alicepk_expected = [0x85, 0x20, 0xf0, 0x09, 0x89, 0x30, 0xa7, 0x54, 0x74, 0x8b, 0x7d,
        0xdc, 0xb4, 0x3e, 0xf7, 0x5a, 0x0d, 0xbf, 0x3a, 0x0d, 0x26, 0x38,
        0x1a, 0xf4, 0xeb, 0xa4, 0xa9, 0x8e, 0xaa, 0x9b, 0x4e, 0x6a];

    let mut alicepk = [0u8; 32];
    scalarmult_base(&mut alicepk, &alicesk);
    assert!(alicepk == alicepk_expected);
}

#[test]
fn test_scalar_vector_2() {
    // corresponding to tests/scalarmult2.c and tests/scalarmult4.cpp from NaCl
    let bobsk = [0x5d, 0xab, 0x08, 0x7e, 0x62, 0x4a, 0x8a, 0x4b, 0x79, 0xe1, 0x7f,
        0x8b, 0x83, 0x80, 0x0e, 0xe6, 0x6f, 0x3b, 0xb1, 0x29, 0x26, 0x18,
        0xb6, 0xfd, 0x1c, 0x2f, 0x8b, 0x27, 0xff, 0x88, 0xe0, 0xeb];

    let bobpk_expected = [0xde, 0x9e, 0xdb, 0x7d, 0x7b, 0x7d, 0xc1, 0xb4, 0xd3, 0x5b, 0x61,
        0xc2, 0xec, 0xe4, 0x35, 0x37, 0x3f, 0x83, 0x43, 0xc8, 0x5b, 0x78,
        0x67, 0x4d, 0xad, 0xfc, 0x7e, 0x14, 0x6f, 0x88, 0x2b, 0x4f];

    let mut bobpk = [0u8; 32];
    scalarmult_base(&mut bobpk, &bobsk);
    assert!(bobpk == bobpk_expected);
}

#[test]
fn test_scalar_vector_3() {
    // corresponding to tests/scalarmult5.c and tests/scalarmult7.cpp from NaCl
    let alicesk = [0x77, 0x07, 0x6d, 0x0a, 0x73, 0x18, 0xa5, 0x7d, 0x3c, 0x16, 0xc1,
        0x72, 0x51, 0xb2, 0x66, 0x45, 0xdf, 0x4c, 0x2f, 0x87, 0xeb, 0xc0,
        0x99, 0x2a, 0xb1, 0x77, 0xfb, 0xa5, 0x1d, 0xb9, 0x2c, 0x2a];

    let bobpk = [0xde, 0x9e, 0xdb, 0x7d, 0x7b, 0x7d, 0xc1, 0xb4, 0xd3, 0x5b,
        0x61, 0xc2, 0xec, 0xe4, 0x35, 0x37, 0x3f, 0x83, 0x43, 0xc8,
        0x5b, 0x78, 0x67, 0x4d, 0xad, 0xfc, 0x7e, 0x14, 0x6f, 0x88,
        0x2b, 0x4f];

    let k_expected = [0x4a, 0x5d, 0x9d, 0x5b, 0xa4, 0xce, 0x2d, 0xe1, 0x72, 0x8e, 0x3b, 0xf4,
        0x80, 0x35, 0x0f, 0x25, 0xe0, 0x7e, 0x21, 0xc9, 0x47, 0xd1, 0x9e, 0x33,
        0x76, 0xf0, 0x9b, 0x3c, 0x1e, 0x16, 0x17, 0x42];

    let mut k = [0u8; 32];
    scalarmult(&mut k, &alicesk, &bobpk);
    assert!(k == k_expected);
}

#[test]
fn test_scalar_vector_4() {
    // corresponding to tests/scalarmult6.c from NaCl
    let bobsk = [0x5d, 0xab, 0x08, 0x7e, 0x62, 0x4a, 0x8a, 0x4b, 0x79, 0xe1, 0x7f,
        0x8b, 0x83, 0x80, 0x0e, 0xe6, 0x6f, 0x3b, 0xb1, 0x29, 0x26, 0x18,
        0xb6, 0xfd, 0x1c, 0x2f, 0x8b, 0x27, 0xff, 0x88, 0xe0, 0xeb];

    let alicepk = [0x85, 0x20, 0xf0, 0x09, 0x89, 0x30, 0xa7, 0x54, 0x74, 0x8b,
        0x7d, 0xdc, 0xb4, 0x3e, 0xf7, 0x5a, 0x0d, 0xbf, 0x3a, 0x0d,
        0x26, 0x38, 0x1a, 0xf4, 0xeb, 0xa4, 0xa9, 0x8e, 0xaa, 0x9b,
        0x4e, 0x6a];

    let k_expected = [0x4a, 0x5d, 0x9d, 0x5b, 0xa4, 0xce, 0x2d, 0xe1, 0x72, 0x8e, 0x3b, 0xf4,
        0x80, 0x35, 0x0f, 0x25, 0xe0, 0x7e, 0x21, 0xc9, 0x47, 0xd1, 0x9e, 0x33,
        0x76, 0xf0, 0x9b, 0x3c, 0x1e, 0x16, 0x17, 0x42];

    let mut k = [0u8; 32];
    scalarmult(&mut k, &bobsk, &alicepk);
    assert!(k == k_expected);
}

#[test]
fn scalarmult_agrees_with_libsodium() {
    let n = [7u8; 32];
    let p = [
        0xe6, 0xdb, 0x68, 0x67, 0x58, 0x30, 0x30, 0xdb, 0x35, 0x94, 0xc1, 0xa4, 0x24, 0xb1, 0x5f, 0x7c,
        0x72, 0x66, 0x24, 0xec, 0x26, 0xb3, 0x35, 0x3b, 0x10, 0xa9, 0x03, 0xa6, 0xd0, 0xab, 0x1c, 0x4c,
    ];
    let mut q = [0u8; 32];
    scalarmult(&mut q, &n, &p);
    let expected = sodiumoxide::crypto::scalarmult::scalarmult(
        &sodiumoxide::crypto::scalarmult::Scalar(n),
        &sodiumoxide::crypto::scalarmult::GroupElement(p),
    )
    .unwrap();
    assert_eq!(q, expected.0);
}

#[test]
fn scalarmult_rfc7748_vector() {
    // RFC 7748, section 5.2, first test vector
    let k = [
        0xa5, 0x46, 0xe3, 0x6b, 0xf0, 0x52, 0x7c, 0x9d, 0x3b, 0x16, 0x15, 0x4b, 0x82, 0x46, 0x5e, 0xdd,
        0x62, 0x14, 0x4c, 0x0a, 0xc1, 0xfc, 0x5a, 0x18, 0x50, 0x6a, 0x22, 0x44, 0xba, 0x44, 0x9a, 0xc4,
    ];
    let u = [
        0xe6, 0xdb, 0x68, 0x67, 0x58, 0x30, 0x30, 0xdb, 0x35, 0x94, 0xc1, 0xa4, 0x24, 0xb1, 0x5f, 0x7c,
        0x72, 0x66, 0x24, 0xec, 0x26, 0xb3, 0x35, 0x3b, 0x10, 0xa9, 0x03, 0xa6, 0xd0, 0xab, 0x1c, 0x4c,
    ];
    let expected = [
        0xc3, 0xda, 0x55, 0x37, 0x9d, 0xe9, 0xc6, 0x90, 0x8e, 0x94, 0xea, 0x4d, 0xf2, 0x8d, 0x08, 0x4f,
        0x32, 0xec, 0xcf, 0x03, 0x49, 0x1c, 0x71, 0xf7, 0x54, 0xb4, 0x07, 0x55, 0x77, 0xa2, 0x85, 0x52,
    ];
    let mut q = [0u8; 32];
    scalarmult(&mut q, &k, &u);
    assert_eq!(q, expected);
}

#[test]
fn scalarmult_ignores_the_top_bit_of_the_point() {
    let n = [0x42u8; 32];
    let mut u = [0x13u8; 32];
    let mut q1 = [0u8; 32];
    scalarmult(&mut q1, &n, &u);
    u[31] ^= 0x80;
    let mut q2 = [0u8; 32];
    scalarmult(&mut q2, &n, &u);
    assert_eq!(q1, q2);
}

#[test]
fn scalarmult_reads_only_the_clamped_scalar() {
    let mut n = [0xffu8; 32];
    let mut q1 = [0u8; 32];
    scalarmult_base(&mut q1, &n);
    testframework::generators::scalarmult::clamp(&mut n);
    let mut q2 = [0u8; 32];
    scalarmult_base(&mut q2, &n);
    assert_eq!(q1, q2);
    let once = n;
    testframework::generators::scalarmult::clamp(&mut n);
    assert_eq!(n, once);
}

#[test]
fn scalarmult_output_is_canonical() {
    let mut q = [0u8; 32];
    scalarmult_base(&mut q, &[0x99u8; 32]);
    // the encoding of a value below 2^255 - 19 leaves bit 255 clear
    assert_eq!(q[31] & 0x80, 0);
}
