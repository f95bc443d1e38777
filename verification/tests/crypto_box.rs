use testframework::curve25519::{
    box_, box_afternm, box_beforenm, box_keypair, box_open, box_open_afternm, scalarmult_base,
};

fn message() -> [u8; 64] {
    let mut m = [0u8; 64];
    for i in 32..64 {
        m[i] = (i * 5) as u8;
    }
    m
}

#[test]
fn keypair_public_key_is_base_point_multiple() {
    let mut pk = [0u8; 32];
    let mut sk = [0u8; 32];
    box_keypair(&mut pk, &mut sk);
    let mut expected = [0u8; 32];
    scalarmult_base(&mut expected, &sk);
    assert_eq!(pk, expected);
}

#[test]
fn beforenm_is_shared_between_the_two_parties() {
    let alice_sk = [1u8; 32];
    let bob_sk = [2u8; 32];
    let mut alice_pk = [0u8; 32];
    let mut bob_pk = [0u8; 32];
    scalarmult_base(&mut alice_pk, &alice_sk);
    scalarmult_base(&mut bob_pk, &bob_sk);
    let mut k1 = [0u8; 32];
    let mut k2 = [0u8; 32];
    box_beforenm(&mut k1, &bob_pk, &alice_sk);
    box_beforenm(&mut k2, &alice_pk, &bob_sk);
    assert_eq!(k1, k2);
    let expected = sodiumoxide::crypto::box_::precompute(
        &sodiumoxide::crypto::box_::PublicKey(bob_pk),
        &sodiumoxide::crypto::box_::SecretKey(alice_sk),
    );
    assert_eq!(k1, expected.0);
}

#[test]
fn box_then_open_gives_back_the_message() {
    let alice_sk = [3u8; 32];
    let bob_sk = [4u8; 32];
    let mut alice_pk = [0u8; 32];
    let mut bob_pk = [0u8; 32];
    scalarmult_base(&mut alice_pk, &alice_sk);
    scalarmult_base(&mut bob_pk, &bob_sk);
    let nonce = [9u8; 24];
    let m = message();
    let mut c = [0u8; 64];
    assert_eq!(box_(&mut c, &m, &nonce, &bob_pk, &alice_sk), Ok(()));
    assert_eq!(&c[..16], &[0u8; 16]);
    let mut opened = [0xaau8; 64];
    assert_eq!(box_open(&mut opened, &c, &nonce, &alice_pk, &bob_sk), Ok(()));
    assert_eq!(opened, m);
}

#[test]
fn box_matches_libsodium_crypto_box() {
    let alice_sk = [5u8; 32];
    let bob_sk = [6u8; 32];
    let mut bob_pk = [0u8; 32];
    scalarmult_base(&mut bob_pk, &bob_sk);
    let nonce = [7u8; 24];
    let m = message();
    let mut c = [0u8; 64];
    box_(&mut c, &m, &nonce, &bob_pk, &alice_sk).unwrap();
    let sealed = sodiumoxide::crypto::box_::seal(
        &m[32..],
        &sodiumoxide::crypto::box_::Nonce(nonce),
        &sodiumoxide::crypto::box_::PublicKey(bob_pk),
        &sodiumoxide::crypto::box_::SecretKey(alice_sk),
    );
    assert_eq!(&c[16..], &sealed[..]);
}

#[test]
fn open_rejects_a_tampered_ciphertext_and_keeps_the_output() {
    let k = [8u8; 32];
    let nonce = [1u8; 24];
    let m = message();
    let mut c = [0u8; 64];
    box_afternm(&mut c, &m, &nonce, &k).unwrap();
    c[40] ^= 1;
    let mut out = [0x55u8; 64];
    assert_eq!(box_open_afternm(&mut out, &c, &nonce, &k), Err(()));
    assert_eq!(out, [0x55u8; 64]);
}

#[test]
fn open_rejects_a_short_ciphertext() {
    let k = [8u8; 32];
    let nonce = [1u8; 24];
    let c = [0u8; 20];
    let mut out = [0u8; 20];
    assert_eq!(box_open_afternm(&mut out, &c, &nonce, &k), Err(()));
}
