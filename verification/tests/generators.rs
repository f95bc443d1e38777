use testframework::curve25519::{box_, scalarmult};
use testframework::generators::crypto_box::CryptoBoxTestcase;
use testframework::generators::scalarmult::clamp;
use testframework::reader::ReadResultObj;
use testframework::traits::Generator;
use testframework::{
    CryptoboxGenerator, Function, Poly1305Generator, ScalarmultGenerator, SecretBoxGenerator, StreamGenerator,
    TestcaseEnum,
};

fn read_result(result: Vec<u8>) -> ReadResultObj {
    ReadResultObj {
        result,
        cycle_counts: vec![String::from("120"), String::from("118")],
        raw_output: vec![String::from("Cycle counts:    120,    118, "), String::from("Result: ab")],
    }
}

#[test]
fn generator_names_timeouts_and_lengths() {
    assert_eq!(CryptoboxGenerator {}.get_generator_name(), "crypto_box");
    assert_eq!(SecretBoxGenerator {}.get_generator_name(), "secretbox");
    assert_eq!(StreamGenerator {}.get_generator_name(), "stream_xsalsa20");
    assert_eq!(ScalarmultGenerator {}.get_generator_name(), "scalarmult");
    assert_eq!(Poly1305Generator {}.get_generator_name(), "poly1305");
    assert_eq!(CryptoboxGenerator {}.get_timeout(), 240);
    assert_eq!(SecretBoxGenerator {}.get_timeout(), 60);
    assert_eq!(StreamGenerator {}.get_timeout(), 60);
    assert_eq!(ScalarmultGenerator {}.get_timeout(), 210);
    assert_eq!(Poly1305Generator {}.get_timeout(), 15);
    assert_eq!(CryptoboxGenerator {}.get_outputlen(), 132);
    assert_eq!(SecretBoxGenerator {}.get_outputlen(), 1024);
    assert_eq!(StreamGenerator {}.get_outputlen(), 1024);
    assert_eq!(ScalarmultGenerator {}.get_outputlen(), 32);
    assert_eq!(Poly1305Generator {}.get_outputlen(), 16);
}

#[test]
fn function_dispatch_and_names() {
    let all = Function::all();
    assert_eq!(all.len(), 5);
    let names: Vec<String> = all.iter().map(|f| f.get_generator_name()).collect();
    assert_eq!(names, vec!["poly1305", "scalarmult", "crypto_box", "stream_xsalsa20", "secretbox"]);
    assert!(matches!(Function::from_name("salsa20"), Some(Function::salsa20(_))));
    assert!(matches!(Function::from_name("cryptobox"), Some(Function::cryptobox(_))));
    assert!(Function::from_name("crypto_box").is_none());
    assert_eq!(Function::from_name("scalarmult").unwrap().get_timeout(), 210);
    assert_eq!(Function::from_name("secretbox").unwrap().get_outputlen(), 1024);
}

#[test]
fn cryptobox_testcase_zeroes_the_padding_and_seals() {
    let pk = [0x11u8; 32];
    let sk = [0x22u8; 32];
    let nonce = [0x33u8; 24];
    let message = [0x44u8; 132];
    let (t, src) = CryptoboxGenerator {}.testcase_from(pk, sk, nonce, message, 20);
    assert_eq!(&t.message[..32], &[0u8; 32]);
    assert_eq!(&t.message[32..], &[0x44u8; 100][..]);
    let mut expected = [0u8; 132];
    box_(&mut expected, &t.message, &nonce, &pk, &sk).unwrap();
    assert_eq!(t.expected_result, expected);
    assert_eq!(t.result, [0u8; 132]);
    assert!(src.starts_with("#include \"benchmark.h\"\n    extern void icachemisses();\n    static int runs=21;\n"));
    assert!(src.contains("        static unsigned char n[24] = {0x33, 0x33,"));
    assert!(src.contains("        static unsigned char m[132] = {0x00, 0x00,"));
    assert!(src.contains("unsigned char c[132];\n"));
    assert!(src.contains("            crypto_box(c, m, 132, n, pk, sk);\n"));
    assert!(src.contains("        printresult(c,132);\n"));
    assert!(src.ends_with("    }\n"));
}

#[test]
fn cryptobox_expected_is_quoted_and_checked() {
    let (mut t, _) = CryptoboxGenerator {}.testcase_from([1; 32], [2; 32], [3; 24], [4; 132], 0);
    let e = t.get_expected();
    assert!(e.starts_with("\"0x"));
    assert!(e.ends_with("\""));
    assert_eq!(e.matches(", ").count(), 131);
    assert!(!t.is_correct());
    t.copy_result_variables(read_result(t.expected_result.to_vec()));
    assert!(t.is_correct());
    assert_eq!(t.cycle_counts, vec!["120", "118"]);
    let report = t.raw_report();
    assert!(report.starts_with("Cycle counts:    120,    118, \nResult: ab\nExpected result: \"0x"));
    assert!(report.ends_with("\"\n"));
}

#[test]
fn cryptobox_default_is_all_zero() {
    let t = CryptoBoxTestcase::default();
    assert_eq!(t.pk, [0u8; 32]);
    assert_eq!(t.message, [0u8; 132]);
    assert!(t.cycle_counts.is_empty());
    assert!(t.is_correct());
}

#[test]
fn secretbox_testcase_matches_libsodium() {
    let mut message = [0x5au8; 1024];
    message[0] = 1;
    let key = [7u8; 32];
    let nonce = [8u8; 24];
    let (t, src) = SecretBoxGenerator {}.testcase_from(message, key, nonce, 4);
    assert_eq!(&t.message[..32], &[0u8; 32]);
    let sealed = sodiumoxide::crypto::secretbox::seal(
        &t.message[32..],
        &sodiumoxide::crypto::secretbox::Nonce(nonce),
        &sodiumoxide::crypto::secretbox::Key(key),
    );
    assert_eq!(&t.expected_result[16..], &sealed[..]);
    assert_eq!(&t.expected_result[..16], &[0u8; 16]);
    assert!(src.contains("static int runs=5;"));
    assert!(src.contains("            crypto_secretbox(c,m, 1024, n, k);\n"));
    assert!(src.contains("        printresult(c, 1024);\n"));
    assert!(t.get_expected().starts_with("0x00, 0x00"));
}

#[test]
fn stream_testcase_matches_libsodium() {
    let key = [0x10u8; 32];
    let nonce = [0x20u8; 8];
    let (mut t, src) = StreamGenerator {}.testcase_from(key, nonce, 1);
    let expected = sodiumoxide::crypto::stream::salsa20::stream(
        1024,
        &sodiumoxide::crypto::stream::salsa20::Nonce(nonce),
        &sodiumoxide::crypto::stream::salsa20::Key(key),
    );
    assert_eq!(t.expected_result, expected);
    assert_ne!(t.expected_result, vec![0u8; 1024]);
    assert!(src.contains("            crypto_stream_salsa20(c,1024, n, k);\n"));
    assert!(src.contains("        static unsigned char n[8] = {0x20, 0x20, 0x20, 0x20, 0x20, 0x20, 0x20, 0x20};\n"));
    let mut longer = expected.clone();
    longer.push(0);
    t.copy_result_variables(read_result(longer));
    assert!(t.is_correct());
    let mut wrong = expected.clone();
    wrong[1023] ^= 1;
    t.copy_result_variables(read_result(wrong));
    assert!(!t.is_correct());
}

#[test]
fn scalarmult_testcase_clamps_and_multiplies() {
    let mut n = [0xffu8; 32];
    let mut g = [0x01u8; 32];
    let (t, src) = ScalarmultGenerator {}.testcase_from(n, g, 0).unwrap();
    clamp(&mut n);
    clamp(&mut g);
    assert_eq!(n[0], 0xf8);
    assert_eq!(n[31], 0x7f);
    assert_eq!(g[31], 0x41);
    assert_eq!(t.n, n);
    assert_eq!(t.G, g);
    let mut q = [0u8; 32];
    scalarmult(&mut q, &n, &g);
    assert_eq!(t.expected_result, q);
    assert!(src.contains("            crypto_scalarmult_asm(q, n_bytes, g_bytes);\n"));
    assert!(src.contains("        static unsigned char n_bytes[32] = {0xf8, 0xff,"));
    assert_eq!(t.get_expected().len(), 32 * 4 + 31 * 2);
}

#[test]
fn poly1305_testcase_matches_libsodium() {
    let message = [0x61u8; 132];
    let key = [0x02u8; 32];
    let (mut t, src) = Poly1305Generator {}.testcase_from(message, key, 0);
    let tag = sodiumoxide::crypto::onetimeauth::authenticate(
        &message,
        &sodiumoxide::crypto::onetimeauth::Key(key),
    );
    assert_eq!(t.expected_result, tag.0);
    assert!(src.contains("            crypto_onetimeauth(a,c,132,rs);\n"));
    assert!(src.contains("        printresult(a, 16);\n"));
    assert!(src.contains("unsigned char a[16];\n"));
    t.expected_result = [0, 1, 0x0a, 0x10, 0xff, 0, 0, 0, 0, 0, 0, 0, 0, 0, 0, 0xab];
    assert_eq!(t.get_expected(), "[0, 1, a, 10, ff, 0, 0, 0, 0, 0, 0, 0, 0, 0, 0, ab]");
    t.copy_result_variables(read_result(t.expected_result.to_vec()));
    assert!(t.is_correct());
}

#[test]
fn generated_testcases_are_complete() {
    for f in Function::all() {
        let generated = f.generate_testcase(20);
        let (t, src) = match generated {
            Some(x) => x,
            None => continue,
        };
        assert!(src.contains("static int runs=21;"));
        let expected_len = f.get_outputlen();
        let e = t.get_expected();
        assert!(!e.is_empty());
        match t {
            TestcaseEnum::cryptobox(c) => {
                assert_eq!(&c.message[..32], &[0u8; 32]);
                assert_eq!(c.expected_result.len(), expected_len);
            },
            TestcaseEnum::secretbox(c) => assert_eq!(&c.message[..32], &[0u8; 32]),
            TestcaseEnum::salsa20(c) => assert_eq!(c.expected_result.len(), expected_len),
            TestcaseEnum::scalarmult(c) => assert_eq!(c.n[0] & 7, 0),
            TestcaseEnum::poly130(c) => assert_eq!(c.expected_result.len(), expected_len),
        }
    }
}

#[test]
fn testcase_enum_checks_and_reports() {
    let (t, _) = Poly1305Generator {}.testcase_from([1; 132], [2; 32], 0);
    let expected = t.expected_result.to_vec();
    let mut e = TestcaseEnum::poly130(t);
    assert!(!e.is_correct());
    e.copy_result_variables(read_result(expected));
    assert!(e.is_correct());
    let report = e.raw_report();
    assert!(report.contains("\nExpected result: ["));
}
