use testframework::format::hex_debug_string;
use testframework::numparse::{parse_i32_str, push_i32};
use testframework::text::{contains_str, remove_str, starts_with, str_eq, trim_str};
use testframework::utils::{short_initializer, u8_to_string, u8_to_string_variable};

#[test]
fn u8_to_string_variable_renders_a_c_array() {
    assert_eq!(
        u8_to_string_variable(&[0x00, 0x0a, 0xff], "n"),
        "        static unsigned char n[3] = {0x00, 0x0a, 0xff};"
    );
    assert_eq!(u8_to_string_variable(&[7], "k"), "        static unsigned char k[1] = {0x07};");
}

#[test]
fn u8_to_string_renders_padded_literals() {
    assert_eq!(u8_to_string(&[1, 0x10, 0xab]), "0x01, 0x10, 0xab");
    assert_eq!(u8_to_string(&[0]), "0x00");
}

#[test]
fn short_initializer_drops_leading_zeros() {
    assert_eq!(short_initializer("x = {", &[0, 0x0f, 0x10]), "x = {0x0, 0xf, 0x10};");
    assert_eq!(short_initializer("x = {", &[]), "x = {};");
}

#[test]
fn hex_debug_string_matches_std_formatting() {
    let bytes = [0u8, 1, 0x0a, 0x10, 0xff];
    assert_eq!(hex_debug_string(&bytes), format!("{:x?}", bytes));
    assert_eq!(hex_debug_string(&[]), "[]");
}

#[test]
fn text_helpers_follow_std() {
    assert_eq!(trim_str("  a b \t\n"), "a b");
    assert_eq!(trim_str("\u{3000}x\u{a0}"), "x");
    assert!(starts_with("Result: 12", "Result:"));
    assert!(!starts_with("Res", "Result:"));
    assert!(str_eq("abc", "abc"));
    assert!(!str_eq("abc", "abd"));
    assert!(contains_str("xx Bench Clock Reset Complete", "Reset"));
    assert!(!contains_str("short", "longer pattern"));
    assert_eq!(remove_str("a--b--c", "--"), "abc");
    assert_eq!(remove_str("---", "--"), "-");
}

#[test]
fn i32_parsing_and_printing() {
    assert_eq!(parse_i32_str("42"), Some(42));
    assert_eq!(parse_i32_str("+7"), Some(7));
    assert_eq!(parse_i32_str("-2147483648"), Some(i32::MIN));
    assert_eq!(parse_i32_str("2147483648"), None);
    assert_eq!(parse_i32_str(""), None);
    assert_eq!(parse_i32_str("-"), None);
    assert_eq!(parse_i32_str(" 1"), None);
    for v in [0, 5, -5, 123456, i32::MAX, i32::MIN] {
        let mut s = String::new();
        push_i32(&mut s, v);
        assert_eq!(s, v.to_string());
        assert_eq!(parse_i32_str(&s), Some(v));
    }
}
