use capture_gui::text::{
    chars_of, join2, join3, decimal_string, has_prefix, has_substring, has_suffix, owned,
    parse_i32, parse_small_signed, parse_u32, signed_decimal_string, str_eq, string_of, sub_string, trim_str,
};

fn cs(s: &str) -> Vec<char> {
    s.chars().collect()
}

#[test]
fn chars_and_strings_round_trip() {
    let v = chars_of("héllo");
    assert_eq!(v, vec!['h', 'é', 'l', 'l', 'o']);
    assert_eq!(string_of(&v), "héllo");
    assert_eq!(string_of(&[]), "");
    assert_eq!(owned("abc"), "abc");
}

#[test]
fn concatenation_appends_in_order() {
    assert_eq!(join2("ab", "cd"), "abcd");
    assert_eq!(join2("", "x"), "x");
    assert_eq!(join3("http://", "host", ":1234"), "http://host:1234");
}

#[test]
fn substring_takes_the_character_range() {
    let v = cs("session-42");
    assert_eq!(sub_string(&v, 8, 10), "42");
    assert_eq!(sub_string(&v, 3, 3), "");
}

#[test]
fn string_equality_is_exact() {
    assert!(str_eq("running", "running"));
    assert!(!str_eq("running", "Running"));
    assert!(!str_eq("run", "running"));
}

#[test]
fn trimming_removes_unicode_whitespace_on_both_ends() {
    assert_eq!(trim_str("  hello world \n"), "hello world");
    assert_eq!(trim_str("\u{3000}x\t"), "x");
    assert_eq!(trim_str("   "), "");
    assert_eq!(trim_str(""), "");
}

#[test]
fn prefix_suffix_and_substring_tests() {
    assert!(has_prefix(&cs("data: {}"), &cs("data: ")));
    assert!(!has_prefix(&cs("data"), &cs("data: ")));
    assert!(has_suffix(&cs("Capture-0.3.0.dmg"), &cs(".dmg")));
    assert!(!has_suffix(&cs("Capture.zip"), &cs(".dmg")));
    assert!(has_substring(&cs("english"), &cs("gli")));
    assert!(has_substring(&cs("x"), &cs("")));
    assert!(!has_substring(&cs("english"), &cs("glx")));
}

#[test]
fn unsigned_parsing_follows_str_parse() {
    assert_eq!(parse_u32(&cs("1234")), Some(1234));
    assert_eq!(parse_u32(&cs("+7")), Some(7));
    assert_eq!(parse_u32(&cs("007")), Some(7));
    assert_eq!(parse_u32(&cs("4294967295")), Some(u32::MAX));
    assert_eq!(parse_u32(&cs("4294967296")), None);
    assert_eq!(parse_u32(&cs("")), None);
    assert_eq!(parse_u32(&cs("+")), None);
    assert_eq!(parse_u32(&cs("-1")), None);
    assert_eq!(parse_u32(&cs("12a")), None);
    assert_eq!(parse_u32(&cs(" 1")), None);
}

#[test]
fn small_signed_parsing_follows_str_parse() {
    assert_eq!(parse_small_signed(&cs("2026")), Some(2026));
    assert_eq!(parse_small_signed(&cs("-05")), Some(-5));
    assert_eq!(parse_small_signed(&cs("+9")), Some(9));
    assert_eq!(parse_small_signed(&cs("-")), None);
    assert_eq!(parse_small_signed(&cs("1:")), None);
}

#[test]
fn decimal_rendering_has_no_leading_zeros() {
    assert_eq!(decimal_string(0), "0");
    assert_eq!(decimal_string(7), "7");
    assert_eq!(decimal_string(120), "120");
    assert_eq!(decimal_string(u64::MAX), "18446744073709551615");
}

#[test]
fn i32_parsing_follows_str_parse() {
    assert_eq!(parse_i32(&cs("2147483647")), Some(i32::MAX));
    assert_eq!(parse_i32(&cs("-2147483648")), Some(i32::MIN));
    assert_eq!(parse_i32(&cs("2147483648")), None);
    assert_eq!(parse_i32(&cs("-2147483649")), None);
    assert_eq!(parse_i32(&cs("+12")), Some(12));
    assert_eq!(parse_i32(&cs("-0")), Some(0));
    assert_eq!(parse_i32(&cs("")), None);
    assert_eq!(parse_i32(&cs("-")), None);
    assert_eq!(parse_i32(&cs("1 ")), None);
    assert_eq!(parse_i32(&cs("99999999999999999999x")), None);
}

#[test]
fn signed_decimal_rendering() {
    assert_eq!(signed_decimal_string(0), "0");
    assert_eq!(signed_decimal_string(-42), "-42");
    assert_eq!(signed_decimal_string(i64::MIN), "-9223372036854775808");
    assert_eq!(signed_decimal_string(i64::MAX), "9223372036854775807");
}
