use zephyr_build::text::{chars_of, parse_unsigned, push_decimal, same_text, string_of};

fn decimal(n: u64) -> String {
    let mut out = String::from("n=");
    push_decimal(&mut out, n);
    out
}

#[test]
fn numbers_are_written_in_decimal() {
    assert_eq!(decimal(0), "n=0");
    assert_eq!(decimal(7), "n=7");
    assert_eq!(decimal(10), "n=10");
    assert_eq!(decimal(4096), "n=4096");
    assert_eq!(decimal(4294967295), "n=4294967295");
    assert_eq!(decimal(u64::MAX), "n=18446744073709551615");
}

#[test]
fn numbers_are_read_as_the_integer_types_read_them() {
    for (text, radix) in [
        ("0", 10),
        ("007", 10),
        ("+5", 10),
        ("4294967295", 10),
        ("4294967296", 10),
        ("", 10),
        ("+", 10),
        ("-", 10),
        ("-1", 10),
        ("++1", 10),
        ("1+", 10),
        (" 1", 10),
        ("1_000", 10),
        ("ff", 16),
        ("FF", 16),
        ("fg", 16),
        ("0x10", 16),
        ("ffffffff", 16),
        ("100000000", 16),
        ("zz", 36),
        ("12", 2),
        ("101", 2),
    ] {
        let expected = u32::from_str_radix(text, radix).ok().map(|n| n as u64);
        assert_eq!(parse_unsigned(text, radix, u32::MAX as u64), expected, "{:?}", text);
    }
    assert_eq!(parse_unsigned("255", 10, 255), Some(255));
    assert_eq!(parse_unsigned("256", 10, 255), None);
    assert_eq!(parse_unsigned("18446744073709551615", 10, u64::MAX), Some(u64::MAX));
    assert_eq!(parse_unsigned("18446744073709551616", 10, u64::MAX), None);
    assert_eq!(parse_unsigned("99999999999999999999999999999", 10, u64::MAX), None);
}

#[test]
fn text_is_copied_character_by_character() {
    let chars = chars_of("a\u{e9}\u{4e2d}z");
    assert_eq!(chars, vec!['a', '\u{e9}', '\u{4e2d}', 'z']);
    assert_eq!(string_of(&chars, 1, 3), "\u{e9}\u{4e2d}");
    assert_eq!(string_of(&chars, 2, 2), "");
    assert_eq!(string_of(&chars, 0, 4), "a\u{e9}\u{4e2d}z");
    assert!(same_text("abc", "abc"));
    assert!(!same_text("abc", "abd"));
    assert!(!same_text("abc", "ab"));
    assert!(same_text("", ""));
}
