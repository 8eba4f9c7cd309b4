use duja_platform::text::{
    chars_of, decimal, eq_ignore_ascii_case, find, join2, join3, parse_u64, push_chars, same_chars,
    signed_decimal, starts_with, string_of, trim, white_space,
};

#[test]
fn strings_and_characters_convert_both_ways() {
    let chars = chars_of("a\u{e9}\u{1f600}");
    assert_eq!(chars, vec!['a', '\u{e9}', '\u{1f600}']);
    assert_eq!(string_of(&chars), "a\u{e9}\u{1f600}");
    let mut out = "x".to_owned();
    push_chars(&mut out, &chars);
    assert_eq!(out, "xa\u{e9}\u{1f600}");
    assert!(same_chars(&chars, &chars_of("a\u{e9}\u{1f600}")));
    assert!(!same_chars(&chars, &chars_of("a")));
    assert_eq!(join2("a", "b"), "ab");
    assert_eq!(join3("a", "b", "c"), "abc");
}

#[test]
fn white_space_is_what_std_says_it_is() {
    for code in 0..0x3100_u32 {
        if let Some(c) = char::from_u32(code) {
            assert_eq!(white_space(c), c.is_whitespace(), "{code:#x}");
        }
    }
    assert_eq!(string_of(trim(&chars_of(" \t a b \n"))), "a b");
    assert!(trim(&chars_of("  ")).is_empty());
}

#[test]
fn case_is_folded_for_ascii_only() {
    let same = |a: &str, b: &str| eq_ignore_ascii_case(&chars_of(a), &chars_of(b));
    assert!(same("TrUe", "true"));
    assert!(!same("true", "truer"));
    assert!(!same("\u{c9}", "\u{e9}"));
    assert!(!same("@", "`"));
}

#[test]
fn searching_finds_the_first_match() {
    let hay = chars_of("abcabc");
    assert_eq!(find(&hay, &chars_of("bc"), 0), Some(1));
    assert_eq!(find(&hay, &chars_of("bc"), 2), Some(4));
    assert_eq!(find(&hay, &chars_of("cb"), 0), None);
    assert_eq!(find(&hay, &chars_of(""), 3), Some(3));
    assert!(starts_with(&hay, &chars_of("abc")));
    assert!(!starts_with(&hay, &chars_of("bc")));
}

#[test]
fn numbers_are_written_and_read() {
    for n in [0, 7, 10, 909, u64::MAX] {
        assert_eq!(decimal(n), n.to_string());
        assert_eq!(parse_u64(&chars_of(&decimal(n))), Some(n));
    }
    assert_eq!(signed_decimal(i32::MIN), i32::MIN.to_string());
    assert_eq!(signed_decimal(-1), "-1");
    assert_eq!(signed_decimal(12), "12");
    assert_eq!(parse_u64(&chars_of("+5")), Some(5));
    for bad in ["", "+", "-1", "1x", "18446744073709551616"] {
        assert_eq!(parse_u64(&chars_of(bad)), None, "{bad}");
    }
}
