use zeros_tooling::text::{
    chars_of, eq_ignore_ascii_case, join_strings, parse_isize, parse_usize, path_join, split_on, starts_with,
    strip_prefix, strip_suffix, trim_chars, u64_to_decimal,
};

#[test]
fn trimming() {
    let t: String = trim_chars(&chars_of("  \t hello world \n")).into_iter().collect();
    assert_eq!(t, "hello world");
    assert!(trim_chars(&chars_of("   ")).is_empty());
    let t: String = trim_chars(&chars_of("\u{3000}x\u{85}")).into_iter().collect();
    assert_eq!(t, "x");
}

#[test]
fn small_text_helpers() {
    assert_eq!(u64_to_decimal(0), "0");
    assert_eq!(u64_to_decimal(18446744073709551615), "18446744073709551615");
    assert_eq!(join_strings(&vec!["a".to_string(), "b".to_string()], '|'), "a|b");
    assert_eq!(path_join("/a", "b"), "/a/b");
    assert_eq!(path_join("/a/", "b"), "/a/b");
    assert_eq!(path_join("/a", "/b"), "/b");
    assert!(eq_ignore_ascii_case("AbC", "aBc"));
    assert!(starts_with("prefix-rest", "prefix"));
    assert_eq!(strip_prefix("libx", "lib").as_deref(), Some("x"));
    assert_eq!(strip_suffix("x.a", ".b"), None);
    assert_eq!(split_on(&chars_of("a,,b"), ',').len(), 3);
}

#[test]
fn integer_parsing() {
    assert_eq!(parse_isize("+12"), Some(12));
    assert_eq!(parse_isize("-9223372036854775808"), Some(isize::MIN));
    assert_eq!(parse_isize("9223372036854775808"), None);
    assert_eq!(parse_usize("-1"), None);
    assert_eq!(parse_usize("1_000"), None);
    assert_eq!(parse_usize(""), None);
}
