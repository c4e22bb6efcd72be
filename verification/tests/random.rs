use zeros_tooling::static_assert::{make_static_assert_names, parse_static_assert, random_failure_message, static_assert_names, static_assert_message, AssertToken, StaticAssertError};
use zeros_tooling::random::{ctor_item_names, ctor_section_name, ident_with, make_random_ident, random_ident, random_ident_name};

#[test]
fn generated_names() {
    assert_eq!(random_ident_name(42), "randomly_generated_ident_42");
    assert_eq!(ident_with(Some("__mod_"), 7, Some("__")), "__mod_7__");
    assert_eq!(ident_with(None, 7, None), "7");
    assert_eq!(ctor_section_name(65535), ".ctors_init_array.65535");
    let (m, f, p) = ctor_item_names(12);
    assert_eq!(m, "__local_ctors__12");
    assert_eq!(f, "__local_ctors_fn_exported__12");
    assert_eq!(p, "__LOCAL_CTORS_PTR_EXPORTED__12");
}

#[test]
fn random_names_have_their_shape() {
    let id = random_ident().unwrap();
    let digits = id.strip_prefix("randomly_generated_ident_").unwrap();
    assert!(!digits.is_empty() && digits.chars().all(|c| c.is_ascii_digit()));
    let other = make_random_ident(Some("a_"), Some("_z")).unwrap();
    assert!(other.starts_with("a_") && other.ends_with("_z"));
}

#[test]
fn static_assertion_messages() {
    assert_eq!(static_assert_message("N > 0", None), "static assertion `N > 0` failed");
    assert_eq!(static_assert_message("N > 0", Some("N must be positive")), "N must be positive");
}

#[test]
fn static_assert_arguments() {
    assert_eq!(parse_static_assert("N > 0", &vec![]), Ok("static assertion `N > 0` failed".to_string()));
    let with_msg = vec![AssertToken::Comma, AssertToken::StrLit("too small".to_string())];
    assert_eq!(parse_static_assert("N > 0", &with_msg), Ok("too small".to_string()));
    let not_lit = vec![AssertToken::Comma, AssertToken::Other("msg".to_string())];
    assert_eq!(parse_static_assert("N > 0", &not_lit), Err(StaticAssertError::ExpectedStringLiteral));
    assert_eq!(parse_static_assert("N > 0", &vec![AssertToken::Comma]), Err(StaticAssertError::ExpectedStringLiteral));
    let extra = vec![AssertToken::Comma, AssertToken::StrLit("m".to_string()), AssertToken::Other("x".to_string())];
    assert_eq!(parse_static_assert("N > 0", &extra), Err(StaticAssertError::UnexpectedToken));
    assert_eq!(parse_static_assert("N > 0", &vec![AssertToken::Other(";".to_string())]), Err(StaticAssertError::UnexpectedToken));
}

#[test]
fn static_assert_item_names() {
    let (m, f) = static_assert_names(42, 7);
    assert_eq!(m, "__random_module_for_static_assert_42__");
    assert_eq!(f, "__random_fn_for_static_assert_7__");
    let (m, f) = make_static_assert_names().unwrap();
    assert!(m.starts_with("__random_module_for_static_assert_") && m.ends_with("__"));
    assert!(f.starts_with("__random_fn_for_static_assert_") && f.ends_with("__"));
    assert_eq!(random_failure_message("no entropy"), "unable to get random number: no entropy");
}
