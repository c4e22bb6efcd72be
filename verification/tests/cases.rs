use zeros_tooling::cases::{style_name, variant_name_spellings, CaseKind, MultiCaseStaticString};

#[test]
fn multi_case_strings() {
    let s = MultiCaseStaticString::new([
        "lower", "UPPER", "UpperCamel", "lowerCamel", "snake_case", "kebab-case", "SHOUTY_SNAKE", "Title Case",
        "SHOUTY-KEBAB", "Train-Case",
    ]);
    assert_eq!(s.get(CaseKind::LowerCase), "lower");
    assert_eq!(s.get(CaseKind::KebabCase), "kebab-case");
    assert_eq!(s.get(CaseKind::TrainCase), "Train-Case");
    assert_eq!(CaseKind::ShoutySnakeCase.index(), 6);
}

#[test]
fn case_styles() {
    assert_eq!(style_name("PowerPC64", CaseKind::LowerCase), "powerpc64");
    assert_eq!(style_name("mixedWord", CaseKind::UpperCase), "MIXEDWORD");
    assert_eq!(style_name("straße", CaseKind::UpperCase), "STRASSE");
    assert_eq!(style_name("ÀB", CaseKind::LowerCase), "àb");
    assert_eq!(style_name("loong_arch64", CaseKind::UpperCamelCase), "LoongArch64");
    assert_eq!(style_name("ReleaseLTO", CaseKind::SnakeCase), "release_lto");
    assert_eq!(style_name("ReleaseLTO", CaseKind::KebabCase), "release-lto");
    assert_eq!(style_name("big endian", CaseKind::ShoutySnakeCase), "BIG_ENDIAN");
    assert_eq!(style_name("some_name", CaseKind::LowerCamelCase), "someName");
    assert_eq!(style_name("some_name", CaseKind::TitleCase), "Some Name");
    assert_eq!(style_name("some_name", CaseKind::ShoutyKebabCase), "SOME-NAME");
    assert_eq!(style_name("some_name", CaseKind::TrainCase), "Some-Name");
}

#[test]
fn variant_spellings() {
    let v = variant_name_spellings("DevLTO");
    assert_eq!(v.len(), 10);
    assert_eq!(v[0], "devlto");
    assert_eq!(v[5], "dev-lto");
    assert_eq!(v[9], "Dev-Lto");
}

#[test]
fn spelling_looked_up_by_style() {
    let v = variant_name_spellings("DevLTO");
    assert_eq!(v[CaseKind::KebabCase.index()], style_name("DevLTO", CaseKind::KebabCase));
    assert_eq!(v[CaseKind::ShoutySnakeCase.index()], "DEV_LTO");
}
