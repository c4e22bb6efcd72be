//! Names written in several letter cases, and the case conversions that
//! produce them.

use vstd::prelude::*;
use crate::text::{to_lowercase, to_uppercase, unicode_lower, unicode_upper};

verus! {

/// A style of writing a name.
#[derive(Clone, Copy, PartialEq, Eq, Debug)]
pub enum CaseKind {
    LowerCase,
    UpperCase,
    UpperCamelCase,
    LowerCamelCase,
    SnakeCase,
    KebabCase,
    ShoutySnakeCase,
    TitleCase,
    ShoutyKebabCase,
    TrainCase,
}

/// The position of a style among the ten, in declaration order.
pub open spec fn case_index(k: CaseKind) -> int {
    match k {
        CaseKind::LowerCase => 0,
        CaseKind::UpperCase => 1,
        CaseKind::UpperCamelCase => 2,
        CaseKind::LowerCamelCase => 3,
        CaseKind::SnakeCase => 4,
        CaseKind::KebabCase => 5,
        CaseKind::ShoutySnakeCase => 6,
        CaseKind::TitleCase => 7,
        CaseKind::ShoutyKebabCase => 8,
        CaseKind::TrainCase => 9,
    }
}

impl CaseKind {
    /// The position of the style among the ten, in declaration order.
    pub fn index(&self) -> (res: usize)
        ensures
            res == case_index(*self),
    {
        match self {
            CaseKind::LowerCase => 0,
            CaseKind::UpperCase => 1,
            CaseKind::UpperCamelCase => 2,
            CaseKind::LowerCamelCase => 3,
            CaseKind::SnakeCase => 4,
            CaseKind::KebabCase => 5,
            CaseKind::ShoutySnakeCase => 6,
            CaseKind::TitleCase => 7,
            CaseKind::ShoutyKebabCase => 8,
            CaseKind::TrainCase => 9,
        }
    }
}

/// One name written in each of the ten styles, in the order of [`CaseKind`].
pub struct MultiCaseStaticString {
    strings: [&'static str; 10],
}

impl MultiCaseStaticString {
    /// The ten spellings, in the order of [`CaseKind`].
    pub closed spec fn spellings(&self) -> Seq<&'static str> {
        self.strings@
    }

    /// Holds the ten spellings of a name, in the order of [`CaseKind`].
    pub fn new(strings: [&'static str; 10]) -> (res: Self)
        ensures
            res.spellings() == strings@,
    {
        MultiCaseStaticString { strings }
    }

    /// The spelling of the name in the given style.
    pub fn get(&self, style: CaseKind) -> (res: &'static str)
        ensures
            res == self.spellings()[case_index(style)],
    {
        self.strings[style.index()]
    }
}

/// What `heck` makes of a name in `UpperCamelCase`.
pub uninterp spec fn upper_camel_case(s: Seq<char>) -> Seq<char>;

/// What `heck` makes of a name in `lowerCamelCase`.
pub uninterp spec fn lower_camel_case(s: Seq<char>) -> Seq<char>;

/// What `heck` makes of a name in `snake_case`.
pub uninterp spec fn snake_case(s: Seq<char>) -> Seq<char>;

/// What `heck` makes of a name in `kebab-case`.
pub uninterp spec fn kebab_case(s: Seq<char>) -> Seq<char>;

/// What `heck` makes of a name in `SHOUTY_SNAKE_CASE`.
pub uninterp spec fn shouty_snake_case(s: Seq<char>) -> Seq<char>;

/// What `heck` makes of a name in `Title Case`.
pub uninterp spec fn title_case(s: Seq<char>) -> Seq<char>;

/// What `heck` makes of a name in `SHOUTY-KEBAB-CASE`.
pub uninterp spec fn shouty_kebab_case(s: Seq<char>) -> Seq<char>;

/// What `heck` makes of a name in `Train-Case`.
pub uninterp spec fn train_case(s: Seq<char>) -> Seq<char>;

/// `heck::ToUpperCamelCase::to_upper_camel_case`; its result is named, not restated.
#[verifier::external_body]
fn to_upper_camel(s: &str) -> (res: String)
    ensures
        res@ == upper_camel_case(s@),
{
    heck::ToUpperCamelCase::to_upper_camel_case(s)
}

/// `heck::ToLowerCamelCase::to_lower_camel_case`; its result is named, not restated.
#[verifier::external_body]
fn to_lower_camel(s: &str) -> (res: String)
    ensures
        res@ == lower_camel_case(s@),
{
    heck::ToLowerCamelCase::to_lower_camel_case(s)
}

/// `heck::ToSnakeCase::to_snake_case`; its result is named, not restated.
#[verifier::external_body]
fn to_snake(s: &str) -> (res: String)
    ensures
        res@ == snake_case(s@),
{
    heck::ToSnakeCase::to_snake_case(s)
}

/// `heck::ToKebabCase::to_kebab_case`; its result is named, not restated.
#[verifier::external_body]
fn to_kebab(s: &str) -> (res: String)
    ensures
        res@ == kebab_case(s@),
{
    heck::ToKebabCase::to_kebab_case(s)
}

/// `heck::ToShoutySnakeCase::to_shouty_snake_case`; its result is named, not restated.
#[verifier::external_body]
fn to_shouty_snake(s: &str) -> (res: String)
    ensures
        res@ == shouty_snake_case(s@),
{
    heck::ToShoutySnakeCase::to_shouty_snake_case(s)
}

/// `heck::ToTitleCase::to_title_case`; its result is named, not restated.
#[verifier::external_body]
fn to_title(s: &str) -> (res: String)
    ensures
        res@ == title_case(s@),
{
    heck::ToTitleCase::to_title_case(s)
}

/// `heck::ToShoutyKebabCase::to_shouty_kebab_case`; its result is named, not restated.
#[verifier::external_body]
fn to_shouty_kebab(s: &str) -> (res: String)
    ensures
        res@ == shouty_kebab_case(s@),
{
    heck::ToShoutyKebabCase::to_shouty_kebab_case(s)
}

/// `heck::ToTrainCase::to_train_case`; its result is named, not restated.
#[verifier::external_body]
fn to_train(s: &str) -> (res: String)
    ensures
        res@ == train_case(s@),
{
    heck::ToTrainCase::to_train_case(s)
}

/// The spelling of a name in a style.
pub open spec fn styled(name: Seq<char>, k: CaseKind) -> Seq<char> {
    match k {
        CaseKind::LowerCase => unicode_lower(name),
        CaseKind::UpperCase => unicode_upper(name),
        CaseKind::UpperCamelCase => upper_camel_case(name),
        CaseKind::LowerCamelCase => lower_camel_case(name),
        CaseKind::SnakeCase => snake_case(name),
        CaseKind::KebabCase => kebab_case(name),
        CaseKind::ShoutySnakeCase => shouty_snake_case(name),
        CaseKind::TitleCase => title_case(name),
        CaseKind::ShoutyKebabCase => shouty_kebab_case(name),
        CaseKind::TrainCase => train_case(name),
    }
}

/// Writes a name in one style.
pub fn style_name(name: &str, k: CaseKind) -> (res: String)
    ensures
        res@ == styled(name@, k),
{
    match k {
        CaseKind::LowerCase => to_lowercase(name),
        CaseKind::UpperCase => to_uppercase(name),
        CaseKind::UpperCamelCase => to_upper_camel(name),
        CaseKind::LowerCamelCase => to_lower_camel(name),
        CaseKind::SnakeCase => to_snake(name),
        CaseKind::KebabCase => to_kebab(name),
        CaseKind::ShoutySnakeCase => to_shouty_snake(name),
        CaseKind::TitleCase => to_title(name),
        CaseKind::ShoutyKebabCase => to_shouty_kebab(name),
        CaseKind::TrainCase => to_train(name),
    }
}

/// The ten styles, in declaration order.
pub open spec fn all_kinds() -> Seq<CaseKind> {
    seq![
        CaseKind::LowerCase,
        CaseKind::UpperCase,
        CaseKind::UpperCamelCase,
        CaseKind::LowerCamelCase,
        CaseKind::SnakeCase,
        CaseKind::KebabCase,
        CaseKind::ShoutySnakeCase,
        CaseKind::TitleCase,
        CaseKind::ShoutyKebabCase,
        CaseKind::TrainCase,
    ]
}

/// The spellings of an enum variant's name in the ten styles, in the order
/// of [`CaseKind`]: what `#[gen_variant_names]` stores for each variant.
pub fn variant_name_spellings(name: &str) -> (res: Vec<String>)
    ensures
        res@.len() == 10,
        forall|i: int| 0 <= i < 10 ==> (#[trigger] res@[i])@ == styled(name@, all_kinds()[i]),
{
    let kinds = [
        CaseKind::LowerCase,
        CaseKind::UpperCase,
        CaseKind::UpperCamelCase,
        CaseKind::LowerCamelCase,
        CaseKind::SnakeCase,
        CaseKind::KebabCase,
        CaseKind::ShoutySnakeCase,
        CaseKind::TitleCase,
        CaseKind::ShoutyKebabCase,
        CaseKind::TrainCase,
    ];
    assert(kinds@ =~= all_kinds());
    let mut res: Vec<String> = Vec::new();
    let mut i: usize = 0;
    while i < 10
        invariant
            i <= 10,
            kinds@ == all_kinds(),
            res@.len() == i,
            forall|j: int| 0 <= j < i ==> (#[trigger] res@[j])@ == styled(name@, all_kinds()[j]),
        decreases 10 - i,
    {
        res.push(style_name(name, kinds[i]));
        i += 1;
    }
    res
}

/// Each style stands at its own position among the ten.
pub proof fn lemma_style_at_its_index(k: CaseKind)
    ensures
        0 <= case_index(k) < 10,
        all_kinds()[case_index(k)] == k,
{
    match k {
        CaseKind::LowerCase => {},
        CaseKind::UpperCase => {},
        CaseKind::UpperCamelCase => {},
        CaseKind::LowerCamelCase => {},
        CaseKind::SnakeCase => {},
        CaseKind::KebabCase => {},
        CaseKind::ShoutySnakeCase => {},
        CaseKind::TitleCase => {},
        CaseKind::ShoutyKebabCase => {},
        CaseKind::TrainCase => {},
    }
}

/// Looking a style up among the ten spellings that are stored for a
/// variant's name gives that name written in the style.
pub proof fn lemma_lookup_gives_styled_name(name: Seq<char>, m: MultiCaseStaticString, k: CaseKind)
    requires
        m.spellings().len() == 10,
        forall|i: int| 0 <= i < 10 ==> (#[trigger] m.spellings()[i])@ == styled(name, all_kinds()[i]),
    ensures
        m.spellings()[case_index(k)]@ == styled(name, k),
{
    lemma_style_at_its_index(k);
}

} // verus!
