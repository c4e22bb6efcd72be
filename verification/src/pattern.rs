//! Regular expressions, compiled and searched by the `regex` crate.

use vstd::prelude::*;
use crate::runnable::opt_string_view;

verus! {

#[verifier::external_type_specification]
#[verifier::external_body]
pub struct ExRegex(regex::Regex);

/// Whether `regex::Regex::new` accepts a pattern: its syntax is valid and
/// the compiled expression stays within the crate's default size limit.
pub uninterp spec fn pattern_compiles(pattern: Seq<char>) -> bool;

/// The text of capture group `group` in the leftmost-first match of
/// `pattern` in `text`, as `regex` finds it; `None` where the pattern does
/// not match or the group takes no part in the match.
pub uninterp spec fn pattern_capture(pattern: Seq<char>, text: Seq<char>, group: nat) -> Option<Seq<char>>;

/// A compiled regular expression, with the pattern it was compiled from.
pub(crate) struct CompiledPattern {
    source: String,
    re: regex::Regex,
}

impl View for CompiledPattern {
    type V = Seq<char>;

    /// The pattern the expression was compiled from.
    closed spec fn view(&self) -> Seq<char> {
        self.source@
    }
}

/// Compiles a pattern with `regex::Regex::new`; `None` where the crate
/// returns an error. The contract claims that the crate accepts exactly the
/// patterns of [`pattern_compiles`], and that the result remembers its pattern.
#[verifier::external_body]
pub(crate) fn compile_pattern(pattern: &str) -> (res: Option<CompiledPattern>)
    ensures
        res is Some <==> pattern_compiles(pattern@),
        res matches Some(p) ==> p@ == pattern@,
{
    match regex::Regex::new(pattern) {
        Ok(re) => Some(CompiledPattern { source: pattern.to_string(), re }),
        Err(_) => None,
    }
}

/// The text of a capture group of the first match in `text`, through
/// `regex::Regex::captures` and `regex::Captures::get`. The contract
/// claims that the result is [`pattern_capture`] of the compiled pattern.
#[verifier::external_body]
pub(crate) fn capture_group(p: &CompiledPattern, text: &str, group: usize) -> (res: Option<String>)
    ensures
        opt_string_view(res) == pattern_capture(p@, text@, group as nat),
{
    match p.re.captures(text) {
        Some(caps) => match caps.get(group) {
            Some(m) => Some(m.as_str().to_string()),
            None => None,
        },
        None => None,
    }
}

} // verus!
