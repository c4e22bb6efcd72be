//! The arguments of `static_assert!`: a condition, then optionally a comma
//! and the message as a string literal.

use vstd::prelude::*;
use crate::random::{ident_with, random_u64};
use crate::text::decimal;

verus! {

/// A token that follows the condition of a static assertion.
pub enum AssertToken {
    /// `,`
    Comma,
    /// A string literal, by its value.
    StrLit(String),
    /// Any other token, as written.
    Other(String),
}

/// Why the arguments of a static assertion are refused.
#[derive(Clone, Copy, PartialEq, Eq, Debug)]
pub enum StaticAssertError {
    /// The comma is not followed by a string literal.
    ExpectedStringLiteral,
    /// Something follows the condition, or the message, that does not belong there.
    UnexpectedToken,
}

/// The message of a static assertion that gives none: it quotes the condition.
pub open spec fn default_assert_message(condition: Seq<char>) -> Seq<char> {
    "static assertion `"@ + condition + "` failed"@
}

/// The message that the arguments give, or why they are refused: no token
/// after the condition gives the default message; a comma and a string
/// literal give the literal's value; a comma followed by anything else, or
/// by nothing, is refused for the missing literal; anything else is refused.
pub open spec fn static_assert_spec(condition: Seq<char>, rest: Seq<AssertToken>) -> Result<Seq<char>, StaticAssertError> {
    if rest.len() == 0 {
        Ok(default_assert_message(condition))
    } else if rest[0] is Comma {
        if rest.len() >= 2 && rest[1] is StrLit {
            if rest.len() == 2 {
                Ok(rest[1]->StrLit_0@)
            } else {
                Err(StaticAssertError::UnexpectedToken)
            }
        } else {
            Err(StaticAssertError::ExpectedStringLiteral)
        }
    } else {
        Err(StaticAssertError::UnexpectedToken)
    }
}

/// The message of a static assertion: the one given, else one that quotes
/// the condition.
pub fn static_assert_message(condition: &str, msg: Option<&str>) -> (res: String)
    ensures
        res@ == match msg {
            Some(m) => m@,
            None => default_assert_message(condition@),
        },
{
    match msg {
        Some(m) => m.to_owned(),
        None => {
            let mut s = "static assertion `".to_owned();
            s.append(condition);
            s.append("` failed");
            s
        },
    }
}

/// Reads what follows the condition of a static assertion (see
/// [`static_assert_spec`]) and gives the assertion's message.
pub fn parse_static_assert(condition: &str, rest: &Vec<AssertToken>) -> (res: Result<String, StaticAssertError>)
    ensures
        match static_assert_spec(condition@, rest@) {
            Ok(m) => res matches Ok(s) && s@ == m,
            Err(e) => res == Err::<String, StaticAssertError>(e),
        },
{
    if rest.len() == 0 {
        return Ok(static_assert_message(condition, None));
    }
    match &rest[0] {
        AssertToken::Comma => {},
        _ => return Err(StaticAssertError::UnexpectedToken),
    }
    if rest.len() < 2 {
        return Err(StaticAssertError::ExpectedStringLiteral);
    }
    match &rest[1] {
        AssertToken::StrLit(m) => {
            if rest.len() == 2 {
                Ok(static_assert_message(condition, Some(m.as_str())))
            } else {
                Err(StaticAssertError::UnexpectedToken)
            }
        },
        _ => Err(StaticAssertError::ExpectedStringLiteral),
    }
}

/// The name of the module that a static assertion expands to, made of a
/// random number.
pub open spec fn assert_module_name(n: nat) -> Seq<char> {
    "__random_module_for_static_assert_"@ + decimal(n) + "__"@
}

/// The name of the constant function that evaluates a static assertion,
/// made of a random number.
pub open spec fn assert_fn_name(n: nat) -> Seq<char> {
    "__random_fn_for_static_assert_"@ + decimal(n) + "__"@
}

/// The names of the module and of the function that a static assertion
/// expands to, made of the two numbers drawn for them.
pub fn static_assert_names(module_draw: u64, fn_draw: u64) -> (res: (String, String))
    ensures
        res.0@ == assert_module_name(module_draw as nat),
        res.1@ == assert_fn_name(fn_draw as nat),
{
    let m = ident_with(Some("__random_module_for_static_assert_"), module_draw, Some("__"));
    let f = ident_with(Some("__random_fn_for_static_assert_"), fn_draw, Some("__"));
    (m, f)
}

/// Draws the names of a static assertion's module and function (see
/// [`static_assert_names`]); `None` where the random source fails.
pub fn make_static_assert_names() -> (res: Option<(String, String)>)
    ensures
        res matches Some((m, f)) ==> exists|a: u64, b: u64|
            m@ == assert_module_name(a as nat) && f@ == assert_fn_name(b as nat),
{
    let a = match random_u64() {
        Some(n) => n,
        None => return None,
    };
    let b = match random_u64() {
        Some(n) => n,
        None => return None,
    };
    Some(static_assert_names(a, b))
}

/// The message given in place of a static assertion when the random source fails.
pub fn random_failure_message(err: &str) -> (res: String)
    ensures
        res@ == "unable to get random number: "@ + err@,
{
    let mut m = "unable to get random number: ".to_owned();
    m.append(err);
    m
}

} // verus!
