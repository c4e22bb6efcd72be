//! Random numbers from the system's source, and the generated names built
//! from them.

use vstd::prelude::*;
use crate::text::{decimal, u64_to_decimal};

verus! {

/// `getrandom::u64`: a random number from the system's source, or `None`
/// when the source fails. Nothing is stated of the number.
#[verifier::external_body]
pub(crate) fn random_u64() -> (res: Option<u64>) {
    getrandom::u64().ok()
}

/// `getrandom::u32`: a random number from the system's source, or `None`
/// when the source fails. Nothing is stated of the number.
#[verifier::external_body]
pub(crate) fn random_u32() -> (res: Option<u32>) {
    getrandom::u32().ok()
}

/// A random number, as `random_number!()` expands to; `None` where the
/// system's source fails.
pub fn random_number() -> (res: Option<u32>) {
    random_u32()
}

/// The identifier that `random_ident!()` makes of a random number.
pub open spec fn random_ident_of(n: nat) -> Seq<char> {
    "randomly_generated_ident_"@ + decimal(n)
}

/// The identifier made of a random number (see [`random_ident_of`]).
pub fn random_ident_name(n: u32) -> (res: String)
    ensures
        res@ == random_ident_of(n as nat),
{
    let mut s = "randomly_generated_ident_".to_owned();
    s.append(u64_to_decimal(n as u64).as_str());
    s
}

/// A random identifier, as `random_ident!()` expands to; `None` where the
/// system's source fails, else an identifier made of some number.
pub fn random_ident() -> (res: Option<String>)
    ensures
        res matches Some(s) ==> exists|n: u32| s@ == random_ident_of(n as nat),
{
    match random_u32() {
        Some(n) => Some(random_ident_name(n)),
        None => None,
    }
}

/// The identifier made of a random number between a prefix and a suffix.
pub fn ident_with(prefix: Option<&str>, n: u64, suffix: Option<&str>) -> (res: String)
    ensures
        res@ == match prefix {
            Some(p) => p@,
            None => Seq::<char>::empty(),
        } + decimal(n as nat) + match suffix {
            Some(x) => x@,
            None => Seq::<char>::empty(),
        },
{
    let mut s = String::new();
    if let Some(p) = prefix {
        s.append(p);
    }
    s.append(u64_to_decimal(n).as_str());
    if let Some(x) = suffix {
        s.append(x);
    }
    s
}

/// A random identifier between a prefix and a suffix; `None` where the
/// system's source fails.
pub fn make_random_ident(prefix: Option<&str>, suffix: Option<&str>) -> (res: Option<String>)
    ensures
        res matches Some(s) ==> exists|n: u64| s@ == match prefix {
            Some(p) => p@,
            None => Seq::<char>::empty(),
        } + decimal(n as nat) + match suffix {
            Some(x) => x@,
            None => Seq::<char>::empty(),
        },
{
    match random_u64() {
        Some(n) => Some(ident_with(prefix, n, suffix)),
        None => None,
    }
}

/// The section that a constructor of the given priority is placed in.
pub fn ctor_section_name(prio: usize) -> (res: String)
    ensures
        res@ == ".ctors_init_array."@ + decimal(prio as nat),
{
    let mut s = ".ctors_init_array.".to_owned();
    s.append(u64_to_decimal(prio as u64).as_str());
    s
}

/// The names of the items a constructor expands to, made of a random
/// number: its module, its exported function and the exported pointer to it.
pub fn ctor_item_names(n: u64) -> (res: (String, String, String))
    ensures
        res.0@ == "__local_ctors__"@ + decimal(n as nat),
        res.1@ == "__local_ctors_fn_exported__"@ + decimal(n as nat),
        res.2@ == "__LOCAL_CTORS_PTR_EXPORTED__"@ + decimal(n as nat),
{
    let digits = u64_to_decimal(n);
    let mut m = "__local_ctors__".to_owned();
    m.append(digits.as_str());
    let mut f = "__local_ctors_fn_exported__".to_owned();
    f.append(digits.as_str());
    let mut p = "__LOCAL_CTORS_PTR_EXPORTED__".to_owned();
    p.append(digits.as_str());
    (m, f, p)
}

} // verus!
