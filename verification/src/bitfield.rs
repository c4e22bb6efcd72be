//! Bit fields packed into a byte array: the accessors that a `bitfield!`
//! declaration produces, the layout of its fields, and the handling of the
//! attributes that ask for extra items or size checks.

use vstd::prelude::*;
use vstd::arithmetic::power2::{pow2, lemma_pow2_unfold, lemma_pow2_pos};
use vstd::arithmetic::div_mod::{lemma_mod_breakdown, lemma_div_denominator};
use vstd::bits::lemma_u128_shr_is_div;
use crate::text::{
    ascii_chars, ascii_upper_byte, bytes_spell, bytes_to_ascii_uppercase, chars_of, chars_spell,
    to_uppercase, unicode_upper,
};

verus! {

/// Bit `i` of a byte array: bit `i % 8` (counting from the least significant)
/// of byte `i / 8`.
pub open spec fn bit_at(bytes: Seq<u8>, i: int) -> bool {
    (bytes[i / 8] >> ((i % 8) as u8)) & 1u8 == 1u8
}

/// The unsigned value held by the `len` bits starting at bit `start`, the
/// bit at `start` being the least significant.
pub open spec fn field_value(bytes: Seq<u8>, start: int, len: nat) -> nat
    decreases len,
{
    if len == 0 {
        0
    } else {
        (if bit_at(bytes, start) { 1nat } else { 0nat }) + 2 * field_value(bytes, start + 1, (len - 1) as nat)
    }
}

/// Bit `k` of `val`.
pub open spec fn nth_bit(val: u128, k: u128) -> bool {
    (val >> k) & 1u128 == 1u128
}

/// Bit `p` of the array after the `len` bits at `start` were written with the
/// low bits of `val`.
pub open spec fn written_bit(old: Seq<u8>, start: int, len: nat, val: u128, p: int) -> bool {
    if start <= p < start + len {
        nth_bit(val, (p - start) as u128)
    } else {
        bit_at(old, p)
    }
}

/// `new` is `old` with the `len` bits at `start` replaced by the low bits of `val`.
pub open spec fn field_written(old: Seq<u8>, new: Seq<u8>, start: int, len: nat, val: u128) -> bool {
    &&& new.len() == old.len()
    &&& forall|p: int| 0 <= p < 8 * old.len() ==> #[trigger] bit_at(new, p) == written_bit(old, start, len, val, p)
}

proof fn lemma_field_value_bound(bytes: Seq<u8>, start: int, len: nat)
    ensures
        field_value(bytes, start, len) < pow2(len),
    decreases len,
{
    if len > 0 {
        lemma_field_value_bound(bytes, start + 1, (len - 1) as nat);
        lemma_pow2_unfold(len);
    } else {
        vstd::arithmetic::power2::lemma2_to64();
    }
}

proof fn lemma_pow2_128()
    ensures
        pow2(128) == 0x1_0000_0000_0000_0000_0000_0000_0000_0000,
        pow2(127) == 0x8000_0000_0000_0000_0000_0000_0000_0000,
{
    vstd::arithmetic::power2::lemma2_to64();
    vstd::arithmetic::power2::lemma_pow2_adds(64, 64);
    lemma_pow2_unfold(128);
}

fn read_bit(bytes: &Vec<u8>, i: usize) -> (res: bool)
    requires
        i < 8 * bytes.len(),
    ensures
        res == bit_at(bytes@, i as int),
{
    let b = bytes[i / 8];
    (b >> ((i % 8) as u8)) & 1u8 == 1u8
}

/// Reads the `len`-bit field that starts at bit `start`, as a generated
/// `get_<field>` accessor does.
pub fn get_field(bytes: &Vec<u8>, start: usize, len: u32) -> (res: u128)
    requires
        len <= 128,
        start + len <= 8 * bytes.len(),
        start + len <= usize::MAX,
    ensures
        res == field_value(bytes@, start as int, len as nat),
{
    let mut ret: u128 = 0;
    let mut k: u32 = len;
    proof {
        lemma_pow2_128();
    }
    while k > 0
        invariant
            k <= len <= 128,
            start + len <= 8 * bytes.len(),
            start + len <= usize::MAX,
            ret == field_value(bytes@, start + k, (len - k) as nat),
            pow2(128) == 0x1_0000_0000_0000_0000_0000_0000_0000_0000,
            pow2(127) == 0x8000_0000_0000_0000_0000_0000_0000_0000,
        decreases k,
    {
        let i = start + (k - 1) as usize;
        let bit = read_bit(bytes, i);
        proof {
            lemma_field_value_bound(bytes@, start + k, (len - k) as nat);
            vstd::arithmetic::power2::lemma_pow2_strictly_increases((len - k) as nat, 128);
            if len - k == 127 {
            } else {
                vstd::arithmetic::power2::lemma_pow2_strictly_increases((len - k) as nat, 127);
            }
        }
        ret = ret * 2 + if bit { 1 } else { 0 };
        k -= 1;
    }
    ret
}

proof fn lemma_byte_update(b: u8, j: u8, bit: u8, m: u8)
    by (bit_vector)
    requires
        j < 8,
        m < 8,
        bit <= 1,
    ensures
        (((b & !(1u8 << j)) | (bit << j)) >> m) & 1u8 == 1u8 <==> (if m == j {
            bit == 1
        } else {
            (b >> m) & 1u8 == 1u8
        }),
{
}

/// Writes the low `len` bits of `val` into the field that starts at bit
/// `start`, as a generated `set_<field>` accessor does.
pub fn set_field(bytes: &mut Vec<u8>, start: usize, len: u32, val: u128)
    requires
        len <= 128,
        start + len <= 8 * old(bytes).len(),
        start + len <= usize::MAX,
    ensures
        field_written(old(bytes)@, final(bytes)@, start as int, len as nat, val),
{
    let ghost old_bytes = bytes@;
    let mut counter: u32 = 0;
    while counter < len
        invariant
            counter <= len <= 128,
            start + len <= 8 * old_bytes.len(),
            start + len <= usize::MAX,
            bytes@.len() == old_bytes.len(),
            forall|p: int|
                0 <= p < 8 * old_bytes.len() ==> #[trigger] bit_at(bytes@, p) == written_bit(
                    old_bytes,
                    start as int,
                    counter as nat,
                    val,
                    p,
                ),
        decreases len - counter,
    {
        let bit: u8 = if (val >> (counter as u128)) & 1u128 != 0 { 1 } else { 0 };
        let i = start + counter as usize;
        let j: u8 = (i % 8) as u8;
        let b = bytes[i / 8];
        let nb = (b & !(1u8 << j)) | (bit << j);
        let ghost before = bytes@;
        bytes.set(i / 8, nb);
        proof {
            assert forall|p: int| 0 <= p < 8 * old_bytes.len() implies #[trigger] bit_at(bytes@, p)
                == written_bit(old_bytes, start as int, (counter + 1) as nat, val, p) by {
                let m: u8 = (p % 8) as u8;
                lemma_byte_update(b, j, bit, m);
                assert(bit_at(before, p) == written_bit(old_bytes, start as int, counter as nat, val, p));
                if p / 8 == (i / 8) as int {
                    assert(bytes@[p / 8] == nb);
                    assert(bit_at(bytes@, p) == ((nb >> m) & 1u8 == 1u8));
                    if p == i as int {
                        assert(m == j);
                        assert(bit_at(bytes@, p) == (bit == 1));
                        let sh = counter as u128;
                        assert((bit == 1) == ((val >> sh) & 1u128 != 0));
                        assert(((val >> sh) & 1u128 != 0) == ((val >> sh) & 1u128 == 1u128))
                            by (bit_vector);
                        assert((p - start) as u128 == sh);
                    } else {
                        assert(m != j);
                        assert(bit_at(before, p) == ((b >> m) & 1u8 == 1u8));
                    }
                } else {
                    assert(bytes@[p / 8] == before[p / 8]);
                    assert(p != i as int);
                }
            }
        }
        counter += 1;
    }
    assert forall|p: int| 0 <= p < 8 * old_bytes.len() implies #[trigger] bit_at(bytes@, p)
        == written_bit(old_bytes, start as int, len as nat, val, p) by {
    }
}

/// The value of the `len` bits of `val` starting at bit `from`.
pub open spec fn bits_value(val: u128, from: int, len: nat) -> nat
    decreases len,
{
    if len == 0 {
        0
    } else {
        (if nth_bit(val, from as u128) { 1nat } else { 0nat }) + 2 * bits_value(val, from + 1, (len - 1) as nat)
    }
}

proof fn lemma_field_value_same_bits(a: Seq<u8>, b: Seq<u8>, start: int, len: nat)
    requires
        forall|p: int| start <= p < start + len ==> #[trigger] bit_at(a, p) == bit_at(b, p),
    ensures
        field_value(a, start, len) == field_value(b, start, len),
    decreases len,
{
    if len > 0 {
        assert(bit_at(a, start) == bit_at(b, start));
        lemma_field_value_same_bits(a, b, start + 1, (len - 1) as nat);
    }
}

proof fn lemma_field_value_of_bits(bytes: Seq<u8>, start: int, val: u128, from: int, len: nat)
    requires
        forall|p: int|
            start <= p < start + len ==> #[trigger] bit_at(bytes, p) == nth_bit(val, (p - start + from) as u128),
    ensures
        field_value(bytes, start, len) == bits_value(val, from, len),
    decreases len,
{
    if len > 0 {
        assert(bit_at(bytes, start) == nth_bit(val, (start - start + from) as u128));
        assert forall|p: int| start + 1 <= p < (start + 1) + (len - 1) implies #[trigger] bit_at(bytes, p)
            == nth_bit(val, (p - (start + 1) + (from + 1)) as u128) by {
            assert(p - start + from == p - (start + 1) + (from + 1));
        }
        lemma_field_value_of_bits(bytes, start + 1, val, from + 1, (len - 1) as nat);
    }
}

proof fn lemma_low_bit(x: u128)
    by (bit_vector)
    ensures
        (x & 1u128 == 1u128) == (x % 2 == 1),
{
}

proof fn lemma_bits_value_is_mod(val: u128, from: nat, len: nat)
    requires
        from + len <= 128,
    ensures
        bits_value(val, from as int, len) == (val as nat / pow2(from)) % pow2(len),
    decreases len,
{
    lemma_pow2_pos(from);
    lemma_pow2_pos(len);
    let x = val as nat / pow2(from);
    if len == 0 {
        vstd::arithmetic::power2::lemma2_to64();
    } else {
        lemma_bits_value_is_mod(val, from + 1, (len - 1) as nat);
        lemma_pow2_unfold(from + 1);
        lemma_pow2_unfold(len);
        lemma_pow2_pos((len - 1) as nat);
        lemma_div_denominator(val as int, pow2(from) as int, 2);
        assert(pow2(from) * 2 == pow2(from + 1));
        assert(val as nat / pow2(from + 1) == x / 2);
        lemma_u128_shr_is_div(val, from as u128);
        assert((val >> (from as u128)) == x);
        lemma_low_bit(val >> (from as u128));
        assert(nth_bit(val, from as u128) == (x % 2 == 1));
        lemma_mod_breakdown(x as int, 2, pow2((len - 1) as nat) as int);
        assert(x % pow2(len) == 2 * ((x / 2) % pow2((len - 1) as nat)) + x % 2);
    }
}

/// Reading a field right after writing `val` into it gives the low `len`
/// bits of `val`: what a generated getter returns after the setter ran.
pub proof fn lemma_get_after_set(old: Seq<u8>, new: Seq<u8>, start: nat, len: nat, val: u128)
    requires
        len <= 128,
        start + len <= 8 * old.len(),
        field_written(old, new, start as int, len, val),
    ensures
        field_value(new, start as int, len) == val as nat % pow2(len),
{
    assert forall|p: int| start <= p < start + len implies #[trigger] bit_at(new, p) == nth_bit(
        val,
        (p - start + 0) as u128,
    ) by {
        assert(bit_at(new, p) == written_bit(old, start as int, len, val, p));
    }
    lemma_field_value_of_bits(new, start as int, val, 0, len);
    lemma_bits_value_is_mod(val, 0, len);
    vstd::arithmetic::power2::lemma2_to64();
}

/// Writing one field leaves every field that does not overlap it unchanged.
pub proof fn lemma_set_keeps_other_fields(
    old: Seq<u8>,
    new: Seq<u8>,
    start: nat,
    len: nat,
    val: u128,
    other_start: nat,
    other_len: nat,
)
    requires
        field_written(old, new, start as int, len, val),
        other_start + other_len <= 8 * old.len(),
        other_start + other_len <= start || start + len <= other_start,
    ensures
        field_value(new, other_start as int, other_len) == field_value(old, other_start as int, other_len),
{
    assert forall|p: int| other_start <= p < other_start + other_len implies #[trigger] bit_at(new, p)
        == bit_at(old, p) by {
        assert(bit_at(new, p) == written_bit(old, start as int, len, val, p));
    }
    lemma_field_value_same_bits(new, old, other_start as int, other_len);
}

/// A literal as it may stand on the right of an attribute's `=`, holding the
/// values that deciding a yes/no answer reads.
pub enum AttrLiteral {
    /// A string literal.
    Str(String),
    /// A byte-string literal.
    ByteStr(Vec<u8>),
    /// A C-string literal, without its closing nul.
    CStr(Vec<u8>),
    /// A byte literal.
    Byte(u8),
    /// A character literal.
    Char(char),
    /// An integer literal: its value, or `None` when it does not fit in a `u128`.
    Int(Option<u128>),
    /// A float literal: whether it rounds to a non-zero value, or `None` when
    /// it cannot be read as an `f64`.
    Float(Option<bool>),
    /// A boolean literal.
    Bool(bool),
    /// Any other literal.
    Verbatim,
}

/// Why a literal gives no yes/no answer.
#[derive(Clone, Copy, PartialEq, Eq, Debug)]
pub enum YesNoError {
    /// A numeric literal whose value could not be read.
    Unparsable,
    /// A literal of a kind that carries no yes/no meaning.
    InvalidLiteral,
}

/// The words that mean "yes" in a string literal.
pub open spec fn is_yes_word(s: Seq<char>) -> bool {
    s == "YES"@ || s == "ALWAYS"@ || s == "TRUE"@ || s == "ON"@
}

/// The yes/no answer that a literal gives.
pub open spec fn yesno_spec(lit: AttrLiteral) -> Result<bool, YesNoError> {
    match lit {
        AttrLiteral::Bool(b) => Ok(b),
        AttrLiteral::Byte(v) => Ok(v != 48u8),
        AttrLiteral::ByteStr(bs) => Ok(is_yes_word(ascii_chars(bs@.map_values(|b: u8| ascii_upper_byte(b))))),
        AttrLiteral::CStr(bs) => Ok(is_yes_word(ascii_chars(bs@.map_values(|b: u8| ascii_upper_byte(b))))),
        AttrLiteral::Char(c) => Ok(c != '0'),
        AttrLiteral::Float(f) => match f {
            Some(nonzero) => Ok(nonzero),
            None => Err(YesNoError::Unparsable),
        },
        AttrLiteral::Int(v) => match v {
            Some(x) => if x <= i128::MAX {
                Ok(x != 0)
            } else {
                Err(YesNoError::Unparsable)
            },
            None => Err(YesNoError::Unparsable),
        },
        AttrLiteral::Str(s) => Ok(is_yes_word(s@)),
        AttrLiteral::Verbatim => Err(YesNoError::InvalidLiteral),
    }
}

fn is_yes_bytes(bytes: &Vec<u8>) -> (res: bool)
    ensures
        res == is_yes_word(ascii_chars(bytes@.map_values(|b: u8| ascii_upper_byte(b)))),
{
    let up = bytes_to_ascii_uppercase(bytes);
    bytes_spell(&up, "YES") || bytes_spell(&up, "ALWAYS") || bytes_spell(&up, "TRUE")
        || bytes_spell(&up, "ON")
}

/// Reads a literal as yes or no, as the `provide` attribute of a bit field does.
pub fn parse_yesno(lit: &AttrLiteral) -> (res: Result<bool, YesNoError>)
    ensures
        res == yesno_spec(*lit),
{
    match lit {
        AttrLiteral::Bool(b) => Ok(*b),
        AttrLiteral::Byte(v) => Ok(*v != 48u8),
        AttrLiteral::ByteStr(bs) => Ok(is_yes_bytes(bs)),
        AttrLiteral::CStr(bs) => Ok(is_yes_bytes(bs)),
        AttrLiteral::Char(c) => Ok(*c != '0'),
        AttrLiteral::Float(f) => match f {
            Some(nonzero) => Ok(*nonzero),
            None => Err(YesNoError::Unparsable),
        },
        AttrLiteral::Int(v) => match v {
            Some(x) => if *x <= i128::MAX as u128 {
                Ok(*x != 0)
            } else {
                Err(YesNoError::Unparsable)
            },
            None => Err(YesNoError::Unparsable),
        },
        AttrLiteral::Str(s) => {
            let chars = chars_of(s.as_str());
            Ok(chars_spell(&chars, "YES") || chars_spell(&chars, "ALWAYS") || chars_spell(
                &chars,
                "TRUE",
            ) || chars_spell(&chars, "ON"))
        },
        AttrLiteral::Verbatim => Err(YesNoError::InvalidLiteral),
    }
}

/// An item or a size check that a bit-field declaration asks for through
/// its `provide(..)` and `check(..)` attributes.
#[derive(Clone, Copy, PartialEq, Eq, Debug)]
pub enum BitFieldRequest {
    /// Whether to give the type a zeroing `new`.
    Constructor { impl_it: bool },
    /// Whether to give the type a zeroing `Default`.
    Default { impl_it: bool },
    /// Whether to give the type `AsRef` to its bytes.
    AsRef { impl_it: bool },
    /// Whether to give the type `AsMut` to its bytes.
    AsMut { impl_it: bool },
    /// The summed field size must equal `bound`.
    SizeEq { bound: usize },
    /// The summed field size must differ from `bound`.
    SizeNeq { bound: usize },
    /// The summed field size must exceed `bound`.
    SizeGt { bound: usize },
    /// The summed field size must stay below `bound`.
    SizeLt { bound: usize },
    /// The summed field size must be at least `bound`.
    SizeGte { bound: usize },
    /// The summed field size must be at most `bound`.
    SizeLte { bound: usize },
}

/// The item kinds that `provide(..)` names.
#[derive(Clone, Copy, PartialEq, Eq, Debug)]
pub enum ProvideKind {
    Constructor,
    Default,
    AsRef,
    AsMut,
}

/// The comparisons that `check(..)` names.
#[derive(Clone, Copy, PartialEq, Eq, Debug)]
pub enum CheckKind {
    Eq,
    Neq,
    Lt,
    Lte,
    Gt,
    Gte,
}

/// The `provide(..)` item that an uppercased name selects.
pub open spec fn provide_kind(name: Seq<char>) -> Option<ProvideKind> {
    if name == "CONSTRUCTOR"@ || name == "NEW"@ || name == "CTOR"@ {
        Some(ProvideKind::Constructor)
    } else if name == "DEFAULT"@ {
        Some(ProvideKind::Default)
    } else if name == "ASREF"@ || name == "AS_REF"@ {
        Some(ProvideKind::AsRef)
    } else if name == "ASMUT"@ || name == "AS_MUT"@ {
        Some(ProvideKind::AsMut)
    } else {
        None
    }
}

/// The `check(..)` comparison that an uppercased name selects.
pub open spec fn check_kind(name: Seq<char>) -> Option<CheckKind> {
    if name == "EQUAL_TO"@ || name == "EQ"@ {
        Some(CheckKind::Eq)
    } else if name == "NOT_EQUAL_TO"@ || name == "DIFFERENT_FROM"@ || name == "NEQ"@ {
        Some(CheckKind::Neq)
    } else if name == "LESS_THAN"@ || name == "LT"@ {
        Some(CheckKind::Lt)
    } else if name == "LTE"@ {
        Some(CheckKind::Lte)
    } else if name == "GREATER_THAN"@ || name == "GT"@ {
        Some(CheckKind::Gt)
    } else if name == "GTE"@ {
        Some(CheckKind::Gte)
    } else {
        None
    }
}

fn provide_kind_of(name: &Vec<char>) -> (res: Option<ProvideKind>)
    ensures
        res == provide_kind(name@),
{
    if chars_spell(name, "CONSTRUCTOR") || chars_spell(name, "NEW") || chars_spell(name, "CTOR") {
        Some(ProvideKind::Constructor)
    } else if chars_spell(name, "DEFAULT") {
        Some(ProvideKind::Default)
    } else if chars_spell(name, "ASREF") || chars_spell(name, "AS_REF") {
        Some(ProvideKind::AsRef)
    } else if chars_spell(name, "ASMUT") || chars_spell(name, "AS_MUT") {
        Some(ProvideKind::AsMut)
    } else {
        None
    }
}

fn check_kind_of(name: &Vec<char>) -> (res: Option<CheckKind>)
    ensures
        res == check_kind(name@),
{
    if chars_spell(name, "EQUAL_TO") || chars_spell(name, "EQ") {
        Some(CheckKind::Eq)
    } else if chars_spell(name, "NOT_EQUAL_TO") || chars_spell(name, "DIFFERENT_FROM") || chars_spell(
        name,
        "NEQ",
    ) {
        Some(CheckKind::Neq)
    } else if chars_spell(name, "LESS_THAN") || chars_spell(name, "LT") {
        Some(CheckKind::Lt)
    } else if chars_spell(name, "LTE") {
        Some(CheckKind::Lte)
    } else if chars_spell(name, "GREATER_THAN") || chars_spell(name, "GT") {
        Some(CheckKind::Gt)
    } else if chars_spell(name, "GTE") {
        Some(CheckKind::Gte)
    } else {
        None
    }
}

/// The request that `provide(kind = answer)` makes.
pub open spec fn provide_request(kind: ProvideKind, impl_it: bool) -> BitFieldRequest {
    match kind {
        ProvideKind::Constructor => BitFieldRequest::Constructor { impl_it },
        ProvideKind::Default => BitFieldRequest::Default { impl_it },
        ProvideKind::AsRef => BitFieldRequest::AsRef { impl_it },
        ProvideKind::AsMut => BitFieldRequest::AsMut { impl_it },
    }
}

/// The request that `check(kind = bound)` makes.
pub open spec fn check_request(kind: CheckKind, bound: usize) -> BitFieldRequest {
    match kind {
        CheckKind::Eq => BitFieldRequest::SizeEq { bound },
        CheckKind::Neq => BitFieldRequest::SizeNeq { bound },
        CheckKind::Lt => BitFieldRequest::SizeLt { bound },
        CheckKind::Lte => BitFieldRequest::SizeLte { bound },
        CheckKind::Gt => BitFieldRequest::SizeGt { bound },
        CheckKind::Gte => BitFieldRequest::SizeGte { bound },
    }
}

/// Whether a request is a `provide(..)` request of the given kind.
pub open spec fn is_of_kind(req: BitFieldRequest, kind: ProvideKind) -> bool {
    match (req, kind) {
        (BitFieldRequest::Constructor { .. }, ProvideKind::Constructor) => true,
        (BitFieldRequest::Default { .. }, ProvideKind::Default) => true,
        (BitFieldRequest::AsRef { .. }, ProvideKind::AsRef) => true,
        (BitFieldRequest::AsMut { .. }, ProvideKind::AsMut) => true,
        _ => false,
    }
}

/// The position of the first request of the given kind.
pub open spec fn first_of_kind(reqs: Seq<BitFieldRequest>, kind: ProvideKind) -> Option<int>
    decreases reqs.len(),
{
    if reqs.len() == 0 {
        None
    } else if is_of_kind(reqs[0], kind) {
        Some(0)
    } else {
        match first_of_kind(reqs.drop_first(), kind) {
            Some(i) => Some(i + 1),
            None => None,
        }
    }
}

/// The requests after a `provide(..)` answer: an earlier request of the same
/// kind is overwritten in place, otherwise the request is appended.
pub open spec fn provide_update(reqs: Seq<BitFieldRequest>, kind: ProvideKind, impl_it: bool) -> Seq<BitFieldRequest> {
    match first_of_kind(reqs, kind) {
        Some(i) => reqs.update(i, provide_request(kind, impl_it)),
        None => reqs.push(provide_request(kind, impl_it)),
    }
}

/// The value of the name on the left of an attribute's `=`, and what stands on its right.
pub struct AttrAssign {
    /// The left-hand side when it is a path made of one identifier.
    pub lhs_ident: Option<String>,
    /// The right-hand side when it is a literal.
    pub rhs: Option<AttrLiteral>,
}

/// An attribute on a bit-field declaration, as much of it as the handling reads.
pub struct BitFieldAttr {
    /// The attribute's path when it is one identifier.
    pub ident: Option<String>,
    /// The attribute's arguments when they read as `lhs = rhs`.
    pub assign: Option<AttrAssign>,
}

/// What one attribute does to the requests gathered so far: `Some` with the
/// new requests when the attribute is consumed, `None` when it is kept as an
/// ordinary attribute of the generated type.
pub open spec fn attr_effect(reqs: Seq<BitFieldRequest>, attr: BitFieldAttr) -> Option<Seq<BitFieldRequest>> {
    match attr.ident {
        None => None,
        Some(id) => {
            let up = unicode_upper(id@);
            match attr.assign {
                None => None,
                Some(asg) => match asg.lhs_ident {
                    None => None,
                    Some(l) => match asg.rhs {
                        None => None,
                        Some(lit) => if up == "PROVIDE"@ {
                            match provide_kind(unicode_upper(l@)) {
                                Some(k) => match yesno_spec(lit) {
                                    Ok(b) => Some(provide_update(reqs, k, b)),
                                    Err(_) => None,
                                },
                                None => None,
                            }
                        } else if up == "CHECK"@ {
                            match lit {
                                AttrLiteral::Int(v) => match check_kind(unicode_upper(l@)) {
                                    Some(c) => Some(reqs.push(check_request(c, v.unwrap() as usize))),
                                    None => None,
                                },
                                _ => None,
                            }
                        } else {
                            None
                        },
                    },
                },
            }
        },
    }
}

/// The attribute is a size check whose bound does not fit in a `usize`.
pub open spec fn check_bound_too_large(attr: BitFieldAttr) -> bool {
    match attr.ident {
        None => false,
        Some(id) => match attr.assign {
            None => false,
            Some(asg) => match asg.lhs_ident {
                None => false,
                Some(l) => match asg.rhs {
                    Some(AttrLiteral::Int(v)) => unicode_upper(id@) == "CHECK"@ && check_kind(
                        unicode_upper(l@),
                    ) is Some && !(v matches Some(x) && x <= usize::MAX),
                    _ => false,
                },
            },
        },
    }
}

/// The requests gathered from the attributes, and the positions of the
/// attributes that stay on the generated type.
pub open spec fn handle_attrs_spec(attrs: Seq<BitFieldAttr>) -> (Seq<BitFieldRequest>, Seq<usize>)
    decreases attrs.len(),
{
    if attrs.len() == 0 {
        (seq![], seq![])
    } else {
        let (reqs, others) = handle_attrs_spec(attrs.drop_last());
        match attr_effect(reqs, attrs.last()) {
            Some(r) => (r, others),
            None => (reqs, others.push((attrs.len() - 1) as usize)),
        }
    }
}

proof fn lemma_first_of_kind(reqs: Seq<BitFieldRequest>, kind: ProvideKind, i: int)
    requires
        0 <= i <= reqs.len(),
        forall|j: int| 0 <= j < i ==> !is_of_kind(#[trigger] reqs[j], kind),
    ensures
        i < reqs.len() && is_of_kind(reqs[i], kind) ==> first_of_kind(reqs, kind) == Some(i),
        i == reqs.len() ==> first_of_kind(reqs, kind) is None,
    decreases i,
{
    if i > 0 {
        assert(!is_of_kind(reqs[0], kind));
        assert forall|j: int| 0 <= j < i - 1 implies !is_of_kind(#[trigger] reqs.drop_first()[j], kind) by {
            assert(reqs.drop_first()[j] == reqs[j + 1]);
        }
        lemma_first_of_kind(reqs.drop_first(), kind, i - 1);
        if i < reqs.len() && is_of_kind(reqs[i], kind) {
            assert(reqs.drop_first()[i - 1] == reqs[i]);
        }
    } else if reqs.len() > 0 {
    }
}

fn request_of_kind(req: &BitFieldRequest, kind: ProvideKind) -> (res: bool)
    ensures
        res == is_of_kind(*req, kind),
{
    match (req, kind) {
        (BitFieldRequest::Constructor { .. }, ProvideKind::Constructor) => true,
        (BitFieldRequest::Default { .. }, ProvideKind::Default) => true,
        (BitFieldRequest::AsRef { .. }, ProvideKind::AsRef) => true,
        (BitFieldRequest::AsMut { .. }, ProvideKind::AsMut) => true,
        _ => false,
    }
}

fn make_provide_request(kind: ProvideKind, impl_it: bool) -> (res: BitFieldRequest)
    ensures
        res == provide_request(kind, impl_it),
{
    match kind {
        ProvideKind::Constructor => BitFieldRequest::Constructor { impl_it },
        ProvideKind::Default => BitFieldRequest::Default { impl_it },
        ProvideKind::AsRef => BitFieldRequest::AsRef { impl_it },
        ProvideKind::AsMut => BitFieldRequest::AsMut { impl_it },
    }
}

fn make_check_request(kind: CheckKind, bound: usize) -> (res: BitFieldRequest)
    ensures
        res == check_request(kind, bound),
{
    match kind {
        CheckKind::Eq => BitFieldRequest::SizeEq { bound },
        CheckKind::Neq => BitFieldRequest::SizeNeq { bound },
        CheckKind::Lt => BitFieldRequest::SizeLt { bound },
        CheckKind::Lte => BitFieldRequest::SizeLte { bound },
        CheckKind::Gt => BitFieldRequest::SizeGt { bound },
        CheckKind::Gte => BitFieldRequest::SizeGte { bound },
    }
}

fn apply_provide(reqs: &mut Vec<BitFieldRequest>, kind: ProvideKind, impl_it: bool)
    ensures
        final(reqs)@ == provide_update(old(reqs)@, kind, impl_it),
{
    let mut i: usize = 0;
    while i < reqs.len() && !request_of_kind(&reqs[i], kind)
        invariant
            i <= reqs.len(),
            forall|j: int| 0 <= j < i ==> !is_of_kind(#[trigger] reqs@[j], kind),
        decreases reqs.len() - i,
    {
        i += 1;
    }
    proof {
        lemma_first_of_kind(reqs@, kind, i as int);
    }
    let req = make_provide_request(kind, impl_it);
    if i < reqs.len() {
        reqs.set(i, req);
    } else {
        reqs.push(req);
    }
}

fn apply_attr(reqs: &mut Vec<BitFieldRequest>, attr: &BitFieldAttr) -> (handled: bool)
    requires
        !check_bound_too_large(*attr),
    ensures
        handled == (attr_effect(old(reqs)@, *attr) is Some),
        handled ==> final(reqs)@ == attr_effect(old(reqs)@, *attr).unwrap(),
        !handled ==> final(reqs)@ == old(reqs)@,
{
    let id = match &attr.ident {
        Some(id) => id,
        None => return false,
    };
    let asg = match &attr.assign {
        Some(asg) => asg,
        None => return false,
    };
    let l = match &asg.lhs_ident {
        Some(l) => l,
        None => return false,
    };
    let lit = match &asg.rhs {
        Some(lit) => lit,
        None => return false,
    };
    let up = chars_of(to_uppercase(id.as_str()).as_str());
    let lup = chars_of(to_uppercase(l.as_str()).as_str());
    if chars_spell(&up, "PROVIDE") {
        match provide_kind_of(&lup) {
            Some(k) => match parse_yesno(lit) {
                Ok(b) => {
                    apply_provide(reqs, k, b);
                    true
                },
                Err(_) => false,
            },
            None => false,
        }
    } else if chars_spell(&up, "CHECK") {
        match lit {
            AttrLiteral::Int(v) => match check_kind_of(&lup) {
                Some(c) => {
                    let bound = match v {
                        Some(x) => *x as usize,
                        None => 0,
                    };
                    reqs.push(make_check_request(c, bound));
                    true
                },
                None => false,
            },
            _ => false,
        }
    } else {
        false
    }
}

/// Splits a bit-field declaration's attributes into the requests they make
/// and the positions of the attributes that stay on the generated type.
pub fn handle_attrs(attrs: &Vec<BitFieldAttr>) -> (res: (Vec<BitFieldRequest>, Vec<usize>))
    requires
        forall|i: int| 0 <= i < attrs@.len() ==> !check_bound_too_large(#[trigger] attrs@[i]),
    ensures
        (res.0@, res.1@) == handle_attrs_spec(attrs@),
{
    let mut reqs: Vec<BitFieldRequest> = Vec::new();
    let mut others: Vec<usize> = Vec::new();
    let mut i: usize = 0;
    while i < attrs.len()
        invariant
            i <= attrs.len(),
            forall|k: int| 0 <= k < attrs@.len() ==> !check_bound_too_large(#[trigger] attrs@[k]),
            (reqs@, others@) == handle_attrs_spec(attrs@.take(i as int)),
        decreases attrs.len() - i,
    {
        assert(attrs@.take(i + 1).drop_last() =~= attrs@.take(i as int));
        assert(attrs@.take(i + 1).last() == attrs@[i as int]);
        let handled = apply_attr(&mut reqs, &attrs[i]);
        if !handled {
            others.push(i);
        }
        i += 1;
    }
    assert(attrs@.take(attrs.len() as int) =~= attrs@);
    (reqs, others)
}

fn bound_too_large(attr: &BitFieldAttr) -> (res: bool)
    ensures
        res == check_bound_too_large(*attr),
{
    let id = match &attr.ident {
        Some(id) => id,
        None => return false,
    };
    let asg = match &attr.assign {
        Some(asg) => asg,
        None => return false,
    };
    let l = match &asg.lhs_ident {
        Some(l) => l,
        None => return false,
    };
    match &asg.rhs {
        Some(AttrLiteral::Int(v)) => {
            let up = chars_of(to_uppercase(id.as_str()).as_str());
            let lup = chars_of(to_uppercase(l.as_str()).as_str());
            let fits = match v {
                Some(x) => *x <= usize::MAX as u128,
                None => false,
            };
            chars_spell(&up, "CHECK") && check_kind_of(&lup).is_some() && !fits
        },
        _ => false,
    }
}

/// [`handle_attrs`] on any attributes: `None` when a size check's bound does
/// not fit in a `usize`, the input on which the declaration is refused.
pub fn try_handle_attrs(attrs: &Vec<BitFieldAttr>) -> (res: Option<(Vec<BitFieldRequest>, Vec<usize>)>)
    ensures
        res is None <==> exists|i: int| 0 <= i < attrs@.len() && check_bound_too_large(#[trigger] attrs@[i]),
        res matches Some(r) ==> (r.0@, r.1@) == handle_attrs_spec(attrs@),
{
    let mut i: usize = 0;
    while i < attrs.len()
        invariant
            i <= attrs.len(),
            forall|k: int| 0 <= k < i ==> !check_bound_too_large(#[trigger] attrs@[k]),
        decreases attrs.len() - i,
    {
        if bound_too_large(&attrs[i]) {
            return None;
        }
        i += 1;
    }
    Some(handle_attrs(attrs))
}

/// Whether the summed size of the fields passes the check a request makes;
/// requests for items always pass.
pub open spec fn request_holds(req: BitFieldRequest, total: nat) -> bool {
    match req {
        BitFieldRequest::SizeEq { bound } => total == bound,
        BitFieldRequest::SizeNeq { bound } => total != bound,
        BitFieldRequest::SizeGt { bound } => total > bound,
        BitFieldRequest::SizeLt { bound } => total < bound,
        BitFieldRequest::SizeGte { bound } => total >= bound,
        BitFieldRequest::SizeLte { bound } => total <= bound,
        _ => true,
    }
}

impl BitFieldRequest {
    /// Evaluates the compile-time assertion that the request expands to.
    pub fn holds_for(&self, total: usize) -> (res: bool)
        ensures
            res == request_holds(*self, total as nat),
    {
        match self {
            BitFieldRequest::SizeEq { bound } => total == *bound,
            BitFieldRequest::SizeNeq { bound } => total != *bound,
            BitFieldRequest::SizeGt { bound } => total > *bound,
            BitFieldRequest::SizeLt { bound } => total < *bound,
            BitFieldRequest::SizeGte { bound } => total >= *bound,
            BitFieldRequest::SizeLte { bound } => total <= *bound,
            _ => true,
        }
    }
}

/// An unsigned integer type that a field's value is returned in.
#[derive(Clone, Copy, PartialEq, Eq, Debug)]
pub enum IntType {
    U8,
    U16,
    U32,
    U64,
    U128,
}

/// The smallest unsigned type that holds a field of the given size, when the
/// size is known.
pub open spec fn suitable_type(size: Option<usize>) -> Option<IntType> {
    match size {
        None => None,
        Some(s) => if s <= 8 {
            Some(IntType::U8)
        } else if s <= 16 {
            Some(IntType::U16)
        } else if s <= 32 {
            Some(IntType::U32)
        } else if s <= 64 {
            Some(IntType::U64)
        } else if s <= 128 {
            Some(IntType::U128)
        } else {
            None
        },
    }
}

/// Picks the type of a field declared with `_` from its size, when that size
/// is a literal known at expansion time.
pub fn select_suitable_type(size: Option<usize>) -> (res: Option<IntType>)
    ensures
        res == suitable_type(size),
{
    match size {
        None => None,
        Some(s) => if s <= 8 {
            Some(IntType::U8)
        } else if s <= 16 {
            Some(IntType::U16)
        } else if s <= 32 {
            Some(IntType::U32)
        } else if s <= 64 {
            Some(IntType::U64)
        } else if s <= 128 {
            Some(IntType::U128)
        } else {
            None
        },
    }
}

/// The width of an unsigned integer type in bits.
pub open spec fn int_bits(t: IntType) -> nat {
    match t {
        IntType::U8 => 8,
        IntType::U16 => 16,
        IntType::U32 => 32,
        IntType::U64 => 64,
        IntType::U128 => 128,
    }
}

/// The type chosen for a field of type `_` is the narrowest unsigned type
/// that holds it: it has at least as many bits as the field, and every
/// narrower type has fewer bits than the field. No type is chosen for a
/// field wider than 128 bits or of a width not known at expansion.
pub proof fn lemma_suitable_type_is_narrowest(size: Option<usize>)
    ensures
        match size {
            Some(s) => if s <= 128 {
                suitable_type(size) matches Some(t) && s <= int_bits(t) && forall|u: IntType|
                    #[trigger] int_bits(u) < int_bits(t) ==> int_bits(u) < s
            } else {
                suitable_type(size) is None
            },
            None => suitable_type(size) is None,
        },
{
    if let Some(s) = size {
        if s <= 128 {
            let t = suitable_type(size)->Some_0;
            assert forall|u: IntType| #[trigger] int_bits(u) < int_bits(t) implies int_bits(u) < s by {
                match u {
                    IntType::U8 => {},
                    IntType::U16 => {},
                    IntType::U32 => {},
                    IntType::U64 => {},
                    IntType::U128 => {},
                }
            }
        }
    }
}

/// A `check(..)` request holds of a total size exactly when the size
/// compares with the bound as the comparison says.
pub proof fn lemma_check_requests_compare(bound: usize, total: nat)
    ensures
        request_holds(check_request(CheckKind::Eq, bound), total) <==> total == bound,
        request_holds(check_request(CheckKind::Neq, bound), total) <==> total != bound,
        request_holds(check_request(CheckKind::Lt, bound), total) <==> total < bound,
        request_holds(check_request(CheckKind::Lte, bound), total) <==> total <= bound,
        request_holds(check_request(CheckKind::Gt, bound), total) <==> total > bound,
        request_holds(check_request(CheckKind::Gte, bound), total) <==> total >= bound,
{
}

/// Each name that `check(..)` accepts asks for the comparison it names:
/// `eq`/`equal_to` for equality, `neq`/`not_equal_to`/`different_from` for
/// difference, `lt`/`less_than`, `lte`, `gt`/`greater_than` and `gte`, and
/// the check holds of a total size exactly when that comparison does.
pub proof fn lemma_check_names_compare(bound: usize, total: nat)
    ensures
        check_kind("EQ"@) matches Some(k) && (request_holds(check_request(k, bound), total) <==> total == bound),
        check_kind("EQUAL_TO"@) matches Some(k) && (request_holds(check_request(k, bound), total) <==> total == bound),
        check_kind("NEQ"@) matches Some(k) && (request_holds(check_request(k, bound), total) <==> total != bound),
        check_kind("NOT_EQUAL_TO"@) matches Some(k) && (request_holds(check_request(k, bound), total) <==> total
            != bound),
        check_kind("DIFFERENT_FROM"@) matches Some(k) && (request_holds(check_request(k, bound), total) <==> total
            != bound),
        check_kind("LT"@) matches Some(k) && (request_holds(check_request(k, bound), total) <==> total < bound),
        check_kind("LESS_THAN"@) matches Some(k) && (request_holds(check_request(k, bound), total) <==> total < bound),
        check_kind("LTE"@) matches Some(k) && (request_holds(check_request(k, bound), total) <==> total <= bound),
        check_kind("GT"@) matches Some(k) && (request_holds(check_request(k, bound), total) <==> total > bound),
        check_kind("GREATER_THAN"@) matches Some(k) && (request_holds(check_request(k, bound), total) <==> total
            > bound),
        check_kind("GTE"@) matches Some(k) && (request_holds(check_request(k, bound), total) <==> total >= bound),
{
    assert(check_kind("EQUAL_TO"@) == Some(CheckKind::Eq)) by {
        reveal_strlit("EQUAL_TO");
    }
    assert(check_kind("EQ"@) == Some(CheckKind::Eq)) by {
        reveal_strlit("EQ");
        reveal_strlit("EQUAL_TO");
        assert("EQ"@.len() != "EQUAL_TO"@.len());
    }
    assert(check_kind("NOT_EQUAL_TO"@) == Some(CheckKind::Neq)) by {
        reveal_strlit("NOT_EQUAL_TO");
        reveal_strlit("EQUAL_TO");
        assert("NOT_EQUAL_TO"@.len() != "EQUAL_TO"@.len());
        reveal_strlit("EQ");
        assert("NOT_EQUAL_TO"@.len() != "EQ"@.len());
    }
    assert(check_kind("DIFFERENT_FROM"@) == Some(CheckKind::Neq)) by {
        reveal_strlit("DIFFERENT_FROM");
        reveal_strlit("EQUAL_TO");
        assert("DIFFERENT_FROM"@.len() != "EQUAL_TO"@.len());
        reveal_strlit("EQ");
        assert("DIFFERENT_FROM"@.len() != "EQ"@.len());
        reveal_strlit("NOT_EQUAL_TO");
        assert("DIFFERENT_FROM"@.len() != "NOT_EQUAL_TO"@.len());
    }
    assert(check_kind("NEQ"@) == Some(CheckKind::Neq)) by {
        reveal_strlit("NEQ");
        reveal_strlit("EQUAL_TO");
        assert("NEQ"@.len() != "EQUAL_TO"@.len());
        reveal_strlit("EQ");
        assert("NEQ"@.len() != "EQ"@.len());
        reveal_strlit("NOT_EQUAL_TO");
        assert("NEQ"@.len() != "NOT_EQUAL_TO"@.len());
        reveal_strlit("DIFFERENT_FROM");
        assert("NEQ"@.len() != "DIFFERENT_FROM"@.len());
    }
    assert(check_kind("LESS_THAN"@) == Some(CheckKind::Lt)) by {
        reveal_strlit("LESS_THAN");
        reveal_strlit("EQUAL_TO");
        assert("LESS_THAN"@.len() != "EQUAL_TO"@.len());
        reveal_strlit("EQ");
        assert("LESS_THAN"@.len() != "EQ"@.len());
        reveal_strlit("NOT_EQUAL_TO");
        assert("LESS_THAN"@.len() != "NOT_EQUAL_TO"@.len());
        reveal_strlit("DIFFERENT_FROM");
        assert("LESS_THAN"@.len() != "DIFFERENT_FROM"@.len());
        reveal_strlit("NEQ");
        assert("LESS_THAN"@.len() != "NEQ"@.len());
    }
    assert(check_kind("LT"@) == Some(CheckKind::Lt)) by {
        reveal_strlit("LT");
        reveal_strlit("EQUAL_TO");
        assert("LT"@.len() != "EQUAL_TO"@.len());
        reveal_strlit("EQ");
        assert("LT"@[0] != "EQ"@[0]);
        reveal_strlit("NOT_EQUAL_TO");
        assert("LT"@.len() != "NOT_EQUAL_TO"@.len());
        reveal_strlit("DIFFERENT_FROM");
        assert("LT"@.len() != "DIFFERENT_FROM"@.len());
        reveal_strlit("NEQ");
        assert("LT"@.len() != "NEQ"@.len());
        reveal_strlit("LESS_THAN");
        assert("LT"@.len() != "LESS_THAN"@.len());
    }
    assert(check_kind("LTE"@) == Some(CheckKind::Lte)) by {
        reveal_strlit("LTE");
        reveal_strlit("EQUAL_TO");
        assert("LTE"@.len() != "EQUAL_TO"@.len());
        reveal_strlit("EQ");
        assert("LTE"@.len() != "EQ"@.len());
        reveal_strlit("NOT_EQUAL_TO");
        assert("LTE"@.len() != "NOT_EQUAL_TO"@.len());
        reveal_strlit("DIFFERENT_FROM");
        assert("LTE"@.len() != "DIFFERENT_FROM"@.len());
        reveal_strlit("NEQ");
        assert("LTE"@[0] != "NEQ"@[0]);
        reveal_strlit("LESS_THAN");
        assert("LTE"@.len() != "LESS_THAN"@.len());
        reveal_strlit("LT");
        assert("LTE"@.len() != "LT"@.len());
    }
    assert(check_kind("GREATER_THAN"@) == Some(CheckKind::Gt)) by {
        reveal_strlit("GREATER_THAN");
        reveal_strlit("EQUAL_TO");
        assert("GREATER_THAN"@.len() != "EQUAL_TO"@.len());
        reveal_strlit("EQ");
        assert("GREATER_THAN"@.len() != "EQ"@.len());
        reveal_strlit("NOT_EQUAL_TO");
        assert("GREATER_THAN"@[0] != "NOT_EQUAL_TO"@[0]);
        reveal_strlit("DIFFERENT_FROM");
        assert("GREATER_THAN"@.len() != "DIFFERENT_FROM"@.len());
        reveal_strlit("NEQ");
        assert("GREATER_THAN"@.len() != "NEQ"@.len());
        reveal_strlit("LESS_THAN");
        assert("GREATER_THAN"@.len() != "LESS_THAN"@.len());
        reveal_strlit("LT");
        assert("GREATER_THAN"@.len() != "LT"@.len());
        reveal_strlit("LTE");
        assert("GREATER_THAN"@.len() != "LTE"@.len());
    }
    assert(check_kind("GT"@) == Some(CheckKind::Gt)) by {
        reveal_strlit("GT");
        reveal_strlit("EQUAL_TO");
        assert("GT"@.len() != "EQUAL_TO"@.len());
        reveal_strlit("EQ");
        assert("GT"@[0] != "EQ"@[0]);
        reveal_strlit("NOT_EQUAL_TO");
        assert("GT"@.len() != "NOT_EQUAL_TO"@.len());
        reveal_strlit("DIFFERENT_FROM");
        assert("GT"@.len() != "DIFFERENT_FROM"@.len());
        reveal_strlit("NEQ");
        assert("GT"@.len() != "NEQ"@.len());
        reveal_strlit("LESS_THAN");
        assert("GT"@.len() != "LESS_THAN"@.len());
        reveal_strlit("LT");
        assert("GT"@[0] != "LT"@[0]);
        reveal_strlit("LTE");
        assert("GT"@.len() != "LTE"@.len());
        reveal_strlit("GREATER_THAN");
        assert("GT"@.len() != "GREATER_THAN"@.len());
    }
    assert(check_kind("GTE"@) == Some(CheckKind::Gte)) by {
        reveal_strlit("GTE");
        reveal_strlit("EQUAL_TO");
        assert("GTE"@.len() != "EQUAL_TO"@.len());
        reveal_strlit("EQ");
        assert("GTE"@.len() != "EQ"@.len());
        reveal_strlit("NOT_EQUAL_TO");
        assert("GTE"@.len() != "NOT_EQUAL_TO"@.len());
        reveal_strlit("DIFFERENT_FROM");
        assert("GTE"@.len() != "DIFFERENT_FROM"@.len());
        reveal_strlit("NEQ");
        assert("GTE"@[0] != "NEQ"@[0]);
        reveal_strlit("LESS_THAN");
        assert("GTE"@.len() != "LESS_THAN"@.len());
        reveal_strlit("LT");
        assert("GTE"@.len() != "LT"@.len());
        reveal_strlit("LTE");
        assert("GTE"@[0] != "LTE"@[0]);
        reveal_strlit("GREATER_THAN");
        assert("GTE"@.len() != "GREATER_THAN"@.len());
        reveal_strlit("GT");
        assert("GTE"@.len() != "GT"@.len());
    }
}

impl IntType {
    /// The width of the type in bits.
    pub fn bits(&self) -> (res: u32)
        ensures
            res == int_bits(*self),
            res == match *self {
                IntType::U8 => 8u32,
                IntType::U16 => 16u32,
                IntType::U32 => 32u32,
                IntType::U64 => 64u32,
                IntType::U128 => 128u32,
            },
    {
        match self {
            IntType::U8 => 8,
            IntType::U16 => 16,
            IntType::U32 => 32,
            IntType::U64 => 64,
            IntType::U128 => 128,
        }
    }
}

/// The number of bytes that back a bit field of `size` bits: `size / 8`,
/// rounded up.
pub fn underlying_bytes(size: u128) -> (res: u128)
    ensures
        res == size / 8 + if size % 8 != 0 { 1int } else { 0int },
        res * 8 >= size,
        res * 8 < size + 8,
{
    size / 8 + if size % 8 != 0 { 1 } else { 0 }
}

/// The name of an unsigned integer type, as a field's type is written.
pub open spec fn int_type_name(t: IntType) -> Seq<char> {
    match t {
        IntType::U8 => "u8"@,
        IntType::U16 => "u16"@,
        IntType::U32 => "u32"@,
        IntType::U64 => "u64"@,
        IntType::U128 => "u128"@,
    }
}

impl IntType {
    /// The name of the type.
    pub fn name(&self) -> (res: String)
        ensures
            res@ == int_type_name(*self),
    {
        match self {
            IntType::U8 => "u8".to_owned(),
            IntType::U16 => "u16".to_owned(),
            IntType::U32 => "u32".to_owned(),
            IntType::U64 => "u64".to_owned(),
            IntType::U128 => "u128".to_owned(),
        }
    }
}

/// An item that a declaration gains from one of its requests.
#[derive(Clone, Copy, PartialEq, Eq, Debug)]
pub enum RequestItem {
    /// `pub const fn new() -> Self`, all bits zero.
    New,
    /// `impl Default`, all bits zero.
    Default,
    /// `impl AsRef` to the backing bytes.
    AsRef,
    /// `impl AsMut` to the backing bytes.
    AsMut,
    /// A compile-time assertion on the summed size of the fields.
    SizeAssertion(BitFieldRequest),
}

/// What one request produces: the item it asks for when it is asked for,
/// nothing when it is turned off, and its assertion for a size check.
pub open spec fn request_item(req: BitFieldRequest) -> Option<RequestItem> {
    match req {
        BitFieldRequest::Constructor { impl_it } => if impl_it {
            Some(RequestItem::New)
        } else {
            None
        },
        BitFieldRequest::Default { impl_it } => if impl_it {
            Some(RequestItem::Default)
        } else {
            None
        },
        BitFieldRequest::AsRef { impl_it } => if impl_it {
            Some(RequestItem::AsRef)
        } else {
            None
        },
        BitFieldRequest::AsMut { impl_it } => if impl_it {
            Some(RequestItem::AsMut)
        } else {
            None
        },
        _ => Some(RequestItem::SizeAssertion(req)),
    }
}

/// The items that the requests produce, in the order of the requests.
pub open spec fn request_items_spec(reqs: Seq<BitFieldRequest>) -> Seq<RequestItem>
    decreases reqs.len(),
{
    if reqs.len() == 0 {
        Seq::empty()
    } else {
        request_items_spec(reqs.drop_last()) + match request_item(reqs.last()) {
            Some(it) => seq![it],
            None => Seq::empty(),
        }
    }
}

/// The items that the requests produce (see [`request_items_spec`]).
pub fn request_items(reqs: &Vec<BitFieldRequest>) -> (res: Vec<RequestItem>)
    ensures
        res@ == request_items_spec(reqs@),
{
    let mut items: Vec<RequestItem> = Vec::new();
    let mut i: usize = 0;
    while i < reqs.len()
        invariant
            i <= reqs.len(),
            items@ == request_items_spec(reqs@.take(i as int)),
        decreases reqs.len() - i,
    {
        assert(reqs@.take(i + 1).drop_last() =~= reqs@.take(i as int));
        let ghost before = items@;
        let item = match reqs[i] {
            BitFieldRequest::Constructor { impl_it } => if impl_it {
                Some(RequestItem::New)
            } else {
                None
            },
            BitFieldRequest::Default { impl_it } => if impl_it {
                Some(RequestItem::Default)
            } else {
                None
            },
            BitFieldRequest::AsRef { impl_it } => if impl_it {
                Some(RequestItem::AsRef)
            } else {
                None
            },
            BitFieldRequest::AsMut { impl_it } => if impl_it {
                Some(RequestItem::AsMut)
            } else {
                None
            },
            r => Some(RequestItem::SizeAssertion(r)),
        };
        assert(item == request_item(reqs@[i as int]));
        if let Some(it) = item {
            items.push(it);
        }
        assert(items@ =~= request_items_spec(reqs@.take(i + 1)));
        i += 1;
    }
    assert(reqs@.take(reqs.len() as int) =~= reqs@);
    items
}

} // verus!
