//! Rust target specifications for the kernel: a JSON object of settings,
//! started from a built-in base or from a user's template, then updated
//! with the requested options under the template's override rules.

use vstd::prelude::*;
use crate::text::{chars_of, eq_ignore_ascii_case, eq_ignore_ascii_case_spec, split_on, str_eq, string_of, u64_to_decimal, decimal, is_split_of, views};
use crate::runnable::{opt_string_view, string_views};

verus! {

/// A value of the target specification, as far as updating it reads it.
pub enum TargetValue {
    Null,
    Bool(bool),
    Str(String),
    /// Any other JSON value (number, array or object), as its JSON text.
    Raw(String),
}

/// The abstract value of a [`TargetValue`].
pub enum ValueModel {
    Null,
    Bool(bool),
    Str(Seq<char>),
    Raw(Seq<char>),
}

impl View for TargetValue {
    type V = ValueModel;

    open spec fn view(&self) -> ValueModel {
        match self {
            TargetValue::Null => ValueModel::Null,
            TargetValue::Bool(b) => ValueModel::Bool(*b),
            TargetValue::Str(s) => ValueModel::Str(s@),
            TargetValue::Raw(s) => ValueModel::Raw(s@),
        }
    }
}

/// One key of the specification with its value.
pub struct JsonEntry {
    pub key: String,
    pub value: TargetValue,
}

/// A whole target specification document: an object in the usual case,
/// or another JSON value when a template held one.
pub enum TargetJson {
    Object(Vec<JsonEntry>),
    Scalar(TargetValue),
}

/// The abstract value of a [`TargetJson`]: the object's entries in order.
pub enum JsonModel {
    Object(Seq<(Seq<char>, ValueModel)>),
    Scalar(ValueModel),
}

/// The views of a vector of entries.
pub open spec fn entry_views(v: Seq<JsonEntry>) -> Seq<(Seq<char>, ValueModel)> {
    v.map_values(|e: JsonEntry| (e.key@, e.value@))
}

impl View for TargetJson {
    type V = JsonModel;

    open spec fn view(&self) -> JsonModel {
        match self {
            TargetJson::Object(es) => JsonModel::Object(entry_views(es@)),
            TargetJson::Scalar(v) => JsonModel::Scalar(v@),
        }
    }
}

/// The position of the first entry with the key, or `-1`.
pub open spec fn key_index(es: Seq<(Seq<char>, ValueModel)>, key: Seq<char>) -> int
    decreases es.len(),
{
    if es.len() == 0 {
        -1
    } else {
        let i = key_index(es.drop_last(), key);
        if i >= 0 {
            i
        } else if es.last().0 == key {
            es.len() - 1
        } else {
            -1
        }
    }
}

/// The value of a key; `null` when the key is absent or the document is no object.
pub open spec fn lookup(doc: JsonModel, key: Seq<char>) -> ValueModel {
    match doc {
        JsonModel::Object(es) => {
            let i = key_index(es, key);
            if i >= 0 {
                es[i].1
            } else {
                ValueModel::Null
            }
        },
        JsonModel::Scalar(_) => ValueModel::Null,
    }
}

/// Whether the document is an object holding the key.
pub open spec fn has_key(doc: JsonModel, key: Seq<char>) -> bool {
    match doc {
        JsonModel::Object(es) => key_index(es, key) >= 0,
        JsonModel::Scalar(_) => false,
    }
}

/// The document after the key is given a value: in place when the key is
/// present, appended when it is absent; a document that is no object
/// becomes an object holding just that key.
pub open spec fn set_key(doc: JsonModel, key: Seq<char>, v: ValueModel) -> JsonModel {
    match doc {
        JsonModel::Object(es) => {
            let i = key_index(es, key);
            if i >= 0 {
                JsonModel::Object(es.update(i, (key, v)))
            } else {
                JsonModel::Object(es.push((key, v)))
            }
        },
        JsonModel::Scalar(_) => JsonModel::Object(seq![(key, v)]),
    }
}

proof fn lemma_key_index_bounds(es: Seq<(Seq<char>, ValueModel)>, key: Seq<char>)
    ensures
        -1 <= key_index(es, key) < es.len(),
        key_index(es, key) >= 0 ==> es[key_index(es, key)].0 == key,
        key_index(es, key) == -1 ==> forall|j: int| 0 <= j < es.len() ==> (#[trigger] es[j]).0 != key,
    decreases es.len(),
{
    if es.len() > 0 {
        lemma_key_index_bounds(es.drop_last(), key);
        assert forall|j: int| 0 <= j < es.len() - 1 implies es[j] == es.drop_last()[j] by {}
    }
}

proof fn lemma_key_index_first(es: Seq<(Seq<char>, ValueModel)>, key: Seq<char>, i: int)
    requires
        0 <= i <= es.len(),
        forall|j: int| 0 <= j < i ==> (#[trigger] es[j]).0 != key,
    ensures
        i < es.len() && es[i].0 == key ==> key_index(es, key) == i,
        i == es.len() ==> key_index(es, key) == -1,
    decreases es.len(),
{
    if es.len() > 0 {
        if i == es.len() {
            lemma_key_index_first(es.drop_last(), key, i - 1);
        } else {
            if i < es.len() - 1 {
                lemma_key_index_first(es.drop_last(), key, i);
            } else {
                lemma_key_index_first(es.drop_last(), key, i);
            }
        }
    }
}

/// Where the document came from: the built-in base, or a template with the
/// keys that may be overridden and whether every key may be.
pub enum JsonSource {
    FromTemplate(Vec<String>, bool),
    FromBase,
}

/// The abstract value of a [`JsonSource`].
pub enum SourceModel {
    FromTemplate(Seq<Seq<char>>, bool),
    FromBase,
}

impl View for JsonSource {
    type V = SourceModel;

    open spec fn view(&self) -> SourceModel {
        match self {
            JsonSource::FromTemplate(keys, all) => SourceModel::FromTemplate(string_views(keys@), *all),
            JsonSource::FromBase => SourceModel::FromBase,
        }
    }
}

/// Whether a key may be written: always for the base; for a template, when
/// every key may be overridden, when the key is listed, or when the template
/// does not hold it yet.
pub open spec fn may_write(doc: JsonModel, src: SourceModel, key: Seq<char>) -> bool {
    match src {
        SourceModel::FromBase => true,
        SourceModel::FromTemplate(keys, all) => all || keys.contains(key) || !has_key(doc, key),
    }
}

/// The document after an update of `key` to the string `value`, and whether
/// the update changed the key's value.
pub open spec fn updated(doc: JsonModel, src: SourceModel, key: Seq<char>, value: Seq<char>) -> (JsonModel, bool) {
    if may_write(doc, src, key) {
        (set_key(doc, key, ValueModel::Str(value)), lookup(doc, key) != ValueModel::Str(value))
    } else {
        (doc, false)
    }
}

/// A target specification being generated, and where it came from.
pub struct ResultTargetSpec {
    pub json: TargetJson,
    pub json_source: JsonSource,
}

fn find_key(es: &Vec<JsonEntry>, key: &str) -> (res: Option<usize>)
    ensures
        match res {
            Some(i) => key_index(entry_views(es@), key@) == i,
            None => key_index(entry_views(es@), key@) == -1,
        },
{
    let mut i: usize = 0;
    while i < es.len()
        invariant
            i <= es.len(),
            forall|j: int| 0 <= j < i ==> (#[trigger] entry_views(es@)[j]).0 != key@,
        decreases es.len() - i,
    {
        if str_eq(es[i].key.as_str(), key) {
            proof {
                lemma_key_index_first(entry_views(es@), key@, i as int);
            }
            return Some(i);
        }
        i += 1;
    }
    proof {
        lemma_key_index_first(entry_views(es@), key@, i as int);
    }
    None
}

fn value_is_str(v: &TargetValue, s: &str) -> (res: bool)
    ensures
        res == (v@ == ValueModel::Str(s@)),
{
    match v {
        TargetValue::Str(x) => str_eq(x.as_str(), s),
        _ => false,
    }
}

fn listed(keys: &Vec<String>, key: &str) -> (res: bool)
    ensures
        res == string_views(keys@).contains(key@),
{
    let mut i: usize = 0;
    while i < keys.len()
        invariant
            i <= keys.len(),
            forall|j: int| 0 <= j < i ==> (#[trigger] string_views(keys@)[j]) != key@,
        decreases keys.len() - i,
    {
        if str_eq(keys[i].as_str(), key) {
            assert(string_views(keys@)[i as int] == key@);
            return true;
        }
        i += 1;
    }
    false
}

impl ResultTargetSpec {
    /// Sets `key` to the string `value` when the source allows it, and says
    /// whether the key's value changed.
    pub fn maybe_update(&mut self, key: &str, value: &str) -> (res: bool)
        ensures
            final(self).json_source@ == old(self).json_source@,
            (final(self).json@, res) == updated(old(self).json@, old(self).json_source@, key@, value@),
    {
        let present = match &self.json {
            TargetJson::Object(es) => find_key(es, key),
            TargetJson::Scalar(_) => None,
        };
        let permitted = match &self.json_source {
            JsonSource::FromBase => true,
            JsonSource::FromTemplate(keys, all) => *all || listed(keys, key) || present.is_none(),
        };
        if !permitted {
            return false;
        }
        let new_value = TargetValue::Str(value.to_owned());
        match &mut self.json {
            TargetJson::Object(es) => {
                let ghost before = entry_views(es@);
                match present {
                    Some(i) => {
                        proof {
                            lemma_key_index_bounds(before, key@);
                        }
                        assert(before[i as int] == (es@[i as int].key@, es@[i as int].value@));
                        let changed = !value_is_str(&es[i].value, value);
                        es.set(i, JsonEntry { key: key.to_owned(), value: new_value });
                        assert(entry_views(es@) =~= before.update(i as int, (key@, ValueModel::Str(value@))));
                        changed
                    },
                    None => {
                        es.push(JsonEntry { key: key.to_owned(), value: new_value });
                        assert(entry_views(es@) =~= before.push((key@, ValueModel::Str(value@))));
                        true
                    },
                }
            },
            TargetJson::Scalar(_) => {
                let mut es: Vec<JsonEntry> = Vec::new();
                es.push(JsonEntry { key: key.to_owned(), value: new_value });
                assert(entry_views(es@) =~= seq![(key@, ValueModel::Str(value@))]);
                self.json = TargetJson::Object(es);
                true
            },
        }
    }
}

/// The byte order of a target.
#[derive(Clone, Copy, PartialEq, Eq, Debug)]
pub enum Endian {
    Little,
    Big,
}

/// The relocation model of a target.
#[derive(Clone, Copy, PartialEq, Eq, Debug)]
pub enum RelocModel {
    Static,
    Pic,
    Pie,
    DynamicNoPic,
    Ropi,
    Rwpi,
    RopiRwpi,
}

/// The code model of a target.
#[derive(Clone, Copy, PartialEq, Eq, Debug)]
pub enum CodeModel {
    Tiny,
    Small,
    Kernel,
    Medium,
    Large,
}

/// Whether frame pointers may be omitted.
#[derive(Clone, Copy, PartialEq, Eq, Debug)]
pub enum FramePointer {
    Always,
    NonLeaf,
    MayOmit,
}

/// Which built-in base a specification starts from.
#[derive(Clone, Copy, PartialEq, Eq, Debug)]
pub enum Config {
    Init,
    Kernel,
}

/// The name of a byte order in a specification.
pub open spec fn endian_name(e: Endian) -> Seq<char> {
    match e {
        Endian::Little => "little"@,
        Endian::Big => "big"@,
    }
}

/// The name of a relocation model in a specification.
pub open spec fn reloc_model_name(r: RelocModel) -> Seq<char> {
    match r {
        RelocModel::Static => "static"@,
        RelocModel::Pic => "pic"@,
        RelocModel::Pie => "pie"@,
        RelocModel::DynamicNoPic => "dynamic-no-pic"@,
        RelocModel::Ropi => "ropi"@,
        RelocModel::Rwpi => "rwpi"@,
        RelocModel::RopiRwpi => "ropi-rwpi"@,
    }
}

/// The name of a code model in a specification.
pub open spec fn code_model_name(c: CodeModel) -> Seq<char> {
    match c {
        CodeModel::Tiny => "tiny"@,
        CodeModel::Small => "small"@,
        CodeModel::Kernel => "kernel"@,
        CodeModel::Medium => "medium"@,
        CodeModel::Large => "large"@,
    }
}

/// The name of a frame-pointer policy in a specification.
pub open spec fn frame_pointer_name(f: FramePointer) -> Seq<char> {
    match f {
        FramePointer::Always => "always"@,
        FramePointer::NonLeaf => "non-leaf"@,
        FramePointer::MayOmit => "may-omit"@,
    }
}

impl Endian {
    /// The name of the byte order in a specification.
    pub fn as_str(&self) -> (res: &'static str)
        ensures
            res@ == endian_name(*self),
    {
        match self {
            Endian::Little => "little",
            Endian::Big => "big",
        }
    }
}

impl RelocModel {
    /// The name of the relocation model in a specification.
    pub fn as_str(&self) -> (res: &'static str)
        ensures
            res@ == reloc_model_name(*self),
    {
        match self {
            RelocModel::Static => "static",
            RelocModel::Pic => "pic",
            RelocModel::Pie => "pie",
            RelocModel::DynamicNoPic => "dynamic-no-pic",
            RelocModel::Ropi => "ropi",
            RelocModel::Rwpi => "rwpi",
            RelocModel::RopiRwpi => "ropi-rwpi",
        }
    }
}

impl CodeModel {
    /// The name of the code model in a specification.
    pub fn as_str(&self) -> (res: &'static str)
        ensures
            res@ == code_model_name(*self),
    {
        match self {
            CodeModel::Tiny => "tiny",
            CodeModel::Small => "small",
            CodeModel::Kernel => "kernel",
            CodeModel::Medium => "medium",
            CodeModel::Large => "large",
        }
    }
}

impl FramePointer {
    /// The name of the frame-pointer policy in a specification.
    pub fn as_str(&self) -> (res: &'static str)
        ensures
            res@ == frame_pointer_name(*self),
    {
        match self {
            FramePointer::Always => "always",
            FramePointer::NonLeaf => "non-leaf",
            FramePointer::MayOmit => "may-omit",
        }
    }
}

/// The options that a generated specification is given.
pub struct ArchitectureOptions {
    pub cpu: String,
    pub frame_pointer: FramePointer,
    pub endian: Option<Endian>,
    pub pointer_width: Option<usize>,
    pub int_width: Option<usize>,
    pub data_layout: Option<String>,
    pub linker: Option<String>,
    pub linker_flavor: Option<String>,
    pub features: Option<String>,
    pub reloc_model: RelocModel,
    pub code_model: CodeModel,
    pub abi: Option<String>,
    pub llvm_abiname: Option<String>,
    pub llvm_floatabi: Option<String>,
    pub rustc_abi: Option<String>,
    pub entry_abi: Option<String>,
}

/// An update of `key` to `value`, when a value is given.
pub open spec fn optional_update(key: Seq<char>, value: Option<Seq<char>>) -> Seq<(Seq<char>, Seq<char>)> {
    match value {
        Some(v) => seq![(key, v)],
        None => seq![],
    }
}

/// The decimal text of an optional width.
pub open spec fn width_text(w: Option<usize>) -> Option<Seq<char>> {
    match w {
        Some(x) => Some(decimal(x as nat)),
        None => None,
    }
}

/// The updates an x86-64 specification receives, in order.
pub open spec fn amd64_updates(o: ArchitectureOptions) -> Seq<(Seq<char>, Seq<char>)> {
    seq![("cpu"@, o.cpu@), ("frame-pointer"@, frame_pointer_name(o.frame_pointer))]
        + optional_update("target-endian"@, match o.endian { Some(e) => Some(endian_name(e)), None => None })
        + optional_update("target-pointer-width"@, width_text(o.pointer_width))
        + optional_update("target-c-int-width"@, width_text(o.int_width))
        + optional_update("data-layout"@, opt_string_view(o.data_layout))
        + optional_update("linker"@, opt_string_view(o.linker))
        + optional_update("linker-flavor"@, opt_string_view(o.linker_flavor))
        + optional_update("features"@, opt_string_view(o.features))
        + seq![("relocation-model"@, reloc_model_name(o.reloc_model)), ("code-model"@, code_model_name(o.code_model))]
        + optional_update("abi"@, opt_string_view(o.abi))
        + optional_update("llvm-abiname"@, opt_string_view(o.llvm_abiname))
        + optional_update("llvm-floatabi"@, opt_string_view(o.llvm_floatabi))
        + optional_update("rustc-abi"@, opt_string_view(o.rustc_abi))
        + optional_update("entry-abi"@, opt_string_view(o.entry_abi))
}

/// The document after the updates in order, and how many of them changed a value.
pub open spec fn apply_updates(doc: JsonModel, src: SourceModel, us: Seq<(Seq<char>, Seq<char>)>) -> (JsonModel, nat)
    decreases us.len(),
{
    if us.len() == 0 {
        (doc, 0)
    } else {
        let (d, n) = apply_updates(doc, src, us.drop_last());
        let (d2, changed) = updated(d, src, us.last().0, us.last().1);
        (d2, n + if changed { 1nat } else { 0nat })
    }
}

/// The update pairs as views.
pub open spec fn pair_views(v: Seq<(String, String)>) -> Seq<(Seq<char>, Seq<char>)> {
    v.map_values(|p: (String, String)| (p.0@, p.1@))
}

fn push_pair(v: &mut Vec<(String, String)>, k: &str, x: &str)
    ensures
        pair_views(final(v)@) == pair_views(old(v)@).push((k@, x@)),
{
    let ghost before = v@;
    v.push((k.to_owned(), x.to_owned()));
    assert(pair_views(v@) =~= pair_views(before).push((k@, x@)));
}

fn push_optional(v: &mut Vec<(String, String)>, k: &str, x: &Option<String>)
    ensures
        pair_views(final(v)@) == pair_views(old(v)@) + optional_update(k@, opt_string_view(*x)),
{
    match x {
        Some(s) => push_pair(v, k, s.as_str()),
        None => {
            assert(pair_views(v@) =~= pair_views(v@) + Seq::<(Seq<char>, Seq<char>)>::empty());
        },
    }
}

fn push_width(v: &mut Vec<(String, String)>, k: &str, w: Option<usize>)
    ensures
        pair_views(final(v)@) == pair_views(old(v)@) + optional_update(k@, width_text(w)),
{
    match w {
        Some(x) => {
            let t = u64_to_decimal(x as u64);
            push_pair(v, k, t.as_str());
        },
        None => {
            assert(pair_views(v@) =~= pair_views(v@) + Seq::<(Seq<char>, Seq<char>)>::empty());
        },
    }
}

fn amd64_update_list(o: &ArchitectureOptions) -> (res: Vec<(String, String)>)
    ensures
        pair_views(res@) == amd64_updates(*o),
{
    let mut v: Vec<(String, String)> = Vec::new();
    assert(pair_views(v@) =~= Seq::<(Seq<char>, Seq<char>)>::empty());
    push_pair(&mut v, "cpu", o.cpu.as_str());
    push_pair(&mut v, "frame-pointer", o.frame_pointer.as_str());
    assert(pair_views(v@) =~= seq![("cpu"@, o.cpu@), ("frame-pointer"@, frame_pointer_name(o.frame_pointer))]);
    let ghost a = pair_views(v@);
    match o.endian {
        Some(e) => push_pair(&mut v, "target-endian", e.as_str()),
        None => {},
    }
    assert(pair_views(v@) =~= a + optional_update("target-endian"@, match o.endian { Some(e) => Some(endian_name(e)), None => None }));
    push_width(&mut v, "target-pointer-width", o.pointer_width);
    push_width(&mut v, "target-c-int-width", o.int_width);
    push_optional(&mut v, "data-layout", &o.data_layout);
    push_optional(&mut v, "linker", &o.linker);
    push_optional(&mut v, "linker-flavor", &o.linker_flavor);
    push_optional(&mut v, "features", &o.features);
    let ghost b = pair_views(v@);
    push_pair(&mut v, "relocation-model", o.reloc_model.as_str());
    push_pair(&mut v, "code-model", o.code_model.as_str());
    assert(pair_views(v@) =~= b + seq![("relocation-model"@, reloc_model_name(o.reloc_model)), ("code-model"@, code_model_name(o.code_model))]);
    push_optional(&mut v, "abi", &o.abi);
    push_optional(&mut v, "llvm-abiname", &o.llvm_abiname);
    push_optional(&mut v, "llvm-floatabi", &o.llvm_floatabi);
    push_optional(&mut v, "rustc-abi", &o.rustc_abi);
    push_optional(&mut v, "entry-abi", &o.entry_abi);
    v
}

impl ResultTargetSpec {
    /// Applies the options to an x86-64 specification, key by key under the
    /// source's rules, and counts the keys whose value changed.
    pub fn generate_amd64(&mut self, opts: &ArchitectureOptions) -> (res: usize)
        ensures
            final(self).json_source@ == old(self).json_source@,
            (final(self).json@, res as nat) == apply_updates(old(self).json@, old(self).json_source@, amd64_updates(*opts)),
    {
        let us = amd64_update_list(opts);
        let ghost start = self.json@;
        let ghost src = self.json_source@;
        let mut count: usize = 0;
        let mut i: usize = 0;
        while i < us.len()
            invariant
                i <= us.len(),
                pair_views(us@) == amd64_updates(*opts),
                self.json_source@ == src,
                count <= i,
                (self.json@, count as nat) == apply_updates(start, src, pair_views(us@).take(i as int)),
            decreases us.len() - i,
        {
            assert(pair_views(us@).take(i + 1).drop_last() =~= pair_views(us@).take(i as int));
            assert(pair_views(us@).take(i + 1).last() == (us@[i as int].0@, us@[i as int].1@));
            let changed = self.maybe_update(us[i].0.as_str(), us[i].1.as_str());
            if changed {
                count += 1;
            }
            i += 1;
        }
        assert(pair_views(us@).take(us.len() as int) =~= pair_views(us@));
        count
    }
}

proof fn lemma_key_index_is_first(es: Seq<(Seq<char>, ValueModel)>, key: Seq<char>)
    ensures
        key_index(es, key) >= 0 ==> forall|j: int| 0 <= j < key_index(es, key) ==> (#[trigger] es[j]).0 != key,
    decreases es.len(),
{
    if es.len() > 0 {
        lemma_key_index_is_first(es.drop_last(), key);
        lemma_key_index_bounds(es.drop_last(), key);
        assert forall|j: int| 0 <= j < es.len() - 1 implies es[j] == es.drop_last()[j] by {}
    }
}

proof fn lemma_key_index_same_pattern(a: Seq<(Seq<char>, ValueModel)>, b: Seq<(Seq<char>, ValueModel)>, key: Seq<char>)
    requires
        a.len() == b.len(),
        forall|j: int| 0 <= j < a.len() ==> ((#[trigger] a[j]).0 == key) == (b[j].0 == key),
    ensures
        key_index(a, key) == key_index(b, key),
    decreases a.len(),
{
    if a.len() > 0 {
        assert forall|j: int| 0 <= j < a.len() - 1 implies ((#[trigger] a.drop_last()[j]).0 == key) == (b.drop_last()[j].0
            == key) by {
            assert(a.drop_last()[j] == a[j]);
            assert(b.drop_last()[j] == b[j]);
        }
        lemma_key_index_same_pattern(a.drop_last(), b.drop_last(), key);
        assert(a.last() == a[a.len() - 1]);
        assert(b.last() == b[b.len() - 1]);
    }
}

proof fn lemma_set_key_effect(doc: JsonModel, key: Seq<char>, v: ValueModel, other: Seq<char>)
    ensures
        lookup(set_key(doc, key, v), key) == v,
        has_key(set_key(doc, key, v), key),
        other != key ==> lookup(set_key(doc, key, v), other) == lookup(doc, other),
        other != key ==> has_key(set_key(doc, key, v), other) == has_key(doc, other),
{
    match doc {
        JsonModel::Object(es) => {
            let i = key_index(es, key);
            lemma_key_index_bounds(es, key);
            lemma_key_index_bounds(es, other);
            if i >= 0 {
                let es2 = es.update(i, (key, v));
                lemma_key_index_is_first(es, key);
                lemma_key_index_first(es2, key, i);
                assert forall|j: int| 0 <= j < es.len() implies ((#[trigger] es2[j]).0 == other) == (es[j].0 == other) by {
                    if j == i {
                        assert(es[j].0 == key);
                    }
                }
                assert(key_index(es2, key) == i);
                assert(es2[i] == (key, v));
                assert(set_key(doc, key, v) == JsonModel::Object(es2));
                assert(lookup(JsonModel::Object(es2), key) == v);
                if other != key {
                    lemma_key_index_same_pattern(es2, es, other);
                    let j = key_index(es, other);
                    if j >= 0 {
                        assert(es[j].0 == other);
                        assert(j != i);
                        assert(es2[j] == es[j]);
                    }
                }
            } else {
                let es2 = es.push((key, v));
                assert(es2.drop_last() =~= es);
                assert(es2.last() == (key, v));
                assert(key_index(es2, key) == es.len());
                assert(es2[es.len() as int] == (key, v));
                assert(set_key(doc, key, v) == JsonModel::Object(es2));
                assert(lookup(JsonModel::Object(es2), key) == v);
                if other != key {
                    let j = key_index(es, other);
                    assert(key_index(es2, other) == j);
                    if j >= 0 {
                        assert(es2[j] == es[j]);
                    }
                }
            }
        },
        JsonModel::Scalar(_) => {
            let es2 = seq![(key, v)];
            assert(es2.drop_last() =~= Seq::<(Seq<char>, ValueModel)>::empty());
            assert(key_index(es2.drop_last(), key) == -1);
            assert(key_index(es2.drop_last(), other) == -1);
            assert(es2.last() == (key, v));
            assert(key_index(es2, key) == 0);
            assert(set_key(doc, key, v) == JsonModel::Object(es2));
        },
    }
}

/// After an update that the source allows, the key reads back the new
/// string; every other key reads and is present as before. An update that
/// the source refuses changes nothing.
pub proof fn lemma_update_then_lookup(doc: JsonModel, src: SourceModel, key: Seq<char>, value: Seq<char>, other: Seq<char>)
    ensures
        may_write(doc, src, key) ==> lookup(updated(doc, src, key, value).0, key) == ValueModel::Str(value),
        !may_write(doc, src, key) ==> updated(doc, src, key, value).0 == doc,
        other != key ==> lookup(updated(doc, src, key, value).0, other) == lookup(doc, other),
        other != key ==> has_key(updated(doc, src, key, value).0, other) == has_key(doc, other),
{
    lemma_set_key_effect(doc, key, ValueModel::Str(value), other);
}

/// A key that a template holds and that the override list does not name
/// (without an "any key" override) keeps the template's value through any
/// sequence of updates, as generating a specification from it applies them.
pub proof fn lemma_template_keys_kept(doc: JsonModel, keys: Seq<Seq<char>>, us: Seq<(Seq<char>, Seq<char>)>, k: Seq<char>)
    requires
        has_key(doc, k),
        !keys.contains(k),
    ensures
        lookup(apply_updates(doc, SourceModel::FromTemplate(keys, false), us).0, k) == lookup(doc, k),
        has_key(apply_updates(doc, SourceModel::FromTemplate(keys, false), us).0, k),
    decreases us.len(),
{
    if us.len() > 0 {
        let src = SourceModel::FromTemplate(keys, false);
        lemma_template_keys_kept(doc, keys, us.drop_last(), k);
        let d = apply_updates(doc, src, us.drop_last()).0;
        lemma_update_then_lookup(d, src, us.last().0, us.last().1, k);
    }
}

/// The entries of the built-in x86-64 base specification, for early boot
/// code (`Init`) or for the kernel proper.
pub open spec fn amd64_base(config: Config) -> Seq<(Seq<char>, ValueModel)> {
    let head = seq![
        ("llvm-target"@, ValueModel::Str("x86_64-unknown-none"@)),
        ("target-endian"@, ValueModel::Str("little"@)),
        ("target-pointer-width"@, ValueModel::Str("64"@)),
        ("target-c-int-width"@, ValueModel::Str("32"@)),
        ("data-layout"@, ValueModel::Str("e-m:e-p270:32:32-p271:32:32-p272:64:64-i64:64-i128:128-f80:128-n8:16:32:64-S128"@)),
        ("arch"@, ValueModel::Str("x86_64"@)),
        ("os"@, ValueModel::Str("none"@)),
        ("env"@, ValueModel::Str(""@)),
        ("vendor"@, ValueModel::Str("unknown"@)),
        ("linker"@, ValueModel::Str("rust-lld"@)),
        ("linker-flavor"@, ValueModel::Str("gnu-lld"@)),
    ];
    let features = match config {
        Config::Init => seq![("features"@, ValueModel::Str("-mmx,-sse,-sse2,-sse3,-ssse3,-sse4.1,-sse4.2,-avx,-avx2,+soft-float"@))],
        Config::Kernel => seq![],
    };
    let middle = seq![
        ("dynamic-linking"@, ValueModel::Bool(false)),
        ("executables"@, ValueModel::Bool(true)),
        ("relocation-model"@, ValueModel::Str("static"@)),
        ("code-model"@, ValueModel::Str("kernel"@)),
        ("disable-redzone"@, ValueModel::Bool(true)),
        ("frame-pointer"@, ValueModel::Str("may-omit"@)),
        ("exe-suffix"@, ValueModel::Str(""@)),
        ("has-rpath"@, ValueModel::Bool(false)),
        ("no-default-libraries"@, ValueModel::Bool(true)),
        ("position-independent-executables"@, ValueModel::Bool(false)),
    ];
    let abi = match config {
        Config::Init => seq![("rustc-abi"@, ValueModel::Str("x86-softfloat"@))],
        Config::Kernel => seq![],
    };
    head + features + middle + abi + seq![("cpu"@, ValueModel::Str("generic"@))]
}

/// Both built-in x86-64 base specifications disable the red zone: their
/// `disable-redzone` key holds `true`, as kernel code needs.
pub proof fn lemma_base_disables_red_zone(config: Config)
    ensures
        lookup(JsonModel::Object(amd64_base(config)), "disable-redzone"@) == ValueModel::Bool(true),
{
    reveal_strlit("disable-redzone");
    reveal_strlit("llvm-target");
    assert("llvm-target"@.len() != "disable-redzone"@.len());
    reveal_strlit("target-endian");
    assert("target-endian"@.len() != "disable-redzone"@.len());
    reveal_strlit("target-pointer-width");
    assert("target-pointer-width"@.len() != "disable-redzone"@.len());
    reveal_strlit("target-c-int-width");
    assert("target-c-int-width"@.len() != "disable-redzone"@.len());
    reveal_strlit("data-layout");
    assert("data-layout"@.len() != "disable-redzone"@.len());
    reveal_strlit("arch");
    assert("arch"@.len() != "disable-redzone"@.len());
    reveal_strlit("os");
    assert("os"@.len() != "disable-redzone"@.len());
    reveal_strlit("env");
    assert("env"@.len() != "disable-redzone"@.len());
    reveal_strlit("vendor");
    assert("vendor"@.len() != "disable-redzone"@.len());
    reveal_strlit("linker");
    assert("linker"@.len() != "disable-redzone"@.len());
    reveal_strlit("linker-flavor");
    assert("linker-flavor"@.len() != "disable-redzone"@.len());
    reveal_strlit("features");
    assert("features"@.len() != "disable-redzone"@.len());
    reveal_strlit("dynamic-linking");
    assert("dynamic-linking"@[1] != "disable-redzone"@[1]);
    reveal_strlit("executables");
    assert("executables"@.len() != "disable-redzone"@.len());
    reveal_strlit("relocation-model");
    assert("relocation-model"@.len() != "disable-redzone"@.len());
    reveal_strlit("code-model");
    assert("code-model"@.len() != "disable-redzone"@.len());
    let es = amd64_base(config);
    let i: int = match config {
        Config::Init => 16,
        Config::Kernel => 15,
    };
    assert(es[i] == ("disable-redzone"@, ValueModel::Bool(true)));
    assert forall|j: int| 0 <= j < i implies (#[trigger] es[j]).0 != "disable-redzone"@ by {}
    lemma_key_index_first(es, "disable-redzone"@, i);
}

fn push_entry(v: &mut Vec<JsonEntry>, key: &str, value: TargetValue)
    ensures
        entry_views(final(v)@) == entry_views(old(v)@).push((key@, value@)),
{
    let ghost before = v@;
    let ghost val = value@;
    v.push(JsonEntry { key: key.to_owned(), value });
    assert(entry_views(v@) =~= entry_views(before).push((key@, val)));
}

fn push_str_entry(v: &mut Vec<JsonEntry>, key: &str, value: &str)
    ensures
        entry_views(final(v)@) == entry_views(old(v)@).push((key@, ValueModel::Str(value@))),
{
    push_entry(v, key, TargetValue::Str(value.to_owned()));
}

fn push_bool_entry(v: &mut Vec<JsonEntry>, key: &str, value: bool)
    ensures
        entry_views(final(v)@) == entry_views(old(v)@).push((key@, ValueModel::Bool(value))),
{
    push_entry(v, key, TargetValue::Bool(value));
}

/// The built-in x86-64 base specification.
pub fn amd64_base_template(config: Config) -> (res: TargetJson)
    ensures
        res@ == JsonModel::Object(amd64_base(config)),
{
    let mut v: Vec<JsonEntry> = Vec::new();
    assert(entry_views(v@) =~= Seq::<(Seq<char>, ValueModel)>::empty());
    push_str_entry(&mut v, "llvm-target", "x86_64-unknown-none");
    push_str_entry(&mut v, "target-endian", "little");
    push_str_entry(&mut v, "target-pointer-width", "64");
    push_str_entry(&mut v, "target-c-int-width", "32");
    push_str_entry(
        &mut v,
        "data-layout",
        "e-m:e-p270:32:32-p271:32:32-p272:64:64-i64:64-i128:128-f80:128-n8:16:32:64-S128",
    );
    push_str_entry(&mut v, "arch", "x86_64");
    push_str_entry(&mut v, "os", "none");
    push_str_entry(&mut v, "env", "");
    push_str_entry(&mut v, "vendor", "unknown");
    push_str_entry(&mut v, "linker", "rust-lld");
    push_str_entry(&mut v, "linker-flavor", "gnu-lld");
    let ghost head = entry_views(v@);
    match config {
        Config::Init => push_str_entry(
            &mut v,
            "features",
            "-mmx,-sse,-sse2,-sse3,-ssse3,-sse4.1,-sse4.2,-avx,-avx2,+soft-float",
        ),
        Config::Kernel => {},
    }
    let ghost with_features = entry_views(v@);
    push_bool_entry(&mut v, "dynamic-linking", false);
    push_bool_entry(&mut v, "executables", true);
    push_str_entry(&mut v, "relocation-model", "static");
    push_str_entry(&mut v, "code-model", "kernel");
    push_bool_entry(&mut v, "disable-redzone", true);
    push_str_entry(&mut v, "frame-pointer", "may-omit");
    push_str_entry(&mut v, "exe-suffix", "");
    push_bool_entry(&mut v, "has-rpath", false);
    push_bool_entry(&mut v, "no-default-libraries", true);
    push_bool_entry(&mut v, "position-independent-executables", false);
    let ghost with_middle = entry_views(v@);
    match config {
        Config::Init => push_str_entry(&mut v, "rustc-abi", "x86-softfloat"),
        Config::Kernel => {},
    }
    let ghost with_abi = entry_views(v@);
    push_str_entry(&mut v, "cpu", "generic");
    proof {
        let b = amd64_base(config);
        assert(head =~= b.subrange(0, 11));
        let f = match config { Config::Init => 1int, Config::Kernel => 0int };
        assert(with_features =~= b.subrange(0, 11 + f));
        assert(with_middle =~= b.subrange(0, 21 + f));
        assert(with_abi =~= b.subrange(0, 21 + 2 * f));
        assert(entry_views(v@) =~= b);
    }
    TargetJson::Object(v)
}

/// The position of the first string that equals `needle` up to ASCII case.
pub fn find_ascii_case_insensitive(haystack: &Vec<String>, needle: &str) -> (res: Option<usize>)
    ensures
        match res {
            Some(i) => i < haystack@.len() && eq_ignore_ascii_case_spec(haystack@[i as int]@, needle@)
                && forall|j: int| 0 <= j < i ==> !eq_ignore_ascii_case_spec(#[trigger] haystack@[j]@, needle@),
            None => forall|j: int|
                0 <= j < haystack@.len() ==> !eq_ignore_ascii_case_spec(#[trigger] haystack@[j]@, needle@),
        },
{
    let mut i: usize = 0;
    while i < haystack.len()
        invariant
            i <= haystack.len(),
            forall|j: int| 0 <= j < i ==> !eq_ignore_ascii_case_spec(#[trigger] haystack@[j]@, needle@),
        decreases haystack.len() - i,
    {
        if eq_ignore_ascii_case(haystack[i].as_str(), needle) {
            return Some(i);
        }
        i += 1;
    }
    None
}

/// The words that let an override list cover every key.
pub open spec fn is_any_key_word(k: Seq<char>) -> bool {
    eq_ignore_ascii_case_spec(k, "all"@) || eq_ignore_ascii_case_spec(k, "any"@)
        || eq_ignore_ascii_case_spec(k, "anything"@) || eq_ignore_ascii_case_spec(k, "everything"@)
}

/// Whether a list of overridable keys names every key.
pub open spec fn overrides_any(keys: Seq<Seq<char>>) -> bool {
    exists|i: int| 0 <= i < keys.len() && is_any_key_word(#[trigger] keys[i])
}

/// The source of a specification read from a template: the keys of the
/// `--override` list (split at commas), and whether one of them is `all`,
/// `any`, `anything` or `everything` in any ASCII case.
pub fn template_source(replace: Option<&str>) -> (res: JsonSource)
    ensures
        res@ matches SourceModel::FromTemplate(keys, all) && match replace {
            None => keys.len() == 0 && !all,
            Some(r) => is_split_of(r@, ',', keys) && all == overrides_any(keys),
        },
{
    let keys: Vec<String> = match replace {
        None => Vec::new(),
        Some(r) => {
            let chars = chars_of(r);
            let pieces = split_on(&chars, ',');
            let mut out: Vec<String> = Vec::new();
            let mut i: usize = 0;
            while i < pieces.len()
                invariant
                    i <= pieces.len(),
                    out@.len() == i,
                    forall|k: int| 0 <= k < i ==> (#[trigger] out@[k])@ == pieces@[k]@,
                decreases pieces.len() - i,
            {
                out.push(string_of(&pieces[i]));
                i += 1;
            }
            assert(string_views(out@) =~= pieces@.map_values(|v: Vec<char>| v@));
            out
        },
    };
    let all = find_ascii_case_insensitive(&keys, "all").is_some() || find_ascii_case_insensitive(
        &keys,
        "any",
    ).is_some() || find_ascii_case_insensitive(&keys, "anything").is_some()
        || find_ascii_case_insensitive(&keys, "everything").is_some();
    proof {
        let ks = string_views(keys@);
        if all {
            let i = choose|i: int| 0 <= i < keys@.len() && (eq_ignore_ascii_case_spec(keys@[i]@, "all"@)
                || eq_ignore_ascii_case_spec(keys@[i]@, "any"@) || eq_ignore_ascii_case_spec(keys@[i]@, "anything"@)
                || eq_ignore_ascii_case_spec(keys@[i]@, "everything"@));
            assert(ks[i] == keys@[i]@);
        } else {
            assert forall|i: int| 0 <= i < ks.len() implies !is_any_key_word(#[trigger] ks[i]) by {
                assert(ks[i] == keys@[i]@);
            }
        }
        if replace is None {
            assert(ks =~= Seq::<Seq<char>>::empty());
        }
    }
    JsonSource::FromTemplate(keys, all)
}

/// The floating-point ABI that rustc is told to use on x86.
#[derive(Clone, Copy, PartialEq, Eq, Debug)]
pub enum RustcAbi {
    X86Sse2,
    X86Softfloat,
}

/// The settings of a target specification that the earlier generator filled in.
pub struct TargetSpec {
    pub llvm_target: String,
    pub pointer_width: u32,
    pub arch: String,
    pub data_layout: String,
    pub endian: Endian,
    pub c_int_width: u32,
    pub os: String,
    pub env: String,
    pub vendor: String,
    pub linker: Option<String>,
    pub linker_flavor: Option<String>,
    pub features: String,
    pub dynamic_linking: bool,
    pub executables: bool,
    pub relocation_model: RelocModel,
    pub code_model: Option<CodeModel>,
    pub disable_redzone: bool,
    pub frame_pointer: FramePointer,
    pub exe_suffix: String,
    pub has_rpath: bool,
    pub no_default_libraries: bool,
    pub position_independent_executables: bool,
    pub rustc_abi: Option<RustcAbi>,
}

/// The x86-64 kernel target: `x86_64-unknown-none`, 64-bit pointers, 32-bit
/// `int`, little endian, no operating system and no environment, linked by
/// `rust-lld` as a static, non-relocatable executable of the kernel code
/// model, without the red zone, SIMD or hardware floating point, and with
/// frame pointers kept.
pub fn gen_x86_64() -> (res: TargetSpec)
    ensures
        res.llvm_target@ == "x86_64-unknown-none"@,
        res.pointer_width == 64,
        res.arch@ == "x86_64"@,
        res.data_layout@ == "e-m:e-p270:32:32-p271:32:32-p272:64:64-i64:64-i128:128-f80:128-n8:16:32:64-S128"@,
        res.endian == Endian::Little,
        res.c_int_width == 32,
        res.os@ == "none"@,
        res.env@ == ""@,
        res.vendor@ == "unknown"@,
        res.linker matches Some(l) && l@ == "rust-lld"@,
        res.linker_flavor matches Some(f) && f@ == "gnu-lld"@,
        res.features@ == "-mmx,-sse,-sse2,-sse3,-ssse3,-sse4.1,-sse4.2,-avx,-avx2,+soft-float"@,
        !res.dynamic_linking,
        res.executables,
        res.relocation_model == RelocModel::Static,
        res.code_model == Some(CodeModel::Kernel),
        res.disable_redzone,
        res.frame_pointer == FramePointer::Always,
        res.exe_suffix@ == ""@,
        !res.has_rpath,
        res.no_default_libraries,
        !res.position_independent_executables,
        res.rustc_abi == Some(RustcAbi::X86Softfloat),
{
    TargetSpec {
        llvm_target: "x86_64-unknown-none".to_owned(),
        pointer_width: 64,
        arch: "x86_64".to_owned(),
        data_layout: "e-m:e-p270:32:32-p271:32:32-p272:64:64-i64:64-i128:128-f80:128-n8:16:32:64-S128".to_owned(),
        endian: Endian::Little,
        c_int_width: 32,
        os: "none".to_owned(),
        env: "".to_owned(),
        vendor: "unknown".to_owned(),
        linker: Some("rust-lld".to_owned()),
        linker_flavor: Some("gnu-lld".to_owned()),
        features: "-mmx,-sse,-sse2,-sse3,-ssse3,-sse4.1,-sse4.2,-avx,-avx2,+soft-float".to_owned(),
        dynamic_linking: false,
        executables: true,
        relocation_model: RelocModel::Static,
        code_model: Some(CodeModel::Kernel),
        disable_redzone: true,
        frame_pointer: FramePointer::Always,
        exe_suffix: "".to_owned(),
        has_rpath: false,
        no_default_libraries: true,
        position_independent_executables: false,
        rustc_abi: Some(RustcAbi::X86Softfloat),
    }
}

/// What `json::parse` makes of a template's text: the document, its
/// values read as [`TargetValue`]s, or the error's message.
pub uninterp spec fn template_document(text: Seq<char>) -> Result<JsonModel, Seq<char>>;

/// What the `json` crate writes for a document with `pretty(4)`, or the
/// error's message where a value cannot be built.
pub uninterp spec fn rendered_document(doc: JsonModel) -> Result<Seq<char>, Seq<char>>;

/// `json::parse`, with the parsed value converted one for one into a
/// [`TargetJson`]. The contract names the result.
#[verifier::external_body]
fn parse_template(text: &str) -> (res: Result<TargetJson, String>)
    ensures
        match res {
            Ok(d) => template_document(text@) == Ok::<JsonModel, Seq<char>>(d@),
            Err(e) => template_document(text@) == Err::<JsonModel, Seq<char>>(e@),
        },
{
    let value = |v: &json::JsonValue| match v {
        json::JsonValue::Null => TargetValue::Null,
        json::JsonValue::Boolean(b) => TargetValue::Bool(*b),
        json::JsonValue::Short(s) => TargetValue::Str(s.to_string()),
        json::JsonValue::String(s) => TargetValue::Str(s.clone()),
        other => TargetValue::Raw(other.dump()),
    };
    match json::parse(text) {
        Ok(json::JsonValue::Object(o)) => Ok(TargetJson::Object(o.iter().map(|(k, v)| JsonEntry { key: k.to_string(), value: value(v) }).collect())),
        Ok(other) => Ok(TargetJson::Scalar(value(&other))),
        Err(e) => Err(e.to_string()),
    }
}

/// The `json` crate's `pretty(4)` text of a document, its values converted
/// one for one into JSON values. The contract names the result.
#[verifier::external_body]
fn render_document(doc: &TargetJson) -> (res: Result<String, String>)
    ensures
        match res {
            Ok(t) => rendered_document(doc@) == Ok::<Seq<char>, Seq<char>>(t@),
            Err(e) => rendered_document(doc@) == Err::<Seq<char>, Seq<char>>(e@),
        },
{
    let value = |v: &TargetValue| match v {
        TargetValue::Null => Ok(json::JsonValue::Null),
        TargetValue::Bool(b) => Ok(json::JsonValue::Boolean(*b)),
        TargetValue::Str(s) => Ok(json::JsonValue::String(s.clone())),
        TargetValue::Raw(t) => json::parse(t),
    };
    let built = match doc {
        TargetJson::Scalar(v) => value(v),
        TargetJson::Object(es) => es.iter().try_fold(json::JsonValue::new_object(), |mut o, e| o.insert(&e.key, value(&e.value)?).map(|_| o)),
    };
    built.map(|j| j.pretty(4)).map_err(|e| e.to_string())
}

/// A specification read from a template's text, with the keys of the
/// `--override` list as its source; the parser's message where the text is
/// not JSON.
pub fn load_template(text: &str, replace: Option<&str>) -> (res: Result<ResultTargetSpec, String>)
    ensures
        match template_document(text@) {
            Ok(d) => res matches Ok(r) && r.json@ == d && (r.json_source@ matches SourceModel::FromTemplate(keys, all)
                && match replace {
                None => keys.len() == 0 && !all,
                Some(rp) => is_split_of(rp@, ',', keys) && all == overrides_any(keys),
            }),
            Err(e) => res matches Err(m) && m@ == e,
        },
{
    match parse_template(text) {
        Ok(json) => Ok(ResultTargetSpec { json, json_source: template_source(replace) }),
        Err(e) => Err(e),
    }
}

impl ResultTargetSpec {
    /// The text written for the specification: its document as the `json`
    /// crate prints it with an indentation of four.
    pub fn render(&self) -> (res: Result<String, String>)
        ensures
            match rendered_document(self.json@) {
                Ok(t) => res matches Ok(x) && x@ == t,
                Err(e) => res matches Err(x) && x@ == e,
            },
    {
        render_document(&self.json)
    }
}

} // verus!
