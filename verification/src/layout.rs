//! The layout of a bit-field declaration: its elements follow each other
//! from bit 0; the members of a union all start where the union starts; the
//! fields of a struct inside a union follow each other.

use vstd::prelude::*;
use crate::bitfield::{
    field_value, field_written, int_type_name, lemma_set_keeps_other_fields, request_holds, request_items,
    request_items_spec, select_suitable_type, suitable_type, BitFieldRequest, RequestItem,
};

verus! {

/// The type that a field is declared with.
pub enum FieldType {
    /// `_`: the smallest unsigned type that holds the field.
    Inferred,
    /// A type written out, and its width in bits (its size in bytes times 8).
    Declared { name: String, bits: usize },
}

/// A field of a declaration: whether it is public, its type, its name, its
/// width in bits, and that width as it is written, which is either an
/// integer literal or an expression only the compiler evaluates.
pub struct FieldDecl {
    pub public: bool,
    pub ty: FieldType,
    pub name: String,
    pub size: usize,
    pub size_text: String,
    pub size_is_literal: bool,
}

/// A member of a union: a field, or a struct of fields.
pub enum InnerElem {
    Only(FieldDecl),
    Struct(Vec<FieldDecl>),
}

/// An element of a declaration: a field, or a union of members.
pub enum BitFieldElem {
    Only(FieldDecl),
    Union(Vec<InnerElem>),
}

/// The place of a field: the field and its first bit.
pub struct FieldPlace {
    pub field: FieldDecl,
    pub start: usize,
}

/// The abstract value of a member of a union.
pub enum InnerModel {
    Only(Seq<char>, nat),
    Struct(Seq<(Seq<char>, nat)>),
}

/// The abstract value of an element.
pub enum ElemModel {
    Only(Seq<char>, nat),
    Union(Seq<InnerModel>),
}

impl View for FieldDecl {
    type V = (Seq<char>, nat);

    open spec fn view(&self) -> (Seq<char>, nat) {
        (self.name@, self.size as nat)
    }
}

/// The views of a sequence of fields.
pub open spec fn field_views(fs: Seq<FieldDecl>) -> Seq<(Seq<char>, nat)> {
    fs.map_values(|f: FieldDecl| f@)
}

impl View for InnerElem {
    type V = InnerModel;

    open spec fn view(&self) -> InnerModel {
        match self {
            InnerElem::Only(f) => InnerModel::Only(f.name@, f.size as nat),
            InnerElem::Struct(fs) => InnerModel::Struct(field_views(fs@)),
        }
    }
}

/// The views of a sequence of union members.
pub open spec fn inner_views(us: Seq<InnerElem>) -> Seq<InnerModel> {
    us.map_values(|u: InnerElem| u@)
}

impl View for BitFieldElem {
    type V = ElemModel;

    open spec fn view(&self) -> ElemModel {
        match self {
            BitFieldElem::Only(f) => ElemModel::Only(f.name@, f.size as nat),
            BitFieldElem::Union(us) => ElemModel::Union(inner_views(us@)),
        }
    }
}

/// The views of a sequence of elements.
pub open spec fn elem_views(es: Seq<BitFieldElem>) -> Seq<ElemModel> {
    es.map_values(|e: BitFieldElem| e@)
}

impl View for FieldPlace {
    type V = (Seq<char>, nat, nat);

    open spec fn view(&self) -> (Seq<char>, nat, nat) {
        (self.field.name@, self.start as nat, self.field.size as nat)
    }
}

/// The fields of a sequence of places.
pub open spec fn place_fields(ps: Seq<FieldPlace>) -> Seq<FieldDecl> {
    ps.map_values(|p: FieldPlace| p.field)
}

/// The fields of a union member.
pub open spec fn inner_fields(i: InnerElem) -> Seq<FieldDecl> {
    match i {
        InnerElem::Only(f) => seq![f],
        InnerElem::Struct(fs) => fs@,
    }
}

/// The fields of a union's members, member after member.
pub open spec fn union_fields(us: Seq<InnerElem>) -> Seq<FieldDecl>
    decreases us.len(),
{
    if us.len() == 0 {
        Seq::empty()
    } else {
        union_fields(us.drop_last()) + inner_fields(us.last())
    }
}

/// The fields of an element.
pub open spec fn elem_fields(e: BitFieldElem) -> Seq<FieldDecl> {
    match e {
        BitFieldElem::Only(f) => seq![f],
        BitFieldElem::Union(us) => union_fields(us@),
    }
}

/// The fields of a declaration, element after element.
pub open spec fn layout_fields(es: Seq<BitFieldElem>) -> Seq<FieldDecl>
    decreases es.len(),
{
    if es.len() == 0 {
        Seq::empty()
    } else {
        layout_fields(es.drop_last()) + elem_fields(es.last())
    }
}

fn copy_type(t: &FieldType) -> (res: FieldType)
    ensures
        res == *t,
{
    match t {
        FieldType::Inferred => FieldType::Inferred,
        FieldType::Declared { name, bits } => FieldType::Declared { name: name.clone(), bits: *bits },
    }
}

fn copy_field(f: &FieldDecl) -> (res: FieldDecl)
    ensures
        res == *f,
{
    FieldDecl {
        public: f.public,
        ty: copy_type(&f.ty),
        name: f.name.clone(),
        size: f.size,
        size_text: f.size_text.clone(),
        size_is_literal: f.size_is_literal,
    }
}

/// The views of a sequence of places.
pub open spec fn place_views(ps: Seq<FieldPlace>) -> Seq<(Seq<char>, nat, nat)> {
    ps.map_values(|p: FieldPlace| p@)
}

/// The summed width of fields that follow each other.
pub open spec fn fields_size(fs: Seq<(Seq<char>, nat)>) -> nat
    decreases fs.len(),
{
    if fs.len() == 0 {
        0
    } else {
        fields_size(fs.drop_last()) + fs.last().1
    }
}

/// The width of a member of a union.
pub open spec fn inner_size(i: InnerModel) -> nat {
    match i {
        InnerModel::Only(_, s) => s,
        InnerModel::Struct(fs) => fields_size(fs),
    }
}

/// The width of a union: that of its widest member.
pub open spec fn union_size(us: Seq<InnerModel>) -> nat
    decreases us.len(),
{
    if us.len() == 0 {
        0
    } else {
        let rest = union_size(us.drop_last());
        let last = inner_size(us.last());
        if rest >= last {
            rest
        } else {
            last
        }
    }
}

/// The width of an element.
pub open spec fn elem_size(e: ElemModel) -> nat {
    match e {
        ElemModel::Only(_, s) => s,
        ElemModel::Union(us) => union_size(us),
    }
}

/// The summed width of elements that follow each other.
pub open spec fn elems_size(es: Seq<ElemModel>) -> nat
    decreases es.len(),
{
    if es.len() == 0 {
        0
    } else {
        elems_size(es.drop_last()) + elem_size(es.last())
    }
}

/// Whether a member of a union is well formed: a struct has at least one field.
pub open spec fn inner_well_formed(i: InnerModel) -> bool {
    match i {
        InnerModel::Only(_, _) => true,
        InnerModel::Struct(fs) => fs.len() > 0,
    }
}

/// Whether an element is well formed: a union has at least one member, and
/// each of its members is well formed.
pub open spec fn elem_well_formed(e: ElemModel) -> bool {
    match e {
        ElemModel::Only(_, _) => true,
        ElemModel::Union(us) => us.len() > 0 && forall|j: int| 0 <= j < us.len() ==> inner_well_formed(
            #[trigger] us[j],
        ),
    }
}

/// Whether every element of a declaration is well formed.
pub open spec fn well_formed(es: Seq<ElemModel>) -> bool {
    forall|k: int| 0 <= k < es.len() ==> elem_well_formed(#[trigger] es[k])
}

/// The places of fields that follow each other from `base`.
pub open spec fn field_places(fs: Seq<(Seq<char>, nat)>, base: nat) -> Seq<(Seq<char>, nat, nat)>
    decreases fs.len(),
{
    if fs.len() == 0 {
        Seq::empty()
    } else {
        field_places(fs.drop_last(), base).push((fs.last().0, base + fields_size(fs.drop_last()), fs.last().1))
    }
}

/// The places of the fields of a union member that starts at `base`.
pub open spec fn inner_places(i: InnerModel, base: nat) -> Seq<(Seq<char>, nat, nat)> {
    match i {
        InnerModel::Only(n, s) => seq![(n, base, s)],
        InnerModel::Struct(fs) => field_places(fs, base),
    }
}

/// The places of the fields of a union that starts at `base`: every member starts there.
pub open spec fn union_places(us: Seq<InnerModel>, base: nat) -> Seq<(Seq<char>, nat, nat)>
    decreases us.len(),
{
    if us.len() == 0 {
        Seq::empty()
    } else {
        union_places(us.drop_last(), base) + inner_places(us.last(), base)
    }
}

/// The places of the fields of an element that starts at `base`.
pub open spec fn elem_places(e: ElemModel, base: nat) -> Seq<(Seq<char>, nat, nat)> {
    match e {
        ElemModel::Only(n, s) => seq![(n, base, s)],
        ElemModel::Union(us) => union_places(us, base),
    }
}

/// The bit where element `k` starts: after all the elements before it.
pub open spec fn elem_base(es: Seq<ElemModel>, k: int) -> nat {
    elems_size(es.take(k))
}

/// The places of all the fields of a declaration, element after element.
pub open spec fn layout_places(es: Seq<ElemModel>) -> Seq<(Seq<char>, nat, nat)>
    decreases es.len(),
{
    if es.len() == 0 {
        Seq::empty()
    } else {
        layout_places(es.drop_last()) + elem_places(es.last(), elems_size(es.drop_last()))
    }
}

proof fn lemma_fields_size_prefix(fs: Seq<(Seq<char>, nat)>, k: int)
    requires
        0 <= k <= fs.len(),
    ensures
        fields_size(fs.take(k)) <= fields_size(fs),
        k < fs.len() ==> fields_size(fs.take(k + 1)) == fields_size(fs.take(k)) + fs[k].1,
    decreases fs.len() - k,
{
    if k < fs.len() {
        lemma_fields_size_prefix(fs, k + 1);
        assert(fs.take(k + 1).drop_last() =~= fs.take(k));
    } else {
        assert(fs.take(k) =~= fs);
    }
}

proof fn lemma_field_places_at(fs: Seq<(Seq<char>, nat)>, base: nat)
    ensures
        field_places(fs, base).len() == fs.len(),
        forall|j: int| 0 <= j < fs.len() ==> #[trigger] field_places(fs, base)[j] == (
            fs[j].0,
            base + fields_size(fs.take(j)),
            fs[j].1,
        ),
    decreases fs.len(),
{
    if fs.len() > 0 {
        let init = fs.drop_last();
        lemma_field_places_at(init, base);
        assert forall|j: int| 0 <= j < fs.len() implies #[trigger] field_places(fs, base)[j] == (
            fs[j].0,
            base + fields_size(fs.take(j)),
            fs[j].1,
        ) by {
            if j < fs.len() - 1 {
                assert(init.take(j) =~= fs.take(j));
            } else {
                assert(fs.take(j) =~= init);
            }
        }
    }
}

proof fn lemma_field_places_within(fs: Seq<(Seq<char>, nat)>, base: nat, j: int)
    requires
        0 <= j < fs.len(),
    ensures
        field_places(fs, base)[j].1 >= base,
        field_places(fs, base)[j].1 + field_places(fs, base)[j].2 <= base + fields_size(fs),
{
    lemma_field_places_at(fs, base);
    lemma_fields_size_prefix(fs, j);
    lemma_fields_size_prefix(fs, j + 1);
}

proof fn lemma_union_size_bounds(us: Seq<InnerModel>, j: int)
    requires
        0 <= j < us.len(),
    ensures
        inner_size(us[j]) <= union_size(us),
    decreases us.len(),
{
    if j < us.len() - 1 {
        lemma_union_size_bounds(us.drop_last(), j);
    }
}

proof fn lemma_union_places_within(us: Seq<InnerModel>, base: nat, i: int)
    requires
        0 <= i < union_places(us, base).len(),
    ensures
        union_places(us, base)[i].1 >= base,
        union_places(us, base)[i].1 + union_places(us, base)[i].2 <= base + union_size(us),
    decreases us.len(),
{
    let init = us.drop_last();
    let head = union_places(init, base);
    if i < head.len() {
        lemma_union_places_within(init, base, i);
    } else {
        let last = us.last();
        lemma_union_size_bounds(us, us.len() - 1);
        match last {
            InnerModel::Only(_, _) => {},
            InnerModel::Struct(fs) => {
                lemma_field_places_at(fs, base);
                lemma_field_places_within(fs, base, i - head.len());
            },
        }
    }
}

proof fn lemma_elem_places_within(e: ElemModel, base: nat, i: int)
    requires
        0 <= i < elem_places(e, base).len(),
    ensures
        elem_places(e, base)[i].1 >= base,
        elem_places(e, base)[i].1 + elem_places(e, base)[i].2 <= base + elem_size(e),
{
    match e {
        ElemModel::Only(_, _) => {},
        ElemModel::Union(us) => {
            lemma_union_places_within(us, base, i);
        },
    }
}

proof fn lemma_elems_size_prefix(es: Seq<ElemModel>, k: int)
    requires
        0 <= k <= es.len(),
    ensures
        elems_size(es.take(k)) <= elems_size(es),
        k < es.len() ==> elems_size(es.take(k + 1)) == elems_size(es.take(k)) + elem_size(es[k]),
    decreases es.len() - k,
{
    if k < es.len() {
        lemma_elems_size_prefix(es, k + 1);
        assert(es.take(k + 1).drop_last() =~= es.take(k));
    } else {
        assert(es.take(k) =~= es);
    }
}

proof fn lemma_elems_size_mono(es: Seq<ElemModel>, k1: int, k2: int)
    requires
        0 <= k1 <= k2 <= es.len(),
    ensures
        elems_size(es.take(k1)) <= elems_size(es.take(k2)),
{
    lemma_elems_size_prefix(es.take(k2), k1);
    assert(es.take(k2).take(k1) =~= es.take(k1));
}

/// Every field of element `k` lies within the element, and the element
/// within the declaration's summed width.
pub proof fn lemma_field_within_declaration(es: Seq<ElemModel>, k: int, j: int)
    requires
        0 <= k < es.len(),
        0 <= j < elem_places(es[k], elem_base(es, k)).len(),
    ensures
        ({
            let p = elem_places(es[k], elem_base(es, k))[j];
            &&& elem_base(es, k) <= p.1
            &&& p.1 + p.2 <= elem_base(es, k) + elem_size(es[k])
            &&& p.1 + p.2 <= elems_size(es)
        }),
{
    lemma_elem_places_within(es[k], elem_base(es, k), j);
    lemma_elems_size_prefix(es, k);
    lemma_elems_size_prefix(es, k + 1);
}

/// The fields of two different elements never overlap: those of the
/// earlier element end before those of the later one start.
pub proof fn lemma_distinct_elements_disjoint(es: Seq<ElemModel>, k1: int, j1: int, k2: int, j2: int)
    requires
        0 <= k1 < k2 < es.len(),
        0 <= j1 < elem_places(es[k1], elem_base(es, k1)).len(),
        0 <= j2 < elem_places(es[k2], elem_base(es, k2)).len(),
    ensures
        elem_places(es[k1], elem_base(es, k1))[j1].1 + elem_places(es[k1], elem_base(es, k1))[j1].2
            <= elem_places(es[k2], elem_base(es, k2))[j2].1,
{
    lemma_elem_places_within(es[k1], elem_base(es, k1), j1);
    lemma_elem_places_within(es[k2], elem_base(es, k2), j2);
    lemma_elems_size_prefix(es, k1);
    lemma_elems_size_mono(es, k1 + 1, k2);
}

/// The fields of a struct never overlap: each ends before the next starts.
pub proof fn lemma_struct_fields_disjoint(fs: Seq<(Seq<char>, nat)>, base: nat, j1: int, j2: int)
    requires
        0 <= j1 < j2 < fs.len(),
    ensures
        field_places(fs, base)[j1].1 + field_places(fs, base)[j1].2 <= field_places(fs, base)[j2].1,
{
    lemma_field_places_at(fs, base);
    lemma_fields_size_prefix(fs, j1);
    lemma_fields_size_prefix(fs.take(j2), j1 + 1);
    assert(fs.take(j2).take(j1 + 1) =~= fs.take(j1 + 1));
    assert(fs.take(j2).take(j1) =~= fs.take(j1));
}

/// Writing a field of one element through its setter leaves every field of
/// every other element unchanged, as long as the declaration fits in the
/// backing bytes.
pub proof fn lemma_setter_keeps_other_elements(
    es: Seq<ElemModel>,
    k1: int,
    j1: int,
    k2: int,
    j2: int,
    old: Seq<u8>,
    new: Seq<u8>,
    val: u128,
)
    requires
        0 <= k1 < es.len(),
        0 <= k2 < es.len(),
        k1 != k2,
        0 <= j1 < elem_places(es[k1], elem_base(es, k1)).len(),
        0 <= j2 < elem_places(es[k2], elem_base(es, k2)).len(),
        elems_size(es) <= 8 * old.len(),
        field_written(
            old,
            new,
            elem_places(es[k1], elem_base(es, k1))[j1].1 as int,
            elem_places(es[k1], elem_base(es, k1))[j1].2,
            val,
        ),
    ensures
        ({
            let p = elem_places(es[k2], elem_base(es, k2))[j2];
            field_value(new, p.1 as int, p.2) == field_value(old, p.1 as int, p.2)
        }),
{
    let p1 = elem_places(es[k1], elem_base(es, k1))[j1];
    let p2 = elem_places(es[k2], elem_base(es, k2))[j2];
    lemma_field_within_declaration(es, k2, j2);
    if k1 < k2 {
        lemma_distinct_elements_disjoint(es, k1, j1, k2, j2);
    } else {
        lemma_distinct_elements_disjoint(es, k2, j2, k1, j1);
    }
    lemma_set_keeps_other_fields(old, new, p1.1, p1.2, val, p2.1, p2.2);
}

fn fields_total(fs: &Vec<FieldDecl>) -> (res: usize)
    requires
        fields_size(field_views(fs@)) <= usize::MAX,
    ensures
        res == fields_size(field_views(fs@)),
{
    let ghost v = field_views(fs@);
    let mut total: usize = 0;
    let mut i: usize = 0;
    while i < fs.len()
        invariant
            i <= fs.len(),
            v == field_views(fs@),
            fields_size(v) <= usize::MAX,
            total == fields_size(v.take(i as int)),
        decreases fs.len() - i,
    {
        proof {
            lemma_fields_size_prefix(v, i as int);
            lemma_fields_size_prefix(v, i + 1);
        }
        total = total + fs[i].size;
        i += 1;
    }
    assert(v.take(fs.len() as int) =~= v);
    total
}

impl InnerElem {
    /// The width of the member: that of its field, or the summed width of its struct.
    pub fn size(&self) -> (res: usize)
        requires
            inner_well_formed(self@),
            inner_size(self@) <= usize::MAX,
        ensures
            res == inner_size(self@),
    {
        match self {
            InnerElem::Only(f) => f.size,
            InnerElem::Struct(fs) => fields_total(fs),
        }
    }
}

fn union_total(us: &Vec<InnerElem>) -> (res: usize)
    requires
        elem_well_formed(ElemModel::Union(inner_views(us@))),
        union_size(inner_views(us@)) <= usize::MAX,
    ensures
        res == union_size(inner_views(us@)),
{
    let ghost v = inner_views(us@);
    let mut widest: usize = 0;
    let mut i: usize = 0;
    while i < us.len()
        invariant
            i <= us.len(),
            v == inner_views(us@),
            union_size(v) <= usize::MAX,
            elem_well_formed(ElemModel::Union(v)),
            widest == union_size(v.take(i as int)),
        decreases us.len() - i,
    {
        proof {
            lemma_union_size_bounds(v, i as int);
            assert(v.take(i + 1).drop_last() =~= v.take(i as int));
            assert(inner_well_formed(v[i as int]));
        }
        let w = us[i].size();
        if w > widest {
            widest = w;
        }
        i += 1;
    }
    assert(v.take(us.len() as int) =~= v);
    widest
}

impl BitFieldElem {
    /// The width of the element: that of its field, or that of the widest
    /// member of its union.
    pub fn size(&self) -> (res: usize)
        requires
            elem_well_formed(self@),
            elem_size(self@) <= usize::MAX,
        ensures
            res == elem_size(self@),
    {
        match self {
            BitFieldElem::Only(f) => f.size,
            BitFieldElem::Union(us) => union_total(us),
        }
    }
}

fn push_place(places: &mut Vec<FieldPlace>, f: &FieldDecl, start: usize)
    ensures
        place_views(final(places)@) == place_views(old(places)@).push((f.name@, start as nat, f.size as nat)),
        place_fields(final(places)@) == place_fields(old(places)@).push(*f),
{
    let ghost before = places@;
    places.push(FieldPlace { field: copy_field(f), start });
    assert(place_views(places@) =~= place_views(before).push((f.name@, start as nat, f.size as nat)));
    assert(place_fields(places@) =~= place_fields(before).push(*f));
}

fn push_field_places(places: &mut Vec<FieldPlace>, fs: &Vec<FieldDecl>, base: usize)
    requires
        base + fields_size(field_views(fs@)) <= usize::MAX,
    ensures
        place_views(final(places)@) == place_views(old(places)@) + field_places(field_views(fs@), base as nat),
        place_fields(final(places)@) == place_fields(old(places)@) + fs@,
{
    let ghost v = field_views(fs@);
    let ghost before = place_views(places@);
    let ghost before_fields = place_fields(places@);
    let mut offset: usize = base;
    let mut i: usize = 0;
    assert(v.take(0) =~= Seq::<(Seq<char>, nat)>::empty());
    while i < fs.len()
        invariant
            i <= fs.len(),
            v == field_views(fs@),
            base + fields_size(v) <= usize::MAX,
            offset == base + fields_size(v.take(i as int)),
            place_views(places@) == before + field_places(v.take(i as int), base as nat),
            place_fields(places@) == before_fields + fs@.take(i as int),
        decreases fs.len() - i,
    {
        proof {
            lemma_fields_size_prefix(v, i as int);
            lemma_fields_size_prefix(v, i + 1);
            assert(v.take(i + 1).drop_last() =~= v.take(i as int));
        }
        push_place(places, &fs[i], offset);
        offset = offset + fs[i].size;
        i += 1;
        assert(place_views(places@) =~= before + field_places(v.take(i as int), base as nat));
        assert(place_fields(places@) =~= before_fields + fs@.take(i as int));
    }
    assert(v.take(fs.len() as int) =~= v);
    assert(fs@.take(fs.len() as int) =~= fs@);
}

fn push_union_places(places: &mut Vec<FieldPlace>, us: &Vec<InnerElem>, base: usize)
    requires
        base + union_size(inner_views(us@)) <= usize::MAX,
    ensures
        place_views(final(places)@) == place_views(old(places)@) + union_places(inner_views(us@), base as nat),
        place_fields(final(places)@) == place_fields(old(places)@) + union_fields(us@),
{
    let ghost v = inner_views(us@);
    let ghost before = place_views(places@);
    let ghost before_fields = place_fields(places@);
    let mut i: usize = 0;
    assert(v.take(0) =~= Seq::<InnerModel>::empty());
    while i < us.len()
        invariant
            i <= us.len(),
            v == inner_views(us@),
            base + union_size(v) <= usize::MAX,
            place_views(places@) == before + union_places(v.take(i as int), base as nat),
            place_fields(places@) == before_fields + union_fields(us@.take(i as int)),
        decreases us.len() - i,
    {
        proof {
            lemma_union_size_bounds(v, i as int);
            assert(v.take(i + 1).drop_last() =~= v.take(i as int));
            assert(us@.take(i + 1).drop_last() =~= us@.take(i as int));
        }
        match &us[i] {
            InnerElem::Only(f) => {
                push_place(places, f, base);
            },
            InnerElem::Struct(fs) => {
                push_field_places(places, fs, base);
            },
        }
        i += 1;
        assert(place_views(places@) =~= before + union_places(v.take(i as int), base as nat));
        assert(place_fields(places@) =~= before_fields + union_fields(us@.take(i as int)));
    }
    assert(v.take(us.len() as int) =~= v);
    assert(us@.take(us.len() as int) =~= us@);
}

/// Lays out a declaration: the places of all its fields, element after
/// element (see [`layout_places`]), and its summed width.
pub fn layout(es: &Vec<BitFieldElem>) -> (res: (Vec<FieldPlace>, usize))
    requires
        well_formed(elem_views(es@)),
        elems_size(elem_views(es@)) <= usize::MAX,
    ensures
        place_views(res.0@) == layout_places(elem_views(es@)),
        place_fields(res.0@) == layout_fields(es@),
        res.1 == elems_size(elem_views(es@)),
{
    let ghost v = elem_views(es@);
    let mut places: Vec<FieldPlace> = Vec::new();
    let mut base: usize = 0;
    let mut i: usize = 0;
    assert(v.take(0) =~= Seq::<ElemModel>::empty());
    while i < es.len()
        invariant
            i <= es.len(),
            v == elem_views(es@),
            elems_size(v) <= usize::MAX,
            well_formed(v),
            base == elems_size(v.take(i as int)),
            place_views(places@) == layout_places(v.take(i as int)),
            place_fields(places@) == layout_fields(es@.take(i as int)),
        decreases es.len() - i,
    {
        proof {
            lemma_elems_size_prefix(v, i as int);
            lemma_elems_size_prefix(v, i + 1);
            assert(v.take(i + 1).drop_last() =~= v.take(i as int));
            assert(es@.take(i + 1).drop_last() =~= es@.take(i as int));
        }
        let ghost before_fields = place_fields(places@);
        match &es[i] {
            BitFieldElem::Only(f) => {
                push_place(&mut places, f, base);
            },
            BitFieldElem::Union(us) => {
                push_union_places(&mut places, us, base);
            },
        }
        assert(place_fields(places@) =~= layout_fields(es@.take(i + 1)));
        assert(elem_well_formed(v[i as int]));
        base = base + es[i].size();
        i += 1;
    }
    assert(v.take(es.len() as int) =~= v);
    assert(es@.take(es.len() as int) =~= es@);
    (places, base)
}

/// Whether every size check that the attributes ask for passes.
pub open spec fn all_requests_hold(reqs: Seq<BitFieldRequest>, total: nat) -> bool {
    forall|i: int| 0 <= i < reqs.len() ==> request_holds(#[trigger] reqs[i], total)
}

/// The compile-time checks of a declaration: whether its fields fit in the
/// declared number of bits, and whether the size checks that its attributes
/// ask for pass, with the places of its fields.
pub fn check_declaration(es: &Vec<BitFieldElem>, underlying_size: usize, reqs: &Vec<BitFieldRequest>) -> (res: (
    Vec<FieldPlace>,
    bool,
    bool,
))
    requires
        well_formed(elem_views(es@)),
        elems_size(elem_views(es@)) <= usize::MAX,
    ensures
        place_views(res.0@) == layout_places(elem_views(es@)),
        place_fields(res.0@) == layout_fields(es@),
        res.1 == (elems_size(elem_views(es@)) <= underlying_size),
        res.2 == all_requests_hold(reqs@, elems_size(elem_views(es@))),
{
    let (places, total) = layout(es);
    let mut all = true;
    let mut i: usize = 0;
    while i < reqs.len()
        invariant
            i <= reqs.len(),
            all <==> forall|k: int| 0 <= k < i ==> request_holds(#[trigger] reqs@[k], total as nat),
        decreases reqs.len() - i,
    {
        let h = reqs[i].holds_for(total);
        if !h {
            assert(!request_holds(reqs@[i as int], total as nat));
        }
        all = all && h;
        i += 1;
    }
    (places, total <= underlying_size, all)
}

/// The compile-time assertion that a declared type is wide enough for its
/// field: the type's width in bits is at least the field's.
pub struct TypeCheck {
    pub ty: String,
    pub type_bits: usize,
    pub size: usize,
}

/// The accessors of a field: whether they are public, the type they read
/// and write, the names of the getter, the setter and the chaining setter,
/// the bits they cover, and the assertion on a declared type.
pub struct Accessor {
    pub public: bool,
    pub ret_type: String,
    pub getter: String,
    pub setter: String,
    pub with: String,
    pub start: usize,
    pub size: usize,
    pub type_check: Option<TypeCheck>,
}

/// The abstract value of an accessor.
pub struct AccessorModel {
    pub public: bool,
    pub ret_type: Seq<char>,
    pub getter: Seq<char>,
    pub setter: Seq<char>,
    pub with: Seq<char>,
    pub start: nat,
    pub size: nat,
    pub type_check: Option<(Seq<char>, nat, nat)>,
}

impl View for Accessor {
    type V = AccessorModel;

    open spec fn view(&self) -> AccessorModel {
        AccessorModel {
            public: self.public,
            ret_type: self.ret_type@,
            getter: self.getter@,
            setter: self.setter@,
            with: self.with@,
            start: self.start as nat,
            size: self.size as nat,
            type_check: match self.type_check {
                Some(c) => Some((c.ty@, c.type_bits as nat, c.size as nat)),
                None => None,
            },
        }
    }
}

/// Whether a type assertion holds: the type has at least as many bits as the field.
pub open spec fn type_check_holds(c: (Seq<char>, nat, nat)) -> bool {
    c.1 >= c.2
}

/// Why a field declared with `_` gets no accessors: its width is not a
/// literal, or no unsigned type holds it.
pub open spec fn unsuitable_size_message(size_text: Seq<char>, field: Seq<char>, struct_name: Seq<char>) -> Seq<char> {
    "size value "@ + size_text + " of field "@ + field + " in bitfield "@ + struct_name
        + " must be known at compile time and less than 128 to be able to automatically select a suitable type"@
}

/// The width of a field as far as it is known when the declaration expands.
pub open spec fn literal_size(f: FieldDecl) -> Option<usize> {
    if f.size_is_literal {
        Some(f.size)
    } else {
        None
    }
}

/// The accessors of a field that starts at `start` in the declaration of
/// `struct_name`: a field of type `_` reads and writes the smallest unsigned
/// type that holds it, or is refused; a field of a declared type reads and
/// writes that type and asks for the assertion that it is wide enough.
pub open spec fn accessor_of(struct_name: Seq<char>, f: FieldDecl, start: nat) -> Result<AccessorModel, Seq<char>> {
    let ret: Result<(Seq<char>, Option<(Seq<char>, nat, nat)>), Seq<char>> = match f.ty {
        FieldType::Inferred => match suitable_type(literal_size(f)) {
            Some(t) => Ok((int_type_name(t), None)),
            None => Err(unsuitable_size_message(f.size_text@, f.name@, struct_name)),
        },
        FieldType::Declared { name, bits } => Ok((name@, Some((name@, bits as nat, f.size as nat)))),
    };
    match ret {
        Err(m) => Err(m),
        Ok((r, c)) => Ok(
            AccessorModel {
                public: f.public,
                ret_type: r,
                getter: "get_"@ + f.name@,
                setter: "set_"@ + f.name@,
                with: "with_"@ + f.name@,
                start,
                size: f.size as nat,
                type_check: c,
            },
        ),
    }
}

/// What each field at its place expands to, in order: its accessors, or
/// the refusal of that field alone.
pub open spec fn accessors_of(struct_name: Seq<char>, places: Seq<FieldPlace>) -> Seq<Result<AccessorModel, Seq<char>>> {
    places.map_values(|p: FieldPlace| accessor_of(struct_name, p.field, p.start as nat))
}

/// The abstract value of a field's expansion.
pub open spec fn expansion_view(r: Result<Accessor, String>) -> Result<AccessorModel, Seq<char>> {
    match r {
        Ok(a) => Ok(a@),
        Err(m) => Err(m@),
    }
}

/// The abstract values of the fields' expansions.
pub open spec fn expansion_views(v: Seq<Result<Accessor, String>>) -> Seq<Result<AccessorModel, Seq<char>>> {
    v.map_values(|r: Result<Accessor, String>| expansion_view(r))
}

fn prefixed(prefix: &str, name: &String) -> (res: String)
    ensures
        res@ == prefix@ + name@,
{
    let mut s = prefix.to_owned();
    s.append(name.as_str());
    s
}

/// The accessors of one field (see [`accessor_of`]).
pub fn field_accessor(struct_name: &str, f: &FieldDecl, start: usize) -> (res: Result<Accessor, String>)
    ensures
        match accessor_of(struct_name@, *f, start as nat) {
            Ok(a) => res matches Ok(x) && x@ == a,
            Err(m) => res matches Err(x) && x@ == m,
        },
{
    let (ret_type, type_check) = match &f.ty {
        FieldType::Inferred => {
            let known = if f.size_is_literal { Some(f.size) } else { None };
            match select_suitable_type(known) {
                Some(t) => (t.name(), None),
                None => {
                    let mut m = "size value ".to_owned();
                    m.append(f.size_text.as_str());
                    m.append(" of field ");
                    m.append(f.name.as_str());
                    m.append(" in bitfield ");
                    m.append(struct_name);
                    m.append(
                        " must be known at compile time and less than 128 to be able to automatically select a suitable type",
                    );
                    return Err(m);
                },
            }
        },
        FieldType::Declared { name, bits } => (
            name.clone(),
            Some(TypeCheck { ty: name.clone(), type_bits: *bits, size: f.size }),
        ),
    };
    Ok(
        Accessor {
            public: f.public,
            ret_type,
            getter: prefixed("get_", &f.name),
            setter: prefixed("set_", &f.name),
            with: prefixed("with_", &f.name),
            start,
            size: f.size,
            type_check,
        },
    )
}

/// What each field at its place expands to (see [`accessors_of`]): a field
/// that is refused does not keep the others from their accessors.
pub fn accessors(struct_name: &str, places: &Vec<FieldPlace>) -> (res: Vec<Result<Accessor, String>>)
    ensures
        expansion_views(res@) == accessors_of(struct_name@, places@),
{
    let mut out: Vec<Result<Accessor, String>> = Vec::new();
    let mut i: usize = 0;
    while i < places.len()
        invariant
            i <= places.len(),
            out@.len() == i,
            forall|k: int| 0 <= k < i ==> expansion_view(#[trigger] out@[k]) == accessor_of(
                struct_name@,
                places@[k].field,
                places@[k].start as nat,
            ),
        decreases places.len() - i,
    {
        let r = field_accessor(struct_name, &places[i].field, places[i].start);
        assert(expansion_view(r) == accessor_of(struct_name@, places@[i as int].field, places@[i as int].start as nat));
        out.push(r);
        i += 1;
    }
    assert(expansion_views(out@) =~= accessors_of(struct_name@, places@));
    out
}

/// The fields of a declaration at their places: each field of
/// [`layout_fields`] with the first bit that [`layout_places`] gives it.
pub open spec fn placed_fields(es: Seq<BitFieldElem>) -> Seq<FieldPlace> {
    Seq::new(
        layout_fields(es).len(),
        |k: int| FieldPlace { field: layout_fields(es)[k], start: layout_places(elem_views(es))[k].1 as usize },
    )
}

/// Whether every assertion on a declared type holds, among the fields
/// that have accessors.
pub open spec fn type_checks_hold(v: Seq<Result<AccessorModel, Seq<char>>>) -> bool {
    forall|k: int|
        0 <= k < v.len() ==> ((#[trigger] v[k]) matches Ok(a) ==> (a.type_check matches Some(c) ==> type_check_holds(c)))
}

impl TypeCheck {
    /// Evaluates the assertion.
    pub fn holds(&self) -> (res: bool)
        ensures
            res == (self.type_bits >= self.size),
    {
        self.type_bits >= self.size
    }
}

/// What a declaration expands to: for each field its accessors or its
/// refusal, the items that its requests produce, and the outcome of each of
/// its compile-time assertions: that the fields fit in the declared number
/// of bits, that the size checks pass, and that each declared type is wide
/// enough. A declaration with a refused field does not compile.
pub struct DeclExpansion {
    pub accessors: Vec<Result<Accessor, String>>,
    pub items: Vec<RequestItem>,
    pub fits: bool,
    pub checks_hold: bool,
    pub types_hold: bool,
}

/// Expands a declaration of `struct_name` whose fields are backed by
/// `underlying_size` bits: what each field at its place of
/// [`layout_places`] expands to, the items of [`request_items_spec`] and the
/// outcome of each assertion.
pub fn expand_declaration(
    struct_name: &str,
    es: &Vec<BitFieldElem>,
    underlying_size: usize,
    reqs: &Vec<BitFieldRequest>,
) -> (res: DeclExpansion)
    requires
        well_formed(elem_views(es@)),
        elems_size(elem_views(es@)) <= usize::MAX,
    ensures
        expansion_views(res.accessors@) == accessors_of(struct_name@, placed_fields(es@)),
        res.items@ == request_items_spec(reqs@),
        res.fits == (elems_size(elem_views(es@)) <= underlying_size),
        res.checks_hold == all_requests_hold(reqs@, elems_size(elem_views(es@))),
        res.types_hold == type_checks_hold(expansion_views(res.accessors@)),
{
    let (places, fits, checks_hold) = check_declaration(es, underlying_size, reqs);
    proof {
        assert forall|k: int| 0 <= k < places@.len() implies places@[k] == placed_fields(es@)[k] by {
            assert(place_views(places@)[k] == places@[k]@);
            assert(place_fields(places@)[k] == places@[k].field);
        }
        assert(places@ =~= placed_fields(es@));
    }
    let accs = accessors(struct_name, &places);
    let ghost av = expansion_views(accs@);
    let mut types_hold = true;
    let mut i: usize = 0;
    while i < accs.len()
        invariant
            i <= accs.len(),
            av == expansion_views(accs@),
            types_hold <==> (forall|k: int|
                0 <= k < i ==> ((#[trigger] av[k]) matches Ok(a) ==> (a.type_check matches Some(c) ==> type_check_holds(c)))),
        decreases accs.len() - i,
    {
        let ok = match &accs[i] {
            Ok(a) => match &a.type_check {
                Some(c) => c.holds(),
                None => true,
            },
            Err(_) => true,
        };
        assert(av[i as int] == expansion_view(accs@[i as int]));
        types_hold = types_hold && ok;
        i += 1;
    }
    let items = request_items(reqs);
    DeclExpansion { accessors: accs, items, fits, checks_hold, types_hold }
}

} // verus!
