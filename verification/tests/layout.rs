use zeros_tooling::bitfield::{get_field, request_items, set_field, underlying_bytes, BitFieldRequest, RequestItem};
use zeros_tooling::layout::{
    check_declaration, expand_declaration, field_accessor, layout, BitFieldElem, FieldDecl, FieldType, InnerElem,
};

fn typed(public: bool, ty: FieldType, name: &str, size: usize) -> FieldDecl {
    FieldDecl { public, ty, name: name.to_string(), size, size_text: size.to_string(), size_is_literal: true }
}

fn field(name: &str, size: usize) -> FieldDecl {
    typed(false, FieldType::Inferred, name, size)
}

fn declared(name: &str, bits: usize) -> FieldType {
    FieldType::Declared { name: name.to_string(), bits }
}

fn declaration() -> Vec<BitFieldElem> {
    vec![
        BitFieldElem::Only(field("a", 3)),
        BitFieldElem::Union(vec![InnerElem::Only(field("b", 5)), InnerElem::Struct(vec![field("c", 2), field("d", 4)])]),
        BitFieldElem::Only(field("e", 1)),
    ]
}

#[test]
fn fields_are_laid_out_in_order() {
    let (places, total) = layout(&declaration());
    let got: Vec<(String, usize, usize)> = places.into_iter().map(|p| (p.field.name, p.start, p.field.size)).collect();
    let expected: Vec<(String, usize, usize)> = vec![
        ("a".to_string(), 0, 3),
        ("b".to_string(), 3, 5),
        ("c".to_string(), 3, 2),
        ("d".to_string(), 5, 4),
        ("e".to_string(), 9, 1),
    ];
    assert_eq!(got, expected);
    assert_eq!(total, 10);
    assert_eq!(declaration()[1].size(), 6);
    assert_eq!(InnerElem::Struct(vec![field("x", 7), field("y", 8)]).size(), 15);
}

#[test]
fn declaration_checks() {
    let reqs = vec![BitFieldRequest::SizeLte { bound: 16 }, BitFieldRequest::SizeGt { bound: 8 }];
    let (_, fits, holds) = check_declaration(&declaration(), 16, &reqs);
    assert!(fits && holds);
    let (_, fits, holds) = check_declaration(&declaration(), 8, &vec![BitFieldRequest::SizeEq { bound: 11 }]);
    assert!(!fits && !holds);
}

#[test]
fn writing_one_element_keeps_the_others() {
    let (places, _) = layout(&declaration());
    let mut bytes = vec![0u8; 2];
    set_field(&mut bytes, places[0].start, places[0].field.size as u32, 0b101);
    set_field(&mut bytes, places[4].start, places[4].field.size as u32, 1);
    set_field(&mut bytes, places[1].start, places[1].field.size as u32, 0b11011);
    assert_eq!(get_field(&bytes, places[0].start, places[0].field.size as u32), 0b101);
    assert_eq!(get_field(&bytes, places[4].start, places[4].field.size as u32), 1);
    assert_eq!(get_field(&bytes, places[1].start, places[1].field.size as u32), 0b11011);
    assert_eq!(get_field(&bytes, places[2].start, places[2].field.size as u32), 0b11);
}

#[test]
fn descriptor_with_two_fields() {
    let decl = vec![
        BitFieldElem::Only(typed(true, declared("u16", 16), "base_low", 12)),
        BitFieldElem::Only(typed(false, declared("u16", 16), "blah", 9)),
    ];
    let reqs = vec![BitFieldRequest::Constructor { impl_it: true }, BitFieldRequest::AsRef { impl_it: false }];
    let x = expand_declaration("GDTDescriptor", &decl, 64, &reqs);
    assert_eq!(x.accessors.len(), 2);
    let a = x.accessors[0].as_ref().ok().unwrap();
    assert!(a.public);
    assert_eq!((a.ret_type.as_str(), a.getter.as_str(), a.setter.as_str(), a.with.as_str()), ("u16", "get_base_low", "set_base_low", "with_base_low"));
    assert_eq!((a.start, a.size), (0, 12));
    let c = a.type_check.as_ref().unwrap();
    assert_eq!((c.ty.as_str(), c.type_bits, c.size), ("u16", 16, 12));
    let b = x.accessors[1].as_ref().ok().unwrap();
    assert!(!b.public);
    assert_eq!((b.getter.as_str(), b.start, b.size), ("get_blah", 12, 9));
    assert_eq!(x.items, vec![RequestItem::New]);
    assert!(x.fits && x.checks_hold && x.types_hold);
    assert_eq!(underlying_bytes(64), 8);
}

#[test]
fn declared_types_must_hold_their_fields() {
    let decl = vec![BitFieldElem::Only(typed(false, declared("u8", 8), "wide", 9))];
    let x = expand_declaration("S", &decl, 16, &vec![]);
    assert!(x.fits && x.checks_hold);
    assert!(!x.types_hold);
    assert!(!x.accessors[0].as_ref().ok().unwrap().type_check.as_ref().unwrap().holds());
}

#[test]
fn inferred_types_and_refusals() {
    let a = field_accessor("S", &field("f", 17), 3).ok().unwrap();
    assert_eq!(a.ret_type, "u32");
    assert!(a.type_check.is_none());
    assert_eq!(field_accessor("S", &field("g", 128), 0).ok().unwrap().ret_type, "u128");
    let big = field("huge", 129);
    assert_eq!(
        field_accessor("S", &big, 0).err().unwrap(),
        "size value 129 of field huge in bitfield S must be known at compile time and less than 128 to be able to automatically select a suitable type"
    );
    let opaque = FieldDecl {
        public: false,
        ty: FieldType::Inferred,
        name: "n".to_string(),
        size: 4,
        size_text: "N * 2".to_string(),
        size_is_literal: false,
    };
    let decl = vec![BitFieldElem::Only(field("ok", 4)), BitFieldElem::Only(opaque), BitFieldElem::Only(field("after", 3))];
    let x = expand_declaration("T", &decl, 16, &vec![]);
    assert_eq!(x.accessors.len(), 3);
    let first = x.accessors[0].as_ref().ok().unwrap();
    assert_eq!((first.getter.as_str(), first.ret_type.as_str(), first.start), ("get_ok", "u8", 0));
    assert_eq!(
        x.accessors[1].as_ref().err().unwrap(),
        "size value N * 2 of field n in bitfield T must be known at compile time and less than 128 to be able to automatically select a suitable type"
    );
    let last = x.accessors[2].as_ref().ok().unwrap();
    assert_eq!((last.getter.as_str(), last.start, last.size), ("get_after", 8, 3));
    assert!(x.types_hold);
}

#[test]
fn requests_produce_their_items() {
    let reqs = vec![
        BitFieldRequest::Default { impl_it: true },
        BitFieldRequest::Constructor { impl_it: false },
        BitFieldRequest::AsMut { impl_it: true },
        BitFieldRequest::SizeLte { bound: 64 },
        BitFieldRequest::AsRef { impl_it: true },
        BitFieldRequest::AsMut { impl_it: false },
    ];
    assert_eq!(
        request_items(&reqs),
        vec![
            RequestItem::Default,
            RequestItem::AsMut,
            RequestItem::SizeAssertion(BitFieldRequest::SizeLte { bound: 64 }),
            RequestItem::AsRef,
        ]
    );
}
