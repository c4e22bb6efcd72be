use zeros_tooling::bitfield::{
    get_field, handle_attrs, parse_yesno, select_suitable_type, set_field, try_handle_attrs, underlying_bytes,
    AttrAssign, AttrLiteral, BitFieldAttr, BitFieldRequest, IntType, YesNoError,
};

fn attr(ident: &str, lhs: &str, rhs: AttrLiteral) -> BitFieldAttr {
    BitFieldAttr {
        ident: Some(ident.to_string()),
        assign: Some(AttrAssign { lhs_ident: Some(lhs.to_string()), rhs: Some(rhs) }),
    }
}

#[test]
fn fields_read_back_what_was_written() {
    let mut bytes = vec![0xffu8; 4];
    set_field(&mut bytes, 5, 7, 0b1010011);
    assert_eq!(get_field(&bytes, 5, 7), 0b1010011);
    assert_eq!(get_field(&bytes, 0, 5), 0b11111);
    assert_eq!(get_field(&bytes, 12, 20), 0xfffff);
    set_field(&mut bytes, 0, 32, 0x1234_5678_9);
    assert_eq!(get_field(&bytes, 0, 32), 0x2345_6789);
    assert_eq!(bytes, vec![0x89, 0x67, 0x45, 0x23]);
}

#[test]
fn wide_fields() {
    let mut bytes = vec![0u8; 17];
    set_field(&mut bytes, 3, 128, u128::MAX);
    assert_eq!(get_field(&bytes, 3, 128), u128::MAX);
    assert_eq!(get_field(&bytes, 0, 3), 0);
    assert_eq!(get_field(&bytes, 131, 5), 0);
}

#[test]
fn yes_and_no() {
    assert_eq!(parse_yesno(&AttrLiteral::Bool(true)), Ok(true));
    assert_eq!(parse_yesno(&AttrLiteral::Str("yes".to_string())), Ok(false));
    assert_eq!(parse_yesno(&AttrLiteral::Str("YES".to_string())), Ok(true));
    assert_eq!(parse_yesno(&AttrLiteral::ByteStr(b"always".to_vec())), Ok(true));
    assert_eq!(parse_yesno(&AttrLiteral::CStr(b"On".to_vec())), Ok(true));
    assert_eq!(parse_yesno(&AttrLiteral::CStr(b"off".to_vec())), Ok(false));
    assert_eq!(parse_yesno(&AttrLiteral::Byte(b'0')), Ok(false));
    assert_eq!(parse_yesno(&AttrLiteral::Char('1')), Ok(true));
    assert_eq!(parse_yesno(&AttrLiteral::Int(Some(0))), Ok(false));
    assert_eq!(parse_yesno(&AttrLiteral::Int(Some(u128::MAX))), Err(YesNoError::Unparsable));
    assert_eq!(parse_yesno(&AttrLiteral::Int(None)), Err(YesNoError::Unparsable));
    assert_eq!(parse_yesno(&AttrLiteral::Float(Some(true))), Ok(true));
    assert_eq!(parse_yesno(&AttrLiteral::Float(None)), Err(YesNoError::Unparsable));
    assert_eq!(parse_yesno(&AttrLiteral::Verbatim), Err(YesNoError::InvalidLiteral));
}

#[test]
fn attributes_become_requests() {
    let attrs = vec![
        attr("provide", "new", AttrLiteral::Bool(true)),
        BitFieldAttr { ident: Some("derive".to_string()), assign: None },
        attr("check", "lte", AttrLiteral::Int(Some(64))),
        attr("Provide", "ctor", AttrLiteral::Str("NO".to_string())),
        attr("provide", "as_ref", AttrLiteral::Bool(true)),
        attr("check", "sideways", AttrLiteral::Int(Some(1))),
    ];
    let (reqs, others) = handle_attrs(&attrs);
    assert_eq!(
        reqs,
        vec![
            BitFieldRequest::Constructor { impl_it: false },
            BitFieldRequest::SizeLte { bound: 64 },
            BitFieldRequest::AsRef { impl_it: true },
        ]
    );
    assert_eq!(others, vec![1, 5]);
}

#[test]
fn oversized_check_bounds_are_refused() {
    let attrs = vec![attr("check", "eq", AttrLiteral::Int(Some(u128::MAX)))];
    assert!(try_handle_attrs(&attrs).is_none());
    let fine = vec![attr("check", "gt", AttrLiteral::Int(Some(3)))];
    assert_eq!(try_handle_attrs(&fine).unwrap().0, vec![BitFieldRequest::SizeGt { bound: 3 }]);
}

#[test]
fn size_checks() {
    assert!(BitFieldRequest::SizeEq { bound: 8 }.holds_for(8));
    assert!(!BitFieldRequest::SizeNeq { bound: 8 }.holds_for(8));
    assert!(BitFieldRequest::SizeLt { bound: 9 }.holds_for(8));
    assert!(BitFieldRequest::SizeGte { bound: 8 }.holds_for(8));
    assert!(BitFieldRequest::Default { impl_it: false }.holds_for(0));
}

#[test]
fn field_types_and_backing_bytes() {
    assert_eq!(select_suitable_type(Some(8)), Some(IntType::U8));
    assert_eq!(select_suitable_type(Some(9)), Some(IntType::U16));
    assert_eq!(select_suitable_type(Some(128)), Some(IntType::U128));
    assert_eq!(select_suitable_type(Some(129)), None);
    assert_eq!(select_suitable_type(None), None);
    assert_eq!(IntType::U32.bits(), 32);
    assert_eq!(underlying_bytes(17), 3);
    assert_eq!(underlying_bytes(16), 2);
    assert_eq!(underlying_bytes(0), 0);
}
