use dwarf_structs::model::{
    DW_AT_BYTE_SIZE, DW_AT_NAME, DW_AT_TYPE, DW_AT_UPPER_BOUND, DW_TAG_ARRAY_TYPE,
    DW_TAG_BASE_TYPE, DW_TAG_CONST_TYPE, DW_TAG_ENUMERATION_TYPE, DW_TAG_FORMAL_PARAMETER,
    DW_TAG_POINTER_TYPE, DW_TAG_STRUCTURE_TYPE, DW_TAG_SUBRANGE_TYPE, DW_TAG_SUBROUTINE_TYPE,
    DW_TAG_TYPEDEF, DW_TAG_UNION_TYPE,
};
use dwarf_structs::{Attr, DwarfError, Entry, Parser, Type, UnitData};

fn attr_str(at: u64, s: &str) -> Attr {
    Attr { at, udata: None, uref: None, sval: Some(s.to_string()) }
}

fn attr_u(at: u64, v: u64) -> Attr {
    Attr { at, udata: Some(v), uref: None, sval: None }
}

fn attr_ref(at: u64, o: u64) -> Attr {
    Attr { at, udata: None, uref: Some(o), sval: None }
}

fn entry(offset: u64, tag: u64, attrs: Vec<Attr>) -> Entry {
    Entry { offset, tag, attrs }
}

#[test]
fn array_bounds_of_upper_bound_seven_is_eight() {
    let unit = UnitData {
        entries: vec![
            entry(10, DW_TAG_ARRAY_TYPE, vec![]),
            entry(12, DW_TAG_SUBRANGE_TYPE, vec![attr_u(DW_AT_UPPER_BOUND, 7)]),
        ],
    };
    let p = Parser::from_units(vec![unit]);
    assert_eq!(p.get_array_bounds(0, 10), Ok(8));
    match p.get_type_meta(0, 10) {
        Ok(Type::Array(a)) => assert_eq!(a.size, 8),
        other => panic!("expected an array, got {:?}", other),
    }
}

#[test]
fn array_without_following_entry_counts_zero() {
    let unit = UnitData { entries: vec![entry(10, DW_TAG_ARRAY_TYPE, vec![])] };
    let p = Parser::from_units(vec![unit]);
    assert_eq!(p.get_array_bounds(0, 10), Ok(0));
}

#[test]
fn array_with_non_subrange_sibling_is_a_mismatch() {
    let unit = UnitData {
        entries: vec![
            entry(10, DW_TAG_ARRAY_TYPE, vec![]),
            entry(12, DW_TAG_BASE_TYPE, vec![attr_str(DW_AT_NAME, "int")]),
        ],
    };
    let p = Parser::from_units(vec![unit]);
    assert_eq!(p.get_array_bounds(0, 10), Err(DwarfError::TypeMismatch));
    assert_eq!(
        match p.get_type_meta(0, 10) {
            Err(e) => Some(e),
            Ok(_) => None,
        },
        Some(DwarfError::TypeMismatch)
    );
}

#[test]
fn subrange_without_upper_bound_counts_zero() {
    let unit = UnitData {
        entries: vec![
            entry(10, DW_TAG_ARRAY_TYPE, vec![]),
            entry(12, DW_TAG_SUBRANGE_TYPE, vec![]),
        ],
    };
    let p = Parser::from_units(vec![unit]);
    assert_eq!(p.get_array_bounds(0, 10), Ok(0));
}

fn chain_parser() -> Parser {
    // pointer -> const -> typedef -> base
    let unit = UnitData {
        entries: vec![
            entry(10, DW_TAG_POINTER_TYPE, vec![attr_ref(DW_AT_TYPE, 20)]),
            entry(20, DW_TAG_CONST_TYPE, vec![attr_ref(DW_AT_TYPE, 30)]),
            entry(
                30,
                DW_TAG_TYPEDEF,
                vec![attr_str(DW_AT_NAME, "mytype"), attr_ref(DW_AT_TYPE, 40)],
            ),
            entry(40, DW_TAG_BASE_TYPE, vec![attr_str(DW_AT_NAME, "int")]),
        ],
    };
    Parser::from_units(vec![unit])
}

#[test]
fn pointer_chain_takes_exactly_three_peels() {
    let p = chain_parser();
    let t0 = p.get_type_meta(0, 10).unwrap();
    assert!(matches!(t0, Type::Pointer(_)));
    let t1 = p.get_type(t0).unwrap().unwrap();
    assert!(matches!(t1, Type::Const(_)));
    let t2 = p.get_type(t1).unwrap().unwrap();
    assert!(matches!(t2, Type::Typedef(_)));
    let t3 = p.get_type(t2).unwrap().unwrap();
    match &t3 {
        Type::Base(b) => assert!(!b.name.is_empty()),
        other => panic!("expected a base type, got {:?}", other),
    }
    // the leaf has no inner type
    assert_eq!(p.get_type(t3).unwrap(), None);
}

#[test]
fn resolving_twice_yields_equal_types() {
    let p = chain_parser();
    let a = p.get_type_meta(0, 30);
    let b = p.get_type_meta(0, 30);
    assert_eq!(a, b);
}

#[test]
fn pointer_without_target_peels_to_none() {
    let unit = UnitData { entries: vec![entry(10, DW_TAG_POINTER_TYPE, vec![])] };
    let p = Parser::from_units(vec![unit]);
    let t = p.get_type_meta(0, 10).unwrap();
    match &t {
        Type::Pointer(ptr) => assert_eq!(ptr.size, 8),
        other => panic!("expected a pointer, got {:?}", other),
    }
    assert_eq!(p.get_type(t), Ok(None));
}

#[test]
fn non_reference_type_attribute_is_malformed() {
    // the first type attribute carries an integer, not a location; a later
    // well-formed reference does not rescue the entry
    let unit = UnitData {
        entries: vec![
            entry(
                10,
                DW_TAG_POINTER_TYPE,
                vec![attr_u(DW_AT_TYPE, 5), attr_ref(DW_AT_TYPE, 20)],
            ),
            entry(20, DW_TAG_BASE_TYPE, vec![attr_str(DW_AT_NAME, "int")]),
        ],
    };
    let p = Parser::from_units(vec![unit]);
    let t = p.get_type_meta(0, 10).unwrap();
    assert_eq!(p.get_type(t), Err(DwarfError::MalformedEntry));
}

#[test]
fn unrecognized_tag_is_an_error() {
    let unit = UnitData { entries: vec![entry(10, 0x99, vec![])] };
    let p = Parser::from_units(vec![unit]);
    assert_eq!(
        match p.get_type_meta(0, 10) {
            Err(e) => Some(e),
            Ok(_) => None,
        },
        Some(DwarfError::UnrecognizedTag)
    );
}

#[test]
fn bad_locations_are_out_of_range() {
    let unit = UnitData { entries: vec![entry(10, DW_TAG_POINTER_TYPE, vec![])] };
    let p = Parser::from_units(vec![unit]);
    assert_eq!(
        match p.get_type_meta(0, 999) {
            Err(e) => Some(e),
            Ok(_) => None,
        },
        Some(DwarfError::OutOfRange)
    );
    assert_eq!(
        match p.get_type_meta(5, 10) {
            Err(e) => Some(e),
            Ok(_) => None,
        },
        Some(DwarfError::OutOfRange)
    );
}

#[test]
fn struct_resolution_takes_registry_size() {
    let unit = UnitData {
        entries: vec![
            entry(
                10,
                DW_TAG_STRUCTURE_TYPE,
                vec![attr_str(DW_AT_NAME, "point"), attr_u(DW_AT_BYTE_SIZE, 12)],
            ),
            // a second occurrence with a deviating local size
            entry(
                50,
                DW_TAG_STRUCTURE_TYPE,
                vec![attr_u(DW_AT_BYTE_SIZE, 99), attr_str(DW_AT_NAME, "point")],
            ),
        ],
    };
    let mut p = Parser::from_units(vec![unit]);
    p.load_structs().unwrap();
    match p.get_type_meta(0, 50).unwrap() {
        Type::Struct(s) => {
            assert_eq!(s.name, "point");
            assert_eq!(s.size, 12);
            assert_eq!(s.refcnt, 0);
        },
        other => panic!("expected a struct, got {:?}", other),
    }
}

#[test]
fn anonymous_struct_resolves_as_void() {
    let unit = UnitData {
        entries: vec![entry(10, DW_TAG_STRUCTURE_TYPE, vec![attr_u(DW_AT_BYTE_SIZE, 24)])],
    };
    let p = Parser::from_units(vec![unit]);
    match p.get_type_meta(0, 10).unwrap() {
        Type::Struct(s) => {
            assert_eq!(s.name, "void");
            assert_eq!(s.size, 24);
            assert_eq!(s.refcnt, 1);
        },
        other => panic!("expected a struct, got {:?}", other),
    }
}

#[test]
fn unregistered_name_resolves_as_anonymous() {
    let unit = UnitData {
        entries: vec![entry(
            10,
            DW_TAG_STRUCTURE_TYPE,
            vec![attr_str(DW_AT_NAME, "ghostly"), attr_u(DW_AT_BYTE_SIZE, 6)],
        )],
    };
    // the registry was never populated
    let p = Parser::from_units(vec![unit]);
    match p.get_type_meta(0, 10).unwrap() {
        Type::Struct(s) => {
            assert_eq!(s.name, "void");
            assert_eq!(s.size, 6);
            assert_eq!(s.refcnt, 1);
        },
        other => panic!("expected a struct, got {:?}", other),
    }
}

#[test]
fn typedef_name_fallbacks() {
    let unit = UnitData {
        entries: vec![
            // a name attribute of a non-string form
            entry(10, DW_TAG_TYPEDEF, vec![attr_u(DW_AT_NAME, 1), attr_u(DW_AT_BYTE_SIZE, 2)]),
            // no name attribute at all
            entry(20, DW_TAG_TYPEDEF, vec![]),
        ],
    };
    let p = Parser::from_units(vec![unit]);
    match p.get_type_meta(0, 10).unwrap() {
        Type::Typedef(t) => {
            assert_eq!(t.name, "wtf");
            assert_eq!(t.size, 2);
        },
        other => panic!("expected a typedef, got {:?}", other),
    }
    match p.get_type_meta(0, 20).unwrap() {
        Type::Typedef(t) => {
            assert_eq!(t.name, "");
            assert_eq!(t.size, 0);
        },
        other => panic!("expected a typedef, got {:?}", other),
    }
}

#[test]
fn base_type_keeps_name_and_zero_size() {
    let unit = UnitData {
        entries: vec![
            entry(
                10,
                DW_TAG_BASE_TYPE,
                vec![attr_str(DW_AT_NAME, "long"), attr_u(DW_AT_BYTE_SIZE, 8)],
            ),
            entry(20, DW_TAG_BASE_TYPE, vec![attr_u(DW_AT_NAME, 3)]),
        ],
    };
    let p = Parser::from_units(vec![unit]);
    match p.get_type_meta(0, 10).unwrap() {
        Type::Base(b) => {
            assert_eq!(b.name, "long");
            // the byte size of a base type is not captured
            assert_eq!(b.size, 0);
        },
        other => panic!("expected a base type, got {:?}", other),
    }
    match p.get_type_meta(0, 20).unwrap() {
        Type::Base(b) => assert_eq!(b.name, "void"),
        other => panic!("expected a base type, got {:?}", other),
    }
}

#[test]
fn remaining_kinds_classify() {
    let unit = UnitData {
        entries: vec![
            entry(10, DW_TAG_UNION_TYPE, vec![attr_u(DW_AT_BYTE_SIZE, 16)]),
            entry(20, DW_TAG_ENUMERATION_TYPE, vec![attr_str(DW_AT_NAME, "color")]),
            entry(30, DW_TAG_ENUMERATION_TYPE, vec![]),
            entry(40, DW_TAG_SUBROUTINE_TYPE, vec![]),
            entry(50, DW_TAG_FORMAL_PARAMETER, vec![]),
            entry(60, DW_TAG_CONST_TYPE, vec![]),
        ],
    };
    let p = Parser::from_units(vec![unit]);
    match p.get_type_meta(0, 10).unwrap() {
        Type::Union(u) => assert_eq!(u.size, 0),
        other => panic!("expected a union, got {:?}", other),
    }
    match p.get_type_meta(0, 20).unwrap() {
        Type::Enum(e) => {
            assert_eq!(e.name.as_deref(), Some("color"));
            assert_eq!(e.size, 0);
        },
        other => panic!("expected an enum, got {:?}", other),
    }
    match p.get_type_meta(0, 30).unwrap() {
        Type::Enum(e) => assert_eq!(e.name, None),
        other => panic!("expected an enum, got {:?}", other),
    }
    assert!(matches!(p.get_type_meta(0, 40).unwrap(), Type::Subroutine(_)));
    assert!(matches!(p.get_type_meta(0, 50).unwrap(), Type::Subroutine(_)));
    match p.get_type_meta(0, 60).unwrap() {
        Type::Const(c) => assert_eq!(c.size, 8),
        other => panic!("expected a const, got {:?}", other),
    }
}
