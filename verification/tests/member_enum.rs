use dwarf_structs::model::{
    DW_AT_BYTE_SIZE, DW_AT_NAME, DW_AT_TYPE, DW_TAG_BASE_TYPE, DW_TAG_MEMBER,
    DW_TAG_STRUCTURE_TYPE, DW_TAG_TYPEDEF,
};
use dwarf_structs::{Attr, Entry, Parser, StructMemberIter, Type, UnitData};

fn attr_str(at: u64, s: &str) -> Attr {
    Attr { at, udata: None, uref: None, sval: Some(s.to_string()) }
}

fn attr_u(at: u64, v: u64) -> Attr {
    Attr { at, udata: Some(v), uref: None, sval: None }
}

fn attr_ref(at: u64, o: u64) -> Attr {
    Attr { at, udata: None, uref: Some(o), sval: None }
}

fn entry(offset: u64, tag: u64, attrs: Vec<Attr>) -> Entry {
    Entry { offset, tag, attrs }
}

fn fixture() -> Parser {
    // struct "s" with children [member, member, typedef, member]
    let unit = UnitData {
        entries: vec![
            entry(
                10,
                DW_TAG_STRUCTURE_TYPE,
                vec![attr_str(DW_AT_NAME, "s"), attr_u(DW_AT_BYTE_SIZE, 16)],
            ),
            entry(
                12,
                DW_TAG_MEMBER,
                vec![
                    attr_str(DW_AT_NAME, "a"),
                    attr_u(DW_AT_BYTE_SIZE, 8),
                    attr_ref(DW_AT_TYPE, 40),
                ],
            ),
            entry(
                14,
                DW_TAG_MEMBER,
                vec![attr_str(DW_AT_NAME, "b"), attr_ref(DW_AT_TYPE, 40)],
            ),
            entry(16, DW_TAG_TYPEDEF, vec![attr_str(DW_AT_NAME, "nested")]),
            entry(18, DW_TAG_MEMBER, vec![attr_str(DW_AT_NAME, "late")]),
            entry(40, DW_TAG_BASE_TYPE, vec![attr_str(DW_AT_NAME, "u64")]),
        ],
    };
    let mut p = Parser::from_units(vec![unit]);
    p.load_structs().unwrap();
    p
}

#[test]
fn enumeration_stops_at_first_non_member() {
    let p = fixture();
    let s = p.struct_dict.get(&"s".to_string()).unwrap();
    let mut it = StructMemberIter::new(s, &p);
    let mut names: Vec<String> = Vec::new();
    while let Some(m) = it.next() {
        names.push(m.name.clone().unwrap_or_default());
    }
    // the typedef child ends the walk; the member after it is not seen
    assert_eq!(names, vec!["a".to_string(), "b".to_string()]);
    // and the end is permanent: polling past it never yields the fourth
    // child, which is a member again
    assert!(it.next().is_none());
    assert!(it.next().is_none());
}

#[test]
fn member_fields_are_parsed() {
    let p = fixture();
    let s = p.struct_dict.get(&"s".to_string()).unwrap();
    let mut it = StructMemberIter::new(s, &p);
    let m = it.next().unwrap();
    assert_eq!(m.name.as_deref(), Some("a"));
    assert_eq!(m.size, 8);
    match m.mb_type {
        Some(Type::Base(b)) => assert_eq!(b.name, "u64"),
        other => panic!("expected a base type, got {:?}", other.is_some()),
    }
    // the second member carries no byte size
    let m2 = it.next().unwrap();
    assert_eq!(m2.name.as_deref(), Some("b"));
    assert_eq!(m2.size, 0);
}

#[test]
fn unresolvable_member_type_is_kept_without_type() {
    let unit = UnitData {
        entries: vec![
            entry(
                10,
                DW_TAG_STRUCTURE_TYPE,
                vec![attr_str(DW_AT_NAME, "t"), attr_u(DW_AT_BYTE_SIZE, 8)],
            ),
            entry(
                12,
                DW_TAG_MEMBER,
                vec![attr_str(DW_AT_NAME, "broken"), attr_ref(DW_AT_TYPE, 999)],
            ),
        ],
    };
    let mut p = Parser::from_units(vec![unit]);
    p.load_structs().unwrap();
    let s = p.struct_dict.get(&"t".to_string()).unwrap();
    let mut it = StructMemberIter::new(s, &p);
    let m = it.next().unwrap();
    assert_eq!(m.name.as_deref(), Some("broken"));
    assert!(m.mb_type.is_none());
    assert!(it.next().is_none());
}

#[test]
fn fresh_enumerator_reproduces_the_sequence() {
    let p = fixture();
    let s = p.struct_dict.get(&"s".to_string()).unwrap();
    let mut first: Vec<Option<String>> = Vec::new();
    let mut it1 = StructMemberIter::new(s, &p);
    while let Some(m) = it1.next() {
        first.push(m.name.clone());
    }
    let mut second: Vec<Option<String>> = Vec::new();
    let mut it2 = StructMemberIter::new(s, &p);
    while let Some(m) = it2.next() {
        second.push(m.name.clone());
    }
    assert_eq!(first, second);
    assert_eq!(first.len(), 2);
}

#[test]
fn get_member_looks_up_by_index() {
    let p = fixture();
    let s = p.struct_dict.get(&"s".to_string()).unwrap();
    let it = StructMemberIter::new(s, &p);
    let m1 = it.get_member(1).unwrap().unwrap();
    assert_eq!(m1.name.as_deref(), Some("b"));
    // index two is the typedef child: end of the member list
    assert!(it.get_member(2).unwrap().is_none());
    // far past the children
    assert!(it.get_member(100).unwrap().is_none());
}

#[test]
fn anonymous_member_has_no_name() {
    let unit = UnitData {
        entries: vec![
            entry(
                10,
                DW_TAG_STRUCTURE_TYPE,
                vec![attr_str(DW_AT_NAME, "u"), attr_u(DW_AT_BYTE_SIZE, 4)],
            ),
            entry(12, DW_TAG_MEMBER, vec![attr_u(DW_AT_BYTE_SIZE, 4)]),
        ],
    };
    let mut p = Parser::from_units(vec![unit]);
    p.load_structs().unwrap();
    let s = p.struct_dict.get(&"u".to_string()).unwrap();
    let mut it = StructMemberIter::new(s, &p);
    let m = it.next().unwrap();
    assert_eq!(m.name, None);
    assert_eq!(m.size, 4);
}
