use dwarf_structs::{DwarfData, DwarfError, Parser, SectionBytes, StructMemberIter, Type};

fn empty_sections() -> SectionBytes {
    SectionBytes {
        debug_abbrev: Vec::new(),
        debug_info: Vec::new(),
        debug_str: Vec::new(),
        debug_str_offsets: Vec::new(),
    }
}

fn written_sections() -> SectionBytes {
    // a unit holding: struct "pair" { x: u64 } and the base type it uses
    let encoding = gimli::Encoding { format: gimli::Format::Dwarf32, version: 4, address_size: 8 };
    let mut dwarf = gimli::write::DwarfUnit::new(encoding);
    let root = dwarf.unit.root();
    let base = dwarf.unit.add(root, gimli::DW_TAG_base_type);
    dwarf.unit.get_mut(base).set(
        gimli::DW_AT_name,
        gimli::write::AttributeValue::String(b"u64".to_vec()),
    );
    let st = dwarf.unit.add(root, gimli::DW_TAG_structure_type);
    dwarf.unit.get_mut(st).set(
        gimli::DW_AT_name,
        gimli::write::AttributeValue::String(b"pair".to_vec()),
    );
    dwarf.unit.get_mut(st).set(
        gimli::DW_AT_byte_size,
        gimli::write::AttributeValue::Udata(16),
    );
    let member = dwarf.unit.add(st, gimli::DW_TAG_member);
    dwarf.unit.get_mut(member).set(
        gimli::DW_AT_name,
        gimli::write::AttributeValue::String(b"x".to_vec()),
    );
    dwarf.unit.get_mut(member).set(
        gimli::DW_AT_byte_size,
        gimli::write::AttributeValue::Udata(8),
    );
    dwarf.unit.get_mut(member).set(
        gimli::DW_AT_type,
        gimli::write::AttributeValue::UnitRef(base),
    );

    let mut sections = gimli::write::Sections::new(gimli::write::EndianVec::new(
        gimli::LittleEndian,
    ));
    dwarf.write(&mut sections).unwrap();

    let mut out = empty_sections();
    sections
        .for_each(|id, data| {
            match id {
                gimli::SectionId::DebugInfo => out.debug_info = data.slice().to_vec(),
                gimli::SectionId::DebugAbbrev => out.debug_abbrev = data.slice().to_vec(),
                gimli::SectionId::DebugStr => out.debug_str = data.slice().to_vec(),
                gimli::SectionId::DebugStrOffsets => {
                    out.debug_str_offsets = data.slice().to_vec()
                },
                _ => {},
            }
            Ok::<(), gimli::Error>(())
        })
        .unwrap();
    out
}

#[test]
fn indexing_written_sections_finds_the_struct() {
    let data = DwarfData::load(written_sections()).unwrap();
    let mut p = Parser::new(data).unwrap();
    assert_eq!(p.unit_count(), 1);
    p.load_structs().unwrap();
    assert_eq!(p.struct_dict.len(), 1);
    let s = p.struct_dict.get(&"pair".to_string()).unwrap();
    assert_eq!(s.size, 16);
    assert_eq!(s.refcnt, 0);

    let mut it = StructMemberIter::new(s, &p);
    let m = it.next().unwrap();
    assert_eq!(m.name.as_deref(), Some("x"));
    assert_eq!(m.size, 8);
    match m.mb_type {
        Some(Type::Base(b)) => {
            assert_eq!(b.name, "u64");
            assert_eq!(b.size, 0);
        },
        other => panic!("expected a base type, got {:?}", other.is_some()),
    }
    assert!(it.next().is_none());
}

#[test]
fn resolving_a_written_location_twice_is_deterministic() {
    let data = DwarfData::load(written_sections()).unwrap();
    let mut p = Parser::new(data).unwrap();
    p.load_structs().unwrap();
    let s = p.struct_dict.get(&"pair".to_string()).unwrap();
    let a = p.get_type_meta(s.meta.header_idx, s.meta.offset);
    let b = p.get_type_meta(s.meta.header_idx, s.meta.offset);
    assert_eq!(a, b);
    match a.unwrap() {
        Type::Struct(t) => assert_eq!(t.name, "pair"),
        other => panic!("expected a struct, got {:?}", other),
    }
}

#[test]
fn empty_sections_index_to_no_units() {
    let data = DwarfData::load(empty_sections()).unwrap();
    let mut p = Parser::new(data).unwrap();
    assert_eq!(p.unit_count(), 0);
    p.load_structs().unwrap();
    assert_eq!(p.struct_dict.len(), 0);
}

#[test]
fn malformed_info_fails_to_load() {
    let mut s = empty_sections();
    s.debug_info = vec![0xff; 16];
    let data = DwarfData::load(s).unwrap();
    assert_eq!(
        match Parser::new(data) {
            Err(e) => Some(e),
            Ok(_) => None,
        },
        Some(DwarfError::LoadFailure)
    );
}
