//! The parser: a sequence of compilation units, a structure registry, and
//! the on-demand type resolver.
//!
//! Resolution restarts a search at the requested offset and reads one entry;
//! wrapper kinds (pointer, const, typedef, array, enum) are peeled one hop
//! at a time by the caller.

use vstd::prelude::*;
use vstd::string::StringExecFns;
use crate::model::{
    AttrView, DwTypeMeta, DwarfError, Entry, EntryView, UnitData, idx_at, lemma_idx_at_props,
    lemma_idx_at_step, units_view, unwrap0, wrap_inc, DW_AT_BYTE_SIZE, DW_AT_NAME, DW_AT_TYPE,
    DW_AT_UPPER_BOUND, DW_TAG_ARRAY_TYPE, DW_TAG_BASE_TYPE, DW_TAG_CONST_TYPE,
    DW_TAG_ENUMERATION_TYPE, DW_TAG_FORMAL_PARAMETER, DW_TAG_POINTER_TYPE,
    DW_TAG_STRUCTURE_TYPE, DW_TAG_SUBRANGE_TYPE, DW_TAG_SUBROUTINE_TYPE, DW_TAG_TYPEDEF,
    DW_TAG_UNION_TYPE,
};
use crate::registry::{
    dict_idx, lemma_dict_idx_props, reg_step, StructDict, StructView,
};
use crate::types::{
    meta_of, Array, Base, Const, Enum, Pointer, Struct, Subroutine, Type, TypeV, Typedef, Union,
};

verus! {

/// Mathematical image of a [`Parser`]: the unit entries and the registry.
#[verifier::ext_equal]
pub ghost struct ParserView {
    pub units: Seq<Seq<EntryView>>,
    pub dict: Seq<StructView>,
}

/// The parser owns the indexed units and the structure registry.
pub struct Parser {
    /// The indexed compilation units, in scan order.
    pub units: Vec<UnitData>,
    /// The registry of named structure definitions, populated by
    /// [`Parser::load_structs`].
    pub struct_dict: StructDict,
}

impl View for Parser {
    type V = ParserView;

    open spec fn view(&self) -> ParserView {
        ParserView { units: units_view(self.units@), dict: self.struct_dict@ }
    }
}

/// How one entry of unit `hidx` changes the registry during the scan: only
/// structure-tagged entries are read.
pub open spec fn step_entry(d: Seq<StructView>, e: EntryView, hidx: usize) -> Seq<StructView> {
    if e.tag == DW_TAG_STRUCTURE_TYPE {
        reg_step(d, e, DwTypeMeta { offset: e.offset, header_idx: hidx })
    } else {
        d
    }
}

/// The registry after scanning the entries of unit `hidx` in storage order.
pub open spec fn scan_unit_entries(
    d: Seq<StructView>,
    unit: Seq<EntryView>,
    hidx: usize,
) -> Seq<StructView>
    decreases unit.len(),
{
    if unit.len() == 0 {
        d
    } else {
        scan_unit_entries(step_entry(d, unit.first(), hidx), unit.drop_first(), hidx)
    }
}

/// The registry after scanning all units from index `from` on.
pub open spec fn scan_units_from(
    d: Seq<StructView>,
    units: Seq<Seq<EntryView>>,
    from: int,
) -> Seq<StructView>
    decreases units.len() - from,
{
    if from < 0 || from >= units.len() {
        d
    } else {
        scan_units_from(scan_unit_entries(d, units[from], from as usize), units, from + 1)
    }
}

/// Name captured for a typedef entry: each name attribute overwrites the
/// accumulator, a name attribute of a non-string form yields `"wtf"`.
pub open spec fn typedef_name(attrs: Seq<AttrView>, acc: Seq<char>) -> Seq<char>
    decreases attrs.len(),
{
    if attrs.len() == 0 {
        acc
    } else {
        typedef_name(
            attrs.drop_first(),
            if attrs.first().at == DW_AT_NAME {
                match attrs.first().sval {
                    Some(s) => s,
                    None => "wtf"@,
                }
            } else {
                acc
            },
        )
    }
}

/// Name captured for a base-type entry; a non-string form yields `"void"`.
pub open spec fn base_name(attrs: Seq<AttrView>, acc: Seq<char>) -> Seq<char>
    decreases attrs.len(),
{
    if attrs.len() == 0 {
        acc
    } else {
        base_name(
            attrs.drop_first(),
            if attrs.first().at == DW_AT_NAME {
                match attrs.first().sval {
                    Some(s) => s,
                    None => "void"@,
                }
            } else {
                acc
            },
        )
    }
}

/// Name captured for an enumeration entry, if any.
pub open spec fn enum_name(attrs: Seq<AttrView>, acc: Option<Seq<char>>) -> Option<Seq<char>>
    decreases attrs.len(),
{
    if attrs.len() == 0 {
        acc
    } else {
        enum_name(
            attrs.drop_first(),
            if attrs.first().at == DW_AT_NAME {
                attrs.first().sval
            } else {
                acc
            },
        )
    }
}

/// Byte size captured by a fold over the attributes: each byte-size
/// attribute overwrites the accumulator (zero for a non-integer form).
pub open spec fn size_fold(attrs: Seq<AttrView>, acc: u64) -> u64
    decreases attrs.len(),
{
    if attrs.len() == 0 {
        acc
    } else {
        size_fold(
            attrs.drop_first(),
            if attrs.first().at == DW_AT_BYTE_SIZE {
                unwrap0(attrs.first().udata)
            } else {
                acc
            },
        )
    }
}

/// The first type attribute of an entry, if any.
pub open spec fn first_type_attr(attrs: Seq<AttrView>) -> Option<AttrView>
    decreases attrs.len(),
{
    if attrs.len() == 0 {
        None
    } else if attrs.first().at == DW_AT_TYPE {
        Some(attrs.first())
    } else {
        first_type_attr(attrs.drop_first())
    }
}

/// The integer of the first upper-bound attribute, if any; a non-integer
/// form counts as zero.
pub open spec fn first_upper(attrs: Seq<AttrView>) -> Option<u64>
    decreases attrs.len(),
{
    if attrs.len() == 0 {
        None
    } else if attrs.first().at == DW_AT_UPPER_BOUND {
        Some(unwrap0(attrs.first().udata))
    } else {
        first_upper(attrs.drop_first())
    }
}

/// Resolution of a structure entry: the first name attribute whose string
/// is in the registry wins, and the registry entry supplies the
/// authoritative name and size.  Otherwise the entry is anonymous: named
/// `"void"`, sized by its own byte-size attribute, marked by a reference
/// count of one.
pub open spec fn struct_res(
    attrs: Seq<AttrView>,
    dict: Seq<StructView>,
    meta: DwTypeMeta,
    acc_size: u64,
) -> TypeV
    decreases attrs.len(),
{
    if attrs.len() == 0 {
        TypeV::Struct { name: "void"@, size: acc_size, meta, refcnt: 1 }
    } else if attrs.first().at == DW_AT_NAME && attrs.first().sval is Some && dict_idx(
        dict,
        attrs.first().sval->0,
    ) is Some {
        let j = dict_idx(dict, attrs.first().sval->0)->0;
        TypeV::Struct { name: dict[j].name, size: dict[j].size, meta, refcnt: 0 }
    } else {
        struct_res(
            attrs.drop_first(),
            dict,
            meta,
            if attrs.first().at == DW_AT_BYTE_SIZE {
                unwrap0(attrs.first().udata)
            } else {
                acc_size
            },
        )
    }
}

/// Element count of an array entry at `off`: read from the upper bound of
/// the subrange entry immediately following it; no following entry means
/// zero, a following entry of another kind is a mismatch.
pub open spec fn bounds_spec(
    units: Seq<Seq<EntryView>>,
    hidx: usize,
    off: u64,
) -> Result<u64, DwarfError> {
    if hidx >= units.len() {
        Ok(0)
    } else {
        match idx_at(units[hidx as int], off) {
            None => Err(DwarfError::OutOfRange),
            Some(i) => {
                if i + 1 >= units[hidx as int].len() {
                    Ok(0)
                } else {
                    let s = units[hidx as int][i + 1];
                    if s.tag == DW_TAG_SUBRANGE_TYPE {
                        match first_upper(s.attrs) {
                            Some(u) => Ok(wrap_inc(u)),
                            None => Ok(0),
                        }
                    } else {
                        Err(DwarfError::TypeMismatch)
                    }
                }
            },
        }
    }
}

/// Classification of the entry found at `off` in unit `hidx`, by its tag.
pub open spec fn classify_entry(
    pv: ParserView,
    hidx: usize,
    off: u64,
    i: int,
) -> Result<TypeV, DwarfError> {
    let e = pv.units[hidx as int][i];
    let meta = DwTypeMeta { offset: off, header_idx: hidx };
    if e.tag == DW_TAG_STRUCTURE_TYPE {
        Ok(struct_res(e.attrs, pv.dict, meta, 0))
    } else if e.tag == DW_TAG_TYPEDEF {
        Ok(
            TypeV::Typedef {
                name: typedef_name(e.attrs, Seq::empty()),
                size: size_fold(e.attrs, 0),
                meta,
            },
        )
    } else if e.tag == DW_TAG_POINTER_TYPE {
        Ok(TypeV::Pointer { size: 8, meta })
    } else if e.tag == DW_TAG_CONST_TYPE {
        Ok(TypeV::Const { size: 8, meta })
    } else if e.tag == DW_TAG_BASE_TYPE {
        Ok(TypeV::Base { name: base_name(e.attrs, Seq::empty()), size: 0, meta })
    } else if e.tag == DW_TAG_UNION_TYPE {
        Ok(TypeV::Union { size: 0, meta })
    } else if e.tag == DW_TAG_ARRAY_TYPE {
        match bounds_spec(pv.units, hidx, off) {
            Ok(c) => Ok(TypeV::Array { size: c, meta }),
            Err(er) => Err(er),
        }
    } else if e.tag == DW_TAG_ENUMERATION_TYPE {
        Ok(TypeV::Enum { name: enum_name(e.attrs, None), size: 0, meta })
    } else if e.tag == DW_TAG_SUBROUTINE_TYPE || e.tag == DW_TAG_FORMAL_PARAMETER {
        Ok(TypeV::Subroutine { size: 0, meta })
    } else {
        Err(DwarfError::UnrecognizedTag)
    }
}

/// What resolving location `(hidx, off)` yields: the classification of the
/// entry there, or an out-of-range error when no entry starts at `off`.
pub open spec fn resolve_spec(pv: ParserView, hidx: usize, off: u64) -> Result<TypeV, DwarfError> {
    if hidx >= pv.units.len() {
        Err(DwarfError::OutOfRange)
    } else {
        match idx_at(pv.units[hidx as int], off) {
            None => Err(DwarfError::OutOfRange),
            Some(i) => classify_entry(pv, hidx, off, i),
        }
    }
}

/// What peeling a resolved type yields: resolve the target of the first
/// type attribute of the entry the type points at, one hop.  No type
/// attribute at all means there is no inner type; a type attribute whose
/// form is not a unit-local location is a malformed entry.
pub open spec fn peel_spec(pv: ParserView, t: TypeV) -> Result<Option<TypeV>, DwarfError> {
    let m = meta_of(t);
    if m.header_idx >= pv.units.len() {
        Err(DwarfError::OutOfRange)
    } else {
        match idx_at(pv.units[m.header_idx as int], m.offset) {
            None => Err(DwarfError::OutOfRange),
            Some(i) => match first_type_attr(pv.units[m.header_idx as int][i].attrs) {
                None => Ok(None),
                Some(a) => match a.uref {
                    None => Err(DwarfError::MalformedEntry),
                    Some(o2) => match resolve_spec(pv, m.header_idx, o2) {
                        Ok(t2) => Ok(Some(t2)),
                        Err(e) => Err(e),
                    },
                },
            },
        }
    }
}

/// The image of a resolution result.
pub open spec fn res_view(r: Result<Type, DwarfError>) -> Result<TypeV, DwarfError> {
    match r {
        Ok(t) => Ok(t@),
        Err(e) => Err(e),
    }
}

/// The image of a peeling result.
pub open spec fn peel_view(
    r: Result<Option<Type>, DwarfError>,
) -> Result<Option<TypeV>, DwarfError> {
    match r {
        Ok(Some(t)) => Ok(Some(t@)),
        Ok(None) => Ok(None),
        Err(e) => Err(e),
    }
}

impl Parser {
    /// A parser over already-indexed units, with an empty registry.
    pub fn from_units(units: Vec<UnitData>) -> (p: Parser)
        ensures
            p@.units == units_view(units@),
            p@.dict == Seq::<StructView>::empty(),
    {
        Parser { units, struct_dict: StructDict::new() }
    }

    /// Number of compilation units indexed.
    pub fn unit_count(&self) -> (n: usize)
        ensures
            n == self@.units.len(),
    {
        self.units.len()
    }

    /// Scan every unit for structure entries and populate the registry.
    pub fn load_structs(&mut self) -> (r: Result<(), DwarfError>)
        ensures
            r == Ok::<(), DwarfError>(()),
            final(self)@.units == old(self)@.units,
            final(self)@.dict == scan_units_from(old(self)@.dict, old(self)@.units, 0),
    {
        let ghost units_v = self@.units;
        let ghost d0 = self@.dict;
        let nu = self.units.len();
        let mut u: usize = 0;
        while u < nu
            invariant
                nu == self.units@.len(),
                u <= nu,
                self@.units == units_v,
                scan_units_from(d0, units_v, 0) == scan_units_from(self@.dict, units_v, u as int),
            decreases nu - u,
        {
            let ghost unit_v = units_v[u as int];
            let ne = self.units[u].entries.len();
            let mut k: usize = 0;
            proof {
                assert(unit_v.skip(0) =~= unit_v);
                assert(unit_v == self.units@[u as int]@);
            }
            while k < ne
                invariant
                    u < nu,
                    nu == self.units@.len(),
                    self@.units == units_v,
                    unit_v == units_v[u as int],
                    ne == self.units@[u as int].entries@.len(),
                    ne == unit_v.len(),
                    k <= ne,
                    scan_units_from(d0, units_v, 0) == scan_units_from(
                        scan_unit_entries(self@.dict, unit_v.skip(k as int), u),
                        units_v,
                        u as int + 1,
                    ),
                decreases ne - k,
            {
                proof {
                    assert(unit_v.skip(k as int).first() == unit_v[k as int]);
                    assert(unit_v.skip(k as int).drop_first() =~= unit_v.skip(k as int + 1));
                    assert(unit_v[k as int] == self.units@[u as int].entries@.map_values(
                        |e: Entry| e@,
                    )[k as int]);
                }
                let tag = self.units[u].entries[k].tag;
                if tag == DW_TAG_STRUCTURE_TYPE {
                    self.struct_dict.register(u, &self.units[u].entries[k]);
                }
                k += 1;
            }
            proof {
                assert(unit_v.skip(ne as int) =~= Seq::<EntryView>::empty());
            }
            u += 1;
        }
        Ok(())
    }

    /// Register one entry of unit `header_idx`, as the scan would.
    pub fn load_struct(&mut self, header_idx: usize, entry: &Entry) -> (r: Result<
        (),
        DwarfError,
    >)
        ensures
            r == Ok::<(), DwarfError>(()),
            final(self)@.units == old(self)@.units,
            final(self)@.dict == reg_step(
                old(self)@.dict,
                entry@,
                DwTypeMeta { offset: entry.offset, header_idx },
            ),
    {
        self.struct_dict.register(header_idx, entry);
        Ok(())
    }

    /// Index of the entry starting at `off` in `unit`, if any.
    pub(crate) fn find_at(unit: &UnitData, off: u64) -> (r: Option<usize>)
        ensures
            match r {
                Some(j) => idx_at(unit@, off) == Some(j as int),
                None => idx_at(unit@, off) is None,
            },
    {
        let n = unit.entries.len();
        let mut j: usize = 0;
        proof {
            assert(unit@.skip(0) =~= unit@);
        }
        while j < n
            invariant
                n == unit@.len(),
                n == unit.entries@.len(),
                j <= n,
                idx_at(unit@, off) == match idx_at(unit@.skip(j as int), off) {
                    Some(k) => Some(k + j),
                    None => None::<int>,
                },
            decreases n - j,
        {
            proof {
                assert(unit@[j as int] == unit.entries@[j as int]@);
            }
            if unit.entries[j].offset == off {
                assert(unit@.skip(j as int).first() == unit@[j as int]);
                return Some(j);
            }
            proof {
                lemma_idx_at_step(unit@, off, j as int);
            }
            j += 1;
        }
        proof {
            assert(unit@.skip(n as int) =~= Seq::<EntryView>::empty());
        }
        None
    }

    /// Element count of the array entry at `(header_idx, arr_offset)`, from
    /// the subrange entry immediately following it.
    #[verifier::loop_isolation(false)]
    pub fn get_array_bounds(&self, header_idx: usize, arr_offset: u64) -> (r: Result<
        u64,
        DwarfError,
    >)
        ensures
            r == bounds_spec(self@.units, header_idx, arr_offset),
    {
        if header_idx >= self.units.len() {
            return Ok(0);
        }
        let unit = &self.units[header_idx];
        proof {
            assert(self@.units[header_idx as int] == unit@);
        }
        let i = match Self::find_at(unit, arr_offset) {
            Some(i) => i,
            None => {
                return Err(DwarfError::OutOfRange);
            },
        };
        let n_entries = unit.entries.len();
        proof {
            lemma_idx_at_props(unit@, arr_offset);
            assert(unit@.len() == unit.entries@.len());
            assert(i < n_entries);
        }
        if i + 1 >= n_entries {
            return Ok(0);
        }
        let sibling = &unit.entries[i + 1];
        let ghost sib_v = unit@[i as int + 1];
        proof {
            assert(unit@[i as int + 1] == unit.entries@[i as int + 1]@);
            assert(sib_v == sibling@);
        }
        if sibling.tag != DW_TAG_SUBRANGE_TYPE {
            return Err(DwarfError::TypeMismatch);
        }
        let ghost attrs_v = sib_v.attrs;
        let na = sibling.attrs.len();
        let mut j: usize = 0;
        proof {
            assert(attrs_v.skip(0) =~= attrs_v);
            assert(na == attrs_v.len());
        }
        while j < na
            invariant
                na == sibling.attrs@.len(),
                na == attrs_v.len(),
                attrs_v == sib_v.attrs,
                sib_v == unit@[i as int + 1],
                j <= na,
                first_upper(attrs_v) == first_upper(attrs_v.skip(j as int)),
            decreases na - j,
        {
            proof {
                assert(attrs_v.skip(j as int).first() == attrs_v[j as int]);
                assert(attrs_v.skip(j as int).drop_first() =~= attrs_v.skip(j as int + 1));
                assert(sib_v == sibling@);
                assert(attrs_v[j as int] == sibling.attrs@[j as int]@);
            }
            let a = &sibling.attrs[j];
            if a.at == DW_AT_UPPER_BOUND {
                let ub = match a.udata {
                    Some(v) => v,
                    None => 0,
                };
                let count = if ub == u64::MAX {
                    0
                } else {
                    ub + 1
                };
                return Ok(count);
            }
            j += 1;
        }
        proof {
            assert(attrs_v.skip(na as int) =~= Seq::<AttrView>::empty());
        }
        Ok(0)
    }

    /// Resolve the entry at `(header_idx, offset)` into a classified type.
    ///
    /// A structure entry whose name is in the registry cross-references the
    /// registry entry; resolving the same location twice yields equal
    /// results, as the contract is a function of the parser state alone.
    #[verifier::loop_isolation(false)]
    pub fn get_type_meta(&self, header_idx: usize, offset: u64) -> (r: Result<Type, DwarfError>)
        ensures
            res_view(r) == resolve_spec(self@, header_idx, offset),
    {
        if header_idx >= self.units.len() {
            return Err(DwarfError::OutOfRange);
        }
        let unit = &self.units[header_idx];
        proof {
            assert(self@.units[header_idx as int] == unit@);
        }
        let i = match Self::find_at(unit, offset) {
            Some(i) => i,
            None => {
                return Err(DwarfError::OutOfRange);
            },
        };
        let n_entries = unit.entries.len();
        proof {
            lemma_idx_at_props(unit@, offset);
            assert(unit@.len() == unit.entries@.len());
            assert(i < n_entries);
        }
        let entry = &unit.entries[i];
        let ghost e_v = unit@[i as int];
        proof {
            assert(e_v == entry@);
        }
        let meta = DwTypeMeta { offset, header_idx };
        let ghost attrs_v = e_v.attrs;
        let tag = entry.tag;
        if tag == DW_TAG_STRUCTURE_TYPE {
            let na = entry.attrs.len();
            let mut size: u64 = 0;
            let mut j: usize = 0;
            proof {
                assert(attrs_v.skip(0) =~= attrs_v);
                assert(na == attrs_v.len());
            }
            while j < na
                invariant
                    j <= na,
                    struct_res(attrs_v, self@.dict, meta, 0) == struct_res(
                        attrs_v.skip(j as int),
                        self@.dict,
                        meta,
                        size,
                    ),
                decreases na - j,
            {
                proof {
                    assert(attrs_v.skip(j as int).first() == attrs_v[j as int]);
                    assert(attrs_v.skip(j as int).drop_first() =~= attrs_v.skip(j as int + 1));
                    assert(attrs_v[j as int] == entry.attrs@[j as int]@);
                }
                let a = &entry.attrs[j];
                if a.at == DW_AT_NAME {
                    match &a.sval {
                        Some(s) => {
                            match self.struct_dict.get(s) {
                                Some(st) => {
                                    proof {
                                        lemma_dict_idx_props(self@.dict, s@);
                                    }
                                    return Ok(
                                        Type::Struct(
                                            Struct {
                                                name: st.name.clone(),
                                                size: st.size,
                                                meta,
                                                refcnt: 0,
                                            },
                                        ),
                                    );
                                },
                                None => {},
                            }
                        },
                        None => {},
                    }
                } else if a.at == DW_AT_BYTE_SIZE {
                    size = match a.udata {
                        Some(v) => v,
                        None => 0,
                    };
                }
                j += 1;
            }
            proof {
                assert(attrs_v.skip(na as int) =~= Seq::<AttrView>::empty());
            }
            return Ok(
                Type::Struct(Struct { name: String::from_str("void"), size, meta, refcnt: 1 }),
            );
        }
        if tag == DW_TAG_TYPEDEF {
            let na = entry.attrs.len();
            let mut name: String = String::new();
            let mut size: u64 = 0;
            let mut j: usize = 0;
            proof {
                assert(attrs_v.skip(0) =~= attrs_v);
                assert(na == attrs_v.len());
            }
            while j < na
                invariant
                    j <= na,
                    typedef_name(attrs_v, Seq::empty()) == typedef_name(
                        attrs_v.skip(j as int),
                        name@,
                    ),
                    size_fold(attrs_v, 0) == size_fold(attrs_v.skip(j as int), size),
                decreases na - j,
            {
                proof {
                    assert(attrs_v.skip(j as int).first() == attrs_v[j as int]);
                    assert(attrs_v.skip(j as int).drop_first() =~= attrs_v.skip(j as int + 1));
                    assert(attrs_v[j as int] == entry.attrs@[j as int]@);
                }
                let a = &entry.attrs[j];
                if a.at == DW_AT_NAME {
                    name = match &a.sval {
                        Some(s) => s.clone(),
                        None => String::from_str("wtf"),
                    };
                } else if a.at == DW_AT_BYTE_SIZE {
                    size = match a.udata {
                        Some(v) => v,
                        None => 0,
                    };
                }
                j += 1;
            }
            proof {
                assert(attrs_v.skip(na as int) =~= Seq::<AttrView>::empty());
            }
            return Ok(Type::Typedef(Typedef { name, size, meta }));
        }
        if tag == DW_TAG_POINTER_TYPE {
            return Ok(Type::Pointer(Pointer { size: 8, meta }));
        }
        if tag == DW_TAG_CONST_TYPE {
            return Ok(Type::Const(Const { size: 8, meta }));
        }
        if tag == DW_TAG_BASE_TYPE {
            let na = entry.attrs.len();
            let mut name: String = String::new();
            let mut j: usize = 0;
            proof {
                assert(attrs_v.skip(0) =~= attrs_v);
                assert(na == attrs_v.len());
            }
            while j < na
                invariant
                    j <= na,
                    base_name(attrs_v, Seq::empty()) == base_name(attrs_v.skip(j as int), name@),
                decreases na - j,
            {
                proof {
                    assert(attrs_v.skip(j as int).first() == attrs_v[j as int]);
                    assert(attrs_v.skip(j as int).drop_first() =~= attrs_v.skip(j as int + 1));
                    assert(attrs_v[j as int] == entry.attrs@[j as int]@);
                }
                let a = &entry.attrs[j];
                if a.at == DW_AT_NAME {
                    name = match &a.sval {
                        Some(s) => s.clone(),
                        None => String::from_str("void"),
                    };
                }
                j += 1;
            }
            proof {
                assert(attrs_v.skip(na as int) =~= Seq::<AttrView>::empty());
            }
            return Ok(Type::Base(Base { name, size: 0, meta }));
        }
        if tag == DW_TAG_UNION_TYPE {
            return Ok(Type::Union(Union { size: 0, meta }));
        }
        if tag == DW_TAG_ARRAY_TYPE {
            match self.get_array_bounds(header_idx, offset) {
                Ok(b) => {
                    return Ok(Type::Array(Array { size: b, meta }));
                },
                Err(e) => {
                    return Err(e);
                },
            }
        }
        if tag == DW_TAG_ENUMERATION_TYPE {
            let na = entry.attrs.len();
            let mut name: Option<String> = None;
            let mut j: usize = 0;
            proof {
                assert(attrs_v.skip(0) =~= attrs_v);
                assert(na == attrs_v.len());
            }
            while j < na
                invariant
                    j <= na,
                    enum_name(attrs_v, None) == enum_name(
                        attrs_v.skip(j as int),
                        crate::registry::opt_str_view(name),
                    ),
                decreases na - j,
            {
                proof {
                    assert(attrs_v.skip(j as int).first() == attrs_v[j as int]);
                    assert(attrs_v.skip(j as int).drop_first() =~= attrs_v.skip(j as int + 1));
                    assert(attrs_v[j as int] == entry.attrs@[j as int]@);
                }
                let a = &entry.attrs[j];
                if a.at == DW_AT_NAME {
                    name = match &a.sval {
                        Some(s) => Some(s.clone()),
                        None => None,
                    };
                }
                j += 1;
            }
            proof {
                assert(attrs_v.skip(na as int) =~= Seq::<AttrView>::empty());
            }
            return Ok(Type::Enum(Enum { name, size: 0, meta }));
        }
        if tag == DW_TAG_SUBROUTINE_TYPE || tag == DW_TAG_FORMAL_PARAMETER {
            return Ok(Type::Subroutine(Subroutine { size: 0, meta }));
        }
        Err(DwarfError::UnrecognizedTag)
    }

    /// Peel one layer: resolve the target of the first type attribute of
    /// the entry `type_inst` points at.  An entry with no type attribute
    /// has no inner type, which is not an error; a type attribute whose
    /// form is not a unit-local location is a malformed entry.
    #[verifier::loop_isolation(false)]
    pub fn get_type(&self, type_inst: Type) -> (r: Result<Option<Type>, DwarfError>)
        ensures
            peel_view(r) == peel_spec(self@, type_inst@),
    {
        let meta = type_inst.get_meta();
        if meta.header_idx >= self.units.len() {
            return Err(DwarfError::OutOfRange);
        }
        let unit = &self.units[meta.header_idx];
        proof {
            assert(self@.units[meta.header_idx as int] == unit@);
        }
        let i = match Self::find_at(unit, meta.offset) {
            Some(i) => i,
            None => {
                return Err(DwarfError::OutOfRange);
            },
        };
        let n_entries = unit.entries.len();
        proof {
            lemma_idx_at_props(unit@, meta.offset);
            assert(unit@.len() == unit.entries@.len());
            assert(i < n_entries);
        }
        let entry = &unit.entries[i];
        let ghost attrs_v = unit@[i as int].attrs;
        proof {
            assert(unit@[i as int] == entry@);
        }
        let na = entry.attrs.len();
        let mut j: usize = 0;
        proof {
            assert(attrs_v.skip(0) =~= attrs_v);
            assert(na == attrs_v.len());
        }
        while j < na
            invariant
                j <= na,
                first_type_attr(attrs_v) == first_type_attr(attrs_v.skip(j as int)),
            decreases na - j,
        {
            proof {
                assert(attrs_v.skip(j as int).first() == attrs_v[j as int]);
                assert(attrs_v.skip(j as int).drop_first() =~= attrs_v.skip(j as int + 1));
                assert(attrs_v[j as int] == entry.attrs@[j as int]@);
            }
            let a = &entry.attrs[j];
            if a.at == DW_AT_TYPE {
                match a.uref {
                    Some(o2) => {
                        match self.get_type_meta(meta.header_idx, o2) {
                            Ok(t) => {
                                return Ok(Some(t));
                            },
                            Err(e) => {
                                return Err(e);
                            },
                        }
                    },
                    None => {
                        // a type reference that is not a location
                        return Err(DwarfError::MalformedEntry);
                    },
                }
            }
            j += 1;
        }
        proof {
            assert(attrs_v.skip(na as int) =~= Seq::<AttrView>::empty());
        }
        Ok(None)
    }
}

} // verus!
