//! Indexing the debug sections of a binary into the parser's model.
//!
//! gimli does the format decoding; the walk itself is verified.  Each
//! single gimli call stands behind a trusted wrapper whose contract speaks
//! over named images of what the loaded tree holds: `dwarf_units` names the
//! full model, `unit_entries` and `cursor_entries` name what one unit, or
//! the rest of one traversal, yields, and `entry_view` names one entry's
//! reduction to plain values.  Verus refuses declarations of gimli's types
//! (their bounds name gimli's own traits), so each is held in a field of an
//! opaque struct of this crate instead.

use vstd::prelude::*;
use fallible_iterator::FallibleIterator;
use gimli::Reader;
use crate::model::{Attr, DwarfError, Entry, EntryView, UnitData, units_view};
use crate::parser::Parser;
use crate::registry::{StructDict, StructView};

verus! {

/// Raw bytes of the debug sections an index is built from; a section the
/// binary lacks is the empty vector.  Only the sections the resolver reads
/// are consumed; all others are treated as absent.
pub struct SectionBytes {
    /// The abbreviation tables.
    pub debug_abbrev: Vec<u8>,
    /// The debug-information entry trees.
    pub debug_info: Vec<u8>,
    /// The string section name attributes point into.
    pub debug_str: Vec<u8>,
    /// The string-offset indirection table.
    pub debug_str_offsets: Vec<u8>,
}

/// A loaded debug-information tree.  Opaque: every fact about it goes
/// through the named images below.
#[verifier::external_body]
pub struct DwarfData {
    d: gimli::Dwarf<gimli::EndianRcSlice<gimli::LittleEndian>>,
}

/// One compilation unit of a loaded tree, ready for traversal.
#[verifier::external_body]
pub struct UnitHandle {
    u: gimli::Unit<gimli::EndianRcSlice<gimli::LittleEndian>>,
}

/// A forward-only depth-first traversal over one unit's entries.
#[verifier::external_body]
pub struct EntryCursor<'a> {
    c: gimli::EntriesCursor<'a, gimli::EndianRcSlice<gimli::LittleEndian>>,
}

/// One entry read out of a traversal.
#[verifier::external_body]
pub struct EntryHandle {
    e: gimli::DebuggingInformationEntry<gimli::EndianRcSlice<gimli::LittleEndian>>,
}

/// The entries of every compilation unit of a loaded tree, in scan order,
/// each unit in depth-first order, reduced to plain values.
pub uninterp spec fn dwarf_units(d: DwarfData) -> Seq<Seq<EntryView>>;

/// The entries one unit's traversal yields, in depth-first order, reduced
/// to plain values against tree `d`.
pub uninterp spec fn unit_entries(d: DwarfData, u: UnitHandle) -> Seq<EntryView>;

/// The entries a cursor has yet to yield, in depth-first order, reduced to
/// plain values against tree `d`.
pub uninterp spec fn cursor_entries(d: DwarfData, c: EntryCursor) -> Seq<EntryView>;

/// One entry reduced to plain values: its tag and offset, and per
/// attribute the code and the integer, reference and string forms of its
/// value (strings are resolved through the tree's string section).
pub uninterp spec fn entry_view(d: DwarfData, e: EntryHandle) -> EntryView;

/// Whether every read of the tree's full depth-first walk — unit headers,
/// entries and attribute strings — succeeds: a function of the tree value
/// alone.  Under it, the walking wrappers promise success for the handles
/// this module drives them with.
pub uninterp spec fn dwarf_walk_ok(d: DwarfData) -> bool;

impl DwarfData {
    /// Relies on gimli's `Dwarf::load` and `EndianRcSlice::new`: parse the
    /// given little-endian debug sections into a tree.  The loader hands
    /// gimli each requested section's bytes, or the empty slice.
    #[verifier::external_body]
    pub fn load(s: SectionBytes) -> (r: Result<DwarfData, DwarfError>) {
        let loader = |id: gimli::SectionId| {
            let b: &[u8] = match id {
                gimli::SectionId::DebugInfo => &s.debug_info,
                gimli::SectionId::DebugAbbrev => &s.debug_abbrev,
                gimli::SectionId::DebugStr => &s.debug_str,
                gimli::SectionId::DebugStrOffsets => &s.debug_str_offsets,
                _ => &[],
            };
            Ok::<_, gimli::Error>(gimli::EndianRcSlice::new(std::rc::Rc::from(b), gimli::LittleEndian))
        };
        match gimli::Dwarf::load(loader) {
            Ok(d) => Ok(DwarfData { d }),
            Err(_) => Err(DwarfError::LoadFailure),
        }
    }
}

/// Relies on gimli's `Dwarf::units`, `FallibleIterator::nth` and
/// `Dwarf::unit`: the compilation unit at index `idx` in scan order, or
/// nothing past the last one.
#[verifier::external_body]
fn dw_unit(d: &DwarfData, idx: usize) -> (r: Result<Option<UnitHandle>, DwarfError>)
    ensures
        r matches Ok(Some(u)) ==> idx < dwarf_units(*d).len() && unit_entries(*d, u)
            == dwarf_units(*d)[idx as int],
        r matches Ok(None) ==> idx >= dwarf_units(*d).len(),
        dwarf_walk_ok(*d) ==> r is Ok,
{
    match FallibleIterator::nth(&mut d.d.units(), idx) {
        Ok(Some(h)) => match d.d.unit(h) {
            Ok(u) => Ok(Some(UnitHandle { u })),
            Err(_) => Err(DwarfError::LoadFailure),
        },
        Ok(None) => Ok(None),
        Err(_) => Err(DwarfError::LoadFailure),
    }
}

/// Relies on gimli's `Unit::entries`: a cursor positioned before the
/// unit's first entry.
#[verifier::external_body]
fn dw_cursor_root<'a>(d: &DwarfData, u: &'a UnitHandle) -> (c: EntryCursor<'a>)
    ensures
        cursor_entries(*d, c) == unit_entries(*d, *u),
{
    EntryCursor { c: u.u.entries() }
}

/// Relies on gimli's `EntriesCursor::next_dfs`: the next entry in
/// depth-first order, cloned out of the cursor, or nothing once the unit
/// is exhausted.
#[verifier::external_body]
fn dw_next_dfs(d: &DwarfData, c: &mut EntryCursor<'_>) -> (r: Result<
    Option<EntryHandle>,
    DwarfError,
>)
    ensures
        r matches Ok(Some(e)) ==> cursor_entries(*d, *old(c)).len() > 0 && entry_view(*d, e)
            == cursor_entries(*d, *old(c)).first() && cursor_entries(*d, *final(c))
            == cursor_entries(*d, *old(c)).drop_first(),
        r matches Ok(None) ==> cursor_entries(*d, *old(c)).len() == 0,
        dwarf_walk_ok(*d) ==> r is Ok,
{
    match c.c.next_dfs() {
        Ok(Some(e)) => Ok(Some(EntryHandle { e: e.clone() })),
        Ok(None) => Ok(None),
        Err(_) => Err(DwarfError::LoadFailure),
    }
}

/// Relies on gimli's `DebuggingInformationEntry::tag`.
#[verifier::external_body]
fn dw_entry_tag(d: &DwarfData, e: &EntryHandle) -> (t: u64)
    ensures
        t == entry_view(*d, *e).tag,
{
    e.e.tag().0 as u64
}

/// Relies on gimli's `DebuggingInformationEntry::offset`.
#[verifier::external_body]
fn dw_entry_offset(d: &DwarfData, e: &EntryHandle) -> (o: u64)
    ensures
        o == entry_view(*d, *e).offset,
{
    e.e.offset().0 as u64
}

/// Relies on gimli's `DebuggingInformationEntry::attrs`: how many
/// attributes the entry carries.
#[verifier::external_body]
fn dw_entry_num_attrs(d: &DwarfData, e: &EntryHandle) -> (n: usize)
    ensures
        n == entry_view(*d, *e).attrs.len(),
{
    e.e.attrs().len()
}

/// Relies on gimli's `Attribute::name`: the code of attribute `i`.
#[verifier::external_body]
fn dw_attr_code(d: &DwarfData, e: &EntryHandle, i: usize) -> (r: Option<u64>)
    ensures
        i < entry_view(*d, *e).attrs.len() ==> r == Some(entry_view(*d, *e).attrs[i as int].at),
        i >= entry_view(*d, *e).attrs.len() ==> r is None,
{
    match e.e.attrs().get(i) {
        Some(a) => Some(a.name().0 as u64),
        None => None,
    }
}

/// Relies on gimli's `Attribute::udata_value`: the integer form of
/// attribute `i`'s value, where it has one.
#[verifier::external_body]
fn dw_attr_udata(d: &DwarfData, e: &EntryHandle, i: usize) -> (r: Option<u64>)
    ensures
        i < entry_view(*d, *e).attrs.len() ==> r == entry_view(*d, *e).attrs[i as int].udata,
{
    match e.e.attrs().get(i) {
        Some(a) => a.udata_value(),
        None => None,
    }
}

/// Relies on gimli's `Attribute::value` being `AttributeValue::UnitRef`:
/// the unit-local reference attribute `i` carries, where that is its form.
#[verifier::external_body]
fn dw_attr_uref(d: &DwarfData, e: &EntryHandle, i: usize) -> (r: Option<u64>)
    ensures
        i < entry_view(*d, *e).attrs.len() ==> r == entry_view(*d, *e).attrs[i as int].uref,
{
    match e.e.attrs().get(i) {
        Some(a) => match a.value() {
            gimli::AttributeValue::UnitRef(o) => Some(o.0 as u64),
            _ => None,
        },
        None => None,
    }
}

/// Relies on gimli's `Attribute::string_value` and
/// `Reader::to_string_lossy`: the string form of attribute `i`'s value,
/// resolved through the tree's string section where needed.
#[verifier::external_body]
fn dw_attr_str(d: &DwarfData, e: &EntryHandle, i: usize) -> (r: Result<Option<String>, DwarfError>)
    ensures
        r matches Ok(Some(s)) ==> i < entry_view(*d, *e).attrs.len() ==> entry_view(
            *d,
            *e,
        ).attrs[i as int].sval == Some(s@),
        r matches Ok(None) ==> i < entry_view(*d, *e).attrs.len() ==> entry_view(
            *d,
            *e,
        ).attrs[i as int].sval is None,
        dwarf_walk_ok(*d) ==> r is Ok,
{
    let a = match e.e.attrs().get(i) {
        Some(a) => a,
        None => return Ok(None),
    };
    match a.string_value(&d.d.debug_str) {
        Some(rdr) => match rdr.to_string_lossy() {
            Ok(cow) => Ok(Some(cow.into_owned())),
            Err(_) => Err(DwarfError::LoadFailure),
        },
        None => Ok(None),
    }
}

impl Parser {
    /// Index a loaded debug-information tree: walk every unit's entries in
    /// depth-first order into the parser's own model.  The registry starts
    /// empty; `load_structs` populates it.  On a tree whose full walk
    /// succeeds, the index is owed (the unit count always fits the machine:
    /// each unit occupies bytes of the mapped section).
    #[verifier::loop_isolation(false)]
    pub fn new(sections: DwarfData) -> (r: Result<Parser, DwarfError>)
        ensures
            r matches Ok(p) ==> p@.units == dwarf_units(sections) && p@.dict
                == Seq::<StructView>::empty(),
            dwarf_walk_ok(sections) && dwarf_units(sections).len() <= usize::MAX ==> r is Ok,
    {
        let ghost m = dwarf_units(sections);
        let mut units: Vec<UnitData> = Vec::new();
        let mut u: usize = 0;
        loop
            invariant
                u as int <= m.len(),
                units@.len() == u as int,
                units_view(units@) =~= m.take(u as int),
            decreases m.len() - u as int,
        {
            let unit = match dw_unit(&sections, u) {
                Ok(Some(un)) => un,
                Ok(None) => {
                    break;
                },
                Err(_) => {
                    return Err(DwarfError::LoadFailure);
                },
            };
            let ghost uv = unit_entries(sections, unit);
            let mut entries: Vec<Entry> = Vec::new();
            let mut cur = dw_cursor_root(&sections, &unit);
            loop
                invariant
                    entries@.len() <= uv.len(),
                    entries@.map_values(|en: Entry| en@) =~= uv.take(entries@.len() as int),
                    cursor_entries(sections, cur) == uv.skip(entries@.len() as int),
                decreases uv.len() - entries@.len(),
            {
                let ghost k = entries@.len() as int;
                let e = match dw_next_dfs(&sections, &mut cur) {
                    Ok(Some(e)) => e,
                    Ok(None) => {
                        proof {
                            assert(uv.skip(k).len() == 0);
                        }
                        break;
                    },
                    Err(_) => {
                        return Err(DwarfError::LoadFailure);
                    },
                };
                let ghost ev = entry_view(sections, e);
                proof {
                    assert(ev == uv.skip(k).first());
                    assert(ev == uv[k]);
                }
                let tag = dw_entry_tag(&sections, &e);
                let offset = dw_entry_offset(&sections, &e);
                let na = dw_entry_num_attrs(&sections, &e);
                let mut attrs: Vec<Attr> = Vec::new();
                let mut ai: usize = 0;
                while ai < na
                    invariant
                        ai <= na,
                        na == ev.attrs.len(),
                        ev == entry_view(sections, e),
                        attrs@.len() == ai as int,
                        attrs@.map_values(|a: Attr| a@) =~= ev.attrs.take(ai as int),
                    decreases na - ai,
                {
                    let at = match dw_attr_code(&sections, &e, ai) {
                        Some(c) => c,
                        None => {
                            return Err(DwarfError::LoadFailure);
                        },
                    };
                    let udata = dw_attr_udata(&sections, &e, ai);
                    let uref = dw_attr_uref(&sections, &e, ai);
                    let sval = match dw_attr_str(&sections, &e, ai) {
                        Ok(sv) => sv,
                        Err(_) => {
                            return Err(DwarfError::LoadFailure);
                        },
                    };
                    let a = Attr { at, udata, uref, sval };
                    proof {
                        assert(a@ =~= ev.attrs[ai as int]);
                        assert(attrs@.push(a).map_values(|x: Attr| x@) =~= ev.attrs.take(
                            ai as int + 1,
                        ));
                    }
                    attrs.push(a);
                    ai += 1;
                }
                let ent = Entry { offset, tag, attrs };
                proof {
                    assert(ent@ =~= ev);
                    assert(entries@.push(ent).map_values(|x: Entry| x@) =~= uv.take(k + 1));
                    assert(uv.skip(k).drop_first() =~= uv.skip(k + 1));
                }
                entries.push(ent);
            }
            proof {
                assert(entries@.len() == uv.len());
                assert(entries@.map_values(|en: Entry| en@) =~= uv);
            }
            let ud = UnitData { entries };
            proof {
                assert(ud@ == uv);
                assert(units@.push(ud).map_values(|x: UnitData| x@) =~= m.take(u as int + 1));
            }
            units.push(ud);
            if u == usize::MAX {
                return Err(DwarfError::LoadFailure);
            }
            u += 1;
        }
        let p = Parser { units, struct_dict: StructDict::new() };
        proof {
            assert(m.take(u as int) =~= m);
            assert(p@.units =~= m);
        }
        Ok(p)
    }
}

} // verus!
