//! Plain-value model of the debug-information entry tree.
//!
//! A compilation unit is a flat sequence of entries in depth-first storage
//! order; every entry carries its tag, its offset inside the unit, and its
//! attributes reduced to the value forms the resolver reads.  All higher
//! layers (registry scan, type resolution, member enumeration) are defined
//! over this model.

use vstd::prelude::*;

verus! {

// DWARF tag codes handled by the resolver.
pub const DW_TAG_ARRAY_TYPE: u64 = 0x01;
pub const DW_TAG_ENUMERATION_TYPE: u64 = 0x04;
pub const DW_TAG_FORMAL_PARAMETER: u64 = 0x05;
pub const DW_TAG_MEMBER: u64 = 0x0d;
pub const DW_TAG_POINTER_TYPE: u64 = 0x0f;
pub const DW_TAG_STRUCTURE_TYPE: u64 = 0x13;
pub const DW_TAG_SUBROUTINE_TYPE: u64 = 0x15;
pub const DW_TAG_TYPEDEF: u64 = 0x16;
pub const DW_TAG_UNION_TYPE: u64 = 0x17;
pub const DW_TAG_SUBRANGE_TYPE: u64 = 0x21;
pub const DW_TAG_BASE_TYPE: u64 = 0x24;
pub const DW_TAG_CONST_TYPE: u64 = 0x26;

// DWARF attribute codes the scanners look for.
pub const DW_AT_NAME: u64 = 0x03;
pub const DW_AT_BYTE_SIZE: u64 = 0x0b;
pub const DW_AT_UPPER_BOUND: u64 = 0x2f;
pub const DW_AT_DECLARATION: u64 = 0x3c;
pub const DW_AT_TYPE: u64 = 0x49;

/// Errors surfaced by the registry scan and the type resolver.
#[derive(Clone, Copy, Debug, PartialEq, Eq, Structural)]
pub enum DwarfError {
    /// An attribute's form does not match expectation: a type reference
    /// that is not a unit-local location.
    MalformedEntry,
    /// An offset or unit index does not land on a valid entry.
    OutOfRange,
    /// The entry's tag is not in the resolver's handled set.
    UnrecognizedTag,
    /// The sibling of an array entry is not a subrange entry.
    TypeMismatch,
    /// The underlying debug sections could not be walked.
    LoadFailure,
}

/// Address of one entry: which unit it lives in, and its offset there.
#[derive(Clone, Copy, Debug, PartialEq, Eq, Structural)]
pub struct DwTypeMeta {
    /// Byte offset of the entry inside its compilation unit.
    pub offset: u64,
    /// Index of the compilation unit in scan order.
    pub header_idx: usize,
}

/// One attribute of an entry, reduced to the value forms the scanners read.
#[derive(Clone, Debug, PartialEq)]
pub struct Attr {
    /// Attribute code (a `DW_AT_*` value).
    pub at: u64,
    /// The value as an unsigned integer, where its form carries one.
    pub udata: Option<u64>,
    /// The value as a unit-local reference to another entry, where its form
    /// carries one.
    pub uref: Option<u64>,
    /// The value as a string, where its form carries one.
    pub sval: Option<String>,
}

/// Mathematical image of an [`Attr`].
#[verifier::ext_equal]
pub ghost struct AttrView {
    pub at: u64,
    pub udata: Option<u64>,
    pub uref: Option<u64>,
    pub sval: Option<Seq<char>>,
}

impl View for Attr {
    type V = AttrView;

    open spec fn view(&self) -> AttrView {
        AttrView {
            at: self.at,
            udata: self.udata,
            uref: self.uref,
            sval: match self.sval {
                Some(s) => Some(s@),
                None => None,
            },
        }
    }
}

/// One debug-information entry: a tag and an attribute list, at an offset.
#[derive(Clone, Debug, PartialEq)]
pub struct Entry {
    /// Byte offset of the entry inside its compilation unit.
    pub offset: u64,
    /// Entry kind (a `DW_TAG_*` value).
    pub tag: u64,
    /// The entry's attributes in storage order.
    pub attrs: Vec<Attr>,
}

/// Mathematical image of an [`Entry`].
#[verifier::ext_equal]
pub ghost struct EntryView {
    pub offset: u64,
    pub tag: u64,
    pub attrs: Seq<AttrView>,
}

impl View for Entry {
    type V = EntryView;

    open spec fn view(&self) -> EntryView {
        EntryView {
            offset: self.offset,
            tag: self.tag,
            attrs: self.attrs@.map_values(|a: Attr| a@),
        }
    }
}

/// One compilation unit: its entries in depth-first storage order.
#[derive(Clone, Debug, PartialEq)]
pub struct UnitData {
    /// The unit's entries in depth-first storage order.
    pub entries: Vec<Entry>,
}

impl View for UnitData {
    type V = Seq<EntryView>;

    open spec fn view(&self) -> Seq<EntryView> {
        self.entries@.map_values(|e: Entry| e@)
    }
}

/// The image of a whole sequence of units.
pub open spec fn units_view(us: Seq<UnitData>) -> Seq<Seq<EntryView>> {
    us.map_values(|u: UnitData| u@)
}

/// Index of the first entry of `unit` that starts at byte offset `off`, if
/// any.  Restarting a cursor at `off` yields the entries from that index on.
pub open spec fn idx_at(unit: Seq<EntryView>, off: u64) -> Option<int>
    decreases unit.len(),
{
    if unit.len() == 0 {
        None
    } else if unit.first().offset == off {
        Some(0int)
    } else {
        match idx_at(unit.drop_first(), off) {
            Some(i) => Some(i + 1),
            None => None,
        }
    }
}

/// What `idx_at` finds is in range and starts at the requested offset.
pub proof fn lemma_idx_at_props(unit: Seq<EntryView>, off: u64)
    ensures
        match idx_at(unit, off) {
            Some(i) => 0 <= i < unit.len() && unit[i].offset == off,
            None => forall|i: int| 0 <= i < unit.len() ==> unit[i].offset != off,
        },
    decreases unit.len(),
{
    if unit.len() != 0 && unit.first().offset != off {
        lemma_idx_at_props(unit.drop_first(), off);
        match idx_at(unit.drop_first(), off) {
            Some(i) => {
                assert(unit[i + 1] == unit.drop_first()[i]);
            },
            None => {
                assert forall|i: int| 0 <= i < unit.len() implies unit[i].offset != off by {
                    if i > 0 {
                        assert(unit[i] == unit.drop_first()[i - 1]);
                    }
                }
            },
        }
    }
}

/// Stepping the search past a non-matching head entry.
pub proof fn lemma_idx_at_step(unit: Seq<EntryView>, off: u64, i: int)
    requires
        0 <= i < unit.len(),
        unit[i].offset != off,
    ensures
        idx_at(unit.skip(i), off) == match idx_at(unit.skip(i + 1), off) {
            Some(j) => Some(j + 1),
            None => None::<int>,
        },
{
    assert(unit.skip(i).len() != 0);
    assert(unit.skip(i).first() == unit[i]);
    assert(unit.skip(i).drop_first() =~= unit.skip(i + 1));
}

/// The integer carried by an optional value, or zero.
pub open spec fn unwrap0(v: Option<u64>) -> u64 {
    match v {
        Some(x) => x,
        None => 0,
    }
}

/// Increment that stops at the largest representable count.
pub open spec fn sat_inc(x: u64) -> u64 {
    if x == u64::MAX {
        x
    } else {
        (x + 1) as u64
    }
}

/// Increment that wraps at the largest representable bound.
pub open spec fn wrap_inc(x: u64) -> u64 {
    if x == u64::MAX {
        0
    } else {
        (x + 1) as u64
    }
}

} // verus!
