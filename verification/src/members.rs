//! Enumeration of a structure's members.
//!
//! Each lookup restarts at the structure's location, steps past the
//! structure entry itself and then past the cursor index, and reads one
//! entry.  The first entry that is not a member ends the sequence for every
//! later index: member lists are a contiguous prefix of a structure's
//! children.  A member whose type fails to resolve keeps its place with no
//! type reference, so one unreadable member does not hide the others.

use vstd::prelude::*;
use crate::model::{
    AttrView, DwTypeMeta, DwarfError, idx_at, lemma_idx_at_props, unwrap0, DW_AT_BYTE_SIZE,
    DW_AT_NAME, DW_AT_TYPE, DW_TAG_MEMBER,
};
use crate::parser::{resolve_spec, Parser, ParserView};
use crate::types::{Struct, Type, TypeV};

verus! {

/// Mathematical image of a [`StructMember`].
#[verifier::ext_equal]
pub ghost struct MemberView {
    pub name: Option<Seq<char>>,
    pub size: u64,
    pub mb_type: Option<TypeV>,
    pub meta: DwTypeMeta,
}

/// One field of a structure.
pub struct StructMember {
    /// The member's name; absent on anonymous members.
    pub name: Option<String>,
    /// The member's byte size, zero when not carried.
    pub size: u64,
    /// The member's resolved type; absent when its type reference is
    /// missing or fails to resolve.
    pub mb_type: Option<Type>,
    /// Unused placeholder address.
    pub meta: DwTypeMeta,
}

impl View for StructMember {
    type V = MemberView;

    open spec fn view(&self) -> MemberView {
        MemberView {
            name: match self.name {
                Some(n) => Some(n@),
                None => None,
            },
            size: self.size,
            mb_type: match self.mb_type {
                Some(t) => Some(t@),
                None => None,
            },
            meta: self.meta,
        }
    }
}

/// A member before any attribute has been parsed.
pub open spec fn empty_member() -> MemberView {
    MemberView {
        name: None,
        size: 0,
        mb_type: None,
        meta: DwTypeMeta { offset: 0, header_idx: 0 },
    }
}

/// Fold of a member entry's attributes, in storage order: name and size
/// overwrite the accumulator; a type attribute carrying a unit-local
/// reference is resolved, and a failed resolution leaves no type reference.
pub open spec fn member_fold(
    pv: ParserView,
    hidx: usize,
    attrs: Seq<AttrView>,
    acc: MemberView,
) -> MemberView
    decreases attrs.len(),
{
    if attrs.len() == 0 {
        acc
    } else {
        let a = attrs.first();
        member_fold(
            pv,
            hidx,
            attrs.drop_first(),
            MemberView {
                name: if a.at == DW_AT_NAME {
                    a.sval
                } else {
                    acc.name
                },
                size: if a.at == DW_AT_BYTE_SIZE {
                    unwrap0(a.udata)
                } else {
                    acc.size
                },
                mb_type: if a.at == DW_AT_TYPE && a.uref is Some {
                    match resolve_spec(pv, hidx, a.uref->0) {
                        Ok(t) => Some(t),
                        Err(_) => None,
                    }
                } else {
                    acc.mb_type
                },
                meta: acc.meta,
            },
        )
    }
}

/// What looking member `idx` of the structure at `smeta` up yields: the
/// entry `idx` steps past the structure entry, parsed as a member if it is
/// one; anything else ends the sequence.
pub open spec fn member_at_spec(
    pv: ParserView,
    smeta: DwTypeMeta,
    idx: usize,
) -> Result<Option<MemberView>, DwarfError> {
    if smeta.header_idx >= pv.units.len() {
        Ok(None)
    } else {
        let unit = pv.units[smeta.header_idx as int];
        match idx_at(unit, smeta.offset) {
            None => Err(DwarfError::OutOfRange),
            Some(s) => {
                let j = s + 1 + idx;
                if j >= unit.len() {
                    Ok(None)
                } else if unit[j].tag != DW_TAG_MEMBER {
                    Ok(None)
                } else {
                    Ok(Some(member_fold(pv, smeta.header_idx, unit[j].attrs, empty_member())))
                }
            },
        }
    }
}

/// The image of a member lookup result.
pub open spec fn member_res_view(
    r: Result<Option<StructMember>, DwarfError>,
) -> Result<Option<MemberView>, DwarfError> {
    match r {
        Ok(Some(m)) => Ok(Some(m@)),
        Ok(None) => Ok(None),
        Err(e) => Err(e),
    }
}

/// The image of an optional member.
pub open spec fn opt_member_view(r: Option<StructMember>) -> Option<MemberView> {
    match r {
        Some(m) => Some(m@),
        None => None,
    }
}

impl StructMember {
    /// An empty member, before its attributes are parsed.
    pub(crate) fn new() -> (m: StructMember)
        ensures
            m@ == empty_member(),
    {
        StructMember {
            name: None,
            size: 0,
            mb_type: None,
            meta: DwTypeMeta { offset: 0, header_idx: 0 },
        }
    }
}

/// A cursor over the registered structures of a parser.
pub struct StructIter {
    /// The parser whose registry is walked.
    pub parser: Parser,
    /// How many entries have been yielded already.
    pub member_idx: usize,
}

/// A cursor over the members of one union-like structure.
pub struct StructUnionIter<'a> {
    /// The structure whose members are enumerated.
    pub dw_struct: &'a Struct,
    /// The parser the structure was registered by.
    pub parser: &'a Parser,
    /// How many members have been yielded already.
    pub member_idx: usize,
}

/// A cursor over the members of one structure.  Once a call of `next` has
/// ended the sequence, it has ended permanently: later children past the
/// first non-member are never yielded.
pub struct StructMemberIter<'a> {
    /// The structure whose members are enumerated.
    pub mb_struct: &'a Struct,
    /// The parser the structure was registered by.
    pub parser: &'a Parser,
    /// How many members have been yielded already.
    pub member_idx: usize,
    /// Whether the sequence has ended.
    pub finished: bool,
}

impl<'a> StructMemberIter<'a> {
    /// A fresh cursor over `mb_struct`'s members; a fresh cursor over the
    /// same structure reproduces the same sequence.
    pub fn new(mb_struct: &'a Struct, parser: &'a Parser) -> (it: StructMemberIter<'a>)
        ensures
            it.mb_struct == mb_struct,
            it.parser == parser,
            it.member_idx == 0,
            !it.finished,
    {
        StructMemberIter { mb_struct, parser, member_idx: 0, finished: false }
    }

    /// Look member `member_idx` up, without moving the cursor.
    #[verifier::loop_isolation(false)]
    pub fn get_member(&self, member_idx: usize) -> (r: Result<Option<StructMember>, DwarfError>)
        ensures
            member_res_view(r) == member_at_spec(
                self.parser@,
                self.mb_struct.meta,
                member_idx,
            ),
    {
        let smeta = self.mb_struct.meta;
        if smeta.header_idx >= self.parser.units.len() {
            return Ok(None);
        }
        let unit = &self.parser.units[smeta.header_idx];
        proof {
            assert(self.parser@.units[smeta.header_idx as int] == unit@);
        }
        let s = match Parser::find_at(unit, smeta.offset) {
            Some(s) => s,
            None => {
                return Err(DwarfError::OutOfRange);
            },
        };
        let n_entries = unit.entries.len();
        proof {
            lemma_idx_at_props(unit@, smeta.offset);
            assert(unit@.len() == unit.entries@.len());
            assert(s < n_entries);
        }
        if n_entries - s - 1 <= member_idx {
            return Ok(None);
        }
        let j = s + 1 + member_idx;
        let entry = &unit.entries[j];
        proof {
            assert(unit@[j as int] == entry@);
        }
        if entry.tag != DW_TAG_MEMBER {
            return Ok(None);
        }
        let mut member = StructMember::new();
        let ghost attrs_v = unit@[j as int].attrs;
        let na = entry.attrs.len();
        let mut k: usize = 0;
        proof {
            assert(attrs_v.skip(0) =~= attrs_v);
            assert(na == attrs_v.len());
        }
        while k < na
            invariant
                k <= na,
                member_fold(self.parser@, smeta.header_idx, attrs_v, empty_member())
                    == member_fold(
                    self.parser@,
                    smeta.header_idx,
                    attrs_v.skip(k as int),
                    member@,
                ),
            decreases na - k,
        {
            proof {
                assert(attrs_v.skip(k as int).first() == attrs_v[k as int]);
                assert(attrs_v.skip(k as int).drop_first() =~= attrs_v.skip(k as int + 1));
                assert(attrs_v[k as int] == entry.attrs@[k as int]@);
            }
            let a = &entry.attrs[k];
            if a.at == DW_AT_TYPE {
                match a.uref {
                    Some(o2) => {
                        member.mb_type = match self.parser.get_type_meta(smeta.header_idx, o2) {
                            Ok(t) => Some(t),
                            Err(_) => None,
                        };
                    },
                    None => {},
                }
            } else if a.at == DW_AT_NAME {
                member.name = match &a.sval {
                    Some(sv) => Some(sv.clone()),
                    None => None,
                };
            } else if a.at == DW_AT_BYTE_SIZE {
                member.size = match a.udata {
                    Some(v) => v,
                    None => 0,
                };
            }
            k += 1;
        }
        proof {
            assert(attrs_v.skip(na as int) =~= Seq::<AttrView>::empty());
        }
        Ok(Some(member))
    }

    /// Yield the member at the cursor and advance it.  The first non-member
    /// child, and any lookup failure, ends the sequence permanently: from
    /// then on every call yields nothing, even if later children are
    /// members.  The cursor index advances on every call, stopping only at
    /// the machine limit.
    pub fn next(&mut self) -> (r: Option<StructMember>)
        ensures
            final(self).mb_struct == old(self).mb_struct,
            final(self).parser == old(self).parser,
            final(self).member_idx == if old(self).member_idx == usize::MAX {
                usize::MAX
            } else {
                (old(self).member_idx + 1) as usize
            },
            old(self).finished ==> r is None,
            !old(self).finished ==> opt_member_view(r) == match member_at_spec(
                old(self).parser@,
                old(self).mb_struct.meta,
                old(self).member_idx,
            ) {
                Ok(m) => m,
                Err(_) => None::<MemberView>,
            },
            final(self).finished == (old(self).finished || r is None),
    {
        let res = if self.finished {
            None
        } else {
            match self.get_member(self.member_idx) {
                Ok(m) => m,
                Err(_) => None,
            }
        };
        if res.is_none() {
            self.finished = true;
        }
        if self.member_idx < usize::MAX {
            self.member_idx = self.member_idx + 1;
        }
        res
    }
}

} // verus!
