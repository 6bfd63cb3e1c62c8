//! The registry of named structure definitions.
//!
//! The registry is populated by one scan over every unit's entries.  A
//! structure entry's attributes are read in storage order: a declaration
//! flag abandons the entry, and the scan stops early once both a name and a
//! byte size have been captured — so a declaration flag stored after both is
//! not seen, and such an entry is registered as a full definition.

use vstd::prelude::*;
use crate::model::{
    Attr, AttrView, DwTypeMeta, Entry, EntryView, sat_inc, unwrap0, DW_AT_BYTE_SIZE, DW_AT_DECLARATION,
    DW_AT_NAME,
};
use crate::types::Struct;

verus! {

/// Mathematical image of a registry [`Struct`] entry.
#[verifier::ext_equal]
pub ghost struct StructView {
    pub name: Seq<char>,
    pub size: u64,
    pub meta: DwTypeMeta,
    pub refcnt: u64,
}

impl View for Struct {
    type V = StructView;

    open spec fn view(&self) -> StructView {
        StructView { name: self.name@, size: self.size, meta: self.meta, refcnt: self.refcnt }
    }
}

/// Outcome of scanning one structure entry's attributes.
#[verifier::ext_equal]
pub ghost enum ScanOut {
    /// A declaration flag was reached: the entry is a forward declaration.
    Declaration,
    /// The scan ran to its stopping point with these captures.
    Done { name: Option<Seq<char>>, size: Option<u64> },
}

/// The attribute scan of one structure entry, from accumulators `nm` and
/// `sz`: stops early once both are captured, abandons the entry on a
/// declaration flag reached before that.
pub open spec fn scan_struct_attrs(
    attrs: Seq<AttrView>,
    nm: Option<Seq<char>>,
    sz: Option<u64>,
) -> ScanOut
    decreases attrs.len(),
{
    if nm is Some && sz is Some {
        ScanOut::Done { name: nm, size: sz }
    } else if attrs.len() == 0 {
        ScanOut::Done { name: nm, size: sz }
    } else if attrs.first().at == DW_AT_DECLARATION {
        ScanOut::Declaration
    } else {
        scan_struct_attrs(
            attrs.drop_first(),
            if attrs.first().at == DW_AT_NAME {
                attrs.first().sval
            } else {
                nm
            },
            if attrs.first().at == DW_AT_BYTE_SIZE {
                attrs.first().udata
            } else {
                sz
            },
        )
    }
}

/// Index of the first registry entry bearing `name`, if any.
pub open spec fn dict_idx(d: Seq<StructView>, name: Seq<char>) -> Option<int>
    decreases d.len(),
{
    if d.len() == 0 {
        None
    } else if d.first().name == name {
        Some(0int)
    } else {
        match dict_idx(d.drop_first(), name) {
            Some(i) => Some(i + 1),
            None => None,
        }
    }
}

/// What `dict_idx` finds is in range, bears the name, and is the first to.
pub proof fn lemma_dict_idx_props(d: Seq<StructView>, name: Seq<char>)
    ensures
        match dict_idx(d, name) {
            Some(i) => 0 <= i < d.len() && d[i].name == name && forall|j: int|
                0 <= j < i ==> d[j].name != name,
            None => forall|i: int| 0 <= i < d.len() ==> d[i].name != name,
        },
    decreases d.len(),
{
    if d.len() != 0 && d.first().name != name {
        lemma_dict_idx_props(d.drop_first(), name);
        match dict_idx(d.drop_first(), name) {
            Some(i) => {
                assert(d[i + 1] == d.drop_first()[i]);
                assert forall|j: int| 0 <= j < i + 1 implies d[j].name != name by {
                    if j > 0 {
                        assert(d[j] == d.drop_first()[j - 1]);
                    }
                }
            },
            None => {
                assert forall|i: int| 0 <= i < d.len() implies d[i].name != name by {
                    if i > 0 {
                        assert(d[i] == d.drop_first()[i - 1]);
                    }
                }
            },
        }
    }
}

/// Stepping the name search past a non-matching entry.
pub proof fn lemma_dict_idx_step(d: Seq<StructView>, name: Seq<char>, i: int)
    requires
        0 <= i < d.len(),
        d[i].name != name,
    ensures
        dict_idx(d.skip(i), name) == match dict_idx(d.skip(i + 1), name) {
            Some(j) => Some(j + 1),
            None => None::<int>,
        },
{
    assert(d.skip(i).len() != 0);
    assert(d.skip(i).first() == d[i]);
    assert(d.skip(i).drop_first() =~= d.skip(i + 1));
}

/// How one entry changes the registry: a declaration or a nameless entry
/// contributes nothing; a known name has its redefinition count bumped; a
/// new name is appended with the captured size (zero when absent) and the
/// entry's address.
pub open spec fn reg_step(d: Seq<StructView>, e: EntryView, meta: DwTypeMeta) -> Seq<StructView> {
    match scan_struct_attrs(e.attrs, None, None) {
        ScanOut::Declaration => d,
        ScanOut::Done { name: None, .. } => d,
        ScanOut::Done { name: Some(n), size } => match dict_idx(d, n) {
            Some(i) => d.update(
                i,
                StructView {
                    name: d[i].name,
                    size: d[i].size,
                    meta: d[i].meta,
                    refcnt: sat_inc(d[i].refcnt),
                },
            ),
            None => d.push(
                StructView { name: n, size: unwrap0(size), meta, refcnt: 0 },
            ),
        },
    }
}

/// The registry that maps structure names to their first full definition.
#[derive(Clone, Debug)]
pub struct StructDict {
    /// The entries, in order of first registration.
    pub items: Vec<Struct>,
}

impl View for StructDict {
    type V = Seq<StructView>;

    open spec fn view(&self) -> Seq<StructView> {
        self.items@.map_values(|s: Struct| s@)
    }
}

impl StructDict {
    /// An empty registry.
    pub fn new() -> (d: StructDict)
        ensures
            d@ == Seq::<StructView>::empty(),
    {
        let d = StructDict { items: Vec::new() };
        proof {
            assert(d@ =~= Seq::<StructView>::empty());
        }
        d
    }

    /// Number of registered names.
    pub fn len(&self) -> (n: usize)
        ensures
            n == self@.len(),
    {
        self.items.len()
    }

    /// The entry at a registration index.
    pub fn item(&self, i: usize) -> (s: &Struct)
        requires
            i < self@.len(),
        ensures
            s@ == self@[i as int],
    {
        &self.items[i]
    }

    /// Look a name up; yields the first entry registered under it.
    pub fn get(&self, name: &String) -> (r: Option<&Struct>)
        ensures
            match dict_idx(self@, name@) {
                Some(i) => r matches Some(s) && s@ == self@[i],
                None => r is None,
            },
    {
        let n = self.items.len();
        let mut j: usize = 0;
        proof {
            assert(self@.skip(0) =~= self@);
        }
        while j < n
            invariant
                n == self@.len(),
                j <= n,
                dict_idx(self@, name@) == match dict_idx(self@.skip(j as int), name@) {
                    Some(k) => Some(k + j),
                    None => None::<int>,
                },
            decreases n - j,
        {
            if self.items[j].name.eq(name) {
                assert(self@.skip(j as int).first() == self@[j as int]);
                return Some(&self.items[j]);
            }
            proof {
                lemma_dict_idx_step(self@, name@, j as int);
            }
            j += 1;
        }
        proof {
            assert(self@.skip(n as int) =~= Seq::<StructView>::empty());
        }
        None
    }

    /// Scan one entry's attributes and insert-or-increment, as `reg_step`
    /// says.
    pub(crate) fn register(&mut self, header_idx: usize, entry: &Entry)
        ensures
            final(self)@ == reg_step(
                old(self)@,
                entry@,
                DwTypeMeta { offset: entry.offset, header_idx },
            ),
    {
        let ghost attrs_v = entry@.attrs;
        let n = entry.attrs.len();
        let mut name: Option<String> = None;
        let mut size: Option<u64> = None;
        let mut i: usize = 0;
        proof {
            assert(attrs_v.skip(0) =~= attrs_v);
        }
        loop
            invariant_except_break
                !(name is Some && size is Some),
            invariant
                n == entry.attrs.len(),
                attrs_v == entry@.attrs,
                i <= n,
                n == attrs_v.len(),
                scan_struct_attrs(attrs_v, None, None) == scan_struct_attrs(
                    attrs_v.skip(i as int),
                    opt_str_view(name),
                    size,
                ),
            ensures
                scan_struct_attrs(attrs_v, None, None) == (ScanOut::Done {
                    name: opt_str_view(name),
                    size: size,
                }),
            decreases n - i,
        {
            if i >= n {
                proof {
                    assert(attrs_v.skip(i as int) =~= Seq::<AttrView>::empty());
                }
                break;
            }
            proof {
                assert(attrs_v.skip(i as int).first() == attrs_v[i as int]);
                assert(attrs_v[i as int] == entry.attrs@.map_values(|a: Attr| a@)[i as int]);
                assert(attrs_v.skip(i as int).drop_first() =~= attrs_v.skip(i as int + 1));
            }
            let a = &entry.attrs[i];
            if a.at == DW_AT_DECLARATION {
                return;
            }
            if a.at == DW_AT_NAME {
                name = match &a.sval {
                    Some(s) => Some(s.clone()),
                    None => None,
                };
            }
            if a.at == DW_AT_BYTE_SIZE {
                size = a.udata;
            }
            i += 1;
            if name.is_some() && size.is_some() {
                break;
            }
        }
        let nm = match name {
            Some(nm) => nm,
            None => {
                return;
            },
        };
        let found = self.find_index(&nm);
        proof {
            lemma_dict_idx_props(self@, nm@);
            assert(scan_struct_attrs(entry@.attrs, None, None) == (ScanOut::Done {
                name: Some(nm@),
                size: size,
            }));
        }
        match found {
            Some(j) => {
                let c = self.items[j].refcnt;
                let c2 = if c == u64::MAX {
                    c
                } else {
                    c + 1
                };
                let elem = &mut self.items[j];
                elem.refcnt = c2;
                proof {
                    assert(self@ =~= reg_step(
                        old(self)@,
                        entry@,
                        DwTypeMeta { offset: entry.offset, header_idx },
                    ));
                }
            },
            None => {
                let sz = match size {
                    Some(s) => s,
                    None => 0,
                };
                self.items.push(
                    Struct {
                        name: nm,
                        size: sz,
                        meta: DwTypeMeta { offset: entry.offset, header_idx },
                        refcnt: 0,
                    },
                );
                proof {
                    assert(self@ =~= reg_step(
                        old(self)@,
                        entry@,
                        DwTypeMeta { offset: entry.offset, header_idx },
                    ));
                }
            },
        }
    }

    /// Index of the first entry bearing `name`, if any.
    fn find_index(&self, name: &String) -> (r: Option<usize>)
        ensures
            match r {
                Some(j) => dict_idx(self@, name@) == Some(j as int),
                None => dict_idx(self@, name@) is None,
            },
    {
        let n = self.items.len();
        let mut j: usize = 0;
        proof {
            assert(self@.skip(0) =~= self@);
        }
        while j < n
            invariant
                n == self@.len(),
                j <= n,
                dict_idx(self@, name@) == match dict_idx(self@.skip(j as int), name@) {
                    Some(k) => Some(k + j),
                    None => None::<int>,
                },
            decreases n - j,
        {
            if self.items[j].name.eq(name) {
                assert(self@.skip(j as int).first() == self@[j as int]);
                return Some(j);
            }
            proof {
                lemma_dict_idx_step(self@, name@, j as int);
            }
            j += 1;
        }
        proof {
            assert(self@.skip(n as int) =~= Seq::<StructView>::empty());
        }
        None
    }
}

/// The image of an optional owned string.
pub open spec fn opt_str_view(s: Option<String>) -> Option<Seq<char>> {
    match s {
        Some(s) => Some(s@),
        None => None,
    }
}

} // verus!
