//! Properties of the registry scan and the resolver, stated and proved
//! once and for all over the model.

use vstd::prelude::*;
use crate::model::{
    AttrView, DwTypeMeta, DwarfError, EntryView, idx_at, sat_inc, unwrap0, DW_AT_DECLARATION,
    DW_TAG_POINTER_TYPE, DW_TAG_STRUCTURE_TYPE,
};
use crate::parser::{
    first_type_attr, peel_spec, resolve_spec, scan_unit_entries, scan_units_from, step_entry,
    ParserView,
};
use crate::registry::{dict_idx, reg_step, scan_struct_attrs, ScanOut, StructView};
use crate::types::TypeV;

verus! {

// ---------------------------------------------------------------------
// The attribute scan: declaration flags against the early stop.
// ---------------------------------------------------------------------

/// A declaration flag reached before both name and byte size are captured
/// abandons the entry, whatever follows the flag.
pub proof fn lemma_declaration_before_completion_skips(
    pre: Seq<AttrView>,
    a: AttrView,
    rest: Seq<AttrView>,
    nm: Option<Seq<char>>,
    sz: Option<u64>,
)
    requires
        scan_struct_attrs(pre, nm, sz) matches ScanOut::Done { name, size } && !(name is Some
            && size is Some),
        a.at == DW_AT_DECLARATION,
    ensures
        scan_struct_attrs(pre + seq![a] + rest, nm, sz) is Declaration,
    decreases pre.len(),
{
    let whole = pre + seq![a] + rest;
    if nm is Some && sz is Some {
        assert(scan_struct_attrs(pre, nm, sz) == (ScanOut::Done { name: nm, size: sz }));
        assert(false);
    } else if pre.len() == 0 {
        assert(whole.first() == a);
        assert(scan_struct_attrs(whole, nm, sz) is Declaration);
    } else {
        assert(whole.len() != 0);
        assert(whole.first() == pre.first());
        assert(whole.first().at != DW_AT_DECLARATION) by {
            if pre.first().at == DW_AT_DECLARATION {
                assert(scan_struct_attrs(pre, nm, sz) is Declaration);
            }
        }
        let nm2 = if pre.first().at == crate::model::DW_AT_NAME {
            pre.first().sval
        } else {
            nm
        };
        let sz2 = if pre.first().at == crate::model::DW_AT_BYTE_SIZE {
            pre.first().udata
        } else {
            sz
        };
        assert(whole.drop_first() =~= pre.drop_first() + seq![a] + rest);
        lemma_declaration_before_completion_skips(pre.drop_first(), a, rest, nm2, sz2);
    }
}

/// Once both name and byte size are captured the scan has stopped: no
/// later attribute — a declaration flag among them — is seen.
pub proof fn lemma_early_stop_ignores_tail(
    pre: Seq<AttrView>,
    rest: Seq<AttrView>,
    nm: Option<Seq<char>>,
    sz: Option<u64>,
    n: Seq<char>,
    s: u64,
)
    requires
        scan_struct_attrs(pre, nm, sz) == (ScanOut::Done { name: Some(n), size: Some(s) }),
    ensures
        scan_struct_attrs(pre + rest, nm, sz) == (ScanOut::Done { name: Some(n), size: Some(s) }),
    decreases pre.len(),
{
    let whole = pre + rest;
    if nm is Some && sz is Some {
        assert(nm == Some(n) && sz == Some(s));
        assert(scan_struct_attrs(whole, nm, sz) == (ScanOut::Done {
            name: Some(n),
            size: Some(s),
        }));
    } else if pre.len() == 0 {
        assert(scan_struct_attrs(pre, nm, sz) == (ScanOut::Done { name: nm, size: sz }));
        assert(false);
    } else {
        assert(pre.first().at != DW_AT_DECLARATION) by {
            if pre.first().at == DW_AT_DECLARATION {
                assert(scan_struct_attrs(pre, nm, sz) is Declaration);
            }
        }
        assert(whole.len() != 0);
        assert(whole.first() == pre.first());
        let nm2 = if pre.first().at == crate::model::DW_AT_NAME {
            pre.first().sval
        } else {
            nm
        };
        let sz2 = if pre.first().at == crate::model::DW_AT_BYTE_SIZE {
            pre.first().udata
        } else {
            sz
        };
        assert(whole.drop_first() =~= pre.drop_first() + rest);
        lemma_early_stop_ignores_tail(pre.drop_first(), rest, nm2, sz2, n, s);
    }
}

/// An entry whose attribute scan reaches a declaration flag contributes
/// nothing to the registry.
pub proof fn lemma_declaration_entry_not_registered(
    d: Seq<StructView>,
    e: EntryView,
    meta: DwTypeMeta,
)
    requires
        scan_struct_attrs(e.attrs, None, None) is Declaration,
    ensures
        reg_step(d, e, meta) == d,
{
}

/// An entry whose scan captured both a name and a size — even one whose
/// declaration flag is stored after them and so was never seen — is
/// registered as a full definition.
pub proof fn lemma_complete_scan_registers(
    d: Seq<StructView>,
    e: EntryView,
    meta: DwTypeMeta,
    n: Seq<char>,
    s: u64,
)
    requires
        scan_struct_attrs(e.attrs, None, None) == (ScanOut::Done { name: Some(n), size: Some(s) }),
        dict_idx(d, n) is None,
    ensures
        reg_step(d, e, meta) == d.push(StructView { name: n, size: s, meta, refcnt: 0 }),
{
}

// ---------------------------------------------------------------------
// Characterizing the name lookup.
// ---------------------------------------------------------------------

/// A position that bears `name`, with none before it, is what `dict_idx`
/// finds.
pub proof fn lemma_dict_idx_of(d: Seq<StructView>, name: Seq<char>, i: int)
    requires
        0 <= i < d.len(),
        d[i].name == name,
        forall|j: int| 0 <= j < i ==> d[j].name != name,
    ensures
        dict_idx(d, name) == Some(i),
    decreases i,
{
    if i == 0 {
    } else {
        assert(d.first().name != name);
        assert forall|j: int| 0 <= j < i - 1 implies d.drop_first()[j].name != name by {
            assert(d.drop_first()[j] == d[j + 1]);
        }
        assert(d.drop_first()[i - 1] == d[i]);
        lemma_dict_idx_of(d.drop_first(), name, i - 1);
    }
}

// ---------------------------------------------------------------------
// Flattening the scan into a fold over the definitions it finds.
// ---------------------------------------------------------------------

/// What one entry defines: the name and size captured by its scan, where
/// the entry is a structure definition (not a declaration, and named).
pub open spec fn def_of(e: EntryView) -> Option<(Seq<char>, Option<u64>)> {
    if e.tag == DW_TAG_STRUCTURE_TYPE {
        match scan_struct_attrs(e.attrs, None, None) {
            ScanOut::Done { name: Some(n), size } => Some((n, size)),
            _ => None,
        }
    } else {
        None
    }
}

/// The structure definitions one unit contributes, in scan order, each
/// with its captured size and address.
pub open spec fn unit_defs(unit: Seq<EntryView>, hidx: usize) -> Seq<
    (Seq<char>, Option<u64>, DwTypeMeta),
>
    decreases unit.len(),
{
    if unit.len() == 0 {
        Seq::empty()
    } else {
        (match def_of(unit.first()) {
            Some((n, s)) => seq![
                (n, s, DwTypeMeta { offset: unit.first().offset, header_idx: hidx }),
            ],
            None => Seq::empty(),
        }) + unit_defs(unit.drop_first(), hidx)
    }
}

/// The structure definitions of all units from `from` on, in scan order.
pub open spec fn all_defs(units: Seq<Seq<EntryView>>, from: int) -> Seq<
    (Seq<char>, Option<u64>, DwTypeMeta),
>
    decreases units.len() - from,
{
    if from < 0 || from >= units.len() {
        Seq::empty()
    } else {
        unit_defs(units[from], from as usize) + all_defs(units, from + 1)
    }
}

/// How one definition changes the registry.
pub open spec fn apply_def(
    d: Seq<StructView>,
    def: (Seq<char>, Option<u64>, DwTypeMeta),
) -> Seq<StructView> {
    match dict_idx(d, def.0) {
        Some(i) => d.update(
            i,
            StructView {
                name: d[i].name,
                size: d[i].size,
                meta: d[i].meta,
                refcnt: sat_inc(d[i].refcnt),
            },
        ),
        None => d.push(StructView { name: def.0, size: unwrap0(def.1), meta: def.2, refcnt: 0 }),
    }
}

/// The registry fold over a flat list of definitions.
pub open spec fn reg_fold(
    d: Seq<StructView>,
    defs: Seq<(Seq<char>, Option<u64>, DwTypeMeta)>,
) -> Seq<StructView>
    decreases defs.len(),
{
    if defs.len() == 0 {
        d
    } else {
        reg_fold(apply_def(d, defs.first()), defs.drop_first())
    }
}

/// Folding a concatenation folds the parts in turn.
pub proof fn lemma_reg_fold_concat(
    d: Seq<StructView>,
    a: Seq<(Seq<char>, Option<u64>, DwTypeMeta)>,
    b: Seq<(Seq<char>, Option<u64>, DwTypeMeta)>,
)
    ensures
        reg_fold(d, a + b) == reg_fold(reg_fold(d, a), b),
    decreases a.len(),
{
    if a.len() == 0 {
        assert(a + b =~= b);
    } else {
        assert((a + b).len() != 0);
        assert((a + b).first() == a.first());
        assert((a + b).drop_first() =~= a.drop_first() + b);
        lemma_reg_fold_concat(apply_def(d, a.first()), a.drop_first(), b);
    }
}

/// One scan step is one fold step.
pub proof fn lemma_step_entry_is_apply(d: Seq<StructView>, e: EntryView, hidx: usize)
    ensures
        step_entry(d, e, hidx) == match def_of(e) {
            Some((n, s)) => apply_def(
                d,
                (n, s, DwTypeMeta { offset: e.offset, header_idx: hidx }),
            ),
            None => d,
        },
{
}

/// Scanning one unit folds its definition list.
pub proof fn lemma_scan_unit_is_fold(d: Seq<StructView>, unit: Seq<EntryView>, hidx: usize)
    ensures
        scan_unit_entries(d, unit, hidx) == reg_fold(d, unit_defs(unit, hidx)),
    decreases unit.len(),
{
    if unit.len() != 0 {
        let e = unit.first();
        let d2 = step_entry(d, e, hidx);
        lemma_step_entry_is_apply(d, e, hidx);
        lemma_scan_unit_is_fold(d2, unit.drop_first(), hidx);
        match def_of(e) {
            Some((n, s)) => {
                let def = (n, s, DwTypeMeta { offset: e.offset, header_idx: hidx });
                assert(unit_defs(unit, hidx) == seq![def] + unit_defs(unit.drop_first(), hidx));
                lemma_reg_fold_concat(d, seq![def], unit_defs(unit.drop_first(), hidx));
                assert(seq![def].len() == 1);
                assert(seq![def].first() == def);
                assert(seq![def].drop_first() =~= Seq::<
                    (Seq<char>, Option<u64>, DwTypeMeta),
                >::empty());
                assert(reg_fold(d, seq![def]) == reg_fold(
                    apply_def(d, def),
                    seq![def].drop_first(),
                ));
                assert(reg_fold(apply_def(d, def), seq![def].drop_first()) == apply_def(d, def));
                assert(reg_fold(d, seq![def]) == d2);
            },
            None => {
                assert(unit_defs(unit, hidx) =~= unit_defs(unit.drop_first(), hidx));
            },
        }
    }
}

/// Scanning all units folds the flat definition list.
pub proof fn lemma_scan_units_is_fold(
    d: Seq<StructView>,
    units: Seq<Seq<EntryView>>,
    from: int,
)
    ensures
        scan_units_from(d, units, from) == reg_fold(d, all_defs(units, from)),
    decreases units.len() - from,
{
    if 0 <= from < units.len() {
        let d2 = scan_unit_entries(d, units[from], from as usize);
        lemma_scan_unit_is_fold(d, units[from], from as usize);
        lemma_scan_units_is_fold(d2, units, from + 1);
        lemma_reg_fold_concat(d, unit_defs(units[from], from as usize), all_defs(units, from + 1));
    }
}

// ---------------------------------------------------------------------
// What the fold guarantees: first definition wins, later ones count.
// ---------------------------------------------------------------------

/// How many definitions in `defs` bear `name`.
pub open spec fn count_name(
    defs: Seq<(Seq<char>, Option<u64>, DwTypeMeta)>,
    name: Seq<char>,
) -> int
    decreases defs.len(),
{
    if defs.len() == 0 {
        0
    } else {
        (if defs.first().0 == name {
            1int
        } else {
            0int
        }) + count_name(defs.drop_first(), name)
    }
}

/// The first definition in `defs` bearing `name`.
pub open spec fn first_def(
    defs: Seq<(Seq<char>, Option<u64>, DwTypeMeta)>,
    name: Seq<char>,
) -> (Seq<char>, Option<u64>, DwTypeMeta)
    decreases defs.len(),
{
    if defs.len() == 0 {
        (name, None, DwTypeMeta { offset: 0, header_idx: 0 })
    } else if defs.first().0 == name {
        defs.first()
    } else {
        first_def(defs.drop_first(), name)
    }
}

/// The registry fold, for one name: an entry already registered keeps its
/// place, name, size and address, and its redefinition count never shrinks
/// and is positive once any further definition of the name is folded in;
/// a name not yet registered enters with the first definition bearing it,
/// keeping that definition's size and address, and counts the rest.
pub proof fn lemma_reg_fold_props(
    d: Seq<StructView>,
    defs: Seq<(Seq<char>, Option<u64>, DwTypeMeta)>,
    name: Seq<char>,
)
    ensures
        dict_idx(d, name) matches Some(i) ==> {
            let r = reg_fold(d, defs);
            &&& dict_idx(r, name) == Some(i)
            &&& r[i].name == d[i].name
            &&& r[i].meta == d[i].meta
            &&& r[i].size == d[i].size
            &&& r[i].refcnt >= d[i].refcnt
            &&& count_name(defs, name) >= 1 ==> r[i].refcnt >= 1
        },
        dict_idx(d, name) is None && count_name(defs, name) >= 1 ==> {
            let r = reg_fold(d, defs);
            let fd = first_def(defs, name);
            &&& dict_idx(r, name) matches Some(j) && r[j].name == name && r[j].meta == fd.2
                && r[j].size == unwrap0(fd.1) && (count_name(defs, name) >= 2 ==> r[j].refcnt
                >= 1)
        },
        dict_idx(d, name) is None && count_name(defs, name) == 0 ==> dict_idx(
            reg_fold(d, defs),
            name,
        ) is None,
    decreases defs.len(),
{
    crate::registry::lemma_dict_idx_props(d, name);
    if defs.len() == 0 {
    } else {
        let def = defs.first();
        let d2 = apply_def(d, def);
        crate::registry::lemma_dict_idx_props(d, def.0);
        lemma_count_nonneg(defs.drop_first(), name);
        lemma_reg_fold_props(d2, defs.drop_first(), name);
        crate::registry::lemma_dict_idx_props(d2, name);
        match dict_idx(d, name) {
            Some(i) => {
                // the entry at i survives this step untouched or counted up
                assert(d2.len() == d.len() || d2.len() == d.len() + 1);
                assert(d2[i].name == name);
                assert forall|j: int| 0 <= j < i implies d2[j].name != name by {
                    assert(d[j].name != name);
                }
                lemma_dict_idx_of(d2, name, i);
                if def.0 == name {
                    assert(dict_idx(d, def.0) == Some(i));
                    assert(d2[i].refcnt == sat_inc(d[i].refcnt));
                    assert(d2[i].refcnt >= 1);
                }
            },
            None => {
                if def.0 == name {
                    // first definition of the name enters here
                    let j = d.len() as int;
                    assert(d2 == d.push(
                        StructView { name: def.0, size: unwrap0(def.1), meta: def.2, refcnt: 0 },
                    ));
                    assert(d2[j].name == name);
                    assert forall|k: int| 0 <= k < j implies d2[k].name != name by {
                        assert(d2[k] == d[k]);
                    }
                    lemma_dict_idx_of(d2, name, j);
                    assert(first_def(defs, name) == def);
                    assert(count_name(defs.drop_first(), name) == count_name(defs, name) - 1);
                } else {
                    // the step concerns another name; ours stays absent
                    assert forall|k: int| 0 <= k < d2.len() implies d2[k].name != name by {
                        if k < d.len() {
                            assert(d2[k].name == d[k].name);
                        }
                    }
                    assert(dict_idx(d2, name) is None) by {
                        crate::registry::lemma_dict_idx_props(d2, name);
                        if dict_idx(d2, name) is Some {
                            let x = dict_idx(d2, name)->0;
                            assert(d2[x].name == name);
                        }
                    }
                    assert(count_name(defs.drop_first(), name) == count_name(defs, name));
                    assert(first_def(defs.drop_first(), name) == first_def(defs, name));
                }
            },
        }
    }
}

/// Registered names only gain redefinition counts from a further scan:
/// the sequence of names, in registration order, stays as it is.
pub proof fn lemma_refold_keeps_names(
    d: Seq<StructView>,
    defs: Seq<(Seq<char>, Option<u64>, DwTypeMeta)>,
)
    requires
        forall|k: int| 0 <= k < defs.len() ==> dict_idx(d, #[trigger] defs[k].0) is Some,
    ensures
        reg_fold(d, defs).len() == d.len(),
        forall|i: int| 0 <= i < d.len() ==> #[trigger] reg_fold(d, defs)[i].name == d[i].name,
    decreases defs.len(),
{
    if defs.len() != 0 {
        let def = defs.first();
        assert(dict_idx(d, def.0) is Some);
        crate::registry::lemma_dict_idx_props(d, def.0);
        let d2 = apply_def(d, def);
        assert(d2.len() == d.len());
        assert forall|i: int| 0 <= i < d.len() implies d2[i].name == d[i].name by {}
        assert forall|k: int| 0 <= k < defs.drop_first().len() implies dict_idx(
            d2,
            #[trigger] defs.drop_first()[k].0,
        ) is Some by {
            assert(defs.drop_first()[k] == defs[k + 1]);
            assert(dict_idx(d, defs[k + 1].0) is Some);
            crate::registry::lemma_dict_idx_props(d, defs[k + 1].0);
            let x = dict_idx(d, defs[k + 1].0)->0;
            assert(d2[x].name == defs[k + 1].0);
            assert forall|j: int| 0 <= j < x implies d2[j].name != defs[k + 1].0 by {
                assert(d2[j].name == d[j].name);
            }
            lemma_dict_idx_of(d2, defs[k + 1].0, x);
        }
        lemma_refold_keeps_names(d2, defs.drop_first());
    }
}

/// For definitions with pairwise-distinct names, none yet registered, the
/// fold registers each exactly once.
pub proof fn lemma_distinct_defs_count(
    d: Seq<StructView>,
    defs: Seq<(Seq<char>, Option<u64>, DwTypeMeta)>,
)
    requires
        forall|i: int, j: int| 0 <= i < j < defs.len() ==> defs[i].0 != defs[j].0,
        forall|k: int| 0 <= k < defs.len() ==> dict_idx(d, #[trigger] defs[k].0) is None,
    ensures
        reg_fold(d, defs).len() == d.len() + defs.len(),
    decreases defs.len(),
{
    if defs.len() != 0 {
        let def = defs.first();
        assert(dict_idx(d, def.0) is None);
        let d2 = apply_def(d, def);
        assert(d2 == d.push(
            StructView { name: def.0, size: unwrap0(def.1), meta: def.2, refcnt: 0 },
        ));
        crate::registry::lemma_dict_idx_props(d, def.0);
        assert forall|k: int| 0 <= k < defs.drop_first().len() implies dict_idx(
            d2,
            #[trigger] defs.drop_first()[k].0,
        ) is None by {
            assert(defs.drop_first()[k] == defs[k + 1]);
            crate::registry::lemma_dict_idx_props(d, defs[k + 1].0);
            assert(defs[k + 1].0 != def.0);
            assert forall|x: int| 0 <= x < d2.len() implies d2[x].name != defs[k + 1].0 by {
                if x < d.len() {
                    assert(d2[x] == d[x]);
                }
            }
            crate::registry::lemma_dict_idx_props(d2, defs[k + 1].0);
            if dict_idx(d2, defs[k + 1].0) is Some {
                let y = dict_idx(d2, defs[k + 1].0)->0;
                assert(d2[y].name == defs[k + 1].0);
            }
        }
        assert forall|i: int, j: int|
            0 <= i < j < defs.drop_first().len() implies defs.drop_first()[i].0
            != defs.drop_first()[j].0 by {
            assert(defs.drop_first()[i] == defs[i + 1]);
            assert(defs.drop_first()[j] == defs[j + 1]);
        }
        lemma_distinct_defs_count(d2, defs.drop_first());
    }
}

// ---------------------------------------------------------------------
// The laws over a whole scan.
// ---------------------------------------------------------------------

/// A scan of units whose structure definitions bear pairwise-distinct
/// names registers exactly one entry per definition.
pub proof fn lemma_scan_counts_distinct_defs(units: Seq<Seq<EntryView>>)
    requires
        forall|i: int, j: int|
            0 <= i < j < all_defs(units, 0).len() ==> all_defs(units, 0)[i].0 != all_defs(
                units,
                0,
            )[j].0,
    ensures
        scan_units_from(Seq::empty(), units, 0).len() == all_defs(units, 0).len(),
{
    lemma_scan_units_is_fold(Seq::empty(), units, 0);
    assert forall|k: int| 0 <= k < all_defs(units, 0).len() implies dict_idx(
        Seq::empty(),
        #[trigger] all_defs(units, 0)[k].0,
    ) is None by {}
    lemma_distinct_defs_count(Seq::empty(), all_defs(units, 0));
}

/// Scanning the same units again adds no entry and keeps the registered
/// names in their order; only redefinition counts move.
pub proof fn lemma_rescan_keeps_names(units: Seq<Seq<EntryView>>)
    ensures
        scan_units_from(scan_units_from(Seq::empty(), units, 0), units, 0).len()
            == scan_units_from(Seq::empty(), units, 0).len(),
        forall|i: int|
            0 <= i < scan_units_from(Seq::empty(), units, 0).len()
                ==> #[trigger] scan_units_from(
                scan_units_from(Seq::empty(), units, 0),
                units,
                0,
            )[i].name == scan_units_from(Seq::empty(), units, 0)[i].name,
{
    let d0 = scan_units_from(Seq::empty(), units, 0);
    let defs = all_defs(units, 0);
    lemma_scan_units_is_fold(Seq::empty(), units, 0);
    lemma_scan_units_is_fold(d0, units, 0);
    assert forall|k: int| 0 <= k < defs.len() implies dict_idx(
        d0,
        #[trigger] defs[k].0,
    ) is Some by {
        lemma_count_first_def(defs, k);
        lemma_reg_fold_props(Seq::empty(), defs, defs[k].0);
    }
    lemma_refold_keeps_names(d0, defs);
}

/// A definition at index `k` makes the count of its name positive.
pub proof fn lemma_count_first_def(defs: Seq<(Seq<char>, Option<u64>, DwTypeMeta)>, k: int)
    requires
        0 <= k < defs.len(),
    ensures
        count_name(defs, defs[k].0) >= 1,
    decreases defs.len(),
{
    if defs.len() != 0 {
        if defs.first().0 == defs[k].0 {
            lemma_count_nonneg(defs.drop_first(), defs[k].0);
        } else {
            assert(k != 0);
            assert(defs.drop_first()[k - 1] == defs[k]);
            lemma_count_first_def(defs.drop_first(), k - 1);
        }
    }
}

/// A count of definitions is never negative.
pub proof fn lemma_count_nonneg(defs: Seq<(Seq<char>, Option<u64>, DwTypeMeta)>, name: Seq<char>)
    ensures
        count_name(defs, name) >= 0,
    decreases defs.len(),
{
    if defs.len() != 0 {
        lemma_count_nonneg(defs.drop_first(), name);
    }
}

/// A name defined at least twice across the scanned units yields one
/// registry entry, addressed at the first definition in scan order, with
/// a positive redefinition count.
pub proof fn lemma_redefined_struct_once(units: Seq<Seq<EntryView>>, name: Seq<char>)
    requires
        count_name(all_defs(units, 0), name) >= 2,
    ensures
        ({
            let r = scan_units_from(Seq::empty(), units, 0);
            let fd = first_def(all_defs(units, 0), name);
            &&& dict_idx(r, name) matches Some(j) && r[j].name == name && r[j].meta == fd.2
                && r[j].size == unwrap0(fd.1) && r[j].refcnt >= 1
        }),
{
    lemma_scan_units_is_fold(Seq::empty(), units, 0);
    lemma_reg_fold_props(Seq::empty(), all_defs(units, 0), name);
}

// ---------------------------------------------------------------------
// Peeling a pointer without a referenced type.
// ---------------------------------------------------------------------

/// A pointer entry with no type attribute resolves to a pointer whose
/// peel is "no inner type" — an answer, not an error.
pub proof fn lemma_pointer_without_ref_peels_to_none(pv: ParserView, hidx: usize, off: u64)
    requires
        hidx < pv.units.len(),
        idx_at(pv.units[hidx as int], off) is Some,
        pv.units[hidx as int][idx_at(pv.units[hidx as int], off)->0].tag
            == DW_TAG_POINTER_TYPE,
        first_type_attr(pv.units[hidx as int][idx_at(pv.units[hidx as int], off)->0].attrs)
            is None,
    ensures
        resolve_spec(pv, hidx, off) == Ok::<TypeV, DwarfError>(
            TypeV::Pointer { size: 8, meta: DwTypeMeta { offset: off, header_idx: hidx } },
        ),
        peel_spec(
            pv,
            TypeV::Pointer { size: 8, meta: DwTypeMeta { offset: off, header_idx: hidx } },
        ) == Ok::<Option<TypeV>, DwarfError>(None),
{
}

} // verus!
