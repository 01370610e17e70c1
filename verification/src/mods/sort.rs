use vstd::prelude::*;
use vstd::seq_lib::{to_multiset_build, to_multiset_insert};
use crate::order::{str_lt, str_lt_spec, lemma_str_lt_irreflexive, lemma_str_lt_transitive};
use super::types::{ModId, ModConfig, ModListEntry, EntryView, entry_views, entry_name};

verus! {

/// The band of the mod list an entry falls in: mods the user installed
/// first, then local jars, then mods pulled in as dependencies.
pub open spec fn band(e: EntryView) -> int {
    match e {
        EntryView::Downloaded { manual, .. } => if manual { 0 } else { 2 },
        EntryView::Local { .. } => 1,
    }
}

/// The order of the mod list: by band, then by name.
pub open spec fn entry_lt(a: EntryView, b: EntryView) -> bool {
    band(a) < band(b) || (band(a) == band(b) && str_lt_spec(entry_name(a), entry_name(b)))
}

/// No entry comes after one it should precede.
pub open spec fn sorted_entries(s: Seq<EntryView>) -> bool {
    forall|i: int, j: int| 0 <= i < j < s.len() ==> !entry_lt(#[trigger] s[j], #[trigger] s[i])
}

/// The entries of the downloaded mods, in the given order.
pub open spec fn downloaded_views(d: Seq<(ModId, ModConfig)>) -> Seq<EntryView> {
    Seq::new(
        d.len(),
        |i: int| EntryView::Downloaded {
            id: d[i].0@,
            name: d[i].1.name@,
            manual: d[i].1.manually_installed,
            enabled: d[i].1.enabled,
        },
    )
}

/// The entries of the local jars, in the given order.
pub open spec fn local_views(l: Seq<String>) -> Seq<EntryView> {
    Seq::new(l.len(), |i: int| EntryView::Local { file_name: l[i]@ })
}

proof fn lemma_entry_lt_irreflexive(a: EntryView)
    ensures
        !entry_lt(a, a),
{
    lemma_str_lt_irreflexive(entry_name(a));
}

proof fn lemma_entry_lt_transitive(a: EntryView, b: EntryView, c: EntryView)
    requires
        entry_lt(a, b),
        entry_lt(b, c),
    ensures
        entry_lt(a, c),
{
    if band(a) == band(b) && band(b) == band(c) {
        lemma_str_lt_transitive(entry_name(a), entry_name(b), entry_name(c));
    }
}

fn band_of(e: &ModListEntry) -> (r: u8)
    ensures
        r == band(e@),
{
    match e {
        ModListEntry::Downloaded { config, .. } => if config.manually_installed { 0 } else { 2 },
        ModListEntry::Local { .. } => 1,
    }
}

/// Whether `a` goes before `b` in the mod list.
fn entry_less(a: &ModListEntry, b: &ModListEntry) -> (r: bool)
    ensures
        r == entry_lt(a@, b@),
{
    let ba = band_of(a);
    let bb = band_of(b);
    if ba != bb {
        ba < bb
    } else {
        str_lt(a.name(), b.name())
    }
}

/// Inserts an entry after every entry it does not precede.
fn insert_sorted(out: &mut Vec<ModListEntry>, e: ModListEntry)
    requires
        sorted_entries(entry_views(old(out)@)),
    ensures
        sorted_entries(entry_views(final(out)@)),
        entry_views(final(out)@).to_multiset() == entry_views(old(out)@).to_multiset().insert(e@),
{
    let ghost s = entry_views(out@);
    let mut p: usize = 0;
    while p < out.len() && !entry_less(&e, &out[p])
        invariant
            0 <= p <= out.len(),
            s == entry_views(out@),
            forall|k: int| 0 <= k < p ==> !entry_lt(e@, #[trigger] s[k]),
        decreases out.len() - p,
    {
        p += 1;
    }
    let ghost ev = e@;
    proof {
        assert(p < s.len() ==> entry_lt(ev, s[p as int]));
    }
    out.insert(p, e);
    proof {
        let t = entry_views(out@);
        assert(t =~= s.insert(p as int, ev));
        to_multiset_insert(s, p as int, ev);
        assert forall|i: int, j: int| 0 <= i < j < t.len() implies !entry_lt(#[trigger] t[j], #[trigger] t[i]) by {
            if i < p && j < p {
                assert(t[i] == s[i] && t[j] == s[j]);
            } else if i < p && j == p {
                assert(t[i] == s[i]);
            } else if i < p && j > p {
                assert(t[i] == s[i] && t[j] == s[j - 1]);
                if i < j - 1 {
                    assert(!entry_lt(s[j - 1], s[i]));
                }
            } else if i == p {
                assert(t[j] == s[j - 1]);
                assert(entry_lt(ev, s[p as int]));
                if j - 1 > p {
                    assert(!entry_lt(s[j - 1], s[p as int]));
                }
                if entry_lt(s[j - 1], ev) {
                    lemma_entry_lt_transitive(s[j - 1], ev, s[p as int]);
                    lemma_entry_lt_irreflexive(s[p as int]);
                }
            } else {
                assert(t[i] == s[i - 1] && t[j] == s[j - 1]);
            }
        }
    }
}

/// The mod list in display order: the mods the user installed, by name;
/// then the local jars, by file name; then the mods pulled in as
/// dependencies, by name.
pub fn sort_dependencies(downloaded_mods: &Vec<(ModId, ModConfig)>, locally_installed_mods: &Vec<String>) -> (r: Vec<ModListEntry>)
    ensures
        entry_views(r@).to_multiset() == (downloaded_views(downloaded_mods@) + local_views(
            locally_installed_mods@,
        )).to_multiset(),
        sorted_entries(entry_views(r@)),
{
    let mut out: Vec<ModListEntry> = Vec::new();
    let ghost dv = downloaded_views(downloaded_mods@);
    let ghost lv = local_views(locally_installed_mods@);
    proof {
        assert(entry_views(out@) =~= dv.take(0));
    }
    let mut i: usize = 0;
    while i < downloaded_mods.len()
        invariant
            0 <= i <= downloaded_mods.len(),
            dv == downloaded_views(downloaded_mods@),
            sorted_entries(entry_views(out@)),
            entry_views(out@).to_multiset() == dv.take(i as int).to_multiset(),
        decreases downloaded_mods.len() - i,
    {
        let (id, config) = &downloaded_mods[i];
        let e = ModListEntry::Downloaded { id: id.clone(), config: config.clone() };
        insert_sorted(&mut out, e);
        proof {
            assert(dv.take(i + 1) =~= dv.take(i as int).push(dv[i as int]));
            to_multiset_build(dv.take(i as int), dv[i as int]);
        }
        i += 1;
    }
    proof {
        assert(dv.take(i as int) =~= dv + lv.take(0));
    }
    let mut j: usize = 0;
    while j < locally_installed_mods.len()
        invariant
            0 <= j <= locally_installed_mods.len(),
            lv == local_views(locally_installed_mods@),
            sorted_entries(entry_views(out@)),
            entry_views(out@).to_multiset() == (dv + lv.take(j as int)).to_multiset(),
        decreases locally_installed_mods.len() - j,
    {
        let e = ModListEntry::Local { file_name: locally_installed_mods[j].clone() };
        insert_sorted(&mut out, e);
        proof {
            assert(dv + lv.take(j + 1) =~= (dv + lv.take(j as int)).push(lv[j as int]));
            to_multiset_build(dv + lv.take(j as int), lv[j as int]);
        }
        j += 1;
    }
    proof {
        assert(lv.take(j as int) =~= lv);
    }
    out
}

} // verus!
