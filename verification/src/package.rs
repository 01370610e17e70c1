use vstd::prelude::*;
use vstd::seq_lib::{to_multiset_build, to_multiset_insert};
use crate::order::{lemma_str_lt_irreflexive, lemma_str_lt_transitive, str_lt, str_lt_spec};
use crate::text::{concat, str_eq};

verus! {

/// An entry of an instance's `.minecraft` folder.
#[derive(Debug)]
pub struct DirItem {
    pub name: String,
    pub is_file: bool,
}

impl Clone for DirItem {
    fn clone(&self) -> (r: Self)
        ensures
            r == *self,
    {
        DirItem { name: self.name.clone(), is_file: self.is_file }
    }
}

/// The value of an entry of the export list: its name, whether it is a
/// file, and whether it is ticked for export.
pub type ItemView = (Seq<char>, bool, bool);

/// The entries that are commonly large and not needed in a copy or export,
/// so unticked at first.
pub open spec fn is_exception(n: Seq<char>) -> bool {
    ||| n == ".fabric"@
    ||| n == "logs"@
    ||| n == "command_history.txt"@
    ||| n == "realms_persistence.json"@
    ||| n == "debug"@
    ||| n == ".cache"@
    ||| n == "authlib-injector.log"@
    ||| n == "easy_npc"@
    ||| n == "CustomSkinLoader"@
    ||| n == ".bobby"@
}

/// The entries never offered: the launcher's own records.
pub open spec fn is_hidden(n: Seq<char>) -> bool {
    n == "mod_index.json"@ || n == "launcher_profiles.json"@
}

/// The order of the export list: folders before files, then by name.
pub open spec fn item_lt(a: ItemView, b: ItemView) -> bool {
    (!a.1 && b.1) || (a.1 == b.1 && str_lt_spec(a.0, b.0))
}

pub open spec fn sorted_items(s: Seq<ItemView>) -> bool {
    forall|i: int, j: int| 0 <= i < j < s.len() ==> !item_lt(#[trigger] s[j], #[trigger] s[i])
}

pub open spec fn item_views(s: Seq<(DirItem, bool)>) -> Seq<ItemView> {
    Seq::new(s.len(), |i: int| (s[i].0.name@, s[i].0.is_file, s[i].1))
}

/// The offered entries of a listing, in its order, each ticked unless it is
/// one of the exceptions.
pub open spec fn offered(s: Seq<DirItem>) -> Seq<ItemView>
    decreases s.len(),
{
    if s.len() == 0 {
        Seq::empty()
    } else if is_hidden(s.last().name@) {
        offered(s.drop_last())
    } else {
        offered(s.drop_last()).push((s.last().name@, s.last().is_file, !is_exception(s.last().name@)))
    }
}

/// The paths left out of a copy or export: the unticked entries, under
/// `.minecraft/`, in the list's order.
pub open spec fn left_out(s: Seq<ItemView>) -> Seq<Seq<char>>
    decreases s.len(),
{
    if s.len() == 0 {
        Seq::empty()
    } else if s.last().2 {
        left_out(s.drop_last())
    } else {
        left_out(s.drop_last()).push(".minecraft/"@ + s.last().0)
    }
}

fn is_exception_name(n: &str) -> (r: bool)
    ensures
        r == is_exception(n@),
{
    str_eq(n, ".fabric") || str_eq(n, "logs") || str_eq(n, "command_history.txt") || str_eq(
        n,
        "realms_persistence.json",
    ) || str_eq(n, "debug") || str_eq(n, ".cache") || str_eq(n, "authlib-injector.log") || str_eq(n, "easy_npc")
        || str_eq(n, "CustomSkinLoader") || str_eq(n, ".bobby")
}

proof fn lemma_item_lt_irreflexive(a: ItemView)
    ensures
        !item_lt(a, a),
{
    lemma_str_lt_irreflexive(a.0);
}

proof fn lemma_item_lt_transitive(a: ItemView, b: ItemView, c: ItemView)
    requires
        item_lt(a, b),
        item_lt(b, c),
    ensures
        item_lt(a, c),
{
    if a.1 == b.1 && b.1 == c.1 {
        lemma_str_lt_transitive(a.0, b.0, c.0);
    }
}

fn item_less(a: &(DirItem, bool), b: &(DirItem, bool)) -> (r: bool)
    ensures
        r == item_lt((a.0.name@, a.0.is_file, a.1), (b.0.name@, b.0.is_file, b.1)),
{
    if a.0.is_file != b.0.is_file {
        !a.0.is_file
    } else {
        str_lt(a.0.name.as_str(), b.0.name.as_str())
    }
}

/// Inserts an entry after every entry it does not precede.
fn insert_sorted(out: &mut Vec<(DirItem, bool)>, e: (DirItem, bool))
    requires
        sorted_items(item_views(old(out)@)),
    ensures
        sorted_items(item_views(final(out)@)),
        item_views(final(out)@).to_multiset() == item_views(old(out)@).to_multiset().insert(
            (e.0.name@, e.0.is_file, e.1),
        ),
{
    let ghost s = item_views(out@);
    let ghost ev: ItemView = (e.0.name@, e.0.is_file, e.1);
    let mut p: usize = 0;
    while p < out.len() && !item_less(&e, &out[p])
        invariant
            0 <= p <= out.len(),
            s == item_views(out@),
            ev == (e.0.name@, e.0.is_file, e.1),
            forall|k: int| 0 <= k < p ==> !item_lt(ev, #[trigger] s[k]),
        decreases out.len() - p,
    {
        p += 1;
    }
    proof {
        assert(p < s.len() ==> item_lt(ev, s[p as int]));
    }
    out.insert(p, e);
    proof {
        let t = item_views(out@);
        assert(t =~= s.insert(p as int, ev));
        to_multiset_insert(s, p as int, ev);
        assert forall|i: int, j: int| 0 <= i < j < t.len() implies !item_lt(#[trigger] t[j], #[trigger] t[i]) by {
            if i < p && j < p {
                assert(t[i] == s[i] && t[j] == s[j]);
            } else if i < p && j == p {
                assert(t[i] == s[i]);
            } else if i < p && j > p {
                assert(t[i] == s[i] && t[j] == s[j - 1]);
                if i < j - 1 {
                    assert(!item_lt(s[j - 1], s[i]));
                }
            } else if i == p {
                assert(t[j] == s[j - 1]);
                assert(item_lt(ev, s[p as int]));
                if j - 1 > p {
                    assert(!item_lt(s[j - 1], s[p as int]));
                }
                if item_lt(s[j - 1], ev) {
                    lemma_item_lt_transitive(s[j - 1], ev, s[p as int]);
                    lemma_item_lt_irreflexive(s[p as int]);
                }
            } else {
                assert(t[i] == s[i - 1] && t[j] == s[j - 1]);
            }
        }
    }
}

/// The export list of an instance, from the listing of its `.minecraft`
/// folder: every entry but the launcher's own records, ticked unless it is
/// one of the exceptions, folders first and then by name.
pub fn export_list(listing: Vec<DirItem>) -> (r: Vec<(DirItem, bool)>)
    ensures
        item_views(r@).to_multiset() == offered(listing@).to_multiset(),
        sorted_items(item_views(r@)),
{
    let mut out: Vec<(DirItem, bool)> = Vec::new();
    let ghost all = listing@;
    proof {
        assert(item_views(out@) =~= offered(all.take(0)));
    }
    let mut i: usize = 0;
    while i < listing.len()
        invariant
            0 <= i <= listing.len(),
            all == listing@,
            sorted_items(item_views(out@)),
            item_views(out@).to_multiset() == offered(all.take(i as int)).to_multiset(),
        decreases listing.len() - i,
    {
        proof {
            assert(all.take(i + 1).drop_last() =~= all.take(i as int));
            assert(all.take(i + 1).last() == all[i as int]);
        }
        let item = listing[i].clone();
        let name_hidden = str_eq(item.name.as_str(), "mod_index.json") || str_eq(
            item.name.as_str(),
            "launcher_profiles.json",
        );
        if !name_hidden {
            let ticked = !is_exception_name(item.name.as_str());
            let ghost v: ItemView = (item.name@, item.is_file, ticked);
            insert_sorted(&mut out, (item, ticked));
            proof {
                to_multiset_build(offered(all.take(i as int)), v);
            }
        }
        i += 1;
    }
    proof {
        assert(all.take(i as int) =~= all);
    }
    out
}

/// Ticks or unticks an entry of the export list; a row past the end changes
/// nothing.
pub fn toggle_item(entries: &mut Vec<(DirItem, bool)>, index: usize, on: bool)
    ensures
        index < old(entries)@.len() ==> final(entries)@ == old(entries)@.update(
            index as int,
            (old(entries)@[index as int].0, on),
        ),
        index >= old(entries)@.len() ==> final(entries)@ == old(entries)@,
{
    if index < entries.len() {
        let (item, _) = entries.remove(index);
        entries.insert(index, (item, on));
        proof {
            assert(entries@ =~= old(entries)@.update(index as int, (old(entries)@[index as int].0, on)));
        }
    }
}

/// The paths to leave out of a copy or export (see `left_out`).
pub fn exceptions(entries: &Vec<(DirItem, bool)>) -> (r: Vec<String>)
    ensures
        r@.len() == left_out(item_views(entries@)).len(),
        forall|j: int| 0 <= j < r@.len() ==> #[trigger] r@[j]@ == left_out(item_views(entries@))[j],
{
    let ghost all = item_views(entries@);
    let mut r: Vec<String> = Vec::new();
    let mut i: usize = 0;
    while i < entries.len()
        invariant
            0 <= i <= entries.len(),
            all == item_views(entries@),
            r@.len() == left_out(all.take(i as int)).len(),
            forall|j: int| 0 <= j < r@.len() ==> #[trigger] r@[j]@ == left_out(all.take(i as int))[j],
        decreases entries.len() - i,
    {
        proof {
            assert(all.take(i + 1).drop_last() =~= all.take(i as int));
            assert(all.take(i + 1).last() == all[i as int]);
        }
        if !entries[i].1 {
            let path = concat(".minecraft/", entries[i].0.name.as_str());
            proof {
                reveal_strlit(".minecraft/");
            }
            r.push(path);
        }
        i += 1;
    }
    proof {
        assert(all.take(i as int) =~= all);
    }
    r
}

} // verus!
