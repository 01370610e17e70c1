use vstd::prelude::*;
use vstd::multiset::Multiset;
use vstd::seq_lib::lemma_multiset_commutative;
use super::types::{NodeView, SelView, SDragTo, is_folder, children_of, with_children, node_sel, node_at, valid_path, remove_at};
use super::dedup::{node_sels, seq_sels, lemma_node_sels_split};
use super::drag_drop::{
    first_match, lemma_first_match_range, offset_num, with_last_child, Placement, node_place, place_below,
    place_in_seq, remove_path, drag_result, illegal_drop,
};
use super::edit::is_folder_with;
use super::laws::lemma_remove_path_valid;

verus! {

broadcast use vstd::multiset::group_multiset_axioms;

/// The entries of a list of nodes and everything below them, each counted
/// as often as it occurs.
pub open spec fn sels_ms(s: Seq<NodeView>) -> Multiset<SelView> {
    seq_sels(s).to_multiset()
}

/// The entries of a subtree, each counted as often as it occurs.
pub open spec fn node_ms(n: NodeView) -> Multiset<SelView> {
    node_sels(n).to_multiset()
}

proof fn lemma_sels_concat(a: Seq<NodeView>, b: Seq<NodeView>)
    ensures
        seq_sels(a + b) == seq_sels(a) + seq_sels(b),
    decreases b.len(),
{
    if b.len() == 0 {
        assert(a + b =~= a);
        assert(seq_sels(b) =~= Seq::<SelView>::empty());
        assert(seq_sels(a) + seq_sels(b) =~= seq_sels(a));
    } else {
        lemma_sels_concat(a, b.drop_last());
        assert((a + b).drop_last() =~= a + b.drop_last());
        assert((a + b).last() == b.last());
        assert(seq_sels(a) + seq_sels(b.drop_last()) + node_sels(b.last()) =~= seq_sels(a) + (seq_sels(
            b.drop_last(),
        ) + node_sels(b.last())));
    }
}

proof fn lemma_ms_concat(a: Seq<NodeView>, b: Seq<NodeView>)
    ensures
        sels_ms(a + b) == sels_ms(a).add(sels_ms(b)),
{
    lemma_sels_concat(a, b);
    lemma_multiset_commutative(seq_sels(a), seq_sels(b));
}

proof fn lemma_ms_one(x: NodeView)
    ensures
        sels_ms(seq![x]) == node_ms(x),
{
    assert(seq![x].drop_last() =~= Seq::<NodeView>::empty());
    assert(seq_sels(Seq::<NodeView>::empty()) =~= Seq::<SelView>::empty());
    assert(seq![x].last() == x);
    assert(Seq::<SelView>::empty() + node_sels(x) =~= node_sels(x));
}

proof fn lemma_ms_single(v: SelView)
    ensures
        seq![v].to_multiset() == Multiset::singleton(v),
{
    assert(seq![v] =~= Seq::<SelView>::empty().push(v));
    vstd::seq_lib::to_multiset_build(Seq::<SelView>::empty(), v);
    assert(Seq::<SelView>::empty().to_multiset() =~= Multiset::<SelView>::empty()) by {
        broadcast use vstd::seq_lib::to_multiset_contains;
        assert forall|a: SelView| Seq::<SelView>::empty().to_multiset().count(a) == 0 by {
            assert(!Seq::<SelView>::empty().contains(a));
        }
    }
    assert(Multiset::<SelView>::empty().insert(v) =~= Multiset::singleton(v));
}

/// A subtree holds its own entry and those below it.
proof fn lemma_ms_node(n: NodeView)
    ensures
        node_ms(n) == Multiset::singleton(node_sel(n)).add(sels_ms(children_of(n))),
{
    lemma_node_sels_split(n);
    lemma_multiset_commutative(seq![node_sel(n)], seq_sels(children_of(n)));
    lemma_ms_single(node_sel(n));
}

proof fn lemma_ms_split(s: Seq<NodeView>, i: int)
    requires
        0 <= i < s.len(),
    ensures
        sels_ms(s) == sels_ms(s.take(i)).add(node_ms(s[i])).add(sels_ms(s.skip(i + 1))),
{
    assert(s =~= s.take(i) + seq![s[i]] + s.skip(i + 1));
    lemma_ms_concat(s.take(i) + seq![s[i]], s.skip(i + 1));
    lemma_ms_concat(s.take(i), seq![s[i]]);
    lemma_ms_one(s[i]);
}

proof fn lemma_ms_remove(s: Seq<NodeView>, i: int)
    requires
        0 <= i < s.len(),
    ensures
        sels_ms(s) == sels_ms(s.remove(i)).add(node_ms(s[i])),
{
    lemma_ms_split(s, i);
    assert(s.remove(i) =~= s.take(i) + s.skip(i + 1));
    lemma_ms_concat(s.take(i), s.skip(i + 1));
    assert(sels_ms(s) =~= sels_ms(s.remove(i)).add(node_ms(s[i])));
}

proof fn lemma_ms_insert(s: Seq<NodeView>, i: int, x: NodeView)
    requires
        0 <= i <= s.len(),
    ensures
        sels_ms(s.insert(i, x)) == sels_ms(s).add(node_ms(x)),
{
    assert(s =~= s.take(i) + s.skip(i));
    assert(s.insert(i, x) =~= s.take(i) + seq![x] + s.skip(i));
    lemma_ms_concat(s.take(i), s.skip(i));
    lemma_ms_concat(s.take(i) + seq![x], s.skip(i));
    lemma_ms_concat(s.take(i), seq![x]);
    lemma_ms_one(x);
    assert(sels_ms(s.insert(i, x)) =~= sels_ms(s).add(node_ms(x)));
}

proof fn lemma_ms_push(s: Seq<NodeView>, x: NodeView)
    ensures
        sels_ms(s.push(x)) == sels_ms(s).add(node_ms(x)),
{
    assert(s.push(x).drop_last() =~= s);
    assert(s.push(x).last() == x);
    lemma_multiset_commutative(seq_sels(s), node_sels(x));
}

/// Replacing `s[i]` by `y` changes the entries as `s[i]` to `y` does.
proof fn lemma_ms_replace(s: Seq<NodeView>, i: int, y: NodeView, x: NodeView)
    requires
        0 <= i < s.len(),
        node_ms(y) == node_ms(s[i]).add(node_ms(x)),
    ensures
        sels_ms(s.update(i, y)) == sels_ms(s).add(node_ms(x)),
{
    let t = s.update(i, y);
    lemma_ms_split(s, i);
    lemma_ms_split(t, i);
    assert(t.take(i) =~= s.take(i));
    assert(t.skip(i + 1) =~= s.skip(i + 1));
    assert(sels_ms(t) =~= sels_ms(s).add(node_ms(x)));
}

/// A folder with other children holds its own entry and those children's.
proof fn lemma_ms_with_children(n: NodeView, c: Seq<NodeView>)
    requires
        is_folder(n),
    ensures
        node_ms(with_children(n, c)) == Multiset::singleton(node_sel(n)).add(sels_ms(c)),
{
    lemma_ms_node(with_children(n, c));
}

proof fn lemma_ms_remove_at(s: Seq<NodeView>, p: Seq<int>)
    requires
        valid_path(s, p),
    ensures
        sels_ms(s) == sels_ms(remove_at(s, p)).add(node_ms(node_at(s, p))),
    decreases p.len(),
{
    let i = p[0];
    if p.len() == 1 {
        lemma_ms_remove(s, i);
        assert(p.drop_first().len() == 0);
    } else {
        let n = s[i];
        let q = p.drop_first();
        let ch = children_of(n);
        lemma_ms_remove_at(ch, q);
        let z = node_at(ch, q);
        let y = with_children(n, remove_at(ch, q));
        lemma_ms_with_children(n, remove_at(ch, q));
        lemma_ms_node(n);
        assert(node_ms(n) =~= node_ms(y).add(node_ms(z)));
        lemma_ms_replace(s.update(i, y), i, n, z);
        assert(s.update(i, y).update(i, n) =~= s);
        assert(node_at(s, p) == z);
    }
}

proof fn lemma_ms_node_place(n: NodeView, x: NodeView, sel: SelView, off: SDragTo)
    ensures
        node_place(n, x, sel, off) matches Placement::Placed(c) ==> node_ms(c) == node_ms(n).add(node_ms(x)),
    decreases n, 1int, 0int,
{
    match n {
        NodeView::Folder { name: nm, id, expanded, children } => {
            if !is_folder_with(x, id) {
                lemma_ms_node(n);
                match first_match(children, sel, 0) {
                    Some(k) => {
                        lemma_first_match_range(children, sel, 0);
                        if off == SDragTo::Inside {
                            if is_folder(children[k]) {
                                let ck = children[k];
                                let y = with_last_child(ck, x);
                                lemma_ms_node(ck);
                                lemma_ms_node(y);
                                lemma_ms_push(children_of(ck), x);
                                assert(node_ms(y) =~= node_ms(ck).add(node_ms(x)));
                                lemma_ms_replace(children, k, y, x);
                                let c = node_place(n, x, sel, off)->Placed_0;
                                lemma_ms_node(c);
                                assert(node_ms(c) =~= node_ms(n).add(node_ms(x)));
                            }
                        } else {
                            lemma_ms_insert(children, k + offset_num(off), x);
                            let c = node_place(n, x, sel, off)->Placed_0;
                            lemma_ms_node(c);
                            assert(node_ms(c) =~= node_ms(n).add(node_ms(x)));
                        }
                    },
                    None => {
                        lemma_ms_place_below(children, x, sel, off, 0);
                        match place_below(children, x, sel, off, 0) {
                            (k, Placement::Placed(c0)) => {
                                lemma_ms_replace(children, k, c0, x);
                                let c = node_place(n, x, sel, off)->Placed_0;
                                lemma_ms_node(c);
                                assert(node_ms(c) =~= node_ms(n).add(node_ms(x)));
                            },
                            _ => {},
                        }
                    },
                }
            }
        },
        _ => {},
    }
}

proof fn lemma_ms_place_below(s: Seq<NodeView>, x: NodeView, sel: SelView, off: SDragTo, i: int)
    ensures
        place_below(s, x, sel, off, i) matches (k, Placement::Placed(c)) ==> 0 <= k < s.len() && node_ms(c) == node_ms(
            s[k],
        ).add(node_ms(x)),
    decreases s, 0int, s.len() - i,
{
    if 0 <= i < s.len() {
        lemma_ms_node_place(s[i], x, sel, off);
        if node_place(s[i], x, sel, off) == Placement::NotFound {
            lemma_ms_place_below(s, x, sel, off, i + 1);
        }
    }
}

proof fn lemma_ms_place_in_seq(s: Seq<NodeView>, x: NodeView, sel: SelView, off: SDragTo)
    ensures
        place_in_seq(s, x, sel, off) matches Some(r) ==> sels_ms(r) == sels_ms(s).add(node_ms(x)),
{
    match first_match(s, sel, 0) {
        Some(i) => {
            lemma_first_match_range(s, sel, 0);
            if off == SDragTo::Inside && is_folder(s[i]) {
                let y = with_last_child(s[i], x);
                lemma_ms_node(s[i]);
                lemma_ms_node(y);
                lemma_ms_push(children_of(s[i]), x);
                assert(node_ms(y) =~= node_ms(s[i]).add(node_ms(x)));
                lemma_ms_replace(s, i, y, x);
            } else if i + offset_num(off) <= s.len() {
                lemma_ms_insert(s, i + offset_num(off), x);
            }
        },
        None => {
            lemma_ms_place_below(s, x, sel, off, 0);
            match place_below(s, x, sel, off, 0) {
                (k, Placement::Placed(c)) => {
                    lemma_ms_replace(s, k, c, x);
                },
                _ => {
                    lemma_ms_push(s, x);
                },
            }
        },
    }
}

/// Dragging and dropping an entry moves it with everything below it: every
/// instance and folder of the sidebar, counted as often as it occurs, is
/// still there afterwards, and nothing else.
pub proof fn law_drag_drop_keeps_every_entry(s: Seq<NodeView>, sel: SelView, loc: Option<(SelView, SDragTo)>)
    requires
        drag_result(s, sel, loc) is Some,
    ensures
        sels_ms(drag_result(s, sel, loc)->0) == sels_ms(s),
{
    if !illegal_drop(s, sel, loc) {
        match remove_path(s, sel) {
            Some(p) => {
                lemma_remove_path_valid(s, sel);
                lemma_ms_remove_at(s, p);
                let s1 = remove_at(s, p);
                let y = node_at(s, p);
                match loc {
                    None => {
                        lemma_ms_push(s1, y);
                    },
                    Some((l, off)) => {
                        lemma_ms_place_in_seq(s1, y, l, off);
                    },
                }
                assert(sels_ms(drag_result(s, sel, loc)->0) =~= sels_ms(s));
            },
            None => {},
        }
    }
}

/// A drop "inside" an entry is one onto a folder.
pub open spec fn inside_only_folders(loc: Option<(SelView, SDragTo)>) -> bool {
    loc matches Some((l, off)) ==> (off == SDragTo::Inside ==> l is Folder)
}

proof fn lemma_node_place_not_refused(n: NodeView, x: NodeView, sel: SelView, off: SDragTo)
    requires
        off == SDragTo::Inside ==> sel is Folder,
    ensures
        !(node_place(n, x, sel, off) is Refused),
    decreases n, 1int, 0int,
{
    match n {
        NodeView::Folder { name, id, expanded, children } => {
            if !is_folder_with(x, id) {
                lemma_first_match_range(children, sel, 0);
                match first_match(children, sel, 0) {
                    Some(k) => {},
                    None => {
                        lemma_place_below_not_refused(children, x, sel, off, 0);
                    },
                }
            }
        },
        _ => {},
    }
}

proof fn lemma_place_below_not_refused(s: Seq<NodeView>, x: NodeView, sel: SelView, off: SDragTo, i: int)
    requires
        off == SDragTo::Inside ==> sel is Folder,
    ensures
        !(place_below(s, x, sel, off, i).1 is Refused),
    decreases s, 0int, s.len() - i,
{
    if 0 <= i < s.len() {
        lemma_node_place_not_refused(s[i], x, sel, off);
        lemma_place_below_not_refused(s, x, sel, off, i + 1);
    }
}

proof fn lemma_place_in_seq_some(s: Seq<NodeView>, x: NodeView, sel: SelView, off: SDragTo)
    requires
        off == SDragTo::Inside ==> sel is Folder,
    ensures
        place_in_seq(s, x, sel, off) is Some,
{
    lemma_first_match_range(s, sel, 0);
    if first_match(s, sel, 0) is None {
        lemma_place_below_not_refused(s, x, sel, off, 0);
    }
}

/// A drag and drop in which a drop "inside" is always onto a folder is
/// carried out: whatever is dragged and wherever it is dropped, the sidebar
/// afterwards holds every entry it held before, each as often (the dragged
/// entry moves with everything below it, and nothing is lost or doubled).
pub proof fn law_drag_drop_done_and_keeps_entries(s: Seq<NodeView>, sel: SelView, loc: Option<(SelView, SDragTo)>)
    requires
        inside_only_folders(loc),
    ensures
        drag_result(s, sel, loc) is Some,
        sels_ms(drag_result(s, sel, loc)->0) == sels_ms(s),
{
    if !illegal_drop(s, sel, loc) {
        match remove_path(s, sel) {
            Some(p) => {
                match loc {
                    None => {},
                    Some((l, off)) => {
                        lemma_place_in_seq_some(remove_at(s, p), node_at(s, p), l, off);
                    },
                }
            },
            None => {},
        }
    }
    law_drag_drop_keeps_every_entry(s, sel, loc);
}


/// Dropping "before" or "after" an entry of the top level puts the dragged
/// entry right there: with the target at index `i` of the top level (once
/// the dragged entry is taken out), "before" inserts the entry at `i`, just
/// above the target, and "after" at `i + 1`, just below it.
pub proof fn law_drop_before_after_top_level(s: Seq<NodeView>, sel: SelView, l: SelView, off: SDragTo, p: Seq<int>, i: int)
    requires
        !illegal_drop(s, sel, Some((l, off))),
        remove_path(s, sel) == Some(p),
        first_match(remove_at(s, p), l, 0) == Some(i),
        off != SDragTo::Inside,
    ensures
        0 <= i < remove_at(s, p).len(),
        off == SDragTo::Before ==> drag_result(s, sel, Some((l, off))) == Some(remove_at(s, p).insert(i, node_at(s, p))),
        off == SDragTo::After ==> drag_result(s, sel, Some((l, off))) == Some(remove_at(s, p).insert(i + 1, node_at(s, p))),
        node_sel(drag_result(s, sel, Some((l, off)))->0[if off == SDragTo::Before { i + 1 } else { i }]) == l,
        drag_result(s, sel, Some((l, off)))->0[if off == SDragTo::Before { i } else { i + 1 }] == node_at(s, p),
{
    lemma_first_match_range(remove_at(s, p), l, 0);
}

/// Dropping "before" or "after" an entry inside a folder puts the dragged
/// entry next to it among the folder's children: at the target's index `k`
/// for "before", at `k + 1` for "after", and the folder opens.
pub proof fn law_drop_before_after_in_folder(
    name: Seq<char>,
    id: u128,
    expanded: bool,
    children: Seq<NodeView>,
    x: NodeView,
    l: SelView,
    off: SDragTo,
    k: int,
)
    requires
        !is_folder_with(x, id),
        first_match(children, l, 0) == Some(k),
        off != SDragTo::Inside,
    ensures
        0 <= k < children.len(),
        off == SDragTo::Before ==> node_place(NodeView::Folder { name, id, expanded, children }, x, l, off)
            == Placement::Placed(NodeView::Folder { name, id, expanded: true, children: children.insert(k, x) }),
        off == SDragTo::After ==> node_place(NodeView::Folder { name, id, expanded, children }, x, l, off)
            == Placement::Placed(NodeView::Folder { name, id, expanded: true, children: children.insert(k + 1, x) }),
{
    lemma_first_match_range(children, l, 0);
}


/// Dropping onto empty space puts the dragged entry, with everything below
/// it, at the end of the top level.
pub proof fn law_drop_on_empty_space_goes_last(s: Seq<NodeView>, sel: SelView, p: Seq<int>)
    requires
        remove_path(s, sel) == Some(p),
    ensures
        drag_result(s, sel, None) == Some(remove_at(s, p).push(node_at(s, p))),
        drag_result(s, sel, None)->0.last() == node_at(s, p),
{
}

/// Dropping "inside" a folder of the top level makes the dragged entry the
/// folder's last child, and opens the folder; the folder keeps its place.
pub proof fn law_drop_inside_folder_top_level(s: Seq<NodeView>, sel: SelView, l: SelView, p: Seq<int>, i: int)
    requires
        !illegal_drop(s, sel, Some((l, SDragTo::Inside))),
        remove_path(s, sel) == Some(p),
        first_match(remove_at(s, p), l, 0) == Some(i),
        l is Folder,
    ensures
        0 <= i < remove_at(s, p).len(),
        drag_result(s, sel, Some((l, SDragTo::Inside))) == Some(remove_at(s, p).update(
            i,
            with_last_child(remove_at(s, p)[i], node_at(s, p)),
        )),
        children_of(drag_result(s, sel, Some((l, SDragTo::Inside)))->0[i]).last() == node_at(s, p),
        drag_result(s, sel, Some((l, SDragTo::Inside)))->0[i] is Folder,
{
    lemma_first_match_range(remove_at(s, p), l, 0);
}

} // verus!
