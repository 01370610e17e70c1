use vstd::prelude::*;
use crate::instance::InstanceKind;
use super::types::{
    NodeView,
    SelView,
    SDragTo,
    is_folder,
    children_of,
    with_children,
    size,
    size_seq,
    node_at,
    valid_path,
    remove_at,
};
use super::lemmas::lemma_cons_first;
use super::ops::{node_has_instance, seq_has_instance, toggle_node, toggle_seq};
use super::maintain::{kept_by, retain_node, retain_seq, add_missing};
use super::edit::{is_folder_with, delete_node, delete_seq, delete_kept, delete_moved};
use super::drag_drop::{remove_path_below, first_match, lemma_first_match_range, offset_num, with_last_child, Placement, node_place, place_below, place_in_seq, remove_path, drag_result, illegal_drop};

verus! {

proof fn lemma_toggle_twice_node(n: NodeView, id: u128)
    ensures
        toggle_node(toggle_node(n, id), id) == n,
    decreases n,
{
    match n {
        NodeView::Folder { name, id: fid, expanded, children } => {
            if fid != id {
                lemma_toggle_twice_seq(children, id);
            }
        },
        _ => {},
    }
}

proof fn lemma_toggle_twice_seq(s: Seq<NodeView>, id: u128)
    ensures
        toggle_seq(toggle_seq(s, id), id) == s,
    decreases s,
{
    assert forall|i: int| 0 <= i < s.len() implies toggle_seq(toggle_seq(s, id), id)[i] == s[i] by {
        lemma_toggle_twice_node(s[i], id);
    }
    assert(toggle_seq(toggle_seq(s, id), id) =~= s);
}

/// Toggling a folder's visibility twice gives back the sidebar as it was.
pub proof fn law_toggle_visibility_twice(s: Seq<NodeView>, id: u128)
    ensures
        toggle_seq(toggle_seq(s, id), id) == s,
{
    lemma_toggle_twice_seq(s, id);
}

pub proof fn lemma_has_push(s: Seq<NodeView>, x: NodeView, name: Seq<char>, kind: InstanceKind)
    ensures
        seq_has_instance(s.push(x), name, kind) == (seq_has_instance(s, name, kind) || node_has_instance(x, name, kind)),
{
    assert(s.push(x).drop_last() =~= s);
}

proof fn lemma_add_missing_keeps(s: Seq<NodeView>, names: Seq<Seq<char>>, kind: InstanceKind, name: Seq<char>, k: InstanceKind)
    requires
        seq_has_instance(s, name, k),
    ensures
        seq_has_instance(add_missing(s, names, kind), name, k),
    decreases names.len(),
{
    if names.len() > 0 {
        lemma_add_missing_keeps(s, names.drop_last(), kind, name, k);
        let a = add_missing(s, names.drop_last(), kind);
        lemma_has_push(a, NodeView::Instance { name: names.last(), kind }, name, k);
    }
}

proof fn lemma_add_missing_all(s: Seq<NodeView>, names: Seq<Seq<char>>, kind: InstanceKind, i: int)
    requires
        0 <= i < names.len(),
    ensures
        seq_has_instance(add_missing(s, names, kind), names[i], kind),
    decreases names.len(),
{
    let a = add_missing(s, names.drop_last(), kind);
    let x = NodeView::Instance { name: names.last(), kind };
    if i < names.len() - 1 {
        lemma_add_missing_all(s, names.drop_last(), kind, i);
        assert(names.drop_last()[i] == names[i]);
        lemma_has_push(a, x, names[i], kind);
    } else {
        lemma_has_push(a, x, names[i], kind);
    }
}

proof fn lemma_add_missing_only(s: Seq<NodeView>, names: Seq<Seq<char>>, kind: InstanceKind, name: Seq<char>, k: InstanceKind)
    requires
        seq_has_instance(add_missing(s, names, kind), name, k),
    ensures
        seq_has_instance(s, name, k) || (k == kind && names.contains(name)),
    decreases names.len(),
{
    if names.len() > 0 {
        let a = add_missing(s, names.drop_last(), kind);
        let x = NodeView::Instance { name: names.last(), kind };
        lemma_has_push(a, x, name, k);
        if seq_has_instance(a, name, k) {
            lemma_add_missing_only(s, names.drop_last(), kind, name, k);
            if names.drop_last().contains(name) {
                let j = choose|j: int| 0 <= j < names.drop_last().len() && names.drop_last()[j] == name;
                assert(names[j] == name);
            }
        } else {
            assert(names[names.len() - 1] == name);
        }
    }
}

proof fn lemma_retain_node_only(n: NodeView, names: Seq<Seq<char>>, kind: InstanceKind, name: Seq<char>, k: InstanceKind)
    requires
        kept_by(n, names, kind),
        node_has_instance(retain_node(n, names, kind), name, k),
    ensures
        k == kind && names.contains(name),
    decreases n,
{
    match n {
        NodeView::Folder { children, .. } => {
            lemma_retain_seq_only(children, names, kind, name, k);
        },
        _ => {},
    }
}

proof fn lemma_retain_seq_only(s: Seq<NodeView>, names: Seq<Seq<char>>, kind: InstanceKind, name: Seq<char>, k: InstanceKind)
    requires
        seq_has_instance(retain_seq(s, names, kind), name, k),
    ensures
        k == kind && names.contains(name),
    decreases s,
{
    if s.len() > 0 {
        let r = retain_seq(s.drop_last(), names, kind);
        if kept_by(s.last(), names, kind) {
            lemma_has_push(r, retain_node(s.last(), names, kind), name, k);
            if seq_has_instance(r, name, k) {
                lemma_retain_seq_only(s.drop_last(), names, kind, name, k);
            } else {
                lemma_retain_node_only(s.last(), names, kind, name, k);
            }
        } else {
            lemma_retain_seq_only(s.drop_last(), names, kind, name, k);
        }
    }
}

/// After the sidebar is brought in line with a list of instances, each
/// listed instance has an entry, and each instance entry is of that kind and
/// listed.
pub proof fn law_update_sidebar_matches_list(s: Seq<NodeView>, names: Seq<Seq<char>>, kind: InstanceKind)
    ensures
        forall|i: int| 0 <= i < names.len() ==> seq_has_instance(
            add_missing(retain_seq(s, names, kind), names, kind),
            #[trigger] names[i],
            kind,
        ),
        forall|name: Seq<char>, k: InstanceKind|
            #[trigger] seq_has_instance(add_missing(retain_seq(s, names, kind), names, kind), name, k)
                ==> k == kind && names.contains(name),
{
    let r = retain_seq(s, names, kind);
    assert forall|i: int| 0 <= i < names.len() implies seq_has_instance(add_missing(r, names, kind), #[trigger] names[i], kind) by {
        lemma_add_missing_all(r, names, kind, i);
    }
    assert forall|name: Seq<char>, k: InstanceKind|
        #[trigger] seq_has_instance(add_missing(r, names, kind), name, k) implies k == kind && names.contains(name) by {
        lemma_add_missing_only(r, names, kind, name, k);
        if seq_has_instance(r, name, k) {
            lemma_retain_seq_only(s, names, kind, name, k);
        }
    }
}


pub proof fn lemma_has_concat(a: Seq<NodeView>, b: Seq<NodeView>, name: Seq<char>, kind: InstanceKind)
    ensures
        seq_has_instance(a + b, name, kind) == (seq_has_instance(a, name, kind) || seq_has_instance(b, name, kind)),
    decreases b.len(),
{
    if b.len() == 0 {
        assert(a + b =~= a);
    } else {
        lemma_has_concat(a, b.drop_last(), name, kind);
        assert((a + b).drop_last() =~= a + b.drop_last());
        assert((a + b).last() == b.last());
    }
}

proof fn lemma_delete_node_has(n: NodeView, id: u128, name: Seq<char>, kind: InstanceKind)
    ensures
        node_has_instance(delete_node(n, id), name, kind) == node_has_instance(n, name, kind),
    decreases n, 1int,
{
    match n {
        NodeView::Folder { children, .. } => {
            lemma_kept_moved_has(children, id, name, kind);
            lemma_has_concat(delete_kept(children, id), delete_moved(children, id), name, kind);
        },
        _ => {},
    }
}

proof fn lemma_kept_moved_has(s: Seq<NodeView>, id: u128, name: Seq<char>, kind: InstanceKind)
    ensures
        (seq_has_instance(delete_kept(s, id), name, kind) || seq_has_instance(delete_moved(s, id), name, kind))
            == seq_has_instance(s, name, kind),
    decreases s, 0int,
{
    if s.len() > 0 {
        lemma_kept_moved_has(s.drop_last(), id, name, kind);
        let x = s.last();
        let r = delete_kept(s.drop_last(), id);
        let m = delete_moved(s.drop_last(), id);
        if is_folder_with(x, id) {
            lemma_has_concat(m, children_of(x), name, kind);
            assert(node_has_instance(x, name, kind) == seq_has_instance(children_of(x), name, kind));
        } else {
            lemma_delete_node_has(x, id, name, kind);
            lemma_has_push(r, delete_node(x, id), name, kind);
        }
    }
}

/// Deleting a folder never loses an instance and never adds one: the
/// instances it held move up a level.
pub proof fn law_delete_folder_keeps_instances(s: Seq<NodeView>, id: u128, name: Seq<char>, kind: InstanceKind)
    ensures
        seq_has_instance(delete_seq(s, id), name, kind) == seq_has_instance(s, name, kind),
{
    lemma_kept_moved_has(s, id, name, kind);
    lemma_has_concat(delete_kept(s, id), delete_moved(s, id), name, kind);
}


pub proof fn lemma_size_concat(a: Seq<NodeView>, b: Seq<NodeView>)
    ensures
        size_seq(a + b) == size_seq(a) + size_seq(b),
    decreases b.len(),
{
    if b.len() == 0 {
        assert(a + b =~= a);
    } else {
        lemma_size_concat(a, b.drop_last());
        assert((a + b).drop_last() =~= a + b.drop_last());
        assert((a + b).last() == b.last());
    }
}

pub proof fn lemma_size_one(x: NodeView)
    ensures
        size_seq(seq![x]) == size(x),
{
    assert(seq![x].drop_last() =~= Seq::<NodeView>::empty());
    assert(size_seq(Seq::<NodeView>::empty()) == 0);
    assert(seq![x].last() == x);
}

pub proof fn lemma_has_one(x: NodeView, name: Seq<char>, kind: InstanceKind)
    ensures
        seq_has_instance(seq![x], name, kind) == node_has_instance(x, name, kind),
{
    assert(seq![x].drop_last() =~= Seq::<NodeView>::empty());
    assert(!seq_has_instance(Seq::<NodeView>::empty(), name, kind));
    assert(seq![x].last() == x);
}

/// Sizes and contents of a sequence split around an index.
proof fn lemma_split(s: Seq<NodeView>, i: int, name: Seq<char>, kind: InstanceKind)
    requires
        0 <= i < s.len(),
    ensures
        size_seq(s) == size_seq(s.take(i)) + size(s[i]) + size_seq(s.skip(i + 1)),
        seq_has_instance(s, name, kind) == (seq_has_instance(s.take(i), name, kind)
            || node_has_instance(s[i], name, kind) || seq_has_instance(s.skip(i + 1), name, kind)),
{
    assert(s =~= s.take(i) + seq![s[i]] + s.skip(i + 1));
    lemma_size_concat(s.take(i) + seq![s[i]], s.skip(i + 1));
    lemma_size_concat(s.take(i), seq![s[i]]);
    lemma_size_one(s[i]);
    lemma_has_concat(s.take(i) + seq![s[i]], s.skip(i + 1), name, kind);
    lemma_has_concat(s.take(i), seq![s[i]], name, kind);
    lemma_has_one(s[i], name, kind);
}

proof fn lemma_update(s: Seq<NodeView>, i: int, y: NodeView, name: Seq<char>, kind: InstanceKind)
    requires
        0 <= i < s.len(),
    ensures
        size_seq(s.update(i, y)) + size(s[i]) == size_seq(s) + size(y),
        seq_has_instance(s.update(i, y), name, kind) == (seq_has_instance(s.take(i), name, kind)
            || node_has_instance(y, name, kind) || seq_has_instance(s.skip(i + 1), name, kind)),
{
    let t = s.update(i, y);
    lemma_split(s, i, name, kind);
    lemma_split(t, i, name, kind);
    assert(t.take(i) =~= s.take(i));
    assert(t.skip(i + 1) =~= s.skip(i + 1));
}

pub proof fn lemma_insert(s: Seq<NodeView>, i: int, x: NodeView, name: Seq<char>, kind: InstanceKind)
    requires
        0 <= i <= s.len(),
    ensures
        size_seq(s.insert(i, x)) == size_seq(s) + size(x),
        seq_has_instance(s.insert(i, x), name, kind) == (seq_has_instance(s, name, kind) || node_has_instance(x, name, kind)),
{
    assert(s =~= s.take(i) + s.skip(i));
    assert(s.insert(i, x) =~= s.take(i) + seq![x] + s.skip(i));
    lemma_size_concat(s.take(i), s.skip(i));
    lemma_size_concat(s.take(i) + seq![x], s.skip(i));
    lemma_size_concat(s.take(i), seq![x]);
    lemma_size_one(x);
    lemma_has_concat(s.take(i), s.skip(i), name, kind);
    lemma_has_concat(s.take(i) + seq![x], s.skip(i), name, kind);
    lemma_has_concat(s.take(i), seq![x], name, kind);
    lemma_has_one(x, name, kind);
}

proof fn lemma_remove(s: Seq<NodeView>, i: int, name: Seq<char>, kind: InstanceKind)
    requires
        0 <= i < s.len(),
    ensures
        size_seq(s.remove(i)) + size(s[i]) == size_seq(s),
        seq_has_instance(s, name, kind) == (seq_has_instance(s.remove(i), name, kind) || node_has_instance(s[i], name, kind)),
{
    lemma_split(s, i, name, kind);
    assert(s.remove(i) =~= s.take(i) + s.skip(i + 1));
    lemma_size_concat(s.take(i), s.skip(i + 1));
    lemma_has_concat(s.take(i), s.skip(i + 1), name, kind);
}

pub proof fn lemma_push(s: Seq<NodeView>, x: NodeView, name: Seq<char>, kind: InstanceKind)
    ensures
        size_seq(s.push(x)) == size_seq(s) + size(x),
        seq_has_instance(s.push(x), name, kind) == (seq_has_instance(s, name, kind) || node_has_instance(x, name, kind)),
{
    assert(s.push(x).drop_last() =~= s);
}

/// Replacing `s[i]` by `y` changes size and contents as `s[i]` to `y` does.
pub proof fn lemma_replace(s: Seq<NodeView>, i: int, y: NodeView, x: NodeView, name: Seq<char>, kind: InstanceKind)
    requires
        0 <= i < s.len(),
        size(y) == size(s[i]) + size(x),
        node_has_instance(y, name, kind) == (node_has_instance(s[i], name, kind) || node_has_instance(x, name, kind)),
    ensures
        size_seq(s.update(i, y)) == size_seq(s) + size(x),
        seq_has_instance(s.update(i, y), name, kind) == (seq_has_instance(s, name, kind) || node_has_instance(x, name, kind)),
{
    lemma_update(s, i, y, name, kind);
    lemma_split(s, i, name, kind);
}

proof fn lemma_node_place(n: NodeView, x: NodeView, sel: SelView, off: SDragTo, name: Seq<char>, kind: InstanceKind)
    ensures
        node_place(n, x, sel, off) matches Placement::Placed(c) ==> size(c) == size(n) + size(x)
            && node_has_instance(c, name, kind) == (node_has_instance(n, name, kind) || node_has_instance(x, name, kind)),
    decreases n, 1int, 0int,
{
    match n {
        NodeView::Folder { name: nm, id, expanded, children } => {
            if !is_folder_with(x, id) {
                match first_match(children, sel, 0) {
                    Some(k) => {
                        lemma_first_match_range(children, sel, 0);
                        if off == SDragTo::Inside {
                            if is_folder(children[k]) {
                                let ck = children[k];
                                let y = with_last_child(ck, x);
                                lemma_push(children_of(ck), x, name, kind);
                                lemma_replace(children, k, y, x, name, kind);
                            }
                        } else {
                            lemma_insert(children, k + offset_num(off), x, name, kind);
                        }
                    },
                    None => {
                        lemma_place_below(children, x, sel, off, 0, name, kind);
                        match place_below(children, x, sel, off, 0) {
                            (k, Placement::Placed(c)) => {
                                lemma_replace(children, k, c, x, name, kind);
                            },
                            _ => {},
                        }
                    },
                }
            }
        },
        _ => {},
    }
}

proof fn lemma_place_below(s: Seq<NodeView>, x: NodeView, sel: SelView, off: SDragTo, i: int, name: Seq<char>, kind: InstanceKind)
    ensures
        place_below(s, x, sel, off, i) matches (k, Placement::Placed(c)) ==> 0 <= k < s.len() && size(c) == size(s[k]) + size(x)
            && node_has_instance(c, name, kind) == (node_has_instance(s[k], name, kind) || node_has_instance(x, name, kind)),
    decreases s, 0int, s.len() - i,
{
    if 0 <= i < s.len() {
        lemma_node_place(s[i], x, sel, off, name, kind);
        if node_place(s[i], x, sel, off) == Placement::NotFound {
            lemma_place_below(s, x, sel, off, i + 1, name, kind);
        }
    }
}

proof fn lemma_place_in_seq(s: Seq<NodeView>, x: NodeView, sel: SelView, off: SDragTo, name: Seq<char>, kind: InstanceKind)
    ensures
        place_in_seq(s, x, sel, off) matches Some(r) ==> size_seq(r) == size_seq(s) + size(x)
            && seq_has_instance(r, name, kind) == (seq_has_instance(s, name, kind) || node_has_instance(x, name, kind)),
{
    match first_match(s, sel, 0) {
        Some(i) => {
            lemma_first_match_range(s, sel, 0);
            if off == SDragTo::Inside && is_folder(s[i]) {
                lemma_push(children_of(s[i]), x, name, kind);
                lemma_replace(s, i, with_last_child(s[i], x), x, name, kind);
            } else if i + offset_num(off) <= s.len() {
                lemma_insert(s, i + offset_num(off), x, name, kind);
            }
        },
        None => {
            lemma_place_below(s, x, sel, off, 0, name, kind);
            match place_below(s, x, sel, off, 0) {
                (k, Placement::Placed(c)) => {
                    lemma_replace(s, k, c, x, name, kind);
                },
                _ => {
                    lemma_push(s, x, name, kind);
                },
            }
        },
    }
}

proof fn lemma_remove_at(s: Seq<NodeView>, p: Seq<int>, name: Seq<char>, kind: InstanceKind)
    requires
        valid_path(s, p),
    ensures
        size_seq(remove_at(s, p)) + size(node_at(s, p)) == size_seq(s),
        seq_has_instance(s, name, kind) == (seq_has_instance(remove_at(s, p), name, kind) || node_has_instance(node_at(s, p), name, kind)),
    decreases p.len(),
{
    let i = p[0];
    if p.len() == 1 {
        lemma_remove(s, i, name, kind);
        assert(p.drop_first().len() == 0);
    } else {
        let n = s[i];
        let q = p.drop_first();
        lemma_remove_at(children_of(n), q, name, kind);
        let y = with_children(n, remove_at(children_of(n), q));
        lemma_update(s, i, y, name, kind);
        lemma_split(s, i, name, kind);
    }
}


pub(crate) proof fn lemma_remove_path_valid(s: Seq<NodeView>, sel: SelView)
    ensures
        remove_path(s, sel) matches Some(p) ==> valid_path(s, p),
    decreases s, 1int, 0int,
{
    lemma_first_match_range(s, sel, 0);
    if first_match(s, sel, 0) is Some {
        let i = first_match(s, sel, 0)->0;
        assert(seq![i].drop_first() =~= Seq::<int>::empty());
    } else {
        lemma_remove_path_below_valid(s, sel, 0);
    }
}

proof fn lemma_remove_path_below_valid(s: Seq<NodeView>, sel: SelView, i: int)
    ensures
        remove_path_below(s, sel, i) matches Some(p) ==> valid_path(s, p),
    decreases s, 0int, s.len() - i,
{
    if 0 <= i < s.len() {
        match s[i] {
            NodeView::Folder { children, .. } => {
                lemma_remove_path_valid(children, sel);
                match remove_path(children, sel) {
                    Some(q) => {
                        lemma_cons_first(i, q);
                    },
                    None => {
                        lemma_remove_path_below_valid(s, sel, i + 1);
                    },
                }
            },
            _ => {
                lemma_remove_path_below_valid(s, sel, i + 1);
            },
        }
    }
}

/// Dragging and dropping an entry moves it: the sidebar keeps the same number
/// of entries and the same instances.
pub proof fn law_drag_drop_keeps_entries(
    s: Seq<NodeView>,
    sel: SelView,
    loc: Option<(SelView, SDragTo)>,
    name: Seq<char>,
    kind: InstanceKind,
)
    requires
        drag_result(s, sel, loc) is Some,
    ensures
        size_seq(drag_result(s, sel, loc)->0) == size_seq(s),
        seq_has_instance(drag_result(s, sel, loc)->0, name, kind) == seq_has_instance(s, name, kind),
{
    if !illegal_drop(s, sel, loc) {
        match remove_path(s, sel) {
            Some(p) => {
                lemma_remove_path_valid(s, sel);
                lemma_remove_at(s, p, name, kind);
                let s1 = remove_at(s, p);
                let y = node_at(s, p);
                match loc {
                    None => {
                        lemma_push(s1, y, name, kind);
                    },
                    Some((l, off)) => {
                        lemma_place_in_seq(s1, y, l, off, name, kind);
                    },
                }
            },
            None => {},
        }
    }
}

} // verus!
