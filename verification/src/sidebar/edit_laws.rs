use vstd::prelude::*;
use crate::instance::InstanceKind;
use super::types::{NodeView, SelView, children_of, with_children, size, size_seq, valid_in_node, valid_path, insert_at, find_in_node, find_from, find_pre, is_folder};
use super::lemmas::lemma_path_cons;
use super::ops::{node_has_instance, seq_has_instance};
use super::edit::{folder_view, placed_after};
use super::laws::{lemma_insert, lemma_replace, lemma_push};

verus! {

proof fn lemma_find_in_node_valid(n: NodeView, sel: SelView)
    ensures
        find_in_node(n, sel) matches Some(q) ==> valid_in_node(n, q),
    decreases n, 0int,
{
    if let NodeView::Folder { children, .. } = n {
        lemma_find_from_valid(children, sel, 0);
    }
}

proof fn lemma_find_from_valid(s: Seq<NodeView>, sel: SelView, i: int)
    ensures
        find_from(s, sel, i) matches Some(p) ==> valid_path(s, p),
    decreases s, s.len() - i,
{
    if 0 <= i < s.len() {
        lemma_find_in_node_valid(s[i], sel);
        match find_in_node(s[i], sel) {
            Some(q) => {
                lemma_path_cons(i, q);
            },
            None => {
                lemma_find_from_valid(s, sel, i + 1);
            },
        }
    }
}

/// Inserting a node right after the node at a path adds that node and
/// nothing else.
proof fn lemma_insert_after(s: Seq<NodeView>, p: Seq<int>, x: NodeView, name: Seq<char>, kind: InstanceKind)
    requires
        valid_path(s, p),
    ensures
        size_seq(insert_at(s, p.drop_last(), p.last() + 1, x)) == size_seq(s) + size(x),
        seq_has_instance(insert_at(s, p.drop_last(), p.last() + 1, x), name, kind) == (seq_has_instance(s, name, kind)
            || node_has_instance(x, name, kind)),
    decreases p.len(),
{
    let i = p[0];
    if p.len() == 1 {
        assert(p.drop_last().len() == 0);
        assert(p.last() == i);
        lemma_insert(s, i + 1, x, name, kind);
    } else {
        let n = s[i];
        let q = p.drop_first();
        assert(is_folder(n) && valid_path(children_of(n), q));
        assert(q.drop_last() =~= p.drop_last().drop_first());
        assert(q.last() == p.last());
        assert(p.drop_last()[0] == i);
        lemma_insert_after(children_of(n), q, x, name, kind);
        let y = with_children(n, insert_at(children_of(n), q.drop_last(), q.last() + 1, x));
        lemma_replace(s, i, y, x, name, kind);
    }
}

/// A new folder adds one entry to the sidebar and no instance: every
/// instance is still there and no other came in.
pub proof fn law_new_folder_keeps_instances(
    s: Seq<NodeView>,
    selection: Option<SelView>,
    name: Seq<char>,
    id: u128,
    inst: Seq<char>,
    kind: InstanceKind,
)
    ensures
        ({
            let r = match selection {
                Some(sel) => placed_after(s, sel, folder_view(name, id)),
                None => s.push(folder_view(name, id)),
            };
            &&& size_seq(r) == size_seq(s) + 1
            &&& seq_has_instance(r, inst, kind) == seq_has_instance(s, inst, kind)
        }),
{
    let f = folder_view(name, id);
    assert(size_seq(Seq::<NodeView>::empty()) == 0);
    assert(!seq_has_instance(Seq::<NodeView>::empty(), inst, kind));
    assert(size(f) == 1);
    assert(!node_has_instance(f, inst, kind));
    match selection {
        Some(sel) => {
            lemma_find_from_valid(s, sel, 0);
            match find_pre(s, sel) {
                Some(p) => {
                    lemma_insert_after(s, p, f, inst, kind);
                },
                None => {
                    lemma_push(s, f, inst, kind);
                },
            }
        },
        None => {
            lemma_push(s, f, inst, kind);
        },
    }
}

} // verus!
