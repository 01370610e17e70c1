use vstd::prelude::*;
use crate::text::string_of;
use super::types::{
    NodeView,
    SelView,
    SidebarNode,
    SidebarNodeKind,
    SidebarFolder,
    SidebarSelection,
    FolderId,
    views,
    children_of,
    size,
    size_seq,
    insert_at,
    find_in_node,
    find_from,
    find_pre,
};
use super::lemmas::{lemma_views_concat, lemma_find_from_nonempty, lemma_path_parent, lemma_cons_first, lemma_size_child, lemma_views_update, lemma_views_push, lemma_views_insert, lemma_views_remove, lemma_path_cons};
use super::ops::SidebarConfig;

verus! {

/// A new, expanded, empty folder.
pub open spec fn folder_view(name: Seq<char>, id: u128) -> NodeView {
    NodeView::Folder { name, id, expanded: true, children: Seq::empty() }
}

/// The sidebar with `x` placed right after the first entry, in display order,
/// that `sel` refers to, or at the end when there is none.
pub open spec fn placed_after(s: Seq<NodeView>, sel: SelView, x: NodeView) -> Seq<NodeView> {
    match find_pre(s, sel) {
        Some(p) => insert_at(s, p.drop_last(), p.last() + 1, x),
        None => s.push(x),
    }
}

fn insert_after_in_seq(nodes: &mut Vec<SidebarNode>, sel: &SidebarSelection, x: SidebarNode) -> (r: Option<SidebarNode>)
    ensures
        match find_pre(views(old(nodes)@), sel@) {
            Some(p) => r is None && views(final(nodes)@) == insert_at(views(old(nodes)@), p.drop_last(), p.last() + 1, x@),
            None => r == Some(x) && views(final(nodes)@) == views(old(nodes)@),
        },
    decreases size_seq(views(old(nodes)@)),
{
    let ghost cs = views(nodes@);
    let mut carry = x;
    let mut i: usize = 0;
    while i < nodes.len()
        invariant
            0 <= i <= nodes.len(),
            cs == views(old(nodes)@),
            views(nodes@) == cs,
            carry == x,
            find_pre(cs, sel@) == find_from(cs, sel@, i as int),
        decreases nodes.len() - i,
    {
        proof {
            lemma_size_child(cs, i as int);
            assert(views(nodes@)[i as int] == cs[i as int]);
        }
        if nodes[i].eq_selection(sel) {
            let ghost before = nodes@;
            nodes.insert(i + 1, carry);
            proof {
                lemma_views_insert(before, i + 1, x);
                lemma_path_parent(i as int, Seq::empty());
                lemma_path_cons(i as int, Seq::empty());
                assert(find_in_node(cs[i as int], sel@) == Some(Seq::<int>::empty()));
                let p = seq![i as int] + Seq::<int>::empty();
                assert(find_pre(cs, sel@) == Some(p));
                assert(insert_at(cs, p.drop_last(), p.last() + 1, x@) == cs.insert(i + 1, x@));
                assert(views(nodes@) == cs.insert(i + 1, x@));
            }
            return None;
        }
        let ghost before = nodes@;
        if let SidebarNodeKind::Folder(f) = &mut nodes[i].kind {
            let ghost fc = views(f.children@);
            let res = insert_after_in_seq(&mut f.children, sel, carry);
            match res {
                None => {
                    proof {
                        lemma_views_update(before, i as int, nodes@[i as int]);
                        assert(nodes@ == before.update(i as int, nodes@[i as int]));
                        let q = find_pre(fc, sel@)->0;
                        lemma_find_from_nonempty(fc, sel@, 0);
                        lemma_path_cons(i as int, q);
                        lemma_path_parent(i as int, q);
                        lemma_cons_first(i as int, q.drop_last());
                    }
                    return None;
                },
                Some(back) => {
                    carry = back;
                },
            }
        }
        proof {
            lemma_views_update(before, i as int, nodes@[i as int]);
            assert(nodes@ == before.update(i as int, nodes@[i as int]));
        }
        i += 1;
    }
    Some(carry)
}

impl SidebarConfig {
    /// Creates a folder right after the selected entry, or at the end of the
    /// sidebar when nothing is selected or the selection is not found, and
    /// returns its id.
    pub fn new_folder_at(&mut self, selection: Option<SidebarSelection>, name: &str) -> (r: FolderId)
        ensures
            final(self)@ == (match selection {
                Some(sel) => placed_after(old(self)@, sel@, folder_view(name@, r.0)),
                None => old(self)@.push(folder_view(name@, r.0)),
            }),
    {
        let folder = SidebarNode::new_folder(string_of(name));
        let id = match &folder.kind {
            SidebarNodeKind::Folder(f) => f.id,
            SidebarNodeKind::Instance(_) => FolderId(0),
        };
        assert(folder@ == folder_view(name@, id.0));
        let ghost before = self.list@;
        match selection {
            Some(sel) => {
                match insert_after_in_seq(&mut self.list, &sel, folder) {
                    None => {},
                    Some(back) => {
                        let ghost mid = self.list@;
                        self.list.push(back);
                        proof {
                            lemma_views_push(mid, back);
                        }
                    },
                }
            },
            None => {
                self.list.push(folder);
                proof {
                    lemma_views_push(before, folder);
                }
            },
        }
        id
    }
}


pub open spec fn is_folder_with(n: NodeView, id: u128) -> bool {
    n matches NodeView::Folder { id: fid, .. } && fid == id
}

/// A node with the folders of this id deleted below it.
pub open spec fn delete_node(n: NodeView, id: u128) -> NodeView
    decreases n, 0int,
{
    match n {
        NodeView::Folder { name, id: fid, expanded, children } => NodeView::Folder {
            name,
            id: fid,
            expanded,
            children: delete_seq(children, id),
        },
        _ => n,
    }
}

/// Deleting the folders of an id from a sequence: the other nodes stay in
/// order (with deletion applied below them), and the contents of each
/// deleted folder go, unchanged, to the end of the sequence.
pub open spec fn delete_seq(s: Seq<NodeView>, id: u128) -> Seq<NodeView>
    decreases s, 1int,
{
    delete_kept(s, id) + delete_moved(s, id)
}

pub open spec fn delete_kept(s: Seq<NodeView>, id: u128) -> Seq<NodeView>
    decreases s, 0int,
{
    if s.len() == 0 {
        Seq::empty()
    } else {
        let r = delete_kept(s.drop_last(), id);
        if is_folder_with(s.last(), id) {
            r
        } else {
            r.push(delete_node(s.last(), id))
        }
    }
}

pub open spec fn delete_moved(s: Seq<NodeView>, id: u128) -> Seq<NodeView>
    decreases s.len(),
{
    if s.len() == 0 {
        Seq::empty()
    } else {
        let m = delete_moved(s.drop_last(), id);
        if is_folder_with(s.last(), id) {
            m + children_of(s.last())
        } else {
            m
        }
    }
}

fn delete_in_node(node: SidebarNode, folder_id: FolderId) -> (r: SidebarNode)
    ensures
        r@ == delete_node(node@, folder_id.0),
    decreases size(node@), 0int,
{
    let SidebarNode { name, kind } = node;
    match kind {
        SidebarNodeKind::Folder(f) => {
            let SidebarFolder { id, children, is_expanded } = f;
            let children = delete_in_seq(children, folder_id);
            SidebarNode { name, kind: SidebarNodeKind::Folder(SidebarFolder { id, children, is_expanded }) }
        },
        SidebarNodeKind::Instance(k) => SidebarNode { name, kind: SidebarNodeKind::Instance(k) },
    }
}

fn delete_in_seq(nodes: Vec<SidebarNode>, folder_id: FolderId) -> (r: Vec<SidebarNode>)
    ensures
        views(r@) == delete_seq(views(nodes@), folder_id.0),
    decreases size_seq(views(nodes@)), 1int,
{
    let ghost cs = views(nodes@);
    let ghost id = folder_id.0;
    let mut rest = nodes;
    let mut kept: Vec<SidebarNode> = Vec::new();
    let mut moved: Vec<SidebarNode> = Vec::new();
    let ghost mut k: int = 0;
    while rest.len() > 0
        invariant
            0 <= k <= cs.len(),
            id == folder_id.0,
            cs == views(nodes@),
            views(rest@) == cs.skip(k),
            views(kept@) == delete_kept(cs.take(k), id),
            views(moved@) == delete_moved(cs.take(k), id),
        decreases rest.len(),
    {
        proof {
            assert(views(rest@).len() == rest@.len());
            lemma_size_child(cs, k);
            assert(views(rest@)[0] == cs[k]);
            assert(cs.take(k + 1).drop_last() =~= cs.take(k));
            assert(cs.take(k + 1).last() == cs[k]);
        }
        let ghost before = rest@;
        let n = rest.remove(0);
        proof {
            lemma_views_remove(before, 0);
            assert(cs.skip(k).remove(0) =~= cs.skip(k + 1));
        }
        let ghost nv = n@;
        let ghost t = cs.take(k + 1);
        assert(nv == cs[k]);
        let SidebarNode { name, kind } = n;
        match kind {
            SidebarNodeKind::Folder(f) => {
                if f.id.0 == folder_id.0 {
                    let SidebarFolder { id: _, children, is_expanded: _ } = f;
                    let mut children = children;
                    let ghost mb = moved@;
                    moved.append(&mut children);
                    proof {
                        lemma_views_concat(mb, moved@.subrange(mb.len() as int, moved@.len() as int));
                        assert(moved@ =~= mb + moved@.subrange(mb.len() as int, moved@.len() as int));
                        assert(is_folder_with(t.last(), id));
                        assert(views(moved@) == delete_moved(t, id));
                        assert(views(kept@) == delete_kept(t, id));
                    }
                } else {
                    let n2 = SidebarNode { name, kind: SidebarNodeKind::Folder(f) };
                    let ghost kb = kept@;
                    let m = delete_in_node(n2, folder_id);
                    kept.push(m);
                    proof {
                        lemma_views_push(kb, m);
                        assert(n2@ == nv);
                        assert(!is_folder_with(t.last(), id));
                        assert(views(moved@) == delete_moved(t, id));
                        assert(views(kept@) == delete_kept(t, id));
                    }
                }
            },
            SidebarNodeKind::Instance(ik) => {
                let n2 = SidebarNode { name, kind: SidebarNodeKind::Instance(ik) };
                let ghost kb = kept@;
                kept.push(n2);
                proof {
                    lemma_views_push(kb, n2);
                    assert(n2@ == nv);
                    assert(nv is Instance);
                    assert(delete_node(nv, id) == nv);
                    assert(!is_folder_with(t.last(), id));
                    assert(views(moved@) == delete_moved(t, id));
                    assert(views(kept@) == delete_kept(t, id));
                }
            },
        }
        proof {
            k = k + 1;
        }
    }
    proof {
        assert(cs.take(k) =~= cs);
    }
    let ghost kb = kept@;
    let ghost mb = moved@;
    kept.append(&mut moved);
    proof {
        lemma_views_concat(kb, mb);
    }
    kept
}

impl SidebarConfig {
    /// Deletes the folders with this id; the entries they held move to the
    /// end of the list that held the folder.
    pub fn delete_folder(&mut self, folder_id: FolderId)
        ensures
            final(self)@ == delete_seq(old(self)@, folder_id.0),
    {
        let mut list: Vec<SidebarNode> = Vec::new();
        std::mem::swap(&mut list, &mut self.list);
        self.list = delete_in_seq(list, folder_id);
    }
}

} // verus!
