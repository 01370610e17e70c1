use vstd::prelude::*;
use super::types::{
    NodeView,
    SelView,
    SidebarNode,
    SidebarNodeKind,
    SidebarFolder,
    SidebarSelection,
    views,
    node_sel,
    children_of,
    size,
    size_seq,
};
use super::lemmas::{lemma_size_child, lemma_views_push, lemma_views_remove};
use super::ops::SidebarConfig;

verus! {

/// The selections held in a list, as a set.
pub open spec fn sel_set(v: Seq<SidebarSelection>) -> Set<SelView> {
    Set::new(|x: SelView| exists|i: int| 0 <= i < v.len() && #[trigger] v[i]@ == x)
}

pub open spec fn fix_node(n: NodeView, vis: Set<SelView>) -> (NodeView, Set<SelView>)
    decreases n, 0int,
{
    match n {
        NodeView::Folder { name, id, expanded, children } => {
            let (c, v) = fix_seq(children, vis);
            (NodeView::Folder { name, id, expanded, children: c }, v)
        },
        _ => (n, vis),
    }
}

/// Drops, in display order, every entry whose selection was already seen
/// (together with everything below it), given the selections `vis` seen
/// before; also gives the selections seen afterwards.
pub open spec fn fix_seq(s: Seq<NodeView>, vis: Set<SelView>) -> (Seq<NodeView>, Set<SelView>)
    decreases s, 1int,
{
    if s.len() == 0 {
        (Seq::empty(), vis)
    } else {
        let (r, v) = fix_seq(s.drop_last(), vis);
        let x = s.last();
        if v.contains(node_sel(x)) {
            (r, v)
        } else {
            let (x2, v2) = fix_node(x, v.insert(node_sel(x)));
            (r.push(x2), v2)
        }
    }
}

impl SidebarSelection {
    /// The selection that refers to a node.
    pub fn from_node(node: &SidebarNode) -> (r: SidebarSelection)
        ensures
            r@ == node_sel(node@),
    {
        match &node.kind {
            SidebarNodeKind::Instance(instance_kind) => SidebarSelection::Instance(node.name.clone(), *instance_kind),
            SidebarNodeKind::Folder(f) => SidebarSelection::Folder(f.id),
        }
    }

    /// Whether two selections refer to the same entry.
    pub fn same_as(&self, other: &SidebarSelection) -> (r: bool)
        ensures
            r == (self@ == other@),
    {
        match (self, other) {
            (SidebarSelection::Instance(a, ka), SidebarSelection::Instance(b, kb)) => *ka == *kb && *a == *b,
            (SidebarSelection::Folder(a), SidebarSelection::Folder(b)) => a.0 == b.0,
            _ => false,
        }
    }
}

/// Adds a selection to the seen ones; tells whether it was new.
fn insert_visited(visited: &mut Vec<SidebarSelection>, sel: SidebarSelection) -> (r: bool)
    ensures
        r == !sel_set(old(visited)@).contains(sel@),
        sel_set(final(visited)@) == sel_set(old(visited)@).insert(sel@),
{
    let mut i: usize = 0;
    while i < visited.len()
        invariant
            0 <= i <= visited.len(),
            forall|j: int| 0 <= j < i ==> visited@[j]@ != sel@,
        decreases visited.len() - i,
    {
        if visited[i].same_as(&sel) {
            proof {
                assert(sel_set(visited@).contains(sel@));
                assert(sel_set(visited@).insert(sel@) =~= sel_set(visited@));
            }
            return false;
        }
        i += 1;
    }
    let ghost before = visited@;
    visited.push(sel);
    proof {
        assert(!sel_set(before).contains(sel@));
        assert forall|x: SelView| sel_set(visited@).contains(x) <==> sel_set(before).insert(sel@).contains(x) by {
            if sel_set(visited@).contains(x) {
                let j = choose|j: int| 0 <= j < visited@.len() && #[trigger] visited@[j]@ == x;
                if j < before.len() {
                    assert(before[j]@ == x);
                }
            }
            if sel_set(before).contains(x) {
                let j = choose|j: int| 0 <= j < before.len() && #[trigger] before[j]@ == x;
                assert(visited@[j]@ == x);
            }
            if x == sel@ {
                assert(visited@[before.len() as int]@ == x);
            }
        }
        assert(sel_set(visited@) =~= sel_set(before).insert(sel@));
    }
    true
}

fn fix_in_node(node: SidebarNode, visited: &mut Vec<SidebarSelection>) -> (r: SidebarNode)
    ensures
        (r@, sel_set(final(visited)@)) == fix_node(node@, sel_set(old(visited)@)),
    decreases size(node@), 0int,
{
    let SidebarNode { name, kind } = node;
    match kind {
        SidebarNodeKind::Folder(f) => {
            let SidebarFolder { id, children, is_expanded } = f;
            let children = fix_in_seq(children, visited);
            SidebarNode { name, kind: SidebarNodeKind::Folder(SidebarFolder { id, children, is_expanded }) }
        },
        SidebarNodeKind::Instance(k) => SidebarNode { name, kind: SidebarNodeKind::Instance(k) },
    }
}

fn fix_in_seq(nodes: Vec<SidebarNode>, visited: &mut Vec<SidebarSelection>) -> (r: Vec<SidebarNode>)
    ensures
        (views(r@), sel_set(final(visited)@)) == fix_seq(views(nodes@), sel_set(old(visited)@)),
    decreases size_seq(views(nodes@)), 1int,
{
    let ghost cs = views(nodes@);
    let ghost vis0 = sel_set(visited@);
    let mut rest = nodes;
    let mut out: Vec<SidebarNode> = Vec::new();
    let ghost mut k: int = 0;
    while rest.len() > 0
        invariant
            0 <= k <= cs.len(),
            cs == views(nodes@),
            vis0 == sel_set(old(visited)@),
            views(rest@) == cs.skip(k),
            (views(out@), sel_set(visited@)) == fix_seq(cs.take(k), vis0),
        decreases rest.len(),
    {
        proof {
            assert(views(rest@).len() == rest@.len());
            lemma_size_child(cs, k);
            assert(views(rest@)[0] == cs[k]);
            assert(cs.take(k + 1).drop_last() =~= cs.take(k));
            assert(cs.take(k + 1).last() == cs[k]);
        }
        let ghost before = rest@;
        let n = rest.remove(0);
        proof {
            lemma_views_remove(before, 0);
            assert(cs.skip(k).remove(0) =~= cs.skip(k + 1));
        }
        let sel = SidebarSelection::from_node(&n);
        if insert_visited(visited, sel) {
            let ghost ob = out@;
            let m = fix_in_node(n, visited);
            out.push(m);
            proof {
                lemma_views_push(ob, m);
            }
        }
        proof {
            k = k + 1;
        }
    }
    proof {
        assert(cs.take(k) =~= cs);
    }
    out
}

impl SidebarConfig {
    /// Drops every entry whose instance or folder already appeared earlier
    /// in display order, together with everything below it.
    pub fn fix(&mut self)
        ensures
            final(self)@ == fix_seq(old(self)@, Set::empty()).0,
    {
        let mut visited: Vec<SidebarSelection> = Vec::new();
        assert(sel_set(visited@) =~= Set::<SelView>::empty());
        let mut list: Vec<SidebarNode> = Vec::new();
        std::mem::swap(&mut list, &mut self.list);
        self.list = fix_in_seq(list, &mut visited);
    }
}


/// The selections of a subtree, in display order.
pub open spec fn node_sels(n: NodeView) -> Seq<SelView>
    decreases n, 0int,
{
    match n {
        NodeView::Folder { children, .. } => seq![node_sel(n)] + seq_sels(children),
        _ => seq![node_sel(n)],
    }
}

pub open spec fn seq_sels(s: Seq<NodeView>) -> Seq<SelView>
    decreases s, 1int,
{
    if s.len() == 0 {
        Seq::empty()
    } else {
        seq_sels(s.drop_last()) + node_sels(s.last())
    }
}

proof fn lemma_disjoint_concat(a: Seq<SelView>, b: Seq<SelView>)
    requires
        a.no_duplicates(),
        b.no_duplicates(),
        forall|x: SelView| a.contains(x) ==> !b.contains(x),
    ensures
        (a + b).no_duplicates(),
        forall|x: SelView| (a + b).contains(x) <==> a.contains(x) || b.contains(x),
{
    assert forall|i: int, j: int| 0 <= i < a.len() && 0 <= j < b.len() implies a[i] != b[j] by {
        assert(a.contains(a[i]));
        assert(b.contains(b[j]));
    }
    vstd::seq_lib::lemma_no_dup_in_concat(a, b);
    assert forall|x: SelView| (a + b).contains(x) <==> a.contains(x) || b.contains(x) by {
        if (a + b).contains(x) {
            let i = choose|i: int| 0 <= i < (a + b).len() && (a + b)[i] == x;
            if i < a.len() {
                assert(a[i] == x);
            } else {
                assert(b[i - a.len()] == x);
            }
        }
        if a.contains(x) {
            let i = choose|i: int| 0 <= i < a.len() && a[i] == x;
            assert((a + b)[i] == x);
        }
        if b.contains(x) {
            let i = choose|i: int| 0 <= i < b.len() && b[i] == x;
            assert((a + b)[a.len() + i] == x);
        }
    }
}

proof fn lemma_fix_node(n: NodeView, vis: Set<SelView>)
    ensures
        ({
            let (n2, v2) = fix_node(n, vis);
            &&& node_sel(n2) == node_sel(n)
            &&& seq_sels(children_of(n2)).no_duplicates()
            &&& forall|x: SelView| seq_sels(children_of(n2)).contains(x) ==> !vis.contains(x)
            &&& forall|x: SelView| v2.contains(x) <==> vis.contains(x) || seq_sels(children_of(n2)).contains(x)
            &&& node_sels(n2) == seq![node_sel(n)] + seq_sels(children_of(n2))
        }),
    decreases n, 0int,
{
    match n {
        NodeView::Folder { children, .. } => {
            lemma_fix_seq(children, vis);
        },
        _ => {
            assert(seq_sels(Seq::<NodeView>::empty()) =~= Seq::<SelView>::empty());
            assert(seq![node_sel(n)] + Seq::<SelView>::empty() =~= seq![node_sel(n)]);
        },
    }
}

proof fn lemma_fix_seq(s: Seq<NodeView>, vis: Set<SelView>)
    ensures
        ({
            let (r, v) = fix_seq(s, vis);
            &&& seq_sels(r).no_duplicates()
            &&& forall|x: SelView| seq_sels(r).contains(x) ==> !vis.contains(x)
            &&& forall|x: SelView| v.contains(x) <==> vis.contains(x) || seq_sels(r).contains(x)
        }),
    decreases s, 1int,
{
    if s.len() > 0 {
        lemma_fix_seq(s.drop_last(), vis);
        let (r, v) = fix_seq(s.drop_last(), vis);
        let x = s.last();
        if !v.contains(node_sel(x)) {
            let vx = v.insert(node_sel(x));
            lemma_fix_node(x, vx);
            let (x2, v2) = fix_node(x, vx);
            let c = seq_sels(children_of(x2));
            let one = seq![node_sel(x)];
            assert(one.no_duplicates());
            assert forall|y: SelView| one.contains(y) implies !c.contains(y) by {
                assert(one[0] == y);
                assert(vx.contains(y));
            }
            lemma_disjoint_concat(one, c);
            assert forall|y: SelView| seq_sels(r).contains(y) implies !(one + c).contains(y) by {
                assert(v.contains(y));
                assert(vx.contains(y));
                if one.contains(y) {
                    assert(one[0] == y);
                }
            }
            lemma_disjoint_concat(seq_sels(r), one + c);
            assert(r.push(x2).drop_last() =~= r);
            assert(seq_sels(r.push(x2)) == seq_sels(r) + node_sels(x2));
            assert forall|y: SelView| (one + c).contains(y) <==> y == node_sel(x) || c.contains(y) by {
                if one.contains(y) {
                    assert(one[0] == y);
                }
                if y == node_sel(x) {
                    assert(one[0] == y);
                }
            }
            let all = seq_sels(r) + (one + c);
            assert(seq_sels(r.push(x2)) == all);
            assert forall|y: SelView| all.contains(y) implies !vis.contains(y) by {
                if seq_sels(r).contains(y) {
                } else if y == node_sel(x) {
                } else {
                    assert(c.contains(y));
                    assert(!vx.contains(y));
                }
            }
            assert forall|y: SelView| v2.contains(y) <==> vis.contains(y) || all.contains(y) by {
                if c.contains(y) {
                    assert((one + c).contains(y));
                }
            }
            assert(fix_seq(s, vis) == (r.push(x2), v2));
        }
    } else {
        assert(seq_sels(Seq::<NodeView>::empty()) =~= Seq::<SelView>::empty());
    }
}

/// After the sidebar is repaired, no two of its entries refer to the same
/// instance or folder.
pub proof fn law_fix_leaves_no_duplicates(s: Seq<NodeView>)
    ensures
        seq_sels(fix_seq(s, Set::empty()).0).no_duplicates(),
{
    lemma_fix_seq(s, Set::empty());
}


proof fn lemma_no_dup_split(a: Seq<SelView>, b: Seq<SelView>)
    requires
        (a + b).no_duplicates(),
    ensures
        a.no_duplicates(),
        b.no_duplicates(),
        forall|x: SelView| a.contains(x) ==> !b.contains(x),
{
    let ab = a + b;
    assert forall|i: int, j: int| 0 <= i < a.len() && 0 <= j < a.len() && i != j implies a[i] != a[j] by {
        assert(ab[i] == a[i] && ab[j] == a[j]);
    }
    assert forall|i: int, j: int| 0 <= i < b.len() && 0 <= j < b.len() && i != j implies b[i] != b[j] by {
        assert(ab[a.len() + i] == b[i] && ab[a.len() + j] == b[j]);
    }
    assert forall|x: SelView| a.contains(x) implies !b.contains(x) by {
        let i = choose|i: int| 0 <= i < a.len() && a[i] == x;
        if b.contains(x) {
            let j = choose|j: int| 0 <= j < b.len() && b[j] == x;
            assert(ab[i] == x && ab[a.len() + j] == x);
        }
    }
}

pub(crate) proof fn lemma_node_sels_split(n: NodeView)
    ensures
        node_sels(n) == seq![node_sel(n)] + seq_sels(children_of(n)),
{
    match n {
        NodeView::Folder { .. } => {},
        _ => {
            assert(seq_sels(Seq::<NodeView>::empty()) =~= Seq::<SelView>::empty());
            assert(seq![node_sel(n)] + Seq::<SelView>::empty() =~= seq![node_sel(n)]);
        },
    }
}

/// A node whose entries below are all new and distinct is kept whole.
proof fn lemma_fix_node_keeps(n: NodeView, vis: Set<SelView>)
    requires
        seq_sels(children_of(n)).no_duplicates(),
        forall|x: SelView| seq_sels(children_of(n)).contains(x) ==> !vis.contains(x),
    ensures
        fix_node(n, vis).0 == n,
        forall|x: SelView| fix_node(n, vis).1.contains(x) <==> vis.contains(x) || seq_sels(children_of(n)).contains(x),
    decreases n, 0int,
{
    match n {
        NodeView::Folder { children, .. } => {
            lemma_fix_seq_keeps(children, vis);
        },
        _ => {
            assert(seq_sels(Seq::<NodeView>::empty()) =~= Seq::<SelView>::empty());
        },
    }
}

/// A list whose entries are all new and distinct is kept whole.
proof fn lemma_fix_seq_keeps(s: Seq<NodeView>, vis: Set<SelView>)
    requires
        seq_sels(s).no_duplicates(),
        forall|x: SelView| seq_sels(s).contains(x) ==> !vis.contains(x),
    ensures
        fix_seq(s, vis).0 == s,
        forall|x: SelView| fix_seq(s, vis).1.contains(x) <==> vis.contains(x) || seq_sels(s).contains(x),
    decreases s, 1int,
{
    if s.len() == 0 {
        assert(seq_sels(s) =~= Seq::<SelView>::empty());
    } else {
        let d = s.drop_last();
        let x = s.last();
        let a = seq_sels(d);
        let b = node_sels(x);
        assert(seq_sels(s) == a + b);
        lemma_no_dup_split(a, b);
        assert forall|y: SelView| a.contains(y) implies !vis.contains(y) by {
            let i = choose|i: int| 0 <= i < a.len() && a[i] == y;
            assert((a + b)[i] == y);
        }
        lemma_fix_seq_keeps(d, vis);
        let (r, v) = fix_seq(d, vis);
        lemma_node_sels_split(x);
        let one = seq![node_sel(x)];
        let c = seq_sels(children_of(x));
        assert(b == one + c);
        lemma_no_dup_split(one, c);
        assert(b[0] == node_sel(x));
        assert(b.contains(node_sel(x)));
        assert((a + b)[a.len() as int] == node_sel(x));
        assert(seq_sels(s).contains(node_sel(x)));
        assert(!vis.contains(node_sel(x)));
        assert(!a.contains(node_sel(x)));
        assert(!v.contains(node_sel(x)));
        let vx = v.insert(node_sel(x));
        assert forall|y: SelView| c.contains(y) implies !vx.contains(y) by {
            let j = choose|j: int| 0 <= j < c.len() && c[j] == y;
            assert(b[1 + j] == y);
            assert(b.contains(y));
            assert((a + b)[a.len() + 1 + j] == y);
            assert(seq_sels(s).contains(y));
            assert(!vis.contains(y));
            assert(!a.contains(y));
            assert(one[0] == node_sel(x));
            assert(one.contains(node_sel(x)));
            assert(y != node_sel(x));
        }
        lemma_fix_node_keeps(x, vx);
        let (x2, v2) = fix_node(x, vx);
        assert(fix_seq(s, vis) == (r.push(x2), v2));
        assert(r.push(x) =~= s);
        assert forall|y: SelView| fix_seq(s, vis).1.contains(y) <==> vis.contains(y) || seq_sels(s).contains(y) by {
            assert(v2.contains(y) <==> vx.contains(y) || c.contains(y));
            assert(v.contains(y) <==> vis.contains(y) || a.contains(y));
            if b.contains(y) {
                let j = choose|j: int| 0 <= j < b.len() && b[j] == y;
                assert((a + b)[a.len() + j] == y);
                if j > 0 {
                    assert(c[j - 1] == y);
                }
            }
            if a.contains(y) {
                let i = choose|i: int| 0 <= i < a.len() && a[i] == y;
                assert((a + b)[i] == y);
            }
            if c.contains(y) {
                let j = choose|j: int| 0 <= j < c.len() && c[j] == y;
                assert((a + b)[a.len() + 1 + j] == y);
            }
            if seq_sels(s).contains(y) {
                let i = choose|i: int| 0 <= i < (a + b).len() && (a + b)[i] == y;
                if i < a.len() {
                    assert(a[i] == y);
                } else if i == a.len() {
                    assert(y == node_sel(x));
                } else {
                    assert(c[i - a.len() - 1] == y);
                }
            }
        }
    }
}

/// Repairing the sidebar a second time changes nothing.
pub proof fn law_fix_is_idempotent(s: Seq<NodeView>)
    ensures
        fix_seq(fix_seq(s, Set::empty()).0, Set::empty()).0 == fix_seq(s, Set::empty()).0,
{
    lemma_fix_seq(s, Set::empty());
    lemma_fix_seq_keeps(fix_seq(s, Set::empty()).0, Set::empty());
}

} // verus!
