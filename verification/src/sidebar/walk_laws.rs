use vstd::prelude::*;
use crate::instance::InstanceKind;
use super::types::NodeView;
use super::ops::{node_has_instance, seq_has_instance};
use super::laws::{lemma_has_concat, lemma_has_one};
use super::walk::{
    WalkerView,
    WalkOp,
    walk_node_s,
    walk_down_s,
    walk_up_s,
    walk_seq_s,
    walk_spec,
    reset_s,
    with_total,
};
use super::walk_props::{walk_inv, lemma_node_basic, lemma_down_basic, lemma_up_basic};

verus! {

/// `b` is `a` with possibly more folders open: same entries, same names and
/// ids, and every open folder of `a` open in `b`.
pub open spec fn opened_node(a: NodeView, b: NodeView) -> bool
    decreases a,
{
    match a {
        NodeView::Instance { .. } => b == a,
        NodeView::Folder { name, id, expanded, children } => match b {
            NodeView::Folder { name: n2, id: i2, expanded: e2, children: c2 } => {
                &&& n2 == name
                &&& i2 == id
                &&& (expanded ==> e2)
                &&& opened_seq(children, c2)
            },
            _ => false,
        },
    }
}

pub open spec fn opened_seq(a: Seq<NodeView>, b: Seq<NodeView>) -> bool
    decreases a,
{
    &&& a.len() == b.len()
    &&& (a.len() == 0 || (opened_seq(a.drop_last(), b.drop_last()) && opened_node(a.last(), b.last())))
}

proof fn lemma_opened_refl_node(n: NodeView)
    ensures
        opened_node(n, n),
    decreases n,
{
    if let NodeView::Folder { children, .. } = n {
        lemma_opened_refl_seq(children);
    }
}

proof fn lemma_opened_refl_seq(s: Seq<NodeView>)
    ensures
        opened_seq(s, s),
    decreases s,
{
    if s.len() > 0 {
        lemma_opened_refl_seq(s.drop_last());
        lemma_opened_refl_node(s.last());
    }
}

proof fn lemma_opened_trans_node(a: NodeView, b: NodeView, c: NodeView)
    requires
        opened_node(a, b),
        opened_node(b, c),
    ensures
        opened_node(a, c),
    decreases a,
{
    if let NodeView::Folder { children, .. } = a {
        lemma_opened_trans_seq(children, b->children, c->children);
    }
}

proof fn lemma_opened_trans_seq(a: Seq<NodeView>, b: Seq<NodeView>, c: Seq<NodeView>)
    requires
        opened_seq(a, b),
        opened_seq(b, c),
    ensures
        opened_seq(a, c),
    decreases a,
{
    if a.len() > 0 {
        lemma_opened_trans_seq(a.drop_last(), b.drop_last(), c.drop_last());
        lemma_opened_trans_node(a.last(), b.last(), c.last());
    }
}

proof fn lemma_opened_push(a: Seq<NodeView>, b: Seq<NodeView>, x: NodeView, y: NodeView)
    requires
        opened_seq(a, b),
        opened_node(x, y),
    ensures
        opened_seq(a.push(x), b.push(y)),
{
    assert(a.push(x).drop_last() =~= a);
    assert(b.push(y).drop_last() =~= b);
}

proof fn lemma_opened_cons(a: Seq<NodeView>, b: Seq<NodeView>, x: NodeView, y: NodeView)
    requires
        opened_seq(a, b),
        opened_node(x, y),
    ensures
        opened_seq(seq![x] + a, seq![y] + b),
    decreases a.len(),
{
    if a.len() == 0 {
        assert((seq![x] + a).drop_last() =~= Seq::<NodeView>::empty());
        assert((seq![y] + b).drop_last() =~= Seq::<NodeView>::empty());
        assert(opened_seq(Seq::<NodeView>::empty(), Seq::<NodeView>::empty()));
        assert((seq![x] + a).last() == x);
        assert((seq![y] + b).last() == y);
    } else {
        lemma_opened_cons(a.drop_last(), b.drop_last(), x, y);
        assert((seq![x] + a).drop_last() =~= seq![x] + a.drop_last());
        assert((seq![y] + b).drop_last() =~= seq![y] + b.drop_last());
        assert((seq![x] + a).last() == a.last());
        assert((seq![y] + b).last() == b.last());
    }
}

proof fn lemma_opened_has_node(a: NodeView, b: NodeView, name: Seq<char>, kind: InstanceKind)
    requires
        opened_node(a, b),
    ensures
        node_has_instance(a, name, kind) == node_has_instance(b, name, kind),
    decreases a,
{
    if let NodeView::Folder { children, .. } = a {
        lemma_opened_has_seq(children, b->children, name, kind);
    }
}

proof fn lemma_opened_has_seq(a: Seq<NodeView>, b: Seq<NodeView>, name: Seq<char>, kind: InstanceKind)
    requires
        opened_seq(a, b),
    ensures
        seq_has_instance(a, name, kind) == seq_has_instance(b, name, kind),
    decreases a,
{
    if a.len() > 0 {
        lemma_opened_has_seq(a.drop_last(), b.drop_last(), name, kind);
        lemma_opened_has_node(a.last(), b.last(), name, kind);
    }
}

// ---------------------------------------------------------------------
// A walk only opens folders.
// ---------------------------------------------------------------------
proof fn lemma_node_opens(w: WalkerView, n: NodeView, force: bool)
    ensures
        opened_node(n, walk_node_s(w, n, force).1),
    decreases n,
{
    match n {
        NodeView::Instance { .. } => {},
        NodeView::Folder { name, id, expanded, children } => {
            let up = w.op is Up;
            let w0 = if up { w } else { with_total(w, w.total + 1) };
            lemma_opened_refl_seq(children);
            if up {
                lemma_up_opens(w0, children, w.shift && !expanded);
            } else {
                lemma_down_opens(w0, children, w.shift && !expanded);
            }
        },
    }
}

proof fn lemma_down_opens(w: WalkerView, s: Seq<NodeView>, force: bool)
    ensures
        opened_seq(s, walk_down_s(w, s, force).1),
    decreases s,
{
    if s.len() > 0 {
        let a = walk_down_s(w, s.subrange(0, s.len() - 1), force);
        lemma_down_opens(w, s.subrange(0, s.len() - 1), force);
        lemma_node_opens(a.0, s[s.len() - 1], force);
        let b = walk_node_s(a.0, s[s.len() - 1], force);
        lemma_opened_push(s.subrange(0, s.len() - 1), a.1, s[s.len() - 1], b.1);
        assert(s.subrange(0, s.len() - 1).push(s[s.len() - 1]) =~= s);
    }
}

proof fn lemma_up_opens(w: WalkerView, s: Seq<NodeView>, force: bool)
    ensures
        opened_seq(s, walk_up_s(w, s, force).1),
    decreases s,
{
    if s.len() > 0 {
        let a = walk_up_s(w, s.subrange(1, s.len() as int), force);
        lemma_up_opens(w, s.subrange(1, s.len() as int), force);
        lemma_node_opens(a.0, s[0], force);
        let b = walk_node_s(a.0, s[0], force);
        lemma_opened_cons(s.subrange(1, s.len() as int), a.1, s[0], b.1);
        assert(seq![s[0]] + s.subrange(1, s.len() as int) =~= s);
    }
}

proof fn lemma_seq_opens(w: WalkerView, s: Seq<NodeView>, force: bool)
    ensures
        opened_seq(s, walk_seq_s(w, s, force).1),
{
    if w.op is Up {
        lemma_up_opens(w, s, force);
    } else {
        lemma_down_opens(w, s, force);
    }
}

// ---------------------------------------------------------------------
// What a walk selects is an instance it walked over.
// ---------------------------------------------------------------------
pub open spec fn selects_from_node(w: WalkerView, r: WalkerView, n: NodeView) -> bool {
    !(w.state is Found) && r.state is Found ==> match r.sel {
        Some((nm, k)) => node_has_instance(n, nm, k),
        None => false,
    }
}

pub open spec fn selects_from_seq(w: WalkerView, r: WalkerView, s: Seq<NodeView>) -> bool {
    !(w.state is Found) && r.state is Found ==> match r.sel {
        Some((nm, k)) => seq_has_instance(s, nm, k),
        None => false,
    }
}

proof fn lemma_node_selects(w: WalkerView, n: NodeView, force: bool)
    ensures
        selects_from_node(w, walk_node_s(w, n, force).0, n),
    decreases n,
{
    match n {
        NodeView::Instance { .. } => {},
        NodeView::Folder { name, id, expanded, children } => {
            let up = w.op is Up;
            let w0 = if up { w } else { with_total(w, w.total + 1) };
            if up {
                lemma_up_selects(w0, children, w.shift && !expanded);
                lemma_up_basic(w0, children, w.shift && !expanded);
            } else {
                lemma_down_selects(w0, children, w.shift && !expanded);
                lemma_down_basic(w0, children, w.shift && !expanded);
            }
        },
    }
}

proof fn lemma_down_selects(w: WalkerView, s: Seq<NodeView>, force: bool)
    ensures
        selects_from_seq(w, walk_down_s(w, s, force).0, s),
    decreases s,
{
    if s.len() > 0 {
        let pre = s.subrange(0, s.len() - 1);
        let a = walk_down_s(w, pre, force);
        lemma_down_selects(w, pre, force);
        lemma_down_basic(w, pre, force);
        lemma_node_selects(a.0, s[s.len() - 1], force);
        lemma_node_basic(a.0, s[s.len() - 1], force);
        assert(pre =~= s.drop_last());
    }
}

proof fn lemma_up_selects(w: WalkerView, s: Seq<NodeView>, force: bool)
    ensures
        selects_from_seq(w, walk_up_s(w, s, force).0, s),
    decreases s,
{
    if s.len() > 0 {
        let suf = s.subrange(1, s.len() as int);
        let a = walk_up_s(w, suf, force);
        lemma_up_selects(w, suf, force);
        lemma_up_basic(w, suf, force);
        lemma_node_selects(a.0, s[0], force);
        lemma_node_basic(a.0, s[0], force);
        assert(seq![s[0]] + suf =~= s);
        let r = walk_up_s(w, s, force).0;
        if let Some((nm, k)) = r.sel {
            lemma_has_concat(seq![s[0]], suf, nm, k);
            lemma_has_one(s[0], nm, k);
        }
    }
}

proof fn lemma_seq_selects(w: WalkerView, s: Seq<NodeView>, force: bool)
    ensures
        selects_from_seq(w, walk_seq_s(w, s, force).0, s),
{
    if w.op is Up {
        lemma_up_selects(w, s, force);
    } else {
        lemma_down_selects(w, s, force);
    }
}

// ---------------------------------------------------------------------
// A walk to a given instance finds it wherever it is.
// ---------------------------------------------------------------------
pub open spec fn finds_in_node(w: WalkerView, r: WalkerView, n: NodeView) -> bool {
    w.op is Specific && w.state is FindingCurrentSelected ==> {
        let nm = w.op->Specific_0;
        let k = w.op->Specific_1;
        &&& node_has_instance(n, nm, k) ==> (r.state is Found && r.sel == Some((nm, k)))
        &&& !node_has_instance(n, nm, k) ==> r.state is FindingCurrentSelected
    }
}

pub open spec fn finds_in_seq(w: WalkerView, r: WalkerView, s: Seq<NodeView>) -> bool {
    w.op is Specific && w.state is FindingCurrentSelected ==> {
        let nm = w.op->Specific_0;
        let k = w.op->Specific_1;
        &&& seq_has_instance(s, nm, k) ==> (r.state is Found && r.sel == Some((nm, k)))
        &&& !seq_has_instance(s, nm, k) ==> r.state is FindingCurrentSelected
    }
}

proof fn lemma_node_finds(w: WalkerView, n: NodeView, force: bool)
    ensures
        finds_in_node(w, walk_node_s(w, n, force).0, n),
    decreases n,
{
    match n {
        NodeView::Instance { .. } => {},
        NodeView::Folder { name, id, expanded, children } => {
            let up = w.op is Up;
            let w0 = if up { w } else { with_total(w, w.total + 1) };
            if up {
                lemma_up_finds(w0, children, w.shift && !expanded);
            } else {
                lemma_down_finds(w0, children, w.shift && !expanded);
            }
        },
    }
}

proof fn lemma_down_finds(w: WalkerView, s: Seq<NodeView>, force: bool)
    ensures
        finds_in_seq(w, walk_down_s(w, s, force).0, s),
    decreases s,
{
    if s.len() > 0 {
        let pre = s.subrange(0, s.len() - 1);
        let a = walk_down_s(w, pre, force);
        lemma_down_finds(w, pre, force);
        lemma_down_basic(w, pre, force);
        lemma_node_finds(a.0, s[s.len() - 1], force);
        lemma_node_basic(a.0, s[s.len() - 1], force);
        assert(pre =~= s.drop_last());
    }
}

proof fn lemma_up_finds(w: WalkerView, s: Seq<NodeView>, force: bool)
    ensures
        finds_in_seq(w, walk_up_s(w, s, force).0, s),
    decreases s,
{
    if s.len() > 0 {
        let suf = s.subrange(1, s.len() as int);
        let a = walk_up_s(w, suf, force);
        lemma_up_finds(w, suf, force);
        lemma_up_basic(w, suf, force);
        lemma_node_finds(a.0, s[0], force);
        lemma_node_basic(a.0, s[0], force);
        assert(seq![s[0]] + suf =~= s);
        if w.op is Specific {
            lemma_has_concat(seq![s[0]], suf, w.op->Specific_0, w.op->Specific_1);
            lemma_has_one(s[0], w.op->Specific_0, w.op->Specific_1);
        }
    }
}

proof fn lemma_seq_finds(w: WalkerView, s: Seq<NodeView>, force: bool)
    ensures
        finds_in_seq(w, walk_seq_s(w, s, force).0, s),
{
    if w.op is Up {
        lemma_up_finds(w, s, force);
    } else {
        lemma_down_finds(w, s, force);
    }
}

// ---------------------------------------------------------------------
// Laws of a whole walk.
// ---------------------------------------------------------------------

/// The two passes of a walk, and the facts every pass gives.
proof fn lemma_passes(w: WalkerView, s: Seq<NodeView>)
    requires
        s.len() > 0,
    ensures
        ({
            let p1 = walk_seq_s(reset_s(w), s, false);
            let second = !(p1.0.state is Found) && !w.shift;
            let w1 = p1.0;
            let r1 = reset_s(WalkerView { sel: w1.sel, shift: true, op: w1.op, state: w1.state, cur: w1.cur, next: w1.next, total: w1.total });
            let p2 = if second { walk_seq_s(r1, p1.1, false) } else { p1 };
            &&& opened_seq(s, p2.1)
            &&& walk_inv(p2.0)
            &&& p2.0.total >= 1
            &&& p2.0.op == w.op
            &&& (p2.0.state is Found ==> match p2.0.sel {
                Some((nm, k)) => seq_has_instance(s, nm, k),
                None => false,
            })
            &&& (!(p2.0.state is Found) ==> p2.0.sel == w.sel)
            &&& (w.op is Specific && seq_has_instance(s, w.op->Specific_0, w.op->Specific_1) ==> (p2.0.state is Found
                && p2.0.sel == Some((w.op->Specific_0, w.op->Specific_1))))
        }),
{
    let r0 = reset_s(w);
    let p1 = walk_seq_s(r0, s, false);
    lemma_seq_opens(r0, s, false);
    lemma_seq_selects(r0, s, false);
    lemma_seq_finds(r0, s, false);
    if r0.op is Up {
        lemma_up_basic(r0, s, false);
    } else {
        lemma_down_basic(r0, s, false);
    }
    let second = !(p1.0.state is Found) && !w.shift;
    if second {
        let w1 = p1.0;
        let r1 = reset_s(WalkerView { sel: w1.sel, shift: true, op: w1.op, state: w1.state, cur: w1.cur, next: w1.next, total: w1.total });
        let p2 = walk_seq_s(r1, p1.1, false);
        lemma_seq_opens(r1, p1.1, false);
        lemma_seq_selects(r1, p1.1, false);
        lemma_seq_finds(r1, p1.1, false);
        if r1.op is Up {
            lemma_up_basic(r1, p1.1, false);
        } else {
            lemma_down_basic(r1, p1.1, false);
        }
        lemma_opened_trans_seq(s, p1.1, p2.1);
        if let Some((nm, k)) = p2.0.sel {
            lemma_opened_has_seq(s, p1.1, nm, k);
        }
        if w.op is Specific {
            lemma_opened_has_seq(s, p1.1, w.op->Specific_0, w.op->Specific_1);
        }
    }
}

/// A move of the selection changes nothing in the sidebar but opening
/// folders: every entry stays, with its name and place, and the sidebar holds
/// the same instances.
pub proof fn law_walk_only_opens_folders(w: WalkerView, s: Seq<NodeView>, name: Seq<char>, kind: InstanceKind)
    ensures
        opened_seq(s, walk_spec(w, s).1),
        seq_has_instance(walk_spec(w, s).1, name, kind) == seq_has_instance(s, name, kind),
{
    if s.len() > 0 {
        lemma_passes(w, s);
    } else {
        lemma_opened_refl_seq(s);
    }
    lemma_opened_has_seq(s, walk_spec(w, s).1, name, kind);
}

/// When a move finds an instance to select, that instance is in the sidebar.
pub proof fn law_walk_selects_an_entry(w: WalkerView, s: Seq<NodeView>)
    requires
        s.len() > 0,
    ensures
        walk_spec(w, s).0.state is Found ==> match walk_spec(w, s).0.sel {
            Some((nm, k)) => seq_has_instance(s, nm, k),
            None => false,
        },
{
    lemma_passes(w, s);
}

/// A move that finds nothing to select leaves the selection as it was.
pub proof fn law_walk_unfound_keeps_selection(w: WalkerView, s: Seq<NodeView>)
    ensures
        !(walk_spec(w, s).0.state is Found) ==> walk_spec(w, s).0.sel == w.sel,
{
    if s.len() > 0 {
        lemma_passes(w, s);
    }
}

/// A move to a given instance selects it whenever it is in the sidebar, in
/// whatever folder, open or closed.
pub proof fn law_walk_to_instance(w: WalkerView, s: Seq<NodeView>, name: Seq<char>, kind: InstanceKind)
    requires
        w.op == WalkOp::Specific(name, kind),
        seq_has_instance(s, name, kind),
    ensures
        walk_spec(w, s).0.state is Found,
        walk_spec(w, s).0.sel == Some((name, kind)),
{
    assert(s.len() > 0);
    lemma_passes(w, s);
}

/// On a sidebar that is not empty, the rows a move reports, that of the
/// selection before and after it, are rows of the sidebar.
pub proof fn law_walk_rows_in_range(w: WalkerView, s: Seq<NodeView>)
    requires
        s.len() > 0,
    ensures
        walk_spec(w, s).0.cur < walk_spec(w, s).0.total,
        walk_spec(w, s).0.next < walk_spec(w, s).0.total,
{
    lemma_passes(w, s);
}

proof fn lemma_down_picks_first(w: WalkerView, s: Seq<NodeView>, force: bool, name: Seq<char>, kind: InstanceKind)
    requires
        w.state is FindingCurrentSelected,
        w.sel is None,
        w.op == WalkOp::Down,
        s.len() > 0,
        s[0] == (NodeView::Instance { name, kind }),
    ensures
        walk_down_s(w, s, force).0.state is Found,
        walk_down_s(w, s, force).0.sel == Some((name, kind)),
    decreases s.len(),
{
    let pre = s.subrange(0, s.len() - 1);
    let a = walk_down_s(w, pre, force);
    assert(walk_down_s(w, s, force).0 == walk_node_s(a.0, s[s.len() - 1], force).0);
    if s.len() == 1 {
        assert(a.0 == w);
        assert(s[s.len() - 1] == s[0]);
    } else {
        assert(pre[0] == s[0]);
        lemma_down_picks_first(w, pre, force, name, kind);
        lemma_node_basic(a.0, s[s.len() - 1], force);
    }
}

proof fn lemma_up_picks_last(w: WalkerView, s: Seq<NodeView>, force: bool, name: Seq<char>, kind: InstanceKind)
    requires
        w.state is FindingCurrentSelected,
        w.sel is None,
        w.op == WalkOp::Up,
        s.len() > 0,
        s.last() == (NodeView::Instance { name, kind }),
    ensures
        walk_up_s(w, s, force).0.state is Found,
        walk_up_s(w, s, force).0.sel == Some((name, kind)),
    decreases s.len(),
{
    let post = s.subrange(1, s.len() as int);
    let a = walk_up_s(w, post, force);
    assert(walk_up_s(w, s, force).0 == walk_node_s(a.0, s[0], force).0);
    if s.len() == 1 {
        assert(a.0 == w);
        assert(s.last() == s[0]);
    } else {
        assert(post.last() == s.last());
        lemma_up_picks_last(w, post, force, name, kind);
        lemma_node_basic(a.0, s[0], force);
    }
}

/// With nothing selected, a move down selects the first row of the sidebar
/// when that row is an instance.
pub proof fn law_walk_down_without_selection_picks_first(w: WalkerView, s: Seq<NodeView>, name: Seq<char>, kind: InstanceKind)
    requires
        w.sel is None,
        w.op == WalkOp::Down,
        s.len() > 0,
        s[0] == (NodeView::Instance { name, kind }),
    ensures
        walk_spec(w, s).0.state is Found,
        walk_spec(w, s).0.sel == Some((name, kind)),
{
    lemma_down_picks_first(reset_s(w), s, false, name, kind);
}

/// With nothing selected, a move up selects the last row of the sidebar
/// when that row is an instance.
pub proof fn law_walk_up_without_selection_picks_last(w: WalkerView, s: Seq<NodeView>, name: Seq<char>, kind: InstanceKind)
    requires
        w.sel is None,
        w.op == WalkOp::Up,
        s.len() > 0,
        s.last() == (NodeView::Instance { name, kind }),
    ensures
        walk_spec(w, s).0.state is Found,
        walk_spec(w, s).0.sel == Some((name, kind)),
{
    lemma_up_picks_last(reset_s(w), s, false, name, kind);
}

} // verus!
