use vstd::prelude::*;
use crate::instance::InstanceKind;
use super::types::{NodeView, size, size_seq};
use super::laws::{lemma_size_concat, lemma_size_one};
use super::walk::{
    WalkerView,
    WalkState,
    instance_step,
    walk_node_s,
    walk_down_s,
    walk_up_s,
    with_total,
};

verus! {

/// How far a walk has come: 0 while looking for the selection, 1 while
/// looking for the next instance, 2 once done.
pub open spec fn rank(s: WalkState) -> nat {
    match s {
        WalkState::FindingCurrentSelected => 0,
        WalkState::FindingNextSelected => 1,
        WalkState::Found { .. } => 2,
    }
}

/// Two walker values agree on everything but the row count.
pub open spec fn marks_same(a: WalkerView, b: WalkerView) -> bool {
    &&& a.sel == b.sel
    &&& a.cur == b.cur
    &&& a.next == b.next
    &&& a.state == b.state
    &&& a.shift == b.shift
    &&& a.op == b.op
}

/// The row indices of a walker are rows already counted, and are set only
/// once their stage is passed.
pub open spec fn walk_inv(w: WalkerView) -> bool {
    &&& w.cur <= w.total
    &&& w.next <= w.total
    &&& (w.state is FindingCurrentSelected ==> w.cur == 0)
    &&& (!(w.state is FindingCurrentSelected) ==> w.cur < w.total)
    &&& (!(w.state is Found) ==> w.next == 0)
    &&& (w.state is Found ==> w.next < w.total)
}

/// What every step of a walk keeps.
pub open spec fn step_ok(w: WalkerView, r: WalkerView, lo: nat, hi: nat) -> bool {
    &&& r.shift == w.shift
    &&& r.op == w.op
    &&& rank(r.state) >= rank(w.state)
    &&& (rank(r.state) == rank(w.state) ==> marks_same(w, r))
    &&& w.total + lo <= r.total <= w.total + hi
    &&& (walk_inv(w) ==> walk_inv(r))
    &&& (!(r.state is Found) ==> r.sel == w.sel)
}

/// A sequence split into its first node and the rest.
pub proof fn lemma_size_first(s: Seq<NodeView>)
    requires
        s.len() > 0,
    ensures
        size_seq(s) == size(s[0]) + size_seq(s.subrange(1, s.len() as int)),
{
    lemma_size_concat(seq![s[0]], s.subrange(1, s.len() as int));
    lemma_size_one(s[0]);
    assert(seq![s[0]] + s.subrange(1, s.len() as int) =~= s);
}

pub proof fn lemma_size_last(s: Seq<NodeView>)
    requires
        s.len() > 0,
    ensures
        size_seq(s) == size_seq(s.subrange(0, s.len() - 1)) + size(s[s.len() - 1]),
{
    assert(s.subrange(0, s.len() - 1) =~= s.drop_last());
}

proof fn lemma_instance_step(w: WalkerView, name: Seq<char>, kind: InstanceKind, force: bool)
    ensures
        step_ok(w, instance_step(w, name, kind, force), 1, 1),
{
}

pub proof fn lemma_node_basic(w: WalkerView, n: NodeView, force: bool)
    ensures
        step_ok(w, walk_node_s(w, n, force).0, 1, size(n)),
        size(walk_node_s(w, n, force).1) == size(n),
    decreases n,
{
    match n {
        NodeView::Instance { name, kind } => {
            lemma_instance_step(w, name, kind, force);
        },
        NodeView::Folder { name, id, expanded, children } => {
            let up = w.op is Up;
            let w0 = if up { w } else { with_total(w, w.total + 1) };
            if up {
                lemma_up_basic(w0, children, w.shift && !expanded);
            } else {
                lemma_down_basic(w0, children, w.shift && !expanded);
            }
        },
    }
}

pub proof fn lemma_down_basic(w: WalkerView, s: Seq<NodeView>, force: bool)
    ensures
        step_ok(w, walk_down_s(w, s, force).0, s.len(), size_seq(s)),
        walk_down_s(w, s, force).1.len() == s.len(),
        size_seq(walk_down_s(w, s, force).1) == size_seq(s),
    decreases s,
{
    if s.len() > 0 {
        let a = walk_down_s(w, s.subrange(0, s.len() - 1), force);
        let b = walk_node_s(a.0, s[s.len() - 1], force);
        lemma_down_basic(w, s.subrange(0, s.len() - 1), force);
        lemma_node_basic(a.0, s[s.len() - 1], force);
        lemma_size_last(s);
        assert(a.1.push(b.1).drop_last() =~= a.1);
    }
}

pub proof fn lemma_up_basic(w: WalkerView, s: Seq<NodeView>, force: bool)
    ensures
        step_ok(w, walk_up_s(w, s, force).0, s.len(), size_seq(s)),
        walk_up_s(w, s, force).1.len() == s.len(),
        size_seq(walk_up_s(w, s, force).1) == size_seq(s),
    decreases s,
{
    if s.len() > 0 {
        let a = walk_up_s(w, s.subrange(1, s.len() as int), force);
        let b = walk_node_s(a.0, s[0], force);
        lemma_up_basic(w, s.subrange(1, s.len() as int), force);
        lemma_node_basic(a.0, s[0], force);
        lemma_size_first(s);
        lemma_size_concat(seq![b.1], a.1);
        lemma_size_one(b.1);
    }
}

} // verus!
