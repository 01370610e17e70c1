use vstd::prelude::*;
use super::types::{NodeView, SelView, SidebarNode, views, size, size_seq, find_in_node, find_from};

verus! {

/// A child is no larger than the sequence it stands in.
pub proof fn lemma_size_child(s: Seq<NodeView>, i: int)
    requires
        0 <= i < s.len(),
    ensures
        size(s[i]) <= size_seq(s),
    decreases s.len(),
{
    if i < s.len() - 1 {
        lemma_size_child(s.drop_last(), i);
        assert(s.drop_last()[i] == s[i]);
    }
}

/// The values of an updated sequence of nodes.
pub proof fn lemma_views_update(s: Seq<SidebarNode>, i: int, x: SidebarNode)
    requires
        0 <= i < s.len(),
    ensures
        views(s.update(i, x)) == views(s).update(i, x@),
{
    assert(views(s.update(i, x)) =~= views(s).update(i, x@));
}

pub proof fn lemma_views_push(s: Seq<SidebarNode>, x: SidebarNode)
    ensures
        views(s.push(x)) == views(s).push(x@),
{
    assert(views(s.push(x)) =~= views(s).push(x@));
}

pub proof fn lemma_views_insert(s: Seq<SidebarNode>, i: int, x: SidebarNode)
    requires
        0 <= i <= s.len(),
    ensures
        views(s.insert(i, x)) == views(s).insert(i, x@),
{
    assert(views(s.insert(i, x)) =~= views(s).insert(i, x@));
}

pub proof fn lemma_views_remove(s: Seq<SidebarNode>, i: int)
    requires
        0 <= i < s.len(),
    ensures
        views(s.remove(i)) == views(s).remove(i),
{
    assert(views(s.remove(i)) =~= views(s).remove(i));
}

/// A preorder search step: a match inside `s[i]` gives a path through `i`.
pub proof fn lemma_path_cons(i: int, q: Seq<int>)
    ensures
        (seq![i] + q).len() == q.len() + 1,
        (seq![i] + q)[0] == i,
        (seq![i] + q).drop_first() == q,
{
    assert((seq![i] + q).drop_first() =~= q);
}


/// A match found in a sequence is reached through an index into it.
pub proof fn lemma_find_from_nonempty(s: Seq<NodeView>, sel: SelView, i: int)
    ensures
        find_from(s, sel, i) matches Some(p) ==> p.len() > 0 && i <= p[0] < s.len(),
    decreases s.len() - i,
{
    if 0 <= i < s.len() {
        match find_in_node(s[i], sel) {
            Some(q) => {
                lemma_path_cons(i, q);
            },
            None => {
                lemma_find_from_nonempty(s, sel, i + 1);
            },
        }
    }
}


/// The parent and position of a path that starts with `i`.
pub proof fn lemma_path_parent(i: int, q: Seq<int>)
    ensures
        q.len() == 0 ==> (seq![i] + q).drop_last() == Seq::<int>::empty() && (seq![i] + q).last() == i,
        q.len() > 0 ==> (seq![i] + q).drop_last() == seq![i] + q.drop_last() && (seq![i] + q).last() == q.last(),
{
    if q.len() == 0 {
        assert((seq![i] + q).drop_last() =~= Seq::<int>::empty());
    } else {
        assert((seq![i] + q).drop_last() =~= seq![i] + q.drop_last());
    }
}

pub proof fn lemma_cons_first(i: int, q: Seq<int>)
    ensures
        (seq![i] + q)[0] == i,
        (seq![i] + q).drop_first() == q,
        (seq![i] + q).len() > 0,
{
    assert((seq![i] + q).drop_first() =~= q);
}


pub proof fn lemma_views_concat(a: Seq<SidebarNode>, b: Seq<SidebarNode>)
    ensures
        views(a + b) == views(a) + views(b),
{
    assert(views(a + b) =~= views(a) + views(b));
}

} // verus!
