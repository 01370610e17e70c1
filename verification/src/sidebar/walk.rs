use vstd::prelude::*;
use crate::instance::{Instance, InstanceKind, opt_view};
use super::types::{NodeView, SidebarNode, SidebarNodeKind, SidebarFolder, views, size, size_seq};
use super::lemmas::{lemma_size_child, lemma_views_update};
use super::laws::lemma_size_concat;
use super::walk_props::{lemma_up_basic, lemma_down_basic, lemma_size_first, lemma_size_last};

verus! {

/// How the selection moves through the sidebar.
#[derive(Debug)]
pub enum InstSelectOperation {
    Down,
    Up,
    Specific(Instance),
}

/// The value of a selection move.
pub enum WalkOp {
    Down,
    Up,
    Specific(Seq<char>, InstanceKind),
}

impl View for InstSelectOperation {
    type V = WalkOp;

    open spec fn view(&self) -> WalkOp {
        match self {
            InstSelectOperation::Down => WalkOp::Down,
            InstSelectOperation::Up => WalkOp::Up,
            InstSelectOperation::Specific(i) => WalkOp::Specific(i.name@, i.kind),
        }
    }
}

/// Progress of a walk: looking for the selected instance, then for the one
/// that follows it, then done.
#[derive(Debug, Clone, Copy, PartialEq, Eq, Structural)]
pub enum WalkState {
    FindingCurrentSelected,
    FindingNextSelected,
    Found { force_expanded: bool },
}

/// Walks the sidebar in display order (or in reverse, going up) to move the
/// selection by one instance, expanding folders on the way where needed,
/// and counts the visible rows to place the scroll position.
#[derive(Debug)]
pub struct SidebarWalker {
    pub selected_instance: Option<Instance>,
    pub shift_pressed: bool,
    pub op: InstSelectOperation,
    pub state: WalkState,
    pub current_selected_idx: usize,
    pub next_selected_idx: usize,
    pub total_len: usize,
}

/// The value of a walker.
pub struct WalkerView {
    pub sel: Option<(Seq<char>, InstanceKind)>,
    pub shift: bool,
    pub op: WalkOp,
    pub state: WalkState,
    pub cur: nat,
    pub next: nat,
    pub total: nat,
}

impl View for SidebarWalker {
    type V = WalkerView;

    open spec fn view(&self) -> WalkerView {
        WalkerView {
            sel: opt_view(self.selected_instance),
            shift: self.shift_pressed,
            op: self.op@,
            state: self.state,
            cur: self.current_selected_idx as nat,
            next: self.next_selected_idx as nat,
            total: self.total_len as nat,
        }
    }
}

pub open spec fn with_total(w: WalkerView, t: nat) -> WalkerView {
    WalkerView { sel: w.sel, shift: w.shift, op: w.op, state: w.state, cur: w.cur, next: w.next, total: t }
}

/// The walk passing over one instance row. Looking for the selected instance
/// with nothing selected, the first instance met is picked.
pub open spec fn instance_step(w: WalkerView, name: Seq<char>, kind: InstanceKind, force: bool) -> WalkerView {
    let t = w.total;
    let found = WalkState::Found { force_expanded: force };
    let w1 = match w.state {
        WalkState::FindingCurrentSelected => match w.op {
            WalkOp::Specific(iname, ikind) => if name == iname && kind == ikind {
                WalkerView { sel: Some((iname, ikind)), shift: w.shift, op: w.op, state: found, cur: w.cur, next: t, total: t }
            } else {
                w
            },
            _ => match w.sel {
                Some(s) => if name == s.0 && kind == s.1 {
                    WalkerView { sel: w.sel, shift: w.shift, op: w.op, state: WalkState::FindingNextSelected, cur: t, next: w.next, total: t }
                } else {
                    w
                },
                None => WalkerView { sel: Some((name, kind)), shift: w.shift, op: w.op, state: found, cur: t, next: t, total: t },
            },
        },
        WalkState::FindingNextSelected => WalkerView {
            sel: Some((name, kind)),
            shift: w.shift,
            op: w.op,
            state: found,
            cur: w.cur,
            next: t,
            total: t,
        },
        WalkState::Found { .. } => w,
    };
    with_total(w1, t + 1)
}

/// The walk passing over a node: an instance row, or a folder row and, when
/// the folder is open or must be searched, its children.
pub open spec fn walk_node_s(w: WalkerView, n: NodeView, force: bool) -> (WalkerView, NodeView)
    decreases n,
{
    match n {
        NodeView::Instance { name, kind } => (instance_step(w, name, kind, force), n),
        NodeView::Folder { name, id, expanded, children } => {
            let up = w.op is Up;
            let w0 = if up { w } else { with_total(w, w.total + 1) };
            let search = w.state is FindingCurrentSelected || w.op is Specific || expanded || w.shift;
            let inner = if up {
                walk_up_s(w0, children, w.shift && !expanded)
            } else {
                walk_down_s(w0, children, w.shift && !expanded)
            };
            let wc = inner.0;
            let cc = inner.1;
            let w1 = if !search {
                w0
            } else if w0.state != wc.state {
                wc
            } else if !expanded {
                with_total(wc, w0.total)
            } else {
                wc
            };
            let e1 = if search && w0.state != wc.state { true } else { expanded };
            let c1 = if search { cc } else { children };
            let w2 = if up { with_total(w1, w1.total + 1) } else { w1 };
            (w2, NodeView::Folder { name, id, expanded: e1, children: c1 })
        },
    }
}

/// The walk over a sequence of nodes in display order.
pub open spec fn walk_down_s(w: WalkerView, s: Seq<NodeView>, force: bool) -> (WalkerView, Seq<NodeView>)
    decreases s,
{
    if s.len() == 0 {
        (w, s)
    } else {
        let a = walk_down_s(w, s.subrange(0, s.len() - 1), force);
        let b = walk_node_s(a.0, s[s.len() - 1], force);
        (b.0, a.1.push(b.1))
    }
}

/// The walk over a sequence of nodes from the last to the first.
pub open spec fn walk_up_s(w: WalkerView, s: Seq<NodeView>, force: bool) -> (WalkerView, Seq<NodeView>)
    decreases s,
{
    if s.len() == 0 {
        (w, s)
    } else {
        let a = walk_up_s(w, s.subrange(1, s.len() as int), force);
        let b = walk_node_s(a.0, s[0], force);
        (b.0, seq![b.1] + a.1)
    }
}

/// The walk over a sequence in the direction of the move.
pub open spec fn walk_seq_s(w: WalkerView, s: Seq<NodeView>, force: bool) -> (WalkerView, Seq<NodeView>) {
    if w.op is Up {
        walk_up_s(w, s, force)
    } else {
        walk_down_s(w, s, force)
    }
}

pub open spec fn reset_s(w: WalkerView) -> WalkerView {
    WalkerView {
        sel: w.sel,
        shift: w.shift,
        op: w.op,
        state: WalkState::FindingCurrentSelected,
        cur: 0,
        next: 0,
        total: 0,
    }
}

/// A whole walk over the sidebar: one pass, and a second one with folders
/// opened as if shift were held when the first found nothing; going up, the
/// row indices are then counted from the top.
pub open spec fn walk_spec(w: WalkerView, s: Seq<NodeView>) -> (WalkerView, Seq<NodeView>) {
    if s.len() == 0 {
        (w, s)
    } else {
        let p1 = walk_seq_s(reset_s(w), s, false);
        let second = !(p1.0.state is Found) && !w.shift;
        let p2 = if second {
            let w1 = p1.0;
            walk_seq_s(
                reset_s(WalkerView { sel: w1.sel, shift: true, op: w1.op, state: w1.state, cur: w1.cur, next: w1.next, total: w1.total }),
                p1.1,
                false,
            )
        } else {
            p1
        };
        let w2 = p2.0;
        let w3 = if w.op is Up {
            WalkerView {
                sel: w2.sel,
                shift: w2.shift,
                op: w2.op,
                state: w2.state,
                cur: (w2.total - w2.cur - 1) as nat,
                next: (w2.total - w2.next - 1) as nat,
                total: w2.total,
            }
        } else {
            w2
        };
        let w4 = if w3.state is FindingNextSelected {
            WalkerView { sel: w3.sel, shift: w3.shift, op: w3.op, state: w3.state, cur: w3.cur, next: w3.cur, total: w3.total }
        } else {
            w3
        };
        (w4, p2.1)
    }
}


impl SidebarWalker {
    /// Moves the selection one instance down or up, or to a given instance,
    /// opening folders on the way where needed, and records the row of the
    /// newly selected instance and the number of rows.
    pub fn walk(&mut self, nodes: &mut Vec<SidebarNode>)
        requires
            size_seq(views(old(nodes)@)) <= usize::MAX,
        ensures
            (final(self)@, views(final(nodes)@)) == walk_spec(old(self)@, views(old(nodes)@)),
    {
        if nodes.len() == 0 {
            return;
        }
        let ghost cs = views(nodes@);
        let ghost w = self@;
        self.reset();
        let ghost r0 = self@;
        self.walk_inner(nodes, false);
        proof {
            if r0.op is Up {
                lemma_up_basic(r0, cs, false);
            } else {
                lemma_down_basic(r0, cs, false);
            }
        }
        if !matches!(self.state, WalkState::Found { .. }) && !self.shift_pressed {
            self.shift_pressed = true;
            self.reset();
            let ghost r1 = self@;
            let ghost cs1 = views(nodes@);
            self.walk_inner(nodes, false);
            proof {
                if r1.op is Up {
                    lemma_up_basic(r1, cs1, false);
                } else {
                    lemma_down_basic(r1, cs1, false);
                }
            }
        }
        if matches!(self.op, InstSelectOperation::Up) {
            self.next_selected_idx = self.total_len - self.next_selected_idx - 1;
            self.current_selected_idx = self.total_len - self.current_selected_idx - 1;
        }
        if matches!(self.state, WalkState::FindingNextSelected) {
            self.next_selected_idx = self.current_selected_idx;
        }
    }

    pub fn new(selected_instance: Option<Instance>, shift_pressed: bool, op: InstSelectOperation) -> (r: Self)
        ensures
            r@ == (WalkerView {
                sel: opt_view(selected_instance),
                shift: shift_pressed,
                op: op@,
                state: WalkState::FindingCurrentSelected,
                cur: 0,
                next: 0,
                total: 0,
            }),
    {
        SidebarWalker {
            selected_instance,
            shift_pressed,
            op,
            state: WalkState::FindingCurrentSelected,
            current_selected_idx: 0,
            next_selected_idx: 0,
            total_len: 0,
        }
    }

    fn reset(&mut self)
        ensures
            final(self)@ == reset_s(old(self)@),
    {
        self.state = WalkState::FindingCurrentSelected;
        self.next_selected_idx = 0;
        self.current_selected_idx = 0;
        self.total_len = 0;
    }

    fn walk_instance(&mut self, name: &String, kind: InstanceKind, force_expanded: bool)
        requires
            old(self).total_len < usize::MAX,
        ensures
            final(self)@ == instance_step(old(self)@, name@, kind, force_expanded),
    {
        match self.state {
            WalkState::FindingCurrentSelected => {
                if let InstSelectOperation::Specific(inst) = &self.op {
                    if *name == inst.name && kind == inst.kind {
                        let chosen = inst.clone();
                        self.next_selected_idx = self.total_len;
                        self.selected_instance = Some(chosen);
                        self.state = WalkState::Found { force_expanded };
                    }
                } else if let Some(instance) = &self.selected_instance {
                    if *name == instance.name && kind == instance.kind {
                        self.current_selected_idx = self.total_len;
                        self.state = WalkState::FindingNextSelected;
                    }
                } else {
                    self.selected_instance = Some(Instance { name: name.clone(), kind });
                    self.current_selected_idx = self.total_len;
                    self.next_selected_idx = self.total_len;
                    self.state = WalkState::Found { force_expanded };
                }
            },
            WalkState::FindingNextSelected => {
                self.selected_instance = Some(Instance { name: name.clone(), kind });
                self.next_selected_idx = self.total_len;
                self.state = WalkState::Found { force_expanded };
            },
            WalkState::Found { .. } => {},
        }
        self.total_len += 1;
    }

    fn walk_node(&mut self, node: &mut SidebarNode, force_expanded: bool)
        requires
            old(self).total_len + size(old(node)@) <= usize::MAX,
        ensures
            (final(self)@, final(node)@) == walk_node_s(old(self)@, old(node)@, force_expanded),
        decreases size(old(node)@), 1int,
    {
        let going_up = matches!(self.op, InstSelectOperation::Up);
        let ghost name = node.name@;
        match &mut node.kind {
            SidebarNodeKind::Folder(folder) => {
                self.walk_folder(going_up, folder, Ghost(name));
            },
            SidebarNodeKind::Instance(kind) => {
                let kind = *kind;
                self.walk_instance(&node.name, kind, force_expanded);
            },
        }
    }

    fn walk_folder(&mut self, going_up: bool, folder: &mut SidebarFolder, Ghost(name): Ghost<Seq<char>>)
        requires
            going_up == (old(self)@.op is Up),
            old(self).total_len + 1 + size_seq(views(old(folder).children@)) <= usize::MAX,
        ensures
            ({
                let r = walk_node_s(
                    old(self)@,
                    NodeView::Folder {
                        name,
                        id: old(folder).id.0,
                        expanded: old(folder).is_expanded,
                        children: views(old(folder).children@),
                    },
                    false,
                );
                &&& final(self)@ == r.0
                &&& r.1 == (NodeView::Folder {
                    name,
                    id: final(folder).id.0,
                    expanded: final(folder).is_expanded,
                    children: views(final(folder).children@),
                })
            }),
        decreases 1 + size_seq(views(old(folder).children@)), 0int,
    {
        let ghost w = self@;
        let ghost cs = views(folder.children@);
        if !going_up {
            self.total_len += 1;
        }
        let ghost w0 = self@;
        if matches!(self.state, WalkState::FindingCurrentSelected) || matches!(self.op, InstSelectOperation::Specific(_))
            || folder.is_expanded || self.shift_pressed {
            let old_state = self.state;
            let old_len = self.total_len;
            let f = self.shift_pressed && !folder.is_expanded;
            self.walk_inner(&mut folder.children, f);
            proof {
                if going_up {
                    lemma_up_basic(w0, cs, f);
                } else {
                    lemma_down_basic(w0, cs, f);
                }
            }
            if old_state != self.state {
                folder.is_expanded = true;
            } else if !folder.is_expanded {
                self.total_len = old_len;
            }
        }
        if going_up {
            self.total_len += 1;
        }
    }

    fn walk_inner(&mut self, nodes: &mut Vec<SidebarNode>, force_expanded: bool)
        requires
            old(self).total_len + size_seq(views(old(nodes)@)) <= usize::MAX,
        ensures
            (final(self)@, views(final(nodes)@)) == walk_seq_s(old(self)@, views(old(nodes)@), force_expanded),
        decreases size_seq(views(old(nodes)@)), 2int,
    {
        let ghost cs = views(nodes@);
        let ghost w0 = self@;
        let n = nodes.len();
        if matches!(self.op, InstSelectOperation::Up) {
            let mut i = n;
            proof {
                assert(cs.subrange(n as int, n as int) =~= Seq::<NodeView>::empty());
                assert(views(nodes@).subrange(n as int, n as int) =~= Seq::<NodeView>::empty());
            }
            while i > 0
                invariant
                    0 <= i <= n,
                    nodes.len() == n,
                    cs.len() == n,
                    cs == views(old(nodes)@),
                    w0.op is Up,
                    w0.total + size_seq(cs) <= usize::MAX,
                    walk_up_s(w0, cs.subrange(i as int, n as int), force_expanded) == (self@, views(nodes@).subrange(i as int, n as int)),
                    forall|j: int| 0 <= j < i ==> #[trigger] views(nodes@)[j] == cs[j],
                decreases i,
            {
                i -= 1;
                let ghost before = nodes@;
                let ghost wb = self@;
                proof {
                    lemma_up_basic(w0, cs.subrange(i + 1, n as int), force_expanded);
                    lemma_size_concat(cs.subrange(0, i as int), cs.subrange(i as int, n as int));
                    assert(cs.subrange(0, i as int) + cs.subrange(i as int, n as int) =~= cs);
                    lemma_size_first(cs.subrange(i as int, n as int));
                    assert(cs.subrange(i as int, n as int).subrange(1, n - i) =~= cs.subrange(i + 1, n as int));
                    assert(views(before)[i as int] == cs[i as int]);
                    lemma_size_child(cs, i as int);
                }
                self.walk_node(&mut nodes[i], force_expanded);
                proof {
                    lemma_views_update(before, i as int, nodes@[i as int]);
                    assert(nodes@ == before.update(i as int, nodes@[i as int]));
                    let suf = cs.subrange(i as int, n as int);
                    assert(suf[0] == cs[i as int]);
                    assert(views(nodes@).subrange(i as int, n as int) =~= seq![nodes@[i as int]@] + views(before).subrange(i + 1, n as int));
                    assert forall|j: int| 0 <= j < i implies #[trigger] views(nodes@)[j] == cs[j] by {
                        assert(views(before)[j] == cs[j]);
                    }
                }
            }
            proof {
                assert(cs.subrange(0, n as int) =~= cs);
                assert(views(nodes@).subrange(0, n as int) =~= views(nodes@));
            }
        } else {
            let mut i: usize = 0;
            proof {
                assert(cs.subrange(0, 0) =~= Seq::<NodeView>::empty());
                assert(views(nodes@).subrange(0, 0) =~= Seq::<NodeView>::empty());
            }
            while i < n
                invariant
                    0 <= i <= n,
                    nodes.len() == n,
                    cs.len() == n,
                    cs == views(old(nodes)@),
                    !(w0.op is Up),
                    w0.total + size_seq(cs) <= usize::MAX,
                    walk_down_s(w0, cs.subrange(0, i as int), force_expanded) == (self@, views(nodes@).subrange(0, i as int)),
                    forall|j: int| i <= j < n ==> #[trigger] views(nodes@)[j] == cs[j],
                decreases n - i,
            {
                let ghost before = nodes@;
                proof {
                    lemma_down_basic(w0, cs.subrange(0, i as int), force_expanded);
                    lemma_size_concat(cs.subrange(0, i + 1), cs.subrange(i + 1, n as int));
                    assert(cs.subrange(0, i + 1) + cs.subrange(i + 1, n as int) =~= cs);
                    lemma_size_last(cs.subrange(0, i + 1));
                    assert(cs.subrange(0, i + 1).subrange(0, i as int) =~= cs.subrange(0, i as int));
                    assert(views(before)[i as int] == cs[i as int]);
                    lemma_size_child(cs, i as int);
                }
                self.walk_node(&mut nodes[i], force_expanded);
                proof {
                    lemma_views_update(before, i as int, nodes@[i as int]);
                    assert(nodes@ == before.update(i as int, nodes@[i as int]));
                    let pre = cs.subrange(0, i + 1);
                    assert(pre[i as int] == cs[i as int]);
                    assert(views(nodes@).subrange(0, i + 1) =~= views(before).subrange(0, i as int).push(nodes@[i as int]@));
                    assert forall|j: int| i + 1 <= j < n implies #[trigger] views(nodes@)[j] == cs[j] by {
                        assert(views(before)[j] == cs[j]);
                    }
                }
                i += 1;
            }
            proof {
                assert(cs.subrange(0, n as int) =~= cs);
                assert(views(nodes@).subrange(0, n as int) =~= views(nodes@));
            }
        }
    }
}

} // verus!
