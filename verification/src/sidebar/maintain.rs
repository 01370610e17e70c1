use vstd::prelude::*;
use crate::instance::InstanceKind;
use crate::text::string_of;
use super::types::{NodeView, SidebarNode, SidebarNodeKind, SidebarFolder, views, size, size_seq};
use super::lemmas::{lemma_size_child, lemma_views_push, lemma_views_remove};
use super::ops::{SidebarConfig, seq_has_instance};

verus! {

/// The characters of each name.
pub open spec fn names_view(v: Seq<String>) -> Seq<Seq<char>> {
    Seq::new(v.len(), |i: int| v[i]@)
}

/// Whether a node survives the pruning against a list of instance names:
/// folders always do, instances only when of the kind and listed.
pub open spec fn kept_by(n: NodeView, names: Seq<Seq<char>>, kind: InstanceKind) -> bool {
    match n {
        NodeView::Instance { name, kind: k } => k == kind && names.contains(name),
        NodeView::Folder { .. } => true,
    }
}

pub open spec fn retain_node(n: NodeView, names: Seq<Seq<char>>, kind: InstanceKind) -> NodeView
    decreases n,
{
    match n {
        NodeView::Folder { name, id, expanded, children } => NodeView::Folder {
            name,
            id,
            expanded,
            children: retain_seq(children, names, kind),
        },
        _ => n,
    }
}

/// The nodes kept by the pruning, each pruned in turn, in order.
pub open spec fn retain_seq(s: Seq<NodeView>, names: Seq<Seq<char>>, kind: InstanceKind) -> Seq<NodeView>
    decreases s,
{
    if s.len() == 0 {
        Seq::empty()
    } else {
        let r = retain_seq(s.drop_last(), names, kind);
        if kept_by(s.last(), names, kind) {
            r.push(retain_node(s.last(), names, kind))
        } else {
            r
        }
    }
}

/// Appends, in the order of `names`, an instance node for each name that the
/// sidebar does not hold yet.
pub open spec fn add_missing(s: Seq<NodeView>, names: Seq<Seq<char>>, kind: InstanceKind) -> Seq<NodeView>
    decreases names.len(),
{
    if names.len() == 0 {
        s
    } else {
        let a = add_missing(s, names.drop_last(), kind);
        if seq_has_instance(a, names.last(), kind) {
            a
        } else {
            a.push(NodeView::Instance { name: names.last(), kind })
        }
    }
}

fn name_listed(names: &Vec<String>, name: &String) -> (r: bool)
    ensures
        r == names_view(names@).contains(name@),
{
    let mut i: usize = 0;
    while i < names.len()
        invariant
            0 <= i <= names.len(),
            forall|j: int| 0 <= j < i ==> names@[j]@ != name@,
        decreases names.len() - i,
    {
        if names[i] == *name {
            assert(names_view(names@)[i as int] == name@);
            return true;
        }
        i += 1;
    }
    proof {
        if names_view(names@).contains(name@) {
            let j = choose|j: int| 0 <= j < names_view(names@).len() && names_view(names@)[j] == name@;
            assert(names@[j]@ == name@);
        }
    }
    false
}

fn retain_in_node(node: SidebarNode, names: &Vec<String>, kind: InstanceKind) -> (r: SidebarNode)
    ensures
        r@ == retain_node(node@, names_view(names@), kind),
    decreases size(node@), 0int,
{
    let SidebarNode { name, kind: nk } = node;
    match nk {
        SidebarNodeKind::Folder(f) => {
            let SidebarFolder { id, children, is_expanded } = f;
            let children = retain_in_seq(children, names, kind);
            SidebarNode { name, kind: SidebarNodeKind::Folder(SidebarFolder { id, children, is_expanded }) }
        },
        SidebarNodeKind::Instance(k) => SidebarNode { name, kind: SidebarNodeKind::Instance(k) },
    }
}

fn retain_in_seq(nodes: Vec<SidebarNode>, names: &Vec<String>, kind: InstanceKind) -> (r: Vec<SidebarNode>)
    ensures
        views(r@) == retain_seq(views(nodes@), names_view(names@), kind),
    decreases size_seq(views(nodes@)), 1int,
{
    let ghost cs = views(nodes@);
    let ghost nv = names_view(names@);
    let mut rest = nodes;
    let mut out: Vec<SidebarNode> = Vec::new();
    let ghost mut k: int = 0;
    while rest.len() > 0
        invariant
            0 <= k <= cs.len(),
            views(rest@) == cs.skip(k),
            views(out@) == retain_seq(cs.take(k), nv, kind),
            size_seq(cs) == size_seq(views(nodes@)),
            cs == views(nodes@),
            nv == names_view(names@),
        decreases rest.len(),
    {
        proof {
            assert(views(rest@).len() == rest@.len());
            lemma_size_child(cs, k);
            assert(views(rest@)[0] == cs[k]);
            assert(cs.take(k + 1).drop_last() =~= cs.take(k));
            assert(cs.take(k + 1).last() == cs[k]);
        }
        let ghost before = rest@;
        let n = rest.remove(0);
        proof {
            lemma_views_remove(before, 0);
            assert(cs.skip(k).remove(0) =~= cs.skip(k + 1));
        }
        let keep = match &n.kind {
            SidebarNodeKind::Folder(_) => true,
            SidebarNodeKind::Instance(k2) => *k2 == kind && name_listed(names, &n.name),
        };
        if keep {
            let ghost before_out = out@;
            let m = retain_in_node(n, names, kind);
            out.push(m);
            proof {
                lemma_views_push(before_out, m);
            }
        }
        proof {
            k = k + 1;
        }
    }
    proof {
        assert(cs.take(k) =~= cs);
    }
    out
}

impl SidebarConfig {
    /// Prunes the sidebar against the installed instances of one kind: an
    /// instance entry stays only if it is of that kind and listed; folders
    /// stay, with their contents pruned.
    pub fn retain_instances(&mut self, instances: &Vec<String>, instance_kind: InstanceKind)
        ensures
            final(self)@ == retain_seq(old(self)@, names_view(instances@), instance_kind),
    {
        let mut list: Vec<SidebarNode> = Vec::new();
        std::mem::swap(&mut list, &mut self.list);
        self.list = retain_in_seq(list, instances, instance_kind);
    }
}

/// Brings the sidebar in line with the list of installed instances of one
/// kind: creates the sidebar if absent, drops the entries of vanished (or
/// other-kind) instances, and appends an entry for each new instance.
pub fn update_sidebar(sidebar: &mut Option<SidebarConfig>, instances: &Vec<String>, is_server: bool)
    ensures
        *final(sidebar) is Some,
        ({
            let kind = if is_server { InstanceKind::Server } else { InstanceKind::Client };
            let start = match *old(sidebar) {
                Some(c) => c@,
                None => Seq::<NodeView>::empty(),
            };
            (*final(sidebar))->0@ == add_missing(retain_seq(start, names_view(instances@), kind), names_view(instances@), kind)
        }),
{
    let kind = if is_server { InstanceKind::Server } else { InstanceKind::Client };
    let mut config = match sidebar.take() {
        Some(c) => c,
        None => SidebarConfig { list: Vec::new() },
    };
    config.retain_instances(instances, kind);
    let ghost base = config@;
    let ghost nv = names_view(instances@);
    let mut i: usize = 0;
    while i < instances.len()
        invariant
            0 <= i <= instances.len(),
            nv == names_view(instances@),
            config@ == add_missing(base, nv.take(i as int), kind),
        decreases instances.len() - i,
    {
        proof {
            assert(nv.take(i as int + 1).drop_last() =~= nv.take(i as int));
            assert(nv.take(i as int + 1).last() == instances@[i as int]@);
        }
        if !config.contains_instance(instances[i].as_str(), kind) {
            let ghost before = config.list@;
            config.list.push(SidebarNode::new_instance(string_of(instances[i].as_str()), kind));
            proof {
                lemma_views_push(before, config.list@.last());
            }
        }
        i += 1;
    }
    proof {
        assert(nv.take(instances.len() as int) =~= nv);
    }
    *sidebar = Some(config);
}

} // verus!
