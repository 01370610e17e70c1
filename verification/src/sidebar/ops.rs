use vstd::prelude::*;
use crate::instance::InstanceKind;
use crate::text::{str_eq, string_of};
use super::types::{
    NodeView,
    SelView,
    SidebarNode,
    SidebarNodeKind,
    SidebarFolder,
    SidebarSelection,
    FolderId,
    views,
    node_sel,
    with_name,
    size,
    size_seq,
    node_at_node,
    node_at,
    update_in_node,
    update_at,
    find_in_node,
    find_from,
    find_pre,
};
use super::lemmas::{
    lemma_find_from_nonempty,
    lemma_size_child,
    lemma_views_update,
    lemma_path_cons,
};

verus! {

/// Whether a node holds, itself or below it, the instance of that name and kind.
pub open spec fn node_has_instance(n: NodeView, name: Seq<char>, kind: InstanceKind) -> bool
    decreases n,
{
    match n {
        NodeView::Instance { name: nm, kind: k } => nm == name && k == kind,
        NodeView::Folder { children, .. } => seq_has_instance(children, name, kind),
    }
}

/// Whether some node of the sequence holds the instance.
pub open spec fn seq_has_instance(s: Seq<NodeView>, name: Seq<char>, kind: InstanceKind) -> bool
    decreases s,
{
    if s.len() == 0 {
        false
    } else {
        seq_has_instance(s.drop_last(), name, kind) || node_has_instance(s.last(), name, kind)
    }
}

pub proof fn lemma_seq_has_instance(s: Seq<NodeView>, name: Seq<char>, kind: InstanceKind)
    ensures
        seq_has_instance(s, name, kind) <==> exists|i: int|
            0 <= i < s.len() && #[trigger] node_has_instance(s[i], name, kind),
    decreases s.len(),
{
    if s.len() > 0 {
        lemma_seq_has_instance(s.drop_last(), name, kind);
        if seq_has_instance(s.drop_last(), name, kind) {
            let i = choose|i: int|
                0 <= i < s.drop_last().len() && #[trigger] node_has_instance(s.drop_last()[i], name, kind);
            assert(s.drop_last()[i] == s[i]);
        }
        if node_has_instance(s.last(), name, kind) {
            assert(node_has_instance(s[s.len() - 1], name, kind));
        }
        if exists|i: int| 0 <= i < s.len() && #[trigger] node_has_instance(s[i], name, kind) {
            let i = choose|i: int| 0 <= i < s.len() && #[trigger] node_has_instance(s[i], name, kind);
            if i < s.len() - 1 {
                assert(s.drop_last()[i] == s[i]);
            }
        }
    }
}

impl SidebarNode {
    /// Whether this node refers to the selected entry.
    pub fn eq_selection(&self, sel: &SidebarSelection) -> (r: bool)
        ensures
            r == (node_sel(self@) == sel@),
    {
        match sel {
            SidebarSelection::Instance(name, instance_kind) => {
                if let SidebarNodeKind::Instance(kind) = &self.kind {
                    if *kind == *instance_kind {
                        return self.name == *name;
                    }
                }
            },
            SidebarSelection::Folder(folder_id) => {
                if let SidebarNodeKind::Folder(f) = &self.kind {
                    return f.id.0 == folder_id.0;
                }
            },
        }
        false
    }

    /// Whether this node holds, itself or below it, the given instance.
    pub fn contains_instance(&self, name: &str, instance_kind: InstanceKind) -> (r: bool)
        ensures
            r == node_has_instance(self@, name@, instance_kind),
        decreases size(self@),
    {
        match &self.kind {
            SidebarNodeKind::Instance(kind) => *kind == instance_kind && str_eq(
                self.name.as_str(),
                name,
            ),
            SidebarNodeKind::Folder(f) => {
                let ghost cs = views(f.children@);
                let mut i: usize = 0;
                while i < f.children.len()
                    invariant
                        0 <= i <= f.children.len(),
                        cs == views(f.children@),
                        self@ == (NodeView::Folder {
                            name: self.name@,
                            id: f.id.0,
                            expanded: f.is_expanded,
                            children: cs,
                        }),
                        forall|j: int| 0 <= j < i ==> !node_has_instance(#[trigger] cs[j], name@, instance_kind),
                    decreases f.children.len() - i,
                {
                    proof {
                        lemma_size_child(cs, i as int);
                    }
                    if f.children[i].contains_instance(name, instance_kind) {
                        proof {
                            lemma_seq_has_instance(cs, name@, instance_kind);
                        }
                        return true;
                    }
                    i += 1;
                }
                proof {
                    lemma_seq_has_instance(cs, name@, instance_kind);
                }
                false
            },
        }
    }
}


/// The sidebar: a list of top-level nodes, in display order.
#[derive(Debug)]
pub struct SidebarConfig {
    pub list: Vec<SidebarNode>,
}

impl View for SidebarConfig {
    type V = Seq<NodeView>;

    open spec fn view(&self) -> Seq<NodeView> {
        views(self.list@)
    }
}

/// The value of the first node in preorder that refers to `sel`.
pub open spec fn found_node(s: Seq<NodeView>, sel: SelView) -> Option<NodeView> {
    match find_pre(s, sel) {
        Some(p) => Some(node_at(s, p)),
        None => None,
    }
}

fn get_in_node<'a>(node: &'a SidebarNode, sel: &SidebarSelection) -> (r: Option<&'a SidebarNode>)
    ensures
        match find_in_node(node@, sel@) {
            Some(q) => r is Some && r->0@ == node_at_node(node@, q),
            None => r is None,
        },
    decreases size(node@), 0int,
{
    if node.eq_selection(sel) {
        return Some(node);
    }
    match &node.kind {
        SidebarNodeKind::Instance(_) => None,
        SidebarNodeKind::Folder(f) => {
            let r = get_in_seq(&f.children, sel);
            proof {
                lemma_find_from_nonempty(views(f.children@), sel@, 0);
            }
            r
        },
    }
}

fn get_in_seq<'a>(nodes: &'a Vec<SidebarNode>, sel: &SidebarSelection) -> (r: Option<&'a SidebarNode>)
    ensures
        match find_pre(views(nodes@), sel@) {
            Some(p) => r is Some && r->0@ == node_at(views(nodes@), p),
            None => r is None,
        },
    decreases size_seq(views(nodes@)), 1int,
{
    let ghost cs = views(nodes@);
    let mut i: usize = 0;
    while i < nodes.len()
        invariant
            0 <= i <= nodes.len(),
            cs == views(nodes@),
            find_pre(cs, sel@) == find_from(cs, sel@, i as int),
        decreases nodes.len() - i,
    {
        proof {
            lemma_size_child(cs, i as int);
        }
        let r = get_in_node(&nodes[i], sel);
        if let Some(n) = r {
            proof {
                let q = find_in_node(cs[i as int], sel@)->0;
                lemma_path_cons(i as int, q);
            }
            return Some(n);
        }
        i += 1;
    }
    None
}

impl SidebarConfig {
    /// Whether the sidebar holds the instance of that name and kind.
    pub fn contains_instance(&self, name: &str, instance_kind: InstanceKind) -> (r: bool)
        ensures
            r == seq_has_instance(self@, name@, instance_kind),
    {
        let ghost cs = self@;
        let mut i: usize = 0;
        while i < self.list.len()
            invariant
                0 <= i <= self.list.len(),
                cs == views(self.list@),
                forall|j: int| 0 <= j < i ==> !node_has_instance(#[trigger] cs[j], name@, instance_kind),
            decreases self.list.len() - i,
        {
            if self.list[i].contains_instance(name, instance_kind) {
                proof {
                    assert(node_has_instance(cs[i as int], name@, instance_kind));
                    lemma_seq_has_instance(cs, name@, instance_kind);
                }
                return true;
            }
            i += 1;
        }
        proof {
            lemma_seq_has_instance(cs, name@, instance_kind);
        }
        false
    }

    /// The first node, in display order, that the selection refers to.
    pub fn get_node(&self, selection: &SidebarSelection) -> (r: Option<&SidebarNode>)
        ensures
            r matches Some(n) ==> found_node(self@, selection@) == Some(n@),
            r is None ==> found_node(self@, selection@) is None,
    {
        get_in_seq(&self.list, selection)
    }
}


/// The node at the first match, renamed.
pub open spec fn renamed_at(s: Seq<NodeView>, p: Seq<int>, nm: Seq<char>) -> Seq<NodeView> {
    update_at(s, p, with_name(node_at(s, p), nm))
}

/// Folders with this id have their expanded state flipped; the children of a
/// flipped folder are left as they are.
pub open spec fn toggle_node(n: NodeView, id: u128) -> NodeView
    decreases n,
{
    match n {
        NodeView::Folder { name, id: fid, expanded, children } => if fid == id {
            NodeView::Folder { name, id: fid, expanded: !expanded, children }
        } else {
            NodeView::Folder { name, id: fid, expanded, children: toggle_seq(children, id) }
        },
        _ => n,
    }
}

pub open spec fn toggle_seq(s: Seq<NodeView>, id: u128) -> Seq<NodeView>
    decreases s,
{
    Seq::new(s.len(), |i: int| if 0 <= i < s.len() { toggle_node(s[i], id) } else { s[0] })
}

fn rename_in_node(node: &mut SidebarNode, sel: &SidebarSelection, new_name: &str) -> (found: bool)
    ensures
        match find_in_node(old(node)@, sel@) {
            Some(q) => found && final(node)@ == update_in_node(
                old(node)@,
                q,
                with_name(node_at_node(old(node)@, q), new_name@),
            ),
            None => !found && final(node)@ == old(node)@,
        },
    decreases size(old(node)@), 0int,
{
    if node.eq_selection(sel) {
        node.name = string_of(new_name);
        return true;
    }
    if let SidebarNodeKind::Folder(f) = &mut node.kind {
        let ghost before = views(f.children@);
        let found = rename_in_seq(&mut f.children, sel, new_name);
        proof {
            lemma_find_from_nonempty(before, sel@, 0);
        }
        return found;
    }
    false
}

fn rename_in_seq(nodes: &mut Vec<SidebarNode>, sel: &SidebarSelection, new_name: &str) -> (found: bool)
    ensures
        match find_pre(views(old(nodes)@), sel@) {
            Some(p) => found && views(final(nodes)@) == renamed_at(views(old(nodes)@), p, new_name@),
            None => !found && views(final(nodes)@) == views(old(nodes)@),
        },
    decreases size_seq(views(old(nodes)@)), 1int,
{
    let ghost cs = views(nodes@);
    let mut i: usize = 0;
    while i < nodes.len()
        invariant
            0 <= i <= nodes.len(),
            cs == views(old(nodes)@),
            views(nodes@) == cs,
            find_pre(cs, sel@) == find_from(cs, sel@, i as int),
        decreases nodes.len() - i,
    {
        proof {
            lemma_size_child(cs, i as int);
        }
        let ghost before = nodes@;
        let found = rename_in_node(&mut nodes[i], sel, new_name);
        proof {
            lemma_views_update(before, i as int, nodes@[i as int]);
            assert(nodes@ == before.update(i as int, nodes@[i as int]));
        }
        if found {
            proof {
                let q = find_in_node(cs[i as int], sel@)->0;
                lemma_path_cons(i as int, q);
            }
            return true;
        }
        i += 1;
    }
    false
}

fn toggle_in_node(node: &mut SidebarNode, folder_id: FolderId)
    ensures
        final(node)@ == toggle_node(old(node)@, folder_id.0),
    decreases size(old(node)@),
{
    if let SidebarNodeKind::Folder(f) = &mut node.kind {
        if folder_id.0 == f.id.0 {
            f.is_expanded = !f.is_expanded;
            assert(node@ == toggle_node(old(node)@, folder_id.0));
        } else {
            let ghost cs = views(f.children@);
            let ghost fid = f.id;
            let ghost fe = f.is_expanded;
            let mut i: usize = 0;
            while i < f.children.len()
                invariant
                    0 <= i <= f.children.len(),
                    f.children.len() == cs.len(),
                    f.id == fid,
                    f.is_expanded == fe,
                    size(old(node)@) == 1 + size_seq(cs),
                    forall|j: int| 0 <= j < i ==> #[trigger] views(f.children@)[j] == toggle_node(cs[j], folder_id.0),
                    forall|j: int| i <= j < cs.len() ==> #[trigger] views(f.children@)[j] == cs[j],
                decreases f.children.len() - i,
            {
                proof {
                    lemma_size_child(cs, i as int);
                }
                let ghost before = f.children@;
                assert(views(before)[i as int] == cs[i as int]);
                toggle_in_node(&mut f.children[i], folder_id);
                proof {
                    lemma_views_update(before, i as int, f.children@[i as int]);
                    assert(f.children@ == before.update(i as int, f.children@[i as int]));
                    assert forall|j: int| 0 <= j < i + 1 implies #[trigger] views(f.children@)[j] == toggle_node(cs[j], folder_id.0) by {
                        if j < i {
                            assert(views(before)[j] == toggle_node(cs[j], folder_id.0));
                        }
                    }
                    assert forall|j: int| i + 1 <= j < cs.len() implies #[trigger] views(f.children@)[j] == cs[j] by {
                        assert(views(before)[j] == cs[j]);
                    }
                }
                i += 1;
            }
            assert(views(f.children@) =~= toggle_seq(cs, folder_id.0));
            assert(node@ == toggle_node(old(node)@, folder_id.0));
        }
    }
}

impl SidebarConfig {
    /// Renames the first entry, in display order, that the selection refers to.
    pub fn rename(&mut self, selection: &SidebarSelection, new_name: &str)
        ensures
            match find_pre(old(self)@, selection@) {
                Some(p) => final(self)@ == renamed_at(old(self)@, p, new_name@),
                None => final(self)@ == old(self)@,
            },
    {
        let _ = rename_in_seq(&mut self.list, selection, new_name);
    }

    /// Flips whether the folders with this id are expanded.
    pub fn toggle_visibility(&mut self, id: FolderId)
        ensures
            final(self)@ == toggle_seq(old(self)@, id.0),
    {
        let ghost cs = self@;
        let mut i: usize = 0;
        while i < self.list.len()
            invariant
                0 <= i <= self.list.len(),
                self.list.len() == cs.len(),
                cs == old(self)@,
                forall|j: int| 0 <= j < i ==> #[trigger] views(self.list@)[j] == toggle_node(cs[j], id.0),
                forall|j: int| i <= j < cs.len() ==> #[trigger] views(self.list@)[j] == cs[j],
            decreases self.list.len() - i,
        {
            let ghost before = self.list@;
            assert(views(before)[i as int] == cs[i as int]);
            toggle_in_node(&mut self.list[i], id);
            proof {
                lemma_views_update(before, i as int, self.list@[i as int]);
                assert(self.list@ == before.update(i as int, self.list@[i as int]));
                assert forall|j: int| 0 <= j < i + 1 implies #[trigger] views(self.list@)[j] == toggle_node(cs[j], id.0) by {
                    if j < i {
                        assert(views(before)[j] == toggle_node(cs[j], id.0));
                    }
                }
                assert forall|j: int| i + 1 <= j < cs.len() implies #[trigger] views(self.list@)[j] == cs[j] by {
                    assert(views(before)[j] == cs[j]);
                }
            }
            i += 1;
        }
        assert(self@ =~= toggle_seq(cs, id.0));
    }
}


impl SidebarNode {
    /// A new, expanded, empty folder with a fresh id.
    pub fn new_folder(name: String) -> (r: SidebarNode)
        ensures
            r@ == (NodeView::Folder { name: name@, id: r@->Folder_id, expanded: true, children: Seq::empty() }),
    {
        let children: Vec<SidebarNode> = Vec::new();
        assert(views(children@) =~= Seq::<NodeView>::empty());
        SidebarNode {
            name,
            kind: SidebarNodeKind::Folder(SidebarFolder {
                id: FolderId::new(),
                children,
                is_expanded: true,
            }),
        }
    }

    /// A node for an instance.
    pub fn new_instance(name: String, kind: InstanceKind) -> (r: SidebarNode)
        ensures
            r@ == (NodeView::Instance { name: name@, kind }),
    {
        SidebarNode { name, kind: SidebarNodeKind::Instance(kind) }
    }

    /// The id of this node if it is a folder.
    pub fn get_folder_id(&self) -> (r: Option<FolderId>)
        ensures
            match self@ {
                NodeView::Folder { id, .. } => r == Some(FolderId(id)),
                _ => r is None,
            },
    {
        if let SidebarNodeKind::Folder(f) = &self.kind {
            Some(f.id)
        } else {
            None
        }
    }
}

} // verus!
