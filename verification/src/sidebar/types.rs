use vstd::prelude::*;
use crate::instance::{Instance, InstanceKind};

verus! {

/// Identifier of a sidebar folder, unique with high probability.
#[derive(Debug, Clone, Copy, PartialEq, Eq, Hash, Structural)]
pub struct FolderId(pub u128);

/// A folder of the sidebar and the nodes it holds, in display order.
#[derive(Debug)]
pub struct SidebarFolder {
    pub id: FolderId,
    pub children: Vec<SidebarNode>,
    pub is_expanded: bool,
}

/// What a sidebar node is: an instance of some kind, or a folder.
#[derive(Debug)]
pub enum SidebarNodeKind {
    Instance(InstanceKind),
    Folder(SidebarFolder),
}

/// One entry of the sidebar: an instance or a folder, with its shown name.
#[derive(Debug)]
pub struct SidebarNode {
    pub name: String,
    pub kind: SidebarNodeKind,
}

/// A reference to a sidebar entry: an instance by name and kind, or a folder
/// by its id.
#[derive(Debug)]
pub enum SidebarSelection {
    Instance(String, InstanceKind),
    Folder(FolderId),
}

impl Clone for SidebarSelection {
    fn clone(&self) -> (r: Self)
        ensures
            r == *self,
    {
        match self {
            SidebarSelection::Instance(name, k) => SidebarSelection::Instance(name.clone(), *k),
            SidebarSelection::Folder(id) => SidebarSelection::Folder(*id),
        }
    }
}

/// Where, relative to a target entry, a dragged entry is dropped.
#[derive(Debug, Clone, Copy, PartialEq, Eq, Structural)]
pub enum SDragTo {
    Before,
    After,
    Inside,
}

/// A drop location: a target entry and the side of it.
#[derive(Debug)]
pub struct SDragLocation {
    pub sel: SidebarSelection,
    pub offset: SDragTo,
}

/// The mathematical value of a sidebar node.
pub enum NodeView {
    Instance { name: Seq<char>, kind: InstanceKind },
    Folder { name: Seq<char>, id: u128, expanded: bool, children: Seq<NodeView> },
}

/// The mathematical value of a selection.
pub enum SelView {
    Instance(Seq<char>, InstanceKind),
    Folder(u128),
}

pub open spec fn node_view(n: SidebarNode) -> NodeView
    decreases n,
{
    match n.kind {
        SidebarNodeKind::Instance(k) => NodeView::Instance { name: n.name@, kind: k },
        SidebarNodeKind::Folder(f) => NodeView::Folder {
            name: n.name@,
            id: f.id.0,
            expanded: f.is_expanded,
            children: views(f.children@),
        },
    }
}

/// The values of a sequence of nodes.
pub open spec fn views(s: Seq<SidebarNode>) -> Seq<NodeView>
    decreases s,
{
    Seq::new(
        s.len(),
        |i: int|
            if 0 <= i < s.len() {
                node_view(s[i])
            } else {
                NodeView::Instance { name: Seq::empty(), kind: InstanceKind::Client }
            },
    )
}

impl View for SidebarNode {
    type V = NodeView;

    open spec fn view(&self) -> NodeView {
        node_view(*self)
    }
}

impl View for SidebarSelection {
    type V = SelView;

    open spec fn view(&self) -> SelView {
        match self {
            SidebarSelection::Instance(name, k) => SelView::Instance(name@, *k),
            SidebarSelection::Folder(id) => SelView::Folder(id.0),
        }
    }
}

/// The selection that refers to a node.
pub open spec fn node_sel(n: NodeView) -> SelView {
    match n {
        NodeView::Instance { name, kind } => SelView::Instance(name, kind),
        NodeView::Folder { id, .. } => SelView::Folder(id),
    }
}

pub open spec fn is_folder(n: NodeView) -> bool {
    n is Folder
}

pub open spec fn children_of(n: NodeView) -> Seq<NodeView> {
    match n {
        NodeView::Folder { children, .. } => children,
        _ => Seq::empty(),
    }
}

pub open spec fn name_of(n: NodeView) -> Seq<char> {
    match n {
        NodeView::Instance { name, .. } => name,
        NodeView::Folder { name, .. } => name,
    }
}

pub open spec fn with_children(n: NodeView, c: Seq<NodeView>) -> NodeView {
    match n {
        NodeView::Folder { name, id, expanded, .. } => NodeView::Folder {
            name,
            id,
            expanded,
            children: c,
        },
        _ => n,
    }
}

pub open spec fn with_name(n: NodeView, nm: Seq<char>) -> NodeView {
    match n {
        NodeView::Instance { kind, .. } => NodeView::Instance { name: nm, kind },
        NodeView::Folder { id, expanded, children, .. } => NodeView::Folder {
            name: nm,
            id,
            expanded,
            children,
        },
    }
}

/// Number of nodes in a subtree.
pub open spec fn size(n: NodeView) -> nat
    decreases n,
{
    match n {
        NodeView::Instance { .. } => 1,
        NodeView::Folder { children, .. } => 1 + size_seq(children),
    }
}

pub open spec fn size_seq(s: Seq<NodeView>) -> nat
    decreases s,
{
    if s.len() == 0 {
        0
    } else {
        size_seq(s.drop_last()) + size(s.last())
    }
}

// ---------------------------------------------------------------------
// Paths. A path relative to a sequence starts with an index into it; a
// path relative to a node is empty for the node itself and otherwise a
// path into its children.
// ---------------------------------------------------------------------
pub open spec fn node_at_node(n: NodeView, q: Seq<int>) -> NodeView
    decreases q.len(), 1int,
{
    if q.len() == 0 {
        n
    } else {
        node_at(children_of(n), q)
    }
}

pub open spec fn node_at(s: Seq<NodeView>, p: Seq<int>) -> NodeView
    decreases p.len(), 0int,
{
    if p.len() == 0 {
        NodeView::Instance { name: Seq::empty(), kind: InstanceKind::Client }
    } else {
        node_at_node(s[p[0]], p.drop_first())
    }
}

pub open spec fn valid_in_node(n: NodeView, q: Seq<int>) -> bool
    decreases q.len(), 1int,
{
    q.len() == 0 || (is_folder(n) && valid_path(children_of(n), q))
}

pub open spec fn valid_path(s: Seq<NodeView>, p: Seq<int>) -> bool
    decreases p.len(), 0int,
{
    p.len() > 0 && 0 <= p[0] < s.len() && valid_in_node(s[p[0]], p.drop_first())
}

pub open spec fn update_in_node(n: NodeView, q: Seq<int>, x: NodeView) -> NodeView
    decreases q.len(), 1int,
{
    if q.len() == 0 {
        x
    } else {
        with_children(n, update_at(children_of(n), q, x))
    }
}

/// Replaces the node at a path.
pub open spec fn update_at(s: Seq<NodeView>, p: Seq<int>, x: NodeView) -> Seq<NodeView>
    decreases p.len(), 0int,
{
    if p.len() == 0 {
        s
    } else {
        s.update(p[0], update_in_node(s[p[0]], p.drop_first(), x))
    }
}

/// Removes the node at a path.
pub open spec fn remove_at(s: Seq<NodeView>, p: Seq<int>) -> Seq<NodeView>
    decreases p.len(),
{
    if p.len() <= 1 {
        s.remove(p[0])
    } else {
        s.update(p[0], with_children(s[p[0]], remove_at(children_of(s[p[0]]), p.drop_first())))
    }
}

/// Inserts a node at position `idx` of the children of the folder at path
/// `parent`, or of the sequence itself when `parent` is empty.
pub open spec fn insert_at(s: Seq<NodeView>, parent: Seq<int>, idx: int, x: NodeView) -> Seq<NodeView>
    decreases parent.len(),
{
    if parent.len() == 0 {
        s.insert(idx, x)
    } else {
        s.update(
            parent[0],
            with_children(s[parent[0]], insert_at(children_of(s[parent[0]]), parent.drop_first(), idx, x)),
        )
    }
}

// ---------------------------------------------------------------------
// Preorder search: a node is looked at before its descendants, and a
// subtree before the later siblings of its root.
// ---------------------------------------------------------------------
pub open spec fn find_in_node(n: NodeView, sel: SelView) -> Option<Seq<int>>
    decreases n, 0int,
{
    if node_sel(n) == sel {
        Some(Seq::empty())
    } else {
        match n {
            NodeView::Folder { children, .. } => find_from(children, sel, 0),
            _ => None,
        }
    }
}

/// The first match in preorder among `s[i..]`, as a path into `s`.
pub open spec fn find_from(s: Seq<NodeView>, sel: SelView, i: int) -> Option<Seq<int>>
    decreases s, s.len() - i,
{
    if i < 0 || i >= s.len() {
        None
    } else {
        match find_in_node(s[i], sel) {
            Some(q) => Some(seq![i] + q),
            None => find_from(s, sel, i + 1),
        }
    }
}

pub open spec fn find_pre(s: Seq<NodeView>, sel: SelView) -> Option<Seq<int>> {
    find_from(s, sel, 0)
}

/// Calls `rand::random::<u128>()`. Claimed: nothing; the number is drawn
/// from the thread's random generator and may be any value.
#[verifier::external_body]
fn random_u128() -> u128 {
    rand::random()
}

impl FolderId {
    /// A fresh folder id, drawn at random.
    pub fn new() -> FolderId {
        FolderId(random_u128())
    }
}

} // verus!
