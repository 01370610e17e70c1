use vstd::prelude::*;
use super::types::{
    NodeView,
    SelView,
    SidebarNode,
    SidebarNodeKind,
    SidebarFolder,
    SidebarSelection,
    SDragTo,
    SDragLocation,
    views,
    node_sel,
    is_folder,
    children_of,
    name_of,
    size,
    size_seq,
    node_at,
    remove_at,
    insert_at,
};
use super::lemmas::{
    lemma_cons_first,
    lemma_size_child,
    lemma_views_update,
    lemma_views_push,
    lemma_views_insert,
    lemma_views_remove,
};
use super::ops::{SidebarConfig, found_node};
use super::edit::is_folder_with;

verus! {

/// The first index at or after `i` whose node `sel` refers to.
pub open spec fn first_match(s: Seq<NodeView>, sel: SelView, i: int) -> Option<int>
    decreases s.len() - i,
{
    if i < 0 || i >= s.len() {
        None
    } else if node_sel(s[i]) == sel {
        Some(i)
    } else {
        first_match(s, sel, i + 1)
    }
}

/// Where removal finds its target: first among the sequence itself, then,
/// folder by folder in order, within each folder (searched the same way).
pub open spec fn remove_path(s: Seq<NodeView>, sel: SelView) -> Option<Seq<int>>
    decreases s, 1int, 0int,
{
    match first_match(s, sel, 0) {
        Some(i) => Some(seq![i]),
        None => remove_path_below(s, sel, 0),
    }
}

pub open spec fn remove_path_below(s: Seq<NodeView>, sel: SelView, i: int) -> Option<Seq<int>>
    decreases s, 0int, s.len() - i,
{
    if i < 0 || i >= s.len() {
        None
    } else {
        match s[i] {
            NodeView::Folder { children, .. } => match remove_path(children, sel) {
                Some(q) => Some(seq![i] + q),
                None => remove_path_below(s, sel, i + 1),
            },
            _ => remove_path_below(s, sel, i + 1),
        }
    }
}

fn remove_in_seq(nodes: &mut Vec<SidebarNode>, sel: &SidebarSelection) -> (r: Option<SidebarNode>)
    ensures
        match remove_path(views(old(nodes)@), sel@) {
            Some(p) => r matches Some(n) && n@ == node_at(views(old(nodes)@), p)
                && views(final(nodes)@) == remove_at(views(old(nodes)@), p),
            None => r is None && views(final(nodes)@) == views(old(nodes)@),
        },
    decreases size_seq(views(old(nodes)@)),
{
    let ghost cs = views(nodes@);
    let mut i: usize = 0;
    while i < nodes.len()
        invariant
            0 <= i <= nodes.len(),
            cs == views(old(nodes)@),
            views(nodes@) == cs,
            first_match(cs, sel@, 0) == first_match(cs, sel@, i as int),
        decreases nodes.len() - i,
    {
        assert(views(nodes@)[i as int] == cs[i as int]);
        if nodes[i].eq_selection(sel) {
            let ghost before = nodes@;
            let n = nodes.remove(i);
            proof {
                lemma_views_remove(before, i as int);
                assert(seq![i as int].drop_first() =~= Seq::<int>::empty());
            }
            return Some(n);
        }
        i += 1;
    }
    let mut i: usize = 0;
    while i < nodes.len()
        invariant
            0 <= i <= nodes.len(),
            cs == views(old(nodes)@),
            views(nodes@) == cs,
            first_match(cs, sel@, 0) is None,
            remove_path_below(cs, sel@, 0) == remove_path_below(cs, sel@, i as int),
        decreases nodes.len() - i,
    {
        proof {
            lemma_size_child(cs, i as int);
            assert(views(nodes@)[i as int] == cs[i as int]);
        }
        let ghost before = nodes@;
        if let SidebarNodeKind::Folder(f) = &mut nodes[i].kind {
            let ghost fc = views(f.children@);
            let res = remove_in_seq(&mut f.children, sel);
            proof {
                lemma_views_update(before, i as int, nodes@[i as int]);
                assert(nodes@ == before.update(i as int, nodes@[i as int]));
            }
            if res.is_some() {
                proof {
                    let q = remove_path(fc, sel@)->0;
                    lemma_remove_path_nonempty(fc, sel@);
                    lemma_cons_first(i as int, q);
                }
                return res;
            }
        }
        proof {
            lemma_views_update(before, i as int, nodes@[i as int]);
            assert(nodes@ == before.update(i as int, nodes@[i as int]));
        }
        i += 1;
    }
    None
}

pub proof fn lemma_first_match_range(s: Seq<NodeView>, sel: SelView, i: int)
    ensures
        first_match(s, sel, i) matches Some(k) ==> 0 <= k < s.len() && k >= i && node_sel(s[k]) == sel,
    decreases s.len() - i,
{
    if 0 <= i < s.len() && node_sel(s[i]) != sel {
        lemma_first_match_range(s, sel, i + 1);
    }
}

proof fn lemma_remove_path_below_nonempty(s: Seq<NodeView>, sel: SelView, i: int)
    ensures
        remove_path_below(s, sel, i) matches Some(p) ==> p.len() > 0 && 0 <= p[0] < s.len(),
    decreases s.len() - i,
{
    if 0 <= i < s.len() {
        match s[i] {
            NodeView::Folder { children, .. } => match remove_path(children, sel) {
                Some(q) => {
                    lemma_cons_first(i, q);
                },
                None => {
                    lemma_remove_path_below_nonempty(s, sel, i + 1);
                },
            },
            _ => {
                lemma_remove_path_below_nonempty(s, sel, i + 1);
            },
        }
    }
}

proof fn lemma_remove_path_nonempty(s: Seq<NodeView>, sel: SelView)
    ensures
        remove_path(s, sel) matches Some(p) ==> p.len() > 0 && 0 <= p[0] < s.len(),
{
    lemma_first_match_range(s, sel, 0);
    lemma_remove_path_below_nonempty(s, sel, 0);
}

impl SidebarConfig {
    /// Takes out the entry that the selection refers to, searching each
    /// level before going into its folders.
    pub fn remove(&mut self, selection: &SidebarSelection) -> (r: Option<SidebarNode>)
        ensures
            match remove_path(old(self)@, selection@) {
                Some(p) => r matches Some(n) && n@ == node_at(old(self)@, p)
                    && final(self)@ == remove_at(old(self)@, p),
                None => r is None && final(self)@ == old(self)@,
            },
    {
        remove_in_seq(&mut self.list, selection)
    }
}


/// How far after the target a drop goes.
pub open spec fn offset_num(o: SDragTo) -> int {
    match o {
        SDragTo::Before => 0,
        SDragTo::After => 1,
        SDragTo::Inside => 2,
    }
}

/// A folder with `x` added as its last child, and expanded.
pub open spec fn with_last_child(n: NodeView, x: NodeView) -> NodeView {
    match n {
        NodeView::Folder { name, id, children, .. } => NodeView::Folder {
            name,
            id,
            expanded: true,
            children: children.push(x),
        },
        _ => n,
    }
}

/// The outcome of dropping an entry into a subtree.
pub enum Placement {
    /// The target is not in this subtree.
    NotFound,
    /// The subtree with the entry placed.
    Placed(NodeView),
    /// The target is an instance and the drop is "inside" it.
    Refused,
}

/// Dropping `x` relative to the entry `sel` refers to, within the folder `n`:
/// the folder's own children are searched first, then each child folder in
/// order. A folder never receives a folder of its own id.
pub open spec fn node_place(n: NodeView, x: NodeView, sel: SelView, off: SDragTo) -> Placement
    decreases n, 1int, 0int,
{
    match n {
        NodeView::Folder { name, id, expanded, children } => if is_folder_with(x, id) {
            Placement::NotFound
        } else {
            match first_match(children, sel, 0) {
                Some(k) => if off == SDragTo::Inside {
                    if is_folder(children[k]) {
                        Placement::Placed(NodeView::Folder {
                            name,
                            id,
                            expanded,
                            children: children.update(k, with_last_child(children[k], x)),
                        })
                    } else {
                        Placement::Refused
                    }
                } else {
                    Placement::Placed(NodeView::Folder {
                        name,
                        id,
                        expanded: true,
                        children: children.insert(k + offset_num(off), x),
                    })
                },
                None => match place_below(children, x, sel, off, 0) {
                    (k, Placement::Placed(c)) => Placement::Placed(NodeView::Folder {
                        name,
                        id,
                        expanded,
                        children: children.update(k, c),
                    }),
                    (_, p) => p,
                },
            }
        },
        _ => Placement::NotFound,
    }
}

/// The first node at or after `i` in which the drop finds its target.
pub open spec fn place_below(s: Seq<NodeView>, x: NodeView, sel: SelView, off: SDragTo, i: int) -> (int, Placement)
    decreases s, 0int, s.len() - i,
{
    if i < 0 || i >= s.len() {
        (i, Placement::NotFound)
    } else {
        match node_place(s[i], x, sel, off) {
            Placement::NotFound => place_below(s, x, sel, off, i + 1),
            p => (i, p),
        }
    }
}

/// Dropping `x` relative to the entry `sel` refers to, in the whole sidebar;
/// `None` when the drop cannot be done. With no target anywhere, `x` goes to
/// the end.
pub open spec fn place_in_seq(s: Seq<NodeView>, x: NodeView, sel: SelView, off: SDragTo) -> Option<Seq<NodeView>> {
    match first_match(s, sel, 0) {
        Some(i) => if off == SDragTo::Inside && is_folder(s[i]) {
            Some(s.update(i, with_last_child(s[i], x)))
        } else if i + offset_num(off) <= s.len() {
            Some(s.insert(i + offset_num(off), x))
        } else {
            None
        },
        None => match place_below(s, x, sel, off, 0) {
            (k, Placement::Placed(c)) => Some(s.update(k, c)),
            (_, Placement::Refused) => None,
            (_, Placement::NotFound) => Some(s.push(x)),
        },
    }
}

fn offset_index(o: SDragTo) -> (r: usize)
    ensures
        r == offset_num(o),
{
    match o {
        SDragTo::Before => 0,
        SDragTo::After => 1,
        SDragTo::Inside => 2,
    }
}

/// A copy of a node and everything below it.
pub fn clone_node(node: &SidebarNode) -> (r: SidebarNode)
    ensures
        r@ == node@,
    decreases size(node@),
{
    match &node.kind {
        SidebarNodeKind::Instance(k) => SidebarNode {
            name: node.name.clone(),
            kind: SidebarNodeKind::Instance(*k),
        },
        SidebarNodeKind::Folder(f) => {
            let ghost cs = views(f.children@);
            let mut children: Vec<SidebarNode> = Vec::new();
            let mut i: usize = 0;
            while i < f.children.len()
                invariant
                    0 <= i <= f.children.len(),
                    cs == views(f.children@),
                    size(node@) == 1 + size_seq(cs),
                    views(children@) == cs.take(i as int),
                decreases f.children.len() - i,
            {
                proof {
                    lemma_size_child(cs, i as int);
                    assert(views(f.children@)[i as int] == cs[i as int]);
                }
                let c = clone_node(&f.children[i]);
                let ghost before = children@;
                children.push(c);
                proof {
                    lemma_views_push(before, c);
                    assert(cs.take(i as int + 1) =~= cs.take(i as int).push(cs[i as int]));
                }
                i += 1;
            }
            assert(cs.take(f.children.len() as int) =~= cs);
            SidebarNode {
                name: node.name.clone(),
                kind: SidebarNodeKind::Folder(SidebarFolder { id: f.id, children, is_expanded: f.is_expanded }),
            }
        },
    }
}

fn find_first_match(nodes: &Vec<SidebarNode>, sel: &SidebarSelection) -> (r: Option<usize>)
    ensures
        r matches Some(k) ==> first_match(views(nodes@), sel@, 0) == Some(k as int),
        r is None ==> first_match(views(nodes@), sel@, 0) is None,
{
    let ghost cs = views(nodes@);
    let mut i: usize = 0;
    while i < nodes.len()
        invariant
            0 <= i <= nodes.len(),
            cs == views(nodes@),
            first_match(cs, sel@, 0) == first_match(cs, sel@, i as int),
        decreases nodes.len() - i,
    {
        assert(views(nodes@)[i as int] == cs[i as int]);
        if nodes[i].eq_selection(sel) {
            return Some(i);
        }
        i += 1;
    }
    None
}

impl SidebarNode {
    /// Drops a copy of `node` relative to the target of `location` within this
    /// folder's subtree; tells whether the target was found.
    pub fn insert_at(&mut self, node: &SidebarNode, location: &SDragLocation) -> (r: bool)
        requires
            node_place(old(self)@, node@, location.sel@, location.offset) != Placement::Refused,
        ensures
            match node_place(old(self)@, node@, location.sel@, location.offset) {
                Placement::Placed(c) => r && final(self)@ == c,
                _ => !r && final(self)@ == old(self)@,
            },
        decreases size(old(self)@),
    {
        let offset = offset_index(location.offset);
        if let SidebarNodeKind::Folder(f) = &mut self.kind {
            if let SidebarNodeKind::Folder(f2) = &node.kind {
                if f2.id.0 == f.id.0 {
                    return false;
                }
            }
            let ghost cs = views(f.children@);
            let ghost fid = f.id;
            let ghost fe = f.is_expanded;
            let ghost x = node@;
            let ghost sel = location.sel@;
            let ghost off = location.offset;
            let ghost nm = self.name@;
            assert(old(self)@ == (NodeView::Folder { name: nm, id: fid.0, expanded: fe, children: cs }));
            assert(!is_folder_with(x, fid.0));
            if let Some(index) = find_first_match(&f.children, &location.sel) {
                proof {
                    lemma_first_match_range(cs, location.sel@, 0);
                    assert(views(f.children@)[index as int] == cs[index as int]);
                    assert(first_match(cs, sel, 0) == Some(index as int));
                }
                if location.offset == SDragTo::Inside {
                    assert(is_folder(cs[index as int]));
                    let ghost before = f.children@;
                    if let SidebarNodeKind::Folder(g) = &mut f.children[index].kind {
                        let ghost gb = g.children@;
                        let c = clone_node(node);
                        g.children.push(c);
                        g.is_expanded = true;
                        proof {
                            lemma_views_push(gb, c);
                        }
                    }
                    proof {
                        lemma_views_update(before, index as int, f.children@[index as int]);
                        assert(f.children@ == before.update(index as int, f.children@[index as int]));
                        assert(views(f.children@) == cs.update(index as int, with_last_child(cs[index as int], x)));
                    }
                    return true;
                }
                assert(offset <= 1);
                assert(index < f.children.len());
                let c = clone_node(node);
                let ghost before = f.children@;
                f.children.insert(index + offset, c);
                f.is_expanded = true;
                proof {
                    lemma_views_insert(before, index + offset, c);
                    assert(views(f.children@) == cs.insert(index + offset, x));
                }
                return true;
            }
            let mut i: usize = 0;
            let mut placed = false;
            let ghost target = place_below(cs, x, sel, off, 0);
            while i < f.children.len()
                invariant_except_break
                    0 <= i <= f.children.len(),
                    views(f.children@) == cs,
                    place_below(cs, x, sel, off, 0) == place_below(cs, x, sel, off, i as int),
                    !placed,
                invariant
                    f.id == fid,
                    f.is_expanded == fe,
                    size(old(self)@) == 1 + size_seq(cs),
                    old(self)@ == (NodeView::Folder { name: nm, id: fid.0, expanded: fe, children: cs }),
                    x == node@,
                    sel == location.sel@,
                    off == location.offset,
                    target == place_below(cs, x, sel, off, 0),
                    node_place(old(self)@, node@, location.sel@, location.offset) != Placement::Refused,
                    first_match(cs, location.sel@, 0) is None,
                    !is_folder_with(node@, fid.0),
                ensures
                    placed ==> target.1 is Placed && views(f.children@) == cs.update(target.0, target.1->Placed_0),
                    !placed ==> target.1 == Placement::NotFound && views(f.children@) == cs,
                    f.id == fid,
                    f.is_expanded == fe,
                decreases f.children.len() - i,
            {
                proof {
                    lemma_size_child(cs, i as int);
                    assert(views(f.children@)[i as int] == cs[i as int]);
                    assert(place_below(cs, x, sel, off, i as int).1 != Placement::Refused);
                    assert(node_place(cs[i as int], x, sel, off) != Placement::Refused);
                }
                let ghost before = f.children@;
                let found = f.children[i].insert_at(node, location);
                proof {
                    lemma_views_update(before, i as int, f.children@[i as int]);
                    assert(f.children@ == before.update(i as int, f.children@[i as int]));
                }
                if found {
                    proof {
                        assert(node_place(cs[i as int], x, sel, off) is Placed);
                        assert(place_below(cs, x, sel, off, i as int) == (i as int, node_place(cs[i as int], x, sel, off)));
                    }
                    placed = true;
                    break;
                }
                proof {
                    assert(node_place(cs[i as int], x, sel, off) == Placement::NotFound);
                    assert(place_below(cs, x, sel, off, i as int) == place_below(cs, x, sel, off, i + 1));
                }
                i += 1;
            }
            return placed;
        }
        false
    }
}


impl View for SDragLocation {
    type V = (SelView, SDragTo);

    open spec fn view(&self) -> (SelView, SDragTo) {
        (self.sel@, self.offset)
    }
}

pub open spec fn loc_view(loc: Option<SDragLocation>) -> Option<(SelView, SDragTo)> {
    match loc {
        Some(l) => Some(l@),
        None => None,
    }
}

/// Whether two nodes are equal as entries: same name, and the same instance
/// kind or the same folder id.
pub open spec fn node_eq(a: NodeView, b: NodeView) -> bool {
    name_of(a) == name_of(b) && match (a, b) {
        (NodeView::Instance { kind: k1, .. }, NodeView::Instance { kind: k2, .. }) => k1 == k2,
        (NodeView::Folder { id: i1, .. }, NodeView::Folder { id: i2, .. }) => i1 == i2,
        _ => false,
    }
}

/// Whether `a` is `b` or lies somewhere below it.
pub open spec fn contained_by(a: NodeView, b: NodeView) -> bool
    decreases b, 0int,
{
    node_eq(a, b) || match b {
        NodeView::Folder { children, .. } => any_contains(a, children),
        _ => false,
    }
}

pub open spec fn any_contains(a: NodeView, s: Seq<NodeView>) -> bool
    decreases s, 1int,
{
    if s.len() == 0 {
        false
    } else {
        any_contains(a, s.drop_last()) || contained_by(a, s.last())
    }
}

proof fn lemma_any_contains(a: NodeView, s: Seq<NodeView>, i: int)
    requires
        0 <= i <= s.len(),
    ensures
        any_contains(a, s.take(i)) ==> any_contains(a, s),
        i < s.len() && contained_by(a, s[i]) ==> any_contains(a, s.take(i + 1)),
        i < s.len() && !contained_by(a, s[i]) ==> any_contains(a, s.take(i + 1)) == any_contains(a, s.take(i)),
    decreases s.len() - i,
{
    if i < s.len() {
        assert(s.take(i + 1).drop_last() =~= s.take(i));
        assert(s.take(i + 1).last() == s[i]);
        lemma_any_contains(a, s, i + 1);
    } else {
        assert(s.take(i) =~= s);
    }
}

/// Whether dropping the entry `sel` refers to at `loc` would move it into
/// itself.
pub open spec fn illegal_drop(s: Seq<NodeView>, sel: SelView, loc: Option<(SelView, SDragTo)>) -> bool {
    match loc {
        Some((l, _)) => match (found_node(s, sel), found_node(s, l)) {
            (Some(a), Some(b)) => contained_by(b, a),
            _ => false,
        },
        None => false,
    }
}

/// The sidebar after dragging the entry `sel` refers to onto `loc` (onto
/// empty space when `None`); `None` when the drop cannot be done.
pub open spec fn drag_result(s: Seq<NodeView>, sel: SelView, loc: Option<(SelView, SDragTo)>) -> Option<Seq<NodeView>> {
    if illegal_drop(s, sel, loc) {
        Some(s)
    } else {
        match remove_path(s, sel) {
            None => Some(s),
            Some(p) => {
                let s1 = remove_at(s, p);
                let y = node_at(s, p);
                match loc {
                    None => Some(s1.push(y)),
                    Some((l, off)) => place_in_seq(s1, y, l, off),
                }
            },
        }
    }
}

impl SidebarNode {
    /// Equality of entries: same name, and the same instance kind or folder id.
    pub fn node_eq(&self, other: &SidebarNode) -> (r: bool)
        ensures
            r == node_eq(self@, other@),
    {
        let same_kind = match (&self.kind, &other.kind) {
            (SidebarNodeKind::Instance(a), SidebarNodeKind::Instance(b)) => *a == *b,
            (SidebarNodeKind::Folder(a), SidebarNodeKind::Folder(b)) => a.id.0 == b.id.0,
            _ => false,
        };
        same_kind && self.name == other.name
    }

    /// Whether this node is `node` or lies somewhere below it.
    pub fn is_contained_by(&self, node: &SidebarNode) -> (r: bool)
        ensures
            r == contained_by(self@, node@),
        decreases size(node@),
    {
        if self.node_eq(node) {
            return true;
        }
        match &node.kind {
            SidebarNodeKind::Instance(_) => false,
            SidebarNodeKind::Folder(f) => {
                let ghost cs = views(f.children@);
                let mut i: usize = 0;
                while i < f.children.len()
                    invariant
                        0 <= i <= f.children.len(),
                        cs == views(f.children@),
                        size(node@) == 1 + size_seq(cs),
                        children_of(node@) == cs,
                        node@ is Folder,
                        !node_eq(self@, node@),
                        !any_contains(self@, cs.take(i as int)),
                    decreases f.children.len() - i,
                {
                    proof {
                        lemma_size_child(cs, i as int);
                        assert(views(f.children@)[i as int] == cs[i as int]);
                        lemma_any_contains(self@, cs, i as int);
                    }
                    if self.is_contained_by(&f.children[i]) {
                        proof {
                            lemma_any_contains(self@, cs, i as int + 1);
                            assert(children_of(node@) == cs);
                            assert(any_contains(self@, cs));
                        }
                        return true;
                    }
                    i += 1;
                }
                proof {
                    lemma_any_contains(self@, cs, i as int);
                    assert(cs.take(i as int) =~= cs);
                    assert(children_of(node@) == cs);
                    assert(!any_contains(self@, cs));
                }
                false
            },
        }
    }
}

impl SidebarConfig {
    fn insert_at(&mut self, yoinked: SidebarNode, location: &SDragLocation)
        requires
            place_in_seq(old(self)@, yoinked@, location.sel@, location.offset) is Some,
        ensures
            final(self)@ == place_in_seq(old(self)@, yoinked@, location.sel@, location.offset)->0,
    {
        let ghost cs = self@;
        let ghost x = yoinked@;
        let ghost sel = location.sel@;
        let ghost off = location.offset;
        let offset = offset_index(location.offset);
        if let Some(index) = find_first_match(&self.list, &location.sel) {
            proof {
                lemma_first_match_range(cs, sel, 0);
                assert(views(self.list@)[index as int] == cs[index as int]);
            }
            let ghost before = self.list@;
            if location.offset == SDragTo::Inside {
                if let SidebarNodeKind::Folder(f) = &mut self.list[index].kind {
                    let ghost fb = f.children@;
                    f.children.push(yoinked);
                    f.is_expanded = true;
                    proof {
                        lemma_views_push(fb, yoinked);
                        lemma_views_update(before, index as int, self.list@[index as int]);
                        assert(self.list@ == before.update(index as int, self.list@[index as int]));
                    }
                    return;
                }
            }
            assert(index + offset <= self.list.len());
            self.list.insert(index + offset, yoinked);
            proof {
                lemma_views_insert(before, index + offset, yoinked);
            }
            return;
        }
        let mut i: usize = 0;
        let mut placed = false;
        let ghost target = place_below(cs, x, sel, off, 0);
        while i < self.list.len()
            invariant_except_break
                0 <= i <= self.list.len(),
                views(self.list@) == cs,
                place_below(cs, x, sel, off, 0) == place_below(cs, x, sel, off, i as int),
                !placed,
            invariant
                x == yoinked@,
                sel == location.sel@,
                off == location.offset,
                cs == old(self)@,
                target == place_below(cs, x, sel, off, 0),
                target.1 != Placement::Refused,
            ensures
                placed ==> target.1 is Placed && views(self.list@) == cs.update(target.0, target.1->Placed_0),
                !placed ==> target.1 == Placement::NotFound && views(self.list@) == cs,
            decreases self.list.len() - i,
        {
            proof {
                assert(views(self.list@)[i as int] == cs[i as int]);
                assert(node_place(cs[i as int], x, sel, off) != Placement::Refused);
            }
            let ghost before = self.list@;
            let found = self.list[i].insert_at(&yoinked, location);
            proof {
                lemma_views_update(before, i as int, self.list@[i as int]);
                assert(self.list@ == before.update(i as int, self.list@[i as int]));
            }
            if found {
                proof {
                    assert(place_below(cs, x, sel, off, i as int) == (i as int, node_place(cs[i as int], x, sel, off)));
                }
                placed = true;
                break;
            }
            proof {
                assert(place_below(cs, x, sel, off, i as int) == place_below(cs, x, sel, off, i + 1));
            }
            i += 1;
        }
        if !placed {
            let ghost before = self.list@;
            self.list.push(yoinked);
            proof {
                lemma_views_push(before, yoinked);
            }
        }
    }

    fn is_illegal_location(&self, selection: &SidebarSelection, location: Option<&SDragLocation>) -> (r: bool)
        ensures
            r == illegal_drop(self@, selection@, match location { Some(l) => Some(l@), None => None }),
    {
        if let Some(location) = location {
            if let (Some(selection), Some(location)) = (self.get_node(selection), self.get_node(&location.sel)) {
                if location.is_contained_by(selection) {
                    return true;
                }
            }
        }
        false
    }

    /// Moves the dragged entry to where it was dropped: before or after an
    /// entry, inside a folder, or at the end when dropped on empty space.
    /// Nothing happens when the drop would put a folder inside itself or the
    /// dragged entry is not found.
    pub fn drag_drop(&mut self, selection: &SidebarSelection, location: Option<SDragLocation>)
        requires
            drag_result(old(self)@, selection@, loc_view(location)) is Some,
        ensures
            final(self)@ == drag_result(old(self)@, selection@, loc_view(location))->0,
    {
        if self.is_illegal_location(selection, location.as_ref()) {
            return;
        }
        let ghost s0 = self@;
        let Some(yoinked) = self.remove(selection) else {
            return;
        };
        let Some(location) = location else {
            let ghost before = self.list@;
            self.list.push(yoinked);
            proof {
                lemma_views_push(before, yoinked);
            }
            return;
        };
        self.insert_at(yoinked, &location);
    }
}

} // verus!
