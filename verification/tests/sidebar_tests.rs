use quantum_launcher::instance::{Instance, InstanceKind};
use quantum_launcher::sidebar::maintain::update_sidebar;
use quantum_launcher::sidebar::ops::SidebarConfig;
use quantum_launcher::sidebar::types::{
    FolderId, SDragLocation, SDragTo, SidebarFolder, SidebarNode, SidebarNodeKind, SidebarSelection,
};
use quantum_launcher::sidebar::walk::{InstSelectOperation, SidebarWalker, WalkState};
use quantum_launcher::sidebar::hover::drag_hover;

fn inst(name: &str) -> SidebarNode {
    SidebarNode { name: name.to_string(), kind: SidebarNodeKind::Instance(InstanceKind::Client) }
}

fn folder(name: &str, id: u128, expanded: bool, children: Vec<SidebarNode>) -> SidebarNode {
    SidebarNode {
        name: name.to_string(),
        kind: SidebarNodeKind::Folder(SidebarFolder { id: FolderId(id), children, is_expanded: expanded }),
    }
}

fn names(list: &[SidebarNode]) -> Vec<String> {
    list.iter().map(|n| n.name.clone()).collect()
}

fn children(node: &SidebarNode) -> &Vec<SidebarNode> {
    match &node.kind {
        SidebarNodeKind::Folder(f) => &f.children,
        SidebarNodeKind::Instance(_) => panic!("not a folder"),
    }
}

fn expanded(node: &SidebarNode) -> bool {
    match &node.kind {
        SidebarNodeKind::Folder(f) => f.is_expanded,
        SidebarNodeKind::Instance(_) => panic!("not a folder"),
    }
}

/// a, F(closed)[b, c], d
fn sample() -> Vec<SidebarNode> {
    vec![inst("a"), folder("F", 1, false, vec![inst("b"), inst("c")]), inst("d")]
}

fn client(name: &str) -> Instance {
    Instance { name: name.to_string(), kind: InstanceKind::Client }
}

fn selected_name(w: &SidebarWalker) -> Option<String> {
    w.selected_instance.as_ref().map(|i| i.name.clone())
}

#[test]
fn walk_down_skips_closed_folder() {
    let mut nodes = sample();
    let mut w = SidebarWalker::new(Some(client("a")), false, InstSelectOperation::Down);
    w.walk(&mut nodes);
    assert_eq!(w.state, WalkState::Found { force_expanded: false });
    assert_eq!(selected_name(&w).as_deref(), Some("d"));
    assert_eq!(w.next_selected_idx, 2);
    assert_eq!(w.total_len, 3);
    assert!(!expanded(&nodes[1]));
}

#[test]
fn walk_down_without_selection_picks_first() {
    let mut nodes = sample();
    let mut w = SidebarWalker::new(None, false, InstSelectOperation::Down);
    w.walk(&mut nodes);
    assert_eq!(selected_name(&w).as_deref(), Some("a"));
    assert_eq!(w.next_selected_idx, 0);
    assert_eq!(w.state, WalkState::Found { force_expanded: false });

    let mut two = vec![inst("a"), inst("b")];
    let mut w = SidebarWalker::new(None, false, InstSelectOperation::Down);
    w.walk(&mut two);
    assert_eq!(selected_name(&w).as_deref(), Some("a"));

    let mut one = vec![inst("a")];
    let mut w = SidebarWalker::new(None, false, InstSelectOperation::Down);
    w.walk(&mut one);
    assert_eq!(selected_name(&w).as_deref(), Some("a"));
}

#[test]
fn walk_up_without_selection_picks_last() {
    let mut two = vec![inst("a"), inst("b")];
    let mut w = SidebarWalker::new(None, false, InstSelectOperation::Up);
    w.walk(&mut two);
    assert_eq!(selected_name(&w).as_deref(), Some("b"));
    assert_eq!(w.state, WalkState::Found { force_expanded: false });
}

#[test]
fn walk_down_inside_closed_folder_opens_it() {
    let mut nodes = sample();
    let mut w = SidebarWalker::new(Some(client("b")), false, InstSelectOperation::Down);
    w.walk(&mut nodes);
    assert_eq!(w.state, WalkState::Found { force_expanded: false });
    assert_eq!(selected_name(&w).as_deref(), Some("c"));
    assert_eq!(w.next_selected_idx, 3);
    assert_eq!(w.total_len, 5);
    assert!(expanded(&nodes[1]));
}

#[test]
fn walk_down_at_bottom_keeps_selection() {
    let mut nodes = sample();
    let mut w = SidebarWalker::new(Some(client("d")), false, InstSelectOperation::Down);
    w.walk(&mut nodes);
    assert_eq!(w.state, WalkState::FindingNextSelected);
    assert_eq!(selected_name(&w).as_deref(), Some("d"));
    assert_eq!(w.next_selected_idx, 2);
    assert_eq!(w.total_len, 3);
    assert!(!expanded(&nodes[1]));
}

#[test]
fn walk_up_counts_rows_from_top() {
    let mut nodes = sample();
    let mut w = SidebarWalker::new(Some(client("d")), false, InstSelectOperation::Up);
    w.walk(&mut nodes);
    assert_eq!(w.state, WalkState::Found { force_expanded: false });
    assert_eq!(selected_name(&w).as_deref(), Some("a"));
    assert_eq!(w.next_selected_idx, 0);
    assert_eq!(w.total_len, 3);
}

#[test]
fn walk_with_shift_enters_closed_folder() {
    let mut nodes = sample();
    let mut w = SidebarWalker::new(Some(client("a")), true, InstSelectOperation::Down);
    w.walk(&mut nodes);
    assert_eq!(w.state, WalkState::Found { force_expanded: true });
    assert_eq!(selected_name(&w).as_deref(), Some("b"));
    assert!(expanded(&nodes[1]));
}

#[test]
fn walk_to_specific_instance_in_closed_folder() {
    let mut nodes = sample();
    let mut w = SidebarWalker::new(None, false, InstSelectOperation::Specific(client("c")));
    w.walk(&mut nodes);
    assert_eq!(w.state, WalkState::Found { force_expanded: false });
    assert_eq!(selected_name(&w).as_deref(), Some("c"));
    assert_eq!(w.next_selected_idx, 3);
    assert_eq!(w.total_len, 5);
    assert!(expanded(&nodes[1]));
    assert_eq!(names(children(&nodes[1])), vec!["b", "c"]);
}

#[test]
fn walk_to_missing_instance_finds_nothing() {
    let mut nodes = sample();
    let mut w = SidebarWalker::new(Some(client("a")), false, InstSelectOperation::Specific(client("zz")));
    w.walk(&mut nodes);
    assert_eq!(w.state, WalkState::FindingCurrentSelected);
    assert_eq!(selected_name(&w).as_deref(), Some("a"));
    assert!(w.next_selected_idx < w.total_len);
}

#[test]
fn walk_on_empty_sidebar_does_nothing() {
    let mut nodes: Vec<SidebarNode> = Vec::new();
    let mut w = SidebarWalker::new(None, false, InstSelectOperation::Down);
    w.walk(&mut nodes);
    assert_eq!(w.state, WalkState::FindingCurrentSelected);
    assert!(w.selected_instance.is_none());
}

#[test]
fn contains_and_get_node() {
    let s = SidebarConfig { list: sample() };
    assert!(s.contains_instance("c", InstanceKind::Client));
    assert!(!s.contains_instance("c", InstanceKind::Server));
    assert!(!s.contains_instance("F", InstanceKind::Client));
    let n = s.get_node(&SidebarSelection::Folder(FolderId(1))).expect("folder");
    assert_eq!(n.name, "F");
    assert!(s.get_node(&SidebarSelection::Folder(FolderId(9))).is_none());
}

#[test]
fn rename_and_toggle() {
    let mut s = SidebarConfig { list: sample() };
    s.rename(&SidebarSelection::Instance("c".to_string(), InstanceKind::Client), "cc");
    assert_eq!(names(children(&s.list[1])), vec!["b", "cc"]);
    s.toggle_visibility(FolderId(1));
    assert!(expanded(&s.list[1]));
    s.toggle_visibility(FolderId(1));
    assert!(!expanded(&s.list[1]));
}

#[test]
fn new_folder_after_selection() {
    let mut s = SidebarConfig { list: sample() };
    let id = s.new_folder_at(Some(SidebarSelection::Instance("b".to_string(), InstanceKind::Client)), "New Folder");
    assert_eq!(names(children(&s.list[1])), vec!["b", "New Folder", "c"]);
    assert!(s.get_node(&SidebarSelection::Folder(id)).is_some());
    let id2 = s.new_folder_at(None, "Top");
    assert_eq!(names(&s.list), vec!["a", "F", "d", "Top"]);
    assert!(s.get_node(&SidebarSelection::Folder(id2)).is_some());
}

#[test]
fn delete_folder_keeps_its_entries() {
    let mut s = SidebarConfig { list: sample() };
    s.delete_folder(FolderId(1));
    assert_eq!(names(&s.list), vec!["a", "d", "b", "c"]);
    assert!(s.contains_instance("b", InstanceKind::Client));
}

#[test]
fn drag_instance_into_folder() {
    let mut s = SidebarConfig { list: sample() };
    let loc = SDragLocation { sel: SidebarSelection::Folder(FolderId(1)), offset: SDragTo::Inside };
    s.drag_drop(&SidebarSelection::Instance("a".to_string(), InstanceKind::Client), Some(loc));
    assert_eq!(names(&s.list), vec!["F", "d"]);
    assert_eq!(names(children(&s.list[0])), vec!["b", "c", "a"]);
    assert!(expanded(&s.list[0]));
}

#[test]
fn drag_instance_before_and_to_empty_space() {
    let mut s = SidebarConfig { list: sample() };
    let loc = SDragLocation { sel: SidebarSelection::Instance("a".to_string(), InstanceKind::Client), offset: SDragTo::Before };
    s.drag_drop(&SidebarSelection::Instance("d".to_string(), InstanceKind::Client), Some(loc));
    assert_eq!(names(&s.list), vec!["d", "a", "F"]);
    s.drag_drop(&SidebarSelection::Instance("d".to_string(), InstanceKind::Client), None);
    assert_eq!(names(&s.list), vec!["a", "F", "d"]);
}

#[test]
fn drag_folder_into_itself_is_refused() {
    let mut s = SidebarConfig { list: sample() };
    let loc = SDragLocation { sel: SidebarSelection::Instance("b".to_string(), InstanceKind::Client), offset: SDragTo::After };
    s.drag_drop(&SidebarSelection::Folder(FolderId(1)), Some(loc));
    assert_eq!(names(&s.list), vec!["a", "F", "d"]);
    assert_eq!(names(children(&s.list[1])), vec!["b", "c"]);
}

#[test]
fn fix_drops_duplicates() {
    let mut s = SidebarConfig { list: vec![inst("a"), folder("F", 1, true, vec![inst("a"), inst("b")]), inst("b")] };
    s.fix();
    assert_eq!(names(&s.list), vec!["a", "F"]);
    assert_eq!(names(children(&s.list[1])), vec!["b"]);
    s.fix();
    assert_eq!(names(&s.list), vec!["a", "F"]);
    assert_eq!(names(children(&s.list[1])), vec!["b"]);
}

#[test]
fn update_sidebar_follows_instance_list() {
    let mut sidebar = Some(SidebarConfig { list: sample() });
    let instances = vec!["a".to_string(), "c".to_string(), "e".to_string()];
    update_sidebar(&mut sidebar, &instances, false);
    let s = sidebar.expect("sidebar");
    assert_eq!(names(&s.list), vec!["a", "F", "e"]);
    assert_eq!(names(children(&s.list[1])), vec!["c"]);

    let mut none: Option<SidebarConfig> = None;
    update_sidebar(&mut none, &instances, true);
    let s = none.expect("sidebar");
    assert_eq!(names(&s.list), vec!["a", "c", "e"]);
    assert!(s.contains_instance("e", InstanceKind::Server));
}

#[test]
fn drag_hover_enter_and_leave() {
    let here = || SDragLocation { sel: SidebarSelection::Folder(FolderId(1)), offset: SDragTo::Inside };
    let there = || SDragLocation { sel: SidebarSelection::Folder(FolderId(2)), offset: SDragTo::Inside };
    let mut to: Option<SDragLocation> = None;
    drag_hover(&mut to, here(), true);
    assert!(to.as_ref().is_some_and(|l| l.same_as(&here())));
    drag_hover(&mut to, there(), false);
    assert!(to.as_ref().is_some_and(|l| l.same_as(&here())));
    drag_hover(&mut to, here(), false);
    assert!(to.is_none());
}

#[test]
fn new_folder_ids_are_fresh() {
    let a = SidebarNode::new_folder("x".to_string());
    let b = SidebarNode::new_folder("x".to_string());
    assert_ne!(a.get_folder_id(), b.get_folder_id());
}
