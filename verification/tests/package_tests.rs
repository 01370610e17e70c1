use quantum_launcher::package::{exceptions, export_list, toggle_item, DirItem};

fn item(name: &str, is_file: bool) -> DirItem {
    DirItem { name: name.to_string(), is_file }
}

#[test]
fn export_list_order_and_ticks() {
    let listing = vec![
        item("options.txt", true),
        item("saves", false),
        item("logs", false),
        item("mod_index.json", true),
        item("command_history.txt", true),
        item("mods", false),
        item("launcher_profiles.json", true),
    ];
    let list = export_list(listing);
    let shown: Vec<(&str, bool, bool)> = list.iter().map(|(d, t)| (d.name.as_str(), d.is_file, *t)).collect();
    assert_eq!(
        shown,
        vec![
            ("logs", false, false),
            ("mods", false, true),
            ("saves", false, true),
            ("command_history.txt", true, false),
            ("options.txt", true, true),
        ]
    );
}

#[test]
fn unticked_entries_are_left_out() {
    let mut list = export_list(vec![item("saves", false), item("logs", false), item("screenshots", false)]);
    assert_eq!(exceptions(&list), vec![".minecraft/logs".to_string()]);
    toggle_item(&mut list, 2, false);
    toggle_item(&mut list, 0, true);
    toggle_item(&mut list, 9, false);
    assert_eq!(exceptions(&list), vec![".minecraft/screenshots".to_string()]);
}
