use quantum_launcher::mods::categories::ModCategoryState;
use quantum_launcher::menu::SelectedState;
use quantum_launcher::mods::export::{display_name, export_mods_markdown, export_mods_plain_text};
use quantum_launcher::mods::jarmods::{JarMod, JarMods, MenuEditJarMods};
use quantum_launcher::mods::select::MenuEditMods;
use quantum_launcher::mods::sort::sort_dependencies;
use quantum_launcher::mods::types::{ModConfig, ModId, ModListEntry, SelectedMod};

fn cfg(name: &str, manual: bool) -> ModConfig {
    ModConfig { name: name.to_string(), manually_installed: manual, enabled: true }
}

fn sample_downloaded() -> Vec<(ModId, ModConfig)> {
    vec![
        (ModId::Modrinth("1".to_string()), cfg("Zeta", true)),
        (ModId::Modrinth("2".to_string()), cfg("alpha", false)),
        (ModId::Curseforge("3".to_string()), cfg("Beta", true)),
        (ModId::Modrinth("4".to_string()), cfg("Gamma", false)),
    ]
}

#[test]
fn mod_list_order() {
    let locals = vec!["b.jar".to_string(), "A.jar".to_string()];
    let list = sort_dependencies(&sample_downloaded(), &locals);
    let names: Vec<&str> = list.iter().map(|e| e.name()).collect();
    assert_eq!(names, vec!["Beta", "Zeta", "A.jar", "b.jar", "Gamma", "alpha"]);
    let manual: Vec<bool> = list.iter().map(|e| e.is_manually_installed()).collect();
    assert_eq!(manual, vec![true, true, true, true, false, false]);
}

#[test]
fn mod_list_empty() {
    assert!(sort_dependencies(&Vec::new(), &Vec::new()).is_empty());
}

#[test]
fn mod_list_keeps_every_entry() {
    let mut downloaded = Vec::new();
    for i in 0..30u32 {
        let name = format!("m{}", (i * 7) % 13);
        downloaded.push((ModId::Modrinth(i.to_string()), cfg(&name, i % 3 == 0)));
    }
    let locals: Vec<String> = (0..10).map(|i| format!("l{}.jar", 9 - i)).collect();
    let list = sort_dependencies(&downloaded, &locals);
    assert_eq!(list.len(), 40);
    for w in list.windows(2) {
        let band = |e: &ModListEntry| match e {
            ModListEntry::Downloaded { config, .. } => if config.manually_installed { 0 } else { 2 },
            ModListEntry::Local { .. } => 1,
        };
        let (a, b) = (&w[0], &w[1]);
        assert!(band(a) < band(b) || (band(a) == band(b) && a.name() <= b.name()));
    }
}

#[test]
fn display_names_of_local_jars() {
    assert_eq!(display_name("sodium.jar"), "sodium");
    assert_eq!(display_name("pack.zip"), "pack");
    assert_eq!(display_name("notes.txt"), "notes.txt");
    assert_eq!(display_name(".jar"), "");
    assert_eq!(display_name("a.jar.zip"), "a.jar");
}

fn export_sample() -> Vec<SelectedMod> {
    vec![
        SelectedMod::Downloaded { name: "Sodium".to_string(), id: ModId::Modrinth("AANobbMI".to_string()) },
        SelectedMod::Local { file_name: "foo.jar".to_string() },
        SelectedMod::Local { file_name: "bar.zip".to_string() },
        SelectedMod::Local { file_name: "baz.txt".to_string() },
        SelectedMod::Downloaded { name: "JEI".to_string(), id: ModId::Curseforge("238222".to_string()) },
    ]
}

#[test]
fn export_plain_text() {
    assert_eq!(export_mods_plain_text(&export_sample()), "Sodium\nfoo\nbar\nbaz.txt\nJEI");
    assert_eq!(export_mods_plain_text(&Vec::new()), "");
}

#[test]
fn export_markdown() {
    assert_eq!(
        export_mods_markdown(&export_sample()),
        "- [Sodium](https://modrinth.com/mod/AANobbMI)\nfoo\nbar\nbaz.txt\n- [JEI](https://www.curseforge.com/projects/238222)"
    );
    assert_eq!(export_mods_markdown(&Vec::new()), "");
}

fn menu() -> MenuEditMods {
    let locals = vec!["a.jar".to_string()];
    MenuEditMods {
        sorted_mods_list: sort_dependencies(&sample_downloaded(), &locals),
        selected_mods: Vec::new(),
        shift_selected_mods: Vec::new(),
        selected_state: SelectedState::Empty,
        list_shift_index: None,
        modal_open: true,
    }
}

fn pick(m: &MenuEditMods, i: usize) -> SelectedMod {
    SelectedMod::from_entry(m.sorted_mods_list[i].clone())
}

fn picked(m: &MenuEditMods, i: usize) -> bool {
    let p = pick(m, i);
    m.selected_mods.iter().any(|s| s.same_as(&p))
}

#[test]
fn clicking_mods() {
    let mut m = menu();
    // Beta, Zeta, a.jar, Gamma, alpha
    assert!(m.modal_open);
    m.select_mod(pick(&m, 1), false, false);
    assert!(!m.modal_open);
    assert_eq!(m.selected_mods.len(), 1);
    assert!(picked(&m, 1));
    assert_eq!(m.list_shift_index, Some(1));

    m.select_mod(pick(&m, 3), false, true);
    assert_eq!(m.selected_mods.len(), 3);
    assert!(picked(&m, 1) && picked(&m, 2) && picked(&m, 3));
    assert_eq!(m.shift_selected_mods.len(), 2);
    assert_eq!(m.list_shift_index, Some(1));

    m.select_mod(pick(&m, 0), false, true);
    assert_eq!(m.selected_mods.len(), 2);
    assert!(picked(&m, 0) && picked(&m, 1));
    assert_eq!(m.shift_selected_mods.len(), 1);

    m.select_mod(pick(&m, 3), true, false);
    assert_eq!(m.selected_mods.len(), 3);
    assert!(picked(&m, 0) && picked(&m, 1) && picked(&m, 3));
    assert!(m.shift_selected_mods.is_empty());
    assert_eq!(m.list_shift_index, Some(3));

    m.select_mod(pick(&m, 3), false, false);
    assert_eq!(m.selected_mods.len(), 1);
    assert!(picked(&m, 3));

    m.select_mod(pick(&m, 3), false, false);
    assert!(m.selected_mods.is_empty());

    m.update_selected_state();
    assert_eq!(m.selected_state, SelectedState::Empty);
}

#[test]
fn ctrl_click_toggles() {
    let mut m = menu();
    m.select_mod(pick(&m, 2), true, false);
    m.select_mod(pick(&m, 4), true, false);
    assert_eq!(m.selected_mods.len(), 2);
    m.select_mod(pick(&m, 2), true, false);
    assert_eq!(m.selected_mods.len(), 1);
    assert!(picked(&m, 4));
    m.update_selected_state();
    assert_eq!(m.selected_state, SelectedState::Partial);
}

#[test]
fn picked_ids_and_files() {
    let mut m = menu();
    m.select_mod(pick(&m, 0), true, false);
    m.select_mod(pick(&m, 2), true, false);
    m.select_mod(pick(&m, 4), true, false);
    let (ids, files) = m.get_kinds_of_ids();
    assert_eq!(ids.len(), 2);
    assert!(ids[0].same_as(&ModId::Curseforge("3".to_string())));
    assert!(ids[1].same_as(&ModId::Modrinth("2".to_string())));
    assert_eq!(files, vec!["a.jar".to_string()]);
    assert!(m.is_selected(&ModId::Curseforge("3".to_string())));
    assert!(!m.is_selected(&ModId::Modrinth("3".to_string())));
}

#[test]
fn select_all_mods() {
    let mut m = menu();
    let locals = vec!["a.jar".to_string()];
    m.select_all(&sample_downloaded(), &locals);
    assert_eq!(m.selected_state, SelectedState::All);
    assert_eq!(m.selected_mods.len(), 3);
    assert!(picked(&m, 0) && picked(&m, 1) && picked(&m, 2));
    assert!(!picked(&m, 3));
    m.select_all(&sample_downloaded(), &locals);
    assert_eq!(m.selected_state, SelectedState::Empty);
    assert!(m.selected_mods.is_empty());
}

#[test]
fn ensure_selected_picks_alone() {
    let mut m = menu();
    m.select_mod(pick(&m, 0), false, false);
    m.select_mod(pick(&m, 2), false, true);
    assert_eq!(m.selected_mods.len(), 3);
    m.select_ensure(pick(&m, 3));
    assert_eq!(m.selected_mods.len(), 1);
    assert!(picked(&m, 3));
    assert!(m.shift_selected_mods.is_empty());
    assert_eq!(m.list_shift_index, Some(3));
    assert_eq!(m.selected_state, SelectedState::Partial);
}

#[test]
fn export_starts_with_picks_or_everything() {
    let mut m = menu();
    let locals = vec!["a.jar".to_string()];
    let all = m.export_selection(&sample_downloaded(), &locals);
    assert_eq!(all.len(), 3);
    assert!((0..3).all(|i| all.iter().any(|s| s.same_as(&pick(&m, i)))));
    m.select_mod(pick(&m, 4), false, false);
    let some = m.export_selection(&sample_downloaded(), &locals);
    assert_eq!(some.len(), 1);
    assert!(some[0].same_as(&pick(&m, 4)));
}

fn jar(name: &str, enabled: bool) -> JarMod {
    JarMod { filename: name.to_string(), enabled }
}

fn jar_menu() -> MenuEditJarMods {
    MenuEditJarMods {
        jarmods: JarMods { mods: vec![jar("a.jar", true), jar("b.jar", true), jar("c.jar", false), jar("d.jar", true)] },
        selected_state: SelectedState::Partial,
        selected_mods: vec!["b.jar".to_string(), "c.jar".to_string()],
        drag_and_drop_hovered: false,
    }
}

fn jar_names(m: &MenuEditJarMods) -> Vec<String> {
    m.jarmods.mods.iter().map(|j| j.filename.clone()).collect()
}

#[test]
fn jarmods_move_up() {
    let mut m = jar_menu();
    m.move_up_or_down(false);
    assert_eq!(jar_names(&m), vec!["b.jar", "c.jar", "a.jar", "d.jar"]);
    m.move_up_or_down(false);
    assert_eq!(jar_names(&m), vec!["c.jar", "b.jar", "a.jar", "d.jar"]);
}

#[test]
fn jarmods_move_down() {
    let mut m = jar_menu();
    m.move_up_or_down(true);
    assert_eq!(jar_names(&m), vec!["a.jar", "d.jar", "b.jar", "c.jar"]);
}

#[test]
fn jarmods_toggle_and_delete() {
    let mut m = jar_menu();
    m.toggle_selected();
    let enabled: Vec<bool> = m.jarmods.mods.iter().map(|j| j.enabled).collect();
    assert_eq!(enabled, vec![true, false, true, true]);
    m.toggle_selected();
    let enabled: Vec<bool> = m.jarmods.mods.iter().map(|j| j.enabled).collect();
    assert_eq!(enabled, vec![true, true, false, true]);
    let deleted = m.delete_selected();
    assert_eq!(deleted, vec!["b.jar".to_string(), "c.jar".to_string()]);
    assert_eq!(jar_names(&m), vec!["a.jar", "d.jar"]);
    assert!(m.selected_mods.is_empty());
}

#[test]
fn jarmods_select_all_and_checkbox() {
    let mut m = jar_menu();
    m.select_all();
    assert_eq!(m.selected_state, SelectedState::All);
    assert_eq!(m.selected_mods.len(), 4);
    m.select_all();
    assert_eq!(m.selected_state, SelectedState::Empty);
    assert!(m.selected_mods.is_empty());
    m.toggle_checkbox("d.jar".to_string(), true);
    m.toggle_checkbox("d.jar".to_string(), true);
    assert_eq!(m.selected_mods, vec!["d.jar".to_string()]);
    assert_eq!(m.selected_state, SelectedState::Partial);
    m.toggle_checkbox("d.jar".to_string(), false);
    assert!(m.selected_mods.is_empty());
    assert_eq!(m.selected_state, SelectedState::Empty);
}

#[test]
fn category_toggle_picks_and_drops() {
    let mut c = ModCategoryState::default();
    assert!(c.use_all);
    assert!(c.selected.is_empty());
    c.toggle("magic");
    c.toggle("tech");
    assert_eq!(c.selected, vec!["magic".to_string(), "tech".to_string()]);
    c.toggle("magic");
    assert_eq!(c.selected, vec!["tech".to_string()]);
    c.toggle("tech");
    assert!(c.selected.is_empty());
    c.toggle("storage");
    c.use_all = false;
    c.reset();
    assert!(c.selected.is_empty());
    assert!(!c.use_all);
}

#[test]
fn dropped_jar_mods_join_once() {
    let mut j = JarMods { mods: vec![JarMod { filename: "a.jar".to_string(), enabled: false }] };
    j.add_dropped("b.jar");
    j.add_dropped("a.jar");
    assert_eq!(j.mods.len(), 2);
    assert_eq!(j.mods[1].filename, "b.jar");
    assert!(j.mods[1].enabled);
    assert!(!j.mods[0].enabled);
}
