use quantum_launcher::autosave::AutoSave;
use quantum_launcher::custom_jar::{
    custom_jar_added, custom_jar_picked, custom_jars_loaded, JarMenuAction, ADD_JAR_NAME, NONE_JAR_NAME,
    OPEN_FOLDER_JAR_NAME, REMOVE_JAR_NAME,
};
use quantum_launcher::menu::AutoSaveKind;

fn names(v: &[&str]) -> Vec<String> {
    v.iter().map(|s| s.to_string()).collect()
}

#[test]
fn picking_jar_menu_entries() {
    let mut chosen: Option<String> = None;
    let mut choices = Some(names(&["(None)", "a.jar", "b.jar"]));
    assert!(matches!(custom_jar_picked(&mut chosen, &mut choices, ADD_JAR_NAME.to_string()), JarMenuAction::PickFile));
    assert!(matches!(
        custom_jar_picked(&mut chosen, &mut choices, OPEN_FOLDER_JAR_NAME.to_string()),
        JarMenuAction::OpenFolder
    ));
    assert!(matches!(custom_jar_picked(&mut chosen, &mut choices, REMOVE_JAR_NAME.to_string()), JarMenuAction::Nothing));
    assert!(matches!(custom_jar_picked(&mut chosen, &mut choices, "a.jar".to_string()), JarMenuAction::Nothing));
    assert_eq!(chosen.as_deref(), Some("a.jar"));
    match custom_jar_picked(&mut chosen, &mut choices, REMOVE_JAR_NAME.to_string()) {
        JarMenuAction::DeleteFile(n) => assert_eq!(n, "a.jar"),
        other => panic!("unexpected {other:?}"),
    }
    assert_eq!(chosen, None);
    assert_eq!(choices, Some(names(&["(None)", "b.jar"])));
    custom_jar_picked(&mut chosen, &mut choices, "b.jar".to_string());
    custom_jar_picked(&mut chosen, &mut choices, NONE_JAR_NAME.to_string());
    assert_eq!(chosen, None);
}

#[test]
fn reloading_the_jar_list() {
    let mut chosen = Some("gone.jar".to_string());
    let mut choices: Option<Vec<String>> = None;
    let mut autosave = AutoSave::new();
    autosave.insert(AutoSaveKind::InstanceConfig);
    custom_jars_loaded(&mut chosen, &mut choices, &mut autosave, names(&["(None)", "kept.jar"]));
    assert_eq!(chosen, None);
    assert!(!autosave.contains(AutoSaveKind::InstanceConfig));
    assert_eq!(choices, Some(names(&["(None)", "kept.jar"])));

    let mut chosen = Some("kept.jar".to_string());
    autosave.insert(AutoSaveKind::InstanceConfig);
    custom_jars_loaded(&mut chosen, &mut choices, &mut autosave, names(&["(None)", "kept.jar"]));
    assert_eq!(chosen.as_deref(), Some("kept.jar"));
    assert!(autosave.contains(AutoSaveKind::InstanceConfig));
}

#[test]
fn adding_a_jar() {
    let mut chosen = None;
    let mut choices = names(&["(None)", "a.jar"]);
    custom_jar_added(&mut chosen, &mut choices, "new.jar".to_string());
    assert_eq!(choices, names(&["(None)", "new.jar", "a.jar"]));
    assert_eq!(chosen.as_deref(), Some("new.jar"));
    custom_jar_added(&mut chosen, &mut choices, "a.jar".to_string());
    assert_eq!(choices, names(&["(None)", "new.jar", "a.jar"]));
    assert_eq!(chosen.as_deref(), Some("a.jar"));
}
