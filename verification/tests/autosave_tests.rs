use quantum_launcher::autosave::{instance_config_due, jarmods_due, launcher_config_due, note_instance_edit, AutoSave};
use quantum_launcher::message::EditInstanceMessage;
use quantum_launcher::menu::AutoSaveKind;

#[test]
fn launcher_config_saved_every_fifth_tick_after_a_change() {
    let mut a = AutoSave::new();
    assert!(!launcher_config_due(&mut a, 3));
    assert!(!a.contains(AutoSaveKind::LauncherConfig));
    assert!(launcher_config_due(&mut a, 5));
    assert!(a.contains(AutoSaveKind::LauncherConfig));
    assert!(!launcher_config_due(&mut a, 10));
    assert!(a.remove(AutoSaveKind::LauncherConfig));
    assert!(!launcher_config_due(&mut a, 11));
    assert!(launcher_config_due(&mut a, 15));
}

#[test]
fn instance_config_saved_on_change_and_every_fifth_tick() {
    let mut a = AutoSave::new();
    assert!(instance_config_due(&mut a, 1));
    assert!(!instance_config_due(&mut a, 2));
    assert!(instance_config_due(&mut a, 5));
    a.remove(AutoSaveKind::InstanceConfig);
    assert!(instance_config_due(&mut a, 6));
}

#[test]
fn jarmods_saved_once_per_change() {
    let mut a = AutoSave::new();
    assert!(jarmods_due(&mut a));
    assert!(!jarmods_due(&mut a));
    assert!(!a.remove(AutoSaveKind::LauncherConfig));
    assert!(a.remove(AutoSaveKind::Jarmods));
    assert!(jarmods_due(&mut a));
    assert!(!a.insert(AutoSaveKind::Jarmods));
}

#[test]
fn instance_edits_mark_the_config_changed() {
    let mut a = AutoSave::new();
    a.insert(AutoSaveKind::InstanceConfig);
    note_instance_edit(&mut a, &EditInstanceMessage::RenameEdit("x".to_string()));
    assert!(a.contains(AutoSaveKind::InstanceConfig));
    note_instance_edit(&mut a, &EditInstanceMessage::LoggingToggle(true));
    assert!(!a.contains(AutoSaveKind::InstanceConfig));
    assert!(!EditInstanceMessage::ConfigSaved(Ok(())).edits_config());
    assert!(EditInstanceMessage::MemoryChanged.edits_config());
}
