use quantum_launcher::config::{LauncherConfig, PersistentSettings};
use quantum_launcher::instance::InstanceKind;

#[test]
fn persistent_defaults_remember_nothing_yet() {
    let p = PersistentSettings::default();
    assert_eq!(p.selected_instance, None);
    assert_eq!(p.selected_server, None);
    assert!(p.selected_remembered);
    assert_eq!(p.create_instance_filters, None);
}

#[test]
fn c_persistent_creates_defaults_once() {
    let mut c = LauncherConfig::new_default("0.5.0".to_string());
    assert!(c.persistent.is_none());
    c.c_persistent().selected_instance = Some("survival".to_string());
    assert_eq!(c.persistent.as_ref().unwrap().selected_instance.as_deref(), Some("survival"));
    // A second call keeps what is there.
    assert_eq!(c.c_persistent().selected_instance.as_deref(), Some("survival"));
    assert!(c.c_persistent().selected_remembered);
}

#[test]
fn remembered_selection_is_noted_by_kind() {
    let mut p = PersistentSettings::default();
    assert!(p.remember_selection("world".to_string(), InstanceKind::Client));
    assert!(p.remember_selection("smp".to_string(), InstanceKind::Server));
    assert_eq!(p.selected_instance.as_deref(), Some("world"));
    assert_eq!(p.selected_server.as_deref(), Some("smp"));
    assert_eq!(p.startup_selection().map(String::as_str), Some("world"));
}

#[test]
fn remembering_off_forgets_and_ignores() {
    let mut p = PersistentSettings::default();
    p.remember_selection("world".to_string(), InstanceKind::Client);
    p.set_remembering(false);
    assert_eq!(p.selected_instance, None);
    assert_eq!(p.selected_server, None);
    assert!(!p.remember_selection("other".to_string(), InstanceKind::Client));
    assert_eq!(p.selected_instance, None);
    assert_eq!(p.startup_selection(), None);
    p.set_remembering(true);
    assert!(p.remember_selection("other".to_string(), InstanceKind::Client));
    assert_eq!(p.startup_selection().map(String::as_str), Some("other"));
}

#[test]
fn startup_selection_skips_when_not_remembering() {
    let mut p = PersistentSettings::default();
    p.selected_instance = Some("kept".to_string());
    p.selected_remembered = false;
    assert_eq!(p.startup_selection(), None);
}

#[test]
fn create_filters_fall_back_to_defaults() {
    let mut p = PersistentSettings::default();
    assert_eq!(p.get_create_instance_filters(vec![0, 1]), vec![0, 1]);
    p.create_instance_filters = Some(vec![]);
    assert_eq!(p.get_create_instance_filters(vec![0, 1]), vec![0, 1]);
    p.create_instance_filters = Some(vec![3]);
    assert_eq!(p.get_create_instance_filters(vec![0, 1]), vec![3]);
}

#[test]
fn missing_remembered_instance_is_found() {
    let mut p = PersistentSettings::default();
    let list = vec!["a".to_string(), "b".to_string()];
    assert!(!p.remembered_is_missing(&list, false));
    p.selected_instance = Some("b".to_string());
    assert!(!p.remembered_is_missing(&list, false));
    p.selected_instance = Some("gone".to_string());
    assert!(p.remembered_is_missing(&list, false));
    assert!(!p.remembered_is_missing(&list, true));
    p.selected_server = Some("a".to_string());
    assert!(!p.remembered_is_missing(&list, true));
    p.unselect();
    assert_eq!(p.selected_instance, None);
    assert_eq!(p.selected_server, None);
    assert!(!p.remembered_is_missing(&list, false));
}
