use quantum_launcher::config::LauncherConfig;
use quantum_launcher::instance::InstanceKind;
use quantum_launcher::menu::{InstanceLog, MenuLoginAlternate};
use quantum_launcher::mods::select::{right_click_target, toggle_update_row, update_rows};
use quantum_launcher::mods::store::{project_page_url, StoreBackend};
use quantum_launcher::mods::types::{ModConfig, ModId};
use quantum_launcher::session::{
    launch_action, memory_input, next_tick, parse_usize, reads_system_theme, LaunchAction, LogPanel,
};
use quantum_launcher::theme::LauncherThemeLightness;

#[test]
fn log_panel_toggles_and_scrolls() {
    let mut p = LogPanel::new();
    assert!(!p.is_log_open);
    p.toggle();
    assert!(p.is_log_open);
    p.toggle();
    assert!(!p.is_log_open);
    p.scroll_to(10);
    p.scroll(3);
    assert_eq!(p.log_scroll, 7);
    p.scroll(-5);
    assert_eq!(p.log_scroll, 12);
    // Scrolling past the newest line is ignored.
    p.scroll(20);
    assert_eq!(p.log_scroll, 12);
    p.scroll(12);
    assert_eq!(p.log_scroll, 0);
}

#[test]
fn tick_counter_wraps() {
    assert_eq!(next_tick(0), 1);
    assert_eq!(next_tick(41), 42);
    assert_eq!(next_tick(usize::MAX), 0);
}

#[test]
fn system_theme_read_every_fourth_tick_when_following_system() {
    assert!(reads_system_theme(None, 0));
    assert!(reads_system_theme(Some(LauncherThemeLightness::Auto), 8));
    assert!(!reads_system_theme(Some(LauncherThemeLightness::Auto), 9));
    assert!(!reads_system_theme(Some(LauncherThemeLightness::Dark), 8));
    assert!(!reads_system_theme(Some(LauncherThemeLightness::Light), 0));
}

#[test]
fn play_decisions() {
    assert_eq!(launch_action(None, false, false, "Steve", false), LaunchAction::Nothing);
    assert_eq!(launch_action(Some(InstanceKind::Client), true, false, "Steve", false), LaunchAction::Nothing);
    assert_eq!(launch_action(Some(InstanceKind::Server), false, true, "", false), LaunchAction::RunServer);
    assert_eq!(launch_action(Some(InstanceKind::Client), false, true, "", false), LaunchAction::Refused);
    assert_eq!(launch_action(Some(InstanceKind::Client), false, true, "Big Steve", false), LaunchAction::Refused);
    assert_eq!(launch_action(Some(InstanceKind::Client), false, true, "Steve", false), LaunchAction::LaunchGame);
    assert_eq!(launch_action(Some(InstanceKind::Client), false, false, "", true), LaunchAction::RefreshAccount);
    assert_eq!(launch_action(Some(InstanceKind::Client), false, false, "", false), LaunchAction::LaunchGame);
    assert!(LaunchAction::Refused.drops_old_log());
    assert!(!LaunchAction::Refused.shows_launching());
    assert!(!LaunchAction::Nothing.drops_old_log());
    assert!(LaunchAction::RefreshAccount.shows_launching());
    assert!(!LaunchAction::RunServer.shows_launching());
}

#[test]
fn decimal_parsing_follows_std() {
    for s in ["0", "7", "+7", "1024", "0042", "18446744073709551615", "", "+", "-1", "1 ", "x", "4096MB", "18446744073709551616", "١٢"] {
        assert_eq!(parse_usize(s), s.parse::<usize>().ok(), "{s}");
    }
}

#[test]
fn memory_input_needs_positive_number() {
    assert_eq!(memory_input("2048"), Some(2048));
    assert_eq!(memory_input("0"), None);
    assert_eq!(memory_input("2 GB"), None);
    assert_eq!(memory_input(""), None);
}

#[test]
fn server_command_is_echoed_and_cleared() {
    let mut log = InstanceLog::started(true, "linux");
    log.command = "say hi".to_string();
    let line = log.submit_command();
    assert_eq!(line, "say hi\n");
    assert_eq!(log.log.last().unwrap(), "> say hi");
    assert_eq!(log.log.len(), 2);
    assert!(log.command.is_empty());
}

fn alt_menu() -> MenuLoginAlternate {
    MenuLoginAlternate {
        username: "steve".to_string(),
        password: "hunter2".to_string(),
        show_password: false,
        is_incorrect_password: true,
        is_loading: false,
        otp: None,
        is_from_welcome_screen: false,
        is_littleskin: false,
        oauth: None,
        device_code_error: None,
    }
}

#[test]
fn alternate_login_flow() {
    let mut m = alt_menu();
    assert_eq!(m.begin_login(), "hunter2");
    assert!(!m.is_incorrect_password);
    assert!(m.is_loading);
    m.login_answered(true);
    assert!(!m.is_loading);
    assert_eq!(m.otp.as_deref(), Some(""));
    m.otp = Some("123456".to_string());
    assert_eq!(m.begin_login(), "hunter2:123456");
    assert!(m.login_refused("Invalid credentials: incorrect password."));
    assert!(m.is_incorrect_password);
    assert!(!m.is_loading);
    m.begin_login();
    assert!(!m.login_refused("network down"));
    assert!(m.is_loading);
    assert!(!m.is_incorrect_password);
}

#[test]
fn loaded_list_drops_missing_selection() {
    let mut c = LauncherConfig::new_default("0.5.0".to_string());
    c.c_persistent().selected_instance = Some("old".to_string());
    let list = vec!["new".to_string()];
    assert!(c.list_loaded(&list, false));
    assert_eq!(c.persistent.as_ref().unwrap().selected_instance, None);
    assert_eq!(c.sidebar.as_ref().unwrap().list.len(), 1);
    c.c_persistent().selected_instance = Some("new".to_string());
    assert!(!c.list_loaded(&list, false));
    assert_eq!(c.persistent.as_ref().unwrap().selected_instance.as_deref(), Some("new"));
    // Nothing remembered: nothing to drop.
    let mut fresh = LauncherConfig::new_default("0.5.0".to_string());
    assert!(!fresh.list_loaded(&list, true));
    assert!(fresh.persistent.as_ref().unwrap().selected_remembered);
}

fn id_str(id: &ModId) -> String {
    match id {
        ModId::Modrinth(s) => format!("modrinth:{s}"),
        ModId::Curseforge(s) => format!("curseforge:{s}"),
    }
}

#[test]
fn update_rows_start_checked_unless_disabled() {
    let index = vec![
        (ModId::Modrinth("a".to_string()), ModConfig { name: "A".to_string(), manually_installed: true, enabled: false }),
        (ModId::Modrinth("b".to_string()), ModConfig { name: "B".to_string(), manually_installed: true, enabled: true }),
    ];
    let updates = vec![
        (ModId::Modrinth("a".to_string()), "A 2.0".to_string()),
        (ModId::Modrinth("b".to_string()), "B 2.0".to_string()),
        (ModId::Curseforge("a".to_string()), "C 1.1".to_string()),
    ];
    let mut rows = update_rows(updates, &index);
    let view: Vec<(String, String, bool)> = rows.iter().map(|(i, t, e)| (id_str(i), t.clone(), *e)).collect();
    assert_eq!(
        view,
        vec![
            ("modrinth:a".to_string(), "A 2.0".to_string(), false),
            ("modrinth:b".to_string(), "B 2.0".to_string(), true),
            ("curseforge:a".to_string(), "C 1.1".to_string(), true),
        ]
    );
    toggle_update_row(&mut rows, 0, true);
    assert!(rows[0].2);
    toggle_update_row(&mut rows, 9, false);
    assert_eq!(rows.len(), 3);
    assert!(update_rows(Vec::new(), &index).is_empty());
}

#[test]
fn right_click_menu_toggles() {
    let r = right_click_target(None, ModId::Modrinth("x".to_string()));
    assert_eq!(r.as_ref().map(id_str), Some("modrinth:x".to_string()));
    let r = right_click_target(r, ModId::Modrinth("x".to_string()));
    assert!(r.is_none());
    let r = right_click_target(Some(ModId::Modrinth("x".to_string())), ModId::Curseforge("x".to_string()));
    assert_eq!(r.as_ref().map(id_str), Some("curseforge:x".to_string()));
}

#[test]
fn project_pages() {
    assert_eq!(project_page_url(StoreBackend::Modrinth, "mod", "sodium"), "https://modrinth.com/mod/sodium");
    assert_eq!(
        project_page_url(StoreBackend::Curseforge, "mc-mods", "jei"),
        "https://www.curseforge.com/minecraft/mc-mods/jei"
    );
}
