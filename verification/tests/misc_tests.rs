use quantum_launcher::about::{long_about, DISCORD, GITHUB};
use quantum_launcher::config::{
    account_type_for, load_accounts, tick_interval, AccountData, AccountType, ConfigAccount, LauncherConfig, UiSettings,
    UiWindowDecorations,
};
use quantum_launcher::cli::{confirm_answer, loader_install_check, print_commands, Loader, LoaderInstallCheck, PrintCmd};
use quantum_launcher::mods::local::{is_local_mod_file, mod_file_blacklist};
use quantum_launcher::input::{
    can_quit, drop_action, escape_handled, hide_submenu, key_action, screen_is_server, BackScreen, BackTarget,
    DropAction, KeyAction, KeyInput, Overlays, ScreenKind,
};
use quantum_launcher::instance::{Instance, InstanceKind};
use quantum_launcher::mclogs::{check_log_content, log_metadata, MclogsResponse};
use quantum_launcher::menu::{
    crash_message, InstanceLog, InfoMessage, InfoMessageKind, LaunchTab, LauncherSettingsTab, LicenseTab, LicenseTexts, LittleSkinOauth, MenuWelcome,
    SelectedState,
};
use quantum_launcher::message::ListMessage;
use quantum_launcher::navigation::key_change_selection;
use quantum_launcher::text::{has_char, split_words, str_eq, strip_suffix};
use quantum_launcher::theme::{LauncherThemeColor, LauncherThemeLightness};

#[test]
fn theme_names_round_trip() {
    for c in LauncherThemeColor::all() {
        assert_eq!(LauncherThemeColor::from_name(c.label()), c);
        let parsed: LauncherThemeColor = c.label().parse().unwrap();
        assert_eq!(parsed, c);
    }
    assert_eq!(LauncherThemeColor::from_name("Sky Blue"), LauncherThemeColor::SkyBlue);
    assert_eq!(LauncherThemeColor::from_name("sky blue"), LauncherThemeColor::Purple);
    assert_eq!(LauncherThemeColor::default(), LauncherThemeColor::Purple);
    assert_eq!(LauncherThemeColor::all().len(), 7);
}

#[test]
fn lightness() {
    assert_eq!(LauncherThemeLightness::default(), LauncherThemeLightness::Auto);
    assert!(LauncherThemeLightness::Light.is_light(true));
    assert!(!LauncherThemeLightness::Dark.is_light(false));
    assert!(LauncherThemeLightness::Auto.is_light(false));
    assert!(!LauncherThemeLightness::Auto.is_light(true));
    let labels: Vec<&str> = LauncherThemeLightness::all().iter().map(|l| l.label()).collect();
    assert_eq!(labels, vec!["Light", "Dark", "Auto"]);
}

fn account(kind: Option<AccountType>, keyring: Option<&str>) -> ConfigAccount {
    ConfigAccount {
        uuid: "2553495fc9094d40a82646cfc92cd7a5".to_string(),
        skin: None,
        account_type: kind,
        keyring_identifier: keyring.map(|s| s.to_string()),
        username_nice: None,
    }
}

#[test]
fn keyring_identifiers() {
    assert_eq!(account(None, Some("me@mail.org")).get_keyring_identifier("x"), "me@mail.org");
    assert_eq!(account(Some(AccountType::ElyBy), None).get_keyring_identifier("steve (elyby)"), "steve");
    assert_eq!(account(Some(AccountType::ElyBy), None).get_keyring_identifier("steve"), "steve");
    assert_eq!(account(Some(AccountType::LittleSkin), None).get_keyring_identifier("alex (littleskin)"), "alex");
    assert_eq!(account(Some(AccountType::Microsoft), None).get_keyring_identifier("bob (elyby)"), "bob (elyby)");
    assert_eq!(account(None, None).get_keyring_identifier("bob (elyby)"), "bob (elyby)");
}

#[test]
fn account_from_login() {
    let data = AccountData {
        access_token: None,
        uuid: "u".to_string(),
        refresh_token: "r".to_string(),
        needs_refresh: true,
        account_type: AccountType::ElyBy,
        username: "me@mail.org".to_string(),
        nice_username: "me".to_string(),
    };
    let a = ConfigAccount::from_account(&data);
    assert_eq!(a.uuid, "u");
    assert_eq!(a.account_type, Some(AccountType::ElyBy));
    assert_eq!(a.keyring_identifier.as_deref(), Some("me@mail.org"));
    assert_eq!(a.username_nice.as_deref(), Some("me"));
    assert!(a.skin.is_none());
}

#[test]
fn config_fix() {
    let mut c = LauncherConfig::new_default("0.5.0".to_string());
    assert_eq!(c.ui_antialiasing, Some(true));
    c.ui_antialiasing = None;
    c.java_installs = None;
    c.accounts = Some(vec![("steve".to_string(), account(None, None))]);
    c.account_selected = Some("alex".to_string());
    c.fix();
    assert_eq!(c.ui_antialiasing, Some(true));
    assert!(c.account_selected.is_none());
    assert_eq!(c.java_installs.as_ref().map(|v| v.len()), Some(0));
    c.account_selected = Some("steve".to_string());
    c.ui_antialiasing = Some(false);
    c.fix();
    assert_eq!(c.account_selected.as_deref(), Some("steve"));
    assert_eq!(c.ui_antialiasing, Some(false));
    c.accounts = None;
    c.account_selected = Some("alex".to_string());
    c.fix();
    assert_eq!(c.account_selected.as_deref(), Some("alex"));
}

#[test]
fn idle_fps_and_decorations() {
    let mut c = LauncherConfig::new_default("0.5.0".to_string());
    assert_eq!(c.c_idle_fps(), 6);
    assert!(c.uses_system_decorations());
    c.ui = Some(UiSettings { window_decorations: UiWindowDecorations::Left, idle_fps: Some(0) });
    assert_eq!(c.c_idle_fps(), 6);
    assert!(!c.uses_system_decorations());
    c.ui = Some(UiSettings { window_decorations: UiWindowDecorations::System, idle_fps: Some(30) });
    assert_eq!(c.c_idle_fps(), 30);
    assert!(c.uses_system_decorations());
    assert_eq!(UiWindowDecorations::default(), UiWindowDecorations::System);
    assert_eq!(AccountType::default(), AccountType::Microsoft);
}

#[test]
fn config_update_sidebar() {
    let mut c = LauncherConfig::new_default("0.5.0".to_string());
    c.update_sidebar(&vec!["a".to_string(), "b".to_string()], false);
    let s = c.sidebar.as_ref().unwrap();
    assert!(s.contains_instance("a", InstanceKind::Client));
    assert!(s.contains_instance("b", InstanceKind::Client));
}

#[test]
fn mclogs_outcomes() {
    let ok = MclogsResponse { success: true, url: Some("https://mclo.gs/abc".to_string()), error: None };
    assert_eq!(ok.into_result(), Ok("https://mclo.gs/abc".to_string()));
    let no_url = MclogsResponse { success: true, url: None, error: None };
    assert_eq!(no_url.into_result(), Err("No URL in response".to_string()));
    let failed = MclogsResponse { success: false, url: Some("u".to_string()), error: Some("too big".to_string()) };
    assert_eq!(failed.into_result(), Err("too big".to_string()));
    let unknown = MclogsResponse { success: false, url: None, error: None };
    assert_eq!(unknown.into_result(), Err("Unknown error".to_string()));
}

#[test]
fn empty_logs_are_refused() {
    assert_eq!(check_log_content(""), Err("Cannot upload empty log".to_string()));
    assert_eq!(check_log_content(" \n\t\r "), Err("Cannot upload empty log".to_string()));
    assert_eq!(check_log_content("\u{3000}"), Err("Cannot upload empty log".to_string()));
    assert_eq!(check_log_content("  [main] ok\n"), Ok(()));
}

#[test]
fn log_metadata_entries() {
    let m = log_metadata("1.20.1".to_string(), None);
    assert_eq!(m.len(), 1);
    assert_eq!((m[0].key.as_str(), m[0].value.as_str(), m[0].label.as_str()), ("version", "1.20.1", "Minecraft version"));
    let m = log_metadata("1.20.1".to_string(), Some("Fabric".to_string()));
    assert_eq!(m.len(), 2);
    assert_eq!((m[1].key.as_str(), m[1].value.as_str(), m[1].label.as_str()), ("loader", "Fabric", "Mod Loader"));
}

#[test]
fn arrow_keys_on_flat_list() {
    let list = vec!["a".to_string(), "b".to_string(), "c".to_string()];
    let m = key_change_selection(&list, Some("a"), true);
    assert_eq!((m.idx, m.select, m.did_scroll), (1, Some(1), true));
    let m = key_change_selection(&list, Some("c"), true);
    assert_eq!((m.idx, m.select, m.did_scroll), (2, None, false));
    let m = key_change_selection(&list, Some("b"), false);
    assert_eq!((m.idx, m.select, m.did_scroll), (0, Some(0), true));
    let m = key_change_selection(&list, Some("a"), false);
    assert_eq!((m.idx, m.select, m.did_scroll), (0, None, false));
    let m = key_change_selection(&list, Some("zz"), true);
    assert_eq!((m.idx, m.select, m.did_scroll), (0, None, false));
    let m = key_change_selection(&list, None, true);
    assert_eq!((m.idx, m.select, m.did_scroll), (0, Some(0), true));
    let m = key_change_selection(&Vec::new(), None, false);
    assert_eq!((m.idx, m.select, m.did_scroll), (0, None, true));
}

fn ch(s: &str) -> KeyInput {
    KeyInput::Character(s.to_string())
}

#[test]
fn keyboard_shortcuts() {
    let launch = ScreenKind::Launch { is_viewing_server: true };
    assert_eq!(key_action(&KeyInput::Escape, false, false, true, launch), KeyAction::EscapeBack);
    assert_eq!(key_action(&KeyInput::Escape, false, false, false, launch), KeyAction::Record);
    assert_eq!(key_action(&ch("q"), true, false, true, ScreenKind::Other), KeyAction::Quit);
    assert_eq!(key_action(&ch("q"), true, false, false, ScreenKind::Other), KeyAction::Nothing);
    assert_eq!(key_action(&ch("n"), true, false, false, launch), KeyAction::CreateInstanceOpen { is_server: true });
    assert_eq!(key_action(&ch("2"), false, true, false, launch), KeyAction::ChangeLaunchTab(LaunchTab::Edit));
    assert_eq!(key_action(&ch("3"), true, false, false, launch), KeyAction::ChangeLaunchTab(LaunchTab::Log));
    assert_eq!(key_action(&ch("1"), false, false, false, launch), KeyAction::Nothing);
    assert_eq!(key_action(&ch(","), true, false, false, launch), KeyAction::OpenSettings);
    assert_eq!(key_action(&ch("a"), true, false, true, ScreenKind::EditMods { searching: false }), KeyAction::ModsSelectAll);
    assert_eq!(key_action(&ch("f"), true, false, false, ScreenKind::EditMods { searching: true }), KeyAction::ModsCloseSearch);
    assert_eq!(key_action(&ch("f"), true, false, false, ScreenKind::EditMods { searching: false }), KeyAction::ModsOpenSearch);
    assert_eq!(key_action(&ch("/"), false, false, true, ScreenKind::ModsDownload), KeyAction::FocusNext);
    assert_eq!(key_action(&ch("a"), true, false, true, ScreenKind::EditJarMods), KeyAction::JarModsSelectAll);
    assert_eq!(key_action(&KeyInput::ArrowDown, false, false, true, launch), KeyAction::SelectInstance { down: true });
    assert_eq!(key_action(&KeyInput::ArrowUp, false, false, false, launch), KeyAction::Record);
    assert_eq!(key_action(&KeyInput::Enter, true, false, true, launch), KeyAction::LaunchStart);
    assert_eq!(key_action(&KeyInput::Backspace, true, false, true, launch), KeyAction::LaunchKill);
    assert_eq!(
        key_action(&KeyInput::ArrowDown, false, false, false, ScreenKind::LauncherSettings { tab: LauncherSettingsTab::Game }),
        KeyAction::SettingsTab(LauncherSettingsTab::About)
    );
    assert_eq!(
        key_action(&KeyInput::ArrowUp, false, false, false, ScreenKind::License { tab: LicenseTab::Gpl3 }),
        KeyAction::LicenseTab(LicenseTab::Gpl3)
    );
    assert_eq!(
        key_action(&KeyInput::Enter, true, false, false, ScreenKind::CreateChoosing { list_loaded: true }),
        KeyAction::CreateStart
    );
    assert_eq!(
        key_action(&KeyInput::Enter, true, false, false, ScreenKind::CreateChoosing { list_loaded: false }),
        KeyAction::Record
    );
    assert_eq!(
        key_action(&KeyInput::Enter, false, false, false, ScreenKind::Welcome { page: MenuWelcome::P1InitialScreen }),
        KeyAction::WelcomePage(MenuWelcome::P2Theme)
    );
    assert_eq!(
        key_action(&KeyInput::Enter, false, false, false, ScreenKind::Welcome { page: MenuWelcome::P3Auth }),
        KeyAction::WelcomeDone
    );
}

#[test]
fn dropped_files() {
    let mods = ScreenKind::EditMods { searching: false };
    assert_eq!(drop_action(mods, "jar"), DropAction::AddModJar);
    assert_eq!(drop_action(mods, "JAR"), DropAction::AddModJar);
    assert_eq!(drop_action(mods, "disabled"), DropAction::AddModJar);
    assert_eq!(drop_action(mods, "qmp"), DropAction::LoadPreset);
    assert_eq!(drop_action(mods, "MrPack"), DropAction::LoadModpack);
    assert_eq!(drop_action(mods, "txt"), DropAction::Nothing);
    assert_eq!(drop_action(ScreenKind::ManagePresets, "jar"), DropAction::Nothing);
    assert_eq!(drop_action(ScreenKind::ManagePresets, "zip"), DropAction::LoadModpack);
    assert_eq!(drop_action(ScreenKind::EditJarMods, "zip"), DropAction::AddJarmod);
    assert_eq!(drop_action(ScreenKind::InstallOptifineChoosing, "Jar"), DropAction::InstallOptifine);
    assert_eq!(drop_action(ScreenKind::Other, "jar"), DropAction::Nothing);
}

#[test]
fn about_text() {
    let t = long_about("https://example.org");
    assert_eq!(
        t,
        format!(
            "\nQuantumLauncher: A simple, powerful Minecraft launcher\n\nWebsite: https://example.org\nGithub : {GITHUB}\nDiscord: {DISCORD}"
        )
    );
}

#[test]
fn tabs_move() {
    assert_eq!(LauncherSettingsTab::UserInterface.next(), LauncherSettingsTab::Game);
    assert_eq!(LauncherSettingsTab::About.next(), LauncherSettingsTab::About);
    assert_eq!(LauncherSettingsTab::UserInterface.prev(), LauncherSettingsTab::UserInterface);
    assert_eq!(LauncherSettingsTab::Game.prev().next(), LauncherSettingsTab::Game);
    assert_eq!(LicenseTab::Gpl3.next(), LicenseTab::ForgeInstallerApache);
    assert_eq!(LicenseTab::Lwjgl.next(), LicenseTab::Lwjgl);
    assert_eq!(LicenseTab::PasswordAsterisks.prev(), LicenseTab::OpenFontLicense);
    assert_eq!(LicenseTab::Gpl3.prev(), LicenseTab::Gpl3);
    assert_eq!(LicenseTab::Lwjgl.label(), "LWJGL");
    assert_eq!(LauncherSettingsTab::UserInterface.label(), "Appearance");
    assert_eq!(LaunchTab::default_tab(), LaunchTab::Buttons);
    assert_eq!(LaunchTab::Log.label(), "Logs");
}

#[test]
fn license_texts() {
    let t = LicenseTexts {
        gpl3: "GPL".to_string(),
        apache2: "APACHE".to_string(),
        ofl: "OFL".to_string(),
        password_asterisks_source: "SRC".to_string(),
        cc_by_sa_3: "CC".to_string(),
        lwjgl: "LWJGL".to_string(),
    };
    assert_eq!(LicenseTab::Gpl3.get_text(&t), "GPL");
    assert_eq!(
        LicenseTab::OpenFontLicense.get_text(&t),
        "For the Inter and JetBrains fonts used in QuantumLauncher:\n--------\n\nOFL"
    );
    assert_eq!(LicenseTab::PasswordAsterisks.get_text(&t), "SRC\n--------\nCC");
    assert_eq!(
        LicenseTab::ForgeInstallerApache.get_text(&t),
        "For the Forge Installer script used in QuantumLauncher:\n--------\n\nAPACHE"
    );
    assert_eq!(LicenseTab::Lwjgl.get_text(&t), "LWJGL");
}

#[test]
fn welcome_pages() {
    assert_eq!(MenuWelcome::P1InitialScreen.advance(), Some(MenuWelcome::P2Theme));
    assert_eq!(MenuWelcome::P2Theme.advance(), Some(MenuWelcome::P3Auth));
    assert_eq!(MenuWelcome::P3Auth.advance(), None);
}

#[test]
fn selected_state_counts() {
    assert_eq!(SelectedState::of_counts(0, 5), SelectedState::Empty);
    assert_eq!(SelectedState::of_counts(5, 5), SelectedState::All);
    assert_eq!(SelectedState::of_counts(2, 5), SelectedState::Partial);
    assert_eq!(SelectedState::of_counts(0, 0), SelectedState::Empty);
}

#[test]
fn info_messages() {
    let e = InfoMessage::error("broke");
    assert_eq!(e.text, "broke");
    assert!(matches!(e.kind, InfoMessageKind::Error));
    let s = InfoMessage::success("done");
    assert!(matches!(s.kind, InfoMessageKind::Success));
}

#[test]
fn littleskin_expiry() {
    let o = LittleSkinOauth::new("CODE".to_string(), "https://x".to_string(), 100, 900);
    assert_eq!(o.device_code_expires_at, 1000);
    let o = LittleSkinOauth::new("CODE".to_string(), "https://x".to_string(), u64::MAX, 900);
    assert_eq!(o.device_code_expires_at, u64::MAX);
}

fn list(items: &[&str]) -> Vec<String> {
    items.iter().map(|s| s.to_string()).collect()
}

#[test]
fn list_edits() {
    let mut l = list(&["-Xmx2G"]);
    ListMessage::Add.apply(&mut l, true);
    assert_eq!(l, list(&["-Xmx2G", ""]));
    ListMessage::Edit("-Dfoo=1  -Dbar=2".to_string(), 1).apply(&mut l, true);
    assert_eq!(l, list(&["-Xmx2G", "-Dfoo=1", "-Dbar=2"]));
    ListMessage::Edit("a b".to_string(), 0).apply(&mut l, false);
    assert_eq!(l, list(&["a b", "-Dfoo=1", "-Dbar=2"]));
    ListMessage::ShiftUp(2).apply(&mut l, true);
    assert_eq!(l, list(&["a b", "-Dbar=2", "-Dfoo=1"]));
    ListMessage::ShiftDown(0).apply(&mut l, true);
    assert_eq!(l, list(&["-Dbar=2", "a b", "-Dfoo=1"]));
    ListMessage::ShiftDown(2).apply(&mut l, true);
    assert_eq!(l, list(&["-Dbar=2", "a b", "-Dfoo=1"]));
    ListMessage::Delete(1).apply(&mut l, true);
    assert_eq!(l, list(&["-Dbar=2", "-Dfoo=1"]));
    ListMessage::Delete(7).apply(&mut l, true);
    assert_eq!(l, list(&["-Dbar=2", "-Dfoo=1"]));
    ListMessage::Edit("x".to_string(), 9).apply(&mut l, true);
    assert_eq!(l, list(&["-Dbar=2", "-Dfoo=1"]));
}

#[test]
fn text_helpers() {
    assert_eq!(split_words(" a  bc d "), list(&["a", "bc", "d"]));
    assert!(split_words("   ").is_empty());
    assert!(has_char("a b", ' '));
    assert!(!has_char("ab", ' '));
    assert!(str_eq("x", "x"));
    assert!(!str_eq("x", "y"));
    assert_eq!(quantum_launcher::text::concat("ab", "cd"), "abcd");
    assert_eq!(strip_suffix("file.jar", ".jar"), Some("file".to_string()));
    assert_eq!(strip_suffix("file.jar", ".zip"), None);
    assert_eq!(strip_suffix("r", "long"), None);
}

#[test]
fn instances() {
    let i = Instance::new("survival", false);
    assert_eq!(i.get_name(), "survival");
    assert!(!i.is_server());
    assert!(Instance::new("srv", true).is_server());
    assert!(InstanceKind::Server.is_server());
}

#[test]
fn account_types_from_keys() {
    assert_eq!(account_type_for("steve (elyby)", None), AccountType::ElyBy);
    assert_eq!(account_type_for("alex (littleskin)", Some(AccountType::Microsoft)), AccountType::LittleSkin);
    assert_eq!(account_type_for("bob", Some(AccountType::ElyBy)), AccountType::ElyBy);
    assert_eq!(account_type_for("bob", None), AccountType::Microsoft);
}

#[test]
fn loading_accounts() {
    let mut c = LauncherConfig::new_default("0.5.0".to_string());
    let mut steve = account(None, None);
    steve.username_nice = Some("Steve".to_string());
    c.accounts = Some(vec![
        ("steve".to_string(), steve),
        ("gone (elyby)".to_string(), account(None, None)),
        ("alex (elyby)".to_string(), account(None, Some("alex@mail.org"))),
    ]);
    let tokens = vec![Some("t1".to_string()), None, Some("t3".to_string())];
    let (loaded, menu, selected) = load_accounts(&mut c, &tokens);
    assert_eq!(menu, vec!["alex (elyby)", "steve", "(Offline)", "+ Add Account"]);
    assert_eq!(selected, "alex (elyby)");
    assert_eq!(loaded.len(), 2);
    assert_eq!(loaded[0].0, "steve");
    assert_eq!(loaded[0].1.refresh_token, "t1");
    assert_eq!(loaded[0].1.nice_username, "Steve");
    assert_eq!(loaded[0].1.account_type, AccountType::Microsoft);
    assert!(loaded[0].1.needs_refresh && loaded[0].1.access_token.is_none());
    assert_eq!(loaded[1].0, "alex (elyby)");
    assert_eq!(loaded[1].1.username, "alex@mail.org");
    assert_eq!(loaded[1].1.nice_username, "alex (elyby)");
    assert_eq!(loaded[1].1.account_type, AccountType::ElyBy);
    let kept: Vec<&str> = c.accounts.as_ref().unwrap().iter().map(|(k, _)| k.as_str()).collect();
    assert_eq!(kept, vec!["steve", "alex (elyby)"]);

    let mut empty = LauncherConfig::new_default("0.5.0".to_string());
    empty.account_selected = Some("steve".to_string());
    let (loaded, menu, selected) = load_accounts(&mut empty, &Vec::new());
    assert!(loaded.is_empty());
    assert_eq!(menu, vec!["(Offline)", "+ Add Account"]);
    assert_eq!(selected, "steve");
    assert!(empty.accounts.is_none());
}

#[test]
fn tick_rate() {
    let mut c = LauncherConfig::new_default("0.5.0".to_string());
    assert_eq!(tick_interval(&c, true), 15);
    assert_eq!(tick_interval(&c, false), 6);
    c.ui = Some(UiSettings { window_decorations: UiWindowDecorations::System, idle_fps: Some(20) });
    assert_eq!(tick_interval(&c, false), 20);
}

#[test]
fn listing_columns() {
    assert_eq!(print_commands(None), vec![PrintCmd::Name]);
    let props = vec!["loader".to_string(), "bogus".to_string(), "version".to_string()];
    assert_eq!(print_commands(Some(&props)), vec![PrintCmd::Loader, PrintCmd::Version]);
    let bogus = vec!["bogus".to_string()];
    assert_eq!(print_commands(Some(&bogus)), vec![PrintCmd::Name]);
}

#[test]
fn local_mod_files() {
    let blacklist = mod_file_blacklist(&vec!["sodium.jar".to_string()]);
    assert_eq!(blacklist, vec!["sodium.jar".to_string(), "sodium.jar.disabled".to_string()]);
    assert!(!is_local_mod_file("sodium.jar", &blacklist));
    assert!(!is_local_mod_file("sodium.jar.disabled", &blacklist));
    assert!(is_local_mod_file("custom.jar", &blacklist));
    assert!(is_local_mod_file("custom.jar.disabled", &blacklist));
    assert!(!is_local_mod_file("readme.txt", &blacklist));
    assert!(!is_local_mod_file(".jar", &blacklist));
    assert!(!is_local_mod_file(".disabled", &blacklist));
    for name in ["a.jar", ".jar", "..jar", "x.disabled", "y.JAR", "z.zip", "jar"] {
        let ext = std::path::Path::new(name).extension().and_then(|e| e.to_str());
        let expected = matches!(ext, Some("jar") | Some("disabled"));
        assert_eq!(is_local_mod_file(name, &Vec::new()), expected, "for {name}");
    }
}

#[test]
fn escape_targets() {
    assert_eq!(BackScreen::ChangeLog.escape_target(), BackTarget::MainScreen);
    assert_eq!(BackScreen::EditMods { updating: false }.escape_target(), BackTarget::MainScreen);
    assert_eq!(BackScreen::EditMods { updating: true }.escape_target(), BackTarget::Stay);
    assert_eq!(BackScreen::License.escape_target(), BackTarget::SettingsAbout);
    assert_eq!(BackScreen::ConfirmAction.escape_target(), BackTarget::ConfirmNo);
    assert_eq!(BackScreen::EditJarMods.escape_target(), BackTarget::EditMods);
    assert_eq!(BackScreen::ModsDownload { opened_mod: true, downloading: true }.escape_target(), BackTarget::CloseOpenedMod);
    assert_eq!(BackScreen::ModsDownload { opened_mod: false, downloading: false }.escape_target(), BackTarget::EditMods);
    assert_eq!(BackScreen::ModsDownload { opened_mod: false, downloading: true }.escape_target(), BackTarget::Stay);
    assert_eq!(BackScreen::InstallOptifine { choosing: false }.escape_target(), BackTarget::Stay);
    assert_eq!(BackScreen::Launch.escape_target(), BackTarget::Stay);
    assert!(escape_handled(BackTarget::MainScreen, false));
    assert!(!escape_handled(BackTarget::ConfirmNo, false));
    assert!(escape_handled(BackTarget::ConfirmNo, true));
    assert!(!escape_handled(BackTarget::Stay, true));
}

#[test]
fn instance_logs() {
    let mut log = InstanceLog::started(false, "linux");
    assert_eq!(log.log, vec!["[00:00:00] [launcher/INFO] Launching Minecraft (OS: linux)\n".to_string()]);
    assert!(!log.has_crashed);
    log.push("hello\n".to_string());
    assert_eq!(log.text(), "[00:00:00] [launcher/INFO] Launching Minecraft (OS: linux)\nhello\n");
    let server = InstanceLog::started(true, "windows");
    assert_eq!(server.log[0], "[00:00:00] [launcher/INFO] Starting Minecraft server (OS: windows)\n");
}

#[test]
fn crash_messages() {
    assert_eq!(
        crash_message(false, "exit status: 1", None),
        "Game crashed! (exit status: 1)\nCheck \"Logs\" for more info"
    );
    assert_eq!(
        crash_message(true, "signal 9", Some("Out of memory")),
        "Server crashed! (signal 9)\nCheck \"Logs\" for more info\n\nOut of memory"
    );
}

#[test]
fn config_sidebar_is_made_when_missing() {
    let mut c = LauncherConfig::new_default("0.5.0".to_string());
    assert!(c.sidebar.is_none());
    assert!(c.c_sidebar().list.is_empty());
    assert!(c.sidebar.is_some());
    c.update_sidebar(&vec!["a".to_string()], false);
    assert_eq!(c.c_sidebar().list.len(), 1);
    assert_eq!(c.sidebar.as_ref().map(|s| s.list.len()), Some(1));
}

#[test]
fn shortcut_keeps_one_place() {
    let mut t = quantum_launcher::shortcut::ShortcutTargets::new();
    t.toggle_menu(false);
    assert!(t.add_to_menu && !t.add_to_desktop);
    t.toggle_desktop(true);
    t.toggle_menu(false);
    assert!(!t.add_to_menu && t.add_to_desktop);
    t.toggle_desktop(false);
    assert!(t.add_to_desktop);
}

#[test]
fn yes_no_answers() {
    assert_eq!(confirm_answer("y"), Some(true));
    assert_eq!(confirm_answer("  YES\n"), Some(true));
    assert_eq!(confirm_answer("\n"), Some(true));
    assert_eq!(confirm_answer("No"), Some(false));
    assert_eq!(confirm_answer(" n "), Some(false));
    assert_eq!(confirm_answer("maybe"), None);
}

#[test]
fn loaders_on_top_of_loaders() {
    assert_eq!(loader_install_check(Loader::Vanilla, Loader::Fabric), LoaderInstallCheck::Allowed);
    assert_eq!(loader_install_check(Loader::Fabric, Loader::Fabric), LoaderInstallCheck::AlreadyInstalled);
    assert_eq!(loader_install_check(Loader::Forge, Loader::OptiFine), LoaderInstallCheck::Allowed);
    assert_eq!(loader_install_check(Loader::OptiFine, Loader::Forge), LoaderInstallCheck::Allowed);
    assert_eq!(loader_install_check(Loader::Fabric, Loader::Quilt), LoaderInstallCheck::OnTopOfOther);
    assert_eq!(loader_install_check(Loader::Forge, Loader::Vanilla), LoaderInstallCheck::OnTopOfOther);
}

#[test]
fn escape_closes_overlays_one_by_one() {
    let mut o = Overlays::EditMods { modal: true, search: true };
    assert!(hide_submenu(&mut o));
    assert_eq!(o, Overlays::EditMods { modal: false, search: true });
    assert!(hide_submenu(&mut o));
    assert_eq!(o, Overlays::EditMods { modal: false, search: false });
    assert!(!hide_submenu(&mut o));
    let mut c = Overlays::CreateChoosing { dropdown: true };
    assert!(hide_submenu(&mut c));
    assert!(!hide_submenu(&mut c));
    let mut l = Overlays::Launch { modal: false };
    assert!(!hide_submenu(&mut l));
    let mut other = Overlays::Other;
    assert!(!hide_submenu(&mut other));
}

#[test]
fn quitting_and_screens() {
    assert!(can_quit(0, BackTarget::MainScreen, false));
    assert!(can_quit(0, BackTarget::Stay, true));
    assert!(!can_quit(0, BackTarget::Stay, false));
    assert!(!can_quit(0, BackTarget::ConfirmNo, false));
    assert!(!can_quit(1, BackTarget::MainScreen, true));
    assert!(screen_is_server(Some(true), None));
    assert!(!screen_is_server(Some(false), Some(InstanceKind::Server)));
    assert!(screen_is_server(None, Some(InstanceKind::Server)));
    assert!(!screen_is_server(None, Some(InstanceKind::Client)));
    assert!(!screen_is_server(None, None));
}

#[test]
fn colour_schemes_parse_from_names() {
    assert_eq!("Sky Blue".parse::<LauncherThemeColor>(), Ok(LauncherThemeColor::SkyBlue));
    assert_eq!("Adwaita".parse::<LauncherThemeColor>(), Ok(LauncherThemeColor::Adwaita));
    assert_eq!("no such".parse::<LauncherThemeColor>(), Ok(LauncherThemeColor::Purple));
}
