use quantum_launcher::accounts::{
    account_selected, add_logged_in_account, find_account, log_censors, logout_selected, parse_account_type,
    selected_account_data,
};
use quantum_launcher::autosave::AutoSave;
use quantum_launcher::config::{AccountData, AccountType, ConfigAccount, LauncherConfig};
use quantum_launcher::menu::AutoSaveKind;

fn login(name: &str, kind: AccountType) -> AccountData {
    AccountData {
        access_token: Some("token".to_string()),
        uuid: format!("uuid-{name}"),
        refresh_token: "refresh".to_string(),
        needs_refresh: false,
        account_type: kind,
        username: name.to_string(),
        nice_username: name.to_string(),
    }
}

fn base_menu() -> Vec<String> {
    vec!["(Offline)".to_string(), "+ Add Account".to_string()]
}

#[test]
fn picking_menu_entries() {
    let mut c = LauncherConfig::new_default("0.5.0".to_string());
    let mut selected = "(Offline)".to_string();
    assert!(account_selected(&mut c, &mut selected, "+ Add Account".to_string()));
    assert_eq!(selected, "(Offline)");
    assert_eq!(c.account_selected, None);
    assert!(!account_selected(&mut c, &mut selected, "steve".to_string()));
    assert_eq!(selected, "steve");
    assert_eq!(c.account_selected.as_deref(), Some("steve"));
    assert!(!account_selected(&mut c, &mut selected, "(Offline)".to_string()));
    assert_eq!(selected, "(Offline)");
    assert_eq!(c.account_selected.as_deref(), Some("steve"));
}

#[test]
fn login_then_logout() {
    let mut c = LauncherConfig::new_default("0.5.0".to_string());
    let mut loaded: Vec<(String, AccountData)> = Vec::new();
    let mut menu = base_menu();
    let mut selected = "(Offline)".to_string();
    let mut autosave = AutoSave::new();
    autosave.insert(AutoSaveKind::LauncherConfig);

    let added = add_logged_in_account(
        &mut c,
        &mut loaded,
        &mut menu,
        &mut selected,
        &mut autosave,
        login("steve", AccountType::ElyBy),
        "steve (elyby)".to_string(),
    );
    assert!(added);
    assert!(!autosave.contains(AutoSaveKind::LauncherConfig));
    assert_eq!(menu, vec!["steve (elyby)".to_string(), "(Offline)".to_string(), "+ Add Account".to_string()]);
    assert_eq!(selected, "steve (elyby)");
    assert_eq!(loaded.len(), 1);
    let stored = c.accounts.as_ref().unwrap();
    assert_eq!(stored.len(), 1);
    assert_eq!(stored[0].0, "steve (elyby)");
    assert_eq!(stored[0].1.keyring_identifier.as_deref(), Some("steve"));
    assert_eq!(stored[0].1.account_type, Some(AccountType::ElyBy));

    let again = add_logged_in_account(
        &mut c,
        &mut loaded,
        &mut menu,
        &mut selected,
        &mut autosave,
        login("steve", AccountType::ElyBy),
        "steve (elyby)".to_string(),
    );
    assert!(!again);
    assert_eq!(menu.len(), 3);

    autosave.insert(AutoSaveKind::LauncherConfig);
    let kind = logout_selected(&mut c, &mut loaded, &mut menu, &mut selected, &mut autosave);
    assert_eq!(kind, AccountType::ElyBy);
    assert_eq!(menu, base_menu());
    assert_eq!(selected, "(Offline)");
    assert!(loaded.is_empty());
    assert!(c.accounts.as_ref().unwrap().is_empty());
    assert!(!autosave.contains(AutoSaveKind::LauncherConfig));
}

#[test]
fn logins_named_like_menu_entries_are_ignored() {
    let mut c = LauncherConfig::new_default("0.5.0".to_string());
    let mut loaded: Vec<(String, AccountData)> = Vec::new();
    let mut menu = base_menu();
    let mut selected = "(Offline)".to_string();
    let mut autosave = AutoSave::new();
    let added = add_logged_in_account(
        &mut c,
        &mut loaded,
        &mut menu,
        &mut selected,
        &mut autosave,
        login("(Offline)", AccountType::Microsoft),
        "(Offline)".to_string(),
    );
    assert!(!added);
    assert!(c.accounts.is_none());
    assert_eq!(menu, base_menu());
}

#[test]
fn logout_of_unloaded_account_is_microsoft() {
    let mut c = LauncherConfig::new_default("0.5.0".to_string());
    let mut loaded: Vec<(String, AccountData)> = Vec::new();
    let mut menu = vec!["bob".to_string(), "alex".to_string(), "(Offline)".to_string()];
    let mut selected = "bob".to_string();
    let mut autosave = AutoSave::new();
    let kind = logout_selected(&mut c, &mut loaded, &mut menu, &mut selected, &mut autosave);
    assert_eq!(kind, AccountType::Microsoft);
    assert_eq!(menu, vec!["alex".to_string(), "(Offline)".to_string()]);
    assert_eq!(selected, "alex");
    assert!(c.accounts.is_none());
}

#[test]
fn account_types_from_the_command_line() {
    assert_eq!(parse_account_type("ElyBy"), Some(AccountType::ElyBy));
    assert_eq!(parse_account_type("ely.by"), Some(AccountType::ElyBy));
    assert_eq!(parse_account_type("LITTLESKIN.cn"), Some(AccountType::LittleSkin));
    assert_eq!(parse_account_type("ms"), Some(AccountType::Microsoft));
    assert_eq!(parse_account_type("Microsoft"), Some(AccountType::Microsoft));
    assert_eq!(parse_account_type("mojang"), None);
}

fn stored(keyring: Option<&str>, nice: Option<&str>) -> ConfigAccount {
    ConfigAccount {
        uuid: "u".to_string(),
        skin: None,
        account_type: None,
        keyring_identifier: keyring.map(|s| s.to_string()),
        username_nice: nice.map(|s| s.to_string()),
    }
}

#[test]
fn finding_the_account_to_launch_with() {
    let mut c = LauncherConfig::new_default("0.5.0".to_string());
    assert_eq!(find_account(&c, "steve", None), None);
    c.accounts = Some(vec![
        ("alex (elyby)".to_string(), stored(Some("alex@mail.org"), Some("alex"))),
        ("steve".to_string(), stored(None, Some("Steve"))),
    ]);
    assert_eq!(find_account(&c, "steve", None), Some(1));
    assert_eq!(find_account(&c, "alex@mail.org", None), Some(0));
    assert_eq!(find_account(&c, "alex", None), Some(0));
    assert_eq!(find_account(&c, "alex", Some("alex (elyby)")), Some(0));
    assert_eq!(find_account(&c, "alex", Some("alex (littleskin)")), None);
    assert_eq!(find_account(&c, "nobody", None), None);
}

#[test]
fn access_tokens_are_censored() {
    let mut offline = login("bob", AccountType::Microsoft);
    offline.access_token = None;
    let loaded = vec![
        ("steve".to_string(), login("steve", AccountType::Microsoft)),
        ("bob".to_string(), offline),
        ("alex (elyby)".to_string(), login("alex", AccountType::ElyBy)),
    ];
    assert_eq!(log_censors(&loaded), vec!["token".to_string(), "token".to_string()]);
    assert!(log_censors(&Vec::new()).is_empty());
}

#[test]
fn account_used_for_launching() {
    let loaded = vec![
        ("steve".to_string(), login("steve", AccountType::Microsoft)),
        ("alex (elyby)".to_string(), login("alex", AccountType::ElyBy)),
    ];
    assert_eq!(selected_account_data(&loaded, "alex (elyby)"), Some(1));
    assert_eq!(selected_account_data(&loaded, "(Offline)"), None);
    assert_eq!(selected_account_data(&loaded, "+ Add Account"), None);
    assert_eq!(selected_account_data(&loaded, "nobody"), None);
}
