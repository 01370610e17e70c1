use quantum_launcher::accounts::{account_type_of_lowered, parse_account_type};
use quantum_launcher::cli::{answer_of_lowered, confirm_answer};
use quantum_launcher::config::AccountType;
use quantum_launcher::create::search_hits_lowered;
use quantum_launcher::mods::sort::sort_dependencies;
use quantum_launcher::mods::types::{ModConfig, ModId, ModListEntry};
use quantum_launcher::text::trim;

#[test]
fn lowered_answers() {
    assert_eq!(answer_of_lowered("y"), Some(true));
    assert_eq!(answer_of_lowered("yes"), Some(true));
    assert_eq!(answer_of_lowered(""), Some(true));
    assert_eq!(answer_of_lowered("n"), Some(false));
    assert_eq!(answer_of_lowered("no"), Some(false));
    // Not yet lowercased: asks again.
    assert_eq!(answer_of_lowered("Y"), None);
    assert_eq!(answer_of_lowered("maybe"), None);
    // The full reading lowercases and trims first.
    assert_eq!(confirm_answer("  Y \n"), Some(true));
    assert_eq!(confirm_answer("NO"), Some(false));
}

#[test]
fn lowered_account_types() {
    assert!(matches!(account_type_of_lowered("ely.by"), Some(AccountType::ElyBy)));
    assert!(matches!(account_type_of_lowered("littleskin.cn"), Some(AccountType::LittleSkin)));
    assert!(matches!(account_type_of_lowered("ms"), Some(AccountType::Microsoft)));
    assert!(account_type_of_lowered("ElyBy").is_none());
    assert!(matches!(parse_account_type("ElyBy"), Some(AccountType::ElyBy)));
    assert!(parse_account_type("mojang").is_none());
}

#[test]
fn lowered_search() {
    assert!(search_hits_lowered("1.20.1", "20"));
    assert!(search_hits_lowered("b1.7.3", ""));
    assert!(!search_hits_lowered("1.20.1", "1.21"));
}

#[test]
fn trim_matches_std_whitespace() {
    for s in ["  a b  ", "\u{3000}x\u{85}", "\u{200B}y\u{200B}", "\t\n\r\u{b}\u{c}z\u{2029}", "\u{a0}\u{1680}\u{2009}\u{202f}\u{205f}", "", "q"] {
        assert_eq!(trim(s), s.trim(), "{s:?}");
    }
}

#[test]
fn sorted_mods_keep_their_records() {
    let downloaded = vec![
        (ModId::Modrinth("1".to_string()), ModConfig { name: "B".to_string(), manually_installed: true, enabled: false }),
        (ModId::Modrinth("2".to_string()), ModConfig { name: "A".to_string(), manually_installed: true, enabled: true }),
    ];
    let list = sort_dependencies(&downloaded, &Vec::new());
    let flags: Vec<(String, bool)> = list
        .iter()
        .map(|e| match e {
            ModListEntry::Downloaded { config, .. } => (config.name.clone(), config.enabled),
            ModListEntry::Local { file_name } => (file_name.clone(), true),
        })
        .collect();
    assert_eq!(flags, vec![("A".to_string(), true), ("B".to_string(), false)]);
}
