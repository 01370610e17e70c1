use quantum_launcher::create::{search_versions, toggle_kind, VersionEntry};
use quantum_launcher::text::trim;

const RELEASE: u32 = 0;
const SNAPSHOT: u32 = 1;

fn entry(name: &str, server: bool, kind: u32) -> VersionEntry {
    VersionEntry { name: name.to_string(), supports_server: server, kind }
}

fn versions() -> Vec<VersionEntry> {
    vec![
        entry("24w14a", true, SNAPSHOT),
        entry("1.21-lwjgl3", false, RELEASE),
        entry("1.21", true, RELEASE),
        entry("1.20.6", true, RELEASE),
        entry("b1.7.3", false, RELEASE),
    ]
}

#[test]
fn trimming_whitespace() {
    assert_eq!(trim("  1.21 \t\n"), "1.21");
    assert_eq!(trim("   "), "");
    assert_eq!(trim(""), "");
    assert_eq!(trim("a b"), "a b");
}

#[test]
fn exact_name_wins_even_when_filtered_out() {
    let l = versions();
    assert_eq!(search_versions(&l, false, &vec![RELEASE], " 24w14a "), Some(0));
    assert_eq!(search_versions(&l, false, &vec![RELEASE], "1.21"), Some(2));
}

#[test]
fn lwjgl3_ports_rank_last() {
    let l = versions();
    assert_eq!(search_versions(&l, false, &vec![RELEASE], "1.2"), Some(2));
    let ports_only = vec![entry("1.12.2-lwjgl3", false, RELEASE), entry("1.13", false, SNAPSHOT)];
    assert_eq!(search_versions(&ports_only, false, &vec![RELEASE], "1.1"), Some(0));
}

#[test]
fn filters_by_server_support_kind_and_case() {
    let l = versions();
    assert_eq!(search_versions(&l, true, &vec![RELEASE], "B1"), None);
    assert_eq!(search_versions(&l, false, &vec![RELEASE], "B1"), Some(4));
    assert_eq!(search_versions(&l, false, &vec![SNAPSHOT], ""), Some(0));
    assert_eq!(search_versions(&l, true, &vec![RELEASE], ""), Some(2));
    assert_eq!(search_versions(&l, false, &vec![], "1"), None);
    assert_eq!(search_versions(&Vec::new(), false, &vec![RELEASE], ""), None);
}

#[test]
fn kind_filter_keeps_one_kind() {
    let mut kinds = vec![RELEASE];
    toggle_kind(&mut kinds, RELEASE);
    assert_eq!(kinds, vec![RELEASE]);
    toggle_kind(&mut kinds, SNAPSHOT);
    assert_eq!(kinds, vec![RELEASE, SNAPSHOT]);
    toggle_kind(&mut kinds, RELEASE);
    assert_eq!(kinds, vec![SNAPSHOT]);
}
