use quantum_launcher::mods::recommended::RecommendedPicks;
use quantum_launcher::mods::store::{SearchPage, StoreBackend, StoreSearch};

fn page(mods: &[&str], offset: usize, end: bool, backend: StoreBackend, t: u64) -> SearchPage<String> {
    SearchPage { mods: mods.iter().map(|s| s.to_string()).collect(), offset, reached_end: end, backend, start_time: t }
}

fn empty_search() -> StoreSearch<String> {
    StoreSearch {
        results: None,
        latest_load: 0,
        backend: StoreBackend::Modrinth,
        is_loading_continuation: false,
        has_continuation_ended: false,
    }
}

#[test]
fn fresh_pages_replace_or_continue() {
    let mut s = empty_search();
    assert!(s.search_result(page(&["a", "b"], 0, false, StoreBackend::Modrinth, 5)));
    assert_eq!(s.latest_load, 5);
    assert_eq!(s.scrolled(true), Some(2));
    assert!(s.is_loading_continuation);
    assert_eq!(s.scrolled(true), None);
    assert!(!s.search_result(page(&["c"], 2, true, StoreBackend::Modrinth, 6)));
    assert!(!s.is_loading_continuation);
    assert!(s.has_continuation_ended);
    assert_eq!(s.results.as_ref().unwrap().mods, vec!["a", "b", "c"]);
    assert_eq!(s.results.as_ref().unwrap().offset, 0);
    assert_eq!(s.scrolled(true), None);
}

#[test]
fn stale_pages_are_dropped() {
    let mut s = empty_search();
    s.search_result(page(&["new"], 0, false, StoreBackend::Modrinth, 10));
    assert!(!s.search_result(page(&["old"], 0, true, StoreBackend::Modrinth, 9)));
    assert_eq!(s.results.as_ref().unwrap().mods, vec!["new"]);
    assert!(s.has_continuation_ended);
    assert!(!s.search_result(page(&["cf"], 0, false, StoreBackend::Curseforge, 11)));
    assert_eq!(s.latest_load, 10);
}

#[test]
fn scrolling_without_results_starts_at_zero() {
    let mut s = empty_search();
    s.has_continuation_ended = true;
    assert_eq!(s.scrolled(false), None);
    assert!(!s.has_continuation_ended);
    assert_eq!(s.scrolled(true), Some(0));
}

#[test]
fn changing_store_drops_results() {
    let mut s = empty_search();
    s.search_result(page(&["a"], 0, false, StoreBackend::Modrinth, 3));
    s.change_backend(StoreBackend::Curseforge);
    assert!(s.results.is_none());
    assert_eq!(s.backend, StoreBackend::Curseforge);
    assert!(s.search_result(page(&["cf"], 0, false, StoreBackend::Curseforge, 4)));
}

#[test]
fn ticking_recommended_mods() {
    let mut r = RecommendedPicks { mods: vec![(true, "sodium"), (false, "iris"), (true, "lithium")] };
    assert_eq!(r.ticked(), vec![0, 2]);
    r.toggle(1, true);
    r.toggle(0, false);
    r.toggle(7, true);
    assert_eq!(r.ticked(), vec![1, 2]);
    assert_eq!(r.mods[1], (true, "iris"));
    assert_eq!(r.mods.len(), 3);
}
