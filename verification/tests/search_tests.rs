use lila::{AppEntry, ApplicationFinder, Extension, Finder, Item, Match, Registry};

fn app_item(name: &str, exec_path: &str) -> Item {
    Item::App(AppEntry::new(
        name.to_string(),
        Some(exec_path.to_string()),
        None,
        String::new(),
    ))
}

fn application_finder_with(names: &[(&str, &str)]) -> Finder {
    let mut finder = ApplicationFinder::new();
    let items: Vec<Item> = names.iter().map(|(n, e)| app_item(n, e)).collect();
    finder.apply_refresh(Some(items), 1);
    Finder::ApplicationFinder(finder)
}

fn single_extension_registry() -> Registry {
    let finder = application_finder_with(&[
        ("Firefox", "/usr/bin/firefox"),
        ("Files", "/usr/bin/files"),
        ("Terminal", "/usr/bin/terminal"),
    ]);
    let ext = Extension::new("apps".to_string(), None, None, finder, None);
    Registry::new(vec![ext])
}

fn labels(results: &Vec<Match>) -> Vec<String> {
    results.iter().map(|m| m.label.clone()).collect()
}

#[test]
fn scenario_application_registry() {
    let reg = single_extension_registry();
    let hits = reg.search("fir");
    assert_eq!(labels(&hits), vec!["Firefox".to_string()]);
    match &hits[0].item {
        Item::App(a) => assert_eq!(a.exec_path, Some("/usr/bin/firefox".to_string())),
    }
}

#[test]
fn empty_input_hidden_with_nonempty_cache() {
    let reg = single_extension_registry();
    let hits = reg.search("");
    assert!(hits.is_empty());
    assert!(!lila::visible(&hits, ""));
}

#[test]
fn no_fuzzy_match_yields_empty() {
    let reg = single_extension_registry();
    let hits = reg.search("xyz");
    assert!(hits.is_empty());
}

#[test]
fn whitespace_only_input_is_total() {
    let reg = single_extension_registry();
    let hits = reg.search("   ");
    assert!(hits.is_empty());
}

#[test]
fn trigger_routes_to_keyed_extension() {
    let default_finder = application_finder_with(&[("Gamma Fallback", "/usr/bin/fallback")]);
    let keyed_finder = application_finder_with(&[
        ("Gamma One", "/usr/bin/gamma1"),
        ("Beta", "/usr/bin/beta"),
    ]);
    let reg = Registry::new(vec![
        Extension::new("default".to_string(), None, None, default_finder, None),
        Extension::new("keyed".to_string(), Some("g".to_string()), None, keyed_finder, None),
    ]);
    let hits = reg.search("g gam");
    assert_eq!(labels(&hits), vec!["Gamma One".to_string()]);
}

#[test]
fn trigger_with_empty_remainder_lists_whole_cache() {
    let keyed_finder = application_finder_with(&[
        ("Gamma One", "/usr/bin/gamma1"),
        ("Beta", "/usr/bin/beta"),
    ]);
    let reg = Registry::new(vec![Extension::new(
        "keyed".to_string(),
        Some("g".to_string()),
        None,
        keyed_finder,
        None,
    )]);
    let hits = reg.search("g ");
    assert_eq!(
        labels(&hits),
        vec!["Gamma One".to_string(), "Beta".to_string()]
    );
    assert_eq!(hits[0].score, 0);
    assert_eq!(hits[1].score, 0);
}

#[test]
fn unknown_trigger_falls_back_to_default_search() {
    let reg = single_extension_registry();
    let hits = reg.search("q fir");
    // no extension is keyed "q", so the whole text is scored against the
    // default merge; "q fir" fuzzy-matches none of the labels
    assert!(hits.is_empty());
}

#[test]
fn keyed_extension_excluded_from_default_search() {
    let keyed_finder = application_finder_with(&[("Firefox Keyed", "/usr/bin/keyed")]);
    let default_finder = application_finder_with(&[("Firefox", "/usr/bin/firefox")]);
    let reg = Registry::new(vec![
        Extension::new("keyed".to_string(), Some("g".to_string()), None, keyed_finder, None),
        Extension::new("default".to_string(), None, None, default_finder, None),
    ]);
    let hits = reg.search("fir");
    assert_eq!(labels(&hits), vec!["Firefox".to_string()]);
}

#[test]
fn stable_sort_keeps_enumeration_order() {
    let finder = application_finder_with(&[
        ("Echo", "/usr/bin/echo-first"),
        ("Echo", "/usr/bin/echo-second"),
    ]);
    let ext = Extension::new("apps".to_string(), None, None, finder, None);
    let reg = Registry::new(vec![ext]);
    let hits = reg.search("echo");
    assert_eq!(hits.len(), 2);
    assert_eq!(hits[0].score, hits[1].score);
    match (&hits[0].item, &hits[1].item) {
        (Item::App(a), Item::App(b)) => {
            assert_eq!(a.exec_path, Some("/usr/bin/echo-first".to_string()));
            assert_eq!(b.exec_path, Some("/usr/bin/echo-second".to_string()));
        }
    }
}

#[test]
fn better_fuzzy_match_scores_at_least_as_high() {
    let finder = application_finder_with(&[("Rust", "/usr/bin/rust")]);
    let ext = Extension::new("apps".to_string(), None, None, finder, None);
    let reg = Registry::new(vec![ext]);
    let full = reg.search("rust");
    let sparse = reg.search("rt");
    assert_eq!(full.len(), 1);
    assert_eq!(sparse.len(), 1);
    // the exact contiguous match beats the sparse subsequence match
    assert!(full[0].score >= sparse[0].score);
    let prefix = reg.search("ru");
    assert_eq!(prefix.len(), 1);
    assert!(prefix[0].score >= sparse[0].score);
}

#[test]
fn results_sorted_by_score_descending() {
    let finder = application_finder_with(&[
        ("Russet Photo", "/usr/bin/russet"),
        ("Rust", "/usr/bin/rust"),
    ]);
    let ext = Extension::new("apps".to_string(), None, None, finder, None);
    let reg = Registry::new(vec![ext]);
    let hits = reg.search("rust");
    assert_eq!(hits.len(), 2);
    assert!(hits[0].score >= hits[1].score);
    assert_eq!(hits[0].label, "Rust");
}

#[test]
fn visibility_policy() {
    let reg = single_extension_registry();
    let hits = reg.search("fir");
    assert!(lila::visible(&hits, "fir"));
    let none = reg.search("xyz");
    assert!(!lila::visible(&none, "xyz"));
    let empty = reg.search("");
    assert!(!lila::visible(&empty, ""));
}

#[test]
fn mixed_case_query_is_folded_before_scoring() {
    let reg = single_extension_registry();
    let upper = reg.search("FIR");
    assert_eq!(labels(&upper), vec!["Firefox".to_string()]);
    let lower = reg.search("fir");
    assert_eq!(labels(&upper), labels(&lower));
    assert_eq!(upper[0].score, lower[0].score);
}

#[test]
fn mixed_case_trigger_routes() {
    let keyed_finder = application_finder_with(&[("Gamma One", "/usr/bin/gamma1")]);
    let reg = Registry::new(vec![Extension::new(
        "keyed".to_string(),
        Some("g".to_string()),
        None,
        keyed_finder,
        None,
    )]);
    let hits = reg.search("G GAM");
    assert_eq!(labels(&hits), vec!["Gamma One".to_string()]);
}

#[test]
fn unicode_whitespace_delimits_the_trigger() {
    let keyed_finder = application_finder_with(&[("Gamma One", "/usr/bin/gamma1")]);
    let reg = Registry::new(vec![Extension::new(
        "keyed".to_string(),
        Some("g".to_string()),
        None,
        keyed_finder,
        None,
    )]);
    // a thin space delimits the token just as an ordinary space does
    let hits = reg.search("g\u{2009}gam");
    assert_eq!(labels(&hits), vec!["Gamma One".to_string()]);
}

#[test]
fn search_folded_is_search_after_folding() {
    let reg = single_extension_registry();
    let folded = reg.search_folded("fir");
    let raw = reg.search("FIR");
    assert_eq!(labels(&folded), labels(&raw));
}
