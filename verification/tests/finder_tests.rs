use lila::{to_items, AppEntry, ApplicationFinder, EmptyFinder, Extension, Find, Finder, Item, Registry};

fn entry(name: &str, exec_path: &str) -> AppEntry {
    AppEntry::new(
        name.to_string(),
        Some(exec_path.to_string()),
        None,
        String::new(),
    )
}

fn three_items() -> Vec<Item> {
    vec![
        Item::App(entry("One", "/usr/bin/one")),
        Item::App(entry("Two", "/usr/bin/two")),
        Item::App(entry("Three", "/usr/bin/three")),
    ]
}

fn labels_of(items: &Vec<Item>) -> Vec<String> {
    items.iter().map(|i| i.label().clone()).collect()
}

#[test]
fn update_failure_keeps_previous_cache() {
    let mut finder = ApplicationFinder::new();
    finder.apply_refresh(Some(three_items()), 7);
    // a failed enumeration rolls back to the previous cache
    finder.apply_refresh(None, 9);
    let items = finder.search("");
    assert_eq!(items.len(), 3);
    assert_eq!(
        labels_of(&items),
        vec!["One".to_string(), "Two".to_string(), "Three".to_string()]
    );
}

#[test]
fn successful_refresh_replaces_cache_wholesale() {
    let mut finder = ApplicationFinder::new();
    finder.apply_refresh(Some(three_items()), 7);
    let replacement = vec![Item::App(entry("Only", "/usr/bin/only"))];
    finder.apply_refresh(Some(replacement), 8);
    let items = finder.search("");
    // replaced, not merged
    assert_eq!(labels_of(&items), vec!["Only".to_string()]);
}

#[test]
fn application_finder_starts_empty() {
    let finder = ApplicationFinder::new();
    assert!(finder.search("").is_empty());
}

#[test]
fn empty_finder_returns_nothing() {
    let finder = EmptyFinder::default();
    assert!(finder.search("").is_empty());
    assert!(finder.search("anything").is_empty());
}

#[test]
fn empty_finder_update_is_a_no_op() {
    let mut finder = EmptyFinder::default();
    finder.init();
    finder.update();
    assert!(finder.search("").is_empty());
}

#[test]
fn finder_search_is_idempotent_after_init() {
    let mut reg = Registry::new(vec![
        Extension::new(
            "apps".to_string(),
            None,
            None,
            Finder::ApplicationFinder(ApplicationFinder::new()),
            None,
        ),
        Extension::new("empty".to_string(), None, None, Finder::default(), None),
    ]);
    reg.init();
    for ext in reg.extensions().iter() {
        let first = ext.finder.search("");
        let second = ext.finder.search("");
        assert_eq!(labels_of(&first), labels_of(&second));
        // the query is not what selects the items: search only reads the cache
        let other = ext.finder.search("whatever");
        assert_eq!(labels_of(&first), labels_of(&other));
    }
}

#[test]
fn application_finder_load_is_fail_soft() {
    // whatever the host holds, enumeration either fails softly or yields
    // application items only
    match ApplicationFinder::load() {
        Some(items) => {
            for item in items.iter() {
                assert!(matches!(item, Item::App(_)));
            }
        }
        None => {}
    }
}

#[test]
fn to_items_wraps_each_descriptor_in_order() {
    let entries = vec![entry("One", "/usr/bin/one"), entry("Two", "/usr/bin/two")];
    let items = to_items(entries);
    assert_eq!(items.len(), 2);
    match &items[0] {
        Item::App(a) => {
            assert_eq!(a.name, "One");
            assert_eq!(a.exec_path, Some("/usr/bin/one".to_string()));
        }
    }
    match &items[1] {
        Item::App(a) => assert_eq!(a.name, "Two"),
    }
}

#[test]
fn app_entry_keeps_icon_and_desktop_paths() {
    let e = AppEntry::new(
        "Calc".to_string(),
        Some("/usr/bin/calc".to_string()),
        Some("/usr/share/icons/calc.png".to_string()),
        "/usr/share/applications/calc.desktop".to_string(),
    );
    assert_eq!(e.icon_path, Some("/usr/share/icons/calc.png".to_string()));
    assert_eq!(e.desktop_path, "/usr/share/applications/calc.desktop");
}
