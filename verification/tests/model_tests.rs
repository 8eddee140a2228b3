use lila::{AppEntry, Config, Css, Edge, Extension, Finder, Item};

#[test]
fn extension_new_stores_fields_and_fresh_id() {
    let ext = Extension::new(
        "web".to_string(),
        Some("w".to_string()),
        Some("web searches".to_string()),
        Finder::default(),
        Some(250),
    );
    assert_eq!(ext.name, "web");
    assert_eq!(ext.key, Some("w".to_string()));
    assert_eq!(ext.description, Some("web searches".to_string()));
    assert_eq!(ext.max_time, Some(250));
    assert_eq!(ext.id.chars().count(), 36);
    let other = Extension::new("web".to_string(), None, None, Finder::default(), None);
    assert_ne!(ext.id, other.id);
}

#[test]
fn extension_default_is_empty() {
    let ext = Extension::default();
    assert_eq!(ext.id, "");
    assert_eq!(ext.name, "");
    assert!(ext.key.is_none());
    assert!(ext.description.is_none());
    assert!(ext.max_time.is_none());
    assert!(matches!(ext.finder, Finder::EmptyFinder(_)));
}

#[test]
fn finder_default_is_the_empty_variant() {
    assert!(matches!(Finder::default(), Finder::EmptyFinder(_)));
}

#[test]
fn config_defaults() {
    let config = Config::default();
    assert_eq!(config.width, 800);
    assert_eq!(config.height, 600);
    assert_eq!(config.left.margin, 100);
    assert!(!config.left.anchor);
    assert_eq!(config.right.margin, 100);
    assert!(!config.right.anchor);
    assert_eq!(config.top.margin, 100);
    assert!(!config.top.anchor);
    assert_eq!(config.bottom.margin, 100);
    assert!(!config.bottom.anchor);
}

#[test]
fn edge_defaults() {
    let edge = Edge::default();
    assert_eq!(edge.margin, 100);
    assert!(!edge.anchor);
}

#[test]
fn css_default_holds_a_style_sheet() {
    let css = Css::default();
    assert!(!css.is_empty());
    assert!(css.contains("lila-listbox"));
    assert!(css.contains(".transparente"));
}

#[test]
fn item_label_is_the_application_name() {
    let item = Item::App(AppEntry::new(
        "Calculator".to_string(),
        Some("/usr/bin/calc".to_string()),
        None,
        String::new(),
    ));
    assert_eq!(item.label(), "Calculator");
}

#[test]
fn now_returns_a_positive_timestamp() {
    assert!(lila::now() > 0);
}
