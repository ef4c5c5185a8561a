use headwind::collector::ClassCollector;
use headwind::types::{ColorMode, CssVariableMode, NamingMode, UnknownClassMode};

fn collector(mode: NamingMode) -> ClassCollector {
    ClassCollector::new(mode, CssVariableMode::Var, UnknownClassMode::Remove, ColorMode::default(), false)
}

#[test]
fn test_process_classes_basic() {
    let mut collector = collector(NamingMode::Hash);
    let name = collector.process_classes("p-4 m-2");
    assert!(name.starts_with("c_"));
    assert!(!collector.combined_css().is_empty());
}

#[test]
fn test_process_classes_caching() {
    let mut collector = collector(NamingMode::Hash);
    let name1 = collector.process_classes("p-4 m-2");
    let name2 = collector.process_classes("p-4 m-2");
    assert_eq!(name1, name2);
    assert_eq!(collector.css_entries().len(), 1);
}

#[test]
fn test_process_classes_different_inputs() {
    let mut collector = collector(NamingMode::Hash);
    let name1 = collector.process_classes("p-4");
    let name2 = collector.process_classes("m-2");
    assert_ne!(name1, name2);
    assert_eq!(collector.css_entries().len(), 2);
}

#[test]
fn test_process_empty_classes() {
    let mut collector = collector(NamingMode::Hash);
    let name = collector.process_classes("  ");
    assert!(name.is_empty());
}

#[test]
fn collector_test_readable_naming() {
    let mut collector = collector(NamingMode::Readable);
    let name = collector.process_classes("p-4 m-2");
    assert_eq!(name, "p4_m2");
}

#[test]
fn collector_trims_before_naming() {
    let mut collector = collector(NamingMode::Readable);
    let a = collector.process_classes("  p-4 m-2 ");
    let b = collector.process_classes("p-4 m-2");
    assert_eq!(a, b);
    assert_eq!(collector.class_map().len(), 1);
    assert_eq!(collector.class_map().get("p-4 m-2").map(|s| s.as_str()), Some("p4_m2"));
}

#[test]
fn collector_preserve_keeps_unknown_classes() {
    let mut collector = ClassCollector::new(
        NamingMode::Readable,
        CssVariableMode::Var,
        UnknownClassMode::Preserve,
        ColorMode::default(),
        false,
    );
    let name = collector.process_classes("p-4 my-widget");
    assert_eq!(name, "p4 my-widget");
    let only_unknown = collector.process_classes("my-widget other");
    assert_eq!(only_unknown, "my-widget other");
    assert_eq!(collector.css_entries().len(), 1);
}

#[test]
fn collector_remove_drops_unknown_classes() {
    let mut collector = collector(NamingMode::Readable);
    let name = collector.process_classes("p-4 my-widget");
    assert_eq!(name, "p4_my_widge");
}

#[test]
fn collector_combined_css_has_root_variables() {
    let mut collector = collector(NamingMode::Readable);
    collector.process_classes("text-3xl");
    let css = collector.combined_css();
    assert!(css.starts_with(":root {"));
    assert!(css.contains("--text-3xl"));
    assert!(css.contains(".text3xl {"));
}

#[test]
fn collector_inline_css_has_no_root() {
    let mut collector = ClassCollector::new(
        NamingMode::Readable,
        CssVariableMode::Inline,
        UnknownClassMode::Remove,
        ColorMode::default(),
        false,
    );
    collector.process_classes("text-3xl");
    let css = collector.combined_css();
    assert!(!css.contains(":root"));
    assert!(css.contains("1.875rem"));
}

#[test]
fn collector_into_class_map_keeps_order() {
    let mut collector = collector(NamingMode::Readable);
    collector.process_classes("m-2");
    collector.process_classes("p-4");
    collector.process_classes("m-2");
    let map = collector.into_class_map();
    let keys: Vec<&String> = map.keys().collect();
    assert_eq!(keys, vec!["m-2", "p-4"]);
}

#[test]
fn collector_try_refuses_cut_inside_character() {
    let mut collector = collector(NamingMode::Readable);
    assert_eq!(collector.try_process_classes("中文中文x"), None);
    assert!(collector.class_map().is_empty());
    assert!(collector.css_entries().is_empty());
    assert_eq!(collector.try_process_classes("p-4"), Some("p4".to_string()));
}

#[test]
fn collector_try_hash_names_anything() {
    let mut collector = collector(NamingMode::Hash);
    let name = collector.try_process_classes("中文中文x").unwrap();
    assert!(name.starts_with("c_"));
    assert_eq!(name.len(), 14);
}
