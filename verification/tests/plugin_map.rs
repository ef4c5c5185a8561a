use headwind::plugin_map::{get_plugin_properties, is_multi_declaration_plugin};

#[test]
fn test_multi_declaration_plugins() {
    assert!(is_multi_declaration_plugin("px"));
    assert!(is_multi_declaration_plugin("py"));
    assert!(!is_multi_declaration_plugin("p"));
    assert!(!is_multi_declaration_plugin("w"));
}

#[test]
fn test_get_plugin_properties() {
    let props = get_plugin_properties("w").unwrap();
    assert_eq!(props, vec!["width"]);

    let props = get_plugin_properties("px").unwrap();
    assert_eq!(props, vec!["padding-left", "padding-right"]);

    let props = get_plugin_properties("py").unwrap();
    assert_eq!(props, vec!["padding-top", "padding-bottom"]);

    assert!(get_plugin_properties("unknown").is_none());
}

#[test]
fn plugin_map_lists_single_property_plugins() {
    let map = headwind::plugin_map::get_plugin_property_map();
    assert_eq!(map.len(), 140);
    assert!(map.contains(&("w", "width")));
    assert!(map.contains(&("p", "padding")));
    assert!(!map.iter().any(|(k, _)| *k == "px"));
    for (k, v) in &map {
        assert_eq!(get_plugin_properties(k), Some(vec![*v]));
    }
}
