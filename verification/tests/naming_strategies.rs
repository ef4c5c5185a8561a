use headwind::naming::create_naming_strategy;
use headwind::naming::can_name;
use headwind::types::NamingMode;
use headwind::naming::{CamelCaseNaming, HashNaming, NamingStrategy, ReadableNaming};

#[test]
fn test_camel_case_naming_basic() {
    let naming = CamelCaseNaming;
    let classes = vec!["p-4".to_string(), "m-2".to_string()];

    let name = naming.generate_name(&classes);
    assert_eq!(name, "p4M2");
}

#[test]
fn test_camel_case_naming_complex() {
    let naming = CamelCaseNaming;
    let classes = vec!["text-center".to_string(), "bg-blue-500".to_string()];

    let name = naming.generate_name(&classes);
    assert_eq!(name, "textCenterBgBlue500");
}

#[test]
fn test_camel_case_naming_with_modifiers() {
    let naming = CamelCaseNaming;
    let classes = vec![
        "text-center".to_string(),
        "hover:text-left".to_string(),
    ];

    let name = naming.generate_name(&classes);
    assert_eq!(name, "textCenterHoverTextLeft");
}

#[test]
fn test_camel_case_naming_single() {
    let naming = CamelCaseNaming;
    let classes = vec!["flex".to_string()];

    let name = naming.generate_name(&classes);
    assert_eq!(name, "flex");
}

#[test]
fn test_camel_case_naming_long() {
    let naming = CamelCaseNaming;
    let classes = vec![
        "bg-blue-500".to_string(),
        "text-white".to_string(),
        "hover:bg-blue-700".to_string(),
        "font-bold".to_string(),
        "px-4".to_string(),
        "py-2".to_string(),
        "rounded".to_string(),
    ];

    let name = naming.generate_name(&classes);
    assert!(name.len() <= 32);
}

#[test]
fn test_camel_case_naming_empty() {
    let naming = CamelCaseNaming;
    let classes: Vec<String> = vec![];

    let name = naming.generate_name(&classes);
    assert_eq!(name, "empty");
}

#[test]
fn naming_can_name_checks_cuts() {
    let ok = vec!["p-4".to_string(), "m-2".to_string()];
    let bad = vec!["中文中文x".to_string()];
    assert!(can_name(NamingMode::Hash, &bad));
    assert!(can_name(NamingMode::Readable, &ok));
    assert!(!can_name(NamingMode::Readable, &bad));
    assert!(can_name(NamingMode::CamelCase, &bad));
    assert!(!can_name(NamingMode::Semantic, &ok));
}

#[test]
fn naming_readable_and_camel_names_fit_32_bytes() {
    let classes: Vec<String> = ["p-4", "m-2", "text-red-500", "bg-blue-600", "border-gray-300", "rounded-lg"]
        .iter()
        .map(|s| s.to_string())
        .collect();
    let r = ReadableNaming.generate_name(&classes);
    let c = CamelCaseNaming.generate_name(&classes);
    assert!(r.len() <= 32);
    assert_eq!(r.len(), 31);
    assert!(c.len() <= 32);
    assert_eq!(c.len(), 30);
}

#[test]
fn naming_strategies_by_mode() {
    let cs = vec!["p-4".to_string(), "m-2".to_string()];
    assert_eq!(create_naming_strategy(NamingMode::Readable).generate_name(&cs), "p4_m2");
    assert_eq!(create_naming_strategy(NamingMode::CamelCase).generate_name(&cs), "p4M2");
    let h = create_naming_strategy(NamingMode::Hash).generate_name(&cs);
    assert_eq!(h.len(), 14);
    assert!(h.starts_with("c_"));
    assert!(h[2..].chars().all(|c| c.is_ascii_hexdigit() && !c.is_ascii_uppercase()));
    assert_eq!(h, create_naming_strategy(NamingMode::Hash).generate_name(&cs));
}
