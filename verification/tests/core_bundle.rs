use headwind::bundle::bundle;
use headwind::index::TailwindIndex as SimpleIndex;
use headwind::types::{BundleRequest, Declaration, NamingMode};
#[test]
fn bundle_test_bundle_basic() {
    let mut index = SimpleIndex::new();
    index.insert(
        "p-4".to_string(),
        vec![Declaration::new("padding", "1rem")],
    );

    let request = BundleRequest {
        classes: vec!["p-4".to_string()],
        naming_mode: NamingMode::Hash,
    };

    let result = bundle(request, &index);

    assert_eq!(result.css_declarations.len(), 1);
    assert!(result.new_class.starts_with("c_"));
    assert!(result.diagnostics.is_empty());
    assert!(result.removed.is_empty());
}

#[test]
fn test_bundle_multiple_classes() {
    let mut index = SimpleIndex::new();
    index.insert(
        "p-4".to_string(),
        vec![Declaration::new("padding", "1rem")],
    );
    index.insert(
        "m-2".to_string(),
        vec![Declaration::new("margin", "0.5rem")],
    );

    let request = BundleRequest {
        classes: vec!["p-4".to_string(), "m-2".to_string()],
        naming_mode: NamingMode::Readable,
    };

    let result = bundle(request, &index);

    assert_eq!(result.css_declarations.len(), 2);
    assert_eq!(result.new_class, "m2_p4"); // 规范化后排序
    assert!(result.diagnostics.is_empty());
}

#[test]
fn test_bundle_unknown_class() {
    let index = SimpleIndex::new();

    let request = BundleRequest {
        classes: vec!["unknown-class".to_string()],
        naming_mode: NamingMode::Hash,
    };

    let result = bundle(request, &index);

    assert_eq!(result.css_declarations.len(), 0);
    assert_eq!(result.removed.len(), 1);
    assert_eq!(result.diagnostics.len(), 1);
}

#[test]
fn test_bundle_conflict_merge() {
    let mut index = SimpleIndex::new();
    // 两个类都定义了 padding，后者应该覆盖前者
    index.insert(
        "p-4".to_string(),
        vec![Declaration::new("padding", "1rem")],
    );
    index.insert(
        "p-8".to_string(),
        vec![Declaration::new("padding", "2rem")],
    );

    let request = BundleRequest {
        classes: vec!["p-4".to_string(), "p-8".to_string()],
        naming_mode: NamingMode::Hash,
    };

    let result = bundle(request, &index);

    // 合并后应该只有一个 padding 声明
    assert_eq!(result.css_declarations.len(), 1);
    assert_eq!(result.css_declarations[0].property, "padding");
    assert_eq!(result.css_declarations[0].value, "2rem"); // 后者覆盖
}
