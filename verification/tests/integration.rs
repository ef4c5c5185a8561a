use headwind::bundle::bundle;
use headwind::index::TailwindIndex;
use headwind::types::{BundleRequest, Declaration, NamingMode};

fn index_of(entries: &[(&str, &[(&str, &str)])]) -> TailwindIndex {
    let mut index = TailwindIndex::new();
    for (class, decls) in entries {
        index.insert(class.to_string(), decls.iter().map(|(p, v)| Declaration::new(p, v)).collect());
    }
    index
}

#[test]
fn integration_test_end_to_end_with_json_index() {
    let index = index_of(&[
        ("p-4", &[("padding", "1rem")]),
        ("m-2", &[("margin", "0.5rem")]),
        ("text-red-500", &[("color", "rgb(239, 68, 68)")]),
    ]);

    let request = BundleRequest {
        classes: vec!["p-4".to_string(), "m-2".to_string(), "text-red-500".to_string()],
        naming_mode: NamingMode::Hash,
    };

    let result = bundle(request, &index);

    assert!(result.new_class.starts_with("c_"));
    assert_eq!(result.css_declarations.len(), 3);
    assert!(result.diagnostics.is_empty());
    assert!(result.removed.is_empty());

    let props: Vec<&str> = result.css_declarations.iter().map(|d| d.property.as_str()).collect();
    assert!(props.contains(&"padding"));
    assert!(props.contains(&"margin"));
    assert!(props.contains(&"color"));
}

#[test]
fn integration_test_end_to_end_with_readable_naming() {
    let index = index_of(&[("p-4", &[("padding", "1rem")]), ("m-2", &[("margin", "0.5rem")])]);

    let request = BundleRequest {
        classes: vec!["p-4".to_string(), "m-2".to_string()],
        naming_mode: NamingMode::Readable,
    };

    let result = bundle(request, &index);

    assert_eq!(result.new_class, "m2_p4");
    assert_eq!(result.css_declarations.len(), 2);
}

#[test]
fn integration_test_end_to_end_with_duplicates_and_unknowns() {
    let index = index_of(&[("p-4", &[("padding", "1rem")])]);

    let request = BundleRequest {
        classes: vec!["p-4".to_string(), "p-4".to_string(), "unknown-class".to_string()],
        naming_mode: NamingMode::Hash,
    };

    let result = bundle(request, &index);

    assert_eq!(result.css_declarations.len(), 1);
    assert_eq!(result.removed.len(), 1);
    assert_eq!(result.removed[0], "unknown-class");
    assert_eq!(result.diagnostics.len(), 1);
}
