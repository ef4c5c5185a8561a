use headwind::naming::{HashNaming, NamingStrategy, ReadableNaming};

#[test]
fn naming_test_hash_naming_stability() {
    let naming = HashNaming;
    let classes = vec!["p-4".to_string(), "m-2".to_string()];

    let name1 = naming.generate_name(&classes);
    let name2 = naming.generate_name(&classes);

    assert_eq!(name1, name2, "Hash naming should be stable");
    assert!(name1.starts_with("c_"), "Hash name should start with c_");
    assert_eq!(name1.len(), 14, "Hash name should be c_ + 12 chars");
}

#[test]
fn naming_test_hash_naming_different_inputs() {
    let naming = HashNaming;
    let classes1 = vec!["p-4".to_string(), "m-2".to_string()];
    let classes2 = vec!["p-8".to_string(), "m-4".to_string()];

    let name1 = naming.generate_name(&classes1);
    let name2 = naming.generate_name(&classes2);

    assert_ne!(
        name1, name2,
        "Different inputs should produce different hashes"
    );
}

#[test]
fn naming_test_readable_naming() {
    let naming = ReadableNaming;
    let classes = vec!["p-4".to_string(), "m-2".to_string()];

    let name = naming.generate_name(&classes);
    assert_eq!(name, "p4_m2");
}

#[test]
fn naming_test_readable_naming_long_classes() {
    let naming = ReadableNaming;
    let classes = vec![
        "p-4".to_string(),
        "m-2".to_string(),
        "text-red-500".to_string(),
        "bg-blue-600".to_string(),
        "border-gray-300".to_string(),
    ];

    let name = naming.generate_name(&classes);
    // 应该被截断并添加 hash
    assert!(name.len() <= 32);
}

#[test]
fn naming_test_readable_naming_empty() {
    let naming = ReadableNaming;
    let classes: Vec<String> = vec![];

    let name = naming.generate_name(&classes);
    assert_eq!(name, "empty");
}

#[test]
fn naming_readable_prefix_of_color_class() {
    let naming = ReadableNaming;
    assert_eq!(naming.generate_name(&["text-red-500".to_string()]), "text_red");
    assert_eq!(naming.generate_name(&["p-4".to_string(), "m-2".to_string()]), "p4_m2");
    assert_eq!(naming.generate_name(&["-m-4".to_string()]), "_m4");
}
