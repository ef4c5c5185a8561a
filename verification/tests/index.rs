use headwind::index::TailwindIndex;
use headwind::types::Declaration;

#[test]
fn test_index_insert_and_lookup() {
    let mut index = TailwindIndex::new();
    index.insert(
        "p-4".to_string(),
        vec![Declaration::new("padding", "1rem")],
    );

    let result = index.lookup("p-4");
    assert!(result.is_some());
    assert_eq!(result.unwrap().len(), 1);
    assert_eq!(result.unwrap()[0].property, "padding");
}

#[test]
fn test_index_lookup_missing() {
    let index = TailwindIndex::new();
    let result = index.lookup("unknown-class");
    assert!(result.is_none());
}

#[test]
fn test_index_len() {
    let mut index = TailwindIndex::new();
    assert_eq!(index.len(), 0);
    assert!(index.is_empty());

    index.insert(
        "p-4".to_string(),
        vec![Declaration::new("padding", "1rem")],
    );
    assert_eq!(index.len(), 1);
    assert!(!index.is_empty());
}
