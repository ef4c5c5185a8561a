use headwind::normalize::normalize_classes;

#[test]
fn test_normalize_duplicates() {
    let input = vec!["p-4".to_string(), "p-4".to_string()];
    let result = normalize_classes(&input);
    assert_eq!(result, vec!["p-4"]);
}

#[test]
fn test_normalize_sorting() {
    let input = vec!["m-2".to_string(), "p-4".to_string()];
    let result = normalize_classes(&input);
    assert_eq!(result, vec!["m-2", "p-4"]);
}

#[test]
fn test_normalize_split_spaces() {
    let input = vec!["p-4  m-2".to_string()];
    let result = normalize_classes(&input);
    assert_eq!(result, vec!["m-2", "p-4"]);
}

#[test]
fn test_normalize_empty_strings() {
    let input = vec!["".to_string(), "p-4".to_string(), "".to_string()];
    let result = normalize_classes(&input);
    assert_eq!(result, vec!["p-4"]);
}

#[test]
fn test_normalize_complex() {
    let input = vec![
        "p-4 m-2".to_string(),
        "p-4".to_string(),
        "text-red-500".to_string(),
        "m-2".to_string(),
    ];
    let result = normalize_classes(&input);
    assert_eq!(result, vec!["m-2", "p-4", "text-red-500"]);
}

#[test]
fn normalize_twice_gives_the_same_classes() {
    let once = normalize_classes(&["p-4  m-2".to_string(), "m-2\tbg-red-500 p-4".to_string()]);
    assert_eq!(once, vec!["bg-red-500", "m-2", "p-4"]);
    assert_eq!(normalize_classes(&once), once);
}
