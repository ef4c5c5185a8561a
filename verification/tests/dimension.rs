use headwind::dimension::parse_dimension;

fn dim(s: &str) -> Option<(String, &'static str)> {
    parse_dimension(s)
}

#[test]
fn dimension_common_units() {
    assert_eq!(dim("1rem"), Some(("1".to_string(), "rem")));
    assert_eq!(dim("10px"), Some(("10".to_string(), "px")));
    assert_eq!(dim("0.5em"), Some(("0.5".to_string(), "em")));
    assert_eq!(dim("100%"), Some(("100".to_string(), "%")));
    assert_eq!(dim("-2deg"), Some(("-2".to_string(), "deg")));
}

#[test]
fn dimension_later_units_after_failed_earlier_ones() {
    assert_eq!(dim("10ms"), Some(("10".to_string(), "ms")));
    assert_eq!(dim("1grad"), Some(("1".to_string(), "grad")));
    assert_eq!(dim("1.5s"), Some(("1.5".to_string(), "s")));
}

#[test]
fn dimension_rejects_non_dimensions() {
    assert_eq!(dim("auto"), None);
    assert_eq!(dim("rem"), None);
    assert_eq!(dim("1fr"), None);
    assert_eq!(dim("calc(1px)"), None);
    assert_eq!(dim(""), None);
}
