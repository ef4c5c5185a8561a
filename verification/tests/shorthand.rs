use headwind::shorthand::optimize_shorthands;
use headwind::types::Declaration;

#[test]
fn test_padding_all_same() {
    let decls = vec![
        Declaration::new("padding-top", "1rem"),
        Declaration::new("padding-right", "1rem"),
        Declaration::new("padding-bottom", "1rem"),
        Declaration::new("padding-left", "1rem"),
    ];
    let result = optimize_shorthands(decls);
    assert_eq!(result.len(), 1);
    assert_eq!(result[0].property, "padding");
    assert_eq!(result[0].value, "1rem");
}

#[test]
fn test_padding_two_value() {
    let decls = vec![
        Declaration::new("padding-top", "1rem"),
        Declaration::new("padding-right", "2rem"),
        Declaration::new("padding-bottom", "1rem"),
        Declaration::new("padding-left", "2rem"),
    ];
    let result = optimize_shorthands(decls);
    assert_eq!(result.len(), 1);
    assert_eq!(result[0].property, "padding");
    assert_eq!(result[0].value, "1rem 2rem");
}

#[test]
fn test_padding_three_value() {
    let decls = vec![
        Declaration::new("padding-top", "1rem"),
        Declaration::new("padding-right", "2rem"),
        Declaration::new("padding-bottom", "3rem"),
        Declaration::new("padding-left", "2rem"),
    ];
    let result = optimize_shorthands(decls);
    assert_eq!(result.len(), 1);
    assert_eq!(result[0].property, "padding");
    assert_eq!(result[0].value, "1rem 2rem 3rem");
}

#[test]
fn test_padding_four_value() {
    let decls = vec![
        Declaration::new("padding-top", "1rem"),
        Declaration::new("padding-right", "2rem"),
        Declaration::new("padding-bottom", "3rem"),
        Declaration::new("padding-left", "4rem"),
    ];
    let result = optimize_shorthands(decls);
    assert_eq!(result.len(), 1);
    assert_eq!(result[0].property, "padding");
    assert_eq!(result[0].value, "1rem 2rem 3rem 4rem");
}

#[test]
fn test_margin_auto_centering() {
    let decls = vec![
        Declaration::new("margin-top", "0"),
        Declaration::new("margin-right", "auto"),
        Declaration::new("margin-bottom", "0"),
        Declaration::new("margin-left", "auto"),
    ];
    let result = optimize_shorthands(decls);
    assert_eq!(result.len(), 1);
    assert_eq!(result[0].property, "margin");
    assert_eq!(result[0].value, "0 auto");
}

#[test]
fn test_partial_padding_no_optimization() {
    let decls = vec![
        Declaration::new("padding-top", "1rem"),
        Declaration::new("padding-bottom", "1rem"),
    ];
    let result = optimize_shorthands(decls);
    assert_eq!(result.len(), 2);
    assert_eq!(result[0].property, "padding-top");
    assert_eq!(result[1].property, "padding-bottom");
}

#[test]
fn test_border_radius_all_same() {
    let decls = vec![
        Declaration::new("border-top-left-radius", "0.5rem"),
        Declaration::new("border-top-right-radius", "0.5rem"),
        Declaration::new("border-bottom-right-radius", "0.5rem"),
        Declaration::new("border-bottom-left-radius", "0.5rem"),
    ];
    let result = optimize_shorthands(decls);
    assert_eq!(result.len(), 1);
    assert_eq!(result[0].property, "border-radius");
    assert_eq!(result[0].value, "0.5rem");
}

#[test]
fn test_border_radius_two_value() {
    let decls = vec![
        Declaration::new("border-top-left-radius", "0.5rem"),
        Declaration::new("border-top-right-radius", "1rem"),
        Declaration::new("border-bottom-right-radius", "0.5rem"),
        Declaration::new("border-bottom-left-radius", "1rem"),
    ];
    let result = optimize_shorthands(decls);
    assert_eq!(result.len(), 1);
    assert_eq!(result[0].property, "border-radius");
    assert_eq!(result[0].value, "0.5rem 1rem");
}

#[test]
fn test_inset_all_zero() {
    let decls = vec![
        Declaration::new("top", "0"),
        Declaration::new("right", "0"),
        Declaration::new("bottom", "0"),
        Declaration::new("left", "0"),
    ];
    let result = optimize_shorthands(decls);
    assert_eq!(result.len(), 1);
    assert_eq!(result[0].property, "inset");
    assert_eq!(result[0].value, "0");
}

#[test]
fn test_gap_same() {
    let decls = vec![
        Declaration::new("row-gap", "1rem"),
        Declaration::new("column-gap", "1rem"),
    ];
    let result = optimize_shorthands(decls);
    assert_eq!(result.len(), 1);
    assert_eq!(result[0].property, "gap");
    assert_eq!(result[0].value, "1rem");
}

#[test]
fn test_gap_different() {
    let decls = vec![
        Declaration::new("row-gap", "1rem"),
        Declaration::new("column-gap", "2rem"),
    ];
    let result = optimize_shorthands(decls);
    assert_eq!(result.len(), 1);
    assert_eq!(result[0].property, "gap");
    assert_eq!(result[0].value, "1rem 2rem");
}

#[test]
fn test_overflow_same() {
    let decls = vec![
        Declaration::new("overflow-x", "hidden"),
        Declaration::new("overflow-y", "hidden"),
    ];
    let result = optimize_shorthands(decls);
    assert_eq!(result.len(), 1);
    assert_eq!(result[0].property, "overflow");
    assert_eq!(result[0].value, "hidden");
}

#[test]
fn test_overflow_different() {
    let decls = vec![
        Declaration::new("overflow-x", "hidden"),
        Declaration::new("overflow-y", "scroll"),
    ];
    let result = optimize_shorthands(decls);
    assert_eq!(result.len(), 1);
    assert_eq!(result[0].property, "overflow");
    assert_eq!(result[0].value, "hidden scroll");
}

#[test]
fn test_order_preservation_with_interleaved() {
    let decls = vec![
        Declaration::new("display", "flex"),
        Declaration::new("padding-top", "1rem"),
        Declaration::new("color", "red"),
        Declaration::new("padding-right", "1rem"),
        Declaration::new("padding-bottom", "1rem"),
        Declaration::new("padding-left", "1rem"),
    ];
    let result = optimize_shorthands(decls);
    assert_eq!(result.len(), 3);
    assert_eq!(result[0].property, "display");
    assert_eq!(result[1].property, "padding");
    assert_eq!(result[1].value, "1rem");
    assert_eq!(result[2].property, "color");
}

#[test]
fn test_multiple_groups() {
    let decls = vec![
        Declaration::new("padding-top", "1rem"),
        Declaration::new("padding-right", "1rem"),
        Declaration::new("padding-bottom", "1rem"),
        Declaration::new("padding-left", "1rem"),
        Declaration::new("margin-top", "0"),
        Declaration::new("margin-right", "auto"),
        Declaration::new("margin-bottom", "0"),
        Declaration::new("margin-left", "auto"),
    ];
    let result = optimize_shorthands(decls);
    assert_eq!(result.len(), 2);
    assert_eq!(result[0].property, "padding");
    assert_eq!(result[0].value, "1rem");
    assert_eq!(result[1].property, "margin");
    assert_eq!(result[1].value, "0 auto");
}

#[test]
fn test_no_longhands() {
    let decls = vec![
        Declaration::new("display", "flex"),
        Declaration::new("color", "red"),
    ];
    let result = optimize_shorthands(decls);
    assert_eq!(result.len(), 2);
    assert_eq!(result[0].property, "display");
    assert_eq!(result[1].property, "color");
}

#[test]
fn shorthand_test_empty_input() {
    let result = optimize_shorthands(vec![]);
    assert!(result.is_empty());
}

#[test]
fn test_important_all_consistent() {
    let decls = vec![
        Declaration::new("padding-top", "1rem !important"),
        Declaration::new("padding-right", "1rem !important"),
        Declaration::new("padding-bottom", "1rem !important"),
        Declaration::new("padding-left", "1rem !important"),
    ];
    let result = optimize_shorthands(decls);
    assert_eq!(result.len(), 1);
    assert_eq!(result[0].property, "padding");
    assert_eq!(result[0].value, "1rem !important");
}

#[test]
fn test_important_mixed_no_optimization() {
    let decls = vec![
        Declaration::new("padding-top", "1rem !important"),
        Declaration::new("padding-right", "1rem"),
        Declaration::new("padding-bottom", "1rem !important"),
        Declaration::new("padding-left", "1rem"),
    ];
    let result = optimize_shorthands(decls);
    // !important 不一致，不合并
    assert_eq!(result.len(), 4);
}

#[test]
fn test_var_values() {
    let decls = vec![
        Declaration::new("padding-top", "var(--spacing-4)"),
        Declaration::new("padding-right", "var(--spacing-4)"),
        Declaration::new("padding-bottom", "var(--spacing-4)"),
        Declaration::new("padding-left", "var(--spacing-4)"),
    ];
    let result = optimize_shorthands(decls);
    assert_eq!(result.len(), 1);
    assert_eq!(result[0].property, "padding");
    assert_eq!(result[0].value, "var(--spacing-4)");
}

#[test]
fn test_border_width() {
    let decls = vec![
        Declaration::new("border-top-width", "1px"),
        Declaration::new("border-right-width", "2px"),
        Declaration::new("border-bottom-width", "1px"),
        Declaration::new("border-left-width", "2px"),
    ];
    let result = optimize_shorthands(decls);
    assert_eq!(result.len(), 1);
    assert_eq!(result[0].property, "border-width");
    assert_eq!(result[0].value, "1px 2px");
}

#[test]
fn test_overscroll_behavior() {
    let decls = vec![
        Declaration::new("overscroll-behavior-x", "contain"),
        Declaration::new("overscroll-behavior-y", "contain"),
    ];
    let result = optimize_shorthands(decls);
    assert_eq!(result.len(), 1);
    assert_eq!(result[0].property, "overscroll-behavior");
    assert_eq!(result[0].value, "contain");
}
