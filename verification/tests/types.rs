use headwind::parse::{ArbitraryValue, Modifier, ParsedClass, ParsedValue};

#[test]
fn test_modifier_classification() {
    assert!(Modifier::from_str("md").is_responsive());
    assert!(Modifier::from_str("hover").is_pseudo_class());
    assert_eq!(
        Modifier::from_str("dark"),
        Modifier::State("dark".to_string())
    );
}

#[test]
fn test_parsed_class_normalization() {
    let class = ParsedClass::new("p".to_string())
        .with_modifier(Modifier::Responsive("md".to_string()))
        .with_modifier(Modifier::PseudoClass("hover".to_string()))
        .with_value(ParsedValue::Standard("4".to_string()));

    assert_eq!(class.to_normalized_string(), "md:hover:p-4");
}

#[test]
fn types_test_arbitrary_value() {
    let arb = ArbitraryValue::new("[13px]".to_string());
    assert_eq!(arb.content, "13px");
    assert_eq!(arb.raw, "[13px]");
}

#[test]
fn types_modifiers_read_back_after_with_modifier() {
    let c = ParsedClass::new("p".to_string())
        .with_modifier(Modifier::from_str("md"))
        .with_modifier(Modifier::from_str("hover"))
        .with_modifier(Modifier::from_str("dark"));
    assert_eq!(c.raw_modifiers, "md:hover:dark:");
    assert_eq!(
        c.modifiers(),
        vec![Modifier::from_str("md"), Modifier::from_str("hover"), Modifier::from_str("dark")]
    );
}
