use headwind::parse::{Modifier, ParsedValue};
use headwind::parser::{parse_class, ParseError};

#[test]
fn test_simple_class() {
    let parsed = parse_class("p-4").unwrap();
    assert_eq!(parsed.plugin, "p");
    assert_eq!(
        parsed.value,
        Some(ParsedValue::Standard("4".to_string()))
    );
    assert!(!parsed.negative);
    assert!(!parsed.important);
}

#[test]
fn test_class_without_value() {
    let parsed = parse_class("flex").unwrap();
    assert_eq!(parsed.plugin, "flex");
    assert_eq!(parsed.value, None);
}

#[test]
fn test_single_modifier() {
    let parsed = parse_class("hover:bg-blue-500").unwrap();
    assert_eq!(parsed.modifiers.len(), 1);
    assert!(parsed.modifiers[0].is_pseudo_class());
    assert_eq!(parsed.plugin, "bg");
    assert_eq!(
        parsed.value,
        Some(ParsedValue::Standard("blue-500".to_string()))
    );
}

#[test]
fn test_multiple_modifiers() {
    let parsed = parse_class("md:hover:bg-blue-500").unwrap();
    assert_eq!(parsed.modifiers.len(), 2);
    assert!(parsed.modifiers[0].is_responsive());
    assert!(parsed.modifiers[1].is_pseudo_class());
}

#[test]
fn test_negative_value() {
    let parsed = parse_class("-m-4").unwrap();
    assert!(parsed.negative);
    assert_eq!(parsed.plugin, "m");
    assert_eq!(
        parsed.value,
        Some(ParsedValue::Standard("4".to_string()))
    );
}

#[test]
fn parser_test_arbitrary_value() {
    let parsed = parse_class("w-[13px]").unwrap();
    assert_eq!(parsed.plugin, "w");
    assert!(parsed.value.as_ref().unwrap().is_arbitrary());

    if let Some(ParsedValue::Arbitrary(arb)) = parsed.value {
        assert_eq!(arb.content, "13px");
    } else {
        panic!("Expected arbitrary value");
    }
}

#[test]
fn test_alpha_modifier() {
    let parsed = parse_class("bg-blue-500/50").unwrap();
    assert_eq!(parsed.plugin, "bg");
    assert_eq!(parsed.alpha, Some("50".to_string()));
}

#[test]
fn test_important() {
    let parsed = parse_class("p-4!").unwrap();
    assert_eq!(parsed.plugin, "p");
    assert!(parsed.important);
}

#[test]
fn test_complex_class() {
    let parsed = parse_class("md:hover:bg-blue-500/50!").unwrap();
    assert_eq!(parsed.modifiers.len(), 2);
    assert_eq!(parsed.plugin, "bg");
    assert_eq!(
        parsed.value,
        Some(ParsedValue::Standard("blue-500".to_string()))
    );
    assert_eq!(parsed.alpha, Some("50".to_string()));
    assert!(parsed.important);
}

#[test]
fn test_negative_with_modifier() {
    let parsed = parse_class("md:-top-1").unwrap();
    assert_eq!(parsed.modifiers.len(), 1);
    assert!(parsed.negative);
    assert_eq!(parsed.plugin, "top");
}

#[test]
fn test_arbitrary_color() {
    let parsed = parse_class("bg-[#ff0000]").unwrap();
    assert_eq!(parsed.plugin, "bg");

    if let Some(ParsedValue::Arbitrary(arb)) = parsed.value {
        assert_eq!(arb.content, "#ff0000");
    } else {
        panic!("Expected arbitrary value");
    }
}

#[test]
fn test_nested_brackets() {
    let parsed = parse_class("grid-cols-[repeat(3,minmax(0,1fr))]").unwrap();
    // grid-cols 是一个整体，-[ 表示后面是任意值
    assert_eq!(parsed.plugin, "grid-cols");

    if let Some(ParsedValue::Arbitrary(arb)) = parsed.value {
        assert_eq!(arb.content, "repeat(3,minmax(0,1fr))");
    } else {
        panic!("Expected arbitrary value");
    }
}

#[test]
fn parser_test_empty_input() {
    let result = parse_class("");
    assert!(result.is_err());
    assert_eq!(result.unwrap_err(), ParseError::EmptyInput);
}

#[test]
fn parser_compound_plugins_take_the_longest_known_name() {
    let c = parse_class("max-w-md").unwrap();
    assert_eq!(c.plugin, "max-w");
    assert_eq!(c.value, Some(ParsedValue::Standard("md".to_string())));
    let c = parse_class("border-b").unwrap();
    assert_eq!(c.plugin, "border-b");
    assert_eq!(c.value, None);
    let c = parse_class("bg-blue-500/50").unwrap();
    assert_eq!(c.plugin, "bg");
    assert_eq!(c.alpha, Some("50".to_string()));
    let c = parse_class("inset-shadow-sm").unwrap();
    assert_eq!(c.plugin, "inset-shadow");
}

#[test]
fn parser_custom_property_values() {
    let c = parse_class("hover:bg-(image:--my-bg)!").unwrap();
    assert_eq!(c.plugin, "bg");
    assert!(c.important);
    match c.value {
        Some(ParsedValue::CssVariable(v)) => {
            assert_eq!(v.property, "--my-bg");
            assert_eq!(v.type_hint, Some("image".to_string()));
        }
        other => panic!("unexpected value {:?}", other),
    }
    assert_eq!(parse_class("p-(--x").unwrap_err(), ParseError::UnmatchedBracket);
}

#[test]
fn parser_bracket_and_paren_alpha_and_spaces() {
    let c = parse_class("text-base/[1.5rem]").unwrap();
    assert_eq!(c.alpha, Some("[1.5rem]".to_string()));
    let c = parse_class("text-base/(--lh)").unwrap();
    assert_eq!(c.alpha, Some("(--lh)".to_string()));
    let c = parse_class("grid-cols-[1fr_2fr]").unwrap();
    match c.value {
        Some(ParsedValue::Arbitrary(a)) => {
            assert_eq!(a.raw, "[1fr_2fr]");
            assert_eq!(a.content, "1fr 2fr");
        }
        other => panic!("unexpected value {:?}", other),
    }
}

#[test]
fn parser_error_variants() {
    assert_eq!(parse_class("").unwrap_err(), ParseError::EmptyInput);
    assert_eq!(parse_class("w-[13px").unwrap_err(), ParseError::UnmatchedBracket);
    assert_eq!(parse_class("hover:-").unwrap_err(), ParseError::MissingPlugin);
    assert_eq!(
        parse_class("p-4!x").unwrap_err(),
        ParseError::InvalidFormat("Unexpected characters at position 4: 'x'".to_string())
    );
    assert_eq!(ParseError::UnmatchedBracket.to_string(), "Unmatched bracket in arbitrary value");
    assert_eq!(ParseError::MissingPlugin.to_string(), "Missing plugin/command");
    assert_eq!(ParseError::EmptyInput.to_string(), "Empty input");
    assert_eq!(ParseError::InvalidFormat("x".to_string()).to_string(), "Invalid format: x");
    assert_eq!(ParseError::InvalidFormat("a\"b".to_string()).debug_text(), "InvalidFormat(\"a\\\"b\")");
    assert_eq!(ParseError::MissingPlugin.debug_text(), "MissingPlugin");
}

#[test]
fn parser_parse_classes_reports_first_error() {
    use_parse_classes();
}

fn use_parse_classes() {
    let ok = headwind::parser::parse_classes("p-4  hover:m-2").unwrap();
    assert_eq!(ok.len(), 2);
    assert_eq!(ok[1].plugin, "m");
    assert_eq!(headwind::parser::parse_classes("p-4 w-[1 -").unwrap_err(), ParseError::UnmatchedBracket);
}

#[test]
fn parser_canonical_classes_read_back() {
    for s in [
        "p-4",
        "-m-4",
        "md:hover:bg-red-500/50",
        "bg-[#ff0000]",
        "bg-red-500/[0.5]",
        "w-(--my-width)",
        "text-(length:--size)",
        "p-4!",
        "max-w-md",
        "dark:focus-visible:ring-2",
    ] {
        let parsed = parse_class(s).unwrap();
        assert_eq!(parsed.to_normalized_string(), s);
    }
}

#[test]
fn parser_non_canonical_classes_differ_when_read_back() {
    assert_eq!(parse_class("w[10px]").unwrap().to_normalized_string(), "w-[10px]");
}
