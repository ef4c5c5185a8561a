use headwind::variant::{
    container_at_rule, parameterized_selector, pseudo_class_at_rule, pseudo_class_selector,
    pseudo_element_selector, resolve_state, responsive_at_rule, supports_at_rule, marker_selectors,
    StateResolution,
};

#[test]
fn test_pseudo_class_shorthand() {
    assert_eq!(pseudo_class_selector("first"), "first-child");
    assert_eq!(pseudo_class_selector("last"), "last-child");
    assert_eq!(pseudo_class_selector("only"), "only-child");
    assert_eq!(pseudo_class_selector("odd"), "nth-child(odd)");
    assert_eq!(pseudo_class_selector("even"), "nth-child(even)");
}

#[test]
fn test_pseudo_class_passthrough() {
    assert_eq!(pseudo_class_selector("hover"), "hover");
    assert_eq!(pseudo_class_selector("focus"), "focus");
    assert_eq!(pseudo_class_selector("focus-within"), "focus-within");
    assert_eq!(pseudo_class_selector("disabled"), "disabled");
}

#[test]
fn test_pseudo_class_at_rule() {
    assert_eq!(pseudo_class_at_rule("hover"), Some("@media (hover: hover)"));
    assert_eq!(pseudo_class_at_rule("focus"), None);
    assert_eq!(pseudo_class_at_rule("active"), None);
}

#[test]
fn test_pseudo_element() {
    assert_eq!(pseudo_element_selector("before"), "before");
    assert_eq!(pseudo_element_selector("after"), "after");
    assert_eq!(pseudo_element_selector("file"), "file-selector-button");
    assert_eq!(pseudo_element_selector("placeholder"), "placeholder");
}

#[test]
fn test_marker_selectors() {
    let sels = marker_selectors(".c");
    assert_eq!(sels, vec![".c::marker", ".c *::marker"]);
}

#[test]
fn test_state_dark() {
    match resolve_state("dark", ".c") {
        StateResolution::AtRule(rule) => {
            assert_eq!(rule, "@media (prefers-color-scheme: dark)");
        }
        _ => panic!("expected AtRule"),
    }
}

#[test]
fn test_state_motion() {
    match resolve_state("motion-safe", ".c") {
        StateResolution::AtRule(rule) => {
            assert_eq!(rule, "@media (prefers-reduced-motion: no-preference)");
        }
        _ => panic!("expected AtRule"),
    }
}

#[test]
fn test_state_direction() {
    match resolve_state("rtl", ".c") {
        StateResolution::Selector(s) => assert!(s.contains(":dir(rtl)")),
        _ => panic!("expected Selector"),
    }
}

#[test]
fn test_state_group_peer() {
    match resolve_state("group-hover", ".c") {
        StateResolution::Selector(s) => assert_eq!(s, ".group:hover .c"),
        _ => panic!("expected Selector"),
    }
    match resolve_state("peer-focus", ".c") {
        StateResolution::Selector(s) => assert_eq!(s, ".peer:focus ~ .c"),
        _ => panic!("expected Selector"),
    }
}

#[test]
fn test_group_with_shorthand() {
    match resolve_state("group-first", ".c") {
        StateResolution::Selector(s) => assert_eq!(s, ".group:first-child .c"),
        _ => panic!("expected Selector"),
    }
}

#[test]
fn test_responsive_at_rule() {
    assert_eq!(
        responsive_at_rule("sm").unwrap(),
        "@media (width >= 40rem)"
    );
    assert_eq!(
        responsive_at_rule("2xl").unwrap(),
        "@media (width >= 96rem)"
    );
}

#[test]
fn test_responsive_max() {
    assert_eq!(
        responsive_at_rule("max-sm").unwrap(),
        "@media (width < 40rem)"
    );
    assert_eq!(
        responsive_at_rule("max-lg").unwrap(),
        "@media (width < 64rem)"
    );
}

#[test]
fn test_responsive_custom() {
    assert_eq!(
        responsive_at_rule("min-[800px]").unwrap(),
        "@media (width >= 800px)"
    );
    assert_eq!(
        responsive_at_rule("max-[600px]").unwrap(),
        "@media (width < 600px)"
    );
}

#[test]
fn test_container_at_rule() {
    assert_eq!(
        container_at_rule("sm").unwrap(),
        "@container (width >= 24rem)"
    );
    assert_eq!(
        container_at_rule("3xs").unwrap(),
        "@container (width >= 16rem)"
    );
    assert_eq!(
        container_at_rule("7xl").unwrap(),
        "@container (width >= 80rem)"
    );
}

#[test]
fn test_container_max() {
    assert_eq!(
        container_at_rule("max-sm").unwrap(),
        "@container (width < 24rem)"
    );
}

#[test]
fn test_container_custom() {
    assert_eq!(
        container_at_rule("min-[400px]").unwrap(),
        "@container (width >= 400px)"
    );
}

#[test]
fn test_parameterized_has_not() {
    assert_eq!(
        parameterized_selector("has-[.active]").unwrap(),
        ":has(.active)"
    );
    assert_eq!(
        parameterized_selector("not-[.disabled]").unwrap(),
        ":not(.disabled)"
    );
}

#[test]
fn test_parameterized_nth() {
    assert_eq!(
        parameterized_selector("nth-[2n+1]").unwrap(),
        ":nth-child(2n+1)"
    );
    assert_eq!(
        parameterized_selector("nth-last-[3]").unwrap(),
        ":nth-last-child(3)"
    );
    assert_eq!(
        parameterized_selector("nth-of-type-[odd]").unwrap(),
        ":nth-of-type(odd)"
    );
    assert_eq!(
        parameterized_selector("nth-last-of-type-[even]").unwrap(),
        ":nth-last-of-type(even)"
    );
}

#[test]
fn test_parameterized_aria() {
    assert_eq!(
        parameterized_selector("aria-[sort=ascending]").unwrap(),
        "[aria-sort=ascending]"
    );
    assert_eq!(
        parameterized_selector("aria-busy").unwrap(),
        "[aria-busy=\"true\"]"
    );
}

#[test]
fn test_parameterized_data() {
    assert_eq!(
        parameterized_selector("data-[loading]").unwrap(),
        "[data-loading]"
    );
}

#[test]
fn test_parameterized_in() {
    assert_eq!(
        parameterized_selector("in-[.parent]").unwrap(),
        ":where(.parent)"
    );
}

#[test]
fn test_supports_at_rule() {
    assert_eq!(
        supports_at_rule("supports-[display:grid]").unwrap(),
        "@supports (display:grid)"
    );
    // With underscore → space
    assert_eq!(
        supports_at_rule("supports-[display:_grid]").unwrap(),
        "@supports (display: grid)"
    );
}

#[test]
fn test_underscore_unescape() {
    assert_eq!(
        parameterized_selector("has-[.parent_.child]").unwrap(),
        ":has(.parent .child)"
    );
}

#[test]
fn variant_container_at_rule_with_at_sign() {
    assert_eq!(container_at_rule("@sm").unwrap(), "@container (width >= 24rem)");
    assert_eq!(container_at_rule("@max-sm").unwrap(), "@container (width < 24rem)");
    assert_eq!(container_at_rule("@min-[400px]").unwrap(), "@container (width >= 400px)");
    assert_eq!(container_at_rule("@@sm"), None);
    assert_eq!(container_at_rule("@"), None);
}
