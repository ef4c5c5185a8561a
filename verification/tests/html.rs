use headwind::collector::ClassCollector;
use headwind::html::transform_html_source;
use headwind::types::{ColorMode, CssVariableMode, NamingMode, UnknownClassMode};

fn collector(mode: NamingMode) -> ClassCollector {
    ClassCollector::new(mode, CssVariableMode::Var, UnknownClassMode::Remove, ColorMode::default(), false)
}

#[test]
fn test_html_basic() {
    let mut collector = collector(NamingMode::Hash);
    let html = r#"<div class="p-4 m-2">Hello</div>"#;
    let result = transform_html_source(html, &mut collector);

    assert!(!result.contains("p-4 m-2"));
    assert!(result.contains("class=\"c_"));
    assert!(result.contains(">Hello</div>"));
}

#[test]
fn test_html_single_quotes() {
    let mut collector = collector(NamingMode::Hash);
    let html = "<div class='p-4 m-2'>Hello</div>";
    let result = transform_html_source(html, &mut collector);

    assert!(!result.contains("p-4 m-2"));
    assert!(result.contains("class='c_"));
}

#[test]
fn test_html_multiple_elements() {
    let mut collector = collector(NamingMode::Hash);
    let html = r#"<div class="p-4"><span class="text-center m-2">text</span></div>"#;
    let result = transform_html_source(html, &mut collector);

    assert!(!result.contains("p-4"));
    assert!(!result.contains("text-center m-2"));
    assert_eq!(collector.class_map().len(), 2);
}

#[test]
fn test_html_preserves_non_class_attrs() {
    let mut collector = collector(NamingMode::Hash);
    let html = r#"<div id="main" class="p-4" data-value="test">content</div>"#;
    let result = transform_html_source(html, &mut collector);

    assert!(result.contains("id=\"main\""));
    assert!(result.contains("data-value=\"test\""));
    assert!(!result.contains("\"p-4\""));
}

#[test]
fn test_html_does_not_match_classname() {
    let mut collector = collector(NamingMode::Hash);
    let html = r#"<div className="p-4">content</div>"#;
    let result = transform_html_source(html, &mut collector);

    assert!(result.contains("className=\"p-4\""));
    assert!(collector.class_map().is_empty());
}

#[test]
fn html_readable_exact_output() {
    let mut collector = collector(NamingMode::Readable);
    let html = r#"<p class = "p-4 m-2">a</p><b class="p-4 m-2">b</b>"#;
    let result = transform_html_source(html, &mut collector);
    assert_eq!(result, r#"<p class="p4_m2">a</p><b class="p4_m2">b</b>"#);
    assert_eq!(collector.css_entries().len(), 1);
}

#[test]
fn html_blank_class_attribute_is_kept() {
    let mut collector = collector(NamingMode::Readable);
    let html = r#"<div class="  ">x</div>"#;
    let result = transform_html_source(html, &mut collector);
    assert_eq!(result, html);
    assert!(collector.class_map().is_empty());
}

#[test]
fn html_unterminated_class_value_is_kept() {
    let mut collector = collector(NamingMode::Readable);
    let html = r#"<div class="p-4>x</div>"#;
    let result = transform_html_source(html, &mut collector);
    assert_eq!(result, html);
    assert!(collector.class_map().is_empty());
}
