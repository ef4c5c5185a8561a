use headwind::transform::{jsx_syntax, parse_jsx_source, js_parse_error_text, JsParseError};
use headwind::transform::{
    try_transform_html, derive_css_module_path, preserve_empty_lines, restore_empty_lines, split_lines, transform_html, CssModulesAccess,
    OutputMode, TransformOptions,
};
use headwind::types::{CssVariableMode, NamingMode, UnknownClassMode};

#[test]
fn test_transform_html_basic() {
    let html = r#"<!DOCTYPE html>
<html>
<body>
    <div class="p-4 text-center">Hello</div>
    <span class="text-red-500 mt-2">World</span>
</body>
</html>"#;

    let result = transform_html(html, TransformOptions::default()).unwrap();

    println!("=== HTML ===\n{}", result.code);
    println!("\n=== CSS ===\n{}", result.css);

    assert!(!result.code.contains("p-4 text-center"));
    assert!(!result.code.contains("text-red-500 mt-2"));
    assert_eq!(result.class_map.len(), 2);
    assert!(result.css.contains("padding"));
}

#[test]
fn test_transform_html_responsive() {
    let html = r#"<div class="p-4 md:p-8 lg:p-12">content</div>"#;

    let result = transform_html(html, TransformOptions::default()).unwrap();

    println!("=== CSS ===\n{}", result.css);

    assert!(result.css.contains("padding: 1rem"));
    assert!(result.css.contains("@media"));
}

#[test]
fn test_derive_css_module_path() {
    assert_eq!(derive_css_module_path("App.tsx"), "./App.module.css");
    assert_eq!(derive_css_module_path("src/components/Button.jsx"), "./Button.module.css");
    assert_eq!(derive_css_module_path("index.ts"), "./index.module.css");
}

#[test]
fn test_element_tree_html() {
    let html = r#"<div class="flex flex-col">
    <h1 class="text-2xl font-bold">Title</h1>
    <p class="text-gray-500">Content</p>
</div>"#;

    let result = transform_html(html, TransformOptions { element_tree: true, ..Default::default() }).unwrap();

    let tree = result.element_tree.as_ref().expect("element_tree should be Some");
    println!("=== HTML Element Tree ===\n{}", tree);

    assert!(tree.contains("- div flex flex-col [ref=e1]"));
    assert!(tree.contains("  - h1 text-2xl font-bold"));
    assert!(tree.contains("  - p text-gray-500"));
}

#[test]
fn transform_html_element_tree_off_by_default() {
    let result = transform_html(r#"<div class="p-4">x</div>"#, TransformOptions::default()).unwrap();
    assert!(result.element_tree.is_none());
}

#[test]
fn transform_html_element_tree_none_without_elements() {
    let result = transform_html("just text", TransformOptions { element_tree: true, ..Default::default() }).unwrap();
    assert!(result.element_tree.is_none());
    assert_eq!(result.code, "just text");
    assert_eq!(result.css, "");
}

#[test]
fn transform_html_readable_exact() {
    let options = TransformOptions {
        naming_mode: NamingMode::Readable,
        css_variables: CssVariableMode::Inline,
        ..Default::default()
    };
    let result = transform_html(r#"<a class="p-4">x</a><b class="p-4">y</b>"#, options).unwrap();
    assert_eq!(result.code, r#"<a class="p4">x</a><b class="p4">y</b>"#);
    assert_eq!(result.class_map.get("p-4").map(|s| s.as_str()), Some("p4"));
    assert_eq!(result.css, ".p4 {\n  padding: 1rem;\n}\n");
}

#[test]
fn transform_html_preserve_unknown() {
    let options = TransformOptions {
        naming_mode: NamingMode::Readable,
        unknown_classes: UnknownClassMode::Preserve,
        ..Default::default()
    };
    let result = transform_html(r#"<a class="js-hook">x</a>"#, options).unwrap();
    assert_eq!(result.code, r#"<a class="js-hook">x</a>"#);
    assert_eq!(result.css, "");
}

#[test]
fn transform_options_default_values() {
    let o = TransformOptions::default();
    assert_eq!(o.naming_mode, NamingMode::Hash);
    assert_eq!(o.css_variables, CssVariableMode::Var);
    assert_eq!(o.unknown_classes, UnknownClassMode::Remove);
    assert!(!o.color_mix);
    assert!(!o.element_tree);
    assert!(matches!(o.output_mode, OutputMode::Global { import_path: None }));
}

#[test]
fn output_mode_constructors() {
    match OutputMode::css_modules() {
        OutputMode::CssModules { binding_name, import_path, access } => {
            assert_eq!(binding_name, "styles");
            assert!(import_path.is_none());
            assert_eq!(access, CssModulesAccess::Dot);
        }
        _ => panic!("expected CSS Modules"),
    }
    match OutputMode::css_modules_bracket() {
        OutputMode::CssModules { access, .. } => assert_eq!(access, CssModulesAccess::Bracket),
        _ => panic!("expected CSS Modules"),
    }
    match OutputMode::css_modules_with_path("./x.module.css") {
        OutputMode::CssModules { import_path, .. } => assert_eq!(import_path.as_deref(), Some("./x.module.css")),
        _ => panic!("expected CSS Modules"),
    }
    assert_eq!(CssModulesAccess::default(), CssModulesAccess::Dot);
}

#[test]
fn derive_css_module_path_edge_cases() {
    assert_eq!(derive_css_module_path("noext"), "./noext.module.css");
    assert_eq!(derive_css_module_path("a/b.c/file.test.tsx"), "./file.test.module.css");
    assert_eq!(derive_css_module_path("dir/"), "./.module.css");
}

#[test]
fn split_lines_like_std() {
    for s in ["", "a", "a\n", "a\r\nb", "a\n\nb\n", "x\r", "\n\n"] {
        let expected: Vec<String> = s.lines().map(|l| l.to_string()).collect();
        assert_eq!(split_lines(s), expected, "input {:?}", s);
    }
}

#[test]
fn preserve_and_restore_empty_lines() {
    let source = "a\n\n  \nb\n\n\n";
    let marked = preserve_empty_lines(source);
    assert_eq!(marked, "a\n// __HEADWIND_EMPTY_LINE__\n// __HEADWIND_EMPTY_LINE__\nb\n\n");
    assert_eq!(restore_empty_lines(&marked), "a\n\n\nb\n");
    assert_eq!(restore_empty_lines("x\n  // __HEADWIND_EMPTY_LINE__  \ny"), "x\n\ny");
}

#[test]
fn try_transform_html_refuses_semantic_and_bad_cuts() {
    let semantic = TransformOptions { naming_mode: NamingMode::Semantic, ..Default::default() };
    assert!(try_transform_html(r#"<a class="p-4">x</a>"#, semantic).is_none());
    let readable = TransformOptions { naming_mode: NamingMode::Readable, ..Default::default() };
    assert!(try_transform_html(r#"<a class="中文中文x">x</a>"#, readable).is_none());
    let readable = TransformOptions { naming_mode: NamingMode::Readable, ..Default::default() };
    let ok = try_transform_html(r#"<a class="p-4">x</a>"#, readable).unwrap();
    assert_eq!(ok.code, r#"<a class="p4">x</a>"#);
}

#[test]
fn transform_jsx_syntax_by_file_name() {
    assert_eq!(jsx_syntax("App.tsx"), (true, true));
    assert_eq!(jsx_syntax("util.ts"), (true, false));
    assert_eq!(jsx_syntax("App.jsx"), (false, false));
    assert_eq!(jsx_syntax("main.js"), (false, false));
}

#[test]
fn transform_parse_jsx_source_gives_module() {
    let source = "export default function App() {\n  return <div className=\"p-4\">Hi</div>;\n}\n";
    let parsed = parse_jsx_source(source, "App.jsx").unwrap();
    assert_eq!(parsed.module.body.len(), 1);
    let tsx = "const f = (x: number): JSX.Element => <span className=\"m-2\">{x}</span>;\n";
    assert!(parse_jsx_source(tsx, "App.tsx").is_ok());
    assert!(parse_jsx_source(tsx, "App.jsx").is_err());
}

#[test]
fn transform_parse_jsx_source_reports_errors() {
    let err = parse_jsx_source("const = ;", "App.jsx").err().unwrap();
    assert!(err.starts_with("解析错误: ") || err.starts_with("解析警告: "));
    assert!(err.len() > "解析错误: ".len());
}

#[test]
fn transform_js_parse_error_text_prefixes() {
    assert_eq!(js_parse_error_text(JsParseError::Fatal("E".to_string())), "解析错误: E");
    assert_eq!(js_parse_error_text(JsParseError::Recovered("W".to_string())), "解析警告: W");
}
