use headwind::bundler::Bundler;

#[test]
fn bundler_test_bundle_basic() {
    let bundler = Bundler::new();

    let group = bundler.bundle("text-center p-4").unwrap();

    assert_eq!(group.base.len(), 2);
    assert!(group.pseudo_classes.is_empty());
    assert!(group.responsive.is_empty());
}

#[test]
fn test_bundle_with_hover() {
    let bundler = Bundler::new();

    let group = bundler.bundle("text-center hover:text-left").unwrap();

    assert_eq!(group.base.len(), 1);
    assert_eq!(group.pseudo_classes.len(), 1);
    assert!(group.pseudo_classes.contains_key("hover"));
}

#[test]
fn test_bundle_with_responsive() {
    let bundler = Bundler::new();

    let group = bundler.bundle("text-center md:text-right").unwrap();

    assert_eq!(group.base.len(), 1);
    assert_eq!(group.responsive.len(), 1);
    assert!(group.responsive.contains_key("md"));
}

#[test]
fn test_generate_css_basic() {
    let bundler = Bundler::new();

    let group = bundler.bundle("text-center p-4").unwrap();
    let css = bundler.generate_css("my-class", &group, "  ");

    assert!(css.contains(".my-class {"));
    assert!(css.contains("text-align: center;"));
    assert!(css.contains("padding: 1rem;"));
}

#[test]
fn test_generate_css_with_hover() {
    let bundler = Bundler::new();

    let group = bundler.bundle("text-center hover:text-left").unwrap();
    let css = bundler.generate_css("my-class", &group, "  ");

    assert!(css.contains(".my-class {"));
    assert!(css.contains("text-align: center;"));
    // hover is now wrapped in @media (hover: hover)
    assert!(css.contains("@media (hover: hover)"));
    assert!(css.contains(".my-class:hover {"));
    assert!(css.contains("text-align: left;"));
}

#[test]
fn test_generate_css_with_responsive() {
    let bundler = Bundler::new();

    let group = bundler.bundle("text-center md:text-right").unwrap();
    let css = bundler.generate_css("my-class", &group, "  ");

    assert!(css.contains(".my-class {"));
    assert!(css.contains("text-align: center;"));
    assert!(css.contains("@media (width >= 48rem)"));
    assert!(css.contains("text-align: right;"));
}

#[test]
fn test_generate_css_hybrid() {
    let bundler = Bundler::new();

    let group = bundler
        .bundle("text-center hover:text-left p-4")
        .unwrap();
    // The base rule arrives already rendered, as the SWC emitter renders it.
    let base = Ok(".my-class {\n  text-align: center;\n  padding: 1rem;\n}\n".to_string());
    let css = bundler
        .generate_css_hybrid("my-class", &group, "  ", base)
        .unwrap();

    println!("\nHybrid generated CSS:\n{}", css);

    // 验证基础规则（SWC 生成）
    assert!(css.contains("text-align"));
    assert!(css.contains("padding"));

    // 验证伪类规则（字符串生成, wrapped in @media (hover: hover))
    assert!(css.contains("@media (hover: hover)"));
    assert!(css.contains(":hover"));
}

#[test]
fn test_complex_bundle() {
    let bundler = Bundler::new();

    let group = bundler
        .bundle("text-center hover:text-left md:text-right p-4 hover:p-8")
        .unwrap();
    let css = bundler.generate_css("my-class", &group, "  ");

    println!("\n{}", css);

    // 检查基础规则
    assert!(css.contains("text-align: center;"));
    assert!(css.contains("padding: 1rem;"));

    // 检查 hover 规则 (wrapped in @media (hover: hover))
    assert!(css.contains("@media (hover: hover)"));
    assert!(css.contains(".my-class:hover {"));
    assert!(css.contains("text-align: left;"));
    assert!(css.contains("padding: 2rem;"));

    // 检查响应式规则
    assert!(css.contains("@media (width >= 48rem)"));
    assert!(css.contains("text-align: right;"));
}

#[test]
fn test_bundle_to_context_basic() {
    let bundler = Bundler::new();

    let context = bundler
        .bundle_to_context("my-class", "text-center p-4")
        .unwrap();

    assert_eq!(context.class_name, "my-class");

    let css = context.to_css("  ");
    assert!(css.contains(".my-class {"));
    assert!(css.contains("text-align: center;"));
    assert!(css.contains("padding: 1rem;"));
}

#[test]
fn test_bundle_to_context_with_hover() {
    let bundler = Bundler::new();

    let context = bundler
        .bundle_to_context("my-class", "text-center hover:text-left")
        .unwrap();

    let css = context.to_css("  ");

    println!("\nGenerated CSS:\n{}", css);

    assert!(css.contains(".my-class {"));
    assert!(css.contains("text-align: center;"));
    // hover is now wrapped in @media (hover: hover)
    assert!(css.contains("@media (hover: hover)"));
    assert!(css.contains(".my-class:hover {"));
    assert!(css.contains("text-align: left;"));
}

#[test]
fn test_bundle_to_context_with_responsive() {
    let bundler = Bundler::new();

    let context = bundler
        .bundle_to_context("my-class", "p-4 md:p-8")
        .unwrap();

    let css = context.to_css("  ");

    println!("\nGenerated CSS:\n{}", css);

    assert!(css.contains(".my-class {"));
    assert!(css.contains("padding: 1rem;"));
    assert!(css.contains("@media (width >= 48rem)"));
    assert!(css.contains("padding: 2rem;"));
}

#[test]
fn test_bundle_to_context_grouping_optimization() {
    let bundler = Bundler::new();

    // 这些类有相同的 raw_modifiers，应该被分组处理
    let context = bundler
        .bundle_to_context("my-class", "hover:p-4 hover:m-2 hover:text-center")
        .unwrap();

    let css = context.to_css("  ");

    println!("\nGenerated CSS:\n{}", css);

    // 应该生成一个 hover 规则包含所有三个声明
    assert!(css.contains(".my-class:hover {"));
    assert!(css.contains("padding: 1rem;"));
    assert!(css.contains("margin: 0.5rem;"));
    assert!(css.contains("text-align: center;"));
}

#[test]
fn test_bundle_to_css_convenience() {
    let bundler = Bundler::new();

    let css = bundler
        .bundle_to_css("my-class", "p-4 hover:p-8", "  ")
        .unwrap();

    println!("\nGenerated CSS:\n{}", css);

    assert!(css.contains(".my-class {"));
    assert!(css.contains("padding: 1rem;"));
    assert!(css.contains("@media (hover: hover)"));
    assert!(css.contains(".my-class:hover {"));
    assert!(css.contains("padding: 2rem;"));
}

#[test]
fn test_bundle_to_context_complex() {
    let bundler = Bundler::new();

    let context = bundler
        .bundle_to_context(
            "my-class",
            "text-center hover:text-left md:text-right p-4 hover:p-8 md:p-12",
        )
        .unwrap();

    let css = context.to_css("  ");

    println!("\nGenerated CSS:\n{}", css);

    // 基础规则
    assert!(css.contains("text-align: center;"));
    assert!(css.contains("padding: 1rem;"));

    // hover 规则 (wrapped in @media (hover: hover))
    assert!(css.contains("@media (hover: hover)"));
    assert!(css.contains(".my-class:hover {"));
    assert!(css.contains("text-align: left;"));
    assert!(css.contains("padding: 2rem;"));

    // 响应式规则
    assert!(css.contains("@media (width >= 48rem)"));
    assert!(css.contains("text-align: right;"));
    assert!(css.contains("padding: 3rem;"));
}

#[test]
fn bundler_same_modifier_shares_one_entry() {
    let bundler = Bundler::new();
    let group = bundler.bundle("hover:p-4 hover:m-2 focus:p-1 hover:text-center").unwrap();
    assert_eq!(group.pseudo_classes.len(), 2);
    let hover = group.pseudo_classes.get("hover").unwrap();
    assert_eq!(hover.len(), 3);
    assert_eq!(hover[0].property, "padding");
    assert_eq!(hover[1].property, "margin");
    assert_eq!(hover[2].property, "text-align");
    let (first, _) = group.pseudo_classes.entry(0);
    assert_eq!(first, "hover");
}

#[test]
fn bundler_compound_plugins_and_custom_properties() {
    let bundler = Bundler::new();
    let group = bundler.bundle("max-w-md grid-cols-3 bg-(--brand)").unwrap();
    let props: Vec<&str> = group.base.iter().map(|d| d.property.as_str()).collect();
    assert_eq!(props, vec!["max-width", "grid-template-columns", "background"]);
    assert_eq!(group.base[2].value, "var(--brand)");
}

#[test]
fn bundler_reports_parse_errors() {
    let bundler = Bundler::new();
    assert_eq!(bundler.bundle("p-4 w-[13px").unwrap_err(), "解析失败: UnmatchedBracket");
    assert_eq!(
        bundler.bundle("p-4!x").unwrap_err(),
        "解析失败: InvalidFormat(\"Unexpected characters at position 4: 'x'\")"
    );
}

#[test]
fn bundler_root_css_defines_text_size_and_line_height() {
    let css = ".c {\n  font-size: var(--text-3xl);\n  line-height: var(--text-3xl--line-height);\n}\n";
    assert_eq!(
        Bundler::new().generate_root_css(css),
        ":root {\n  --text-3xl: 1.875rem;\n  --text-3xl--line-height: 2.25rem;\n}"
    );
}

#[test]
fn bundler_root_css_reads_var_in_fallback() {
    let css = ".c {\n  font-size: var(--my-size, var(--text-sm));\n}\n";
    assert_eq!(Bundler::new().generate_root_css(css), ":root {\n  --text-sm: 0.875rem;\n}");
}

#[test]
fn bundler_root_css_skips_unknown_variables() {
    assert_eq!(Bundler::new().generate_root_css(".c { width: var(--tw-foo); }"), "");
}

#[test]
fn bundler_hybrid_writes_modifier_rules_as_generate_css() {
    let bundler = Bundler::new();
    let group = bundler
        .bundle("hover:text-left marker:text-red-500 md:hover:p-4 dark:p-2 md:p-8")
        .unwrap();
    assert!(group.base.is_empty());
    let hybrid = bundler.generate_css_hybrid("x", &group, "  ", Ok(String::new())).unwrap();
    assert_eq!(hybrid, bundler.generate_css("x", &group, "  "));
    assert!(hybrid.contains(" *::marker"));
}

#[test]
fn bundler_hybrid_puts_base_before_modifier_rules() {
    let bundler = Bundler::new();
    let group = bundler.bundle("p-4 dark:p-2").unwrap();
    let base = ".x {\n  padding: 1rem;\n}\n".to_string();
    let hybrid = bundler.generate_css_hybrid("x", &group, "  ", Ok(base.clone())).unwrap();
    assert_eq!(hybrid, bundler.generate_css("x", &group, "  "));
    let failed = bundler.generate_css_hybrid("x", &group, "  ", Err("no".to_string()));
    assert_eq!(failed, Err("no".to_string()));
}
