use headwind::context::ClassContext;
use headwind::types::Declaration;

#[test]
fn test_context_basic() {
    let mut ctx = ClassContext::new("my-class".to_string());

    // 写入基础声明（无修饰符）
    ctx.write("", vec![Declaration::new("padding", "1rem")]);

    let css = ctx.to_css("  ");
    assert!(css.contains(".my-class"));
    assert!(css.contains("padding: 1rem"));
}

#[test]
fn test_context_with_modifiers() {
    let mut ctx = ClassContext::new("my-class".to_string());

    // 基础
    ctx.write("", vec![Declaration::new("padding", "1rem")]);

    // hover（modifiers 会从 "hover:" 自动解析）
    ctx.write("hover:", vec![Declaration::new("padding", "2rem")]);

    let css = ctx.to_css("  ");
    assert!(css.contains(".my-class {"));
    // hover is now wrapped in @media (hover: hover)
    assert!(css.contains("@media (hover: hover)"));
    assert!(css.contains(".my-class:hover {"));
}

#[test]
fn test_context_merge_same_modifiers() {
    let mut ctx = ClassContext::new("my-class".to_string());

    // 两个 hover 类（相同的 raw_modifiers 会合并）
    ctx.write("hover:", vec![Declaration::new("padding", "1rem")]);

    ctx.write("hover:", vec![Declaration::new("margin", "0.5rem")]);

    let css = ctx.to_css("  ");

    // 应该只有一个 hover 选择器，包含两个声明
    assert_eq!(css.matches(".my-class:hover").count(), 1);
    assert!(css.contains("padding: 1rem"));
    assert!(css.contains("margin: 0.5rem"));
    // hover is wrapped in @media (hover: hover)
    assert!(css.contains("@media (hover: hover)"));
}
