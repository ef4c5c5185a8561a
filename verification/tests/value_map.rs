use headwind::types::ColorMode;
use headwind::value_map::{get_color_value, get_opacity_value, get_spacing_value, infer_value};

#[test]
fn test_spacing_values() {
    assert_eq!(get_spacing_value("4"), Some("1rem".to_string()));
    assert_eq!(get_spacing_value("8"), Some("2rem".to_string()));
    assert_eq!(get_spacing_value("px"), Some("1px".to_string()));
    assert_eq!(get_spacing_value("auto"), Some("auto".to_string()));
}

#[test]
fn test_spacing_computed() {
    // 半值
    assert_eq!(get_spacing_value("0.5"), Some("0.125rem".to_string()));
    assert_eq!(get_spacing_value("1.5"), Some("0.375rem".to_string()));
    // 零
    assert_eq!(get_spacing_value("0"), Some("0".to_string()));
    // 大值
    assert_eq!(get_spacing_value("96"), Some("24rem".to_string()));
    // 负值不接受
    assert_eq!(get_spacing_value("-1"), None);
}

#[test]
fn test_color_values() {
    assert_eq!(
        get_color_value("black", ColorMode::Hex),
        Some("#000000".into())
    );
    assert_eq!(
        get_color_value("white", ColorMode::Hex),
        Some("#ffffff".into())
    );
    // blue-500 oklch(0.623 0.214 259.815) → 接近 #3b82f6
    assert!(get_color_value("blue-500", ColorMode::Hex).is_some());
    // 新增颜色族
    assert!(get_color_value("orange-500", ColorMode::Hex).is_some());
    assert!(get_color_value("violet-500", ColorMode::Hex).is_some());
    assert!(get_color_value("slate-950", ColorMode::Hex).is_some());
}

#[test]
fn test_opacity_values() {
    assert_eq!(get_opacity_value("50"), Some("0.5".to_string()));
    assert_eq!(get_opacity_value("100"), Some("1".to_string()));
    assert_eq!(get_opacity_value("0"), Some("0".to_string()));
    assert_eq!(get_opacity_value("75"), Some("0.75".to_string()));
}

#[test]
fn test_opacity_computed() {
    // 任意 0-100 整数
    assert_eq!(get_opacity_value("33"), Some("0.33".to_string()));
    assert_eq!(get_opacity_value("5"), Some("0.05".to_string()));
    // 越界
    assert_eq!(get_opacity_value("101"), None);
    // 非数字
    assert_eq!(get_opacity_value("abc"), None);
}

#[test]
fn test_spacing_viewport_units() {
    assert_eq!(get_spacing_value("svh"), Some("100svh".to_string()));
    assert_eq!(get_spacing_value("dvh"), Some("100dvh".to_string()));
    assert_eq!(get_spacing_value("lvh"), Some("100lvh".to_string()));
    assert_eq!(get_spacing_value("svw"), Some("100svw".to_string()));
    assert_eq!(get_spacing_value("dvw"), Some("100dvw".to_string()));
    assert_eq!(get_spacing_value("vw"), Some("100vw".to_string()));
    assert_eq!(get_spacing_value("vh"), Some("100vh".to_string()));
    // vmin/vmax 不在支持列表中
    assert_eq!(get_spacing_value("vmin"), None);
}

#[test]
fn test_infer_value() {
    assert_eq!(infer_value("p", "4", ColorMode::Hex), Some("1rem".to_string()));
    assert_eq!(infer_value("w", "full", ColorMode::Hex), Some("100%".to_string()));
    assert!(infer_value("bg", "blue-500", ColorMode::Hex).is_some());
    assert_eq!(infer_value("opacity", "50", ColorMode::Hex), Some("0.5".to_string()));
    // oklch 模式
    assert_eq!(
        infer_value("text", "blue-500", ColorMode::Oklch),
        Some("oklch(0.623 0.214 259.815)".into())
    );
    // var 模式
    assert_eq!(
        infer_value("text", "blue-500", ColorMode::Var),
        Some("var(--color-blue-500)".into())
    );
}
