//! The values of Tailwind's default theme variables, for inline output.
use vstd::prelude::*;
use crate::text::opt_str_view;
use crate::text::str_eq;

verus! {

/// The font size of `--text-{size}`.
pub open spec fn text_size_spec(key: Seq<char>) -> Option<Seq<char>> {
    if key == "xs"@ {
        Some("0.75rem"@)
    } else if key == "sm"@ {
        Some("0.875rem"@)
    } else if key == "base"@ {
        Some("1rem"@)
    } else if key == "lg"@ {
        Some("1.125rem"@)
    } else if key == "xl"@ {
        Some("1.25rem"@)
    } else if key == "2xl"@ {
        Some("1.5rem"@)
    } else if key == "3xl"@ {
        Some("1.875rem"@)
    } else if key == "4xl"@ {
        Some("2.25rem"@)
    } else if key == "5xl"@ {
        Some("3rem"@)
    } else if key == "6xl"@ {
        Some("3.75rem"@)
    } else if key == "7xl"@ {
        Some("4.5rem"@)
    } else if key == "8xl"@ {
        Some("6rem"@)
    } else if key == "9xl"@ {
        Some("8rem"@)
    } else {
        None
    }
}

/// The font size of `--text-{size}`.
pub fn text_size(key: &str) -> (r: Option<&'static str>)
    ensures
        opt_str_view(r) == text_size_spec(key@),
{
    if str_eq(key, "xs") {
        Some("0.75rem")
    } else if str_eq(key, "sm") {
        Some("0.875rem")
    } else if str_eq(key, "base") {
        Some("1rem")
    } else if str_eq(key, "lg") {
        Some("1.125rem")
    } else if str_eq(key, "xl") {
        Some("1.25rem")
    } else if str_eq(key, "2xl") {
        Some("1.5rem")
    } else if str_eq(key, "3xl") {
        Some("1.875rem")
    } else if str_eq(key, "4xl") {
        Some("2.25rem")
    } else if str_eq(key, "5xl") {
        Some("3rem")
    } else if str_eq(key, "6xl") {
        Some("3.75rem")
    } else if str_eq(key, "7xl") {
        Some("4.5rem")
    } else if str_eq(key, "8xl") {
        Some("6rem")
    } else if str_eq(key, "9xl") {
        Some("8rem")
    } else {
        None
    }
}

/// The line height of `--text-{size}--line-height`: a ratio to the font size,
/// except for `3xl`, whose line height is `2.25rem`.
pub open spec fn text_line_height_spec(key: Seq<char>) -> Option<Seq<char>> {
    if key == "xs"@ {
        Some("calc(1 / 0.75)"@)
    } else if key == "sm"@ {
        Some("calc(1.25 / 0.875)"@)
    } else if key == "base"@ {
        Some("calc(1.5 / 1)"@)
    } else if key == "lg"@ {
        Some("calc(1.75 / 1.125)"@)
    } else if key == "xl"@ {
        Some("calc(1.75 / 1.25)"@)
    } else if key == "2xl"@ {
        Some("calc(2 / 1.5)"@)
    } else if key == "3xl"@ {
        Some("2.25rem"@)
    } else if key == "4xl"@ {
        Some("calc(2.5 / 2.25)"@)
    } else if key == "5xl"@ {
        Some("1"@)
    } else if key == "6xl"@ {
        Some("1"@)
    } else if key == "7xl"@ {
        Some("1"@)
    } else if key == "8xl"@ {
        Some("1"@)
    } else if key == "9xl"@ {
        Some("1"@)
    } else {
        None
    }
}

/// The line height of `--text-{size}--line-height`: a ratio to the font size,
/// except for `3xl`, whose line height is `2.25rem`.
pub fn text_line_height(key: &str) -> (r: Option<&'static str>)
    ensures
        opt_str_view(r) == text_line_height_spec(key@),
{
    if str_eq(key, "xs") {
        Some("calc(1 / 0.75)")
    } else if str_eq(key, "sm") {
        Some("calc(1.25 / 0.875)")
    } else if str_eq(key, "base") {
        Some("calc(1.5 / 1)")
    } else if str_eq(key, "lg") {
        Some("calc(1.75 / 1.125)")
    } else if str_eq(key, "xl") {
        Some("calc(1.75 / 1.25)")
    } else if str_eq(key, "2xl") {
        Some("calc(2 / 1.5)")
    } else if str_eq(key, "3xl") {
        Some("2.25rem")
    } else if str_eq(key, "4xl") {
        Some("calc(2.5 / 2.25)")
    } else if str_eq(key, "5xl") {
        Some("1")
    } else if str_eq(key, "6xl") {
        Some("1")
    } else if str_eq(key, "7xl") {
        Some("1")
    } else if str_eq(key, "8xl") {
        Some("1")
    } else if str_eq(key, "9xl") {
        Some("1")
    } else {
        None
    }
}

/// The font stack of `--font-{family}`.
pub open spec fn font_family_spec(key: Seq<char>) -> Option<Seq<char>> {
    if key == "sans"@ {
        Some("ui-sans-serif, system-ui, sans-serif, \"Apple Color Emoji\", \"Segoe UI Emoji\""@)
    } else if key == "serif"@ {
        Some("ui-serif, Georgia, Cambria, \"Times New Roman\", Times, serif"@)
    } else if key == "mono"@ {
        Some("ui-monospace, SFMono-Regular, Menlo, Monaco, Consolas, \"Liberation Mono\", monospace"@)
    } else {
        None
    }
}

/// The font stack of `--font-{family}`.
pub fn font_family(key: &str) -> (r: Option<&'static str>)
    ensures
        opt_str_view(r) == font_family_spec(key@),
{
    if str_eq(key, "sans") {
        Some("ui-sans-serif, system-ui, sans-serif, \"Apple Color Emoji\", \"Segoe UI Emoji\"")
    } else if str_eq(key, "serif") {
        Some("ui-serif, Georgia, Cambria, \"Times New Roman\", Times, serif")
    } else if str_eq(key, "mono") {
        Some("ui-monospace, SFMono-Regular, Menlo, Monaco, Consolas, \"Liberation Mono\", monospace")
    } else {
        None
    }
}

/// The blur radius of `--blur-{size}`.
pub open spec fn blur_size_spec(key: Seq<char>) -> Option<Seq<char>> {
    if key == "none"@ {
        Some("0"@)
    } else if key == "sm"@ {
        Some("4px"@)
    } else if key == "DEFAULT"@ {
        Some("8px"@)
    } else if key == "md"@ {
        Some("12px"@)
    } else if key == "lg"@ {
        Some("16px"@)
    } else if key == "xl"@ {
        Some("24px"@)
    } else if key == "2xl"@ {
        Some("40px"@)
    } else if key == "3xl"@ {
        Some("64px"@)
    } else {
        None
    }
}

/// The blur radius of `--blur-{size}`.
pub fn blur_size(key: &str) -> (r: Option<&'static str>)
    ensures
        opt_str_view(r) == blur_size_spec(key@),
{
    if str_eq(key, "none") {
        Some("0")
    } else if str_eq(key, "sm") {
        Some("4px")
    } else if str_eq(key, "DEFAULT") {
        Some("8px")
    } else if str_eq(key, "md") {
        Some("12px")
    } else if str_eq(key, "lg") {
        Some("16px")
    } else if str_eq(key, "xl") {
        Some("24px")
    } else if str_eq(key, "2xl") {
        Some("40px")
    } else if str_eq(key, "3xl") {
        Some("64px")
    } else {
        None
    }
}

} // verus!
