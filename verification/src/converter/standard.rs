//! Declarations of standard values for the plugins whose property depends on
//! the value, such as `text` (alignment, wrapping, size or color) and `bg`.
use vstd::prelude::*;
use crate::converter::arbitrary::{bracket_inner, extract_bracket_value};
use crate::converter::{
    decl_list, number_text, number_text_of, one_decl, opt_decl_view, opt_decls_view, single,
};
use crate::num::{decimal_u128, parse_u32, u32_spec};
use crate::palette::palette_color;
use crate::text::opt_str_view;
use crate::text::{
    after_prefix, cat2, cat3, chars_of, decimal, is_prefix, is_suffix, owned, replace_char,
    replace_char_str, str_eq, strip_prefix,
};
use crate::theme_values::{
    blur_size, blur_size_spec, font_family, font_family_spec, text_line_height,
    text_line_height_spec, text_size, text_size_spec,
};
use crate::types::{ColorMode, DeclView, Declaration};
use crate::value_map::{get_color_value, get_spacing_value, inferred_value, infer_value, spacing_value};
use crate::text::opt_string_view;

verus! {

/// The declaration of a background keyword: size, attachment, repeat, position, clip, origin or image.
pub open spec fn bg_keyword(value: Seq<char>) -> Option<DeclView> {
    if value == "auto"@ || value == "contain"@ || value == "cover"@ {
        Some(("background-size"@, value))
    } else if value == "fixed"@ || value == "local"@ || value == "scroll"@ {
        Some(("background-attachment"@, value))
    } else if value == "repeat"@ || value == "no-repeat"@ || value == "repeat-x"@ || value == "repeat-y"@ {
        Some(("background-repeat"@, value))
    } else if value == "repeat-round"@ {
        Some(("background-repeat"@, "round"@))
    } else if value == "repeat-space"@ {
        Some(("background-repeat"@, "space"@))
    } else if value == "top"@ || value == "bottom"@ || value == "left"@ || value == "right"@ || value == "center"@ {
        Some(("background-position"@, value))
    } else if value == "top-left"@ {
        Some(("background-position"@, "top left"@))
    } else if value == "top-right"@ {
        Some(("background-position"@, "top right"@))
    } else if value == "bottom-left"@ {
        Some(("background-position"@, "bottom left"@))
    } else if value == "bottom-right"@ {
        Some(("background-position"@, "bottom right"@))
    } else if value == "clip-border"@ {
        Some(("background-clip"@, "border-box"@))
    } else if value == "clip-content"@ {
        Some(("background-clip"@, "content-box"@))
    } else if value == "clip-padding"@ {
        Some(("background-clip"@, "padding-box"@))
    } else if value == "clip-text"@ {
        Some(("background-clip"@, "text"@))
    } else if value == "origin-border"@ {
        Some(("background-origin"@, "border-box"@))
    } else if value == "origin-content"@ {
        Some(("background-origin"@, "content-box"@))
    } else if value == "origin-padding"@ {
        Some(("background-origin"@, "padding-box"@))
    } else if value == "none"@ {
        Some(("background-image"@, "none"@))
    } else if value == "radial"@ {
        Some(("background-image"@, "radial-gradient(in oklab, var(--tw-gradient-stops))"@))
    } else if value == "conic"@ {
        Some(("background-image"@, "conic-gradient(in oklab, var(--tw-gradient-stops))"@))
    } else {
        None
    }
}

fn bg_keyword_of(value: &str) -> (r: Option<Declaration>)
    ensures
        opt_decl_view(r) == bg_keyword(value@),
{
    if str_eq(value, "auto") || str_eq(value, "contain") || str_eq(value, "cover") {
        Some(Declaration::new("background-size", value))
    } else if str_eq(value, "fixed") || str_eq(value, "local") || str_eq(value, "scroll") {
        Some(Declaration::new("background-attachment", value))
    } else if str_eq(value, "repeat") || str_eq(value, "no-repeat") || str_eq(value, "repeat-x") || str_eq(value, "repeat-y") {
        Some(Declaration::new("background-repeat", value))
    } else if str_eq(value, "repeat-round") {
        Some(Declaration::new("background-repeat", "round"))
    } else if str_eq(value, "repeat-space") {
        Some(Declaration::new("background-repeat", "space"))
    } else if str_eq(value, "top") || str_eq(value, "bottom") || str_eq(value, "left") || str_eq(value, "right") || str_eq(value, "center") {
        Some(Declaration::new("background-position", value))
    } else if str_eq(value, "top-left") {
        Some(Declaration::new("background-position", "top left"))
    } else if str_eq(value, "top-right") {
        Some(Declaration::new("background-position", "top right"))
    } else if str_eq(value, "bottom-left") {
        Some(Declaration::new("background-position", "bottom left"))
    } else if str_eq(value, "bottom-right") {
        Some(Declaration::new("background-position", "bottom right"))
    } else if str_eq(value, "clip-border") {
        Some(Declaration::new("background-clip", "border-box"))
    } else if str_eq(value, "clip-content") {
        Some(Declaration::new("background-clip", "content-box"))
    } else if str_eq(value, "clip-padding") {
        Some(Declaration::new("background-clip", "padding-box"))
    } else if str_eq(value, "clip-text") {
        Some(Declaration::new("background-clip", "text"))
    } else if str_eq(value, "origin-border") {
        Some(Declaration::new("background-origin", "border-box"))
    } else if str_eq(value, "origin-content") {
        Some(Declaration::new("background-origin", "content-box"))
    } else if str_eq(value, "origin-padding") {
        Some(Declaration::new("background-origin", "padding-box"))
    } else if str_eq(value, "none") {
        Some(Declaration::new("background-image", "none"))
    } else if str_eq(value, "radial") {
        Some(Declaration::new("background-image", "radial-gradient(in oklab, var(--tw-gradient-stops))"))
    } else if str_eq(value, "conic") {
        Some(Declaration::new("background-image", "conic-gradient(in oklab, var(--tw-gradient-stops))"))
    } else {
        None
    }
}

/// The direction of a linear gradient side or corner.
pub open spec fn gradient_direction(dir: Seq<char>) -> Option<Seq<char>> {
    if dir == "t"@ {
        Some("to top"@)
    } else if dir == "b"@ {
        Some("to bottom"@)
    } else if dir == "l"@ {
        Some("to left"@)
    } else if dir == "r"@ {
        Some("to right"@)
    } else if dir == "tl"@ {
        Some("to top left"@)
    } else if dir == "tr"@ {
        Some("to top right"@)
    } else if dir == "bl"@ {
        Some("to bottom left"@)
    } else if dir == "br"@ {
        Some("to bottom right"@)
    } else {
        None
    }
}

/// The direction of a linear gradient side or corner.
fn gradient_direction_of(dir: &str) -> (r: Option<&'static str>)
    ensures
        opt_str_view(r) == gradient_direction(dir@),
{
    if str_eq(dir, "t") {
        Some("to top")
    } else if str_eq(dir, "b") {
        Some("to bottom")
    } else if str_eq(dir, "l") {
        Some("to left")
    } else if str_eq(dir, "r") {
        Some("to right")
    } else if str_eq(dir, "tl") {
        Some("to top left")
    } else if str_eq(dir, "tr") {
        Some("to top right")
    } else if str_eq(dir, "bl") {
        Some("to bottom left")
    } else if str_eq(dir, "br") {
        Some("to bottom right")
    } else {
        None
    }
}

/// The declaration of a font weight name.
pub open spec fn font_weight(value: Seq<char>) -> Option<DeclView> {
    if value == "thin"@ {
        Some(("font-weight"@, "100"@))
    } else if value == "extralight"@ {
        Some(("font-weight"@, "200"@))
    } else if value == "light"@ {
        Some(("font-weight"@, "300"@))
    } else if value == "normal"@ {
        Some(("font-weight"@, "400"@))
    } else if value == "medium"@ {
        Some(("font-weight"@, "500"@))
    } else if value == "semibold"@ {
        Some(("font-weight"@, "600"@))
    } else if value == "bold"@ {
        Some(("font-weight"@, "700"@))
    } else if value == "extrabold"@ {
        Some(("font-weight"@, "800"@))
    } else if value == "black"@ {
        Some(("font-weight"@, "900"@))
    } else {
        None
    }
}

fn font_weight_of(value: &str) -> (r: Option<Declaration>)
    ensures
        opt_decl_view(r) == font_weight(value@),
{
    if str_eq(value, "thin") {
        Some(Declaration::new("font-weight", "100"))
    } else if str_eq(value, "extralight") {
        Some(Declaration::new("font-weight", "200"))
    } else if str_eq(value, "light") {
        Some(Declaration::new("font-weight", "300"))
    } else if str_eq(value, "normal") {
        Some(Declaration::new("font-weight", "400"))
    } else if str_eq(value, "medium") {
        Some(Declaration::new("font-weight", "500"))
    } else if str_eq(value, "semibold") {
        Some(Declaration::new("font-weight", "600"))
    } else if str_eq(value, "bold") {
        Some(Declaration::new("font-weight", "700"))
    } else if str_eq(value, "extrabold") {
        Some(Declaration::new("font-weight", "800"))
    } else if str_eq(value, "black") {
        Some(Declaration::new("font-weight", "900"))
    } else {
        None
    }
}

/// The declaration of a `content` keyword.
pub open spec fn content_keyword(value: Seq<char>) -> Option<DeclView> {
    if value == "none"@ {
        Some(("content"@, "none"@))
    } else if value == "start"@ {
        Some(("align-content"@, "flex-start"@))
    } else if value == "end"@ {
        Some(("align-content"@, "flex-end"@))
    } else if value == "around"@ {
        Some(("align-content"@, "space-around"@))
    } else if value == "between"@ {
        Some(("align-content"@, "space-between"@))
    } else if value == "evenly"@ {
        Some(("align-content"@, "space-evenly"@))
    } else {
        None
    }
}

fn content_keyword_of(value: &str) -> (r: Option<Declaration>)
    ensures
        opt_decl_view(r) == content_keyword(value@),
{
    if str_eq(value, "none") {
        Some(Declaration::new("content", "none"))
    } else if str_eq(value, "start") {
        Some(Declaration::new("align-content", "flex-start"))
    } else if str_eq(value, "end") {
        Some(Declaration::new("align-content", "flex-end"))
    } else if str_eq(value, "around") {
        Some(Declaration::new("align-content", "space-around"))
    } else if str_eq(value, "between") {
        Some(Declaration::new("align-content", "space-between"))
    } else if str_eq(value, "evenly") {
        Some(Declaration::new("align-content", "space-evenly"))
    } else {
        None
    }
}

/// The declaration of a border style or collapse keyword.
pub open spec fn border_keyword(value: Seq<char>) -> Option<DeclView> {
    if value == "solid"@ || value == "dashed"@ || value == "dotted"@ || value == "double"@ || value == "hidden"@ || value == "none"@ {
        Some(("border-style"@, value))
    } else if value == "collapse"@ || value == "separate"@ {
        Some(("border-collapse"@, value))
    } else {
        None
    }
}

fn border_keyword_of(value: &str) -> (r: Option<Declaration>)
    ensures
        opt_decl_view(r) == border_keyword(value@),
{
    if str_eq(value, "solid") || str_eq(value, "dashed") || str_eq(value, "dotted") || str_eq(value, "double") || str_eq(value, "hidden") || str_eq(value, "none") {
        Some(Declaration::new("border-style", value))
    } else if str_eq(value, "collapse") || str_eq(value, "separate") {
        Some(Declaration::new("border-collapse", value))
    } else {
        None
    }
}

/// The declaration of a text decoration style or thickness keyword.
pub open spec fn decoration_keyword(value: Seq<char>) -> Option<DeclView> {
    if value == "solid"@ || value == "dashed"@ || value == "dotted"@ || value == "double"@ || value == "wavy"@ {
        Some(("text-decoration-style"@, value))
    } else if value == "auto"@ || value == "from-font"@ {
        Some(("text-decoration-thickness"@, value))
    } else {
        None
    }
}

fn decoration_keyword_of(value: &str) -> (r: Option<Declaration>)
    ensures
        opt_decl_view(r) == decoration_keyword(value@),
{
    if str_eq(value, "solid") || str_eq(value, "dashed") || str_eq(value, "dotted") || str_eq(value, "double") || str_eq(value, "wavy") {
        Some(Declaration::new("text-decoration-style", value))
    } else if str_eq(value, "auto") || str_eq(value, "from-font") {
        Some(Declaration::new("text-decoration-thickness", value))
    } else {
        None
    }
}

/// The declaration of an outline style keyword.
pub open spec fn outline_style(value: Seq<char>) -> Option<DeclView> {
    if value == "solid"@ || value == "dashed"@ || value == "dotted"@ || value == "double"@ || value == "none"@ {
        Some(("outline-style"@, value))
    } else {
        None
    }
}

fn outline_style_of(value: &str) -> (r: Option<Declaration>)
    ensures
        opt_decl_view(r) == outline_style(value@),
{
    if str_eq(value, "solid") || str_eq(value, "dashed") || str_eq(value, "dotted") || str_eq(value, "double") || str_eq(value, "none") {
        Some(Declaration::new("outline-style", value))
    } else {
        None
    }
}

/// The declaration of a list style keyword.
pub open spec fn list_keyword(value: Seq<char>) -> Option<DeclView> {
    if value == "disc"@ || value == "decimal"@ || value == "none"@ {
        Some(("list-style-type"@, value))
    } else if value == "inside"@ || value == "outside"@ {
        Some(("list-style-position"@, value))
    } else if value == "image-none"@ {
        Some(("list-style-image"@, "none"@))
    } else {
        None
    }
}

fn list_keyword_of(value: &str) -> (r: Option<Declaration>)
    ensures
        opt_decl_view(r) == list_keyword(value@),
{
    if str_eq(value, "disc") || str_eq(value, "decimal") || str_eq(value, "none") {
        Some(Declaration::new("list-style-type", value))
    } else if str_eq(value, "inside") || str_eq(value, "outside") {
        Some(Declaration::new("list-style-position", value))
    } else if str_eq(value, "image-none") {
        Some(Declaration::new("list-style-image", "none"))
    } else {
        None
    }
}

/// The declaration of a scroll snap keyword.
pub open spec fn snap_keyword(value: Seq<char>) -> Option<DeclView> {
    if value == "none"@ {
        Some(("scroll-snap-type"@, "none"@))
    } else if value == "x"@ {
        Some(("scroll-snap-type"@, "x var(--tw-scroll-snap-strictness)"@))
    } else if value == "y"@ {
        Some(("scroll-snap-type"@, "y var(--tw-scroll-snap-strictness)"@))
    } else if value == "both"@ {
        Some(("scroll-snap-type"@, "both var(--tw-scroll-snap-strictness)"@))
    } else if value == "start"@ || value == "end"@ || value == "center"@ {
        Some(("scroll-snap-align"@, value))
    } else if value == "align-none"@ {
        Some(("scroll-snap-align"@, "none"@))
    } else if value == "normal"@ || value == "always"@ {
        Some(("scroll-snap-stop"@, value))
    } else if value == "mandatory"@ || value == "proximity"@ {
        Some(("--tw-scroll-snap-strictness"@, value))
    } else {
        None
    }
}

fn snap_keyword_of(value: &str) -> (r: Option<Declaration>)
    ensures
        opt_decl_view(r) == snap_keyword(value@),
{
    if str_eq(value, "none") {
        Some(Declaration::new("scroll-snap-type", "none"))
    } else if str_eq(value, "x") {
        Some(Declaration::new("scroll-snap-type", "x var(--tw-scroll-snap-strictness)"))
    } else if str_eq(value, "y") {
        Some(Declaration::new("scroll-snap-type", "y var(--tw-scroll-snap-strictness)"))
    } else if str_eq(value, "both") {
        Some(Declaration::new("scroll-snap-type", "both var(--tw-scroll-snap-strictness)"))
    } else if str_eq(value, "start") || str_eq(value, "end") || str_eq(value, "center") {
        Some(Declaration::new("scroll-snap-align", value))
    } else if str_eq(value, "align-none") {
        Some(Declaration::new("scroll-snap-align", "none"))
    } else if str_eq(value, "normal") || str_eq(value, "always") {
        Some(Declaration::new("scroll-snap-stop", value))
    } else if str_eq(value, "mandatory") || str_eq(value, "proximity") {
        Some(Declaration::new("--tw-scroll-snap-strictness", value))
    } else {
        None
    }
}

/// The declaration of a mask keyword.
pub open spec fn mask_keyword(value: Seq<char>) -> Option<DeclView> {
    if value == "auto"@ || value == "contain"@ || value == "cover"@ {
        Some(("mask-size"@, value))
    } else if value == "top"@ || value == "bottom"@ || value == "left"@ || value == "right"@ || value == "center"@ {
        Some(("mask-position"@, value))
    } else if value == "top-left"@ {
        Some(("mask-position"@, "top left"@))
    } else if value == "top-right"@ {
        Some(("mask-position"@, "top right"@))
    } else if value == "bottom-left"@ {
        Some(("mask-position"@, "bottom left"@))
    } else if value == "bottom-right"@ {
        Some(("mask-position"@, "bottom right"@))
    } else if value == "repeat"@ || value == "no-repeat"@ || value == "repeat-x"@ || value == "repeat-y"@ {
        Some(("mask-repeat"@, value))
    } else if value == "repeat-round"@ {
        Some(("mask-repeat"@, "round"@))
    } else if value == "repeat-space"@ {
        Some(("mask-repeat"@, "space"@))
    } else if value == "add"@ || value == "subtract"@ || value == "intersect"@ || value == "exclude"@ {
        Some(("mask-composite"@, value))
    } else if value == "alpha"@ || value == "luminance"@ {
        Some(("mask-mode"@, value))
    } else if value == "match"@ {
        Some(("mask-mode"@, "match-source"@))
    } else if value == "no-clip"@ {
        Some(("mask-clip"@, "no-clip"@))
    } else {
        None
    }
}

fn mask_keyword_of(value: &str) -> (r: Option<Declaration>)
    ensures
        opt_decl_view(r) == mask_keyword(value@),
{
    if str_eq(value, "auto") || str_eq(value, "contain") || str_eq(value, "cover") {
        Some(Declaration::new("mask-size", value))
    } else if str_eq(value, "top") || str_eq(value, "bottom") || str_eq(value, "left") || str_eq(value, "right") || str_eq(value, "center") {
        Some(Declaration::new("mask-position", value))
    } else if str_eq(value, "top-left") {
        Some(Declaration::new("mask-position", "top left"))
    } else if str_eq(value, "top-right") {
        Some(Declaration::new("mask-position", "top right"))
    } else if str_eq(value, "bottom-left") {
        Some(Declaration::new("mask-position", "bottom left"))
    } else if str_eq(value, "bottom-right") {
        Some(Declaration::new("mask-position", "bottom right"))
    } else if str_eq(value, "repeat") || str_eq(value, "no-repeat") || str_eq(value, "repeat-x") || str_eq(value, "repeat-y") {
        Some(Declaration::new("mask-repeat", value))
    } else if str_eq(value, "repeat-round") {
        Some(Declaration::new("mask-repeat", "round"))
    } else if str_eq(value, "repeat-space") {
        Some(Declaration::new("mask-repeat", "space"))
    } else if str_eq(value, "add") || str_eq(value, "subtract") || str_eq(value, "intersect") || str_eq(value, "exclude") {
        Some(Declaration::new("mask-composite", value))
    } else if str_eq(value, "alpha") || str_eq(value, "luminance") {
        Some(Declaration::new("mask-mode", value))
    } else if str_eq(value, "match") {
        Some(Declaration::new("mask-mode", "match-source"))
    } else if str_eq(value, "no-clip") {
        Some(Declaration::new("mask-clip", "no-clip"))
    } else {
        None
    }
}

/// The reference box of a mask clip or origin name.
pub open spec fn mask_box(name: Seq<char>) -> Option<Seq<char>> {
    if name == "border"@ {
        Some("border-box"@)
    } else if name == "content"@ {
        Some("content-box"@)
    } else if name == "padding"@ {
        Some("padding-box"@)
    } else if name == "fill"@ {
        Some("fill-box"@)
    } else if name == "stroke"@ {
        Some("stroke-box"@)
    } else if name == "view"@ {
        Some("view-box"@)
    } else {
        None
    }
}

/// The reference box of a mask clip or origin name.
fn mask_box_of(name: &str) -> (r: Option<&'static str>)
    ensures
        opt_str_view(r) == mask_box(name@),
{
    if str_eq(name, "border") {
        Some("border-box")
    } else if str_eq(name, "content") {
        Some("content-box")
    } else if str_eq(name, "padding") {
        Some("padding-box")
    } else if str_eq(name, "fill") {
        Some("fill-box")
    } else if str_eq(name, "stroke") {
        Some("stroke-box")
    } else if str_eq(name, "view") {
        Some("view-box")
    } else {
        None
    }
}

/// The declaration of a scale keyword.
pub open spec fn scale_keyword(value: Seq<char>) -> Option<DeclView> {
    if value == "none"@ {
        Some(("scale"@, "none"@))
    } else if value == "3d"@ {
        Some(("scale"@, "var(--tw-scale-x) var(--tw-scale-y) var(--tw-scale-z)"@))
    } else {
        None
    }
}

fn scale_keyword_of(value: &str) -> (r: Option<Declaration>)
    ensures
        opt_decl_view(r) == scale_keyword(value@),
{
    if str_eq(value, "none") {
        Some(Declaration::new("scale", "none"))
    } else if str_eq(value, "3d") {
        Some(Declaration::new("scale", "var(--tw-scale-x) var(--tw-scale-y) var(--tw-scale-z)"))
    } else {
        None
    }
}

/// The declaration of a transform keyword.
pub open spec fn transform_keyword(value: Seq<char>) -> Option<DeclView> {
    if value == "none"@ {
        Some(("transform"@, "none"@))
    } else if value == "gpu"@ {
        Some(("transform"@, "translateZ(0) var(--tw-rotate-x) var(--tw-rotate-y) var(--tw-rotate-z) var(--tw-skew-x) var(--tw-skew-y)"@))
    } else if value == "cpu"@ {
        Some(("transform"@, "var(--tw-rotate-x) var(--tw-rotate-y) var(--tw-rotate-z) var(--tw-skew-x) var(--tw-skew-y)"@))
    } else if value == "flat"@ {
        Some(("transform-style"@, "flat"@))
    } else if value == "3d"@ {
        Some(("transform-style"@, "preserve-3d"@))
    } else {
        None
    }
}

fn transform_keyword_of(value: &str) -> (r: Option<Declaration>)
    ensures
        opt_decl_view(r) == transform_keyword(value@),
{
    if str_eq(value, "none") {
        Some(Declaration::new("transform", "none"))
    } else if str_eq(value, "gpu") {
        Some(Declaration::new("transform", "translateZ(0) var(--tw-rotate-x) var(--tw-rotate-y) var(--tw-rotate-z) var(--tw-skew-x) var(--tw-skew-y)"))
    } else if str_eq(value, "cpu") {
        Some(Declaration::new("transform", "var(--tw-rotate-x) var(--tw-rotate-y) var(--tw-rotate-z) var(--tw-skew-x) var(--tw-skew-y)"))
    } else if str_eq(value, "flat") {
        Some(Declaration::new("transform-style", "flat"))
    } else if str_eq(value, "3d") {
        Some(Declaration::new("transform-style", "preserve-3d"))
    } else {
        None
    }
}

/// The declaration of a word break keyword.
pub open spec fn word_break_keyword(value: Seq<char>) -> Option<DeclView> {
    if value == "all"@ {
        Some(("word-break"@, "break-all"@))
    } else if value == "keep"@ {
        Some(("word-break"@, "keep-all"@))
    } else if value == "normal"@ {
        Some(("word-break"@, "normal"@))
    } else {
        None
    }
}

fn word_break_keyword_of(value: &str) -> (r: Option<Declaration>)
    ensures
        opt_decl_view(r) == word_break_keyword(value@),
{
    if str_eq(value, "all") {
        Some(Declaration::new("word-break", "break-all"))
    } else if str_eq(value, "keep") {
        Some(Declaration::new("word-break", "keep-all"))
    } else if str_eq(value, "normal") {
        Some(Declaration::new("word-break", "normal"))
    } else {
        None
    }
}

/// The declaration of a divider style keyword.
pub open spec fn divide_keyword(value: Seq<char>) -> Option<DeclView> {
    if value == "solid"@ || value == "dashed"@ || value == "dotted"@ || value == "double"@ || value == "hidden"@ || value == "none"@ {
        Some(("border-style"@, value))
    } else {
        None
    }
}

fn divide_keyword_of(value: &str) -> (r: Option<Declaration>)
    ensures
        opt_decl_view(r) == divide_keyword(value@),
{
    if str_eq(value, "solid") || str_eq(value, "dashed") || str_eq(value, "dotted") || str_eq(value, "double") || str_eq(value, "hidden") || str_eq(value, "none") {
        Some(Declaration::new("border-style", value))
    } else {
        None
    }
}

// ── text ────────────────────────────────────────────────────────────────────

/// Whether `v` is a `text-align` keyword.
pub open spec fn is_text_align(v: Seq<char>) -> bool {
    v == "left"@ || v == "center"@ || v == "right"@ || v == "justify"@ || v == "start"@ || v == "end"@
}

/// Whether `v` is a `text-wrap` keyword.
pub open spec fn is_text_wrap(v: Seq<char>) -> bool {
    v == "nowrap"@ || v == "wrap"@ || v == "balance"@ || v == "pretty"@
}

/// Whether `v` names a font size of the type scale.
pub open spec fn is_text_size_name(v: Seq<char>) -> bool {
    ||| v == "xs"@ || v == "sm"@ || v == "base"@ || v == "lg"@ || v == "xl"@
    ||| v == "2xl"@ || v == "3xl"@ || v == "4xl"@ || v == "5xl"@
    ||| v == "6xl"@ || v == "7xl"@ || v == "8xl"@ || v == "9xl"@
}

fn text_size_name(v: &str) -> (r: bool)
    ensures
        r == is_text_size_name(v@),
{
    str_eq(v, "xs") || str_eq(v, "sm") || str_eq(v, "base") || str_eq(v, "lg") || str_eq(v, "xl")
        || str_eq(v, "2xl") || str_eq(v, "3xl") || str_eq(v, "4xl") || str_eq(v, "5xl")
        || str_eq(v, "6xl") || str_eq(v, "7xl") || str_eq(v, "8xl") || str_eq(v, "9xl")
}

/// The line height that an alpha gives a font size: `[v]` is `v` with `_` as
/// spaces, `(v)` is `var(v)`, digits `n` are `n` spacing units, and anything
/// else is written as it is.
pub open spec fn alpha_line_height(a: Seq<char>) -> Seq<char> {
    if a.len() >= 2 && a[0] == '[' && a[a.len() - 1] == ']' {
        replace_char(a.subrange(1, a.len() - 1), '_', " "@)
    } else if a.len() >= 2 && a[0] == '(' && a[a.len() - 1] == ')' {
        "var("@ + a.subrange(1, a.len() - 1) + ")"@
    } else if crate::num::all_digits(a) {
        "calc(var(--spacing) * "@ + a + ")"@
    } else {
        a
    }
}

fn alpha_line_height_of(a: &str) -> (r: String)
    ensures
        r@ == alpha_line_height(a@),
{
    let v = chars_of(a);
    let n = v.len();
    if n >= 2 && v[0] == '[' && v[n - 1] == ']' {
        let inner = a.substring_char(1, n - 1);
        replace_char_str(inner, '_', " ")
    } else if n >= 2 && v[0] == '(' && v[n - 1] == ')' {
        let inner = a.substring_char(1, n - 1);
        cat3("var(", inner, ")")
    } else {
        let mut all = true;
        let mut i: usize = 0;
        while i < n
            invariant
                i <= n == v@.len(),
                v@ == a@,
                all == (forall|j: int| 0 <= j < i ==> crate::text::is_digit(#[trigger] v@[j])),
            decreases n - i,
        {
            if !crate::text::char_is_digit(v[i]) {
                all = false;
            }
            i = i + 1;
        }
        if all {
            cat3("calc(var(--spacing) * ", a, ")")
        } else {
            owned(a)
        }
    }
}

/// The declarations of `text-{value}`: alignment, wrapping, a font size with
/// its line height, or else a color.
pub open spec fn text_decls(
    uv: bool,
    mode: ColorMode,
    value: Seq<char>,
    alpha: Option<Seq<char>>,
) -> Option<Seq<DeclView>> {
    if is_text_align(value) {
        Some(one_decl("text-align"@, value))
    } else if is_text_wrap(value) {
        Some(one_decl("text-wrap"@, value))
    } else if is_text_size_name(value) {
        let fs = if uv {
            Some("var(--text-"@ + value + ")"@)
        } else {
            text_size_spec(value)
        };
        let lh = match alpha {
            Some(a) => Some(alpha_line_height(a)),
            None => if uv {
                Some("var(--text-"@ + value + "--line-height)"@)
            } else {
                text_line_height_spec(value)
            },
        };
        match (fs, lh) {
            (Some(f), Some(l)) => Some(seq![("font-size"@, f), ("line-height"@, l)]),
            _ => None,
        }
    } else {
        with_prop("color"@, inferred_value("text"@, value, mode))
    }
}

/// One declaration of `p` with `v`, when there is a `v`.
pub open spec fn with_prop(p: Seq<char>, v: Option<Seq<char>>) -> Option<Seq<DeclView>> {
    match v {
        Some(x) => Some(one_decl(p, x)),
        None => None,
    }
}

fn with_prop_of(p: &str, v: Option<String>) -> (r: Option<Vec<Declaration>>)
    ensures
        opt_decls_view(r) == with_prop(p@, opt_string_view(v)),
{
    match v {
        Some(x) => Some(decl_list(p, x.as_str())),
        None => None,
    }
}

fn text_decls_of(uv: bool, mode: ColorMode, value: &str, alpha: &Option<String>) -> (r: Option<Vec<Declaration>>)
    ensures
        opt_decls_view(r) == text_decls(uv, mode, value@, opt_string_view(*alpha)),
{
    if str_eq(value, "left") || str_eq(value, "center") || str_eq(value, "right")
        || str_eq(value, "justify") || str_eq(value, "start") || str_eq(value, "end") {
        Some(decl_list("text-align", value))
    } else if str_eq(value, "nowrap") || str_eq(value, "wrap") || str_eq(value, "balance")
        || str_eq(value, "pretty") {
        Some(decl_list("text-wrap", value))
    } else if text_size_name(value) {
        let fs = if uv {
            Some(cat3("var(--text-", value, ")"))
        } else {
            match text_size(value) {
                Some(s) => Some(owned(s)),
                None => None,
            }
        };
        let lh = match alpha {
            Some(a) => Some(alpha_line_height_of(a.as_str())),
            None => if uv {
                Some(cat3("var(--text-", value, "--line-height)"))
            } else {
                match text_line_height(value) {
                    Some(s) => Some(owned(s)),
                    None => None,
                }
            },
        };
        match (fs, lh) {
            (Some(f), Some(l)) => {
                let mut out: Vec<Declaration> = Vec::new();
                out.push(Declaration::from_parts(owned("font-size"), f));
                out.push(Declaration::from_parts(owned("line-height"), l));
                assert(crate::types::decls_view(out@) =~= seq![("font-size"@, f@), ("line-height"@, l@)]);
                Some(out)
            },
            _ => None,
        }
    } else {
        with_prop_of("color", infer_value("text", value, mode))
    }
}

// ── bg ──────────────────────────────────────────────────────────────────────

/// An angle in degrees, with a `-` in front for a negative class.
pub open spec fn signed_deg(negative: bool, n: Seq<char>) -> Seq<char> {
    if negative {
        "-"@ + n + "deg"@
    } else {
        n + "deg"@
    }
}

fn signed_deg_of(negative: bool, n: &str) -> (r: String)
    ensures
        r@ == signed_deg(negative, n@),
{
    if negative {
        cat3("-", n, "deg")
    } else {
        cat2(n, "deg")
    }
}

/// The declarations of `bg-{value}` for blend modes and gradients.
pub open spec fn bg_pattern(value: Seq<char>, negative: bool) -> Option<Seq<DeclView>> {
    if is_prefix("blend-"@, value) {
        Some(one_decl("background-blend-mode"@, after_prefix("blend-"@, value)))
    } else if is_prefix("linear-to-"@, value) || is_prefix("gradient-to-"@, value) {
        let dir = if is_prefix("linear-to-"@, value) {
            after_prefix("linear-to-"@, value)
        } else {
            after_prefix("gradient-to-"@, value)
        };
        match gradient_direction(dir) {
            Some(d) => Some(
                one_decl("background-image"@, "linear-gradient("@ + d + ", var(--tw-gradient-stops))"@),
            ),
            None => None,
        }
    } else if is_prefix("linear-"@, value) {
        let rest = after_prefix("linear-"@, value);
        match bracket_inner(rest) {
            Some(arb) => Some(
                one_decl("background-image"@, "linear-gradient(var(--tw-gradient-stops, "@ + arb + "))"@),
            ),
            None => match number_text(rest) {
                Some(n) => Some(
                    one_decl(
                        "background-image"@,
                        "linear-gradient("@ + signed_deg(negative, n) + " in oklab, var(--tw-gradient-stops))"@,
                    ),
                ),
                None => None,
            },
        }
    } else if is_prefix("conic-"@, value) {
        let rest = after_prefix("conic-"@, value);
        match bracket_inner(rest) {
            Some(arb) => Some(one_decl("background-image"@, arb)),
            None => match number_text(rest) {
                Some(n) => Some(
                    one_decl(
                        "background-image"@,
                        "conic-gradient(from "@ + signed_deg(negative, n) + " in oklab, var(--tw-gradient-stops))"@,
                    ),
                ),
                None => None,
            },
        }
    } else if is_prefix("radial-"@, value) {
        match bracket_inner(after_prefix("radial-"@, value)) {
            Some(arb) => Some(
                one_decl("background-image"@, "radial-gradient(var(--tw-gradient-stops, "@ + arb + "))"@),
            ),
            None => None,
        }
    } else {
        None
    }
}

/// The declarations of `bg-{value}` for the keywords and patterns that are not colors.
pub open spec fn bg_decls(value: Seq<char>, negative: bool) -> Option<Seq<DeclView>> {
    match bg_keyword(value) {
        Some(d) => Some(seq![d]),
        None => bg_pattern(value, negative),
    }
}

fn bg_pattern_of(value: &str, negative: bool) -> (r: Option<Vec<Declaration>>)
    ensures
        opt_decls_view(r) == bg_pattern(value@, negative),
{
    if let Some(mode) = strip_prefix(value, "blend-") {
        return Some(decl_list("background-blend-mode", mode));
    }
    let dir = match strip_prefix(value, "linear-to-") {
        Some(d) => Some(d),
        None => strip_prefix(value, "gradient-to-"),
    };
    if let Some(d) = dir {
        return match gradient_direction_of(d) {
            Some(direction) => {
                let v = cat3("linear-gradient(", direction, ", var(--tw-gradient-stops))");
                Some(decl_list("background-image", v.as_str()))
            },
            None => None,
        };
    }
    if let Some(rest) = strip_prefix(value, "linear-") {
        if let Some(arb) = extract_bracket_value(rest) {
            let v = cat3("linear-gradient(var(--tw-gradient-stops, ", arb, "))");
            return Some(decl_list("background-image", v.as_str()));
        }
        return match number_text_of(rest) {
            Some(n) => {
                let deg = signed_deg_of(negative, n.as_str());
                let v = cat3("linear-gradient(", deg.as_str(), " in oklab, var(--tw-gradient-stops))");
                Some(decl_list("background-image", v.as_str()))
            },
            None => None,
        };
    }
    if let Some(rest) = strip_prefix(value, "conic-") {
        if let Some(arb) = extract_bracket_value(rest) {
            return Some(decl_list("background-image", arb));
        }
        return match number_text_of(rest) {
            Some(n) => {
                let deg = signed_deg_of(negative, n.as_str());
                let v = cat3("conic-gradient(from ", deg.as_str(), " in oklab, var(--tw-gradient-stops))");
                Some(decl_list("background-image", v.as_str()))
            },
            None => None,
        };
    }
    if let Some(rest) = strip_prefix(value, "radial-") {
        if let Some(arb) = extract_bracket_value(rest) {
            let v = cat3("radial-gradient(var(--tw-gradient-stops, ", arb, "))");
            return Some(decl_list("background-image", v.as_str()));
        }
    }
    None
}

fn bg_decls_of(value: &str, negative: bool) -> (r: Option<Vec<Declaration>>)
    ensures
        opt_decls_view(r) == bg_decls(value@, negative),
{
    match bg_keyword_of(value) {
        Some(d) => single(Some(d)),
        None => bg_pattern_of(value, negative),
    }
}

// ── font and content ────────────────────────────────────────────────────────

/// The declarations of `font-{value}`: a family, a weight or a stretch.
pub open spec fn font_decls(uv: bool, value: Seq<char>) -> Option<Seq<DeclView>> {
    if value == "sans"@ || value == "serif"@ || value == "mono"@ {
        if uv {
            Some(one_decl("font-family"@, "var(--font-"@ + value + ")"@))
        } else {
            with_prop("font-family"@, font_family_spec(value))
        }
    } else {
        match font_weight(value) {
            Some(d) => Some(seq![d]),
            None => if is_prefix("stretch-"@, value) {
                Some(one_decl("font-stretch"@, after_prefix("stretch-"@, value)))
            } else {
                None
            },
        }
    }
}

fn font_decls_of(uv: bool, value: &str) -> (r: Option<Vec<Declaration>>)
    ensures
        opt_decls_view(r) == font_decls(uv, value@),
{
    if str_eq(value, "sans") || str_eq(value, "serif") || str_eq(value, "mono") {
        if uv {
            let v = cat3("var(--font-", value, ")");
            Some(decl_list("font-family", v.as_str()))
        } else {
            match font_family(value) {
                Some(f) => Some(decl_list("font-family", f)),
                None => None,
            }
        }
    } else {
        match font_weight_of(value) {
            Some(d) => single(Some(d)),
            None => match strip_prefix(value, "stretch-") {
                Some(s) => Some(decl_list("font-stretch", s)),
                None => None,
            },
        }
    }
}

/// The declarations of `content-{value}`: `content: none` or an `align-content` value.
pub open spec fn content_decls(value: Seq<char>) -> Option<Seq<DeclView>> {
    match content_keyword(value) {
        Some(d) => Some(seq![d]),
        None => Some(one_decl("align-content"@, value)),
    }
}

fn content_decls_of(value: &str) -> (r: Option<Vec<Declaration>>)
    ensures
        opt_decls_view(r) == content_decls(value@),
{
    match content_keyword_of(value) {
        Some(d) => single(Some(d)),
        None => Some(decl_list("align-content", value)),
    }
}

// ── borders, decorations, outlines and strokes ──────────────────────────────

/// The negation of a number's text: the sign is dropped or added.
pub open spec fn negated(t: Seq<char>) -> Seq<char> {
    if t.len() > 0 && t[0] == '-' {
        t.subrange(1, t.len() as int)
    } else {
        "-"@ + t
    }
}

fn negated_of(t: &str) -> (r: String)
    ensures
        r@ == negated(t@),
{
    let v = chars_of(t);
    if v.len() > 0 && v[0] == '-' {
        owned(t.substring_char(1, v.len()))
    } else {
        cat2("-", t)
    }
}

/// The declarations of `border-{value}`: a style, a collapse mode, a color or a
/// width in pixels.
pub open spec fn border_decls(mode: ColorMode, value: Seq<char>, negative: bool) -> Option<Seq<DeclView>> {
    match border_keyword(value) {
        Some(d) => Some(seq![d]),
        None => match palette_color(value, mode) {
            Some(c) => Some(one_decl("border-color"@, c)),
            None => match number_text(value) {
                Some(n) => Some(
                    one_decl("border-width"@, (if negative { negated(n) } else { n }) + "px"@),
                ),
                None => None,
            },
        },
    }
}

fn border_decls_of(mode: ColorMode, value: &str, negative: bool) -> (r: Option<Vec<Declaration>>)
    ensures
        opt_decls_view(r) == border_decls(mode, value@, negative),
{
    match border_keyword_of(value) {
        Some(d) => single(Some(d)),
        None => match get_color_value(value, mode) {
            Some(c) => Some(decl_list("border-color", c.as_str())),
            None => match number_text_of(value) {
                Some(n) => {
                    let t = if negative { negated_of(n.as_str()) } else { n };
                    let v = cat2(t.as_str(), "px");
                    Some(decl_list("border-width", v.as_str()))
                },
                None => None,
            },
        },
    }
}

/// The declarations of `decoration-{value}`: a style, a thickness or a color.
pub open spec fn decoration_decls(mode: ColorMode, value: Seq<char>) -> Option<Seq<DeclView>> {
    match decoration_keyword(value) {
        Some(d) => Some(seq![d]),
        None => with_prop("text-decoration-color"@, palette_color(value, mode)),
    }
}

fn decoration_decls_of(mode: ColorMode, value: &str) -> (r: Option<Vec<Declaration>>)
    ensures
        opt_decls_view(r) == decoration_decls(mode, value@),
{
    match decoration_keyword_of(value) {
        Some(d) => single(Some(d)),
        None => with_prop_of("text-decoration-color", get_color_value(value, mode)),
    }
}

/// A `u32` numeral's value followed by `px`.
pub open spec fn pixels(value: Seq<char>) -> Option<Seq<char>> {
    match u32_spec(value) {
        Some(n) => Some(decimal(n) + "px"@),
        None => None,
    }
}

fn pixels_of(value: &str) -> (r: Option<String>)
    ensures
        opt_string_view(r) == pixels(value@),
{
    match parse_u32(value) {
        Some(n) => {
            let d = decimal_u128(n as u128);
            Some(cat2(d.as_str(), "px"))
        },
        None => None,
    }
}

/// The declarations of `outline-{value}`: a style, the hidden outline, a color
/// or a width in pixels.
pub open spec fn outline_decls(mode: ColorMode, value: Seq<char>) -> Option<Seq<DeclView>> {
    match outline_style(value) {
        Some(d) => Some(seq![d]),
        None => if value == "hidden"@ {
            Some(seq![("outline"@, "2px solid transparent"@), ("outline-offset"@, "2px"@)])
        } else {
            match palette_color(value, mode) {
                Some(c) => Some(one_decl("outline-color"@, c)),
                None => with_prop("outline-width"@, pixels(value)),
            }
        },
    }
}

fn outline_decls_of(mode: ColorMode, value: &str) -> (r: Option<Vec<Declaration>>)
    ensures
        opt_decls_view(r) == outline_decls(mode, value@),
{
    match outline_style_of(value) {
        Some(d) => single(Some(d)),
        None => if str_eq(value, "hidden") {
            let mut out: Vec<Declaration> = Vec::new();
            out.push(Declaration::new("outline", "2px solid transparent"));
            out.push(Declaration::new("outline-offset", "2px"));
            assert(crate::types::decls_view(out@) =~= seq![("outline"@, "2px solid transparent"@), ("outline-offset"@, "2px"@)]);
            Some(out)
        } else {
            match get_color_value(value, mode) {
                Some(c) => Some(decl_list("outline-color", c.as_str())),
                None => with_prop_of("outline-width", pixels_of(value)),
            }
        },
    }
}

/// The declarations of `stroke-{value}`: a color or a width.
pub open spec fn stroke_decls(mode: ColorMode, value: Seq<char>) -> Option<Seq<DeclView>> {
    match palette_color(value, mode) {
        Some(c) => Some(one_decl("stroke"@, c)),
        None => match u32_spec(value) {
            Some(n) => Some(one_decl("stroke-width"@, decimal(n))),
            None => None,
        },
    }
}

fn stroke_decls_of(mode: ColorMode, value: &str) -> (r: Option<Vec<Declaration>>)
    ensures
        opt_decls_view(r) == stroke_decls(mode, value@),
{
    match get_color_value(value, mode) {
        Some(c) => Some(decl_list("stroke", c.as_str())),
        None => match parse_u32(value) {
            Some(n) => {
                let d = decimal_u128(n as u128);
                Some(decl_list("stroke-width", d.as_str()))
            },
            None => None,
        },
    }
}

// ── shadows and rings ───────────────────────────────────────────────────────

/// Whether `v` names a box shadow size.
pub open spec fn is_shadow_size(v: Seq<char>) -> bool {
    v == "2xs"@ || v == "xs"@ || v == "sm"@ || v == "md"@ || v == "lg"@ || v == "xl"@ || v == "2xl"@
}

/// The declarations of `shadow-{value}`: a named shadow, no shadow, or a shadow color.
pub open spec fn shadow_decls(mode: ColorMode, value: Seq<char>) -> Option<Seq<DeclView>> {
    if is_shadow_size(value) {
        Some(one_decl("box-shadow"@, "var(--shadow-"@ + value + ")"@))
    } else if value == "none"@ {
        Some(one_decl("box-shadow"@, "0 0 #0000"@))
    } else {
        with_prop("--tw-shadow-color"@, palette_color(value, mode))
    }
}

fn shadow_decls_of(mode: ColorMode, value: &str) -> (r: Option<Vec<Declaration>>)
    ensures
        opt_decls_view(r) == shadow_decls(mode, value@),
{
    if str_eq(value, "2xs") || str_eq(value, "xs") || str_eq(value, "sm") || str_eq(value, "md")
        || str_eq(value, "lg") || str_eq(value, "xl") || str_eq(value, "2xl") {
        let v = cat3("var(--shadow-", value, ")");
        Some(decl_list("box-shadow", v.as_str()))
    } else if str_eq(value, "none") {
        Some(decl_list("box-shadow", "0 0 #0000"))
    } else {
        with_prop_of("--tw-shadow-color", get_color_value(value, mode))
    }
}

/// The declarations of `inset-shadow-{value}`.
pub open spec fn inset_shadow_decls(mode: ColorMode, value: Seq<char>) -> Option<Seq<DeclView>> {
    if value == "2xs"@ || value == "xs"@ || value == "sm"@ {
        Some(one_decl("box-shadow"@, "var(--inset-shadow-"@ + value + ")"@))
    } else if value == "none"@ {
        Some(one_decl("box-shadow"@, "inset 0 0 #0000"@))
    } else {
        with_prop("--tw-inset-shadow-color"@, palette_color(value, mode))
    }
}

fn inset_shadow_decls_of(mode: ColorMode, value: &str) -> (r: Option<Vec<Declaration>>)
    ensures
        opt_decls_view(r) == inset_shadow_decls(mode, value@),
{
    if str_eq(value, "2xs") || str_eq(value, "xs") || str_eq(value, "sm") {
        let v = cat3("var(--inset-shadow-", value, ")");
        Some(decl_list("box-shadow", v.as_str()))
    } else if str_eq(value, "none") {
        Some(decl_list("box-shadow", "inset 0 0 #0000"))
    } else {
        with_prop_of("--tw-inset-shadow-color", get_color_value(value, mode))
    }
}

/// The declarations of `ring-{value}` (`inset` for `inset-ring`): a width or a color.
pub open spec fn ring_decls(inset: bool, mode: ColorMode, value: Seq<char>) -> Option<Seq<DeclView>> {
    match pixels(value) {
        Some(px) => if inset {
            Some(one_decl("--tw-inset-ring-shadow"@, "inset 0 0 0 "@ + px))
        } else {
            Some(one_decl("--tw-ring-shadow"@, "0 0 0 "@ + px))
        },
        None => if inset {
            with_prop("--tw-inset-ring-color"@, palette_color(value, mode))
        } else {
            with_prop("--tw-ring-color"@, palette_color(value, mode))
        },
    }
}

fn ring_decls_of(inset: bool, mode: ColorMode, value: &str) -> (r: Option<Vec<Declaration>>)
    ensures
        opt_decls_view(r) == ring_decls(inset, mode, value@),
{
    match pixels_of(value) {
        Some(px) => if inset {
            let v = cat2("inset 0 0 0 ", px.as_str());
            Some(decl_list("--tw-inset-ring-shadow", v.as_str()))
        } else {
            let v = cat2("0 0 0 ", px.as_str());
            Some(decl_list("--tw-ring-shadow", v.as_str()))
        },
        None => if inset {
            with_prop_of("--tw-inset-ring-color", get_color_value(value, mode))
        } else {
            with_prop_of("--tw-ring-color", get_color_value(value, mode))
        },
    }
}

// ── lists, objects, blending and perspective ────────────────────────────────

/// The declarations of `object-{value}`: a fit keyword, or else a position.
pub open spec fn object_decls(value: Seq<char>) -> Option<Seq<DeclView>> {
    if value == "contain"@ || value == "cover"@ || value == "fill"@ || value == "none"@ || value == "scale-down"@ {
        Some(one_decl("object-fit"@, value))
    } else {
        Some(one_decl("object-position"@, replace_char(value, '-', " "@)))
    }
}

fn object_decls_of(value: &str) -> (r: Option<Vec<Declaration>>)
    ensures
        opt_decls_view(r) == object_decls(value@),
{
    if str_eq(value, "contain") || str_eq(value, "cover") || str_eq(value, "fill")
        || str_eq(value, "none") || str_eq(value, "scale-down") {
        Some(decl_list("object-fit", value))
    } else {
        let p = replace_char_str(value, '-', " ");
        Some(decl_list("object-position", p.as_str()))
    }
}

/// One declaration of `p` with what follows `prefix` in `value`, when `value`
/// starts with it; `spaced` writes its `-` as spaces.
pub open spec fn prefixed_decls(prefix: Seq<char>, p: Seq<char>, spaced: bool, value: Seq<char>) -> Option<Seq<DeclView>> {
    if is_prefix(prefix, value) {
        let rest = after_prefix(prefix, value);
        Some(one_decl(p, if spaced { replace_char(rest, '-', " "@) } else { rest }))
    } else {
        None
    }
}

fn prefixed_decls_of(prefix: &str, p: &str, spaced: bool, value: &str) -> (r: Option<Vec<Declaration>>)
    ensures
        opt_decls_view(r) == prefixed_decls(prefix@, p@, spaced, value@),
{
    match strip_prefix(value, prefix) {
        Some(rest) => if spaced {
            let s = replace_char_str(rest, '-', " ");
            Some(decl_list(p, s.as_str()))
        } else {
            Some(decl_list(p, rest))
        },
        None => None,
    }
}

// ── masks ───────────────────────────────────────────────────────────────────

/// The declarations of `mask-{value}`.
pub open spec fn mask_decls(value: Seq<char>) -> Option<Seq<DeclView>> {
    match mask_keyword(value) {
        Some(d) => Some(seq![d]),
        None => if is_prefix("clip-"@, value) {
            with_prop("mask-clip"@, mask_box(after_prefix("clip-"@, value)))
        } else if is_prefix("origin-"@, value) {
            with_prop("mask-origin"@, mask_box(after_prefix("origin-"@, value)))
        } else if is_prefix("type-"@, value) {
            Some(one_decl("mask-type"@, after_prefix("type-"@, value)))
        } else {
            None
        },
    }
}

fn static_prop(p: &str, v: Option<&'static str>) -> (r: Option<Vec<Declaration>>)
    ensures
        opt_decls_view(r) == with_prop(p@, opt_str_view(v)),
{
    match v {
        Some(x) => Some(decl_list(p, x)),
        None => None,
    }
}

fn mask_decls_of(value: &str) -> (r: Option<Vec<Declaration>>)
    ensures
        opt_decls_view(r) == mask_decls(value@),
{
    match mask_keyword_of(value) {
        Some(d) => single(Some(d)),
        None => if let Some(c) = strip_prefix(value, "clip-") {
            static_prop("mask-clip", mask_box_of(c))
        } else if let Some(o) = strip_prefix(value, "origin-") {
            static_prop("mask-origin", mask_box_of(o))
        } else if let Some(t) = strip_prefix(value, "type-") {
            Some(decl_list("mask-type", t))
        } else {
            None
        },
    }
}

// ── transforms and filters ──────────────────────────────────────────────────

/// The `translate` value of `{plugin}-{value}`: a spacing value, negated for a
/// negative class, on the plugin's axes.
pub open spec fn translate_decls(plugin: Seq<char>, value: Seq<char>, negative: bool) -> Option<Seq<DeclView>> {
    if value == "none"@ {
        Some(one_decl("translate"@, "none"@))
    } else {
        match spacing_value(value) {
            Some(s) => {
                let f = if negative { "-"@ + s } else { s };
                Some(one_decl("translate"@, translate_axes(plugin, f)))
            },
            None => None,
        }
    }
}

/// The `translate` value that moves by `f` on a plugin's axes.
pub open spec fn translate_axes(plugin: Seq<char>, f: Seq<char>) -> Seq<char> {
    if plugin == "translate-x"@ {
        f + " var(--tw-translate-y)"@
    } else if plugin == "translate-y"@ {
        "var(--tw-translate-x) "@ + f
    } else if plugin == "translate-z"@ {
        "var(--tw-translate-x) var(--tw-translate-y) "@ + f
    } else {
        f + " "@ + f
    }
}

fn translate_decls_of(plugin: &str, value: &str, negative: bool) -> (r: Option<Vec<Declaration>>)
    ensures
        opt_decls_view(r) == translate_decls(plugin@, value@, negative),
{
    if str_eq(value, "none") {
        return Some(decl_list("translate", "none"));
    }
    match get_spacing_value(value) {
        Some(s) => {
            let f = if negative { cat2("-", s.as_str()) } else { s };
            let t = if str_eq(plugin, "translate-x") {
                cat2(f.as_str(), " var(--tw-translate-y)")
            } else if str_eq(plugin, "translate-y") {
                cat2("var(--tw-translate-x) ", f.as_str())
            } else if str_eq(plugin, "translate-z") {
                cat2("var(--tw-translate-x) var(--tw-translate-y) ", f.as_str())
            } else {
                cat3(f.as_str(), " ", f.as_str())
            };
            Some(decl_list("translate", t.as_str()))
        },
        None => None,
    }
}

/// The blur of `{plugin}-{value}` in the property `p`: a theme variable, or the
/// theme's size inline.
pub open spec fn blur_decls(uv: bool, p: Seq<char>, value: Seq<char>) -> Option<Seq<DeclView>> {
    if uv {
        Some(one_decl(p, "blur(var(--blur-"@ + value + "))"@))
    } else {
        match blur_size_spec(value) {
            Some(s) => Some(one_decl(p, "blur("@ + s + ")"@)),
            None => None,
        }
    }
}

fn blur_decls_of(uv: bool, p: &str, value: &str) -> (r: Option<Vec<Declaration>>)
    ensures
        opt_decls_view(r) == blur_decls(uv, p@, value@),
{
    if uv {
        let v = cat3("blur(var(--blur-", value, "))");
        Some(decl_list(p, v.as_str()))
    } else {
        match blur_size(value) {
            Some(s) => {
                let v = cat3("blur(", s, ")");
                Some(decl_list(p, v.as_str()))
            },
            None => None,
        }
    }
}

/// One declaration of `p` with `v` when `value` is `key`.
pub open spec fn keyed_decl(key: Seq<char>, p: Seq<char>, v: Seq<char>, value: Seq<char>) -> Option<Seq<DeclView>> {
    if value == key {
        Some(one_decl(p, v))
    } else {
        None
    }
}

fn keyed_decl_of(key: &str, p: &str, v: &str, value: &str) -> (r: Option<Vec<Declaration>>)
    ensures
        opt_decls_view(r) == keyed_decl(key@, p@, v@, value@),
{
    if str_eq(value, key) {
        Some(decl_list(p, v))
    } else {
        None
    }
}

/// The declarations of `line-clamp-none`.
pub open spec fn line_clamp_none() -> Seq<DeclView> {
    seq![
        ("overflow"@, "visible"@),
        ("display"@, "block"@),
        ("-webkit-box-orient"@, "horizontal"@),
        ("-webkit-line-clamp"@, "unset"@),
    ]
}

fn line_clamp_decls_of(value: &str) -> (r: Option<Vec<Declaration>>)
    ensures
        opt_decls_view(r) == (if value@ == "none"@ { Some(line_clamp_none()) } else { None }),
{
    if str_eq(value, "none") {
        let mut out: Vec<Declaration> = Vec::new();
        out.push(Declaration::new("overflow", "visible"));
        out.push(Declaration::new("display", "block"));
        out.push(Declaration::new("-webkit-box-orient", "horizontal"));
        out.push(Declaration::new("-webkit-line-clamp", "unset"));
        assert(crate::types::decls_view(out@) =~= line_clamp_none());
        Some(out)
    } else {
        None
    }
}

/// The declarations of `aspect-{value}`.
pub open spec fn aspect_decls(uv: bool, value: Seq<char>) -> Option<Seq<DeclView>> {
    if value == "auto"@ {
        Some(one_decl("aspect-ratio"@, "auto"@))
    } else if value == "square"@ {
        Some(one_decl("aspect-ratio"@, "1 / 1"@))
    } else if value == "video"@ {
        Some(one_decl("aspect-ratio"@, if uv { "var(--aspect-video)"@ } else { "16 / 9"@ }))
    } else {
        None
    }
}

fn aspect_decls_of(uv: bool, value: &str) -> (r: Option<Vec<Declaration>>)
    ensures
        opt_decls_view(r) == aspect_decls(uv, value@),
{
    if str_eq(value, "auto") {
        Some(decl_list("aspect-ratio", "auto"))
    } else if str_eq(value, "square") {
        Some(decl_list("aspect-ratio", "1 / 1"))
    } else if str_eq(value, "video") {
        Some(decl_list("aspect-ratio", if uv { "var(--aspect-video)" } else { "16 / 9" }))
    } else {
        None
    }
}

/// The declarations of `leading-{value}`: `none`, or a number of spacing units.
pub open spec fn leading_decls(value: Seq<char>) -> Option<Seq<DeclView>> {
    if value == "none"@ {
        Some(one_decl("line-height"@, "1"@))
    } else {
        match u32_spec(value) {
            Some(n) => Some(one_decl("line-height"@, "calc(var(--spacing) * "@ + decimal(n) + ")"@)),
            None => None,
        }
    }
}

fn leading_decls_of(value: &str) -> (r: Option<Vec<Declaration>>)
    ensures
        opt_decls_view(r) == leading_decls(value@),
{
    if str_eq(value, "none") {
        Some(decl_list("line-height", "1"))
    } else {
        match parse_u32(value) {
            Some(n) => {
                let d = decimal_u128(n as u128);
                let v = cat3("calc(var(--spacing) * ", d.as_str(), ")");
                Some(decl_list("line-height", v.as_str()))
            },
            None => None,
        }
    }
}

/// The declarations of a keyword table's entry.
pub open spec fn table_decls(d: Option<DeclView>) -> Option<Seq<DeclView>> {
    match d {
        Some(x) => Some(seq![x]),
        None => None,
    }
}

// ── dispatch ────────────────────────────────────────────────────────────────

/// The declarations of a standard value for the plugins whose property depends
/// on the value; `None` lets the plugin's own property take the value.
pub open spec fn complex_standard(
    uv: bool,
    mode: ColorMode,
    plugin: Seq<char>,
    value: Seq<char>,
    negative: bool,
    alpha: Option<Seq<char>>,
) -> Option<Seq<DeclView>> {
    if plugin == "text"@ {
        text_decls(uv, mode, value, alpha)
    } else if plugin == "bg"@ {
        bg_decls(value, negative)
    } else if plugin == "font"@ {
        font_decls(uv, value)
    } else if plugin == "content"@ {
        content_decls(value)
    } else if plugin == "border"@ {
        border_decls(mode, value, negative)
    } else if plugin == "decoration"@ {
        decoration_decls(mode, value)
    } else if plugin == "outline"@ {
        outline_decls(mode, value)
    } else if plugin == "stroke"@ {
        stroke_decls(mode, value)
    } else if plugin == "shadow"@ {
        shadow_decls(mode, value)
    } else if plugin == "inset-shadow"@ {
        inset_shadow_decls(mode, value)
    } else if plugin == "ring"@ {
        ring_decls(false, mode, value)
    } else if plugin == "inset-ring"@ {
        ring_decls(true, mode, value)
    } else {
        complex_standard_rest(uv, mode, plugin, value, negative)
    }
}

/// The remaining plugins of [`complex_standard`].
pub open spec fn complex_standard_rest(
    uv: bool,
    mode: ColorMode,
    plugin: Seq<char>,
    value: Seq<char>,
    negative: bool,
) -> Option<Seq<DeclView>> {
    if plugin == "list"@ {
        table_decls(list_keyword(value))
    } else if plugin == "object"@ {
        object_decls(value)
    } else if plugin == "mix"@ {
        prefixed_decls("blend-"@, "mix-blend-mode"@, false, value)
    } else if plugin == "perspective"@ {
        prefixed_decls("origin-"@, "perspective-origin"@, true, value)
    } else if plugin == "snap"@ {
        table_decls(snap_keyword(value))
    } else if plugin == "mask"@ {
        mask_decls(value)
    } else if plugin == "translate"@ || plugin == "translate-x"@ || plugin == "translate-y"@ || plugin == "translate-z"@ {
        translate_decls(plugin, value, negative)
    } else if plugin == "scale"@ {
        table_decls(scale_keyword(value))
    } else if plugin == "transform"@ {
        table_decls(transform_keyword(value))
    } else if plugin == "blur"@ {
        blur_decls(uv, "filter"@, value)
    } else if plugin == "backdrop-blur"@ {
        blur_decls(uv, "backdrop-filter"@, value)
    } else if plugin == "backdrop"@ {
        keyed_decl("filter-none"@, "backdrop-filter"@, "none"@, value)
    } else if plugin == "filter"@ {
        keyed_decl("none"@, "filter"@, "none"@, value)
    } else if plugin == "underline"@ {
        keyed_decl("offset-auto"@, "text-underline-offset"@, "auto"@, value)
    } else if plugin == "line-clamp"@ {
        if value == "none"@ { Some(line_clamp_none()) } else { None }
    } else if plugin == "break"@ {
        table_decls(word_break_keyword(value))
    } else if plugin == "aspect"@ {
        aspect_decls(uv, value)
    } else if plugin == "rotate"@ {
        keyed_decl("none"@, "rotate"@, "none"@, value)
    } else if plugin == "divide"@ {
        table_decls(divide_keyword(value))
    } else if plugin == "leading"@ {
        leading_decls(value)
    } else if plugin == "from"@ {
        with_prop("--tw-gradient-from"@, palette_color(value, mode))
    } else if plugin == "via"@ {
        with_prop("--tw-gradient-via"@, palette_color(value, mode))
    } else if plugin == "to"@ {
        with_prop("--tw-gradient-to"@, palette_color(value, mode))
    } else {
        None
    }
}

fn table_decls_of(d: Option<Declaration>) -> (r: Option<Vec<Declaration>>)
    ensures
        opt_decls_view(r) == table_decls(opt_decl_view(d)),
{
    single(d)
}

/// The declarations of a standard value for the plugins whose property depends
/// on the value.
pub fn build_complex_standard(
    uv: bool,
    mode: ColorMode,
    plugin: &str,
    value: &str,
    negative: bool,
    alpha: &Option<String>,
) -> (r: Option<Vec<Declaration>>)
    ensures
        opt_decls_view(r) == complex_standard(uv, mode, plugin@, value@, negative, opt_string_view(*alpha)),
{
    if str_eq(plugin, "text") {
        text_decls_of(uv, mode, value, alpha)
    } else if str_eq(plugin, "bg") {
        bg_decls_of(value, negative)
    } else if str_eq(plugin, "font") {
        font_decls_of(uv, value)
    } else if str_eq(plugin, "content") {
        content_decls_of(value)
    } else if str_eq(plugin, "border") {
        border_decls_of(mode, value, negative)
    } else if str_eq(plugin, "decoration") {
        decoration_decls_of(mode, value)
    } else if str_eq(plugin, "outline") {
        outline_decls_of(mode, value)
    } else if str_eq(plugin, "stroke") {
        stroke_decls_of(mode, value)
    } else if str_eq(plugin, "shadow") {
        shadow_decls_of(mode, value)
    } else if str_eq(plugin, "inset-shadow") {
        inset_shadow_decls_of(mode, value)
    } else if str_eq(plugin, "ring") {
        ring_decls_of(false, mode, value)
    } else if str_eq(plugin, "inset-ring") {
        ring_decls_of(true, mode, value)
    } else {
        complex_standard_rest_of(uv, mode, plugin, value, negative)
    }
}

fn complex_standard_rest_of(uv: bool, mode: ColorMode, plugin: &str, value: &str, negative: bool) -> (r: Option<Vec<Declaration>>)
    ensures
        opt_decls_view(r) == complex_standard_rest(uv, mode, plugin@, value@, negative),
{
    if str_eq(plugin, "list") {
        table_decls_of(list_keyword_of(value))
    } else if str_eq(plugin, "object") {
        object_decls_of(value)
    } else if str_eq(plugin, "mix") {
        prefixed_decls_of("blend-", "mix-blend-mode", false, value)
    } else if str_eq(plugin, "perspective") {
        prefixed_decls_of("origin-", "perspective-origin", true, value)
    } else if str_eq(plugin, "snap") {
        table_decls_of(snap_keyword_of(value))
    } else if str_eq(plugin, "mask") {
        mask_decls_of(value)
    } else if str_eq(plugin, "translate") || str_eq(plugin, "translate-x") || str_eq(plugin, "translate-y")
        || str_eq(plugin, "translate-z") {
        translate_decls_of(plugin, value, negative)
    } else if str_eq(plugin, "scale") {
        table_decls_of(scale_keyword_of(value))
    } else if str_eq(plugin, "transform") {
        table_decls_of(transform_keyword_of(value))
    } else if str_eq(plugin, "blur") {
        blur_decls_of(uv, "filter", value)
    } else if str_eq(plugin, "backdrop-blur") {
        blur_decls_of(uv, "backdrop-filter", value)
    } else if str_eq(plugin, "backdrop") {
        keyed_decl_of("filter-none", "backdrop-filter", "none", value)
    } else if str_eq(plugin, "filter") {
        keyed_decl_of("none", "filter", "none", value)
    } else if str_eq(plugin, "underline") {
        keyed_decl_of("offset-auto", "text-underline-offset", "auto", value)
    } else if str_eq(plugin, "line-clamp") {
        line_clamp_decls_of(value)
    } else if str_eq(plugin, "break") {
        table_decls_of(word_break_keyword_of(value))
    } else if str_eq(plugin, "aspect") {
        aspect_decls_of(uv, value)
    } else if str_eq(plugin, "rotate") {
        keyed_decl_of("none", "rotate", "none", value)
    } else if str_eq(plugin, "divide") {
        table_decls_of(divide_keyword_of(value))
    } else if str_eq(plugin, "leading") {
        leading_decls_of(value)
    } else if str_eq(plugin, "from") {
        with_prop_of("--tw-gradient-from", get_color_value(value, mode))
    } else if str_eq(plugin, "via") {
        with_prop_of("--tw-gradient-via", get_color_value(value, mode))
    } else if str_eq(plugin, "to") {
        with_prop_of("--tw-gradient-to", get_color_value(value, mode))
    } else {
        None
    }
}

} // verus!
