//! Values of the theme scales that plugins draw from, and the value that each
//! plugin gives a class's value.
use vstd::prelude::*;
use crate::num::{
    decimal_u128, fixed_point, fixed_point_string, i32_spec, numeral_spec, parse_i32,
    parse_numeral, parse_u32, u32_spec, all_digits,
};
use crate::palette::{get_color, palette_color};
use crate::text::opt_str_view;
use crate::text::{
    cat2, cat3, chars_of, decimal, is_prefix, owned, replace_char, replace_char_str, starts_with,
    str_eq,
};
use crate::types::ColorMode;
use crate::text::opt_string_view;

verus! {

/// The spacing value of a keyword or fraction, such as `px` → `1px` or `1/2` → `50%`.
pub open spec fn spacing_keyword_spec(key: Seq<char>) -> Option<Seq<char>> {
    if key == "px"@ {
        Some("1px"@)
    } else if key == "auto"@ {
        Some("auto"@)
    } else if key == "full"@ {
        Some("100%"@)
    } else if key == "1/2"@ {
        Some("50%"@)
    } else if key == "1/3"@ {
        Some("33.333333%"@)
    } else if key == "2/3"@ {
        Some("66.666667%"@)
    } else if key == "1/4"@ {
        Some("25%"@)
    } else if key == "2/4"@ {
        Some("50%"@)
    } else if key == "3/4"@ {
        Some("75%"@)
    } else if key == "1/5"@ {
        Some("20%"@)
    } else if key == "2/5"@ {
        Some("40%"@)
    } else if key == "3/5"@ {
        Some("60%"@)
    } else if key == "4/5"@ {
        Some("80%"@)
    } else if key == "1/6"@ {
        Some("16.666667%"@)
    } else if key == "2/6"@ {
        Some("33.333333%"@)
    } else if key == "3/6"@ {
        Some("50%"@)
    } else if key == "4/6"@ {
        Some("66.666667%"@)
    } else if key == "5/6"@ {
        Some("83.333333%"@)
    } else if key == "min"@ {
        Some("min-content"@)
    } else if key == "max"@ {
        Some("max-content"@)
    } else if key == "fit"@ {
        Some("fit-content"@)
    } else {
        None
    }
}

/// The spacing value of a keyword or fraction.
fn spacing_keyword(key: &str) -> (r: Option<&'static str>)
    ensures
        opt_str_view(r) == spacing_keyword_spec(key@),
{
    if str_eq(key, "px") {
        Some("1px")
    } else if str_eq(key, "auto") {
        Some("auto")
    } else if str_eq(key, "full") {
        Some("100%")
    } else if str_eq(key, "1/2") {
        Some("50%")
    } else if str_eq(key, "1/3") {
        Some("33.333333%")
    } else if str_eq(key, "2/3") {
        Some("66.666667%")
    } else if str_eq(key, "1/4") {
        Some("25%")
    } else if str_eq(key, "2/4") {
        Some("50%")
    } else if str_eq(key, "3/4") {
        Some("75%")
    } else if str_eq(key, "1/5") {
        Some("20%")
    } else if str_eq(key, "2/5") {
        Some("40%")
    } else if str_eq(key, "3/5") {
        Some("60%")
    } else if str_eq(key, "4/5") {
        Some("80%")
    } else if str_eq(key, "1/6") {
        Some("16.666667%")
    } else if str_eq(key, "2/6") {
        Some("33.333333%")
    } else if str_eq(key, "3/6") {
        Some("50%")
    } else if str_eq(key, "4/6") {
        Some("66.666667%")
    } else if str_eq(key, "5/6") {
        Some("83.333333%")
    } else if str_eq(key, "min") {
        Some("min-content")
    } else if str_eq(key, "max") {
        Some("max-content")
    } else if str_eq(key, "fit") {
        Some("fit-content")
    } else {
        None
    }
}

/// Whether the plugin `k` takes a spacing value: padding, margin, gaps, offsets, border sides and text indent.
pub open spec fn is_spacing_plugin(k: Seq<char>) -> bool {
    ||| k == "p"@ || k == "px"@ || k == "py"@ || k == "pt"@
    ||| k == "pr"@ || k == "pb"@ || k == "pl"@ || k == "m"@
    ||| k == "mx"@ || k == "my"@ || k == "mt"@ || k == "mr"@
    ||| k == "mb"@ || k == "ml"@ || k == "gap"@ || k == "gap-x"@
    ||| k == "gap-y"@ || k == "space-x"@ || k == "space-y"@ || k == "top"@
    ||| k == "right"@ || k == "bottom"@ || k == "left"@ || k == "inset"@
    ||| k == "inset-x"@ || k == "inset-y"@ || k == "border-t"@ || k == "border-r"@
    ||| k == "border-b"@ || k == "border-l"@ || k == "indent"@
    ||| k == "scroll-m"@ || k == "scroll-mx"@ || k == "scroll-my"@ || k == "scroll-mt"@
    ||| k == "scroll-mr"@ || k == "scroll-mb"@ || k == "scroll-ml"@ || k == "scroll-p"@
    ||| k == "scroll-px"@ || k == "scroll-py"@ || k == "scroll-pt"@ || k == "scroll-pr"@
    ||| k == "scroll-pb"@ || k == "scroll-pl"@
}

fn spacing_plugin(k: &str) -> (r: bool)
    ensures
        r == is_spacing_plugin(k@),
{
    str_eq(k, "p") || str_eq(k, "px") || str_eq(k, "py") || str_eq(k, "pt") || str_eq(k, "pr") || str_eq(k, "pb") || str_eq(k, "pl") || str_eq(k, "m") || str_eq(k, "mx") || str_eq(k, "my") || str_eq(k, "mt") || str_eq(k, "mr") || str_eq(k, "mb") || str_eq(k, "ml") || str_eq(k, "gap") || str_eq(k, "gap-x") || str_eq(k, "gap-y") || str_eq(k, "space-x") || str_eq(k, "space-y") || str_eq(k, "top") || str_eq(k, "right") || str_eq(k, "bottom") || str_eq(k, "left") || str_eq(k, "inset") || str_eq(k, "inset-x") || str_eq(k, "inset-y") || str_eq(k, "border-t") || str_eq(k, "border-r") || str_eq(k, "border-b") || str_eq(k, "border-l") || str_eq(k, "indent")
        || scroll_spacing_plugin(k)
}

fn scroll_spacing_plugin(k: &str) -> (r: bool)
    ensures
        r == (k@ == "scroll-m"@ || k@ == "scroll-mx"@ || k@ == "scroll-my"@ || k@ == "scroll-mt"@ || k@ == "scroll-mr"@
            || k@ == "scroll-mb"@ || k@ == "scroll-ml"@ || k@ == "scroll-p"@ || k@ == "scroll-px"@ || k@ == "scroll-py"@
            || k@ == "scroll-pt"@ || k@ == "scroll-pr"@ || k@ == "scroll-pb"@ || k@ == "scroll-pl"@),
{
    str_eq(k, "scroll-m") || str_eq(k, "scroll-mx") || str_eq(k, "scroll-my") || str_eq(k, "scroll-mt") || str_eq(k, "scroll-mr")
        || str_eq(k, "scroll-mb") || str_eq(k, "scroll-ml") || str_eq(k, "scroll-p") || str_eq(k, "scroll-px") || str_eq(k, "scroll-py")
        || str_eq(k, "scroll-pt") || str_eq(k, "scroll-pr") || str_eq(k, "scroll-pb") || str_eq(k, "scroll-pl")
}

/// Whether the plugin `k` sets a width.
pub open spec fn is_width_plugin(k: Seq<char>) -> bool {
    ||| k == "w"@ || k == "min-w"@ || k == "max-w"@
}

fn width_plugin(k: &str) -> (r: bool)
    ensures
        r == is_width_plugin(k@),
{
    str_eq(k, "w") || str_eq(k, "min-w") || str_eq(k, "max-w")
}

/// Whether the plugin `k` sets a height.
pub open spec fn is_height_plugin(k: Seq<char>) -> bool {
    ||| k == "h"@ || k == "min-h"@ || k == "max-h"@
}

fn height_plugin(k: &str) -> (r: bool)
    ensures
        r == is_height_plugin(k@),
{
    str_eq(k, "h") || str_eq(k, "min-h") || str_eq(k, "max-h")
}

/// Whether the plugin `k` takes a palette color only.
pub open spec fn is_color_plugin(k: Seq<char>) -> bool {
    ||| k == "text"@ || k == "from"@ || k == "via"@ || k == "to"@
    ||| k == "accent"@ || k == "caret"@ || k == "fill"@
}

fn color_plugin(k: &str) -> (r: bool)
    ensures
        r == is_color_plugin(k@),
{
    str_eq(k, "text") || str_eq(k, "from") || str_eq(k, "via") || str_eq(k, "to") || str_eq(k, "accent") || str_eq(k, "caret") || str_eq(k, "fill")
}

/// Whether the plugin `k` takes an opacity percentage.
pub open spec fn is_opacity_plugin(k: Seq<char>) -> bool {
    ||| k == "opacity"@ || k == "bg-opacity"@ || k == "text-opacity"@ || k == "border-opacity"@
}

fn opacity_plugin(k: &str) -> (r: bool)
    ensures
        r == is_opacity_plugin(k@),
{
    str_eq(k, "opacity") || str_eq(k, "bg-opacity") || str_eq(k, "text-opacity") || str_eq(k, "border-opacity")
}

/// Whether the plugin `k` sets a border radius.
pub open spec fn is_rounded_plugin(k: Seq<char>) -> bool {
    ||| k == "rounded"@ || k == "rounded-t"@ || k == "rounded-r"@ || k == "rounded-b"@
    ||| k == "rounded-l"@
}

fn rounded_plugin(k: &str) -> (r: bool)
    ensures
        r == is_rounded_plugin(k@),
{
    str_eq(k, "rounded") || str_eq(k, "rounded-t") || str_eq(k, "rounded-r") || str_eq(k, "rounded-b") || str_eq(k, "rounded-l")
}

/// Whether the plugin `k` takes a content or place alignment keyword.
pub open spec fn is_alignment_plugin(k: Seq<char>) -> bool {
    ||| k == "justify"@ || k == "justify-items"@ || k == "justify-self"@ || k == "place-content"@
    ||| k == "place-items"@ || k == "place-self"@
}

fn alignment_plugin(k: &str) -> (r: bool)
    ensures
        r == is_alignment_plugin(k@),
{
    str_eq(k, "justify") || str_eq(k, "justify-items") || str_eq(k, "justify-self") || str_eq(k, "place-content") || str_eq(k, "place-items") || str_eq(k, "place-self")
}

/// Whether the plugin `k` takes an item alignment keyword.
pub open spec fn is_items_plugin(k: Seq<char>) -> bool {
    ||| k == "items"@ || k == "self"@
}

fn items_plugin(k: &str) -> (r: bool)
    ensures
        r == is_items_plugin(k@),
{
    str_eq(k, "items") || str_eq(k, "self")
}

/// Whether the plugin `k` writes its value unchanged.
pub open spec fn is_passthrough_plugin(k: Seq<char>) -> bool {
    ||| k == "align"@ || k == "overflow-x"@ || k == "overflow-y"@ || k == "cursor"@
    ||| k == "touch"@ || k == "whitespace"@ || k == "hyphens"@ || k == "appearance"@
    ||| k == "backface"@ || k == "scroll"@ || k == "overscroll"@ || k == "overscroll-x"@
    ||| k == "overscroll-y"@ || k == "table"@ || k == "caption"@ || k == "break-before"@
    ||| k == "break-after"@ || k == "break-inside"@ || k == "wrap"@ || k == "select"@
    ||| k == "grow"@ || k == "shrink"@ || k == "box-decoration"@
}

fn passthrough_plugin(k: &str) -> (r: bool)
    ensures
        r == is_passthrough_plugin(k@),
{
    str_eq(k, "align") || str_eq(k, "overflow-x") || str_eq(k, "overflow-y") || str_eq(k, "cursor") || str_eq(k, "touch") || str_eq(k, "whitespace") || str_eq(k, "hyphens") || str_eq(k, "appearance") || str_eq(k, "backface") || str_eq(k, "scroll") || str_eq(k, "overscroll") || str_eq(k, "overscroll-x") || str_eq(k, "overscroll-y") || str_eq(k, "table") || str_eq(k, "caption") || str_eq(k, "break-before") || str_eq(k, "break-after") || str_eq(k, "break-inside") || str_eq(k, "wrap") || str_eq(k, "select") || str_eq(k, "grow") || str_eq(k, "shrink") || str_eq(k, "box-decoration")
}

/// Whether the plugin `k` floats or clears.
pub open spec fn is_float_plugin(k: Seq<char>) -> bool {
    ||| k == "float"@ || k == "clear"@
}

fn float_plugin(k: &str) -> (r: bool)
    ensures
        r == is_float_plugin(k@),
{
    str_eq(k, "float") || str_eq(k, "clear")
}

/// Whether the plugin `k` sets grid template tracks.
pub open spec fn is_grid_template_plugin(k: Seq<char>) -> bool {
    ||| k == "grid-cols"@ || k == "grid-rows"@
}

fn grid_template_plugin(k: &str) -> (r: bool)
    ensures
        r == is_grid_template_plugin(k@),
{
    str_eq(k, "grid-cols") || str_eq(k, "grid-rows")
}

/// Whether the plugin `k` sets implicit grid tracks.
pub open spec fn is_auto_track_plugin(k: Seq<char>) -> bool {
    ||| k == "auto-cols"@ || k == "auto-rows"@
}

fn auto_track_plugin(k: &str) -> (r: bool)
    ensures
        r == is_auto_track_plugin(k@),
{
    str_eq(k, "auto-cols") || str_eq(k, "auto-rows")
}

/// Whether the plugin `k` places an item on grid lines.
pub open spec fn is_grid_line_plugin(k: Seq<char>) -> bool {
    ||| k == "col"@ || k == "row"@
}

fn grid_line_plugin(k: &str) -> (r: bool)
    ensures
        r == is_grid_line_plugin(k@),
{
    str_eq(k, "col") || str_eq(k, "row")
}

/// Whether the plugin `k` spans grid tracks.
pub open spec fn is_span_plugin(k: Seq<char>) -> bool {
    ||| k == "col-span"@ || k == "row-span"@
}

fn span_plugin(k: &str) -> (r: bool)
    ensures
        r == is_span_plugin(k@),
{
    str_eq(k, "col-span") || str_eq(k, "row-span")
}

/// Whether the plugin `k` sets a grid start or end line.
pub open spec fn is_grid_edge_plugin(k: Seq<char>) -> bool {
    ||| k == "col-start"@ || k == "col-end"@ || k == "row-start"@ || k == "row-end"@
}

fn grid_edge_plugin(k: &str) -> (r: bool)
    ensures
        r == is_grid_edge_plugin(k@),
{
    str_eq(k, "col-start") || str_eq(k, "col-end") || str_eq(k, "row-start") || str_eq(k, "row-end")
}

/// Whether `k` names a container size.
pub open spec fn is_container_size_name(k: Seq<char>) -> bool {
    ||| k == "xs"@ || k == "sm"@ || k == "md"@ || k == "lg"@
    ||| k == "xl"@ || k == "2xs"@ || k == "2xl"@ || k == "3xs"@
    ||| k == "3xl"@ || k == "4xl"@ || k == "5xl"@ || k == "6xl"@
    ||| k == "7xl"@
}

fn container_size_name(k: &str) -> (r: bool)
    ensures
        r == is_container_size_name(k@),
{
    str_eq(k, "xs") || str_eq(k, "sm") || str_eq(k, "md") || str_eq(k, "lg") || str_eq(k, "xl") || str_eq(k, "2xs") || str_eq(k, "2xl") || str_eq(k, "3xs") || str_eq(k, "3xl") || str_eq(k, "4xl") || str_eq(k, "5xl") || str_eq(k, "6xl") || str_eq(k, "7xl")
}

/// Whether `k` is a viewport unit.
pub open spec fn is_viewport_unit_name(k: Seq<char>) -> bool {
    ||| k == "vw"@ || k == "vh"@ || k == "svw"@ || k == "svh"@
    ||| k == "dvw"@ || k == "dvh"@ || k == "lvw"@ || k == "lvh"@
}

fn is_viewport_unit(k: &str) -> (r: bool)
    ensures
        r == is_viewport_unit_name(k@),
{
    str_eq(k, "vw") || str_eq(k, "vh") || str_eq(k, "svw") || str_eq(k, "svh") || str_eq(k, "dvw") || str_eq(k, "dvh") || str_eq(k, "lvw") || str_eq(k, "lvh")
}

/// The border radius of a size name.
pub open spec fn radius_value(value: Seq<char>) -> Option<Seq<char>> {
    if value == "none"@ {
        Some("0"@)
    } else if value == "sm"@ {
        Some("0.125rem"@)
    } else if value == ""@ {
        Some("0.25rem"@)
    } else if value == "md"@ {
        Some("0.375rem"@)
    } else if value == "lg"@ {
        Some("0.5rem"@)
    } else if value == "xl"@ {
        Some("0.75rem"@)
    } else if value == "2xl"@ {
        Some("1rem"@)
    } else if value == "3xl"@ {
        Some("1.5rem"@)
    } else if value == "full"@ {
        Some("9999px"@)
    } else {
        None
    }
}

/// The border radius of a size name.
fn radius_value_of(value: &str) -> (r: Option<&'static str>)
    ensures
        opt_str_view(r) == radius_value(value@),
{
    if str_eq(value, "none") {
        Some("0")
    } else if str_eq(value, "sm") {
        Some("0.125rem")
    } else if str_eq(value, "") {
        Some("0.25rem")
    } else if str_eq(value, "md") {
        Some("0.375rem")
    } else if str_eq(value, "lg") {
        Some("0.5rem")
    } else if str_eq(value, "xl") {
        Some("0.75rem")
    } else if str_eq(value, "2xl") {
        Some("1rem")
    } else if str_eq(value, "3xl") {
        Some("1.5rem")
    } else if str_eq(value, "full") {
        Some("9999px")
    } else {
        None
    }
}

/// The CSS keyword of an item alignment value; others are written unchanged.
pub open spec fn items_keyword(value: Seq<char>) -> Seq<char> {
    if value == "start"@ {
        "flex-start"@
    } else if value == "end"@ {
        "flex-end"@
    } else if value == "baseline-last"@ {
        "last baseline"@
    } else if value == "center-safe"@ {
        "safe center"@
    } else if value == "end-safe"@ {
        "safe flex-end"@
    } else {
        value
    }
}

fn items_keyword_of(value: &str) -> (r: String)
    ensures
        r@ == items_keyword(value@),
{
    if str_eq(value, "start") {
        owned("flex-start")
    } else if str_eq(value, "end") {
        owned("flex-end")
    } else if str_eq(value, "baseline-last") {
        owned("last baseline")
    } else if str_eq(value, "center-safe") {
        owned("safe center")
    } else if str_eq(value, "end-safe") {
        owned("safe flex-end")
    } else {
        owned(value)
    }
}

/// The CSS keyword of a float or clear side; others are written unchanged.
pub open spec fn float_keyword(value: Seq<char>) -> Seq<char> {
    if value == "start"@ {
        "inline-start"@
    } else if value == "end"@ {
        "inline-end"@
    } else {
        value
    }
}

fn float_keyword_of(value: &str) -> (r: String)
    ensures
        r@ == float_keyword(value@),
{
    if str_eq(value, "start") {
        owned("inline-start")
    } else if str_eq(value, "end") {
        owned("inline-end")
    } else {
        owned(value)
    }
}

/// The CSS value of a color scheme name; others are written unchanged.
pub open spec fn scheme_keyword(value: Seq<char>) -> Seq<char> {
    if value == "light-dark"@ {
        "light dark"@
    } else if value == "only-dark"@ {
        "only dark"@
    } else if value == "only-light"@ {
        "only light"@
    } else {
        value
    }
}

fn scheme_keyword_of(value: &str) -> (r: String)
    ensures
        r@ == scheme_keyword(value@),
{
    if str_eq(value, "light-dark") {
        owned("light dark")
    } else if str_eq(value, "only-dark") {
        owned("only dark")
    } else if str_eq(value, "only-light") {
        owned("only light")
    } else {
        owned(value)
    }
}

/// The CSS value of a grid flow name; others are written unchanged.
pub open spec fn grid_flow_keyword(value: Seq<char>) -> Seq<char> {
    if value == "col"@ {
        "column"@
    } else if value == "col-dense"@ {
        "column dense"@
    } else if value == "row-dense"@ {
        "row dense"@
    } else {
        value
    }
}

fn grid_flow_keyword_of(value: &str) -> (r: String)
    ensures
        r@ == grid_flow_keyword(value@),
{
    if str_eq(value, "col") {
        owned("column")
    } else if str_eq(value, "col-dense") {
        owned("column dense")
    } else if str_eq(value, "row-dense") {
        owned("row dense")
    } else {
        owned(value)
    }
}

/// The CSS transition behavior of a name; others are written unchanged.
pub open spec fn transition_keyword(value: Seq<char>) -> Seq<char> {
    if value == "discrete"@ {
        "allow-discrete"@
    } else {
        value
    }
}

fn transition_keyword_of(value: &str) -> (r: String)
    ensures
        r@ == transition_keyword(value@),
{
    if str_eq(value, "discrete") {
        owned("allow-discrete")
    } else {
        owned(value)
    }
}

/// The CSS resize value of a name; others are written unchanged.
pub open spec fn resize_keyword(value: Seq<char>) -> Seq<char> {
    if value == "x"@ {
        "horizontal"@
    } else if value == "y"@ {
        "vertical"@
    } else {
        value
    }
}

fn resize_keyword_of(value: &str) -> (r: String)
    ensures
        r@ == resize_keyword(value@),
{
    if str_eq(value, "x") {
        owned("horizontal")
    } else if str_eq(value, "y") {
        owned("vertical")
    } else {
        owned(value)
    }
}

/// The implicit track size of a name.
pub open spec fn auto_track_value(value: Seq<char>) -> Option<Seq<char>> {
    if value == "auto"@ {
        Some("auto"@)
    } else if value == "min"@ {
        Some("min-content"@)
    } else if value == "max"@ {
        Some("max-content"@)
    } else if value == "fr"@ {
        Some("minmax(0, 1fr)"@)
    } else {
        None
    }
}

/// The implicit track size of a name.
fn auto_track_value_of(value: &str) -> (r: Option<&'static str>)
    ensures
        opt_str_view(r) == auto_track_value(value@),
{
    if str_eq(value, "auto") {
        Some("auto")
    } else if str_eq(value, "min") {
        Some("min-content")
    } else if str_eq(value, "max") {
        Some("max-content")
    } else if str_eq(value, "fr") {
        Some("minmax(0, 1fr)")
    } else {
        None
    }
}

/// The `will-change` value of a name.
pub open spec fn will_change_value(value: Seq<char>) -> Option<Seq<char>> {
    if value == "change-auto"@ {
        Some("auto"@)
    } else if value == "change-contents"@ {
        Some("contents"@)
    } else if value == "change-scroll"@ {
        Some("scroll-position"@)
    } else if value == "change-transform"@ {
        Some("transform"@)
    } else {
        None
    }
}

/// The `will-change` value of a name.
fn will_change_value_of(value: &str) -> (r: Option<&'static str>)
    ensures
        opt_str_view(r) == will_change_value(value@),
{
    if str_eq(value, "change-auto") {
        Some("auto")
    } else if str_eq(value, "change-contents") {
        Some("contents")
    } else if str_eq(value, "change-scroll") {
        Some("scroll-position")
    } else if str_eq(value, "change-transform") {
        Some("transform")
    } else {
        None
    }
}

/// The `field-sizing` value of a name.
pub open spec fn field_sizing_value(value: Seq<char>) -> Option<Seq<char>> {
    if value == "sizing-content"@ {
        Some("content"@)
    } else if value == "sizing-fixed"@ {
        Some("fixed"@)
    } else {
        None
    }
}

/// The `field-sizing` value of a name.
fn field_sizing_value_of(value: &str) -> (r: Option<&'static str>)
    ensures
        opt_str_view(r) == field_sizing_value(value@),
{
    if str_eq(value, "sizing-content") {
        Some("content")
    } else if str_eq(value, "sizing-fixed") {
        Some("fixed")
    } else {
        None
    }
}

/// The `forced-color-adjust` value of a name.
pub open spec fn forced_color_value(value: Seq<char>) -> Option<Seq<char>> {
    if value == "color-adjust-auto"@ {
        Some("auto"@)
    } else if value == "color-adjust-none"@ {
        Some("none"@)
    } else {
        None
    }
}

/// The `forced-color-adjust` value of a name.
fn forced_color_value_of(value: &str) -> (r: Option<&'static str>)
    ensures
        opt_str_view(r) == forced_color_value(value@),
{
    if str_eq(value, "color-adjust-auto") {
        Some("auto")
    } else if str_eq(value, "color-adjust-none") {
        Some("none")
    } else {
        None
    }
}

// ── Spacing ─────────────────────────────────────────────────────────────────

/// The spacing value of a key: a keyword or fraction; a viewport unit `u`,
/// which is `100u`; or a non-negative decimal numeral `n`, which is `n/4 rem`
/// (`0` for zero).
pub open spec fn spacing_value(key: Seq<char>) -> Option<Seq<char>> {
    match spacing_keyword_spec(key) {
        Some(v) => Some(v),
        None => if is_viewport_unit_name(key) {
            Some("100"@ + key)
        } else {
            match numeral_spec(key) {
                Some((neg, n, f)) => if n == 0 {
                    Some("0"@)
                } else if neg {
                    None
                } else {
                    Some(fixed_point(n * 25, f + 2) + "rem"@)
                },
                None => None,
            }
        },
    }
}

/// The spacing value of a key, such as `4` → `1rem`, `px` → `1px` or
/// `svh` → `100svh`.
pub fn get_spacing_value(key: &str) -> (r: Option<String>)
    ensures
        opt_string_view(r) == spacing_value(key@),
{
    if let Some(v) = spacing_keyword(key) {
        return Some(owned(v));
    }
    if is_viewport_unit(key) {
        return Some(cat2("100", key));
    }
    match parse_numeral(key) {
        Some((neg, n, f)) => {
            if n == 0 {
                Some(owned("0"))
            } else if neg {
                None
            } else {
                let m: u128 = (n as u128) * 25;
                let s = fixed_point_string(m, f + 2);
                Some(cat2(s.as_str(), "rem"))
            }
        },
        None => None,
    }
}

// ── Colors and opacity ──────────────────────────────────────────────────────

/// The palette color of a key in the given mode.
pub fn get_color_value(key: &str, mode: ColorMode) -> (r: Option<String>)
    ensures
        opt_string_view(r) == palette_color(key@, mode),
{
    get_color(key, mode)
}

/// The opacity of a percentage `n` from 0 to 100: `n / 100` as the shortest
/// decimal.
pub open spec fn opacity_value(key: Seq<char>) -> Option<Seq<char>> {
    match u32_spec(key) {
        Some(n) => if n <= 100 {
            Some(fixed_point(n, 2))
        } else {
            None
        },
        None => None,
    }
}

/// The opacity of a percentage, such as `50` → `0.5`.
pub fn get_opacity_value(key: &str) -> (r: Option<String>)
    ensures
        opt_string_view(r) == opacity_value(key@),
{
    match parse_u32(key) {
        Some(n) => if n <= 100 {
            Some(fixed_point_string(n as u128, 2))
        } else {
            None
        },
        None => None,
    }
}

/// The CSS variable of a named container size.
pub open spec fn container_size(key: Seq<char>) -> Option<Seq<char>> {
    if is_container_size_name(key) {
        Some("var(--container-"@ + key + ")"@)
    } else {
        None
    }
}

/// The CSS variable of a named container size, such as `md` → `var(--container-md)`.
pub fn get_container_size(key: &str) -> (r: Option<String>)
    ensures
        opt_string_view(r) == container_size(key@),
{
    if container_size_name(key) {
        Some(cat3("var(--container-", key, ")"))
    } else {
        None
    }
}

/// `a` if it is present, else `b`.
pub open spec fn first_of(a: Option<Seq<char>>, b: Option<Seq<char>>) -> Option<Seq<char>> {
    match a {
        Some(v) => Some(v),
        None => b,
    }
}

// ── Numbers ─────────────────────────────────────────────────────────────────

/// The decimal numeral of an integer, with a `-` when it is negative.
pub open spec fn int_decimal(n: int) -> Seq<char> {
    if n < 0 {
        "-"@ + decimal((-n) as nat)
    } else {
        decimal(n as nat)
    }
}

fn i32_string(n: i32) -> (r: String)
    ensures
        r@ == int_decimal(n as int),
{
    if n < 0 {
        let m: u128 = (-(n as i64)) as u128;
        let d = decimal_u128(m);
        cat2("-", d.as_str())
    } else {
        decimal_u128(n as u128)
    }
}

/// `s` without a leading sign.
pub open spec fn unsigned_part(s: Seq<char>) -> Seq<char> {
    if s.len() > 0 && (s[0] == '+' || s[0] == '-') {
        s.subrange(1, s.len() as int)
    } else {
        s
    }
}

/// The index of the first `e` or `E` in `s` at or after `from`, or the length of `s`.
pub open spec fn exponent_index(s: Seq<char>, from: int) -> int
    decreases s.len() - from,
{
    if from < 0 || from >= s.len() {
        s.len() as int
    } else if s[from] == 'e' || s[from] == 'E' {
        from
    } else {
        exponent_index(s, from + 1)
    }
}

/// Whether `m` is digits with at most one point and at least one digit.
pub open spec fn is_mantissa(m: Seq<char>) -> bool {
    let dot = crate::text::index_of_from(m, '.', 0);
    let ip = m.subrange(0, dot);
    let fp = if dot < m.len() {
        m.subrange(dot + 1, m.len() as int)
    } else {
        seq![]
    };
    all_digits(ip) && all_digits(fp) && ip.len() + fp.len() >= 1
}

/// Whether `c` is the lower-case letter `lo` or its capital `up`.
pub open spec fn letter_is(c: char, lo: char, up: char) -> bool {
    c == lo || c == up
}

/// Whether `s` spells `inf`, `infinity` or `nan` in any case.
pub open spec fn is_special_float(s: Seq<char>) -> bool {
    ||| (s.len() == 3 && letter_is(s[0], 'i', 'I') && letter_is(s[1], 'n', 'N') && letter_is(
        s[2],
        'f',
        'F',
    ))
    ||| (s.len() == 8 && letter_is(s[0], 'i', 'I') && letter_is(s[1], 'n', 'N') && letter_is(
        s[2],
        'f',
        'F',
    ) && letter_is(s[3], 'i', 'I') && letter_is(s[4], 'n', 'N') && letter_is(s[5], 'i', 'I')
        && letter_is(s[6], 't', 'T') && letter_is(s[7], 'y', 'Y'))
    ||| (s.len() == 3 && letter_is(s[0], 'n', 'N') && letter_is(s[1], 'a', 'A') && letter_is(
        s[2],
        'n',
        'N',
    ))
}

/// Whether `str::parse::<f64>` accepts `s`: an optional sign, then `inf`,
/// `infinity` or `nan` in any case, or a mantissa with an optional exponent
/// (`e` or `E`, an optional sign and digits).
pub open spec fn is_float_literal(s: Seq<char>) -> bool {
    let b = unsigned_part(s);
    let e = exponent_index(b, 0);
    let x = unsigned_part(b.subrange(e + 1, b.len() as int));
    ||| is_special_float(b)
    ||| (is_mantissa(b.subrange(0, e)) && (e == b.len() || (x.len() >= 1 && all_digits(x))))
}

proof fn lemma_exponent_index(s: Seq<char>, from: int)
    requires
        0 <= from <= s.len(),
    ensures
        from <= exponent_index(s, from) <= s.len(),
        exponent_index(s, from) < s.len() ==> (s[exponent_index(s, from)] == 'e' || s[exponent_index(s, from)] == 'E'),
    decreases s.len() - from,
{
    if from < s.len() && !(s[from] == 'e' || s[from] == 'E') {
        lemma_exponent_index(s, from + 1);
    }
}

fn is_digits(v: &Vec<char>, from: usize, to: usize) -> (r: bool)
    requires
        from <= to <= v@.len(),
    ensures
        r == all_digits(v@.subrange(from as int, to as int)),
{
    let mut i = from;
    while i < to
        invariant
            from <= i <= to <= v@.len(),
            all_digits(v@.subrange(from as int, i as int)),
        decreases to - i,
    {
        if !crate::text::char_is_digit(v[i]) {
            assert(v@.subrange(from as int, to as int)[i - from] == v@[i as int]);
            return false;
        }
        assert(v@.subrange(from as int, i + 1) =~= v@.subrange(from as int, i as int).push(v@[i as int]));
        i = i + 1;
    }
    true
}

fn letter_at(v: &Vec<char>, i: usize, lo: char, up: char) -> (r: bool)
    requires
        i < v@.len(),
    ensures
        r == letter_is(v@[i as int], lo, up),
{
    v[i] == lo || v[i] == up
}

fn special_float_at(v: &Vec<char>, start: usize) -> (r: bool)
    requires
        start <= v@.len(),
    ensures
        r == is_special_float(v@.subrange(start as int, v@.len() as int)),
{
    let k = v.len() - start;
    let ghost b = v@.subrange(start as int, v@.len() as int);
    if k == 3 {
        let r = (letter_at(v, start, 'i', 'I') && letter_at(v, start + 1, 'n', 'N') && letter_at(v, start + 2, 'f', 'F'))
            || (letter_at(v, start, 'n', 'N') && letter_at(v, start + 1, 'a', 'A') && letter_at(v, start + 2, 'n', 'N'));
        assert(b[0] == v@[start as int] && b[1] == v@[start + 1] && b[2] == v@[start + 2]);
        r
    } else if k == 8 {
        let r = letter_at(v, start, 'i', 'I') && letter_at(v, start + 1, 'n', 'N')
            && letter_at(v, start + 2, 'f', 'F') && letter_at(v, start + 3, 'i', 'I')
            && letter_at(v, start + 4, 'n', 'N') && letter_at(v, start + 5, 'i', 'I')
            && letter_at(v, start + 6, 't', 'T') && letter_at(v, start + 7, 'y', 'Y');
        assert(b[0] == v@[start as int] && b[1] == v@[start + 1] && b[2] == v@[start + 2]
            && b[3] == v@[start + 3] && b[4] == v@[start + 4] && b[5] == v@[start + 5]
            && b[6] == v@[start + 6] && b[7] == v@[start + 7]);
        r
    } else {
        false
    }
}

fn exponent_at(v: &Vec<char>, start: usize) -> (e: usize)
    requires
        start <= v@.len(),
    ensures
        start <= e <= v@.len(),
        e - start == exponent_index(v@.subrange(start as int, v@.len() as int), 0),
{
    let n = v.len();
    let ghost b = v@.subrange(start as int, n as int);
    let mut e = start;
    while e < n && !(v[e] == 'e' || v[e] == 'E')
        invariant
            start <= e <= n == v@.len(),
            b == v@.subrange(start as int, n as int),
            exponent_index(b, 0) == exponent_index(b, e - start),
        decreases n - e,
    {
        assert(b[e - start] == v@[e as int]);
        e = e + 1;
    }
    proof {
        if e < n {
            assert(b[e - start] == v@[e as int]);
        }
    }
    e
}

fn mantissa_at(v: &Vec<char>, start: usize, e: usize) -> (r: bool)
    requires
        start <= e <= v@.len(),
    ensures
        r == is_mantissa(v@.subrange(start as int, e as int)),
{
    let ghost m = v@.subrange(start as int, e as int);
    let dot = crate::text::index_of_from_vec(v, '.', start);
    let mdot = if dot < e { dot } else { e };
    proof {
        crate::text::lemma_index_of_from_spec(v@, '.', start as int);
        crate::text::lemma_index_of_from_spec(m, '.', 0);
        let d2 = crate::text::index_of_from(m, '.', 0);
        if d2 < m.len() {
            assert(m[d2] == v@[start + d2]);
        }
        if mdot < e {
            assert(m[mdot - start] == '.');
        }
        assert(d2 + start == mdot);
        assert(m.subrange(0, mdot - start) =~= v@.subrange(start as int, mdot as int));
        if mdot < e {
            assert(m.subrange(mdot - start + 1, m.len() as int) =~= v@.subrange(mdot + 1, e as int));
        }
    }
    let ip_ok = is_digits(v, start, mdot);
    let fp_ok = if mdot < e { is_digits(v, mdot + 1, e) } else { true };
    let count = if mdot < e { (mdot - start) + (e - mdot - 1) } else { mdot - start };
    ip_ok && fp_ok && count >= 1
}

/// Whether `str::parse::<f64>` accepts `s`.
pub fn is_float_text(s: &str) -> (r: bool)
    ensures
        r == is_float_literal(s@),
{
    let v = chars_of(s);
    let start: usize = if v.len() > 0 && (v[0] == '+' || v[0] == '-') {
        1
    } else {
        0
    };
    let n = v.len();
    let ghost b = unsigned_part(v@);
    assert(b =~= v@.subrange(start as int, n as int));
    if special_float_at(&v, start) {
        return true;
    }
    let e = exponent_at(&v, start);
    proof {
        lemma_exponent_index(b, 0);
        assert(b.subrange(0, e - start) =~= v@.subrange(start as int, e as int));
    }
    if !mantissa_at(&v, start, e) {
        return false;
    }
    if e == n {
        return true;
    }
    let xs: usize = if e + 1 < n && (v[e + 1] == '+' || v[e + 1] == '-') {
        e + 2
    } else {
        e + 1
    };
    proof {
        let t = b.subrange(e - start + 1, b.len() as int);
        assert(t =~= v@.subrange(e + 1, n as int));
        assert(unsigned_part(t) =~= v@.subrange(xs as int, n as int));
    }
    xs < n && is_digits(&v, xs, n)
}

// ── Alignment ───────────────────────────────────────────────────────────────

/// The CSS keyword of a content or place alignment value; `justify` writes
/// `start` and `end` as flex keywords. Others are written unchanged.
pub open spec fn alignment_keyword(is_justify: bool, value: Seq<char>) -> Seq<char> {
    if value == "start"@ && is_justify {
        "flex-start"@
    } else if value == "end"@ && is_justify {
        "flex-end"@
    } else if value == "around"@ {
        "space-around"@
    } else if value == "between"@ {
        "space-between"@
    } else if value == "center-safe"@ {
        "safe center"@
    } else if value == "end-safe"@ {
        if is_justify {
            "safe flex-end"@
        } else {
            "safe end"@
        }
    } else if value == "evenly"@ {
        "space-evenly"@
    } else {
        value
    }
}

fn alignment_keyword_of(is_justify: bool, value: &str) -> (r: String)
    ensures
        r@ == alignment_keyword(is_justify, value@),
{
    if str_eq(value, "start") && is_justify {
        owned("flex-start")
    } else if str_eq(value, "end") && is_justify {
        owned("flex-end")
    } else if str_eq(value, "around") {
        owned("space-around")
    } else if str_eq(value, "between") {
        owned("space-between")
    } else if str_eq(value, "center-safe") {
        owned("safe center")
    } else if str_eq(value, "end-safe") {
        if is_justify {
            owned("safe flex-end")
        } else {
            owned("safe end")
        }
    } else if str_eq(value, "evenly") {
        owned("space-evenly")
    } else {
        owned(value)
    }
}

// ── Plugin values ───────────────────────────────────────────────────────────

/// The value that a plugin gives a class's value: the sizing, color, layout
/// and typography plugins, by the theme scales and keyword tables above.
pub open spec fn inferred_value(plugin: Seq<char>, value: Seq<char>, mode: ColorMode) -> Option<Seq<char>> {
    if is_spacing_plugin(plugin) {
        spacing_value(value)
    } else if is_width_plugin(plugin) {
        if value == "screen"@ {
            Some("100vw"@)
        } else if value == "none"@ {
            Some("none"@)
        } else {
            first_of(container_size(value), spacing_value(value))
        }
    } else if is_height_plugin(plugin) {
        if value == "screen"@ {
            Some("100vh"@)
        } else if value == "none"@ {
            Some("none"@)
        } else if value == "lh"@ {
            Some("1lh"@)
        } else {
            spacing_value(value)
        }
    } else if plugin == "size"@ {
        if value == "auto"@ {
            Some("auto"@)
        } else {
            spacing_value(value)
        }
    } else if plugin == "bg"@ || plugin == "border"@ {
        first_of(palette_color(value, mode), spacing_value(value))
    } else if is_color_plugin(plugin) {
        palette_color(value, mode)
    } else if is_opacity_plugin(plugin) {
        opacity_value(value)
    } else if is_rounded_plugin(plugin) {
        radius_value(value)
    } else if is_alignment_plugin(plugin) {
        Some(alignment_keyword(plugin == "justify"@, value))
    } else if is_items_plugin(plugin) {
        Some(items_keyword(value))
    } else if is_passthrough_plugin(plugin) {
        Some(value)
    } else if is_float_plugin(plugin) {
        Some(float_keyword(value))
    } else if plugin == "scheme"@ {
        Some(scheme_keyword(value))
    } else {
        grid_value(plugin, value)
    }
}

/// The value of the flex, grid, transform, transition and remaining plugins.
pub open spec fn grid_value(plugin: Seq<char>, value: Seq<char>) -> Option<Seq<char>> {
    if plugin == "basis"@ {
        if value == "auto"@ {
            Some("auto"@)
        } else if value == "full"@ {
            Some("100%"@)
        } else {
            first_of(container_size(value), spacing_value(value))
        }
    } else if plugin == "columns"@ {
        if value == "auto"@ {
            Some("auto"@)
        } else {
            first_of(
                container_size(value),
                match u32_spec(value) {
                    Some(n) => Some(decimal(n)),
                    None => None,
                },
            )
        }
    } else if is_grid_template_plugin(plugin) {
        if value == "none"@ || value == "subgrid"@ {
            Some(value)
        } else {
            match u32_spec(value) {
                Some(n) => Some("repeat("@ + decimal(n) + ", minmax(0, 1fr))"@),
                None => None,
            }
        }
    } else if plugin == "grid-flow"@ {
        Some(grid_flow_keyword(value))
    } else if is_auto_track_plugin(plugin) {
        auto_track_value(value)
    } else if is_grid_line_plugin(plugin) {
        if value == "auto"@ {
            Some("auto"@)
        } else {
            None
        }
    } else if is_span_plugin(plugin) {
        if value == "full"@ {
            Some("1 / -1"@)
        } else {
            match u32_spec(value) {
                Some(n) => Some("span "@ + decimal(n) + " / span "@ + decimal(n)),
                None => None,
            }
        }
    } else if is_grid_edge_plugin(plugin) {
        if value == "auto"@ {
            Some("auto"@)
        } else {
            match i32_spec(value) {
                Some(n) => Some(int_decimal(n)),
                None => None,
            }
        }
    } else {
        motion_value(plugin, value)
    }
}

/// The value of the transform, transition, ordering and typography plugins.
pub open spec fn motion_value(plugin: Seq<char>, value: Seq<char>) -> Option<Seq<char>> {
    if plugin == "origin"@ {
        Some(replace_char(value, '-', " "@))
    } else if plugin == "ease"@ {
        if value == "linear"@ || value == "initial"@ {
            Some(value)
        } else {
            Some("var(--ease-"@ + value + ")"@)
        }
    } else if plugin == "will"@ {
        will_change_value(value)
    } else if plugin == "transition"@ {
        Some(transition_keyword(value))
    } else if plugin == "resize"@ {
        Some(resize_keyword(value))
    } else if plugin == "flex"@ {
        if value == "auto"@ || value == "none"@ {
            Some(value)
        } else if value == "initial"@ {
            Some("0 auto"@)
        } else {
            None
        }
    } else if plugin == "z"@ {
        if value == "auto"@ {
            Some("auto"@)
        } else if i32_spec(value) is Some {
            Some(value)
        } else {
            None
        }
    } else if plugin == "order"@ {
        if value == "first"@ {
            Some("-9999"@)
        } else if value == "last"@ {
            Some("9999"@)
        } else if value == "none"@ {
            Some("0"@)
        } else if i32_spec(value) is Some {
            Some(value)
        } else {
            None
        }
    } else if plugin == "leading"@ {
        if value == "none"@ {
            Some("1"@)
        } else {
            Some("var(--leading-"@ + value + ")"@)
        }
    } else if plugin == "tracking"@ {
        Some("var(--tracking-"@ + value + ")"@)
    } else if plugin == "duration"@ {
        if value == "initial"@ {
            Some("initial"@)
        } else {
            match u32_spec(value) {
                Some(n) => Some(decimal(n) + "ms"@),
                None => None,
            }
        }
    } else if plugin == "rotate"@ {
        if value == "none"@ {
            Some("none"@)
        } else if is_float_literal(value) {
            Some(value + "deg"@)
        } else {
            None
        }
    } else if plugin == "perspective"@ {
        if value == "none"@ {
            Some("none"@)
        } else if is_prefix("origin-"@, value) {
            None
        } else {
            Some("var(--perspective-"@ + value + ")"@)
        }
    } else if plugin == "field"@ {
        field_sizing_value(value)
    } else if plugin == "forced"@ {
        forced_color_value(value)
    } else {
        None
    }
}

fn static_string(s: Option<&'static str>) -> (r: Option<String>)
    ensures
        opt_string_view(r) == opt_str_view(s),
{
    match s {
        Some(v) => Some(owned(v)),
        None => None,
    }
}

fn or_else(a: Option<String>, b: Option<String>) -> (r: Option<String>)
    ensures
        opt_string_view(r) == first_of(opt_string_view(a), opt_string_view(b)),
{
    match a {
        Some(v) => Some(v),
        None => b,
    }
}

/// The value that a plugin gives a class's value, such as `p` with `4` →
/// `1rem` or `text` with `blue-500` → the palette color.
pub fn infer_value(plugin: &str, value: &str, color_mode: ColorMode) -> (r: Option<String>)
    ensures
        opt_string_view(r) == inferred_value(plugin@, value@, color_mode),
{
    if spacing_plugin(plugin) {
        get_spacing_value(value)
    } else if width_plugin(plugin) {
        if str_eq(value, "screen") {
            Some(owned("100vw"))
        } else if str_eq(value, "none") {
            Some(owned("none"))
        } else {
            or_else(get_container_size(value), get_spacing_value(value))
        }
    } else if height_plugin(plugin) {
        if str_eq(value, "screen") {
            Some(owned("100vh"))
        } else if str_eq(value, "none") {
            Some(owned("none"))
        } else if str_eq(value, "lh") {
            Some(owned("1lh"))
        } else {
            get_spacing_value(value)
        }
    } else if str_eq(plugin, "size") {
        if str_eq(value, "auto") {
            Some(owned("auto"))
        } else {
            get_spacing_value(value)
        }
    } else if str_eq(plugin, "bg") || str_eq(plugin, "border") {
        or_else(get_color_value(value, color_mode), get_spacing_value(value))
    } else if color_plugin(plugin) {
        get_color_value(value, color_mode)
    } else if opacity_plugin(plugin) {
        get_opacity_value(value)
    } else if rounded_plugin(plugin) {
        static_string(radius_value_of(value))
    } else if alignment_plugin(plugin) {
        Some(alignment_keyword_of(str_eq(plugin, "justify"), value))
    } else if items_plugin(plugin) {
        Some(items_keyword_of(value))
    } else if passthrough_plugin(plugin) {
        Some(owned(value))
    } else if float_plugin(plugin) {
        Some(float_keyword_of(value))
    } else if str_eq(plugin, "scheme") {
        Some(scheme_keyword_of(value))
    } else {
        grid_value_of(plugin, value)
    }
}

fn grid_value_of(plugin: &str, value: &str) -> (r: Option<String>)
    ensures
        opt_string_view(r) == grid_value(plugin@, value@),
{
    if str_eq(plugin, "basis") {
        if str_eq(value, "auto") {
            Some(owned("auto"))
        } else if str_eq(value, "full") {
            Some(owned("100%"))
        } else {
            or_else(get_container_size(value), get_spacing_value(value))
        }
    } else if str_eq(plugin, "columns") {
        if str_eq(value, "auto") {
            Some(owned("auto"))
        } else {
            let n = match parse_u32(value) {
                Some(n) => Some(decimal_u128(n as u128)),
                None => None,
            };
            or_else(get_container_size(value), n)
        }
    } else if grid_template_plugin(plugin) {
        if str_eq(value, "none") || str_eq(value, "subgrid") {
            Some(owned(value))
        } else {
            match parse_u32(value) {
                Some(n) => {
                    let d = decimal_u128(n as u128);
                    Some(cat3("repeat(", d.as_str(), ", minmax(0, 1fr))"))
                },
                None => None,
            }
        }
    } else if str_eq(plugin, "grid-flow") {
        Some(grid_flow_keyword_of(value))
    } else if auto_track_plugin(plugin) {
        static_string(auto_track_value_of(value))
    } else if grid_line_plugin(plugin) {
        if str_eq(value, "auto") {
            Some(owned("auto"))
        } else {
            None
        }
    } else if span_plugin(plugin) {
        if str_eq(value, "full") {
            Some(owned("1 / -1"))
        } else {
            match parse_u32(value) {
                Some(n) => {
                    let d = decimal_u128(n as u128);
                    let head = cat3("span ", d.as_str(), " / span ");
                    Some(cat2(head.as_str(), d.as_str()))
                },
                None => None,
            }
        }
    } else if grid_edge_plugin(plugin) {
        if str_eq(value, "auto") {
            Some(owned("auto"))
        } else {
            match parse_i32(value) {
                Some(n) => Some(i32_string(n)),
                None => None,
            }
        }
    } else {
        motion_value_of(plugin, value)
    }
}

fn motion_value_of(plugin: &str, value: &str) -> (r: Option<String>)
    ensures
        opt_string_view(r) == motion_value(plugin@, value@),
{
    if str_eq(plugin, "origin") {
        Some(replace_char_str(value, '-', " "))
    } else if str_eq(plugin, "ease") {
        if str_eq(value, "linear") || str_eq(value, "initial") {
            Some(owned(value))
        } else {
            Some(cat3("var(--ease-", value, ")"))
        }
    } else if str_eq(plugin, "will") {
        static_string(will_change_value_of(value))
    } else if str_eq(plugin, "transition") {
        Some(transition_keyword_of(value))
    } else if str_eq(plugin, "resize") {
        Some(resize_keyword_of(value))
    } else if str_eq(plugin, "flex") {
        if str_eq(value, "auto") || str_eq(value, "none") {
            Some(owned(value))
        } else if str_eq(value, "initial") {
            Some(owned("0 auto"))
        } else {
            None
        }
    } else if str_eq(plugin, "z") {
        if str_eq(value, "auto") {
            Some(owned("auto"))
        } else if parse_i32(value).is_some() {
            Some(owned(value))
        } else {
            None
        }
    } else if str_eq(plugin, "order") {
        if str_eq(value, "first") {
            Some(owned("-9999"))
        } else if str_eq(value, "last") {
            Some(owned("9999"))
        } else if str_eq(value, "none") {
            Some(owned("0"))
        } else if parse_i32(value).is_some() {
            Some(owned(value))
        } else {
            None
        }
    } else if str_eq(plugin, "leading") {
        if str_eq(value, "none") {
            Some(owned("1"))
        } else {
            Some(cat3("var(--leading-", value, ")"))
        }
    } else if str_eq(plugin, "tracking") {
        Some(cat3("var(--tracking-", value, ")"))
    } else if str_eq(plugin, "duration") {
        if str_eq(value, "initial") {
            Some(owned("initial"))
        } else {
            match parse_u32(value) {
                Some(n) => {
                    let d = decimal_u128(n as u128);
                    Some(cat2(d.as_str(), "ms"))
                },
                None => None,
            }
        }
    } else if str_eq(plugin, "rotate") {
        if str_eq(value, "none") {
            Some(owned("none"))
        } else if is_float_text(value) {
            Some(cat2(value, "deg"))
        } else {
            None
        }
    } else if str_eq(plugin, "perspective") {
        if str_eq(value, "none") {
            Some(owned("none"))
        } else if starts_with(value, "origin-") {
            None
        } else {
            Some(cat3("var(--perspective-", value, ")"))
        }
    } else if str_eq(plugin, "field") {
        static_string(field_sizing_value_of(value))
    } else if str_eq(plugin, "forced") {
        static_string(forced_color_value_of(value))
    } else {
        None
    }
}

} // verus!
