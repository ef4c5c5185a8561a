//! Declarations of bracketed values, such as `w-[13px]` or `text-[#fff]`.
use vstd::prelude::*;
use crate::converter::{decl_list, decls_for, one_decl, opt_decls_view, props_decls};
use crate::parse::{CssVariableValue, ParsedClass};
use crate::plugin_map::{get_plugin_properties, plugin_properties_spec};
use crate::text::{cat2, cat3, chars_of, is_prefix, opt_string_view, starts_with, str_eq};
use crate::types::{DeclView, Declaration};

verus! {

/// What is inside `[` and `]` when `s` is bracketed.
pub open spec fn bracket_inner(s: Seq<char>) -> Option<Seq<char>> {
    if s.len() >= 2 && s[0] == '[' && s[s.len() - 1] == ']' {
        Some(s.subrange(1, s.len() - 1))
    } else {
        None
    }
}

/// What is inside `[` and `]` when `s` is bracketed, such as `[45deg]` → `45deg`.
pub fn extract_bracket_value(s: &str) -> (r: Option<&str>)
    ensures
        match r {
            Some(t) => bracket_inner(s@) == Some(t@),
            None => bracket_inner(s@) is None,
        },
{
    let v = chars_of(s);
    let n = v.len();
    if n >= 2 && v[0] == '[' && v[n - 1] == ']' {
        Some(s.substring_char(1, n - 1))
    } else {
        None
    }
}

/// Whether a bracketed value reads as a color: it starts with `#`, `rgb`,
/// `hsl`, `oklch`, `oklab` or `color(`.
pub open spec fn looks_like_color(v: Seq<char>) -> bool {
    ||| is_prefix("#"@, v)
    ||| is_prefix("rgb"@, v)
    ||| is_prefix("hsl"@, v)
    ||| is_prefix("oklch"@, v)
    ||| is_prefix("oklab"@, v)
    ||| is_prefix("color("@, v)
}

fn looks_like_color_value(v: &str) -> (r: bool)
    ensures
        r == looks_like_color(v@),
{
    starts_with(v, "#") || starts_with(v, "rgb") || starts_with(v, "hsl") || starts_with(v, "oklch")
        || starts_with(v, "oklab") || starts_with(v, "color(")
}

/// One declaration of `color_p` when `raw` reads as a color, else of `other_p`.
pub open spec fn color_or(color_p: Seq<char>, other_p: Seq<char>, raw: Seq<char>) -> Seq<DeclView> {
    if looks_like_color(raw) {
        one_decl(color_p, raw)
    } else {
        one_decl(other_p, raw)
    }
}

fn color_or_of(color_p: &str, other_p: &str, raw: &str) -> (r: Vec<Declaration>)
    ensures
        crate::types::decls_view(r@) == color_or(color_p@, other_p@, raw@),
{
    if looks_like_color_value(raw) {
        decl_list(color_p, raw)
    } else {
        decl_list(other_p, raw)
    }
}

/// The declarations of a bracketed value for the plugins whose property
/// depends on the value; `None` lets the plugin's own properties take it.
pub open spec fn complex_arbitrary(plugin: Seq<char>, negative: bool, raw: Seq<char>) -> Option<Seq<DeclView>> {
    if plugin == "text"@ {
        let value = if negative { "-"@ + raw } else { raw };
        Some(if looks_like_color(raw) { one_decl("color"@, value) } else { one_decl("font-size"@, value) })
    } else if plugin == "bg-linear"@ {
        Some(one_decl("background-image"@, "linear-gradient(var(--tw-gradient-stops, "@ + raw + "))"@))
    } else if plugin == "bg-conic"@ {
        Some(one_decl("background-image"@, raw))
    } else if plugin == "bg-radial"@ {
        Some(one_decl("background-image"@, "radial-gradient(var(--tw-gradient-stops, "@ + raw + "))"@))
    } else if plugin == "from"@ {
        Some(one_decl("--tw-gradient-from"@, raw))
    } else if plugin == "via"@ {
        Some(one_decl("--tw-gradient-via"@, raw))
    } else if plugin == "to"@ {
        Some(one_decl("--tw-gradient-to"@, raw))
    } else if plugin == "border"@ {
        if looks_like_color(raw) { Some(one_decl("border-color"@, raw)) } else { None }
    } else if plugin == "outline"@ {
        Some(color_or("outline-color"@, "outline-width"@, raw))
    } else if plugin == "decoration"@ {
        Some(color_or("text-decoration-color"@, "text-decoration-thickness"@, raw))
    } else if plugin == "stroke"@ {
        Some(color_or("stroke"@, "stroke-width"@, raw))
    } else if plugin == "shadow"@ {
        if looks_like_color(raw) { Some(one_decl("--tw-shadow-color"@, raw)) } else { None }
    } else if plugin == "inset-shadow"@ {
        Some(color_or("--tw-inset-shadow-color"@, "box-shadow"@, raw))
    } else if plugin == "ring"@ {
        Some(if looks_like_color(raw) {
            one_decl("--tw-ring-color"@, raw)
        } else {
            one_decl("--tw-ring-shadow"@, "0 0 0 "@ + raw)
        })
    } else if plugin == "inset-ring"@ {
        Some(if looks_like_color(raw) {
            one_decl("--tw-inset-ring-color"@, raw)
        } else {
            one_decl("--tw-inset-ring-shadow"@, "inset 0 0 0 "@ + raw)
        })
    } else {
        None
    }
}

/// The declarations of a bracketed value for the plugins whose property
/// depends on the value.
pub fn build_complex_arbitrary(plugin: &str, negative: bool, raw: &str) -> (r: Option<Vec<Declaration>>)
    ensures
        opt_decls_view(r) == complex_arbitrary(plugin@, negative, raw@),
{
    if str_eq(plugin, "text") {
        let value = if negative { cat2("-", raw) } else { crate::text::owned(raw) };
        if looks_like_color_value(raw) {
            Some(decl_list("color", value.as_str()))
        } else {
            Some(decl_list("font-size", value.as_str()))
        }
    } else if str_eq(plugin, "bg-linear") {
        let v = cat3("linear-gradient(var(--tw-gradient-stops, ", raw, "))");
        Some(decl_list("background-image", v.as_str()))
    } else if str_eq(plugin, "bg-conic") {
        Some(decl_list("background-image", raw))
    } else if str_eq(plugin, "bg-radial") {
        let v = cat3("radial-gradient(var(--tw-gradient-stops, ", raw, "))");
        Some(decl_list("background-image", v.as_str()))
    } else if str_eq(plugin, "from") {
        Some(decl_list("--tw-gradient-from", raw))
    } else if str_eq(plugin, "via") {
        Some(decl_list("--tw-gradient-via", raw))
    } else if str_eq(plugin, "to") {
        Some(decl_list("--tw-gradient-to", raw))
    } else if str_eq(plugin, "border") {
        if looks_like_color_value(raw) { Some(decl_list("border-color", raw)) } else { None }
    } else if str_eq(plugin, "outline") {
        Some(color_or_of("outline-color", "outline-width", raw))
    } else if str_eq(plugin, "decoration") {
        Some(color_or_of("text-decoration-color", "text-decoration-thickness", raw))
    } else if str_eq(plugin, "stroke") {
        Some(color_or_of("stroke", "stroke-width", raw))
    } else if str_eq(plugin, "shadow") {
        if looks_like_color_value(raw) { Some(decl_list("--tw-shadow-color", raw)) } else { None }
    } else if str_eq(plugin, "inset-shadow") {
        Some(color_or_of("--tw-inset-shadow-color", "box-shadow", raw))
    } else if str_eq(plugin, "ring") {
        if looks_like_color_value(raw) {
            Some(decl_list("--tw-ring-color", raw))
        } else {
            let v = cat2("0 0 0 ", raw);
            Some(decl_list("--tw-ring-shadow", v.as_str()))
        }
    } else if str_eq(plugin, "inset-ring") {
        if looks_like_color_value(raw) {
            Some(decl_list("--tw-inset-ring-color", raw))
        } else {
            let v = cat2("inset 0 0 0 ", raw);
            Some(decl_list("--tw-inset-ring-shadow", v.as_str()))
        }
    } else {
        None
    }
}

/// The declarations of a bracketed value: those of [`complex_arbitrary`], or
/// else the plugin's properties with the value (with `-` for a negative class).
pub open spec fn arbitrary_decls(plugin: Seq<char>, negative: bool, raw: Seq<char>) -> Option<Seq<DeclView>> {
    match complex_arbitrary(plugin, negative, raw) {
        Some(d) => Some(d),
        None => match plugin_properties_spec(plugin) {
            Some(props) => Some(props_decls(props, if negative { "-"@ + raw } else { raw })),
            None => None,
        },
    }
}

/// The declarations of a class's bracketed value, such as `w-[13px]` → `width: 13px`.
pub fn build_arbitrary_declarations(parsed: &ParsedClass, raw_value: &str) -> (r: Option<Vec<Declaration>>)
    ensures
        opt_decls_view(r) == arbitrary_decls(parsed.plugin@, parsed.negative, raw_value@),
{
    if let Some(decls) = build_complex_arbitrary(parsed.plugin.as_str(), parsed.negative, raw_value) {
        return Some(decls);
    }
    match get_plugin_properties(parsed.plugin.as_str()) {
        Some(props) => {
            let value = if parsed.negative { cat2("-", raw_value) } else { crate::text::owned(raw_value) };
            Some(decls_for(&props, value.as_str()))
        },
        None => None,
    }
}


// ── Custom properties ───────────────────────────────────────────────────────

/// The property that a type hint selects for a plugin: `bg` with `image` or
/// `color`, `text` with `color`, `length` or `size`, and `border` with `length`
/// or `size` have their own; else `image` is `background-image`, `color` is
/// `color`, `font` is `font-family` and `length` or `size` is `width`; any
/// other hint is itself the property.
pub open spec fn hinted_property(plugin: Seq<char>, hint: Seq<char>) -> Seq<char> {
    if plugin == "bg"@ && hint == "image"@ {
        "background-image"@
    } else if plugin == "bg"@ && hint == "color"@ {
        "background-color"@
    } else if plugin == "text"@ && hint == "color"@ {
        "color"@
    } else if plugin == "text"@ && (hint == "length"@ || hint == "size"@) {
        "font-size"@
    } else if plugin == "border"@ && (hint == "length"@ || hint == "size"@) {
        "border-width"@
    } else if hint == "image"@ {
        "background-image"@
    } else if hint == "color"@ {
        "color"@
    } else if hint == "font"@ {
        "font-family"@
    } else if hint == "length"@ || hint == "size"@ {
        "width"@
    } else {
        hint
    }
}

/// The declaration that a plugin makes of a custom property without a type
/// hint, for the plugins that have their own (gradients, gradient stops and
/// the color plugins).
pub open spec fn css_variable_special(plugin: Seq<char>, var: Seq<char>) -> Option<DeclView> {
    if plugin == "bg-linear"@ {
        Some(("background-image"@, "linear-gradient(var(--tw-gradient-stops, "@ + var + "))"@))
    } else if plugin == "bg-radial"@ {
        Some(("background-image"@, "radial-gradient(var(--tw-gradient-stops, "@ + var + "))"@))
    } else if plugin == "bg-conic"@ {
        Some(("background-image"@, var))
    } else if plugin == "from"@ {
        Some(("--tw-gradient-from"@, var))
    } else if plugin == "via"@ {
        Some(("--tw-gradient-via"@, var))
    } else if plugin == "to"@ {
        Some(("--tw-gradient-to"@, var))
    } else if plugin == "text"@ {
        Some(("color"@, var))
    } else if plugin == "border"@ {
        Some(("border-color"@, var))
    } else if plugin == "outline"@ {
        Some(("outline-color"@, var))
    } else if plugin == "decoration"@ {
        Some(("text-decoration-color"@, var))
    } else if plugin == "stroke"@ {
        Some(("stroke"@, var))
    } else if plugin == "shadow"@ {
        Some(("--tw-shadow-color"@, var))
    } else if plugin == "inset-shadow"@ {
        Some(("--tw-inset-shadow-color"@, var))
    } else if plugin == "ring"@ {
        Some(("--tw-ring-shadow"@, "0 0 0 "@ + var))
    } else if plugin == "inset-ring"@ {
        Some(("--tw-inset-ring-shadow"@, "inset 0 0 0 "@ + var))
    } else {
        None
    }
}

/// The declarations of a custom-property value such as `bg-(--my-color)`:
/// `var(property)` under the property that the type hint selects, or the
/// plugin's own property for it, or each property of the plugin.
pub open spec fn css_variable_decls(plugin: Seq<char>, property: Seq<char>, hint: Option<Seq<char>>) -> Option<Seq<DeclView>> {
    let var = "var("@ + property + ")"@;
    match hint {
        Some(h) => Some(one_decl(hinted_property(plugin, h), var)),
        None => match css_variable_special(plugin, var) {
            Some(d) => Some(seq![d]),
            None => match plugin_properties_spec(plugin) {
                Some(props) => Some(props_decls(props, var)),
                None => None,
            },
        },
    }
}

fn hinted_property_of(plugin: &str, hint: &str) -> (r: String)
    ensures
        r@ == hinted_property(plugin@, hint@),
{
    let bg = str_eq(plugin, "bg");
    let text = str_eq(plugin, "text");
    let border = str_eq(plugin, "border");
    let image = str_eq(hint, "image");
    let color = str_eq(hint, "color");
    let length = str_eq(hint, "length") || str_eq(hint, "size");
    let p = if bg && image {
        "background-image"
    } else if bg && color {
        "background-color"
    } else if text && color {
        "color"
    } else if text && length {
        "font-size"
    } else if border && length {
        "border-width"
    } else if image {
        "background-image"
    } else if color {
        "color"
    } else if str_eq(hint, "font") {
        "font-family"
    } else if length {
        "width"
    } else {
        hint
    };
    crate::text::owned(p)
}

fn css_variable_special_of(plugin: &str, var: &str) -> (r: Option<Declaration>)
    ensures
        crate::converter::opt_decl_view(r) == css_variable_special(plugin@, var@),
{
    if str_eq(plugin, "bg-linear") {
        Some(Declaration::from_parts(crate::text::owned("background-image"), cat3("linear-gradient(var(--tw-gradient-stops, ", var, "))")))
    } else if str_eq(plugin, "bg-radial") {
        Some(Declaration::from_parts(crate::text::owned("background-image"), cat3("radial-gradient(var(--tw-gradient-stops, ", var, "))")))
    } else if str_eq(plugin, "bg-conic") {
        Some(Declaration::new("background-image", var))
    } else if str_eq(plugin, "from") {
        Some(Declaration::new("--tw-gradient-from", var))
    } else if str_eq(plugin, "via") {
        Some(Declaration::new("--tw-gradient-via", var))
    } else if str_eq(plugin, "to") {
        Some(Declaration::new("--tw-gradient-to", var))
    } else if str_eq(plugin, "text") {
        Some(Declaration::new("color", var))
    } else if str_eq(plugin, "border") {
        Some(Declaration::new("border-color", var))
    } else if str_eq(plugin, "outline") {
        Some(Declaration::new("outline-color", var))
    } else if str_eq(plugin, "decoration") {
        Some(Declaration::new("text-decoration-color", var))
    } else if str_eq(plugin, "stroke") {
        Some(Declaration::new("stroke", var))
    } else if str_eq(plugin, "shadow") {
        Some(Declaration::new("--tw-shadow-color", var))
    } else if str_eq(plugin, "inset-shadow") {
        Some(Declaration::new("--tw-inset-shadow-color", var))
    } else if str_eq(plugin, "ring") {
        Some(Declaration::from_parts(crate::text::owned("--tw-ring-shadow"), cat2("0 0 0 ", var)))
    } else if str_eq(plugin, "inset-ring") {
        Some(Declaration::from_parts(crate::text::owned("--tw-inset-ring-shadow"), cat2("inset 0 0 0 ", var)))
    } else {
        None
    }
}

/// The declarations of a custom-property value, such as `bg-(--my-color)` →
/// `background-color: var(--my-color)` or `bg-(image:--my-bg)` →
/// `background-image: var(--my-bg)`.
pub fn build_css_variable_declarations(parsed: &ParsedClass, cv: &CssVariableValue) -> (r: Option<Vec<Declaration>>)
    ensures
        opt_decls_view(r) == css_variable_decls(parsed.plugin@, cv.property@, opt_string_view(cv.type_hint)),
{
    let var = cat3("var(", cv.property.as_str(), ")");
    match &cv.type_hint {
        Some(hint) => {
            let p = hinted_property_of(parsed.plugin.as_str(), hint.as_str());
            Some(decl_list(p.as_str(), var.as_str()))
        },
        None => match css_variable_special_of(parsed.plugin.as_str(), var.as_str()) {
            Some(d) => {
                let mut out: Vec<Declaration> = Vec::new();
                out.push(d);
                assert(crate::types::decls_view(out@) =~= seq![d@]);
                Some(out)
            },
            None => match get_plugin_properties(parsed.plugin.as_str()) {
                Some(props) => Some(decls_for(&props, var.as_str())),
                None => None,
            },
        },
    }
}

} // verus!
