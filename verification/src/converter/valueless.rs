//! Declarations of classes without a value, such as `flex` or `antialiased`.
use vstd::prelude::*;
use crate::converter::{opt_decls_view, single};
use crate::parse::ParsedClass;
use crate::plugin_map::opt_pair_view;
use crate::text::{cat3, str_eq};
use crate::types::{DeclView, Declaration};

verus! {

/// The single declaration of a class without a value, such as `flex` → `display: flex`.
pub open spec fn valueless_entry(name: Seq<char>) -> Option<(Seq<char>, Seq<char>)> {
    if name == "block"@ {
        Some(("display"@, "block"@))
    } else if name == "inline-block"@ {
        Some(("display"@, "inline-block"@))
    } else if name == "inline"@ {
        Some(("display"@, "inline"@))
    } else if name == "flex"@ {
        Some(("display"@, "flex"@))
    } else if name == "inline-flex"@ {
        Some(("display"@, "inline-flex"@))
    } else if name == "grid"@ {
        Some(("display"@, "grid"@))
    } else if name == "inline-grid"@ {
        Some(("display"@, "inline-grid"@))
    } else if name == "hidden"@ {
        Some(("display"@, "none"@))
    } else if name == "contents"@ {
        Some(("display"@, "contents"@))
    } else if name == "table"@ {
        Some(("display"@, "table"@))
    } else if name == "static"@ {
        Some(("position"@, "static"@))
    } else if name == "fixed"@ {
        Some(("position"@, "fixed"@))
    } else if name == "absolute"@ {
        Some(("position"@, "absolute"@))
    } else if name == "relative"@ {
        Some(("position"@, "relative"@))
    } else if name == "sticky"@ {
        Some(("position"@, "sticky"@))
    } else if name == "overflow-auto"@ {
        Some(("overflow"@, "auto"@))
    } else if name == "overflow-hidden"@ {
        Some(("overflow"@, "hidden"@))
    } else if name == "overflow-visible"@ {
        Some(("overflow"@, "visible"@))
    } else if name == "overflow-scroll"@ {
        Some(("overflow"@, "scroll"@))
    } else if name == "overflow-clip"@ {
        Some(("overflow"@, "clip"@))
    } else if name == "flex-row"@ {
        Some(("flex-direction"@, "row"@))
    } else if name == "flex-row-reverse"@ {
        Some(("flex-direction"@, "row-reverse"@))
    } else if name == "flex-col"@ {
        Some(("flex-direction"@, "column"@))
    } else if name == "flex-col-reverse"@ {
        Some(("flex-direction"@, "column-reverse"@))
    } else if name == "flex-wrap"@ {
        Some(("flex-wrap"@, "wrap"@))
    } else if name == "flex-wrap-reverse"@ {
        Some(("flex-wrap"@, "wrap-reverse"@))
    } else if name == "flex-nowrap"@ {
        Some(("flex-wrap"@, "nowrap"@))
    } else if name == "items-start"@ {
        Some(("align-items"@, "flex-start"@))
    } else if name == "items-end"@ {
        Some(("align-items"@, "flex-end"@))
    } else if name == "items-center"@ {
        Some(("align-items"@, "center"@))
    } else if name == "items-baseline"@ {
        Some(("align-items"@, "baseline"@))
    } else if name == "items-stretch"@ {
        Some(("align-items"@, "stretch"@))
    } else if name == "pointer-events-none"@ {
        Some(("pointer-events"@, "none"@))
    } else if name == "pointer-events-auto"@ {
        Some(("pointer-events"@, "auto"@))
    } else if name == "cursor-auto"@ {
        Some(("cursor"@, "auto"@))
    } else if name == "cursor-default"@ {
        Some(("cursor"@, "default"@))
    } else if name == "cursor-pointer"@ {
        Some(("cursor"@, "pointer"@))
    } else if name == "cursor-wait"@ {
        Some(("cursor"@, "wait"@))
    } else if name == "cursor-text"@ {
        Some(("cursor"@, "text"@))
    } else if name == "cursor-move"@ {
        Some(("cursor"@, "move"@))
    } else if name == "cursor-not-allowed"@ {
        Some(("cursor"@, "not-allowed"@))
    } else if name == "visible"@ {
        Some(("visibility"@, "visible"@))
    } else if name == "invisible"@ {
        Some(("visibility"@, "hidden"@))
    } else if name == "collapse"@ {
        Some(("visibility"@, "collapse"@))
    } else if name == "uppercase"@ {
        Some(("text-transform"@, "uppercase"@))
    } else if name == "lowercase"@ {
        Some(("text-transform"@, "lowercase"@))
    } else if name == "capitalize"@ {
        Some(("text-transform"@, "capitalize"@))
    } else if name == "normal-case"@ {
        Some(("text-transform"@, "none"@))
    } else if name == "italic"@ {
        Some(("font-style"@, "italic"@))
    } else if name == "not-italic"@ {
        Some(("font-style"@, "normal"@))
    } else if name == "underline"@ {
        Some(("text-decoration-line"@, "underline"@))
    } else if name == "overline"@ {
        Some(("text-decoration-line"@, "overline"@))
    } else if name == "line-through"@ {
        Some(("text-decoration-line"@, "line-through"@))
    } else if name == "no-underline"@ {
        Some(("text-decoration-line"@, "none"@))
    } else if name == "ordinal"@ {
        Some(("font-variant-numeric"@, "ordinal"@))
    } else if name == "diagonal-fractions"@ {
        Some(("font-variant-numeric"@, "diagonal-fractions"@))
    } else if name == "stacked-fractions"@ {
        Some(("font-variant-numeric"@, "stacked-fractions"@))
    } else if name == "lining-nums"@ {
        Some(("font-variant-numeric"@, "lining-nums"@))
    } else if name == "tabular-nums"@ {
        Some(("font-variant-numeric"@, "tabular-nums"@))
    } else if name == "oldstyle-nums"@ {
        Some(("font-variant-numeric"@, "oldstyle-nums"@))
    } else if name == "proportional-nums"@ {
        Some(("font-variant-numeric"@, "proportional-nums"@))
    } else if name == "slashed-zero"@ {
        Some(("font-variant-numeric"@, "slashed-zero"@))
    } else if name == "normal-nums"@ {
        Some(("font-variant-numeric"@, "normal"@))
    } else if name == "isolate"@ {
        Some(("isolation"@, "isolate"@))
    } else if name == "isolation-auto"@ {
        Some(("isolation"@, "auto"@))
    } else if name == "grow"@ {
        Some(("flex-grow"@, "1"@))
    } else if name == "shrink"@ {
        Some(("flex-shrink"@, "1"@))
    } else if name == "grayscale"@ {
        Some(("filter"@, "grayscale(100%)"@))
    } else if name == "invert"@ {
        Some(("filter"@, "invert(100%)"@))
    } else if name == "sepia"@ {
        Some(("filter"@, "sepia(100%)"@))
    } else if name == "backdrop-grayscale"@ {
        Some(("backdrop-filter"@, "grayscale(100%)"@))
    } else if name == "backdrop-invert"@ {
        Some(("backdrop-filter"@, "invert(100%)"@))
    } else if name == "backdrop-sepia"@ {
        Some(("backdrop-filter"@, "sepia(100%)"@))
    } else if name == "border"@ {
        Some(("border-width"@, "1px"@))
    } else if name == "outline"@ {
        Some(("outline-width"@, "1px"@))
    } else if name == "ring"@ {
        Some(("--tw-ring-shadow"@, "0 0 0 1px"@))
    } else if name == "inset-ring"@ {
        Some(("--tw-inset-ring-shadow"@, "inset 0 0 0 1px"@))
    } else if name == "resize"@ {
        Some(("resize"@, "both"@))
    } else if name == "box-border"@ {
        Some(("box-sizing"@, "border-box"@))
    } else if name == "box-content"@ {
        Some(("box-sizing"@, "content-box"@))
    } else {
        None
    }
}

/// The single declaration of a class without a value.
fn valueless_entry_of(name: &str) -> (r: Option<(&'static str, &'static str)>)
    ensures
        opt_pair_view(r) == valueless_entry(name@),
{
    if str_eq(name, "block") {
        Some(("display", "block"))
    } else if str_eq(name, "inline-block") {
        Some(("display", "inline-block"))
    } else if str_eq(name, "inline") {
        Some(("display", "inline"))
    } else if str_eq(name, "flex") {
        Some(("display", "flex"))
    } else if str_eq(name, "inline-flex") {
        Some(("display", "inline-flex"))
    } else if str_eq(name, "grid") {
        Some(("display", "grid"))
    } else if str_eq(name, "inline-grid") {
        Some(("display", "inline-grid"))
    } else if str_eq(name, "hidden") {
        Some(("display", "none"))
    } else if str_eq(name, "contents") {
        Some(("display", "contents"))
    } else if str_eq(name, "table") {
        Some(("display", "table"))
    } else if str_eq(name, "static") {
        Some(("position", "static"))
    } else if str_eq(name, "fixed") {
        Some(("position", "fixed"))
    } else if str_eq(name, "absolute") {
        Some(("position", "absolute"))
    } else if str_eq(name, "relative") {
        Some(("position", "relative"))
    } else if str_eq(name, "sticky") {
        Some(("position", "sticky"))
    } else if str_eq(name, "overflow-auto") {
        Some(("overflow", "auto"))
    } else if str_eq(name, "overflow-hidden") {
        Some(("overflow", "hidden"))
    } else if str_eq(name, "overflow-visible") {
        Some(("overflow", "visible"))
    } else if str_eq(name, "overflow-scroll") {
        Some(("overflow", "scroll"))
    } else if str_eq(name, "overflow-clip") {
        Some(("overflow", "clip"))
    } else if str_eq(name, "flex-row") {
        Some(("flex-direction", "row"))
    } else if str_eq(name, "flex-row-reverse") {
        Some(("flex-direction", "row-reverse"))
    } else if str_eq(name, "flex-col") {
        Some(("flex-direction", "column"))
    } else if str_eq(name, "flex-col-reverse") {
        Some(("flex-direction", "column-reverse"))
    } else if str_eq(name, "flex-wrap") {
        Some(("flex-wrap", "wrap"))
    } else if str_eq(name, "flex-wrap-reverse") {
        Some(("flex-wrap", "wrap-reverse"))
    } else if str_eq(name, "flex-nowrap") {
        Some(("flex-wrap", "nowrap"))
    } else if str_eq(name, "items-start") {
        Some(("align-items", "flex-start"))
    } else if str_eq(name, "items-end") {
        Some(("align-items", "flex-end"))
    } else if str_eq(name, "items-center") {
        Some(("align-items", "center"))
    } else if str_eq(name, "items-baseline") {
        Some(("align-items", "baseline"))
    } else if str_eq(name, "items-stretch") {
        Some(("align-items", "stretch"))
    } else if str_eq(name, "pointer-events-none") {
        Some(("pointer-events", "none"))
    } else if str_eq(name, "pointer-events-auto") {
        Some(("pointer-events", "auto"))
    } else if str_eq(name, "cursor-auto") {
        Some(("cursor", "auto"))
    } else if str_eq(name, "cursor-default") {
        Some(("cursor", "default"))
    } else if str_eq(name, "cursor-pointer") {
        Some(("cursor", "pointer"))
    } else if str_eq(name, "cursor-wait") {
        Some(("cursor", "wait"))
    } else if str_eq(name, "cursor-text") {
        Some(("cursor", "text"))
    } else if str_eq(name, "cursor-move") {
        Some(("cursor", "move"))
    } else if str_eq(name, "cursor-not-allowed") {
        Some(("cursor", "not-allowed"))
    } else if str_eq(name, "visible") {
        Some(("visibility", "visible"))
    } else if str_eq(name, "invisible") {
        Some(("visibility", "hidden"))
    } else if str_eq(name, "collapse") {
        Some(("visibility", "collapse"))
    } else if str_eq(name, "uppercase") {
        Some(("text-transform", "uppercase"))
    } else if str_eq(name, "lowercase") {
        Some(("text-transform", "lowercase"))
    } else if str_eq(name, "capitalize") {
        Some(("text-transform", "capitalize"))
    } else if str_eq(name, "normal-case") {
        Some(("text-transform", "none"))
    } else if str_eq(name, "italic") {
        Some(("font-style", "italic"))
    } else if str_eq(name, "not-italic") {
        Some(("font-style", "normal"))
    } else if str_eq(name, "underline") {
        Some(("text-decoration-line", "underline"))
    } else if str_eq(name, "overline") {
        Some(("text-decoration-line", "overline"))
    } else if str_eq(name, "line-through") {
        Some(("text-decoration-line", "line-through"))
    } else if str_eq(name, "no-underline") {
        Some(("text-decoration-line", "none"))
    } else if str_eq(name, "ordinal") {
        Some(("font-variant-numeric", "ordinal"))
    } else if str_eq(name, "diagonal-fractions") {
        Some(("font-variant-numeric", "diagonal-fractions"))
    } else if str_eq(name, "stacked-fractions") {
        Some(("font-variant-numeric", "stacked-fractions"))
    } else if str_eq(name, "lining-nums") {
        Some(("font-variant-numeric", "lining-nums"))
    } else if str_eq(name, "tabular-nums") {
        Some(("font-variant-numeric", "tabular-nums"))
    } else if str_eq(name, "oldstyle-nums") {
        Some(("font-variant-numeric", "oldstyle-nums"))
    } else if str_eq(name, "proportional-nums") {
        Some(("font-variant-numeric", "proportional-nums"))
    } else if str_eq(name, "slashed-zero") {
        Some(("font-variant-numeric", "slashed-zero"))
    } else if str_eq(name, "normal-nums") {
        Some(("font-variant-numeric", "normal"))
    } else if str_eq(name, "isolate") {
        Some(("isolation", "isolate"))
    } else if str_eq(name, "isolation-auto") {
        Some(("isolation", "auto"))
    } else if str_eq(name, "grow") {
        Some(("flex-grow", "1"))
    } else if str_eq(name, "shrink") {
        Some(("flex-shrink", "1"))
    } else if str_eq(name, "grayscale") {
        Some(("filter", "grayscale(100%)"))
    } else if str_eq(name, "invert") {
        Some(("filter", "invert(100%)"))
    } else if str_eq(name, "sepia") {
        Some(("filter", "sepia(100%)"))
    } else if str_eq(name, "backdrop-grayscale") {
        Some(("backdrop-filter", "grayscale(100%)"))
    } else if str_eq(name, "backdrop-invert") {
        Some(("backdrop-filter", "invert(100%)"))
    } else if str_eq(name, "backdrop-sepia") {
        Some(("backdrop-filter", "sepia(100%)"))
    } else if str_eq(name, "border") {
        Some(("border-width", "1px"))
    } else if str_eq(name, "outline") {
        Some(("outline-width", "1px"))
    } else if str_eq(name, "ring") {
        Some(("--tw-ring-shadow", "0 0 0 1px"))
    } else if str_eq(name, "inset-ring") {
        Some(("--tw-inset-ring-shadow", "inset 0 0 0 1px"))
    } else if str_eq(name, "resize") {
        Some(("resize", "both"))
    } else if str_eq(name, "box-border") {
        Some(("box-sizing", "border-box"))
    } else if str_eq(name, "box-content") {
        Some(("box-sizing", "content-box"))
    } else {
        None
    }
}

/// The declarations of a class without a value: `antialiased`, or one entry of
/// the table.
pub open spec fn valueless_decls(name: Seq<char>) -> Option<Seq<DeclView>> {
    if name == "antialiased"@ {
        Some(seq![("-webkit-font-smoothing"@, "antialiased"@), ("-moz-osx-font-smoothing"@, "grayscale"@)])
    } else {
        match valueless_entry(name) {
            Some(d) => Some(seq![d]),
            None => None,
        }
    }
}

/// The declarations of `plugin-value` read as one class without a value:
/// `subpixel-antialiased`, or one entry of the table.
pub open spec fn valueless_full(plugin: Seq<char>, value: Seq<char>) -> Option<Seq<DeclView>> {
    let full = plugin + "-"@ + value;
    if full == "subpixel-antialiased"@ {
        Some(seq![("-webkit-font-smoothing"@, "auto"@), ("-moz-osx-font-smoothing"@, "auto"@)])
    } else {
        match valueless_entry(full) {
            Some(d) => Some(seq![d]),
            None => None,
        }
    }
}

fn entry_decls(e: Option<(&'static str, &'static str)>) -> (r: Option<Vec<Declaration>>)
    ensures
        opt_decls_view(r) == (match opt_pair_view(e) {
            Some(d) => Some(seq![d]),
            None => None::<Seq<DeclView>>,
        }),
{
    match e {
        Some((p, v)) => single(Some(Declaration::new(p, v))),
        None => None,
    }
}

fn pair_decls(p1: &str, v1: &str, p2: &str, v2: &str) -> (r: Vec<Declaration>)
    ensures
        crate::types::decls_view(r@) == seq![(p1@, v1@), (p2@, v2@)],
{
    let mut out: Vec<Declaration> = Vec::new();
    out.push(Declaration::new(p1, v1));
    out.push(Declaration::new(p2, v2));
    assert(crate::types::decls_view(out@) =~= seq![(p1@, v1@), (p2@, v2@)]);
    out
}

/// The declarations of a class without a value, such as `flex` → `display: flex`.
pub fn build_valueless_declarations(parsed: &ParsedClass) -> (r: Option<Vec<Declaration>>)
    ensures
        opt_decls_view(r) == valueless_decls(parsed.plugin@),
{
    if str_eq(parsed.plugin.as_str(), "antialiased") {
        return Some(pair_decls("-webkit-font-smoothing", "antialiased", "-moz-osx-font-smoothing", "grayscale"));
    }
    entry_decls(valueless_entry_of(parsed.plugin.as_str()))
}

/// The declarations of `plugin-value` read as one class without a value, such
/// as `overflow` with `auto` → `overflow: auto`.
pub fn build_valueless_from_full_name(parsed: &ParsedClass, value: &str) -> (r: Option<Vec<Declaration>>)
    ensures
        opt_decls_view(r) == valueless_full(parsed.plugin@, value@),
{
    let full_name = cat3(parsed.plugin.as_str(), "-", value);
    if str_eq(full_name.as_str(), "subpixel-antialiased") {
        return Some(pair_decls("-webkit-font-smoothing", "auto", "-moz-osx-font-smoothing", "auto"));
    }
    entry_decls(valueless_entry_of(full_name.as_str()))
}

} // verus!
