//! Conversion of a parsed class into CSS declarations, and into a rule with
//! its selector, by the plugin and value tables.
use vstd::prelude::*;
use crate::text::opt_string_view;
use crate::converter::arbitrary::{arbitrary_decls, build_arbitrary_declarations, build_css_variable_declarations, css_variable_decls};
use crate::converter::color::{alpha_decls, apply_alpha_to_declarations, apply_important, important_decls};
use crate::converter::selector::{build_selector, selector_text};
use crate::converter::standard::{build_complex_standard, complex_standard};
use crate::converter::valueless::{
    build_valueless_declarations, build_valueless_from_full_name, valueless_decls, valueless_full,
};
use crate::num::{fixed_point, fixed_point_string, numeral_spec, parse_numeral};
use crate::parse::{ClassModel, ParsedClass, ParsedValue, ValueModel};
use crate::plugin_map::{get_plugin_properties, plugin_properties_spec};
use crate::text::{cat2, owned};
use crate::types::{decls_view, ColorMode, DeclView, Declaration};
use crate::value_map::{infer_value, inferred_value};

pub mod arbitrary;
pub mod color;
pub mod selector;
pub mod standard;
pub mod valueless;

verus! {

// ── Declaration lists ───────────────────────────────────────────────────────

/// One declaration of `p` with `v`.
pub open spec fn one_decl(p: Seq<char>, v: Seq<char>) -> Seq<DeclView> {
    seq![(p, v)]
}

/// The text of an optional declaration.
pub open spec fn opt_decl_view(r: Option<Declaration>) -> Option<DeclView> {
    match r {
        Some(d) => Some(d@),
        None => None,
    }
}

/// The texts of an optional list of declarations.
pub open spec fn opt_decls_view(r: Option<Vec<Declaration>>) -> Option<Seq<DeclView>> {
    match r {
        Some(v) => Some(decls_view(v@)),
        None => None,
    }
}

/// A list of one declaration of `p` with `v`.
pub fn decl_list(p: &str, v: &str) -> (r: Vec<Declaration>)
    ensures
        decls_view(r@) == one_decl(p@, v@),
{
    let mut out: Vec<Declaration> = Vec::new();
    out.push(Declaration::new(p, v));
    assert(decls_view(out@) =~= one_decl(p@, v@));
    out
}

/// A list of the one declaration, when there is one.
pub fn single(d: Option<Declaration>) -> (r: Option<Vec<Declaration>>)
    ensures
        opt_decls_view(r) == (match opt_decl_view(d) {
            Some(x) => Some(seq![x]),
            None => None::<Seq<DeclView>>,
        }),
{
    match d {
        Some(x) => {
            let ghost xv = x@;
            let mut out: Vec<Declaration> = Vec::new();
            out.push(x);
            assert(decls_view(out@) =~= seq![xv]);
            Some(out)
        },
        None => None,
    }
}

/// `a` if it is present, else `b`.
pub open spec fn first_decls(a: Option<Seq<DeclView>>, b: Option<Seq<DeclView>>) -> Option<Seq<DeclView>> {
    match a {
        Some(x) => Some(x),
        None => b,
    }
}

/// One declaration of each property with the value `v`.
pub open spec fn props_decls(props: Seq<Seq<char>>, v: Seq<char>) -> Seq<DeclView> {
    props.map_values(|p: Seq<char>| (p, v))
}

/// One declaration of each property with the value `v`.
pub fn decls_for(props: &Vec<&'static str>, v: &str) -> (r: Vec<Declaration>)
    ensures
        decls_view(r@) == props_decls(props@.map_values(|s: &str| s@), v@),
{
    let mut out: Vec<Declaration> = Vec::new();
    let mut i: usize = 0;
    while i < props.len()
        invariant
            i <= props@.len(),
            out@.len() == i,
            forall|j: int| 0 <= j < i ==> #[trigger] out@[j]@ == (props@[j]@, v@),
        decreases props@.len() - i,
    {
        out.push(Declaration::new(props[i], v));
        i = i + 1;
    }
    assert(decls_view(out@) =~= props_decls(props@.map_values(|s: &str| s@), v@));
    out
}

// ── Numbers written back ────────────────────────────────────────────────────

/// The shortest text of a decimal numeral's value, with its `-` kept: `07.50`
/// is `7.5` and `-0` is `-0`.
pub open spec fn number_text(s: Seq<char>) -> Option<Seq<char>> {
    match numeral_spec(s) {
        Some((neg, n, f)) => Some(if neg { "-"@ + fixed_point(n, f) } else { fixed_point(n, f) }),
        None => None,
    }
}

/// The shortest text of a decimal numeral's value.
pub fn number_text_of(s: &str) -> (r: Option<String>)
    ensures
        opt_string_view(r) == number_text(s@),
{
    match parse_numeral(s) {
        Some((neg, n, f)) => {
            proof {
                assert(f <= 19) by {
                    assert(numeral_spec(s@) is Some);
                }
            }
            let t = fixed_point_string(n as u128, f);
            if neg {
                Some(cat2("-", t.as_str()))
            } else {
                Some(t)
            }
        },
        None => None,
    }
}

// ── Rules and the converter ─────────────────────────────────────────────────

/// A CSS rule: a selector (such as `.p-4:hover` or a media query around it)
/// and its declarations.
#[derive(Debug, Clone, PartialEq)]
pub struct CssRule {
    /// The selector, such as `.my-class:hover`.
    pub selector: String,
    /// The declarations of the rule.
    pub declarations: Vec<Declaration>,
}

/// Converts classes into CSS by the plugin and value tables.
#[derive(Debug, Clone, Copy)]
pub struct Converter {
    /// Whether theme values are written as variables (`var(--text-3xl)`) or inline.
    pub use_variables: bool,
    /// How colors are written.
    pub color_mode: ColorMode,
    /// Whether an alpha is applied to colors with `color-mix()`.
    pub use_color_mix: bool,
}

/// The declarations of a standard value: those of [`complex_standard`], or else
/// the plugin's properties with the inferred value (with `-` for a negative class).
pub open spec fn standard_decls(cv: Converter, c: ClassModel, value: Seq<char>) -> Option<Seq<DeclView>> {
    match complex_standard(cv.use_variables, cv.color_mode, c.plugin, value, c.negative, c.alpha) {
        Some(d) => Some(d),
        None => match plugin_properties_spec(c.plugin) {
            Some(props) => match inferred_value(c.plugin, value, cv.color_mode) {
                Some(v) => Some(props_decls(props, if c.negative { "-"@ + v } else { v })),
                None => None,
            },
            None => None,
        },
    }
}

/// The declarations of a class before its alpha and importance: by its
/// bracketed value, its standard value (or the whole name as a class without
/// a value), or its plugin alone.
pub open spec fn base_decls(cv: Converter, c: ClassModel) -> Option<Seq<DeclView>> {
    match c.value {
        Some(ValueModel::Arbitrary(_, content)) => arbitrary_decls(c.plugin, c.negative, content),
        Some(ValueModel::Standard(v)) => first_decls(standard_decls(cv, c, v), valueless_full(c.plugin, v)),
        Some(ValueModel::CssVariable(p, hint)) => css_variable_decls(c.plugin, p, hint),
        None => valueless_decls(c.plugin),
    }
}

/// The declarations of a class: [`base_decls`] with the alpha applied to the
/// color properties and `!important` added when the class is important.
pub open spec fn class_decls(cv: Converter, c: ClassModel) -> Option<Seq<DeclView>> {
    match base_decls(cv, c) {
        Some(ds) => {
            let a = match c.alpha {
                Some(al) => alpha_decls(ds, al, cv.use_color_mix),
                None => ds,
            };
            Some(if c.important { important_decls(a) } else { a })
        },
        None => None,
    }
}

impl Converter {
    /// A converter that writes theme values as variables and colors in hex.
    pub fn new() -> (r: Self)
        ensures
            r.use_variables,
            r.color_mode == ColorMode::Hex,
            !r.use_color_mix,
    {
        Converter { use_variables: true, color_mode: ColorMode::Hex, use_color_mix: false }
    }

    /// A converter that writes theme values inline.
    pub fn with_inline() -> (r: Self)
        ensures
            !r.use_variables,
            r.color_mode == ColorMode::Hex,
            !r.use_color_mix,
    {
        Converter { use_variables: false, color_mode: ColorMode::Hex, use_color_mix: false }
    }

    /// This converter with another color mode.
    pub fn with_color_mode(self, mode: ColorMode) -> (r: Self)
        ensures
            r.use_variables == self.use_variables,
            r.color_mode == mode,
            r.use_color_mix == self.use_color_mix,
    {
        Converter { color_mode: mode, ..self }
    }

    /// This converter with alpha applied by `color-mix()` or not.
    pub fn with_color_mix(self, enabled: bool) -> (r: Self)
        ensures
            r.use_variables == self.use_variables,
            r.color_mode == self.color_mode,
            r.use_color_mix == enabled,
    {
        Converter { use_color_mix: enabled, ..self }
    }

    fn build_standard_declarations(&self, parsed: &ParsedClass, value: &str) -> (r: Option<Vec<Declaration>>)
        ensures
            opt_decls_view(r) == standard_decls(*self, parsed@, value@),
    {
        if let Some(decls) = build_complex_standard(
            self.use_variables,
            self.color_mode,
            parsed.plugin.as_str(),
            value,
            parsed.negative,
            &parsed.alpha,
        ) {
            return Some(decls);
        }
        let properties = match get_plugin_properties(parsed.plugin.as_str()) {
            Some(p) => p,
            None => return None,
        };
        let css_value = match infer_value(parsed.plugin.as_str(), value, self.color_mode) {
            Some(v) => v,
            None => return None,
        };
        let css_value = if parsed.negative { cat2("-", css_value.as_str()) } else { css_value };
        Some(decls_for(&properties, css_value.as_str()))
    }

    /// The declarations of a class, without a selector.
    pub fn to_declarations(&self, parsed: &ParsedClass) -> (r: Option<Vec<Declaration>>)
        ensures
            opt_decls_view(r) == class_decls(*self, parsed@),
    {
        let declarations = match &parsed.value {
            Some(ParsedValue::Arbitrary(arb)) => build_arbitrary_declarations(parsed, arb.content.as_str()),
            Some(ParsedValue::Standard(value)) => match self.build_standard_declarations(parsed, value.as_str()) {
                Some(d) => Some(d),
                None => build_valueless_from_full_name(parsed, value.as_str()),
            },
            Some(ParsedValue::CssVariable(v)) => build_css_variable_declarations(parsed, v),
            None => build_valueless_declarations(parsed),
        };
        let declarations = match declarations {
            Some(d) => d,
            None => return None,
        };
        let declarations = match &parsed.alpha {
            Some(alpha) => apply_alpha_to_declarations(declarations, alpha.as_str(), self.use_color_mix),
            None => declarations,
        };
        Some(apply_important(declarations, parsed.important))
    }

    /// The rule of a class: its declarations and its selector.
    pub fn convert(&self, parsed: &ParsedClass) -> (r: Option<CssRule>)
        ensures
            match r {
                Some(rule) => class_decls(*self, parsed@) == Some(decls_view(rule.declarations@))
                    && rule.selector@ == selector_text(parsed@),
                None => class_decls(*self, parsed@) is None,
            },
    {
        let declarations = match self.to_declarations(parsed) {
            Some(d) => d,
            None => return None,
        };
        let selector = build_selector(parsed);
        Some(CssRule { selector, declarations })
    }
}

impl Default for Converter {
    fn default() -> (r: Self)
        ensures
            r.use_variables,
            r.color_mode == ColorMode::Hex,
            !r.use_color_mix,
    {
        Self::new()
    }
}

} // verus!
