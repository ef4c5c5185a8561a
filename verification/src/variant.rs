//! Variant names and the CSS selectors and at-rules that they stand for.
use vstd::prelude::*;
use crate::text::{opt_str_view, opt_string_view};
use crate::text::{
    after_prefix, cat2, cat3, chars_of, contains_char, index_of_from, index_of_from_vec,
    is_prefix, lemma_index_of_from_spec, owned, replace_char, replace_char_str, str_eq,
    string_of_chars, strip_prefix,
};

verus! {

// ── Pseudo-classes ──────────────────────────────────────────────────────────

/// The CSS pseudo-class (without its colon) that a pseudo-class variant names.
pub open spec fn pseudo_class_spec(name: Seq<char>) -> Seq<char> {
    if name == "first"@ {
        "first-child"@
    } else if name == "last"@ {
        "last-child"@
    } else if name == "only"@ {
        "only-child"@
    } else if name == "odd"@ {
        "nth-child(odd)"@
    } else if name == "even"@ {
        "nth-child(even)"@
    } else if name == "open"@ {
        "is([open], :popover-open, :open)"@
    } else if name == "inert"@ {
        "is([inert], [inert] *)"@
    } else {
        name
    }
}

/// The CSS selector fragment (without the leading colon) of a pseudo-class variant:
/// `first` is `first-child`, `odd` is `nth-child(odd)`, and most names stand for themselves.
pub fn pseudo_class_selector(name: &str) -> (r: String)
    ensures
        r@ == pseudo_class_spec(name@),
{
    if str_eq(name, "first") {
        owned("first-child")
    } else if str_eq(name, "last") {
        owned("last-child")
    } else if str_eq(name, "only") {
        owned("only-child")
    } else if str_eq(name, "odd") {
        owned("nth-child(odd)")
    } else if str_eq(name, "even") {
        owned("nth-child(even)")
    } else if str_eq(name, "open") {
        owned("is([open], :popover-open, :open)")
    } else if str_eq(name, "inert") {
        owned("is([inert], [inert] *)")
    } else {
        owned(name)
    }
}

/// The at-rule that wraps a pseudo-class variant: only `hover` has one.
pub open spec fn pseudo_class_at_rule_spec(name: Seq<char>) -> Option<Seq<char>> {
    if name == "hover"@ {
        Some("@media (hover: hover)"@)
    } else {
        None
    }
}

/// The at-rule that wraps a pseudo-class: `hover` applies only where the device can hover.
pub fn pseudo_class_at_rule(name: &str) -> (r: Option<&'static str>)
    ensures
        opt_str_view(r) == pseudo_class_at_rule_spec(name@),
{
    if str_eq(name, "hover") {
        Some("@media (hover: hover)")
    } else {
        None
    }
}

// ── Responsive breakpoints ──────────────────────────────────────────────────

/// The width at which a responsive breakpoint starts.
pub open spec fn breakpoint_spec(size: Seq<char>) -> Option<Seq<char>> {
    if size == "sm"@ {
        Some("40rem"@)
    } else if size == "md"@ {
        Some("48rem"@)
    } else if size == "lg"@ {
        Some("64rem"@)
    } else if size == "xl"@ {
        Some("80rem"@)
    } else if size == "2xl"@ {
        Some("96rem"@)
    } else {
        None
    }
}

/// The width at which a standard responsive breakpoint starts.
pub fn breakpoint_value(size: &str) -> (r: Option<&'static str>)
    ensures
        opt_str_view(r) == breakpoint_spec(size@),
{
    if str_eq(size, "sm") {
        Some("40rem")
    } else if str_eq(size, "md") {
        Some("48rem")
    } else if str_eq(size, "lg") {
        Some("64rem")
    } else if str_eq(size, "xl") {
        Some("80rem")
    } else if str_eq(size, "2xl") {
        Some("96rem")
    } else {
        None
    }
}

/// The contents of a `[...]` at the start of `s`, up to the first `]`.
pub open spec fn bracket_spec(s: Seq<char>) -> Option<Seq<char>> {
    if s.len() > 0 && s[0] == '[' {
        let rest = s.subrange(1, s.len() as int);
        let e = index_of_from(rest, ']', 0);
        if e < rest.len() {
            Some(rest.subrange(0, e))
        } else {
            None
        }
    } else {
        None
    }
}

/// The contents of a `[...]` at the start of `s`, up to the first `]`.
fn extract_bracket(s: &str) -> (r: Option<String>)
    ensures
        opt_string_view(r) == bracket_spec(s@),
{
    let v = chars_of(s);
    let n = v.len();
    if n > 0 && v[0] == '[' {
        let e = index_of_from_vec(&v, ']', 1);
        proof {
            let rest = v@.subrange(1, n as int);
            lemma_index_of_from_spec(v@, ']', 1);
            lemma_index_of_from_spec(rest, ']', 0);
            lemma_index_of_from_shift(v@, ']', 1);
            assert(index_of_from(rest, ']', 0) == e - 1);
        }
        if e < n {
            let r = string_of_chars(&v, 1, e);
            proof {
                assert(r@ =~= v@.subrange(1, n as int).subrange(0, e - 1));
            }
            Some(r)
        } else {
            None
        }
    } else {
        None
    }
}

/// Scanning a sequence from `k` finds in its tail from 0 what it finds from `k`, shifted.
proof fn lemma_index_of_from_shift(s: Seq<char>, c: char, k: int)
    requires
        0 <= k <= s.len(),
    ensures
        index_of_from(s.subrange(k, s.len() as int), c, 0) == index_of_from(s, c, k) - k,
{
    let t = s.subrange(k, s.len() as int);
    lemma_index_of_from_spec(s, c, k);
    lemma_index_of_from_spec(t, c, 0);
    let a = index_of_from(s, c, k);
    let b = index_of_from(t, c, 0);
    if b + k < a {
        assert(t[b] == s[b + k]);
    }
    if a - k < b {
        assert(t[a - k] == s[a]);
    }
}

/// Tailwind's bracket escape: each `_` stands for a space.
pub open spec fn unescape_spec(s: Seq<char>) -> Seq<char> {
    replace_char(s, '_', " "@)
}

/// Reads Tailwind's bracket escape: each `_` stands for a space.
fn unescape_bracket(s: &str) -> (r: String)
    ensures
        r@ == unescape_spec(s@),
{
    replace_char_str(s, '_', " ")
}

/// The at-rule of a responsive variant: `sm` (from 40rem on), `max-sm` (below
/// 40rem), `min-[800px]` and `max-[800px]` (custom widths).
pub open spec fn responsive_at_rule_spec(name: Seq<char>) -> Option<Seq<char>> {
    if is_prefix("max-"@, name) {
        let rest = after_prefix("max-"@, name);
        match bracket_spec(rest) {
            Some(arb) => Some("@media (width < "@ + arb + ")"@),
            None => match breakpoint_spec(rest) {
                Some(bp) => Some("@media (width < "@ + bp + ")"@),
                None => None,
            },
        }
    } else if is_prefix("min-"@, name) && bracket_spec(after_prefix("min-"@, name)) is Some {
        Some("@media (width >= "@ + bracket_spec(after_prefix("min-"@, name))->0 + ")"@)
    } else {
        match breakpoint_spec(name) {
            Some(bp) => Some("@media (width >= "@ + bp + ")"@),
            None => None,
        }
    }
}

/// The `@media` rule of a responsive variant.
pub fn responsive_at_rule(name: &str) -> (r: Option<String>)
    ensures
        opt_string_view(r) == responsive_at_rule_spec(name@),
{
    if let Some(rest) = strip_prefix(name, "max-") {
        if let Some(arb) = extract_bracket(rest) {
            return Some(cat3("@media (width < ", arb.as_str(), ")"));
        }
        return match breakpoint_value(rest) {
            Some(bp) => Some(cat3("@media (width < ", bp, ")")),
            None => None,
        };
    }
    if let Some(rest) = strip_prefix(name, "min-") {
        if let Some(arb) = extract_bracket(rest) {
            return Some(cat3("@media (width >= ", arb.as_str(), ")"));
        }
    }
    match breakpoint_value(name) {
        Some(bp) => Some(cat3("@media (width >= ", bp, ")")),
        None => None,
    }
}

// ── Container queries ────────────────────────────────────────────────────────

/// The width at which a container breakpoint starts.
pub open spec fn container_breakpoint_spec(name: Seq<char>) -> Option<Seq<char>> {
    if name == "3xs"@ {
        Some("16rem"@)
    } else if name == "2xs"@ {
        Some("18rem"@)
    } else if name == "xs"@ {
        Some("20rem"@)
    } else if name == "sm"@ {
        Some("24rem"@)
    } else if name == "md"@ {
        Some("28rem"@)
    } else if name == "lg"@ {
        Some("32rem"@)
    } else if name == "xl"@ {
        Some("36rem"@)
    } else if name == "2xl"@ {
        Some("42rem"@)
    } else if name == "3xl"@ {
        Some("48rem"@)
    } else if name == "4xl"@ {
        Some("56rem"@)
    } else if name == "5xl"@ {
        Some("64rem"@)
    } else if name == "6xl"@ {
        Some("72rem"@)
    } else if name == "7xl"@ {
        Some("80rem"@)
    } else {
        None
    }
}

fn container_breakpoint(name: &str) -> (r: Option<&'static str>)
    ensures
        opt_str_view(r) == container_breakpoint_spec(name@),
{
    if str_eq(name, "3xs") {
        Some("16rem")
    } else if str_eq(name, "2xs") {
        Some("18rem")
    } else if str_eq(name, "xs") {
        Some("20rem")
    } else if str_eq(name, "sm") {
        Some("24rem")
    } else if str_eq(name, "md") {
        Some("28rem")
    } else if str_eq(name, "lg") {
        Some("32rem")
    } else if str_eq(name, "xl") {
        Some("36rem")
    } else if str_eq(name, "2xl") {
        Some("42rem")
    } else if str_eq(name, "3xl") {
        Some("48rem")
    } else if str_eq(name, "4xl") {
        Some("56rem")
    } else if str_eq(name, "5xl") {
        Some("64rem")
    } else if str_eq(name, "6xl") {
        Some("72rem")
    } else if str_eq(name, "7xl") {
        Some("80rem")
    } else {
        None
    }
}

/// The at-rule of a container-query size, the part after the variant's `@`:
/// `sm`, `max-sm`, `min-[400px]`, `max-[400px]`.
pub open spec fn container_query_spec(name: Seq<char>) -> Option<Seq<char>> {
    if is_prefix("max-"@, name) {
        let rest = after_prefix("max-"@, name);
        match bracket_spec(rest) {
            Some(arb) => Some("@container (width < "@ + arb + ")"@),
            None => match container_breakpoint_spec(rest) {
                Some(bp) => Some("@container (width < "@ + bp + ")"@),
                None => None,
            },
        }
    } else if is_prefix("min-"@, name) && bracket_spec(after_prefix("min-"@, name)) is Some {
        Some("@container (width >= "@ + bracket_spec(after_prefix("min-"@, name))->0 + ")"@)
    } else {
        match container_breakpoint_spec(name) {
            Some(bp) => Some("@container (width >= "@ + bp + ")"@),
            None => None,
        }
    }
}

/// The at-rule of a container-query variant, written with its `@` or without
/// it: `@sm` and `sm` are `@container (width >= 24rem)`, `@max-sm` is
/// `@container (width < 24rem)`, `@min-[400px]` is `@container (width >= 400px)`.
pub open spec fn container_at_rule_spec(name: Seq<char>) -> Option<Seq<char>> {
    if name.len() > 0 && name[0] == '@' {
        container_query_spec(name.subrange(1, name.len() as int))
    } else {
        container_query_spec(name)
    }
}

/// The `@container` rule of a container-query variant, with or without its `@`.
pub fn container_at_rule(name: &str) -> (r: Option<String>)
    ensures
        opt_string_view(r) == container_at_rule_spec(name@),
{
    let v = chars_of(name);
    if v.len() > 0 && v[0] == '@' {
        container_query(name.substring_char(1, v.len()))
    } else {
        container_query(name)
    }
}

fn container_query(name: &str) -> (r: Option<String>)
    ensures
        opt_string_view(r) == container_query_spec(name@),
{
    if let Some(rest) = strip_prefix(name, "max-") {
        if let Some(arb) = extract_bracket(rest) {
            return Some(cat3("@container (width < ", arb.as_str(), ")"));
        }
        return match container_breakpoint(rest) {
            Some(bp) => Some(cat3("@container (width < ", bp, ")")),
            None => None,
        };
    }
    if let Some(rest) = strip_prefix(name, "min-") {
        if let Some(arb) = extract_bracket(rest) {
            return Some(cat3("@container (width >= ", arb.as_str(), ")"));
        }
    }
    match container_breakpoint(name) {
        Some(bp) => Some(cat3("@container (width >= ", bp, ")")),
        None => None,
    }
}

// ── Parameterized variants ───────────────────────────────────────────────────

/// `open + unescape(bracket) + close` when the rest is a bracket.
pub open spec fn wrap_bracket(rest: Seq<char>, open: Seq<char>, close: Seq<char>) -> Option<Seq<char>> {
    match bracket_spec(rest) {
        Some(arg) => Some(open + unescape_spec(arg) + close),
        None => None,
    }
}

/// The selector of a parameterized variant: `has-[.a]` is `:has(.a)`, `not-[..]`,
/// `nth-[..]`, `nth-last-[..]`, `nth-of-type-[..]`, `nth-last-of-type-[..]`,
/// `aria-[..]` and `aria-name`, `data-[..]` and `in-[..]`.
pub open spec fn parameterized_spec(name: Seq<char>) -> Option<Seq<char>> {
    if is_prefix("has-"@, name) {
        wrap_bracket(after_prefix("has-"@, name), ":has("@, ")"@)
    } else if is_prefix("not-"@, name) {
        wrap_bracket(after_prefix("not-"@, name), ":not("@, ")"@)
    } else if is_prefix("nth-last-of-type-"@, name) {
        wrap_bracket(after_prefix("nth-last-of-type-"@, name), ":nth-last-of-type("@, ")"@)
    } else if is_prefix("nth-of-type-"@, name) {
        wrap_bracket(after_prefix("nth-of-type-"@, name), ":nth-of-type("@, ")"@)
    } else if is_prefix("nth-last-"@, name) {
        wrap_bracket(after_prefix("nth-last-"@, name), ":nth-last-child("@, ")"@)
    } else if is_prefix("nth-"@, name) {
        wrap_bracket(after_prefix("nth-"@, name), ":nth-child("@, ")"@)
    } else if is_prefix("aria-"@, name) {
        let rest = after_prefix("aria-"@, name);
        match bracket_spec(rest) {
            Some(arg) => Some("[aria-"@ + unescape_spec(arg) + "]"@),
            None => Some("[aria-"@ + rest + "=\"true\"]"@),
        }
    } else if is_prefix("data-"@, name) {
        wrap_bracket(after_prefix("data-"@, name), "[data-"@, "]"@)
    } else if is_prefix("in-"@, name) {
        wrap_bracket(after_prefix("in-"@, name), ":where("@, ")"@)
    } else {
        None
    }
}

fn wrap_bracket_exec(rest: &str, open: &str, close: &str) -> (r: Option<String>)
    ensures
        opt_string_view(r) == wrap_bracket(rest@, open@, close@),
{
    match extract_bracket(rest) {
        Some(arg) => {
            let u = unescape_bracket(arg.as_str());
            Some(cat3(open, u.as_str(), close))
        },
        None => None,
    }
}

/// The selector of a parameterized pseudo-class variant.
pub fn parameterized_selector(name: &str) -> (r: Option<String>)
    ensures
        opt_string_view(r) == parameterized_spec(name@),
{
    if let Some(rest) = strip_prefix(name, "has-") {
        return wrap_bracket_exec(rest, ":has(", ")");
    }
    if let Some(rest) = strip_prefix(name, "not-") {
        return wrap_bracket_exec(rest, ":not(", ")");
    }
    if let Some(rest) = strip_prefix(name, "nth-last-of-type-") {
        return wrap_bracket_exec(rest, ":nth-last-of-type(", ")");
    }
    if let Some(rest) = strip_prefix(name, "nth-of-type-") {
        return wrap_bracket_exec(rest, ":nth-of-type(", ")");
    }
    if let Some(rest) = strip_prefix(name, "nth-last-") {
        return wrap_bracket_exec(rest, ":nth-last-child(", ")");
    }
    if let Some(rest) = strip_prefix(name, "nth-") {
        return wrap_bracket_exec(rest, ":nth-child(", ")");
    }
    if let Some(rest) = strip_prefix(name, "aria-") {
        if let Some(arg) = extract_bracket(rest) {
            let u = unescape_bracket(arg.as_str());
            return Some(cat3("[aria-", u.as_str(), "]"));
        }
        return Some(cat3("[aria-", rest, "=\"true\"]"));
    }
    if let Some(rest) = strip_prefix(name, "data-") {
        return wrap_bracket_exec(rest, "[data-", "]");
    }
    if let Some(rest) = strip_prefix(name, "in-") {
        return wrap_bracket_exec(rest, ":where(", ")");
    }
    None
}

/// The `@supports` rule of a `supports-[...]` variant.
pub open spec fn supports_at_rule_spec(name: Seq<char>) -> Option<Seq<char>> {
    if is_prefix("supports-"@, name) {
        wrap_bracket(after_prefix("supports-"@, name), "@supports ("@, ")"@)
    } else {
        None
    }
}

/// The `@supports` rule of a `supports-[...]` variant, with `_` read as a space.
pub fn supports_at_rule(name: &str) -> (r: Option<String>)
    ensures
        opt_string_view(r) == supports_at_rule_spec(name@),
{
    match strip_prefix(name, "supports-") {
        Some(rest) => wrap_bracket_exec(rest, "@supports (", ")"),
        None => None,
    }
}

// ── Pseudo-elements ─────────────────────────────────────────────────────────

/// The CSS pseudo-element (without `::`) of a pseudo-element variant.
pub open spec fn pseudo_element_spec(name: Seq<char>) -> Seq<char> {
    if name == "file"@ {
        "file-selector-button"@
    } else {
        name
    }
}

/// The CSS pseudo-element (without `::`) of a pseudo-element variant: `file`
/// is `file-selector-button`, other names stand for themselves.
pub fn pseudo_element_selector(name: &str) -> (r: String)
    ensures
        r@ == pseudo_element_spec(name@),
{
    if str_eq(name, "file") {
        owned("file-selector-button")
    } else {
        owned(name)
    }
}

// ── States ──────────────────────────────────────────────────────────────────

/// What a state variant resolves to.
#[derive(Debug, Clone, PartialEq, Eq)]
pub enum StateResolution {
    /// A selector, such as `.group:hover .c`.
    Selector(String),
    /// An at-rule that wraps the declarations, such as `@media print`.
    AtRule(String),
}

/// The text of a state resolution.
pub enum StateModel {
    Selector(Seq<char>),
    AtRule(Seq<char>),
}

impl View for StateResolution {
    type V = StateModel;

    open spec fn view(&self) -> StateModel {
        match self {
            StateResolution::Selector(s) => StateModel::Selector(s@),
            StateResolution::AtRule(s) => StateModel::AtRule(s@),
        }
    }
}

/// The media feature of a state variant that is an at-rule, if it is one.
pub open spec fn state_media_spec(name: Seq<char>) -> Option<Seq<char>> {
    if name == "dark"@ {
        Some("@media (prefers-color-scheme: dark)"@)
    } else if name == "motion-safe"@ {
        Some("@media (prefers-reduced-motion: no-preference)"@)
    } else if name == "motion-reduce"@ {
        Some("@media (prefers-reduced-motion: reduce)"@)
    } else if name == "contrast-more"@ {
        Some("@media (prefers-contrast: more)"@)
    } else if name == "contrast-less"@ {
        Some("@media (prefers-contrast: less)"@)
    } else if name == "portrait"@ {
        Some("@media (orientation: portrait)"@)
    } else if name == "landscape"@ {
        Some("@media (orientation: landscape)"@)
    } else if name == "print"@ {
        Some("@media print"@)
    } else if name == "forced-colors"@ {
        Some("@media (forced-colors: active)"@)
    } else if name == "inverted-colors"@ {
        Some("@media (inverted-colors: inverted)"@)
    } else if name == "pointer-fine"@ {
        Some("@media (pointer: fine)"@)
    } else if name == "pointer-coarse"@ {
        Some("@media (pointer: coarse)"@)
    } else if name == "pointer-none"@ {
        Some("@media (pointer: none)"@)
    } else if name == "any-pointer-fine"@ {
        Some("@media (any-pointer: fine)"@)
    } else if name == "any-pointer-coarse"@ {
        Some("@media (any-pointer: coarse)"@)
    } else if name == "any-pointer-none"@ {
        Some("@media (any-pointer: none)"@)
    } else if name == "noscript"@ {
        Some("@media (scripting: none)"@)
    } else {
        None
    }
}

fn state_media(name: &str) -> (r: Option<&'static str>)
    ensures
        opt_str_view(r) == state_media_spec(name@),
{
    if str_eq(name, "dark") {
        Some("@media (prefers-color-scheme: dark)")
    } else if str_eq(name, "motion-safe") {
        Some("@media (prefers-reduced-motion: no-preference)")
    } else if str_eq(name, "motion-reduce") {
        Some("@media (prefers-reduced-motion: reduce)")
    } else if str_eq(name, "contrast-more") {
        Some("@media (prefers-contrast: more)")
    } else if str_eq(name, "contrast-less") {
        Some("@media (prefers-contrast: less)")
    } else if str_eq(name, "portrait") {
        Some("@media (orientation: portrait)")
    } else if str_eq(name, "landscape") {
        Some("@media (orientation: landscape)")
    } else if str_eq(name, "print") {
        Some("@media print")
    } else if str_eq(name, "forced-colors") {
        Some("@media (forced-colors: active)")
    } else if str_eq(name, "inverted-colors") {
        Some("@media (inverted-colors: inverted)")
    } else if str_eq(name, "pointer-fine") {
        Some("@media (pointer: fine)")
    } else if str_eq(name, "pointer-coarse") {
        Some("@media (pointer: coarse)")
    } else if str_eq(name, "pointer-none") {
        Some("@media (pointer: none)")
    } else if str_eq(name, "any-pointer-fine") {
        Some("@media (any-pointer: fine)")
    } else if str_eq(name, "any-pointer-coarse") {
        Some("@media (any-pointer: coarse)")
    } else if str_eq(name, "any-pointer-none") {
        Some("@media (any-pointer: none)")
    } else if str_eq(name, "noscript") {
        Some("@media (scripting: none)")
    } else {
        None
    }
}

/// What a state variant resolves to, for the class selector `sel` (with its dot):
/// a media query, a direction selector, a `group-*`/`peer-*` selector, or `sel` itself.
pub open spec fn resolve_state_spec(name: Seq<char>, sel: Seq<char>) -> StateModel {
    if state_media_spec(name) is Some {
        StateModel::AtRule(state_media_spec(name)->0)
    } else if name == "rtl"@ {
        StateModel::Selector(sel + ":where(:dir(rtl), [dir=\"rtl\"], [dir=\"rtl\"] *)"@)
    } else if name == "ltr"@ {
        StateModel::Selector(sel + ":where(:dir(ltr), [dir=\"ltr\"], [dir=\"ltr\"] *)"@)
    } else if is_prefix("group-"@, name) {
        let pseudo = after_prefix("group-"@, name);
        match parameterized_spec(pseudo) {
            Some(p) => StateModel::Selector(".group"@ + p + " "@ + sel),
            None => StateModel::Selector(".group:"@ + pseudo_class_spec(pseudo) + " "@ + sel),
        }
    } else if is_prefix("peer-"@, name) {
        let pseudo = after_prefix("peer-"@, name);
        match parameterized_spec(pseudo) {
            Some(p) => StateModel::Selector(".peer"@ + p + " ~ "@ + sel),
            None => StateModel::Selector(".peer:"@ + pseudo_class_spec(pseudo) + " ~ "@ + sel),
        }
    } else {
        StateModel::Selector(sel)
    }
}

/// Resolves a state variant to a selector or an at-rule; `class_selector`
/// is the class selector with its leading dot.
pub fn resolve_state(name: &str, class_selector: &str) -> (r: StateResolution)
    ensures
        r@ == resolve_state_spec(name@, class_selector@),
{
    if let Some(rule) = state_media(name) {
        return StateResolution::AtRule(owned(rule));
    }
    if str_eq(name, "rtl") {
        return StateResolution::Selector(
            cat2(class_selector, ":where(:dir(rtl), [dir=\"rtl\"], [dir=\"rtl\"] *)"),
        );
    }
    if str_eq(name, "ltr") {
        return StateResolution::Selector(
            cat2(class_selector, ":where(:dir(ltr), [dir=\"ltr\"], [dir=\"ltr\"] *)"),
        );
    }
    if let Some(pseudo) = strip_prefix(name, "group-") {
        return match parameterized_selector(pseudo) {
            Some(p) => {
                let mut s = cat3(".group", p.as_str(), " ");
                s.append(class_selector);
                StateResolution::Selector(s)
            },
            None => {
                let css = pseudo_class_selector(pseudo);
                let mut s = cat3(".group:", css.as_str(), " ");
                s.append(class_selector);
                StateResolution::Selector(s)
            },
        };
    }
    if let Some(pseudo) = strip_prefix(name, "peer-") {
        return match parameterized_selector(pseudo) {
            Some(p) => {
                let mut s = cat3(".peer", p.as_str(), " ~ ");
                s.append(class_selector);
                StateResolution::Selector(s)
            },
            None => {
                let css = pseudo_class_selector(pseudo);
                let mut s = cat3(".peer:", css.as_str(), " ~ ");
                s.append(class_selector);
                StateResolution::Selector(s)
            },
        };
    }
    StateResolution::Selector(owned(class_selector))
}

/// The two selectors of the `marker` pseudo-element: the element's own marker
/// and the markers of its descendants.
pub fn marker_selectors(class_selector: &str) -> (r: Vec<String>)
    ensures
        r@.len() == 2,
        r@[0]@ == class_selector@ + "::marker"@,
        r@[1]@ == class_selector@ + " *::marker"@,
{
    let mut r: Vec<String> = Vec::new();
    r.push(cat2(class_selector, "::marker"));
    r.push(cat2(class_selector, " *::marker"));
    r
}


// ── What the media variants query ───────────────────────────────────────────

/// The media query `@media (feature: value)`.
pub open spec fn media_query(feature: Seq<char>, value: Seq<char>) -> Seq<char> {
    "@media ("@ + feature + ": "@ + value + ")"@
}

/// The preference and orientation variants resolve, for every class selector,
/// to media queries on the feature they name: `dark` to the dark color scheme,
/// `motion-safe` and `motion-reduce` to no preference for and a preference for
/// reduced motion, `contrast-more` and `contrast-less` to more and less
/// contrast, `portrait` and `landscape` to the orientation. A variant and its
/// opposite query the same feature with different values.
pub proof fn law_media_state_variants(sel: Seq<char>)
    ensures
        resolve_state_spec("dark"@, sel) == StateModel::AtRule(media_query("prefers-color-scheme"@, "dark"@)),
        resolve_state_spec("motion-safe"@, sel) == StateModel::AtRule(media_query("prefers-reduced-motion"@, "no-preference"@)),
        resolve_state_spec("motion-reduce"@, sel) == StateModel::AtRule(media_query("prefers-reduced-motion"@, "reduce"@)),
        resolve_state_spec("contrast-more"@, sel) == StateModel::AtRule(media_query("prefers-contrast"@, "more"@)),
        resolve_state_spec("contrast-less"@, sel) == StateModel::AtRule(media_query("prefers-contrast"@, "less"@)),
        resolve_state_spec("portrait"@, sel) == StateModel::AtRule(media_query("orientation"@, "portrait"@)),
        resolve_state_spec("landscape"@, sel) == StateModel::AtRule(media_query("orientation"@, "landscape"@)),
        resolve_state_spec("motion-safe"@, sel) != resolve_state_spec("motion-reduce"@, sel),
        resolve_state_spec("contrast-more"@, sel) != resolve_state_spec("contrast-less"@, sel),
        resolve_state_spec("portrait"@, sel) != resolve_state_spec("landscape"@, sel),
{
    reveal_strlit("dark");
    reveal_strlit("motion-safe");
    reveal_strlit("motion-reduce");
    reveal_strlit("contrast-more");
    reveal_strlit("contrast-less");
    reveal_strlit("portrait");
    reveal_strlit("landscape");
    reveal_strlit("@media (prefers-color-scheme: dark)");
    reveal_strlit("@media (prefers-reduced-motion: no-preference)");
    reveal_strlit("@media (prefers-reduced-motion: reduce)");
    reveal_strlit("@media (prefers-contrast: more)");
    reveal_strlit("@media (prefers-contrast: less)");
    reveal_strlit("@media (orientation: portrait)");
    reveal_strlit("@media (orientation: landscape)");
    reveal_strlit("@media (");
    reveal_strlit(": ");
    reveal_strlit(")");
    reveal_strlit("prefers-color-scheme");
    reveal_strlit("prefers-reduced-motion");
    reveal_strlit("prefers-contrast");
    reveal_strlit("orientation");
    reveal_strlit("no-preference");
    reveal_strlit("reduce");
    reveal_strlit("more");
    reveal_strlit("less");
    assert("contrast-more"@[0] != "dark"@[0] && "contrast-more"@[0] != "motion-safe"@[0] && "contrast-more"@[0] != "motion-reduce"@[0]);
    assert("contrast-less"@[0] != "dark"@[0] && "contrast-less"@[0] != "motion-safe"@[0] && "contrast-less"@[0] != "motion-reduce"@[0]);
    assert("contrast-less"@[9] != "contrast-more"@[9]);
    assert(state_media_spec("contrast-more"@) == Some("@media (prefers-contrast: more)"@));
    assert(state_media_spec("contrast-less"@) == Some("@media (prefers-contrast: less)"@));
    assert(media_query("prefers-color-scheme"@, "dark"@) =~= "@media (prefers-color-scheme: dark)"@);
    assert(media_query("prefers-reduced-motion"@, "no-preference"@) =~= "@media (prefers-reduced-motion: no-preference)"@);
    assert(media_query("prefers-reduced-motion"@, "reduce"@) =~= "@media (prefers-reduced-motion: reduce)"@);
    assert(media_query("prefers-contrast"@, "more"@) =~= "@media (prefers-contrast: more)"@);
    assert(media_query("prefers-contrast"@, "less"@) =~= "@media (prefers-contrast: less)"@);
    assert(media_query("orientation"@, "portrait"@) =~= "@media (orientation: portrait)"@);
    assert(media_query("orientation"@, "landscape"@) =~= "@media (orientation: landscape)"@);
    assert("@media (prefers-reduced-motion: no-preference)"@[32] != "@media (prefers-reduced-motion: reduce)"@[32]);
    assert("@media (prefers-contrast: more)"@[26] != "@media (prefers-contrast: less)"@[26]);
    assert("@media (orientation: portrait)"@[21] != "@media (orientation: landscape)"@[21]);
}

/// Every standard responsive breakpoint of the variant table (`sm` to `2xl`)
/// is read as a responsive modifier, so `xl:p-4` is a breakpoint class.
pub proof fn law_breakpoints_are_responsive(n: Seq<char>)
    ensures
        breakpoint_spec(n) is Some ==> crate::parse::modifier_kind(n) == crate::parse::ModifierKind::Responsive,
{
}


/// The selector of a pseudo-class modifier: a child position (`first`,
/// `last`, `only`) selects that child, `odd` and `even` select the odd or even
/// children, and every other pseudo-class that the parser knows is the CSS
/// pseudo-class of the same name.
pub open spec fn expected_pseudo_class(name: Seq<char>) -> Seq<char> {
    if name == "first"@ || name == "last"@ || name == "only"@ {
        name + "-child"@
    } else if name == "odd"@ || name == "even"@ {
        "nth-child("@ + name + ")"@
    } else {
        name
    }
}

/// Every name that the parser reads as a pseudo-class selects what the name
/// says: `hover` is `:hover`, `first` is `:first-child`, `odd` is `:nth-child(odd)`.
pub proof fn law_pseudo_class_selectors(name: Seq<char>)
    ensures
        crate::parse::is_pseudo_class_name(name) ==> pseudo_class_spec(name) == expected_pseudo_class(name),
{
    if name == "hover"@ {
        assert(pseudo_class_spec("hover"@) == expected_pseudo_class("hover"@)) by {
            reveal_strlit("hover");
            reveal_strlit("first");
            reveal_strlit("last");
            reveal_strlit("only");
            reveal_strlit("odd");
            reveal_strlit("even");
            reveal_strlit("open");
            reveal_strlit("inert");
            assert("first"@[0] != "hover"@[0]);
            assert("last"@.len() != "hover"@.len());
            assert("only"@.len() != "hover"@.len());
            assert("odd"@.len() != "hover"@.len());
            assert("even"@.len() != "hover"@.len());
            assert("open"@.len() != "hover"@.len());
            assert("inert"@[0] != "hover"@[0]);
            assert("hover"@ =~= pseudo_class_spec("hover"@));
            assert("hover"@ =~= expected_pseudo_class("hover"@));
        }
    } else if name == "focus"@ {
        assert(pseudo_class_spec("focus"@) == expected_pseudo_class("focus"@)) by {
            reveal_strlit("focus");
            reveal_strlit("first");
            reveal_strlit("last");
            reveal_strlit("only");
            reveal_strlit("odd");
            reveal_strlit("even");
            reveal_strlit("open");
            reveal_strlit("inert");
            assert("first"@[1] != "focus"@[1]);
            assert("last"@.len() != "focus"@.len());
            assert("only"@.len() != "focus"@.len());
            assert("odd"@.len() != "focus"@.len());
            assert("even"@.len() != "focus"@.len());
            assert("open"@.len() != "focus"@.len());
            assert("inert"@[0] != "focus"@[0]);
            assert("focus"@ =~= pseudo_class_spec("focus"@));
            assert("focus"@ =~= expected_pseudo_class("focus"@));
        }
    } else if name == "active"@ {
        assert(pseudo_class_spec("active"@) == expected_pseudo_class("active"@)) by {
            reveal_strlit("active");
            reveal_strlit("first");
            reveal_strlit("last");
            reveal_strlit("only");
            reveal_strlit("odd");
            reveal_strlit("even");
            reveal_strlit("open");
            reveal_strlit("inert");
            assert("first"@.len() != "active"@.len());
            assert("last"@.len() != "active"@.len());
            assert("only"@.len() != "active"@.len());
            assert("odd"@.len() != "active"@.len());
            assert("even"@.len() != "active"@.len());
            assert("open"@.len() != "active"@.len());
            assert("inert"@.len() != "active"@.len());
            assert("active"@ =~= pseudo_class_spec("active"@));
            assert("active"@ =~= expected_pseudo_class("active"@));
        }
    } else if name == "visited"@ {
        assert(pseudo_class_spec("visited"@) == expected_pseudo_class("visited"@)) by {
            reveal_strlit("visited");
            reveal_strlit("first");
            reveal_strlit("last");
            reveal_strlit("only");
            reveal_strlit("odd");
            reveal_strlit("even");
            reveal_strlit("open");
            reveal_strlit("inert");
            assert("first"@.len() != "visited"@.len());
            assert("last"@.len() != "visited"@.len());
            assert("only"@.len() != "visited"@.len());
            assert("odd"@.len() != "visited"@.len());
            assert("even"@.len() != "visited"@.len());
            assert("open"@.len() != "visited"@.len());
            assert("inert"@.len() != "visited"@.len());
            assert("visited"@ =~= pseudo_class_spec("visited"@));
            assert("visited"@ =~= expected_pseudo_class("visited"@));
        }
    } else if name == "focus-within"@ {
        assert(pseudo_class_spec("focus-within"@) == expected_pseudo_class("focus-within"@)) by {
            reveal_strlit("focus-within");
            reveal_strlit("first");
            reveal_strlit("last");
            reveal_strlit("only");
            reveal_strlit("odd");
            reveal_strlit("even");
            reveal_strlit("open");
            reveal_strlit("inert");
            assert("first"@.len() != "focus-within"@.len());
            assert("last"@.len() != "focus-within"@.len());
            assert("only"@.len() != "focus-within"@.len());
            assert("odd"@.len() != "focus-within"@.len());
            assert("even"@.len() != "focus-within"@.len());
            assert("open"@.len() != "focus-within"@.len());
            assert("inert"@.len() != "focus-within"@.len());
            assert("focus-within"@ =~= pseudo_class_spec("focus-within"@));
            assert("focus-within"@ =~= expected_pseudo_class("focus-within"@));
        }
    } else if name == "focus-visible"@ {
        assert(pseudo_class_spec("focus-visible"@) == expected_pseudo_class("focus-visible"@)) by {
            reveal_strlit("focus-visible");
            reveal_strlit("first");
            reveal_strlit("last");
            reveal_strlit("only");
            reveal_strlit("odd");
            reveal_strlit("even");
            reveal_strlit("open");
            reveal_strlit("inert");
            assert("first"@.len() != "focus-visible"@.len());
            assert("last"@.len() != "focus-visible"@.len());
            assert("only"@.len() != "focus-visible"@.len());
            assert("odd"@.len() != "focus-visible"@.len());
            assert("even"@.len() != "focus-visible"@.len());
            assert("open"@.len() != "focus-visible"@.len());
            assert("inert"@.len() != "focus-visible"@.len());
            assert("focus-visible"@ =~= pseudo_class_spec("focus-visible"@));
            assert("focus-visible"@ =~= expected_pseudo_class("focus-visible"@));
        }
    } else if name == "disabled"@ {
        assert(pseudo_class_spec("disabled"@) == expected_pseudo_class("disabled"@)) by {
            reveal_strlit("disabled");
            reveal_strlit("first");
            reveal_strlit("last");
            reveal_strlit("only");
            reveal_strlit("odd");
            reveal_strlit("even");
            reveal_strlit("open");
            reveal_strlit("inert");
            assert("first"@.len() != "disabled"@.len());
            assert("last"@.len() != "disabled"@.len());
            assert("only"@.len() != "disabled"@.len());
            assert("odd"@.len() != "disabled"@.len());
            assert("even"@.len() != "disabled"@.len());
            assert("open"@.len() != "disabled"@.len());
            assert("inert"@.len() != "disabled"@.len());
            assert("disabled"@ =~= pseudo_class_spec("disabled"@));
            assert("disabled"@ =~= expected_pseudo_class("disabled"@));
        }
    } else if name == "enabled"@ {
        assert(pseudo_class_spec("enabled"@) == expected_pseudo_class("enabled"@)) by {
            reveal_strlit("enabled");
            reveal_strlit("first");
            reveal_strlit("last");
            reveal_strlit("only");
            reveal_strlit("odd");
            reveal_strlit("even");
            reveal_strlit("open");
            reveal_strlit("inert");
            assert("first"@.len() != "enabled"@.len());
            assert("last"@.len() != "enabled"@.len());
            assert("only"@.len() != "enabled"@.len());
            assert("odd"@.len() != "enabled"@.len());
            assert("even"@.len() != "enabled"@.len());
            assert("open"@.len() != "enabled"@.len());
            assert("inert"@.len() != "enabled"@.len());
            assert("enabled"@ =~= pseudo_class_spec("enabled"@));
            assert("enabled"@ =~= expected_pseudo_class("enabled"@));
        }
    } else if name == "checked"@ {
        assert(pseudo_class_spec("checked"@) == expected_pseudo_class("checked"@)) by {
            reveal_strlit("checked");
            reveal_strlit("first");
            reveal_strlit("last");
            reveal_strlit("only");
            reveal_strlit("odd");
            reveal_strlit("even");
            reveal_strlit("open");
            reveal_strlit("inert");
            assert("first"@.len() != "checked"@.len());
            assert("last"@.len() != "checked"@.len());
            assert("only"@.len() != "checked"@.len());
            assert("odd"@.len() != "checked"@.len());
            assert("even"@.len() != "checked"@.len());
            assert("open"@.len() != "checked"@.len());
            assert("inert"@.len() != "checked"@.len());
            assert("checked"@ =~= pseudo_class_spec("checked"@));
            assert("checked"@ =~= expected_pseudo_class("checked"@));
        }
    } else if name == "indeterminate"@ {
        assert(pseudo_class_spec("indeterminate"@) == expected_pseudo_class("indeterminate"@)) by {
            reveal_strlit("indeterminate");
            reveal_strlit("first");
            reveal_strlit("last");
            reveal_strlit("only");
            reveal_strlit("odd");
            reveal_strlit("even");
            reveal_strlit("open");
            reveal_strlit("inert");
            assert("first"@.len() != "indeterminate"@.len());
            assert("last"@.len() != "indeterminate"@.len());
            assert("only"@.len() != "indeterminate"@.len());
            assert("odd"@.len() != "indeterminate"@.len());
            assert("even"@.len() != "indeterminate"@.len());
            assert("open"@.len() != "indeterminate"@.len());
            assert("inert"@.len() != "indeterminate"@.len());
            assert("indeterminate"@ =~= pseudo_class_spec("indeterminate"@));
            assert("indeterminate"@ =~= expected_pseudo_class("indeterminate"@));
        }
    } else if name == "default"@ {
        assert(pseudo_class_spec("default"@) == expected_pseudo_class("default"@)) by {
            reveal_strlit("default");
            reveal_strlit("first");
            reveal_strlit("last");
            reveal_strlit("only");
            reveal_strlit("odd");
            reveal_strlit("even");
            reveal_strlit("open");
            reveal_strlit("inert");
            assert("first"@.len() != "default"@.len());
            assert("last"@.len() != "default"@.len());
            assert("only"@.len() != "default"@.len());
            assert("odd"@.len() != "default"@.len());
            assert("even"@.len() != "default"@.len());
            assert("open"@.len() != "default"@.len());
            assert("inert"@.len() != "default"@.len());
            assert("default"@ =~= pseudo_class_spec("default"@));
            assert("default"@ =~= expected_pseudo_class("default"@));
        }
    } else if name == "required"@ {
        assert(pseudo_class_spec("required"@) == expected_pseudo_class("required"@)) by {
            reveal_strlit("required");
            reveal_strlit("first");
            reveal_strlit("last");
            reveal_strlit("only");
            reveal_strlit("odd");
            reveal_strlit("even");
            reveal_strlit("open");
            reveal_strlit("inert");
            assert("first"@.len() != "required"@.len());
            assert("last"@.len() != "required"@.len());
            assert("only"@.len() != "required"@.len());
            assert("odd"@.len() != "required"@.len());
            assert("even"@.len() != "required"@.len());
            assert("open"@.len() != "required"@.len());
            assert("inert"@.len() != "required"@.len());
            assert("required"@ =~= pseudo_class_spec("required"@));
            assert("required"@ =~= expected_pseudo_class("required"@));
        }
    } else if name == "valid"@ {
        assert(pseudo_class_spec("valid"@) == expected_pseudo_class("valid"@)) by {
            reveal_strlit("valid");
            reveal_strlit("first");
            reveal_strlit("last");
            reveal_strlit("only");
            reveal_strlit("odd");
            reveal_strlit("even");
            reveal_strlit("open");
            reveal_strlit("inert");
            assert("first"@[0] != "valid"@[0]);
            assert("last"@.len() != "valid"@.len());
            assert("only"@.len() != "valid"@.len());
            assert("odd"@.len() != "valid"@.len());
            assert("even"@.len() != "valid"@.len());
            assert("open"@.len() != "valid"@.len());
            assert("inert"@[0] != "valid"@[0]);
            assert("valid"@ =~= pseudo_class_spec("valid"@));
            assert("valid"@ =~= expected_pseudo_class("valid"@));
        }
    } else if name == "invalid"@ {
        assert(pseudo_class_spec("invalid"@) == expected_pseudo_class("invalid"@)) by {
            reveal_strlit("invalid");
            reveal_strlit("first");
            reveal_strlit("last");
            reveal_strlit("only");
            reveal_strlit("odd");
            reveal_strlit("even");
            reveal_strlit("open");
            reveal_strlit("inert");
            assert("first"@.len() != "invalid"@.len());
            assert("last"@.len() != "invalid"@.len());
            assert("only"@.len() != "invalid"@.len());
            assert("odd"@.len() != "invalid"@.len());
            assert("even"@.len() != "invalid"@.len());
            assert("open"@.len() != "invalid"@.len());
            assert("inert"@.len() != "invalid"@.len());
            assert("invalid"@ =~= pseudo_class_spec("invalid"@));
            assert("invalid"@ =~= expected_pseudo_class("invalid"@));
        }
    } else if name == "in-range"@ {
        assert(pseudo_class_spec("in-range"@) == expected_pseudo_class("in-range"@)) by {
            reveal_strlit("in-range");
            reveal_strlit("first");
            reveal_strlit("last");
            reveal_strlit("only");
            reveal_strlit("odd");
            reveal_strlit("even");
            reveal_strlit("open");
            reveal_strlit("inert");
            assert("first"@.len() != "in-range"@.len());
            assert("last"@.len() != "in-range"@.len());
            assert("only"@.len() != "in-range"@.len());
            assert("odd"@.len() != "in-range"@.len());
            assert("even"@.len() != "in-range"@.len());
            assert("open"@.len() != "in-range"@.len());
            assert("inert"@.len() != "in-range"@.len());
            assert("in-range"@ =~= pseudo_class_spec("in-range"@));
            assert("in-range"@ =~= expected_pseudo_class("in-range"@));
        }
    } else if name == "out-of-range"@ {
        assert(pseudo_class_spec("out-of-range"@) == expected_pseudo_class("out-of-range"@)) by {
            reveal_strlit("out-of-range");
            reveal_strlit("first");
            reveal_strlit("last");
            reveal_strlit("only");
            reveal_strlit("odd");
            reveal_strlit("even");
            reveal_strlit("open");
            reveal_strlit("inert");
            assert("first"@.len() != "out-of-range"@.len());
            assert("last"@.len() != "out-of-range"@.len());
            assert("only"@.len() != "out-of-range"@.len());
            assert("odd"@.len() != "out-of-range"@.len());
            assert("even"@.len() != "out-of-range"@.len());
            assert("open"@.len() != "out-of-range"@.len());
            assert("inert"@.len() != "out-of-range"@.len());
            assert("out-of-range"@ =~= pseudo_class_spec("out-of-range"@));
            assert("out-of-range"@ =~= expected_pseudo_class("out-of-range"@));
        }
    } else if name == "read-only"@ {
        assert(pseudo_class_spec("read-only"@) == expected_pseudo_class("read-only"@)) by {
            reveal_strlit("read-only");
            reveal_strlit("first");
            reveal_strlit("last");
            reveal_strlit("only");
            reveal_strlit("odd");
            reveal_strlit("even");
            reveal_strlit("open");
            reveal_strlit("inert");
            assert("first"@.len() != "read-only"@.len());
            assert("last"@.len() != "read-only"@.len());
            assert("only"@.len() != "read-only"@.len());
            assert("odd"@.len() != "read-only"@.len());
            assert("even"@.len() != "read-only"@.len());
            assert("open"@.len() != "read-only"@.len());
            assert("inert"@.len() != "read-only"@.len());
            assert("read-only"@ =~= pseudo_class_spec("read-only"@));
            assert("read-only"@ =~= expected_pseudo_class("read-only"@));
        }
    } else if name == "empty"@ {
        assert(pseudo_class_spec("empty"@) == expected_pseudo_class("empty"@)) by {
            reveal_strlit("empty");
            reveal_strlit("first");
            reveal_strlit("last");
            reveal_strlit("only");
            reveal_strlit("odd");
            reveal_strlit("even");
            reveal_strlit("open");
            reveal_strlit("inert");
            assert("first"@[0] != "empty"@[0]);
            assert("last"@.len() != "empty"@.len());
            assert("only"@.len() != "empty"@.len());
            assert("odd"@.len() != "empty"@.len());
            assert("even"@.len() != "empty"@.len());
            assert("open"@.len() != "empty"@.len());
            assert("inert"@[0] != "empty"@[0]);
            assert("empty"@ =~= pseudo_class_spec("empty"@));
            assert("empty"@ =~= expected_pseudo_class("empty"@));
        }
    } else if name == "first"@ {
        assert(pseudo_class_spec("first"@) == expected_pseudo_class("first"@)) by {
            reveal_strlit("first");
            reveal_strlit("last");
            reveal_strlit("only");
            reveal_strlit("odd");
            reveal_strlit("even");
            reveal_strlit("open");
            reveal_strlit("inert");
            reveal_strlit("-child");
            reveal_strlit("first-child");
            assert("first"@ + "-child"@ =~= pseudo_class_spec("first"@));
            assert("first"@ + "-child"@ =~= expected_pseudo_class("first"@));
        }
    } else if name == "last"@ {
        assert(pseudo_class_spec("last"@) == expected_pseudo_class("last"@)) by {
            reveal_strlit("last");
            reveal_strlit("first");
            reveal_strlit("only");
            reveal_strlit("odd");
            reveal_strlit("even");
            reveal_strlit("open");
            reveal_strlit("inert");
            reveal_strlit("-child");
            reveal_strlit("last-child");
            assert("first"@.len() != "last"@.len());
            assert("last"@ + "-child"@ =~= pseudo_class_spec("last"@));
            assert("last"@ + "-child"@ =~= expected_pseudo_class("last"@));
        }
    } else if name == "only"@ {
        assert(pseudo_class_spec("only"@) == expected_pseudo_class("only"@)) by {
            reveal_strlit("only");
            reveal_strlit("first");
            reveal_strlit("last");
            reveal_strlit("odd");
            reveal_strlit("even");
            reveal_strlit("open");
            reveal_strlit("inert");
            reveal_strlit("-child");
            reveal_strlit("only-child");
            assert("first"@.len() != "only"@.len());
            assert("last"@[0] != "only"@[0]);
            assert("only"@ + "-child"@ =~= pseudo_class_spec("only"@));
            assert("only"@ + "-child"@ =~= expected_pseudo_class("only"@));
        }
    } else if name == "odd"@ {
        assert(pseudo_class_spec("odd"@) == expected_pseudo_class("odd"@)) by {
            reveal_strlit("odd");
            reveal_strlit("first");
            reveal_strlit("last");
            reveal_strlit("only");
            reveal_strlit("even");
            reveal_strlit("open");
            reveal_strlit("inert");
            reveal_strlit("nth-child(");
            reveal_strlit(")");
            reveal_strlit("nth-child(odd)");
            assert("first"@.len() != "odd"@.len());
            assert("last"@.len() != "odd"@.len());
            assert("only"@.len() != "odd"@.len());
            assert("nth-child("@ + "odd"@ + ")"@ =~= pseudo_class_spec("odd"@));
            assert("nth-child("@ + "odd"@ + ")"@ =~= expected_pseudo_class("odd"@));
        }
    } else if name == "even"@ {
        assert(pseudo_class_spec("even"@) == expected_pseudo_class("even"@)) by {
            reveal_strlit("even");
            reveal_strlit("first");
            reveal_strlit("last");
            reveal_strlit("only");
            reveal_strlit("odd");
            reveal_strlit("open");
            reveal_strlit("inert");
            reveal_strlit("nth-child(");
            reveal_strlit(")");
            reveal_strlit("nth-child(even)");
            assert("first"@.len() != "even"@.len());
            assert("last"@[0] != "even"@[0]);
            assert("only"@[0] != "even"@[0]);
            assert("odd"@.len() != "even"@.len());
            assert("nth-child("@ + "even"@ + ")"@ =~= pseudo_class_spec("even"@));
            assert("nth-child("@ + "even"@ + ")"@ =~= expected_pseudo_class("even"@));
        }
    } else if name == "first-of-type"@ {
        assert(pseudo_class_spec("first-of-type"@) == expected_pseudo_class("first-of-type"@)) by {
            reveal_strlit("first-of-type");
            reveal_strlit("first");
            reveal_strlit("last");
            reveal_strlit("only");
            reveal_strlit("odd");
            reveal_strlit("even");
            reveal_strlit("open");
            reveal_strlit("inert");
            assert("first"@.len() != "first-of-type"@.len());
            assert("last"@.len() != "first-of-type"@.len());
            assert("only"@.len() != "first-of-type"@.len());
            assert("odd"@.len() != "first-of-type"@.len());
            assert("even"@.len() != "first-of-type"@.len());
            assert("open"@.len() != "first-of-type"@.len());
            assert("inert"@.len() != "first-of-type"@.len());
            assert("first-of-type"@ =~= pseudo_class_spec("first-of-type"@));
            assert("first-of-type"@ =~= expected_pseudo_class("first-of-type"@));
        }
    } else if name == "last-of-type"@ {
        assert(pseudo_class_spec("last-of-type"@) == expected_pseudo_class("last-of-type"@)) by {
            reveal_strlit("last-of-type");
            reveal_strlit("first");
            reveal_strlit("last");
            reveal_strlit("only");
            reveal_strlit("odd");
            reveal_strlit("even");
            reveal_strlit("open");
            reveal_strlit("inert");
            assert("first"@.len() != "last-of-type"@.len());
            assert("last"@.len() != "last-of-type"@.len());
            assert("only"@.len() != "last-of-type"@.len());
            assert("odd"@.len() != "last-of-type"@.len());
            assert("even"@.len() != "last-of-type"@.len());
            assert("open"@.len() != "last-of-type"@.len());
            assert("inert"@.len() != "last-of-type"@.len());
            assert("last-of-type"@ =~= pseudo_class_spec("last-of-type"@));
            assert("last-of-type"@ =~= expected_pseudo_class("last-of-type"@));
        }
    } else if name == "only-of-type"@ {
        assert(pseudo_class_spec("only-of-type"@) == expected_pseudo_class("only-of-type"@)) by {
            reveal_strlit("only-of-type");
            reveal_strlit("first");
            reveal_strlit("last");
            reveal_strlit("only");
            reveal_strlit("odd");
            reveal_strlit("even");
            reveal_strlit("open");
            reveal_strlit("inert");
            assert("first"@.len() != "only-of-type"@.len());
            assert("last"@.len() != "only-of-type"@.len());
            assert("only"@.len() != "only-of-type"@.len());
            assert("odd"@.len() != "only-of-type"@.len());
            assert("even"@.len() != "only-of-type"@.len());
            assert("open"@.len() != "only-of-type"@.len());
            assert("inert"@.len() != "only-of-type"@.len());
            assert("only-of-type"@ =~= pseudo_class_spec("only-of-type"@));
            assert("only-of-type"@ =~= expected_pseudo_class("only-of-type"@));
        }
    }
}

/// Every name that the parser reads as a pseudo-element is the CSS
/// pseudo-element of the same name, except `file`, the file input's button.
pub proof fn law_pseudo_element_selectors(name: Seq<char>)
    ensures
        crate::parse::is_pseudo_element_name(name) && name != "file"@ ==> pseudo_element_spec(name) == name,
        pseudo_element_spec("file"@) == "file-selector-button"@,
{
    if name == "before"@ {
        assert(pseudo_element_spec("before"@) == "before"@) by {
            reveal_strlit("file");
            reveal_strlit("before");
            assert("file"@.len() != "before"@.len());
        }
    }
    if name == "after"@ {
        assert(pseudo_element_spec("after"@) == "after"@) by {
            reveal_strlit("file");
            reveal_strlit("after");
            assert("file"@.len() != "after"@.len());
        }
    }
    if name == "placeholder"@ {
        assert(pseudo_element_spec("placeholder"@) == "placeholder"@) by {
            reveal_strlit("file");
            reveal_strlit("placeholder");
            assert("file"@.len() != "placeholder"@.len());
        }
    }
    if name == "marker"@ {
        assert(pseudo_element_spec("marker"@) == "marker"@) by {
            reveal_strlit("file");
            reveal_strlit("marker");
            assert("file"@.len() != "marker"@.len());
        }
    }
    if name == "selection"@ {
        assert(pseudo_element_spec("selection"@) == "selection"@) by {
            reveal_strlit("file");
            reveal_strlit("selection");
            assert("file"@.len() != "selection"@.len());
        }
    }
    if name == "first-line"@ {
        assert(pseudo_element_spec("first-line"@) == "first-line"@) by {
            reveal_strlit("file");
            reveal_strlit("first-line");
            assert("file"@.len() != "first-line"@.len());
        }
    }
    if name == "first-letter"@ {
        assert(pseudo_element_spec("first-letter"@) == "first-letter"@) by {
            reveal_strlit("file");
            reveal_strlit("first-letter");
            assert("file"@.len() != "first-letter"@.len());
        }
    }
    if name == "backdrop"@ {
        assert(pseudo_element_spec("backdrop"@) == "backdrop"@) by {
            reveal_strlit("file");
            reveal_strlit("backdrop");
            assert("file"@.len() != "backdrop"@.len());
        }
    }
}


/// A standard breakpoint and its `max-` form are complementary media queries
/// at the breakpoint's width: `md` applies from that width on, `max-md` below it.
pub proof fn law_breakpoint_queries(n: Seq<char>)
    requires
        breakpoint_spec(n) is Some,
    ensures
        responsive_at_rule_spec(n) == Some("@media (width >= "@ + breakpoint_spec(n)->0 + ")"@),
        responsive_at_rule_spec("max-"@ + n) == Some("@media (width < "@ + breakpoint_spec(n)->0 + ")"@),
{
    reveal_strlit("max-");
    reveal_strlit("min-");
    if n == "sm"@ {
        reveal_strlit("sm");
        assert(!is_prefix("max-"@, n) && !is_prefix("min-"@, n));
        let m = "max-"@ + n;
        assert(m.subrange(0, 4) =~= "max-"@);
        assert(is_prefix("max-"@, m));
        assert(after_prefix("max-"@, m) =~= n);
        assert(bracket_spec(n) is None);
        assert(responsive_at_rule_spec(n) == Some("@media (width >= "@ + breakpoint_spec(n)->0 + ")"@));
        assert(responsive_at_rule_spec(m) == Some("@media (width < "@ + breakpoint_spec(n)->0 + ")"@));
    } else if n == "md"@ {
        reveal_strlit("md");
        assert(!is_prefix("max-"@, n) && !is_prefix("min-"@, n));
        let m = "max-"@ + n;
        assert(m.subrange(0, 4) =~= "max-"@);
        assert(is_prefix("max-"@, m));
        assert(after_prefix("max-"@, m) =~= n);
        assert(bracket_spec(n) is None);
        assert(responsive_at_rule_spec(n) == Some("@media (width >= "@ + breakpoint_spec(n)->0 + ")"@));
        assert(responsive_at_rule_spec(m) == Some("@media (width < "@ + breakpoint_spec(n)->0 + ")"@));
    } else if n == "lg"@ {
        reveal_strlit("lg");
        assert(!is_prefix("max-"@, n) && !is_prefix("min-"@, n));
        let m = "max-"@ + n;
        assert(m.subrange(0, 4) =~= "max-"@);
        assert(is_prefix("max-"@, m));
        assert(after_prefix("max-"@, m) =~= n);
        assert(bracket_spec(n) is None);
        assert(responsive_at_rule_spec(n) == Some("@media (width >= "@ + breakpoint_spec(n)->0 + ")"@));
        assert(responsive_at_rule_spec(m) == Some("@media (width < "@ + breakpoint_spec(n)->0 + ")"@));
    } else if n == "xl"@ {
        reveal_strlit("xl");
        assert(!is_prefix("max-"@, n) && !is_prefix("min-"@, n));
        let m = "max-"@ + n;
        assert(m.subrange(0, 4) =~= "max-"@);
        assert(is_prefix("max-"@, m));
        assert(after_prefix("max-"@, m) =~= n);
        assert(bracket_spec(n) is None);
        assert(responsive_at_rule_spec(n) == Some("@media (width >= "@ + breakpoint_spec(n)->0 + ")"@));
        assert(responsive_at_rule_spec(m) == Some("@media (width < "@ + breakpoint_spec(n)->0 + ")"@));
    } else if n == "2xl"@ {
        reveal_strlit("2xl");
        assert(!is_prefix("max-"@, n) && !is_prefix("min-"@, n));
        let m = "max-"@ + n;
        assert(m.subrange(0, 4) =~= "max-"@);
        assert(is_prefix("max-"@, m));
        assert(after_prefix("max-"@, m) =~= n);
        assert(bracket_spec(n) is None);
        assert(responsive_at_rule_spec(n) == Some("@media (width >= "@ + breakpoint_spec(n)->0 + ")"@));
        assert(responsive_at_rule_spec(m) == Some("@media (width < "@ + breakpoint_spec(n)->0 + ")"@));
    }
}

} // verus!
