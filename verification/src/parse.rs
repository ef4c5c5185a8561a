//! Parsing of one utility class, such as `md:hover:-m-4` or `bg-blue-500/50!`,
//! into its modifiers, sign, plugin, value, alpha and importance.
use vstd::prelude::*;
use crate::text::opt_string_view;
use crate::text::{
    cat3, chars_of, index_of_from, push_str, index_of_from_vec, is_prefix, lemma_index_of_from_spec, starts_with,
    str_eq, string_of_chars,
};

verus! {

// ── Modifiers ───────────────────────────────────────────────────────────────

/// The kind of a modifier, as its name decides it.
#[derive(Debug, Clone, Copy, PartialEq, Eq, Structural)]
pub enum ModifierKind {
    Responsive,
    PseudoClass,
    PseudoElement,
    State,
    Custom,
}

/// A modifier before a class, such as `md`, `hover` or `dark`.
#[derive(Debug, Clone, PartialEq, Eq, Hash)]
pub enum Modifier {
    /// A responsive breakpoint (`sm`, `md`, `lg`, `xl`, `2xl`).
    Responsive(String),
    /// A pseudo-class (`hover`, `focus`, `first`, ...).
    PseudoClass(String),
    /// A pseudo-element (`before`, `after`, `placeholder`, ...).
    PseudoElement(String),
    /// A state (`dark`, `group-hover`, `peer-focus`, ...).
    State(String),
    /// Any other modifier.
    Custom(String),
}

impl Modifier {
    pub open spec fn kind(&self) -> ModifierKind {
        match self {
            Modifier::Responsive(_) => ModifierKind::Responsive,
            Modifier::PseudoClass(_) => ModifierKind::PseudoClass,
            Modifier::PseudoElement(_) => ModifierKind::PseudoElement,
            Modifier::State(_) => ModifierKind::State,
            Modifier::Custom(_) => ModifierKind::Custom,
        }
    }

    pub open spec fn text(&self) -> Seq<char> {
        match self {
            Modifier::Responsive(s) => s@,
            Modifier::PseudoClass(s) => s@,
            Modifier::PseudoElement(s) => s@,
            Modifier::State(s) => s@,
            Modifier::Custom(s) => s@,
        }
    }
}

impl View for Modifier {
    type V = (ModifierKind, Seq<char>);

    open spec fn view(&self) -> (ModifierKind, Seq<char>) {
        (self.kind(), self.text())
    }
}

/// The texts and kinds of a sequence of modifiers.
pub open spec fn modifiers_view(s: Seq<Modifier>) -> Seq<(ModifierKind, Seq<char>)> {
    s.map_values(|m: Modifier| m@)
}

/// The modifier that a name stands for.
pub open spec fn modifier_of(s: Seq<char>) -> (ModifierKind, Seq<char>) {
    (modifier_kind(s), s)
}

pub open spec fn is_breakpoint_name(s: Seq<char>) -> bool {
    s == "sm"@ || s == "md"@ || s == "lg"@ || s == "xl"@ || s == "2xl"@
}

pub open spec fn is_pseudo_class_name(s: Seq<char>) -> bool {
    ||| s == "hover"@ || s == "focus"@ || s == "active"@ || s == "visited"@
    ||| s == "focus-within"@ || s == "focus-visible"@ || s == "disabled"@ || s == "enabled"@
    ||| s == "checked"@ || s == "indeterminate"@ || s == "default"@ || s == "required"@
    ||| s == "valid"@ || s == "invalid"@ || s == "in-range"@ || s == "out-of-range"@
    ||| s == "read-only"@ || s == "empty"@ || s == "first"@ || s == "last"@
    ||| s == "only"@ || s == "odd"@ || s == "even"@ || s == "first-of-type"@
    ||| s == "last-of-type"@ || s == "only-of-type"@
}

pub open spec fn is_pseudo_element_name(s: Seq<char>) -> bool {
    ||| s == "before"@ || s == "after"@ || s == "placeholder"@ || s == "file"@
    ||| s == "marker"@ || s == "selection"@ || s == "first-line"@ || s == "first-letter"@
    ||| s == "backdrop"@
}

pub open spec fn is_state_name(s: Seq<char>) -> bool {
    ||| is_prefix("group-"@, s) || is_prefix("peer-"@, s)
    ||| s == "dark"@ || s == "light"@ || s == "motion-safe"@ || s == "motion-reduce"@
    ||| s == "contrast-more"@ || s == "contrast-less"@ || s == "portrait"@ || s == "landscape"@
    ||| s == "print"@ || s == "rtl"@ || s == "ltr"@
}

/// The kind of modifier that a name stands for.
pub open spec fn modifier_kind(s: Seq<char>) -> ModifierKind {
    if is_breakpoint_name(s) {
        ModifierKind::Responsive
    } else if is_pseudo_class_name(s) {
        ModifierKind::PseudoClass
    } else if is_pseudo_element_name(s) {
        ModifierKind::PseudoElement
    } else if is_state_name(s) {
        ModifierKind::State
    } else {
        ModifierKind::Custom
    }
}

fn breakpoint_name(s: &str) -> (r: bool)
    ensures
        r == is_breakpoint_name(s@),
{
    str_eq(s, "sm") || str_eq(s, "md") || str_eq(s, "lg") || str_eq(s, "xl") || str_eq(s, "2xl")
}

fn pseudo_class_name(s: &str) -> (r: bool)
    ensures
        r == is_pseudo_class_name(s@),
{
    str_eq(s, "hover") || str_eq(s, "focus") || str_eq(s, "active") || str_eq(s, "visited")
        || str_eq(s, "focus-within") || str_eq(s, "focus-visible") || str_eq(s, "disabled")
        || str_eq(s, "enabled") || str_eq(s, "checked") || str_eq(s, "indeterminate") || str_eq(
        s,
        "default",
    ) || str_eq(s, "required") || str_eq(s, "valid") || str_eq(s, "invalid") || str_eq(
        s,
        "in-range",
    ) || str_eq(s, "out-of-range") || str_eq(s, "read-only") || str_eq(s, "empty") || str_eq(
        s,
        "first",
    ) || str_eq(s, "last") || str_eq(s, "only") || str_eq(s, "odd") || str_eq(s, "even")
        || str_eq(s, "first-of-type") || str_eq(s, "last-of-type") || str_eq(s, "only-of-type")
}

fn pseudo_element_name(s: &str) -> (r: bool)
    ensures
        r == is_pseudo_element_name(s@),
{
    str_eq(s, "before") || str_eq(s, "after") || str_eq(s, "placeholder") || str_eq(s, "file")
        || str_eq(s, "marker") || str_eq(s, "selection") || str_eq(s, "first-line") || str_eq(
        s,
        "first-letter",
    ) || str_eq(s, "backdrop")
}

fn state_name(s: &str) -> (r: bool)
    ensures
        r == is_state_name(s@),
{
    starts_with(s, "group-") || starts_with(s, "peer-") || str_eq(s, "dark") || str_eq(s, "light")
        || str_eq(s, "motion-safe") || str_eq(s, "motion-reduce") || str_eq(s, "contrast-more")
        || str_eq(s, "contrast-less") || str_eq(s, "portrait") || str_eq(s, "landscape") || str_eq(
        s,
        "print",
    ) || str_eq(s, "rtl") || str_eq(s, "ltr")
}

impl Modifier {
    /// Whether this is a responsive breakpoint.
    pub fn is_responsive(&self) -> (r: bool)
        ensures
            r == (self.kind() == ModifierKind::Responsive),
    {
        match self {
            Modifier::Responsive(_) => true,
            _ => false,
        }
    }

    /// Whether this is a pseudo-class.
    pub fn is_pseudo_class(&self) -> (r: bool)
        ensures
            r == (self.kind() == ModifierKind::PseudoClass),
    {
        match self {
            Modifier::PseudoClass(_) => true,
            _ => false,
        }
    }

    /// The modifier that a name stands for: a breakpoint, a pseudo-class, a
    /// pseudo-element, a state, or else a custom modifier.
    pub fn from_str(s: &str) -> (m: Modifier)
        ensures
            m@ == modifier_of(s@),
    {
        let t = String::from_str(s);
        if breakpoint_name(s) {
            Modifier::Responsive(t)
        } else if pseudo_class_name(s) {
            Modifier::PseudoClass(t)
        } else if pseudo_element_name(s) {
            Modifier::PseudoElement(t)
        } else if state_name(s) {
            Modifier::State(t)
        } else {
            Modifier::Custom(t)
        }
    }

    /// The name of this modifier.
    pub fn name(&self) -> (r: &str)
        ensures
            r@ == self.text(),
    {
        match self {
            Modifier::Responsive(s) => s.as_str(),
            Modifier::PseudoClass(s) => s.as_str(),
            Modifier::PseudoElement(s) => s.as_str(),
            Modifier::State(s) => s.as_str(),
            Modifier::Custom(s) => s.as_str(),
        }
    }

    /// The name of this modifier, as a new string.
    pub fn to_string(&self) -> (r: String)
        ensures
            r@ == self.text(),
    {
        String::from_str(self.name())
    }

    /// A copy of this modifier.
    pub fn duplicate(&self) -> (r: Modifier)
        ensures
            r@ == self@,
    {
        match self {
            Modifier::Responsive(s) => Modifier::Responsive(s.clone()),
            Modifier::PseudoClass(s) => Modifier::PseudoClass(s.clone()),
            Modifier::PseudoElement(s) => Modifier::PseudoElement(s.clone()),
            Modifier::State(s) => Modifier::State(s.clone()),
            Modifier::Custom(s) => Modifier::Custom(s.clone()),
        }
    }
}

/// The non-empty pieces of `s` from position `p` on, split at each `:`.
pub open spec fn colon_pieces(s: Seq<char>, p: int) -> Seq<Seq<char>>
    decreases s.len() - p,
{
    if p < 0 || p >= s.len() {
        seq![]
    } else {
        let c = index_of_from(s, ':', p);
        let piece = s.subrange(p, c);
        let rest = if p <= c && c < s.len() {
            colon_pieces(s, c + 1)
        } else {
            seq![]
        };
        if piece.len() == 0 {
            rest
        } else {
            seq![piece] + rest
        }
    }
}

/// The modifiers that a raw modifier string such as `md:hover:` lists.
pub open spec fn modifiers_of_raw(raw: Seq<char>) -> Seq<(ModifierKind, Seq<char>)> {
    colon_pieces(raw, 0).map_values(|t: Seq<char>| modifier_of(t))
}

proof fn lemma_colon_index_shift(s: Seq<char>, u: Seq<char>, q: int)
    requires
        0 <= q <= u.len(),
    ensures
        index_of_from(s + u, ':', s.len() + q) == s.len() + index_of_from(u, ':', q),
    decreases u.len() - q,
{
    if q < u.len() {
        assert((s + u)[s.len() + q] == u[q]);
        if u[q] != ':' {
            lemma_colon_index_shift(s, u, q + 1);
        }
    }
}

proof fn lemma_colon_pieces_shift(s: Seq<char>, u: Seq<char>, q: int)
    requires
        0 <= q,
    ensures
        colon_pieces(s + u, s.len() + q) == colon_pieces(u, q),
    decreases u.len() - q,
{
    if q < u.len() {
        lemma_colon_index_shift(s, u, q);
        lemma_index_of_from_spec(u, ':', q);
        let c = index_of_from(u, ':', q);
        assert((s + u).subrange(s.len() + q, s.len() + c) =~= u.subrange(q, c));
        if c < u.len() {
            lemma_colon_pieces_shift(s, u, c + 1);
        }
    }
}

proof fn lemma_colon_pieces_append(s: Seq<char>, u: Seq<char>, p: int)
    requires
        0 <= p <= s.len(),
        s.len() > 0,
        s.last() == ':',
    ensures
        colon_pieces(s + u, p) == colon_pieces(s, p) + colon_pieces(u, 0),
    decreases s.len() - p,
{
    if p == s.len() {
        lemma_colon_pieces_shift(s, u, 0);
        assert(colon_pieces(s, p) =~= Seq::<Seq<char>>::empty());
        assert(colon_pieces(s + u, p) =~= colon_pieces(s, p) + colon_pieces(u, 0));
    } else {
        lemma_index_of_from_spec(s, ':', p);
        lemma_index_of_from_spec(s + u, ':', p);
        let c = index_of_from(s, ':', p);
        assert(c < s.len()) by {
            if c == s.len() {
                assert(s[s.len() - 1] == ':');
            }
        }
        let c2 = index_of_from(s + u, ':', p);
        assert(c2 == c) by {
            assert((s + u)[c] == ':');
            if c2 < c {
                assert((s + u)[c2] == s[c2]);
            }
        }
        assert((s + u).subrange(p, c) =~= s.subrange(p, c));
        lemma_colon_pieces_append(s, u, c + 1);
        let piece = s.subrange(p, c);
        if piece.len() == 0 {
            assert(colon_pieces(s + u, p) == colon_pieces(s + u, c + 1));
        } else {
            assert(colon_pieces(s + u, p) == seq![piece] + colon_pieces(s + u, c + 1));
            assert(colon_pieces(s, p) == seq![piece] + colon_pieces(s, c + 1));
            assert(seq![piece] + (colon_pieces(s, c + 1) + colon_pieces(u, 0)) =~= (seq![piece] + colon_pieces(s, c + 1))
                + colon_pieces(u, 0));
        }
    }
}

/// The text that a list of modifier names makes when each is written with
/// its `:`, as a chain of `with_modifier` writes them.
pub open spec fn joined_modifiers(names: Seq<Seq<char>>) -> Seq<char>
    decreases names.len(),
{
    if names.len() == 0 {
        Seq::<char>::empty()
    } else {
        joined_modifiers(names.drop_last()) + names.last() + seq![':']
    }
}

/// Writing modifiers one after another with their `:` and reading them back
/// gives those modifiers, each classified by its name, when every name is
/// non-empty and holds no `:`.
pub proof fn law_modifiers_read_back(names: Seq<Seq<char>>)
    requires
        forall|i: int| 0 <= i < names.len() ==> (#[trigger] names[i]).len() > 0 && !names[i].contains(':'),
    ensures
        colon_pieces(joined_modifiers(names), 0) == names,
        modifiers_of_raw(joined_modifiers(names)) == names.map_values(|t: Seq<char>| modifier_of(t)),
    decreases names.len(),
{
    if names.len() == 0 {
        assert(colon_pieces(joined_modifiers(names), 0) =~= names);
    } else {
        let init = names.drop_last();
        let t = names.last();
        assert forall|i: int| 0 <= i < init.len() implies (#[trigger] init[i]).len() > 0 && !init[i].contains(':') by {
            assert(init[i] == names[i]);
        }
        law_modifiers_read_back(init);
        let u = t + seq![':'];
        assert(joined_modifiers(names) =~= joined_modifiers(init) + u);
        // The pieces of `t:` are `t` alone.
        lemma_index_of_from_spec(u, ':', 0);
        assert(index_of_from(u, ':', 0) == t.len()) by {
            let c = index_of_from(u, ':', 0);
            if c < t.len() {
                assert(u[c] == t[c]);
                assert(t.contains(':'));
            }
            assert(u[t.len() as int] == ':');
        }
        assert(u.subrange(0, t.len() as int) =~= t);
        assert(colon_pieces(u, t.len() as int + 1) =~= Seq::<Seq<char>>::empty());
        assert(colon_pieces(u, 0) =~= seq![t]);
        let j = joined_modifiers(init);
        if init.len() == 0 {
            assert(j + u =~= u);
        } else {
            assert(j.last() == ':');
            lemma_colon_pieces_append(j, u, 0);
        }
        assert(colon_pieces(joined_modifiers(names), 0) =~= names);
    }
    assert(modifiers_of_raw(joined_modifiers(names)) =~= names.map_values(|t: Seq<char>| modifier_of(t)));
}

/// Splits a raw modifier string such as `hover:md:` at each `:` and
/// classifies each non-empty piece.
pub fn parse_modifiers_from_raw(raw: &str) -> (r: Vec<Modifier>)
    ensures
        modifiers_view(r@) == modifiers_of_raw(raw@),
{
    let v = chars_of(raw);
    let n = v.len();
    let mut out: Vec<Modifier> = Vec::new();
    let mut p: usize = 0;
    let ghost target = colon_pieces(v@, 0);
    while p < n
        invariant
            v@ == raw@,
            n == v@.len(),
            p <= n,
            modifiers_view(out@) + colon_pieces(v@, p as int).map_values(
                |t: Seq<char>| modifier_of(t),
            ) == colon_pieces(v@, 0).map_values(|t: Seq<char>| modifier_of(t)),
        decreases n - p,
    {
        let c = index_of_from_vec(&v, ':', p);
        proof {
            lemma_index_of_from_spec(v@, ':', p as int);
        }
        let ghost rest = if c < n {
            colon_pieces(v@, c + 1)
        } else {
            seq![]
        };
        let ghost f = |t: Seq<char>| modifier_of(t);
        if c > p {
            let piece = string_of_chars(&v, p, c);
            let m = Modifier::from_str(piece.as_str());
            let ghost old_out = out@;
            out.push(m);
            proof {
                assert(modifiers_view(out@) =~= modifiers_view(old_out).push(modifier_of(piece@)));
                assert(colon_pieces(v@, p as int) == seq![piece@] + rest);
                assert((seq![piece@] + rest).map_values(f) =~= seq![modifier_of(piece@)]
                    + rest.map_values(f));
                assert(modifiers_view(out@) + rest.map_values(f) =~= modifiers_view(old_out)
                    + colon_pieces(v@, p as int).map_values(f));
            }
        } else {
            assert(colon_pieces(v@, p as int) == rest);
        }
        if c < n {
            p = c + 1;
        } else {
            p = n;
            assert(colon_pieces(v@, n as int) =~= seq![]);
        }
    }
    proof {
        assert(colon_pieces(v@, p as int) =~= seq![]);
        assert(modifiers_view(out@) =~= modifiers_view(out@) + colon_pieces(
            v@,
            p as int,
        ).map_values(|t: Seq<char>| modifier_of(t)));
    }
    out
}

// ── Values ──────────────────────────────────────────────────────────────────

/// A bracketed value such as `[13px]`.
#[derive(Debug, Clone, PartialEq, Eq, Hash)]
pub struct ArbitraryValue {
    /// The value with its brackets.
    pub raw: String,
    /// The value without its brackets.
    pub content: String,
}

/// A custom property in parentheses, such as `(--my-color)` or
/// `(image:--my-bg)`.
#[derive(Debug, Clone, PartialEq, Eq, Hash)]
pub struct CssVariableValue {
    /// The custom property, such as `--my-color`.
    pub property: String,
    /// The kind of value named before a `:`, such as `image`.
    pub type_hint: Option<String>,
}

/// A value after the plugin.
#[derive(Debug, Clone, PartialEq, Eq, Hash)]
pub enum ParsedValue {
    /// A named value such as `4`, `red-500` or `lg`.
    Standard(String),
    /// A bracketed value such as `[13px]`.
    Arbitrary(ArbitraryValue),
    /// A custom property such as `(--my-color)`.
    CssVariable(CssVariableValue),
}

/// The text of a value: a named value, a bracketed value with its contents,
/// or a custom property with its type hint.
pub enum ValueModel {
    Standard(Seq<char>),
    Arbitrary(Seq<char>, Seq<char>),
    CssVariable(Seq<char>, Option<Seq<char>>),
}

impl View for ParsedValue {
    type V = ValueModel;

    open spec fn view(&self) -> ValueModel {
        match self {
            ParsedValue::Standard(s) => ValueModel::Standard(s@),
            ParsedValue::Arbitrary(a) => ValueModel::Arbitrary(a.raw@, a.content@),
            ParsedValue::CssVariable(c) => ValueModel::CssVariable(c.property@, opt_string_view(c.type_hint)),
        }
    }
}

/// The text that a value stands for in a class name.
pub open spec fn value_text(v: ValueModel) -> Seq<char> {
    match v {
        ValueModel::Standard(s) => s,
        ValueModel::Arbitrary(raw, _) => raw,
        ValueModel::CssVariable(p, hint) => match hint {
            Some(h) => "("@ + h + ":"@ + p + ")"@,
            None => "("@ + p + ")"@,
        },
    }
}

/// The contents of a bracketed value: `raw` without one leading `[` and one
/// trailing `]`, or `raw` itself when it lacks either.
pub open spec fn bracket_content(raw: Seq<char>) -> Seq<char> {
    if raw.len() >= 2 && raw[0] == '[' && raw[raw.len() - 1] == ']' {
        raw.subrange(1, raw.len() - 1)
    } else {
        raw
    }
}

impl ArbitraryValue {
    /// A bracketed value; its contents are `raw` without the brackets.
    pub fn new(raw: String) -> (a: ArbitraryValue)
        ensures
            a.raw@ == raw@,
            a.content@ == bracket_content(raw@),
    {
        let v = chars_of(raw.as_str());
        let n = v.len();
        let content = if n >= 2 && v[0] == '[' && v[n - 1] == ']' {
            string_of_chars(&v, 1, n - 1)
        } else {
            string_of_chars(&v, 0, n)
        };
        proof {
            assert(v@.subrange(0, n as int) =~= v@);
        }
        ArbitraryValue { raw, content }
    }

    /// A copy of this value.
    pub fn duplicate(&self) -> (r: ArbitraryValue)
        ensures
            r.raw@ == self.raw@,
            r.content@ == self.content@,
    {
        ArbitraryValue { raw: self.raw.clone(), content: self.content.clone() }
    }
}

impl ParsedValue {
    /// Whether this is a bracketed value.
    pub fn is_arbitrary(&self) -> (r: bool)
        ensures
            r == (self@ is Arbitrary),
    {
        match self {
            ParsedValue::Arbitrary(_) => true,
            _ => false,
        }
    }

    /// The text of this value in a class name (a bracketed value keeps its
    /// brackets, a custom property its parentheses).
    pub fn to_string(&self) -> (r: String)
        ensures
            r@ == value_text(self@),
    {
        match self {
            ParsedValue::Standard(s) => s.clone(),
            ParsedValue::Arbitrary(a) => a.raw.clone(),
            ParsedValue::CssVariable(c) => match &c.type_hint {
                Some(h) => {
                    let mut out = cat3("(", h.as_str(), ":");
                    push_str(&mut out, c.property.as_str());
                    push_str(&mut out, ")");
                    out
                },
                None => cat3("(", c.property.as_str(), ")"),
            },
        }
    }

    /// A copy of this value.
    pub fn duplicate(&self) -> (r: ParsedValue)
        ensures
            r@ == self@,
    {
        match self {
            ParsedValue::Standard(s) => ParsedValue::Standard(s.clone()),
            ParsedValue::Arbitrary(a) => ParsedValue::Arbitrary(a.duplicate()),
            ParsedValue::CssVariable(c) => ParsedValue::CssVariable(CssVariableValue {
                property: c.property.clone(),
                type_hint: match &c.type_hint {
                    Some(h) => Some(h.clone()),
                    None => None,
                },
            }),
        }
    }
}

// ── Parsed classes ──────────────────────────────────────────────────────────

/// One utility class, taken apart.
#[derive(Debug, Clone, PartialEq, Eq, Hash)]
pub struct ParsedClass {
    /// The modifier prefix as written, such as `md:hover:`.
    pub raw_modifiers: String,
    /// The modifiers of `raw_modifiers`, in order.
    pub modifiers: Vec<Modifier>,
    /// Whether the class starts with `-`, as in `-m-4`.
    pub negative: bool,
    /// The plugin, such as `p`, `bg` or `grid-cols`.
    pub plugin: String,
    /// The value after the plugin.
    pub value: Option<ParsedValue>,
    /// The alpha after `/`, such as `50`.
    pub alpha: Option<String>,
    /// Whether the class ends with `!`.
    pub important: bool,
}

/// The text of a parsed class, field by field.
pub struct ClassModel {
    pub raw_modifiers: Seq<char>,
    pub modifiers: Seq<(ModifierKind, Seq<char>)>,
    pub negative: bool,
    pub plugin: Seq<char>,
    pub value: Option<ValueModel>,
    pub alpha: Option<Seq<char>>,
    pub important: bool,
}

pub open spec fn opt_value_view(v: Option<ParsedValue>) -> Option<ValueModel> {
    match v {
        Some(x) => Some(x@),
        None => None,
    }
}

impl View for ParsedClass {
    type V = ClassModel;

    open spec fn view(&self) -> ClassModel {
        ClassModel {
            raw_modifiers: self.raw_modifiers@,
            modifiers: modifiers_view(self.modifiers@),
            negative: self.negative,
            plugin: self.plugin@,
            value: opt_value_view(self.value),
            alpha: opt_string_view(self.alpha),
            important: self.important,
        }
    }
}

/// The normalized text of a class: modifiers, `-` when negative, the plugin,
/// `-` and the value, `/` and the alpha, and `!` when important.
pub open spec fn normalized_text(c: ClassModel) -> Seq<char> {
    c.raw_modifiers + (if c.negative {
        seq!['-']
    } else {
        seq![]
    }) + c.plugin + (match c.value {
        Some(v) => seq!['-'] + value_text(v),
        None => seq![],
    }) + (match c.alpha {
        Some(a) => seq!['/'] + a,
        None => seq![],
    }) + (if c.important {
        seq!['!']
    } else {
        seq![]
    })
}

impl ParsedClass {
    /// A class with the given plugin and nothing else.
    pub fn new(plugin: String) -> (c: ParsedClass)
        ensures
            c@.raw_modifiers == Seq::<char>::empty(),
            c@.modifiers == Seq::<(ModifierKind, Seq<char>)>::empty(),
            !c.negative,
            c.plugin@ == plugin@,
            c.value is None,
            c.alpha is None,
            !c.important,
    {
        let c = ParsedClass {
            raw_modifiers: String::new(),
            modifiers: Vec::new(),
            negative: false,
            plugin,
            value: None,
            alpha: None,
            important: false,
        };
        assert(modifiers_view(c.modifiers@) =~= Seq::<(ModifierKind, Seq<char>)>::empty());
        c
    }

    /// The modifiers that `raw_modifiers` lists.
    pub fn modifiers(&self) -> (r: Vec<Modifier>)
        ensures
            modifiers_view(r@) == modifiers_of_raw(self.raw_modifiers@),
    {
        parse_modifiers_from_raw(self.raw_modifiers.as_str())
    }

    /// This class with one more modifier: `raw_modifiers` gains the modifier's
    /// name and `:`.
    pub fn with_modifier(self, modifier: Modifier) -> (c: ParsedClass)
        ensures
            c@.raw_modifiers == self@.raw_modifiers + modifier.text() + seq![':'],
            c@.modifiers == self@.modifiers.push(modifier@),
            c.negative == self.negative,
            c.plugin@ == self.plugin@,
            c@.value == self@.value,
            c@.alpha == self@.alpha,
            c.important == self.important,
    {
        let mut c = self;
        let name = modifier.to_string();
        c.raw_modifiers.append(name.as_str());
        c.raw_modifiers.push(':');
        let ghost old_mods = c.modifiers@;
        c.modifiers.push(modifier);
        assert(modifiers_view(c.modifiers@) =~= modifiers_view(old_mods).push(modifier@));
        c
    }

    /// This class with the given value.
    pub fn with_value(self, value: ParsedValue) -> (c: ParsedClass)
        ensures
            c@.value == Some(value@),
            c@.raw_modifiers == self@.raw_modifiers,
            c@.modifiers == self@.modifiers,
            c.negative == self.negative,
            c.plugin@ == self.plugin@,
            c@.alpha == self@.alpha,
            c.important == self.important,
    {
        let mut c = self;
        c.value = Some(value);
        c
    }

    /// This class with the given sign.
    pub fn with_negative(self, negative: bool) -> (c: ParsedClass)
        ensures
            c.negative == negative,
            c@.raw_modifiers == self@.raw_modifiers,
            c@.modifiers == self@.modifiers,
            c.plugin@ == self.plugin@,
            c@.value == self@.value,
            c@.alpha == self@.alpha,
            c.important == self.important,
    {
        let mut c = self;
        c.negative = negative;
        c
    }

    /// This class with the given alpha.
    pub fn with_alpha(self, alpha: String) -> (c: ParsedClass)
        ensures
            c@.alpha == Some(alpha@),
            c@.raw_modifiers == self@.raw_modifiers,
            c@.modifiers == self@.modifiers,
            c.negative == self.negative,
            c.plugin@ == self.plugin@,
            c@.value == self@.value,
            c.important == self.important,
    {
        let mut c = self;
        c.alpha = Some(alpha);
        c
    }

    /// This class with the given importance.
    pub fn with_important(self, important: bool) -> (c: ParsedClass)
        ensures
            c.important == important,
            c@.raw_modifiers == self@.raw_modifiers,
            c@.modifiers == self@.modifiers,
            c.negative == self.negative,
            c.plugin@ == self.plugin@,
            c@.value == self@.value,
            c@.alpha == self@.alpha,
    {
        let mut c = self;
        c.important = important;
        c
    }

    /// The class written back in normal form, used to look it up in an index.
    pub fn to_normalized_string(&self) -> (r: String)
        ensures
            r@ == normalized_text(self@),
    {
        let mut r = self.raw_modifiers.clone();
        if self.negative {
            r.push('-');
        }
        r.append(self.plugin.as_str());
        let ghost r1 = r@;
        match &self.value {
            Some(v) => {
                r.push('-');
                let t = v.to_string();
                r.append(t.as_str());
                assert(r@ =~= r1 + (seq!['-'] + value_text(v@)));
            },
            None => {
                assert(r@ =~= r1 + Seq::<char>::empty());
            },
        }
        let ghost r2 = r@;
        match &self.alpha {
            Some(a) => {
                r.push('/');
                r.append(a.as_str());
                assert(r@ =~= r2 + (seq!['/'] + a@));
            },
            None => {
                assert(r@ =~= r2 + Seq::<char>::empty());
            },
        }
        let ghost r3 = r@;
        if self.important {
            r.push('!');
            assert(r@ =~= r3 + seq!['!']);
        } else {
            assert(r@ =~= r3 + Seq::<char>::empty());
        }
        proof {
            let c = self@;
            assert(r1 =~= c.raw_modifiers + (if c.negative {
                seq!['-']
            } else {
                seq![]
            }) + c.plugin);
        }
        r
    }
}


} // verus!
