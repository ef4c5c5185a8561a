//! The class grammar: `modifier:*` `-`? plugin (`-` value | `[...]` | `-(...)`)? (`/` alpha)? `!`?
use vstd::prelude::*;
use crate::parse::{
    modifier_of, modifiers_view, ArbitraryValue, ClassModel, CssVariableValue, Modifier, ModifierKind,
    ParsedClass, ParsedValue, ValueModel, bracket_content, normalized_text, value_text,
};
use crate::plugin_map::{is_known_plugin, plugin_properties_spec};
use crate::text::{
    chars_of, char_is_alnum, decimal, decimal_string, index_of_from, index_of_from_vec, is_prefix,
    lemma_index_of_from_spec, is_alnum, is_ws, char_is_ws, replace_char, replace_char_str, starts_with, str_eq,
    string_of_chars,
};

verus! {

/// Why a class could not be parsed.
#[derive(Debug, Clone, PartialEq)]
pub enum ParseError {
    EmptyInput,
    InvalidFormat(String),
    UnmatchedBracket,
    MissingPlugin,
}

/// The text of a parse error.
pub enum ErrorModel {
    EmptyInput,
    InvalidFormat(Seq<char>),
    UnmatchedBracket,
    MissingPlugin,
}

impl View for ParseError {
    type V = ErrorModel;

    open spec fn view(&self) -> ErrorModel {
        match self {
            ParseError::EmptyInput => ErrorModel::EmptyInput,
            ParseError::InvalidFormat(m) => ErrorModel::InvalidFormat(m@),
            ParseError::UnmatchedBracket => ErrorModel::UnmatchedBracket,
            ParseError::MissingPlugin => ErrorModel::MissingPlugin,
        }
    }
}

// ── The grammar, stated over the characters of the input ─────────────────────

/// Where the modifiers that start at `p` end.
pub open spec fn modifiers_end(s: Seq<char>, p: int) -> int
    decreases s.len() - p,
{
    let c = index_of_from(s, ':', p);
    if 0 <= p < c && c + 1 < s.len() && !s.subrange(p, c).contains('[') && !s.subrange(p, c).contains('(') && !s.subrange(
        p,
        c,
    ).contains('/') && !s.subrange(p, c).contains('!') {
        modifiers_end(s, c + 1)
    } else {
        p
    }
}

/// The names of the modifiers that start at `p`.
pub open spec fn modifier_names(s: Seq<char>, p: int) -> Seq<Seq<char>>
    decreases s.len() - p,
{
    let c = index_of_from(s, ':', p);
    if 0 <= p < c && c + 1 < s.len() && !s.subrange(p, c).contains('[') && !s.subrange(p, c).contains('(') && !s.subrange(
        p,
        c,
    ).contains('/') && !s.subrange(p, c).contains('!') {
        seq![s.subrange(p, c)] + modifier_names(s, c + 1)
    } else {
        seq![]
    }
}

/// The first `q' >= q` where `-[` or `-(` starts, or `s.len()`.
pub open spec fn dash_open_from(s: Seq<char>, q: int) -> int
    decreases s.len() - q,
{
    if q < 0 || q + 1 >= s.len() {
        s.len() as int
    } else if s[q] == '-' && (s[q + 1] == '[' || s[q + 1] == '(') {
        q
    } else {
        dash_open_from(s, q + 1)
    }
}

/// Whether `c` ends a plugin name that no `-[` or `-(` follows.
pub open spec fn is_plugin_stop(c: char) -> bool {
    c == '-' || c == '[' || c == '/' || c == '!'
}

/// The first `q' >= q` with `is_plugin_stop(s[q'])`, or `s.len()`.
pub open spec fn plugin_stop_from(s: Seq<char>, q: int) -> int
    decreases s.len() - q,
{
    if q < 0 || q >= s.len() {
        s.len() as int
    } else if is_plugin_stop(s[q]) {
        q
    } else {
        plugin_stop_from(s, q + 1)
    }
}

/// Whether a plugin name of several dash-separated words is one that the
/// converter knows by name: a plugin with its own CSS properties, or
/// `inset-shadow` or `inset-ring`.
pub open spec fn known_compound(t: Seq<char>) -> bool {
    plugin_properties_spec(t) is Some || t == "inset-shadow"@ || t == "inset-ring"@
}

/// Scanning from `q`, the end of the longest known plugin name `s[p..c]`
/// where `c` is a `-` or where the name stops (at `[`, `/`, `!` or the end);
/// `best` when there is none.
pub open spec fn compound_end(s: Seq<char>, p: int, q: int, best: int) -> int
    decreases s.len() - q,
{
    if q < p || q >= s.len() || s[q] == '[' || s[q] == '/' || s[q] == '!' {
        if p <= q <= s.len() && known_compound(s.subrange(p, q)) {
            q
        } else {
            best
        }
    } else if s[q] == '-' && known_compound(s.subrange(p, q)) {
        compound_end(s, p, q + 1, q)
    } else {
        compound_end(s, p, q + 1, best)
    }
}

/// Where the plugin that starts at `p` ends: at the first `-[` or `-(` if
/// there is one; else after the longest known name of several words, such
/// as `max-w` in `max-w-md`; else at the first `-`, `[`, `/` or `!`.
pub open spec fn plugin_end(s: Seq<char>, p: int) -> int {
    let d = dash_open_from(s, p);
    if d < s.len() {
        d
    } else {
        compound_end(s, p, plugin_stop_from(s, p), plugin_stop_from(s, p))
    }
}

/// The first `q' >= q` with `s[q']` a `/` or `!`, or `s.len()`.
pub open spec fn value_stop_from(s: Seq<char>, q: int) -> int
    decreases s.len() - q,
{
    if q < 0 || q >= s.len() {
        s.len() as int
    } else if s[q] == '/' || s[q] == '!' {
        q
    } else {
        value_stop_from(s, q + 1)
    }
}

/// The first `q' >= q` where `s[q']` is not an ASCII letter or digit, or `s.len()`.
pub open spec fn alnum_end_from(s: Seq<char>, q: int) -> int
    decreases s.len() - q,
{
    if q < 0 || q >= s.len() {
        s.len() as int
    } else if !is_alnum(s[q]) {
        q
    } else {
        alnum_end_from(s, q + 1)
    }
}

/// Scanning from `i` at bracket depth `depth`, the position just after the
/// bracket that brings the depth to zero, or `-1` when the text ends first.
pub open spec fn bracket_close(s: Seq<char>, i: int, depth: int) -> int
    decreases s.len() - i,
{
    if depth <= 0 {
        i
    } else if i < 0 || i >= s.len() {
        -1
    } else {
        let d = if s[i] == '[' {
            depth + 1
        } else if s[i] == ']' {
            depth - 1
        } else {
            depth
        };
        bracket_close(s, i + 1, d)
    }
}

/// Scanning from `i` at parenthesis depth `depth`, the position just after
/// the parenthesis that brings the depth to zero, or `-1` when the text ends first.
pub open spec fn paren_close(s: Seq<char>, i: int, depth: int) -> int
    decreases s.len() - i,
{
    if depth <= 0 {
        i
    } else if i < 0 || i >= s.len() {
        -1
    } else {
        let d = if s[i] == '(' {
            depth + 1
        } else if s[i] == ')' {
            depth - 1
        } else {
            depth
        };
        paren_close(s, i + 1, d)
    }
}

/// The contents of a bracketed value as the converter reads them: without
/// the brackets, and with each `_` standing for a space.
pub open spec fn arbitrary_content(raw: Seq<char>) -> Seq<char> {
    replace_char(bracket_content(raw), '_', " "@)
}

/// The bracketed value that starts at `a` (where `s[a] == '['`), with the
/// position after it.
pub open spec fn arbitrary_at(s: Seq<char>, a: int) -> Result<(Option<ValueModel>, int), ErrorModel> {
    let z = bracket_close(s, a + 1, 1);
    if z < 0 {
        Err(ErrorModel::UnmatchedBracket)
    } else {
        let raw = s.subrange(a, z);
        Ok((Some(ValueModel::Arbitrary(raw, arbitrary_content(raw))), z))
    }
}

/// The custom property written inside parentheses: `--name`, or
/// `hint:--name` with a type hint before the first `:`.
pub open spec fn css_variable_model(inner: Seq<char>) -> ValueModel {
    let c = index_of_from(inner, ':', 0);
    if is_prefix("--"@, inner) || c >= inner.len() {
        ValueModel::CssVariable(inner, None)
    } else {
        ValueModel::CssVariable(inner.subrange(c + 1, inner.len() as int), Some(inner.subrange(0, c)))
    }
}

/// The custom-property value that starts at `a` (where `s[a] == '('`), with
/// the position after it.
pub open spec fn css_variable_at(s: Seq<char>, a: int) -> Result<(Option<ValueModel>, int), ErrorModel> {
    let z = paren_close(s, a + 1, 1);
    if z < 0 {
        Err(ErrorModel::UnmatchedBracket)
    } else {
        Ok((Some(css_variable_model(s.subrange(a + 1, z - 1))), z))
    }
}

/// The value after a plugin that ends at `e`, with the position after it.
pub open spec fn value_at(s: Seq<char>, e: int) -> Result<(Option<ValueModel>, int), ErrorModel> {
    if e >= s.len() {
        Ok((None, e))
    } else if s[e] == '-' {
        let a = e + 1;
        if a < s.len() && s[a] == '[' {
            arbitrary_at(s, a)
        } else if a < s.len() && s[a] == '(' {
            css_variable_at(s, a)
        } else {
            let z = value_stop_from(s, a);
            if z > a {
                Ok((Some(ValueModel::Standard(s.subrange(a, z))), z))
            } else {
                Ok((None, z))
            }
        }
    } else if s[e] == '[' {
        arbitrary_at(s, e)
    } else {
        Ok((None, e))
    }
}

/// The alpha after `/` at `q`, with the position after it: a bracketed value
/// or a parenthesized one with its brackets, or letters and digits; a `/`
/// with none of these after it gives no alpha but is consumed.
pub open spec fn alpha_at(s: Seq<char>, q: int) -> (Option<Seq<char>>, int) {
    if 0 <= q < s.len() && s[q] == '/' {
        if q + 1 < s.len() && s[q + 1] == '[' && bracket_close(s, q + 2, 1) >= 0 {
            (Some(s.subrange(q + 1, bracket_close(s, q + 2, 1))), bracket_close(s, q + 2, 1))
        } else if q + 1 < s.len() && s[q + 1] == '(' && paren_close(s, q + 2, 1) >= 0 {
            (Some(s.subrange(q + 1, paren_close(s, q + 2, 1))), paren_close(s, q + 2, 1))
        } else {
            let z = alnum_end_from(s, q + 1);
            if z > q + 1 {
                (Some(s.subrange(q + 1, z)), z)
            } else {
                (None, q + 1)
            }
        }
    } else {
        (None, q)
    }
}

/// The message for text left over at `q`: the byte offset of `q` and the rest.
pub open spec fn leftover_message(s: Seq<char>, q: int) -> Seq<char> {
    "Unexpected characters at position "@ + decimal(
        (vstd::utf8::encode_utf8(s.subrange(0, q)).len() as usize) as nat,
    ) + ": '"@ + s.subrange(q, s.len() as int) + "'"@
}

/// What parsing the class `s` gives.
pub open spec fn parse_model(s: Seq<char>) -> Result<ClassModel, ErrorModel> {
    if s.len() == 0 {
        Err(ErrorModel::EmptyInput)
    } else {
        let m = modifiers_end(s, 0);
        let negative = m < s.len() && s[m] == '-';
        let p = if negative {
            m + 1
        } else {
            m
        };
        let e = plugin_end(s, p);
        if e <= p {
            Err(ErrorModel::MissingPlugin)
        } else {
            match value_at(s, e) {
                Err(x) => Err(x),
                Ok((value, q)) => {
                    let (alpha, q2) = alpha_at(s, q);
                    let important = q2 < s.len() && s[q2] == '!';
                    let q3 = if important {
                        q2 + 1
                    } else {
                        q2
                    };
                    if q3 < s.len() {
                        Err(ErrorModel::InvalidFormat(leftover_message(s, q3)))
                    } else {
                        Ok(
                            ClassModel {
                                raw_modifiers: s.subrange(0, m),
                                modifiers: modifier_names(s, 0).map_values(
                                    |t: Seq<char>| modifier_of(t),
                                ),
                                negative,
                                plugin: s.subrange(p, e),
                                value,
                                alpha,
                                important,
                            },
                        )
                    }
                },
            }
        }
    }
}

/// What a parse result says, as text.
pub open spec fn result_view(r: Result<ParsedClass, ParseError>) -> Result<ClassModel, ErrorModel> {
    match r {
        Ok(c) => Ok(c@),
        Err(e) => Err(e@),
    }
}

// ── The parser ──────────────────────────────────────────────────────────────

proof fn lemma_modifiers_progress(s: Seq<char>, p: int)
    requires
        0 <= p <= s.len(),
    ensures
        p <= modifiers_end(s, p) <= s.len(),
    decreases s.len() - p,
{
    let c = index_of_from(s, ':', p);
    lemma_index_of_from_spec(s, ':', p);
    if 0 <= p < c && c + 1 < s.len() && !s.subrange(p, c).contains('[') && !s.subrange(p, c).contains('(') && !s.subrange(
        p,
        c,
    ).contains('/') && !s.subrange(p, c).contains('!') {
        lemma_modifiers_progress(s, c + 1);
    }
}

/// Whether `c` occurs in `v[from..to]`.
fn contains_between(v: &Vec<char>, from: usize, to: usize, c: char) -> (r: bool)
    requires
        from <= to <= v@.len(),
    ensures
        r == v@.subrange(from as int, to as int).contains(c),
{
    let mut i = from;
    while i < to
        invariant
            from <= i <= to <= v@.len(),
            forall|j: int| from <= j < i ==> v@[j] != c,
        decreases to - i,
    {
        if v[i] == c {
            assert(v@.subrange(from as int, to as int)[i - from] == c);
            return true;
        }
        i = i + 1;
    }
    assert forall|j: int| 0 <= j < to - from implies v@.subrange(from as int, to as int)[j]
        != c by {
        assert(v@.subrange(from as int, to as int)[j] == v@[from + j]);
    }
    false
}

/// The modifiers at the start of `v`, and where they end.
fn parse_modifiers(v: &Vec<char>) -> (r: (Vec<Modifier>, usize))
    ensures
        r.1 == modifiers_end(v@, 0),
        r.1 <= v@.len(),
        modifiers_view(r.0@) == modifier_names(v@, 0).map_values(|t: Seq<char>| modifier_of(t)),
{
    let n = v.len();
    let mut mods: Vec<Modifier> = Vec::new();
    let mut p: usize = 0;
    loop
        invariant
            n == v@.len(),
            p <= n,
            modifiers_end(v@, 0) == modifiers_end(v@, p as int),
            modifiers_view(mods@) + modifier_names(v@, p as int).map_values(
                |t: Seq<char>| modifier_of(t),
            ) == modifier_names(v@, 0).map_values(|t: Seq<char>| modifier_of(t)),
        decreases n - p,
    {
        let ghost f = |t: Seq<char>| modifier_of(t);
        let c = index_of_from_vec(v, ':', p);
        proof {
            lemma_index_of_from_spec(v@, ':', p as int);
        }
        if !(p < c && c < n && c + 1 < n) || contains_between(v, p, c, '[') || contains_between(v, p, c, '(')
            || contains_between(v, p, c, '/')
            || contains_between(v, p, c, '!') {
            proof {
                assert(modifier_names(v@, p as int) =~= seq![]);
                assert(modifiers_view(mods@) =~= modifiers_view(mods@) + modifier_names(
                    v@,
                    p as int,
                ).map_values(f));
            }
            return (mods, p);
        }
        let name = string_of_chars(v, p, c);
        let m = Modifier::from_str(name.as_str());
        let ghost old_mods = mods@;
        mods.push(m);
        proof {
            let rest = modifier_names(v@, c + 1);
            assert(modifier_names(v@, p as int) == seq![name@] + rest);
            assert((seq![name@] + rest).map_values(f) =~= seq![modifier_of(name@)]
                + rest.map_values(f));
            assert(modifiers_view(mods@) =~= modifiers_view(old_mods).push(modifier_of(name@)));
            assert(modifiers_view(mods@) + rest.map_values(f) =~= modifiers_view(old_mods)
                + modifier_names(v@, p as int).map_values(f));
        }
        p = c + 1;
    }
}

/// The first position `q' >= q` where `-[` or `-(` starts, or `v.len()`.
fn find_dash_open(v: &Vec<char>, q: usize) -> (r: usize)
    requires
        q <= v@.len(),
    ensures
        r == dash_open_from(v@, q as int),
{
    let mut i = q;
    while i < v.len() && i + 1 < v.len()
        invariant
            q <= i <= v@.len(),
            dash_open_from(v@, q as int) == dash_open_from(v@, i as int),
        decreases v@.len() - i,
    {
        if v[i] == '-' && (v[i + 1] == '[' || v[i + 1] == '(') {
            return i;
        }
        i = i + 1;
    }
    v.len()
}

/// The first position `q' >= q` where `v[q']` is `-`, `[`, `/` or `!`, or `v.len()`.
fn find_plugin_stop(v: &Vec<char>, q: usize) -> (r: usize)
    requires
        q <= v@.len(),
    ensures
        r == plugin_stop_from(v@, q as int),
        q <= r <= v@.len(),
{
    let mut i = q;
    while i < v.len()
        invariant
            q <= i <= v@.len(),
            plugin_stop_from(v@, q as int) == plugin_stop_from(v@, i as int),
        decreases v@.len() - i,
    {
        let ch = v[i];
        if ch == '-' || ch == '[' || ch == '/' || ch == '!' {
            return i;
        }
        i = i + 1;
    }
    i
}

/// Whether `v[p..c]` is a known plugin name of several words.
fn is_known_compound(v: &Vec<char>, p: usize, c: usize) -> (r: bool)
    requires
        p <= c <= v@.len(),
    ensures
        r == known_compound(v@.subrange(p as int, c as int)),
{
    let t = string_of_chars(v, p, c);
    is_known_plugin(t.as_str()) || str_eq(t.as_str(), "inset-shadow") || str_eq(t.as_str(), "inset-ring")
}

/// The end of the plugin that starts at `p`, whose first stop is at `stop`:
/// after the longest known name of several words, else `stop`.
fn find_compound_end(v: &Vec<char>, p: usize, stop: usize) -> (r: usize)
    requires
        p <= stop <= v@.len(),
    ensures
        r == compound_end(v@, p as int, stop as int, stop as int),
        p <= r <= v@.len(),
{
    let mut q = stop;
    let mut best = stop;
    while q < v.len() && v[q] != '[' && v[q] != '/' && v[q] != '!'
        invariant
            p <= stop <= q <= v@.len(),
            p <= best <= v@.len(),
            compound_end(v@, p as int, stop as int, stop as int) == compound_end(v@, p as int, q as int, best as int),
        decreases v@.len() - q,
    {
        if v[q] == '-' && is_known_compound(v, p, q) {
            best = q;
        }
        q = q + 1;
    }
    if is_known_compound(v, p, q) {
        q
    } else {
        best
    }
}

/// The first position `q' >= q` where `v[q']` is `/` or `!`, or `v.len()`.
fn find_value_stop(v: &Vec<char>, q: usize) -> (r: usize)
    requires
        q <= v@.len(),
    ensures
        r == value_stop_from(v@, q as int),
        q <= r <= v@.len(),
{
    let mut i = q;
    while i < v.len()
        invariant
            q <= i <= v@.len(),
            value_stop_from(v@, q as int) == value_stop_from(v@, i as int),
        decreases v@.len() - i,
    {
        if v[i] == '/' || v[i] == '!' {
            return i;
        }
        i = i + 1;
    }
    i
}

/// The first position `q' >= q` where `v[q']` is not an ASCII letter or digit, or `v.len()`.
fn find_alnum_end(v: &Vec<char>, q: usize) -> (r: usize)
    requires
        q <= v@.len(),
    ensures
        r == alnum_end_from(v@, q as int),
        q <= r <= v@.len(),
{
    let mut i = q;
    while i < v.len()
        invariant
            q <= i <= v@.len(),
            alnum_end_from(v@, q as int) == alnum_end_from(v@, i as int),
        decreases v@.len() - i,
    {
        if !char_is_alnum(v[i]) {
            return i;
        }
        i = i + 1;
    }
    i
}

/// Scans a bracketed value that starts at `a`.
fn scan_brackets(v: &Vec<char>, a: usize) -> (r: Option<usize>)
    requires
        a < v@.len(),
    ensures
        r is None <==> bracket_close(v@, a + 1, 1) < 0,
        r matches Some(z) ==> z == bracket_close(v@, a + 1, 1) && a < z <= v@.len(),
{
    let n = v.len();
    let mut i = a + 1;
    let mut depth: usize = 1;
    while i < v.len() && depth > 0
        invariant
            a + 1 <= i <= v@.len(),
            depth <= i - a,
            bracket_close(v@, a + 1, 1) == bracket_close(v@, i as int, depth as int),
        decreases v@.len() - i,
    {
        if v[i] == '[' {
            depth = depth + 1;
        } else if v[i] == ']' {
            depth = depth - 1;
        }
        i = i + 1;
    }
    if depth != 0 {
        None
    } else {
        Some(i)
    }
}

/// Scans a parenthesized value that starts at `a`.
fn scan_parens(v: &Vec<char>, a: usize) -> (r: Option<usize>)
    requires
        a < v@.len(),
    ensures
        r is None <==> paren_close(v@, a + 1, 1) < 0,
        r matches Some(z) ==> z == paren_close(v@, a + 1, 1) && a < z <= v@.len(),
{
    let n = v.len();
    let mut i = a + 1;
    let mut depth: usize = 1;
    while i < v.len() && depth > 0
        invariant
            a + 1 <= i <= v@.len(),
            depth <= i - a,
            paren_close(v@, a + 1, 1) == paren_close(v@, i as int, depth as int),
        decreases v@.len() - i,
    {
        if v[i] == '(' {
            depth = depth + 1;
        } else if v[i] == ')' {
            depth = depth - 1;
        }
        i = i + 1;
    }
    if depth != 0 {
        None
    } else {
        Some(i)
    }
}

/// The custom-property value that starts at `a`.
fn parse_css_variable(v: &Vec<char>, a: usize) -> (r: Result<(Option<ParsedValue>, usize), ParseError>)
    requires
        a < v@.len(),
    ensures
        value_result_view(r) == css_variable_at(v@, a as int),
        r matches Ok((_, z)) ==> z <= v@.len(),
{
    match scan_parens(v, a) {
        None => Err(ParseError::UnmatchedBracket),
        Some(z) => {
            proof {
                lemma_paren_close_after(v@, a + 1, 1);
            }
            let inner = string_of_chars(v, a + 1, z - 1);
            let iv = chars_of(inner.as_str());
            let c = index_of_from_vec(&iv, ':', 0);
            proof {
                reveal_strlit("--");
            }
            let cv = if starts_with(inner.as_str(), "--") || c >= iv.len() {
                CssVariableValue { property: inner, type_hint: None }
            } else {
                proof {
                    lemma_index_of_from_spec(iv@, ':', 0);
                }
                CssVariableValue { property: string_of_chars(&iv, c + 1, iv.len()), type_hint: Some(string_of_chars(&iv, 0, c)) }
            };
            Ok((Some(ParsedValue::CssVariable(cv)), z))
        },
    }
}

proof fn lemma_paren_close_after(s: Seq<char>, i: int, depth: int)
    requires
        0 <= i,
        depth >= 1,
        paren_close(s, i, depth) >= 0,
    ensures
        i + 1 <= paren_close(s, i, depth) <= s.len(),
    decreases s.len() - i,
{
    if i < s.len() {
        let d = if s[i] == '(' {
            depth + 1
        } else if s[i] == ')' {
            depth - 1
        } else {
            depth
        };
        if d >= 1 {
            lemma_paren_close_after(s, i + 1, d);
        }
    }
}

/// The bracketed value that starts at `a`.
fn parse_arbitrary(v: &Vec<char>, a: usize) -> (r: Result<(Option<ParsedValue>, usize), ParseError>)
    requires
        a < v@.len(),
    ensures
        value_result_view(r) == arbitrary_at(v@, a as int),
        r matches Ok((_, z)) ==> z <= v@.len(),
{
    match scan_brackets(v, a) {
        None => Err(ParseError::UnmatchedBracket),
        Some(z) => {
            let raw = string_of_chars(v, a, z);
            let bare = ArbitraryValue::new(raw);
            let content = replace_char_str(bare.content.as_str(), '_', " ");
            Ok((Some(ParsedValue::Arbitrary(ArbitraryValue { raw: bare.raw, content })), z))
        },
    }
}

pub open spec fn value_result_view(r: Result<(Option<ParsedValue>, usize), ParseError>) -> Result<
    (Option<ValueModel>, int),
    ErrorModel,
> {
    match r {
        Ok((Some(v), z)) => Ok((Some(v@), z as int)),
        Ok((None, z)) => Ok((None, z as int)),
        Err(e) => Err(e@),
    }
}

/// The value after a plugin that ends at `e`.
fn parse_value(v: &Vec<char>, e: usize) -> (r: Result<(Option<ParsedValue>, usize), ParseError>)
    requires
        e <= v@.len(),
    ensures
        value_result_view(r) == value_at(v@, e as int),
        r matches Ok((_, z)) ==> z <= v@.len(),
{
    let n = v.len();
    if e >= n {
        Ok((None, e))
    } else if v[e] == '-' {
        let a = e + 1;
        if a < n && v[a] == '[' {
            parse_arbitrary(v, a)
        } else if a < n && v[a] == '(' {
            parse_css_variable(v, a)
        } else {
            let z = find_value_stop(v, a);
            if z > a {
                Ok((Some(ParsedValue::Standard(string_of_chars(v, a, z))), z))
            } else {
                Ok((None, z))
            }
        }
    } else if v[e] == '[' {
        parse_arbitrary(v, e)
    } else {
        Ok((None, e))
    }
}

/// The alpha after a `/` at `q`.
fn parse_alpha(v: &Vec<char>, q: usize) -> (r: (Option<String>, usize))
    requires
        q <= v@.len(),
    ensures
        (match r.0 {
            Some(a) => Some(a@),
            None => None,
        }, r.1 as int) == alpha_at(v@, q as int),
        r.1 <= v@.len(),
{
    if q < v.len() && v[q] == '/' {
        if q + 1 < v.len() && v[q + 1] == '[' {
            if let Some(z) = scan_brackets(v, q + 1) {
                return (Some(string_of_chars(v, q + 1, z)), z);
            }
        } else if q + 1 < v.len() && v[q + 1] == '(' {
            if let Some(z) = scan_parens(v, q + 1) {
                return (Some(string_of_chars(v, q + 1, z)), z);
            }
        }
        let z = find_alnum_end(v, q + 1);
        if z > q + 1 {
            (Some(string_of_chars(v, q + 1, z)), z)
        } else {
            (None, q + 1)
        }
    } else {
        (None, q)
    }
}

/// Parses one utility class.
///
/// The input is read as: modifiers each followed by `:`, an optional `-`, the
/// plugin, an optional value (after `-`, or a bracketed value), an optional
/// alpha after `/`, and an optional `!`. Anything left over is an error.
pub fn parse_class(input: &str) -> (r: Result<ParsedClass, ParseError>)
    ensures
        result_view(r) == parse_model(input@),
{
    if input.unicode_len() == 0 {
        return Err(ParseError::EmptyInput);
    }
    let v = chars_of(input);
    let n = v.len();
    let (modifiers, m) = parse_modifiers(&v);
    proof {
        lemma_modifiers_progress(v@, 0);
    }
    let negative = m < n && v[m] == '-';
    let p = if negative {
        m + 1
    } else {
        m
    };
    let d = find_dash_open(&v, p);
    proof {
        lemma_dash_open_bounds(v@, p as int);
    }
    let e = if d < n {
        d
    } else {
        let stop = find_plugin_stop(&v, p);
        find_compound_end(&v, p, stop)
    };
    if e <= p {
        return Err(ParseError::MissingPlugin);
    }
    let plugin = string_of_chars(&v, p, e);
    let (value, q) = match parse_value(&v, e) {
        Err(x) => {
            return Err(x);
        },
        Ok(pair) => pair,
    };
    let (alpha, q2) = parse_alpha(&v, q);
    let important = q2 < n && v[q2] == '!';
    let q3 = if important {
        q2 + 1
    } else {
        q2
    };
    if q3 < n {
        let rest = string_of_chars(&v, q3, n);
        let before = input.substring_char(0, q3);
        let offset = before.len();
        let mut msg = String::from_str("Unexpected characters at position ");
        let digits = decimal_string(offset);
        msg.append(digits.as_str());
        msg.append(": '");
        msg.append(rest.as_str());
        msg.append("'");
        proof {
            assert(before@ == v@.subrange(0, q3 as int));
            assert(msg@ =~= leftover_message(v@, q3 as int));
        }
        return Err(ParseError::InvalidFormat(msg));
    }
    let raw_modifiers = string_of_chars(&v, 0, m);
    let c = ParsedClass { raw_modifiers, modifiers, negative, plugin, value, alpha, important };
    proof {
        let model = parse_model(v@);
        assert(opt_value_eq(c.value, model->Ok_0.value));
    }
    Ok(c)
}

spec fn opt_value_eq(a: Option<ParsedValue>, b: Option<ValueModel>) -> bool {
    crate::parse::opt_value_view(a) == b
}

proof fn lemma_dash_open_bounds(s: Seq<char>, q: int)
    requires
        0 <= q <= s.len(),
    ensures
        q <= dash_open_from(s, q) <= s.len(),
        q <= plugin_stop_from(s, q) <= s.len(),
    decreases s.len() - q,
{
    if q + 1 < s.len() {
        lemma_dash_open_bounds(s, q + 1);
    } else if q < s.len() {
        lemma_plugin_stop_bounds(s, q);
    }
    lemma_plugin_stop_bounds(s, q);
}

proof fn lemma_plugin_stop_bounds(s: Seq<char>, q: int)
    requires
        0 <= q <= s.len(),
    ensures
        q <= plugin_stop_from(s, q) <= s.len(),
    decreases s.len() - q,
{
    if q < s.len() {
        lemma_plugin_stop_bounds(s, q + 1);
    }
}


/// The classes of a whitespace-separated list, each parsed in turn; the first
/// class that does not parse gives the error.
pub open spec fn parse_all(tokens: Seq<Seq<char>>) -> Result<Seq<ClassModel>, ErrorModel>
    decreases tokens.len(),
{
    if tokens.len() == 0 {
        Ok(seq![])
    } else {
        match parse_all(tokens.drop_last()) {
            Err(e) => Err(e),
            Ok(cs) => match parse_model(tokens.last()) {
                Ok(c) => Ok(cs.push(c)),
                Err(e) => Err(e),
            },
        }
    }
}

/// The models of a sequence of parsed classes.
pub open spec fn classes_view(v: Seq<ParsedClass>) -> Seq<ClassModel> {
    v.map_values(|c: ParsedClass| c@)
}

proof fn lemma_parse_all_err(ts: Seq<Seq<char>>, k: int)
    requires
        0 <= k <= ts.len(),
        parse_all(ts.subrange(0, k)) is Err,
    ensures
        parse_all(ts) == parse_all(ts.subrange(0, k)),
    decreases ts.len() - k,
{
    if k == ts.len() {
        assert(ts.subrange(0, k) =~= ts);
    } else {
        assert(ts.subrange(0, k + 1).drop_last() =~= ts.subrange(0, k));
        lemma_parse_all_err(ts, k + 1);
    }
}

/// Parses each class of a whitespace-separated list, such as `p-4 hover:m-2`.
pub fn parse_classes(input: &str) -> (r: Result<Vec<ParsedClass>, ParseError>)
    ensures
        match r {
            Ok(v) => parse_all(crate::normalize::ws_tokens(input@)) == Ok::<Seq<ClassModel>, ErrorModel>(classes_view(v@)),
            Err(e) => parse_all(crate::normalize::ws_tokens(input@)) == Err::<Seq<ClassModel>, ErrorModel>(e@),
        },
{
    let tokens = crate::normalize::split_ws(input);
    let ghost ts = crate::text::strings_view(tokens@);
    let mut out: Vec<ParsedClass> = Vec::new();
    let mut i: usize = 0;
    assert(ts.subrange(0, 0) =~= Seq::<Seq<char>>::empty());
    assert(classes_view(out@) =~= Seq::<ClassModel>::empty());
    while i < tokens.len()
        invariant
            i <= tokens@.len(),
            ts == crate::text::strings_view(tokens@),
            ts == crate::normalize::ws_tokens(input@),
            parse_all(ts.subrange(0, i as int)) == Ok::<Seq<ClassModel>, ErrorModel>(classes_view(out@)),
        decreases tokens@.len() - i,
    {
        let ghost prefix = ts.subrange(0, i + 1);
        assert(prefix.drop_last() =~= ts.subrange(0, i as int));
        assert(prefix.last() == tokens@[i as int]@);
        match parse_class(tokens[i].as_str()) {
            Ok(c) => {
                let ghost before = classes_view(out@);
                let ghost cv = c@;
                out.push(c);
                assert(classes_view(out@) =~= before.push(cv));
            },
            Err(e) => {
                proof {
                    assert(parse_all(prefix) == Err::<Seq<ClassModel>, ErrorModel>(e@));
                    lemma_parse_all_err(ts, i + 1);
                }
                return Err(e);
            },
        }
        i = i + 1;
    }
    assert(ts.subrange(0, tokens@.len() as int) =~= ts);
    Ok(out)
}

/// The message of a parse error, as its `Display` writes it.
pub open spec fn error_text(e: ErrorModel) -> Seq<char> {
    match e {
        ErrorModel::EmptyInput => "Empty input"@,
        ErrorModel::InvalidFormat(m) => "Invalid format: "@ + m,
        ErrorModel::UnmatchedBracket => "Unmatched bracket in arbitrary value"@,
        ErrorModel::MissingPlugin => "Missing plugin/command"@,
    }
}

/// What `{:?}` writes for a string: the string in double quotes, with its
/// quotes, backslashes and unprintable characters escaped.
pub uninterp spec fn debug_str(s: Seq<char>) -> Seq<char>;

/// `<str as Debug>::fmt`, through `format!("{:?}", ..)`.
#[verifier::external_body]
fn debug_str_of(s: &str) -> (r: String)
    ensures
        r@ == debug_str(s@),
{
    format!("{:?}", s)
}

/// A parse error as `{:?}` writes it: the variant's name, with the message of
/// an invalid format in parentheses.
pub open spec fn error_debug_text(e: ErrorModel) -> Seq<char> {
    match e {
        ErrorModel::EmptyInput => "EmptyInput"@,
        ErrorModel::InvalidFormat(m) => "InvalidFormat("@ + debug_str(m) + ")"@,
        ErrorModel::UnmatchedBracket => "UnmatchedBracket"@,
        ErrorModel::MissingPlugin => "MissingPlugin"@,
    }
}

impl ParseError {
    /// The message of this error, such as `Unmatched bracket in arbitrary value`.
    pub fn to_string(&self) -> (r: String)
        ensures
            r@ == error_text(self@),
    {
        match self {
            ParseError::EmptyInput => crate::text::owned("Empty input"),
            ParseError::InvalidFormat(m) => crate::text::cat2("Invalid format: ", m.as_str()),
            ParseError::UnmatchedBracket => crate::text::owned("Unmatched bracket in arbitrary value"),
            ParseError::MissingPlugin => crate::text::owned("Missing plugin/command"),
        }
    }

    /// This error as `{:?}` writes it, such as `UnmatchedBracket`.
    pub fn debug_text(&self) -> (r: String)
        ensures
            r@ == error_debug_text(self@),
    {
        match self {
            ParseError::EmptyInput => crate::text::owned("EmptyInput"),
            ParseError::InvalidFormat(m) => {
                let q = debug_str_of(m.as_str());
                crate::text::cat3("InvalidFormat(", q.as_str(), ")")
            },
            ParseError::UnmatchedBracket => crate::text::owned("UnmatchedBracket"),
            ParseError::MissingPlugin => crate::text::owned("MissingPlugin"),
        }
    }
}


// ── Reading a parsed class back ─────────────────────────────────────────────

/// Whether a class is written in the canonical way: every `[` directly
/// follows a `-` or a `/`, and every `-` or `/` is followed by something other
/// than `/` or `!`.
pub open spec fn canonical_class(s: Seq<char>) -> bool {
    &&& forall|i: int| 0 <= i < s.len() && #[trigger] s[i] == '[' ==> i > 0 && (s[i - 1] == '-' || s[i - 1] == '/')
    &&& forall|i: int|
        0 <= i < s.len() && (#[trigger] s[i] == '-' || s[i] == '/') ==> i + 1 < s.len() && s[i + 1] != '/' && s[i + 1]
            != '!'
}

proof fn lemma_bracket_close_after(s: Seq<char>, i: int, depth: int)
    requires
        0 <= i,
        depth >= 1,
        bracket_close(s, i, depth) >= 0,
    ensures
        i + 1 <= bracket_close(s, i, depth) <= s.len(),
    decreases s.len() - i,
{
    if i < s.len() {
        let d = if s[i] == '[' {
            depth + 1
        } else if s[i] == ']' {
            depth - 1
        } else {
            depth
        };
        if d >= 1 {
            lemma_bracket_close_after(s, i + 1, d);
        }
    }
}

proof fn lemma_paren_close_last(s: Seq<char>, i: int, depth: int)
    requires
        0 <= i,
        depth >= 1,
        paren_close(s, i, depth) >= 0,
    ensures
        i + 1 <= paren_close(s, i, depth) <= s.len(),
        s[paren_close(s, i, depth) - 1] == ')',
    decreases s.len() - i,
{
    if i < s.len() {
        let d = if s[i] == '(' {
            depth + 1
        } else if s[i] == ')' {
            depth - 1
        } else {
            depth
        };
        if d >= 1 {
            lemma_paren_close_last(s, i + 1, d);
        }
    }
}

proof fn lemma_compound_end_bounds(s: Seq<char>, p: int, q: int, best: int)
    requires
        0 <= p <= q <= s.len(),
        p <= best <= s.len(),
    ensures
        p <= compound_end(s, p, q, best) <= s.len(),
    decreases s.len() - q,
{
    if !(q >= s.len() || s[q] == '[' || s[q] == '/' || s[q] == '!') {
        if s[q] == '-' && known_compound(s.subrange(p, q)) {
            lemma_compound_end_bounds(s, p, q + 1, q);
        } else {
            lemma_compound_end_bounds(s, p, q + 1, best);
        }
    }
}

proof fn lemma_dash_open_first(s: Seq<char>, q: int, j: int)
    requires
        0 <= q <= j,
        j + 1 < s.len(),
        s[j] == '-',
        s[j + 1] == '[' || s[j + 1] == '(',
    ensures
        dash_open_from(s, q) <= j,
    decreases j - q,
{
    if q < j && !(s[q] == '-' && (s[q + 1] == '[' || s[q + 1] == '(')) {
        lemma_dash_open_first(s, q + 1, j);
    }
}

proof fn lemma_compound_end_stops(s: Seq<char>, p: int, q: int, best: int, j: int)
    requires
        p <= q <= j < s.len(),
        best <= j,
        s[j] == '[' || s[j] == '/' || s[j] == '!',
    ensures
        compound_end(s, p, q, best) <= j,
    decreases j - q,
{
    if !(s[q] == '[' || s[q] == '/' || s[q] == '!') {
        if s[q] == '-' && known_compound(s.subrange(p, q)) {
            lemma_compound_end_stops(s, p, q + 1, q, j);
        } else {
            lemma_compound_end_stops(s, p, q + 1, best, j);
        }
    }
}

proof fn lemma_dash_open_found(s: Seq<char>, q: int)
    requires
        0 <= q,
        dash_open_from(s, q) < s.len(),
    ensures
        s[dash_open_from(s, q)] == '-',
    decreases s.len() - q,
{
    if q + 1 < s.len() && !(s[q] == '-' && (s[q + 1] == '[' || s[q + 1] == '(')) {
        lemma_dash_open_found(s, q + 1);
    }
}

proof fn lemma_plugin_stop_first(s: Seq<char>, q: int, j: int)
    requires
        0 <= q <= j < s.len(),
        is_plugin_stop(s[j]),
    ensures
        plugin_stop_from(s, q) <= j,
    decreases j - q,
{
    if q < j && !is_plugin_stop(s[q]) {
        lemma_plugin_stop_first(s, q + 1, j);
    }
}

proof fn lemma_value_stop(s: Seq<char>, q: int)
    requires
        0 <= q <= s.len(),
    ensures
        q <= value_stop_from(s, q) <= s.len(),
        value_stop_from(s, q) < s.len() ==> (s[value_stop_from(s, q)] == '/' || s[value_stop_from(s, q)] == '!'),
    decreases s.len() - q,
{
    if q < s.len() && s[q] != '/' && s[q] != '!' {
        lemma_value_stop(s, q + 1);
    }
}

proof fn lemma_alnum_end(s: Seq<char>, q: int)
    requires
        0 <= q <= s.len(),
    ensures
        q <= alnum_end_from(s, q) <= s.len(),
    decreases s.len() - q,
{
    if q < s.len() && is_alnum(s[q]) {
        lemma_alnum_end(s, q + 1);
    }
}

/// The text of a custom-property value is its parenthesized contents.
proof fn lemma_css_variable_text(inner: Seq<char>)
    ensures
        value_text(css_variable_model(inner)) == "("@ + inner + ")"@,
{
    let c = index_of_from(inner, ':', 0);
    lemma_index_of_from_spec(inner, ':', 0);
    if !(is_prefix("--"@, inner) || c >= inner.len()) {
        assert(inner.subrange(0, c) + ":"@ + inner.subrange(c + 1, inner.len() as int) =~= inner) by {
            reveal_strlit(":");
        }
        assert("("@ + inner.subrange(0, c) + ":"@ + inner.subrange(c + 1, inner.len() as int) + ")"@ =~= "("@ + (
        inner.subrange(0, c) + ":"@ + inner.subrange(c + 1, inner.len() as int)) + ")"@);
    }
}

/// The text that a parsed value stands for, with its dash.
pub open spec fn value_part(value: Option<ValueModel>) -> Seq<char> {
    match value {
        Some(v) => seq!['-'] + value_text(v),
        None => Seq::<char>::empty(),
    }
}

/// The text that a parsed alpha stands for, with its `/`.
pub open spec fn alpha_part(alpha: Option<Seq<char>>) -> Seq<char> {
    match alpha {
        Some(x) => seq!['/'] + x,
        None => Seq::<char>::empty(),
    }
}

proof fn lemma_value_span(s: Seq<char>, p: int)
    requires
        canonical_class(s),
        0 <= p < plugin_end(s, p) <= s.len(),
        value_at(s, plugin_end(s, p)) is Ok,
    ensures
        plugin_end(s, p) <= value_at(s, plugin_end(s, p))->Ok_0.1 <= s.len(),
        value_part(value_at(s, plugin_end(s, p))->Ok_0.0) == s.subrange(
            plugin_end(s, p),
            value_at(s, plugin_end(s, p))->Ok_0.1,
        ),
{
    let e = plugin_end(s, p);
    let q = value_at(s, e)->Ok_0.1;
    let vt = value_part(value_at(s, e)->Ok_0.0);
    if e < s.len() && s[e] == '-' {
        let a = e + 1;
        assert(a < s.len());
        if s[a] == '[' {
            lemma_bracket_close_after(s, a + 1, 1);
            assert(vt =~= s.subrange(e, q));
        } else if s[a] == '(' {
            let z = paren_close(s, a + 1, 1);
            lemma_paren_close_last(s, a + 1, 1);
            lemma_css_variable_text(s.subrange(a + 1, z - 1));
            assert(vt =~= s.subrange(e, q)) by {
                reveal_strlit("(");
                reveal_strlit(")");
            }
        } else {
            lemma_value_stop(s, a);
            let z = value_stop_from(s, a);
            if z == a {
                assert(s[a] == '/' || s[a] == '!');
                assert(false);
            }
            assert(vt =~= s.subrange(e, q));
        }
    } else if e < s.len() && s[e] == '[' {
        lemma_dash_open_bounds(s, p);
        if s[e - 1] == '-' {
            lemma_dash_open_first(s, p, e - 1);
        } else {
            assert(s[e - 1] == '/');
            if dash_open_from(s, p) < s.len() {
                lemma_dash_open_found(s, p);
            } else {
                lemma_plugin_stop_first(s, p, e - 1);
                lemma_compound_end_stops(s, p, plugin_stop_from(s, p), plugin_stop_from(s, p), e - 1);
            }
        }
        assert(false);
    } else {
        assert(vt =~= s.subrange(e, q));
    }
}

proof fn lemma_alpha_span(s: Seq<char>, q: int)
    requires
        canonical_class(s),
        0 <= q <= s.len(),
        ({
            let q2 = alpha_at(s, q).1;
            (if q2 < s.len() && s[q2] == '!' { q2 + 1 } else { q2 }) >= s.len()
        }),
    ensures
        q <= alpha_at(s, q).1 <= s.len(),
        alpha_part(alpha_at(s, q).0) == s.subrange(q, alpha_at(s, q).1),
{
    let q2 = alpha_at(s, q).1;
    let at = alpha_part(alpha_at(s, q).0);
    if 0 <= q < s.len() && s[q] == '/' {
        assert(q + 1 < s.len() && s[q + 1] != '/' && s[q + 1] != '!');
        if s[q + 1] == '[' && bracket_close(s, q + 2, 1) >= 0 {
            lemma_bracket_close_after(s, q + 2, 1);
            assert(at =~= s.subrange(q, q2));
        } else if s[q + 1] == '(' && paren_close(s, q + 2, 1) >= 0 {
            lemma_paren_close_last(s, q + 2, 1);
            assert(at =~= s.subrange(q, q2));
        } else {
            lemma_alnum_end(s, q + 1);
            let z = alnum_end_from(s, q + 1);
            if z == q + 1 {
                assert(q2 == q + 1);
                assert(s[q2] != '!');
                assert(false);
            }
            assert(at =~= s.subrange(q, q2));
        }
    } else {
        assert(at =~= s.subrange(q, q2));
    }
}

/// Parsing a canonically written class and writing it back in normalized form
/// gives the class as it was written.
#[verifier::rlimit(40)]
pub proof fn law_parse_normalize_round_trip(s: Seq<char>)
    requires
        canonical_class(s),
        parse_model(s) is Ok,
    ensures
        normalized_text(parse_model(s)->Ok_0) == s,
{
    let c = parse_model(s)->Ok_0;
    let m = modifiers_end(s, 0);
    lemma_modifiers_progress(s, 0);
    let negative = m < s.len() && s[m] == '-';
    let p = if negative { m + 1 } else { m };
    let e = plugin_end(s, p);
    lemma_dash_open_bounds(s, p);
    if dash_open_from(s, p) >= s.len() {
        lemma_compound_end_bounds(s, p, plugin_stop_from(s, p), plugin_stop_from(s, p));
    }
    lemma_value_span(s, p);
    let q = value_at(s, e)->Ok_0.1;
    assert({
        let q2 = alpha_at(s, q).1;
        (if q2 < s.len() && s[q2] == '!' { q2 + 1 } else { q2 }) >= s.len()
    });
    lemma_alpha_span(s, q);
    let q2 = alpha_at(s, q).1;
    let important = q2 < s.len() && s[q2] == '!';
    let q3 = if important { q2 + 1 } else { q2 };
    let nt = if negative { seq!['-'] } else { Seq::<char>::empty() };
    let it = if important { seq!['!'] } else { Seq::<char>::empty() };
    assert(nt =~= s.subrange(m, p));
    assert(it =~= s.subrange(q2, q3));
    assert(normalized_text(c) == s.subrange(0, m) + nt + s.subrange(p, e) + value_part(c.value) + alpha_part(c.alpha) + it);
    assert(s.subrange(0, m) + s.subrange(m, p) + s.subrange(p, e) + s.subrange(e, q) + s.subrange(q, q2) + s.subrange(
        q2,
        q3,
    ) =~= s);
}

} // verus!
