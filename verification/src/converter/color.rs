//! Alpha on color declarations (such as `text-white/60` → `#fff9`) and
//! `!important`.
use vstd::prelude::*;
use crate::num::{
    decimal_u128, lemma_pow10_bound, lemma_pow10_pos, numeral_spec, parse_numeral, pow10,
    pow10_exec,
};
use crate::text::{cat2, cat3, chars_of, decimal, digit_char, digit_of, ends_with, is_prefix, is_suffix, owned, starts_with, str_eq};
use crate::types::{decls_view, DeclView, Declaration};

verus! {

/// Whether a CSS property takes a color.
pub open spec fn is_color_property(p: Seq<char>) -> bool {
    ||| p == "color"@ || p == "background"@ || p == "background-color"@ || p == "border-color"@
    ||| p == "outline-color"@ || p == "text-decoration-color"@ || p == "stroke"@ || p == "fill"@
    ||| p == "accent-color"@ || p == "caret-color"@ || p == "--tw-shadow-color"@
    ||| p == "--tw-inset-shadow-color"@ || p == "--tw-ring-color"@ || p == "--tw-inset-ring-color"@
    ||| p == "--tw-gradient-from"@ || p == "--tw-gradient-via"@ || p == "--tw-gradient-to"@
}

fn color_property(p: &str) -> (r: bool)
    ensures
        r == is_color_property(p@),
{
    str_eq(p, "color") || str_eq(p, "background") || str_eq(p, "background-color")
        || str_eq(p, "border-color") || str_eq(p, "outline-color") || str_eq(p, "text-decoration-color")
        || str_eq(p, "stroke") || str_eq(p, "fill") || str_eq(p, "accent-color") || str_eq(p, "caret-color")
        || str_eq(p, "--tw-shadow-color") || str_eq(p, "--tw-inset-shadow-color") || str_eq(p, "--tw-ring-color")
        || str_eq(p, "--tw-inset-ring-color") || str_eq(p, "--tw-gradient-from") || str_eq(p, "--tw-gradient-via")
        || str_eq(p, "--tw-gradient-to")
}

/// The lower-case hex digit of `d < 16`.
pub open spec fn hex_digit(d: nat) -> char {
    if d < 10 {
        digit_char(d)
    } else if d == 10 {
        'a'
    } else if d == 11 {
        'b'
    } else if d == 12 {
        'c'
    } else if d == 13 {
        'd'
    } else if d == 14 {
        'e'
    } else {
        'f'
    }
}

/// The two lower-case hex digits of a byte.
pub open spec fn hex_byte(b: nat) -> Seq<char> {
    seq![hex_digit(b / 16), hex_digit(b % 16)]
}

fn hex_digit_of(d: u128) -> (c: char)
    requires
        d < 16,
    ensures
        c == hex_digit(d as nat),
{
    if d < 10 {
        digit_of(d as usize)
    } else if d == 10 {
        'a'
    } else if d == 11 {
        'b'
    } else if d == 12 {
        'c'
    } else if d == 13 {
        'd'
    } else if d == 14 {
        'e'
    } else {
        'f'
    }
}

/// The byte of an alpha percentage `p`: `p / 100 * 255` rounded half away from
/// zero, kept within 0 to 255; `p` is the numeral read as sign, digits `n`
/// and `f` digits after the point.
pub open spec fn alpha_byte(neg: bool, n: nat, f: nat) -> nat {
    if neg {
        0
    } else {
        let r = (102 * n + 20 * pow10(f)) / (40 * pow10(f));
        if r > 255 {
            255
        } else {
            r
        }
    }
}

/// The whole percent of an alpha, truncated and kept within the range of `u32`.
pub open spec fn alpha_percent(neg: bool, n: nat, f: nat) -> nat {
    if neg {
        0
    } else if n / pow10(f) > u32::MAX {
        u32::MAX as nat
    } else {
        n / pow10(f)
    }
}

/// Whether every character of `s` is ASCII.
pub open spec fn is_ascii_text(s: Seq<char>) -> bool {
    forall|i: int| 0 <= i < s.len() ==> (#[trigger] s[i] as u32) < 128
}

/// A hex color `#{body}` with the alpha digits `a`: the four-digit short form
/// when each pair of the six digits repeats and so does the alpha, else all
/// eight digits.
pub open spec fn hex_with_alpha(body: Seq<char>, a: Seq<char>) -> Seq<char> {
    if body.len() == 6 && is_ascii_text(body) && body[0] == body[1] && body[2] == body[3] && body[4] == body[5]
        && a[0] == a[1] {
        seq!['#', body[0], body[2], body[4], a[0]]
    } else {
        "#"@ + body + a
    }
}

/// The last position of `c` in `s`, or `-1`.
pub open spec fn last_index(s: Seq<char>, c: char) -> int
    decreases s.len(),
{
    if s.len() == 0 {
        -1
    } else if s.last() == c {
        s.len() - 1
    } else {
        last_index(s.drop_last(), c)
    }
}

/// A color with an alpha percentage applied: unchanged when the alpha is not a
/// numeral, is 100, or the color is `transparent` or `currentColor`; else a
/// `color-mix()`, a hex color with alpha digits, or `/ p%` before the last `)`
/// of a color function (a variable is left as it is).
pub open spec fn alpha_color(value: Seq<char>, alpha: Seq<char>, mix: bool) -> Seq<char> {
    match numeral_spec(alpha) {
        None => value,
        Some((neg, n, f)) => if !neg && n == 100 * pow10(f) {
            value
        } else if value == "transparent"@ || value == "currentColor"@ {
            value
        } else if mix {
            "color-mix(in oklab, "@ + value + " "@ + decimal(alpha_percent(neg, n, f)) + "%, transparent)"@
        } else if is_prefix("#"@, value) {
            hex_with_alpha(value.subrange(1, value.len() as int), hex_byte(alpha_byte(neg, n, f)))
        } else if is_prefix("var("@, value) {
            value
        } else if last_index(value, ')') >= 0 {
            value.subrange(0, last_index(value, ')')) + " / "@ + decimal(alpha_percent(neg, n, f)) + "%)"@
        } else {
            value
        },
    }
}

proof fn lemma_last_index(s: Seq<char>, c: char)
    ensures
        -1 <= last_index(s, c) < s.len(),
        last_index(s, c) >= 0 ==> s[last_index(s, c)] == c,
        forall|j: int| last_index(s, c) < j < s.len() ==> s[j] != c,
    decreases s.len(),
{
    if s.len() > 0 && s.last() != c {
        lemma_last_index(s.drop_last(), c);
        assert forall|j: int| last_index(s, c) < j < s.len() implies s[j] != c by {
            if j < s.len() - 1 {
                assert(s.drop_last()[j] == s[j]);
            }
        }
    }
}

fn last_index_of(v: &Vec<char>, c: char) -> (r: usize)
    ensures
        r <= v@.len(),
        r < v@.len() <==> last_index(v@, c) >= 0,
        r < v@.len() ==> r == last_index(v@, c),
{
    let mut i = v.len();
    assert(v@.subrange(0, i as int) =~= v@);
    while i > 0
        invariant
            i <= v@.len(),
            last_index(v@, c) == last_index(v@.subrange(0, i as int), c),
        decreases i,
    {
        let ghost s = v@.subrange(0, i as int);
        if v[i - 1] == c {
            assert(s.last() == c);
            return i - 1;
        }
        assert(s.drop_last() =~= v@.subrange(0, i - 1));
        i = i - 1;
    }
    assert(v@.subrange(0, 0) =~= Seq::<char>::empty());
    v.len()
}

fn hex_with_alpha_of(body: &str, a: &Vec<char>) -> (r: String)
    requires
        a@.len() == 2,
    ensures
        r@ == hex_with_alpha(body@, a@),
{
    let b = chars_of(body);
    let mut ascii = true;
    let mut i: usize = 0;
    while i < b.len()
        invariant
            i <= b@.len(),
            b@ == body@,
            ascii == (forall|j: int| 0 <= j < i ==> (#[trigger] b@[j] as u32) < 128),
        decreases b@.len() - i,
    {
        if (b[i] as u32) >= 128 {
            ascii = false;
        }
        i = i + 1;
    }
    let mut out = String::new();
    if b.len() == 6 && ascii && b[0] == b[1] && b[2] == b[3] && b[4] == b[5] && a[0] == a[1] {
        out.push('#');
        out.push(b[0]);
        out.push(b[2]);
        out.push(b[4]);
        out.push(a[0]);
        assert(out@ =~= seq!['#', b@[0], b@[2], b@[4], a@[0]]);
    } else {
        out.push('#');
        crate::text::push_str(&mut out, body);
        out.push(a[0]);
        out.push(a[1]);
        assert(out@ =~= "#"@ + body@ + a@) by {
            reveal_strlit("#");
        }
    }
    out
}

/// A color with an alpha percentage applied, such as `#ffffff` with `60` →
/// `#fff9`.
pub fn apply_alpha_to_color(value: &str, alpha: &str, use_color_mix: bool) -> (r: String)
    ensures
        r@ == alpha_color(value@, alpha@, use_color_mix),
{
    let (neg, n, f) = match parse_numeral(alpha) {
        Some(t) => t,
        None => return owned(value),
    };
    proof {
        assert(f <= 19);
        lemma_pow10_bound(f as nat);
        lemma_pow10_pos(f as nat);
    }
    let p10 = pow10_exec(f);
    let n: u128 = n as u128;
    if !neg && n == 100 * p10 {
        return owned(value);
    }
    if str_eq(value, "transparent") || str_eq(value, "currentColor") {
        return owned(value);
    }
    let q = n / p10;
    let pct: u128 = if neg { 0 } else if q > 0xffff_ffff { 0xffff_ffff } else { q };
    if use_color_mix {
        let d = decimal_u128(pct);
        let head = cat3("color-mix(in oklab, ", value, " ");
        return cat3(head.as_str(), d.as_str(), "%, transparent)");
    }
    if starts_with(value, "#") {
        let vc = chars_of(value);
        proof {
            reveal_strlit("#");
        }
        let body = value.substring_char(1, vc.len());
        let r0 = (102 * n + 20 * p10) / (40 * p10);
        let byte: u128 = if neg { 0 } else if r0 > 255 { 255 } else { r0 };
        let mut a: Vec<char> = Vec::new();
        a.push(hex_digit_of(byte / 16));
        a.push(hex_digit_of(byte % 16));
        assert(a@ =~= hex_byte(byte as nat));
        return hex_with_alpha_of(body, &a);
    }
    if starts_with(value, "var(") {
        return owned(value);
    }
    let vc = chars_of(value);
    let pos = last_index_of(&vc, ')');
    if pos < vc.len() {
        let d = decimal_u128(pct);
        let head = value.substring_char(0, pos);
        let start = cat2(head, " / ");
        cat3(start.as_str(), d.as_str(), "%)")
    } else {
        owned(value)
    }
}

/// The declarations with an alpha applied to each color property.
pub open spec fn alpha_decls(ds: Seq<DeclView>, alpha: Seq<char>, mix: bool) -> Seq<DeclView> {
    ds.map_values(|d: DeclView| if is_color_property(d.0) { (d.0, alpha_color(d.1, alpha, mix)) } else { d })
}

/// The declarations with `!important` added to each value that lacks it.
pub open spec fn important_decls(ds: Seq<DeclView>) -> Seq<DeclView> {
    ds.map_values(|d: DeclView| if is_suffix("!important"@, d.1) { d } else { (d.0, d.1 + " !important"@) })
}

/// The declarations with an alpha applied to each color property.
pub fn apply_alpha_to_declarations(declarations: Vec<Declaration>, alpha: &str, use_color_mix: bool) -> (r: Vec<Declaration>)
    ensures
        decls_view(r@) == alpha_decls(decls_view(declarations@), alpha@, use_color_mix),
{
    let mut out: Vec<Declaration> = Vec::new();
    let mut i: usize = 0;
    while i < declarations.len()
        invariant
            i <= declarations@.len(),
            out@.len() == i,
            forall|j: int| 0 <= j < i ==> #[trigger] out@[j]@ == alpha_decls(decls_view(declarations@), alpha@, use_color_mix)[j],
        decreases declarations@.len() - i,
    {
        let d = &declarations[i];
        if color_property(d.property.as_str()) {
            let v = apply_alpha_to_color(d.value.as_str(), alpha, use_color_mix);
            out.push(Declaration::from_parts(d.property.clone(), v));
        } else {
            out.push(d.duplicate());
        }
        i = i + 1;
    }
    assert(decls_view(out@) =~= alpha_decls(decls_view(declarations@), alpha@, use_color_mix));
    out
}

/// The declarations with `!important` added to each value that lacks it, when
/// `important` is set.
pub fn apply_important(declarations: Vec<Declaration>, important: bool) -> (r: Vec<Declaration>)
    ensures
        decls_view(r@) == (if important {
            important_decls(decls_view(declarations@))
        } else {
            decls_view(declarations@)
        }),
{
    if !important {
        return declarations;
    }
    let mut out: Vec<Declaration> = Vec::new();
    let mut i: usize = 0;
    while i < declarations.len()
        invariant
            i <= declarations@.len(),
            out@.len() == i,
            forall|j: int| 0 <= j < i ==> #[trigger] out@[j]@ == important_decls(decls_view(declarations@))[j],
        decreases declarations@.len() - i,
    {
        let d = &declarations[i];
        if ends_with(d.value.as_str(), "!important") {
            out.push(d.duplicate());
        } else {
            let v = cat2(d.value.as_str(), " !important");
            out.push(Declaration::from_parts(d.property.clone(), v));
        }
        i = i + 1;
    }
    assert(decls_view(out@) =~= important_decls(decls_view(declarations@)));
    out
}

} // verus!
