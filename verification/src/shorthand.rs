//! Folding complete sets of longhand declarations into their shorthand.
use vstd::prelude::*;
use crate::text::{is_suffix, is_ws, ends_with, char_is_ws, chars_of, string_of_chars, before_suffix};
use crate::types::{decls_view, DeclView, Declaration};
use crate::normalize::{is_token, lemma_token_tokens, lemma_tokens_after_token, ws_tokens};

verus! {

/// The number of shorthand groups.
pub const GROUP_COUNT: usize = 8;

/// The shorthand property of group `g`.
pub open spec fn group_shorthand(g: int) -> Seq<char> {
    if g == 0 {
        "padding"@
    } else if g == 1 {
        "margin"@
    } else if g == 2 {
        "border-width"@
    } else if g == 3 {
        "border-radius"@
    } else if g == 4 {
        "inset"@
    } else if g == 5 {
        "gap"@
    } else if g == 6 {
        "overflow"@
    } else {
        "overscroll-behavior"@
    }
}

/// The longhand properties of group `g`, in the order the shorthand lists them.
pub open spec fn group_longhands(g: int) -> Seq<Seq<char>> {
    if g == 0 {
        seq!["padding-top"@, "padding-right"@, "padding-bottom"@, "padding-left"@]
    } else if g == 1 {
        seq!["margin-top"@, "margin-right"@, "margin-bottom"@, "margin-left"@]
    } else if g == 2 {
        seq![
            "border-top-width"@,
            "border-right-width"@,
            "border-bottom-width"@,
            "border-left-width"@,
        ]
    } else if g == 3 {
        seq![
            "border-top-left-radius"@,
            "border-top-right-radius"@,
            "border-bottom-right-radius"@,
            "border-bottom-left-radius"@,
        ]
    } else if g == 4 {
        seq!["top"@, "right"@, "bottom"@, "left"@]
    } else if g == 5 {
        seq!["row-gap"@, "column-gap"@]
    } else if g == 6 {
        seq!["overflow-x"@, "overflow-y"@]
    } else {
        seq!["overscroll-behavior-x"@, "overscroll-behavior-y"@]
    }
}

fn shorthand_of(g: usize) -> (r: &'static str)
    requires
        g < GROUP_COUNT,
    ensures
        r@ == group_shorthand(g as int),
{
    if g == 0 {
        "padding"
    } else if g == 1 {
        "margin"
    } else if g == 2 {
        "border-width"
    } else if g == 3 {
        "border-radius"
    } else if g == 4 {
        "inset"
    } else if g == 5 {
        "gap"
    } else if g == 6 {
        "overflow"
    } else {
        "overscroll-behavior"
    }
}

fn longhands_of(g: usize) -> (r: Vec<&'static str>)
    requires
        g < GROUP_COUNT,
    ensures
        r@.map_values(|s: &str| s@) == group_longhands(g as int),
{
    let r: Vec<&'static str> = if g == 0 {
        vec!["padding-top", "padding-right", "padding-bottom", "padding-left"]
    } else if g == 1 {
        vec!["margin-top", "margin-right", "margin-bottom", "margin-left"]
    } else if g == 2 {
        vec!["border-top-width", "border-right-width", "border-bottom-width", "border-left-width"]
    } else if g == 3 {
        vec![
            "border-top-left-radius",
            "border-top-right-radius",
            "border-bottom-right-radius",
            "border-bottom-left-radius",
        ]
    } else if g == 4 {
        vec!["top", "right", "bottom", "left"]
    } else if g == 5 {
        vec!["row-gap", "column-gap"]
    } else if g == 6 {
        vec!["overflow-x", "overflow-y"]
    } else {
        vec!["overscroll-behavior-x", "overscroll-behavior-y"]
    };
    assert(r@.map_values(|s: &str| s@) =~= group_longhands(g as int));
    r
}

/// The group whose longhands include `prop`, if any (the longhands of distinct groups differ).
pub open spec fn group_of(prop: Seq<char>) -> Option<int> {
    if group_longhands(0).contains(prop) {
        Some(0)
    } else if group_longhands(1).contains(prop) {
        Some(1)
    } else if group_longhands(2).contains(prop) {
        Some(2)
    } else if group_longhands(3).contains(prop) {
        Some(3)
    } else if group_longhands(4).contains(prop) {
        Some(4)
    } else if group_longhands(5).contains(prop) {
        Some(5)
    } else if group_longhands(6).contains(prop) {
        Some(6)
    } else if group_longhands(7).contains(prop) {
        Some(7)
    } else {
        None
    }
}

/// The index of the last declaration of `prop` among the first `k` of `d`, or -1.
pub open spec fn last_index(d: Seq<DeclView>, prop: Seq<char>, k: int) -> int
    decreases k,
{
    if k <= 0 {
        -1
    } else if d[k - 1].0 == prop {
        k - 1
    } else {
        last_index(d, prop, k - 1)
    }
}

/// The value of the last declaration of `prop` in `d` (later declarations win).
pub open spec fn value_of(d: Seq<DeclView>, prop: Seq<char>) -> Seq<char> {
    d[last_index(d, prop, d.len() as int)].1
}

/// Whether `d` declares `prop`.
pub open spec fn declares(d: Seq<DeclView>, prop: Seq<char>) -> bool {
    last_index(d, prop, d.len() as int) >= 0
}

pub open spec fn is_important(v: Seq<char>) -> bool {
    is_suffix("!important"@, v)
}

/// The current values of the longhands of group `g`.
pub open spec fn group_values(d: Seq<DeclView>, g: int) -> Seq<Seq<char>> {
    group_longhands(g).map_values(|lh: Seq<char>| value_of(d, lh))
}

/// Whether group `g` folds: all its longhands are declared and either all or
/// none of their values end with `!important`.
pub open spec fn group_folds(d: Seq<DeclView>, g: int) -> bool {
    let lhs = group_longhands(g);
    &&& forall|i: int| 0 <= i < lhs.len() ==> declares(d, #[trigger] lhs[i])
    &&& ((forall|i: int| 0 <= i < lhs.len() ==> is_important(#[trigger] group_values(d, g)[i]))
        || (forall|i: int| 0 <= i < lhs.len() ==> !is_important(#[trigger] group_values(d, g)[i])))
}

/// `s` with every trailing repetition of `p` removed (`p` not empty).
pub open spec fn strip_all_suffix(s: Seq<char>, p: Seq<char>) -> Seq<char>
    decreases s.len(),
{
    if p.len() > 0 && is_suffix(p, s) {
        strip_all_suffix(before_suffix(p, s), p)
    } else {
        s
    }
}

/// `s` without leading whitespace.
pub open spec fn trim_start(s: Seq<char>) -> Seq<char>
    decreases s.len(),
{
    if s.len() > 0 && is_ws(s[0]) {
        trim_start(s.subrange(1, s.len() as int))
    } else {
        s
    }
}

/// `s` without trailing whitespace.
pub open spec fn trim_end(s: Seq<char>) -> Seq<char>
    decreases s.len(),
{
    if s.len() > 0 && is_ws(s[s.len() - 1]) {
        trim_end(s.drop_last())
    } else {
        s
    }
}

/// `s` without leading or trailing whitespace.
pub open spec fn trim(s: Seq<char>) -> Seq<char> {
    trim_end(trim_start(s))
}

/// A value with its `!important` marks and surrounding whitespace removed.
pub open spec fn bare_value(v: Seq<char>) -> Seq<char> {
    trim(strip_all_suffix(v, "!important"@))
}

/// The four-side compression: one value when all agree, two when top equals
/// bottom and right equals left, three when right equals left, else four.
pub open spec fn compress4(t: Seq<char>, r: Seq<char>, b: Seq<char>, l: Seq<char>) -> Seq<char> {
    if t == r && r == b && b == l {
        t
    } else if t == b && l == r {
        t + " "@ + r
    } else if l == r {
        t + " "@ + r + " "@ + b
    } else {
        t + " "@ + r + " "@ + b + " "@ + l
    }
}

/// The two-axis compression: one value when both agree, else both.
pub open spec fn compress2(a: Seq<char>, b: Seq<char>) -> Seq<char> {
    if a == b {
        a
    } else {
        a + " "@ + b
    }
}

/// The four sides that one to four shorthand values stand for: one value
/// for all sides; top/bottom and right/left; top, right/left and bottom; or
/// each side.
pub open spec fn expand_sides(p: Seq<Seq<char>>) -> Seq<Seq<char>> {
    if p.len() == 1 {
        seq![p[0], p[0], p[0], p[0]]
    } else if p.len() == 2 {
        seq![p[0], p[1], p[0], p[1]]
    } else if p.len() == 3 {
        seq![p[0], p[1], p[2], p[1]]
    } else {
        p
    }
}

proof fn lemma_tokens_of_words(a: Seq<char>, b: Seq<char>, c: Seq<char>, d: Seq<char>)
    requires
        is_token(a),
        is_token(b),
        is_token(c),
        is_token(d),
    ensures
        ws_tokens(a) == seq![a],
        ws_tokens(a + " "@ + b) == seq![a, b],
        ws_tokens(a + " "@ + b + " "@ + c) == seq![a, b, c],
        ws_tokens(a + " "@ + b + " "@ + c + " "@ + d) == seq![a, b, c, d],
{
    reveal_strlit(" ");
    assert(" "@ =~= seq![' ']);
    lemma_token_tokens(a);
    lemma_token_tokens(b);
    lemma_token_tokens(c);
    lemma_token_tokens(d);
    lemma_tokens_after_token(c, d);
    lemma_tokens_after_token(b, c);
    lemma_tokens_after_token(b, c + " "@ + d);
    lemma_tokens_after_token(a, b);
    lemma_tokens_after_token(a, b + " "@ + c);
    lemma_tokens_after_token(a, b + " "@ + c + " "@ + d);
    assert(a + " "@ + b + " "@ + c =~= a + seq![' '] + (b + " "@ + c));
    assert(a + " "@ + b + " "@ + c + " "@ + d =~= a + seq![' '] + (b + " "@ + c + " "@ + d));
    assert(b + " "@ + c + " "@ + d =~= b + seq![' '] + (c + " "@ + d));
    assert(seq![a] + seq![b] =~= seq![a, b]);
    assert(seq![b] + seq![c] =~= seq![b, c]);
    assert(seq![a] + seq![b, c] =~= seq![a, b, c]);
    assert(seq![c] + seq![d] =~= seq![c, d]);
    assert(seq![b] + seq![c, d] =~= seq![b, c, d]);
    assert(seq![a] + seq![b, c, d] =~= seq![a, b, c, d]);
}

/// The four-side compression reads back as the four sides, and it writes as
/// few values as any shorthand of those sides needs (when each side is a
/// single word).
pub proof fn law_compress4_round_trip(t: Seq<char>, r: Seq<char>, b: Seq<char>, l: Seq<char>)
    requires
        is_token(t),
        is_token(r),
        is_token(b),
        is_token(l),
    ensures
        expand_sides(ws_tokens(compress4(t, r, b, l))) == seq![t, r, b, l],
        1 <= ws_tokens(compress4(t, r, b, l)).len() <= 4,
        forall|q: Seq<Seq<char>>|
            q.len() >= 1 && #[trigger] expand_sides(q) == seq![t, r, b, l] ==> ws_tokens(compress4(t, r, b, l)).len()
                <= q.len(),
{
    lemma_tokens_of_words(t, r, b, l);
    let p = ws_tokens(compress4(t, r, b, l));
    assert(expand_sides(p) =~= seq![t, r, b, l]);
    assert forall|q: Seq<Seq<char>>| q.len() >= 1 && #[trigger] expand_sides(q) == seq![t, r, b, l] implies p.len()
        <= q.len() by {
        let e = expand_sides(q);
        assert(e[0] == t && e[1] == r && e[2] == b && e[3] == l);
    }
}

/// The two-value compression reads back as both values, with one value when
/// they agree.
pub proof fn law_compress2_round_trip(a: Seq<char>, b: Seq<char>)
    requires
        is_token(a),
        is_token(b),
    ensures
        ws_tokens(compress2(a, b)) == (if a == b { seq![a] } else { seq![a, b] }),
{
    lemma_tokens_of_words(a, b, b, b);
}

/// The value of the shorthand of group `g`.
pub open spec fn group_value(d: Seq<DeclView>, g: int) -> Seq<char> {
    let vs = group_values(d, g);
    let important = is_important(vs[0]);
    let xs = if important {
        vs.map_values(|v: Seq<char>| bare_value(v))
    } else {
        vs
    };
    let c = if g <= 4 {
        compress4(xs[0], xs[1], xs[2], xs[3])
    } else {
        compress2(xs[0], xs[1])
    };
    if important {
        c + " !important"@
    } else {
        c
    }
}

/// Whether one of the first `k` declarations of `d` belongs to group `g`.
pub open spec fn group_seen(d: Seq<DeclView>, g: int, k: int) -> bool {
    exists|j: int| 0 <= j < k && group_of(#[trigger] d[j].0) == Some(g)
}

/// The output for the first `k` declarations: a declaration of a folding group
/// gives way to the shorthand at its group's first declaration and vanishes
/// elsewhere; any other declaration stays.
pub open spec fn folded(d: Seq<DeclView>, k: int) -> Seq<DeclView>
    decreases k,
{
    if k <= 0 {
        seq![]
    } else {
        let prev = folded(d, k - 1);
        let x = d[k - 1];
        match group_of(x.0) {
            Some(g) => if group_folds(d, g) {
                if group_seen(d, g, k - 1) {
                    prev
                } else {
                    prev.push((group_shorthand(g), group_value(d, g)))
                }
            } else {
                prev.push(x)
            },
            None => prev.push(x),
        }
    }
}

/// What `optimize_shorthands` returns for `d`.
pub open spec fn optimize_spec(d: Seq<DeclView>) -> Seq<DeclView> {
    folded(d, d.len() as int)
}

// ── Implementation ──────────────────────────────────────────────────────────

/// The index of the last declaration of `prop` in `decls`.
fn find_last(decls: &Vec<Declaration>, prop: &str) -> (r: Option<usize>)
    ensures
        r is None <==> last_index(decls_view(decls@), prop@, decls@.len() as int) < 0,
        r matches Some(i) ==> i == last_index(decls_view(decls@), prop@, decls@.len() as int)
            && i < decls@.len(),
{
    let ghost d = decls_view(decls@);
    let mut k = decls.len();
    while k > 0
        invariant
            k <= decls@.len(),
            d == decls_view(decls@),
            last_index(d, prop@, decls@.len() as int) == last_index(d, prop@, k as int),
        decreases k,
    {
        if crate::text::str_eq(decls[k - 1].property.as_str(), prop) {
            return Some(k - 1);
        }
        k = k - 1;
    }
    None
}

/// The group whose longhands include `prop`.
fn find_group(prop: &str) -> (r: Option<usize>)
    ensures
        r matches Some(g) ==> g < GROUP_COUNT && group_of(prop@) == Some(g as int),
        r is None ==> group_of(prop@) is None,
{
    let mut g: usize = 0;
    while g < GROUP_COUNT
        invariant
            g <= GROUP_COUNT,
            forall|h: int| 0 <= h < g ==> !group_longhands(h).contains(prop@),
        decreases GROUP_COUNT - g,
    {
        let lhs = longhands_of(g);
        let mut i: usize = 0;
        while i < lhs.len()
            invariant
                g < GROUP_COUNT,
                forall|h: int| 0 <= h < g ==> !group_longhands(h).contains(prop@),
                i <= lhs@.len(),
                lhs@.map_values(|s: &str| s@) == group_longhands(g as int),
                forall|j: int| 0 <= j < i ==> group_longhands(g as int)[j] != prop@,
            decreases lhs@.len() - i,
        {
            if crate::text::str_eq(lhs[i], prop) {
                assert(group_longhands(g as int)[i as int] == prop@);
                proof {
                    lemma_group_of(prop@, g as int);
                }
                return Some(g);
            }
            i = i + 1;
        }
        proof {
            if group_longhands(g as int).contains(prop@) {
                let j = choose|j: int| 0 <= j < group_longhands(g as int).len() && group_longhands(g as int)[j] == prop@;
                assert(lhs@.map_values(|s: &str| s@).len() == lhs@.len());
            }
        }
        g = g + 1;
    }
    None
}

proof fn lemma_group_of(prop: Seq<char>, g: int)
    requires
        0 <= g < GROUP_COUNT,
        group_longhands(g).contains(prop),
        forall|h: int| 0 <= h < g ==> !group_longhands(h).contains(prop),
    ensures
        group_of(prop) == Some(g),
{
    if g == 0 {
    } else if g == 1 {
        assert(!group_longhands(0).contains(prop));
    } else if g == 2 {
        assert(!group_longhands(0).contains(prop));
        assert(!group_longhands(1).contains(prop));
    } else if g == 3 {
        assert(!group_longhands(0).contains(prop));
        assert(!group_longhands(1).contains(prop));
        assert(!group_longhands(2).contains(prop));
    } else {
        assert(!group_longhands(0).contains(prop));
        assert(!group_longhands(1).contains(prop));
        assert(!group_longhands(2).contains(prop));
        assert(!group_longhands(3).contains(prop));
        if g > 4 {
            assert(!group_longhands(4).contains(prop));
        }
        if g > 5 {
            assert(!group_longhands(5).contains(prop));
        }
        if g > 6 {
            assert(!group_longhands(6).contains(prop));
        }
    }
}

/// The values of the longhands of group `g`, when all of them are declared.
fn values_of_group(decls: &Vec<Declaration>, g: usize) -> (r: Option<Vec<String>>)
    requires
        g < GROUP_COUNT,
    ensures
        r is Some <==> (forall|i: int| 0 <= i < group_longhands(g as int).len() ==> declares(
            decls_view(decls@),
            #[trigger] group_longhands(g as int)[i],
        )),
        r matches Some(vs) ==> vs@.map_values(|s: String| s@) == group_values(decls_view(decls@), g as int),
{
    let ghost d = decls_view(decls@);
    let lhs = longhands_of(g);
    let mut out: Vec<String> = Vec::new();
    let mut i: usize = 0;
    while i < lhs.len()
        invariant
            i <= lhs@.len(),
            d == decls_view(decls@),
            lhs@.map_values(|s: &str| s@) == group_longhands(g as int),
            out@.len() == i,
            forall|j: int| 0 <= j < i ==> #[trigger] out@[j]@ == value_of(d, group_longhands(g as int)[j]),
            forall|j: int| 0 <= j < i ==> declares(d, #[trigger] group_longhands(g as int)[j]),
        decreases lhs@.len() - i,
    {
        assert(lhs@[i as int]@ == group_longhands(g as int)[i as int]);
        match find_last(decls, lhs[i]) {
            None => {
                return None;
            },
            Some(k) => {
                out.push(decls[k].value.clone());
            },
        }
        i = i + 1;
    }
    assert(out@.map_values(|s: String| s@) =~= group_values(d, g as int));
    Some(out)
}

/// Removes every trailing repetition of `!important`.
fn strip_important(s: &str) -> (r: String)
    ensures
        r@ == strip_all_suffix(s@, "!important"@),
{
    let v = chars_of(s);
    let pat = chars_of("!important");
    let mut end = v.len();
    proof {
        reveal_strlit("!important");
        assert(v@.subrange(0, end as int) =~= v@);
    }
    while end >= pat.len() && suffix_at(&v, end, &pat)
        invariant
            end <= v@.len(),
            pat@ == "!important"@,
            pat@.len() == 10,
            strip_all_suffix(v@.subrange(0, end as int), pat@) == strip_all_suffix(v@, pat@),
        decreases end,
    {
        proof {
            let t = v@.subrange(0, end as int);
            assert(is_suffix(pat@, t));
            assert(before_suffix(pat@, t) =~= v@.subrange(0, end - 10));
        }
        end = end - pat.len();
    }
    proof {
        let t = v@.subrange(0, end as int);
        assert(!is_suffix(pat@, t));
    }
    string_of_chars(&v, 0, end)
}

/// Whether `v[..end]` ends with `pat`.
fn suffix_at(v: &Vec<char>, end: usize, pat: &Vec<char>) -> (r: bool)
    requires
        pat@.len() <= end <= v@.len(),
    ensures
        r == is_suffix(pat@, v@.subrange(0, end as int)),
{
    let m = pat.len();
    let base = end - m;
    let mut i: usize = 0;
    while i < m
        invariant
            i <= m,
            m == pat@.len(),
            base + m == end,
            end <= v@.len(),
            forall|j: int| 0 <= j < i ==> v@[base + j] == pat@[j],
        decreases m - i,
    {
        if v[base + i] != pat[i] {
            assert(v@.subrange(0, end as int).subrange(base as int, end as int)[i as int] != pat@[i as int]);
            return false;
        }
        i = i + 1;
    }
    assert(v@.subrange(0, end as int).subrange(base as int, end as int) =~= pat@);
    true
}

/// `s` without leading or trailing whitespace.
pub fn trim_str(s: &str) -> (r: String)
    ensures
        r@ == trim(s@),
{
    let v = chars_of(s);
    let n = v.len();
    let mut a: usize = 0;
    proof {
        assert(v@.subrange(0, n as int) =~= v@);
    }
    while a < n && char_is_ws(v[a])
        invariant
            a <= n,
            n == v@.len(),
            trim_start(v@.subrange(a as int, n as int)) == trim_start(v@),
        decreases n - a,
    {
        proof {
            assert(v@.subrange(a as int, n as int).subrange(1, n - a) =~= v@.subrange(a + 1, n as int));
        }
        a = a + 1;
    }
    let mut b = n;
    proof {
        assert(trim_start(v@.subrange(a as int, n as int)) == v@.subrange(a as int, n as int));
    }
    while b > a && char_is_ws(v[b - 1])
        invariant
            a <= b <= n,
            n == v@.len(),
            trim_end(v@.subrange(a as int, b as int)) == trim(v@),
        decreases b,
    {
        proof {
            assert(v@.subrange(a as int, b as int).drop_last() =~= v@.subrange(a as int, b - 1));
        }
        b = b - 1;
    }
    string_of_chars(&v, a, b)
}

/// The four-side compression of `[top, right, bottom, left]`.
fn compress_trbl(values: &Vec<String>) -> (r: String)
    requires
        values@.len() == 4,
    ensures
        r@ == compress4(values@[0]@, values@[1]@, values@[2]@, values@[3]@),
{
    let t = values[0].as_str();
    let rr = values[1].as_str();
    let b = values[2].as_str();
    let l = values[3].as_str();
    if crate::text::str_eq(t, rr) && crate::text::str_eq(rr, b) && crate::text::str_eq(b, l) {
        crate::text::owned(t)
    } else if crate::text::str_eq(t, b) && crate::text::str_eq(l, rr) {
        crate::text::cat3(t, " ", rr)
    } else if crate::text::str_eq(l, rr) {
        let mut s = crate::text::cat3(t, " ", rr);
        s.append(" ");
        s.append(b);
        s
    } else {
        let mut s = crate::text::cat3(t, " ", rr);
        s.append(" ");
        s.append(b);
        s.append(" ");
        s.append(l);
        s
    }
}

/// The two-axis compression of `[first, second]`.
fn compress_two_value(values: &Vec<String>) -> (r: String)
    requires
        values@.len() == 2,
    ensures
        r@ == compress2(values@[0]@, values@[1]@),
{
    if crate::text::str_eq(values[0].as_str(), values[1].as_str()) {
        values[0].clone()
    } else {
        crate::text::cat3(values[0].as_str(), " ", values[1].as_str())
    }
}

/// The shorthand value of group `g`, when the group folds.
fn fold_group(decls: &Vec<Declaration>, g: usize) -> (r: Option<String>)
    requires
        g < GROUP_COUNT,
    ensures
        r is Some <==> group_folds(decls_view(decls@), g as int),
        r matches Some(v) ==> v@ == group_value(decls_view(decls@), g as int),
{
    let ghost d = decls_view(decls@);
    let values = match values_of_group(decls, g) {
        None => {
            return None;
        },
        Some(vs) => vs,
    };
    let ghost vs = group_values(d, g as int);
    assert(values@.len() == vs.len());
    assert(forall|i: int| 0 <= i < values@.len() ==> #[trigger] values@[i]@ == vs[i]) by {
        assert forall|i: int| 0 <= i < values@.len() implies #[trigger] values@[i]@ == vs[i] by {
            assert(values@.map_values(|s: String| s@)[i] == values@[i]@);
        }
    }
    let mut all_imp = true;
    let mut none_imp = true;
    let mut i: usize = 0;
    while i < values.len()
        invariant
            i <= values@.len(),
            values@.len() == vs.len(),
            forall|j: int| 0 <= j < values@.len() ==> #[trigger] values@[j]@ == vs[j],
            all_imp == (forall|j: int| 0 <= j < i ==> is_important(#[trigger] vs[j])),
            none_imp == (forall|j: int| 0 <= j < i ==> !is_important(#[trigger] vs[j])),
        decreases values@.len() - i,
    {
        let imp = ends_with(values[i].as_str(), "!important");
        all_imp = all_imp && imp;
        none_imp = none_imp && !imp;
        i = i + 1;
    }
    if !all_imp && !none_imp {
        return None;
    }
    let important = ends_with(values[0].as_str(), "!important");
    let mut xs: Vec<String> = Vec::new();
    let mut k: usize = 0;
    while k < values.len()
        invariant
            k <= values@.len(),
            values@.len() == vs.len(),
            forall|j: int| 0 <= j < values@.len() ==> #[trigger] values@[j]@ == vs[j],
            xs@.len() == k,
            forall|j: int| 0 <= j < k ==> #[trigger] xs@[j]@ == (if important {
                bare_value(vs[j])
            } else {
                vs[j]
            }),
        decreases values@.len() - k,
    {
        if important {
            let s = strip_important(values[k].as_str());
            xs.push(trim_str(s.as_str()));
        } else {
            xs.push(values[k].clone());
        }
        k = k + 1;
    }
    let c = if g <= 4 {
        compress_trbl(&xs)
    } else {
        compress_two_value(&xs)
    };
    let r = if important {
        crate::text::cat2(c.as_str(), " !important")
    } else {
        c
    };
    proof {
        let ys = if important {
            vs.map_values(|v: Seq<char>| bare_value(v))
        } else {
            vs
        };
        assert(forall|j: int| 0 <= j < xs@.len() ==> #[trigger] xs@[j]@ == ys[j]);
    }
    Some(r)
}

/// Folds the longhands of every complete group into its shorthand.
///
/// A group folds only when all its longhands are present and their values are
/// either all `!important` or none; the shorthand takes the place of the
/// group's first longhand, the other longhands are dropped, and all other
/// declarations keep their order.
pub fn optimize_shorthands(decls: Vec<Declaration>) -> (r: Vec<Declaration>)
    ensures
        decls_view(r@) == optimize_spec(decls_view(decls@)),
{
    let ghost d = decls_view(decls@);
    let mut folds: Vec<Option<String>> = Vec::new();
    let mut g: usize = 0;
    while g < GROUP_COUNT
        invariant
            g <= GROUP_COUNT,
            d == decls_view(decls@),
            folds@.len() == g,
            forall|h: int| 0 <= h < g ==> (#[trigger] folds@[h] is Some <==> group_folds(d, h)),
            forall|h: int| 0 <= h < g ==> (#[trigger] folds@[h] matches Some(v) ==> v@ == group_value(d, h)),
        decreases GROUP_COUNT - g,
    {
        folds.push(fold_group(&decls, g));
        g = g + 1;
    }
    let mut emitted: Vec<bool> = vec![false, false, false, false, false, false, false, false];
    let mut out: Vec<Declaration> = Vec::new();
    let mut i: usize = 0;
    while i < decls.len()
        invariant
            i <= decls@.len(),
            d == decls_view(decls@),
            folds@.len() == GROUP_COUNT,
            forall|h: int| 0 <= h < GROUP_COUNT ==> (#[trigger] folds@[h] is Some <==> group_folds(d, h)),
            forall|h: int| 0 <= h < GROUP_COUNT ==> (#[trigger] folds@[h] matches Some(v) ==> v@ == group_value(d, h)),
            emitted@.len() == GROUP_COUNT,
            forall|h: int| 0 <= h < GROUP_COUNT ==> #[trigger] emitted@[h] == group_seen(d, h, i as int),
            decls_view(out@) == folded(d, i as int),
        decreases decls@.len() - i,
    {
        let ghost prev = decls_view(out@);
        let ghost x = d[i as int];
        assert(x == decls@[i as int]@);
        match find_group(decls[i].property.as_str()) {
            Some(g) => {
                match &folds[g] {
                    Some(v) => {
                        if !emitted[g] {
                            out.push(Declaration::from_parts(crate::text::owned(shorthand_of(g)), v.clone()));
                            assert(decls_view(out@) =~= prev.push((group_shorthand(g as int), group_value(d, g as int))));
                        }
                    },
                    None => {
                        out.push(decls[i].duplicate());
                        assert(decls_view(out@) =~= prev.push(x));
                    },
                }
                proof {
                    assert forall|h: int| 0 <= h < GROUP_COUNT implies #[trigger] emitted@.update(g as int, true)[h] == group_seen(d, h, i + 1) by {
                        if h == g {
                            assert(group_of(d[i as int].0) == Some(h));
                        } else {
                            if group_seen(d, h, i + 1) {
                                let j = choose|j: int| 0 <= j < i + 1 && group_of(#[trigger] d[j].0) == Some(h);
                                assert(j < i);
                            }
                        }
                    }
                }
                emitted.set(g, true);
            },
            None => {
                out.push(decls[i].duplicate());
                assert(decls_view(out@) =~= prev.push(x));
                proof {
                    assert forall|h: int| 0 <= h < GROUP_COUNT implies #[trigger] emitted@[h] == group_seen(d, h, i + 1) by {
                        if group_seen(d, h, i + 1) {
                            let j = choose|j: int| 0 <= j < i + 1 && group_of(#[trigger] d[j].0) == Some(h);
                            assert(j < i);
                        }
                    }
                }
            },
        }
        i = i + 1;
    }
    out
}


// ── What a folded shorthand says ────────────────────────────────────────────

/// The longhands that a four-value shorthand sets, in the order CSS reads its
/// values: top, right, bottom, left; for `border-radius` the corners from
/// top-left clockwise.
pub open spec fn four_side_longhands(shorthand: Seq<char>) -> Option<Seq<Seq<char>>> {
    if shorthand == "padding"@ {
        Some(seq!["padding-top"@, "padding-right"@, "padding-bottom"@, "padding-left"@])
    } else if shorthand == "margin"@ {
        Some(seq!["margin-top"@, "margin-right"@, "margin-bottom"@, "margin-left"@])
    } else if shorthand == "border-width"@ {
        Some(seq!["border-top-width"@, "border-right-width"@, "border-bottom-width"@, "border-left-width"@])
    } else if shorthand == "border-radius"@ {
        Some(
            seq![
                "border-top-left-radius"@,
                "border-top-right-radius"@,
                "border-bottom-right-radius"@,
                "border-bottom-left-radius"@,
            ],
        )
    } else if shorthand == "inset"@ {
        Some(seq!["top"@, "right"@, "bottom"@, "left"@])
    } else {
        None
    }
}

proof fn lemma_last_index_at(d: Seq<DeclView>, prop: Seq<char>, j: int, k: int)
    requires
        0 <= j < k <= d.len(),
        d[j].0 == prop,
    ensures
        last_index(d, prop, k) >= j,
    decreases k,
{
    if d[k - 1].0 != prop {
        lemma_last_index_at(d, prop, j, k - 1);
    }
}

/// Each declaration of the output is one of the input's, or the shorthand of
/// a group that folds, with its value.
proof fn lemma_folded_member(d: Seq<DeclView>, k: int, x: DeclView)
    requires
        0 <= k <= d.len(),
        folded(d, k).contains(x),
    ensures
        (exists|j: int| 0 <= j < k && d[j] == x) || (exists|g: int|
            0 <= g < 8 && group_folds(d, g) && x == (group_shorthand(g), group_value(d, g))),
    decreases k,
{
    if k > 0 {
        let prev = folded(d, k - 1);
        let y = d[k - 1];
        if prev.contains(x) {
            lemma_folded_member(d, k - 1, x);
        } else {
            let w = choose|w: int| 0 <= w < folded(d, k).len() && folded(d, k)[w] == x;
            match group_of(y.0) {
                Some(g) => {
                    assert(0 <= g < 8);
                    if group_folds(d, g) {
                        if !group_seen(d, g, k - 1) {
                            assert(w == prev.len());
                        } else {
                            assert(prev[w] == x);
                        }
                    } else {
                        assert(w == prev.len());
                    }
                },
                None => {
                    assert(w == prev.len());
                },
            }
        }
    }
}

/// A four-value shorthand that folding writes reads back, in CSS's order of
/// sides (or corners), as the values of its longhands: `border-radius` gives
/// the top-left, top-right, bottom-right and bottom-left radii in turn. This
/// holds when the input does not set the shorthand itself and the longhands'
/// values are single words without `!important`.
pub proof fn law_four_side_shorthand_reads_back(d: Seq<DeclView>, i: int)
    requires
        0 <= i < optimize_spec(d).len(),
        four_side_longhands(optimize_spec(d)[i].0) is Some,
        !declares(d, optimize_spec(d)[i].0),
        forall|k: int|
            0 <= k < 4 ==> is_token(value_of(d, #[trigger] four_side_longhands(optimize_spec(d)[i].0)->0[k]))
                && !is_important(value_of(d, four_side_longhands(optimize_spec(d)[i].0)->0[k])),
    ensures
        expand_sides(ws_tokens(optimize_spec(d)[i].1)) == four_side_longhands(optimize_spec(d)[i].0)->0.map_values(
            |l: Seq<char>| value_of(d, l),
        ),
{
    let x = optimize_spec(d)[i];
    let ls = four_side_longhands(x.0)->0;
    assert(folded(d, d.len() as int).contains(x));
    lemma_folded_member(d, d.len() as int, x);
    if exists|j: int| 0 <= j < d.len() && d[j] == x {
        let j = choose|j: int| 0 <= j < d.len() && d[j] == x;
        lemma_last_index_at(d, x.0, j, d.len() as int);
        assert(false);
    }
    let g = choose|g: int| 0 <= g < 8 && group_folds(d, g) && x == (group_shorthand(g), group_value(d, g));
    reveal_strlit("padding");
    reveal_strlit("margin");
    reveal_strlit("border-width");
    reveal_strlit("border-radius");
    reveal_strlit("inset");
    reveal_strlit("gap");
    reveal_strlit("overflow");
    reveal_strlit("overscroll-behavior");
    if g == 0 {
    } else if g == 1 {
        assert("margin"@.len() != "padding"@.len());
    } else if g == 2 {
        assert("border-width"@.len() != "padding"@.len());
        assert("border-width"@.len() != "margin"@.len());
    } else if g == 3 {
        assert("border-radius"@.len() != "padding"@.len());
        assert("border-radius"@.len() != "margin"@.len());
        assert("border-radius"@.len() != "border-width"@.len());
    } else if g == 4 {
        assert("inset"@.len() != "padding"@.len());
        assert("inset"@.len() != "margin"@.len());
        assert("inset"@.len() != "border-width"@.len());
        assert("inset"@.len() != "border-radius"@.len());
    } else if g == 5 {
        assert("gap"@.len() != "padding"@.len());
        assert("gap"@.len() != "margin"@.len());
        assert("gap"@.len() != "border-width"@.len());
        assert("gap"@.len() != "border-radius"@.len());
        assert("gap"@.len() != "inset"@.len());
    } else if g == 6 {
        assert("overflow"@.len() != "padding"@.len());
        assert("overflow"@.len() != "margin"@.len());
        assert("overflow"@.len() != "border-width"@.len());
        assert("overflow"@.len() != "border-radius"@.len());
        assert("overflow"@.len() != "inset"@.len());
    } else if g == 7 {
        assert("overscroll-behavior"@.len() != "padding"@.len());
        assert("overscroll-behavior"@.len() != "margin"@.len());
        assert("overscroll-behavior"@.len() != "border-width"@.len());
        assert("overscroll-behavior"@.len() != "border-radius"@.len());
        assert("overscroll-behavior"@.len() != "inset"@.len());
    }
    assert(g <= 4);
    assert(group_longhands(g) == ls);
    let vs = group_values(d, g);
    assert(vs =~= ls.map_values(|l: Seq<char>| value_of(d, l)));
    assert(!is_important(vs[0]));
    law_compress4_round_trip(vs[0], vs[1], vs[2], vs[3]);
    assert(seq![vs[0], vs[1], vs[2], vs[3]] =~= vs);
}


/// The longhands that a two-value shorthand sets, in the order CSS reads its
/// values.
pub open spec fn two_value_longhands(shorthand: Seq<char>) -> Option<Seq<Seq<char>>> {
    if shorthand == "gap"@ {
        Some(seq!["row-gap"@, "column-gap"@])
    } else if shorthand == "overflow"@ {
        Some(seq!["overflow-x"@, "overflow-y"@])
    } else if shorthand == "overscroll-behavior"@ {
        Some(seq!["overscroll-behavior-x"@, "overscroll-behavior-y"@])
    } else {
        None
    }
}

/// The two values that one or two shorthand values stand for.
pub open spec fn expand_pair(p: Seq<Seq<char>>) -> Seq<Seq<char>> {
    if p.len() == 1 {
        seq![p[0], p[0]]
    } else {
        p
    }
}

/// A two-value shorthand that folding writes reads back, in CSS's order, as
/// the values of its longhands: `gap` gives the row gap, then the column gap.
/// This holds when the input does not set the shorthand itself and the
/// longhands' values are single words without `!important`.
pub proof fn law_two_value_shorthand_reads_back(d: Seq<DeclView>, i: int)
    requires
        0 <= i < optimize_spec(d).len(),
        two_value_longhands(optimize_spec(d)[i].0) is Some,
        !declares(d, optimize_spec(d)[i].0),
        forall|k: int|
            0 <= k < 2 ==> is_token(value_of(d, #[trigger] two_value_longhands(optimize_spec(d)[i].0)->0[k]))
                && !is_important(value_of(d, two_value_longhands(optimize_spec(d)[i].0)->0[k])),
    ensures
        expand_pair(ws_tokens(optimize_spec(d)[i].1)) == two_value_longhands(optimize_spec(d)[i].0)->0.map_values(
            |l: Seq<char>| value_of(d, l),
        ),
{
    let x = optimize_spec(d)[i];
    let ls = two_value_longhands(x.0)->0;
    assert(folded(d, d.len() as int).contains(x));
    lemma_folded_member(d, d.len() as int, x);
    if exists|j: int| 0 <= j < d.len() && d[j] == x {
        let j = choose|j: int| 0 <= j < d.len() && d[j] == x;
        lemma_last_index_at(d, x.0, j, d.len() as int);
        assert(false);
    }
    let g = choose|g: int| 0 <= g < 8 && group_folds(d, g) && x == (group_shorthand(g), group_value(d, g));
    reveal_strlit("gap");
    reveal_strlit("overflow");
    reveal_strlit("overscroll-behavior");
    reveal_strlit("padding");
    reveal_strlit("margin");
    reveal_strlit("border-width");
    reveal_strlit("border-radius");
    reveal_strlit("inset");
    if g == 0 {
        assert("padding"@.len() != "gap"@.len());
        assert("padding"@.len() != "overflow"@.len());
        assert("padding"@.len() != "overscroll-behavior"@.len());
    } else if g == 1 {
        assert("margin"@.len() != "gap"@.len());
        assert("margin"@.len() != "overflow"@.len());
        assert("margin"@.len() != "overscroll-behavior"@.len());
    } else if g == 2 {
        assert("border-width"@.len() != "gap"@.len());
        assert("border-width"@.len() != "overflow"@.len());
        assert("border-width"@.len() != "overscroll-behavior"@.len());
    } else if g == 3 {
        assert("border-radius"@.len() != "gap"@.len());
        assert("border-radius"@.len() != "overflow"@.len());
        assert("border-radius"@.len() != "overscroll-behavior"@.len());
    } else if g == 4 {
        assert("inset"@.len() != "gap"@.len());
        assert("inset"@.len() != "overflow"@.len());
        assert("inset"@.len() != "overscroll-behavior"@.len());
    } else if g == 5 {
    } else if g == 6 {
        assert("overflow"@.len() != "gap"@.len());
    } else if g == 7 {
        assert("overscroll-behavior"@.len() != "gap"@.len());
        assert("overscroll-behavior"@.len() != "overflow"@.len());
    }
    assert(g >= 5);
    assert(group_longhands(g) == ls);
    let vs = group_values(d, g);
    assert(vs =~= ls.map_values(|l: Seq<char>| value_of(d, l)));
    assert(!is_important(vs[0]));
    law_compress2_round_trip(vs[0], vs[1]);
    assert(seq![vs[0], vs[1]] =~= vs);
    assert(seq![vs[0], vs[0]] =~= vs || vs[0] != vs[1]);
}

} // verus!
