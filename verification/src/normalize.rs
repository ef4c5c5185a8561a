//! Normalizing class lists: split at whitespace, drop duplicates, sort.
use vstd::prelude::*;
use crate::text::{chars_of, char_is_ws, is_ws, string_of_chars, strings_view};

verus! {

// ── Ordering strings ────────────────────────────────────────────────────────

/// Lexicographic order on characters (the order of `String`, since UTF-8
/// preserves the order of code points).
pub open spec fn lex_lt(a: Seq<char>, b: Seq<char>) -> bool
    decreases a.len(),
{
    if b.len() == 0 {
        false
    } else if a.len() == 0 {
        true
    } else if a[0] != b[0] {
        a[0] < b[0]
    } else {
        lex_lt(a.subrange(1, a.len() as int), b.subrange(1, b.len() as int))
    }
}

pub proof fn lemma_lex_irreflexive(a: Seq<char>)
    ensures
        !lex_lt(a, a),
    decreases a.len(),
{
    if a.len() > 0 {
        lemma_lex_irreflexive(a.subrange(1, a.len() as int));
    }
}

pub proof fn lemma_lex_total(a: Seq<char>, b: Seq<char>)
    ensures
        a != b ==> (lex_lt(a, b) || lex_lt(b, a)),
        !(lex_lt(a, b) && lex_lt(b, a)),
    decreases a.len(),
{
    if a.len() > 0 && b.len() > 0 && a[0] == b[0] {
        let ta = a.subrange(1, a.len() as int);
        let tb = b.subrange(1, b.len() as int);
        lemma_lex_total(ta, tb);
        if ta == tb {
            assert(a =~= seq![a[0]] + ta);
            assert(b =~= seq![b[0]] + tb);
        }
    } else if a.len() == 0 && b.len() == 0 {
        assert(a =~= b);
    }
}

pub proof fn lemma_lex_transitive(a: Seq<char>, b: Seq<char>, c: Seq<char>)
    requires
        lex_lt(a, b),
        lex_lt(b, c),
    ensures
        lex_lt(a, c),
    decreases a.len(),
{
    if a.len() > 0 && b.len() > 0 && c.len() > 0 && a[0] == b[0] && b[0] == c[0] {
        lemma_lex_transitive(
            a.subrange(1, a.len() as int),
            b.subrange(1, b.len() as int),
            c.subrange(1, c.len() as int),
        );
    }
}

/// Compares two strings in lexicographic order.
pub fn str_lt(a: &str, b: &str) -> (r: bool)
    ensures
        r == lex_lt(a@, b@),
{
    let va = chars_of(a);
    let vb = chars_of(b);
    let mut i: usize = 0;
    assert(a@.subrange(0, a@.len() as int) =~= a@);
    assert(b@.subrange(0, b@.len() as int) =~= b@);
    while i < va.len() && i < vb.len() && va[i] == vb[i]
        invariant
            i <= va@.len(),
            i <= vb@.len(),
            va@ == a@,
            vb@ == b@,
            lex_lt(a@, b@) == lex_lt(a@.subrange(i as int, a@.len() as int), b@.subrange(i as int, b@.len() as int)),
        decreases va@.len() - i,
    {
        proof {
            let sa = a@.subrange(i as int, a@.len() as int);
            let sb = b@.subrange(i as int, b@.len() as int);
            assert(sa.subrange(1, sa.len() as int) =~= a@.subrange(i + 1, a@.len() as int));
            assert(sb.subrange(1, sb.len() as int) =~= b@.subrange(i + 1, b@.len() as int));
        }
        i = i + 1;
    }
    if i == vb.len() {
        false
    } else if i == va.len() {
        true
    } else {
        va[i] < vb[i]
    }
}

/// Whether `s` is strictly increasing.
pub open spec fn strictly_sorted(s: Seq<Seq<char>>) -> bool {
    forall|i: int, j: int| 0 <= i < j < s.len() ==> lex_lt(s[i], s[j])
}

/// Inserts `x` into a strictly increasing vector unless it is already there.
pub fn sorted_insert(v: &mut Vec<String>, x: String)
    requires
        strictly_sorted(strings_view(old(v)@)),
    ensures
        strictly_sorted(strings_view(final(v)@)),
        strings_view(final(v)@).to_set() == strings_view(old(v)@).to_set().insert(x@),
{
    let ghost s0 = strings_view(v@);
    let mut i: usize = 0;
    while i < v.len() && str_lt(v[i].as_str(), x.as_str())
        invariant
            i <= v@.len(),
            v@ == old(v)@,
            s0 == strings_view(v@),
            forall|j: int| 0 <= j < i ==> lex_lt(#[trigger] s0[j], x@),
        decreases v@.len() - i,
    {
        i = i + 1;
    }
    if i < v.len() && crate::text::str_eq(v[i].as_str(), x.as_str()) {
        assert(s0.to_set().insert(x@) =~= s0.to_set()) by {
            assert(s0[i as int] == x@);
        }
        return;
    }
    proof {
        if i < v@.len() {
            lemma_lex_total(s0[i as int], x@);
            assert(lex_lt(x@, s0[i as int]));
            assert forall|k: int| i <= k < s0.len() implies lex_lt(x@, #[trigger] s0[k]) by {
                if k > i {
                    lemma_lex_transitive(x@, s0[i as int], s0[k]);
                }
            }
        }
    }
    v.insert(i, x);
    proof {
        let s1 = strings_view(v@);
        assert(s1 =~= s0.insert(i as int, x@));
        assert forall|a: int, b: int| 0 <= a < b < s1.len() implies lex_lt(s1[a], s1[b]) by {
            if b < i {
            } else if a < i && b == i {
            } else if a < i && b > i {
                assert(lex_lt(x@, s0[b - 1]));
                lemma_lex_transitive(s0[a], x@, s0[b - 1]);
                assert(lex_lt(s0[a], s0[b - 1]));
            } else if a == i {
                assert(lex_lt(x@, s0[b - 1]));
            } else {
            }
        }
        assert(s1.to_set() =~= s0.to_set().insert(x@)) by {
            assert forall|y: Seq<char>| s1.to_set().contains(y) <==> s0.to_set().insert(x@).contains(y) by {
                if s1.contains(y) {
                    let k = choose|k: int| 0 <= k < s1.len() && s1[k] == y;
                    if k < i {
                        assert(s0[k] == y);
                    } else if k > i {
                        assert(s0[k - 1] == y);
                    }
                }
                if s0.contains(y) {
                    let k = choose|k: int| 0 <= k < s0.len() && s0[k] == y;
                    if k < i {
                        assert(s1[k] == y);
                    } else {
                        assert(s1[k + 1] == y);
                    }
                }
                if y == x@ {
                    assert(s1[i as int] == y);
                }
            }
        }
    }
}

// ── Whitespace tokens ───────────────────────────────────────────────────────

/// The first index `q >= p` where `s[q]` is whitespace, or `s.len()`.
pub open spec fn ws_from(s: Seq<char>, p: int) -> int
    decreases s.len() - p,
{
    if p < 0 || p >= s.len() {
        s.len() as int
    } else if is_ws(s[p]) {
        p
    } else {
        ws_from(s, p + 1)
    }
}

/// The whitespace-separated tokens of `s` from position `p` on.
pub open spec fn tokens_from(s: Seq<char>, p: int) -> Seq<Seq<char>>
    decreases s.len() - p,
{
    if p < 0 || p >= s.len() {
        seq![]
    } else if is_ws(s[p]) {
        tokens_from(s, p + 1)
    } else {
        let e = ws_from(s, p);
        if e > p && e <= s.len() {
            seq![s.subrange(p, e)] + tokens_from(s, e)
        } else {
            seq![]
        }
    }
}

/// The whitespace-separated tokens of `s`, as `str::split_whitespace` yields them.
pub open spec fn ws_tokens(s: Seq<char>) -> Seq<Seq<char>> {
    tokens_from(s, 0)
}

proof fn lemma_ws_from_bounds(s: Seq<char>, p: int)
    requires
        0 <= p < s.len(),
        !is_ws(s[p]),
    ensures
        p < ws_from(s, p) <= s.len(),
    decreases s.len() - p,
{
    if p + 1 < s.len() && !is_ws(s[p + 1]) {
        lemma_ws_from_bounds(s, p + 1);
    } else if p + 1 < s.len() {
        assert(ws_from(s, p + 1) == p + 1);
    } else {
        assert(ws_from(s, p + 1) == s.len());
    }
}

/// Splits `s` at whitespace, as `str::split_whitespace` does.
pub fn split_ws(s: &str) -> (r: Vec<String>)
    ensures
        strings_view(r@) == ws_tokens(s@),
{
    let v = chars_of(s);
    let n = v.len();
    let mut out: Vec<String> = Vec::new();
    let mut p: usize = 0;
    while p < n
        invariant
            p <= n,
            n == v@.len(),
            v@ == s@,
            strings_view(out@) + tokens_from(v@, p as int) == ws_tokens(v@),
        decreases n - p,
    {
        if char_is_ws(v[p]) {
            p = p + 1;
        } else {
            let mut e = p + 1;
            while e < n && !char_is_ws(v[e])
                invariant
                    p < e <= n,
                    n == v@.len(),
                    ws_from(v@, p as int) == ws_from(v@, e as int),
                decreases n - e,
            {
                e = e + 1;
            }
            proof {
                lemma_ws_from_bounds(v@, p as int);
            }
            let t = string_of_chars(&v, p, e);
            let ghost prev = strings_view(out@);
            out.push(t);
            assert(strings_view(out@) =~= prev.push(t@));
            assert(strings_view(out@) + tokens_from(v@, e as int) =~= prev + tokens_from(v@, p as int));
            p = e;
        }
    }
    assert(strings_view(out@) =~= strings_view(out@) + tokens_from(v@, p as int));
    out
}

/// All whitespace-separated tokens of all the strings of `cs`.
pub open spec fn all_tokens(cs: Seq<Seq<char>>) -> Set<Seq<char>>
    decreases cs.len(),
{
    if cs.len() == 0 {
        Set::empty()
    } else {
        all_tokens(cs.drop_last()).union(ws_tokens(cs.last()).to_set())
    }
}

/// Normalizes class lists: splits each at whitespace, drops duplicates, and
/// sorts the classes in lexicographic order.
pub fn normalize_classes(classes: &[String]) -> (r: Vec<String>)
    ensures
        strictly_sorted(strings_view(r@)),
        strings_view(r@).to_set() == all_tokens(strings_view(classes@)),
{
    let ghost cs = strings_view(classes@);
    let mut out: Vec<String> = Vec::new();
    let mut i: usize = 0;
    proof {
        assert(strings_view(out@).to_set() =~= Set::<Seq<char>>::empty());
        assert(cs.subrange(0, 0).len() == 0);
    }
    while i < classes.len()
        invariant
            i <= classes@.len(),
            cs == strings_view(classes@),
            strictly_sorted(strings_view(out@)),
            strings_view(out@).to_set() == all_tokens(cs.subrange(0, i as int)),
        decreases classes@.len() - i,
    {
        let toks = split_ws(classes[i].as_str());
        let ghost base = strings_view(out@).to_set();
        let mut k: usize = 0;
        while k < toks.len()
            invariant
                k <= toks@.len(),
                strictly_sorted(strings_view(out@)),
                strings_view(out@).to_set() == base.union(strings_view(toks@).subrange(0, k as int).to_set()),
            decreases toks@.len() - k,
        {
            let t = toks[k].clone();
            sorted_insert(&mut out, t);
            proof {
                let st = strings_view(toks@);
                assert(st.subrange(0, k + 1).to_set() =~= st.subrange(0, k as int).to_set().insert(st[k as int])) by {
                    assert forall|y: Seq<char>| st.subrange(0, k + 1).contains(y) <==> st.subrange(0, k as int).to_set().insert(st[k as int]).contains(y) by {
                        if st.subrange(0, k + 1).contains(y) {
                            let w = choose|w: int| 0 <= w < k + 1 && #[trigger] st.subrange(0, k + 1)[w] == y;
                            if w < k {
                                assert(st.subrange(0, k as int)[w] == y);
                            }
                        }
                        if st.subrange(0, k as int).contains(y) {
                            let w = choose|w: int| 0 <= w < k && #[trigger] st.subrange(0, k as int)[w] == y;
                            assert(st.subrange(0, k + 1)[w] == y);
                        }
                        if y == st[k as int] {
                            assert(st.subrange(0, k + 1)[k as int] == y);
                        }
                    }
                }
                assert(strings_view(out@).to_set() =~= base.union(st.subrange(0, k + 1).to_set()));
            }
            k = k + 1;
        }
        proof {
            let st = strings_view(toks@);
            assert(st.subrange(0, st.len() as int) =~= st);
            assert(cs.subrange(0, i + 1).drop_last() =~= cs.subrange(0, i as int));
            assert(cs.subrange(0, i + 1).last() == cs[i as int]);
        }
        i = i + 1;
    }
    assert(cs.subrange(0, cs.len() as int) =~= cs);
    out
}


// ── Normalizing twice ───────────────────────────────────────────────────────

/// Whether `t` is a single class: not empty and free of whitespace.
pub open spec fn is_token(t: Seq<char>) -> bool {
    t.len() > 0 && forall|i: int| 0 <= i < t.len() ==> !is_ws(#[trigger] t[i])
}

proof fn lemma_ws_from_span(s: Seq<char>, p: int)
    requires
        0 <= p <= s.len(),
    ensures
        p <= ws_from(s, p) <= s.len(),
        forall|q: int| p <= q < ws_from(s, p) ==> !is_ws(#[trigger] s[q]),
        ws_from(s, p) < s.len() ==> is_ws(s[ws_from(s, p)]),
    decreases s.len() - p,
{
    if p < s.len() && !is_ws(s[p]) {
        lemma_ws_from_span(s, p + 1);
    }
}

proof fn lemma_tokens_from_are_tokens(s: Seq<char>, p: int)
    requires
        0 <= p,
    ensures
        forall|i: int| 0 <= i < tokens_from(s, p).len() ==> is_token(#[trigger] tokens_from(s, p)[i]),
    decreases s.len() - p,
{
    if p < s.len() {
        if is_ws(s[p]) {
            lemma_tokens_from_are_tokens(s, p + 1);
            assert(tokens_from(s, p) == tokens_from(s, p + 1));
        } else {
            let e = ws_from(s, p);
            lemma_ws_from_span(s, p);
            lemma_ws_from_bounds(s, p);
            lemma_tokens_from_are_tokens(s, e);
            let t = s.subrange(p, e);
            assert forall|i: int| 0 <= i < t.len() implies !is_ws(#[trigger] t[i]) by {
                assert(t[i] == s[p + i]);
            }
            let all = tokens_from(s, p);
            assert(all == seq![t] + tokens_from(s, e));
            assert(is_token(t));
            assert forall|i: int| 0 <= i < all.len() implies is_token(#[trigger] all[i]) by {
                if i > 0 {
                    assert(all[i] == tokens_from(s, e)[i - 1]);
                } else {
                    assert(all[0] == t);
                }
            }
        }
    }
}

/// The only token of a single class is the class itself.
pub proof fn lemma_token_tokens(t: Seq<char>)
    requires
        is_token(t),
    ensures
        ws_tokens(t) == seq![t],
{
    lemma_ws_from_span(t, 0);
    assert(ws_from(t, 0) == t.len()) by {
        if ws_from(t, 0) < t.len() {
            assert(is_ws(t[ws_from(t, 0)]));
        }
    }
    assert(t.subrange(0, t.len() as int) =~= t);
    assert(tokens_from(t, t.len() as int) =~= Seq::<Seq<char>>::empty());
    assert(ws_tokens(t) =~= seq![t]);
}

proof fn lemma_ws_from_shift(x: Seq<char>, w: Seq<char>, q: int)
    requires
        0 <= q <= w.len(),
    ensures
        ws_from(x + w, x.len() + q) == x.len() + ws_from(w, q),
    decreases w.len() - q,
{
    if q < w.len() {
        assert((x + w)[x.len() + q] == w[q]);
        if !is_ws(w[q]) {
            lemma_ws_from_shift(x, w, q + 1);
        }
    }
}

proof fn lemma_tokens_from_shift(x: Seq<char>, w: Seq<char>, q: int)
    requires
        0 <= q,
    ensures
        tokens_from(x + w, x.len() + q) == tokens_from(w, q),
    decreases w.len() - q,
{
    if q < w.len() {
        assert((x + w)[x.len() + q] == w[q]);
        if is_ws(w[q]) {
            lemma_tokens_from_shift(x, w, q + 1);
        } else {
            lemma_ws_from_shift(x, w, q);
            lemma_ws_from_bounds(w, q);
            let e = ws_from(w, q);
            assert((x + w).subrange(x.len() + q, x.len() + e) =~= w.subrange(q, e));
            lemma_tokens_from_shift(x, w, e);
        }
    }
}

/// The tokens of a class, a space and more text are the class followed by the
/// tokens of the rest.
pub proof fn lemma_tokens_after_token(a: Seq<char>, w: Seq<char>)
    requires
        is_token(a),
    ensures
        ws_tokens(a + seq![' '] + w) == seq![a] + ws_tokens(w),
{
    let s = a + seq![' '] + w;
    let x = a + seq![' '];
    assert(s == x + w);
    assert forall|q: int| 0 <= q < a.len() implies !is_ws(#[trigger] s[q]) by {
        assert(s[q] == a[q]);
    }
    assert(s[a.len() as int] == ' ');
    lemma_ws_from_span(s, 0);
    assert(ws_from(s, 0) == a.len()) by {
        let e = ws_from(s, 0);
        if e < a.len() {
            assert(is_ws(s[e]));
        }
        if e > a.len() {
            assert(!is_ws(s[a.len() as int]));
        }
    }
    assert(s.subrange(0, a.len() as int) =~= a);
    assert(tokens_from(s, a.len() as int) == tokens_from(s, a.len() as int + 1));
    lemma_tokens_from_shift(x, w, 0);
    assert(tokens_from(s, 0) == seq![a] + tokens_from(s, a.len() as int));
}

/// Every member of `all_tokens(cs)` is a single class.
proof fn lemma_all_tokens_are_tokens(cs: Seq<Seq<char>>, t: Seq<char>)
    requires
        all_tokens(cs).contains(t),
    ensures
        is_token(t),
    decreases cs.len(),
{
    if cs.len() > 0 {
        if all_tokens(cs.drop_last()).contains(t) {
            lemma_all_tokens_are_tokens(cs.drop_last(), t);
        } else {
            let ts = ws_tokens(cs.last());
            assert(ts.to_set().contains(t));
            let i = choose|i: int| 0 <= i < ts.len() && ts[i] == t;
            lemma_tokens_from_are_tokens(cs.last(), 0);
            assert(is_token(ts[i]));
        }
    }
}

/// The tokens of a list of single classes are those classes.
proof fn lemma_all_tokens_of_tokens(r: Seq<Seq<char>>)
    requires
        forall|i: int| 0 <= i < r.len() ==> is_token(#[trigger] r[i]),
    ensures
        all_tokens(r) == r.to_set(),
    decreases r.len(),
{
    if r.len() == 0 {
        assert(r.to_set() =~= Set::<Seq<char>>::empty());
    } else {
        let init = r.drop_last();
        assert forall|i: int| 0 <= i < init.len() implies is_token(#[trigger] init[i]) by {
            assert(init[i] == r[i]);
        }
        lemma_all_tokens_of_tokens(init);
        lemma_token_tokens(r.last());
        assert(seq![r.last()].to_set() =~= set![r.last()]) by {
            assert(seq![r.last()][0] == r.last());
        }
        assert(r =~= init.push(r.last()));
        assert forall|x: Seq<char>| r.to_set().contains(x) <==> init.to_set().union(set![r.last()]).contains(x) by {
            if r.to_set().contains(x) {
                let i = choose|i: int| 0 <= i < r.len() && r[i] == x;
                if i < r.len() - 1 {
                    assert(init[i] == x);
                }
            }
            if init.to_set().contains(x) {
                let i = choose|i: int| 0 <= i < init.len() && init[i] == x;
                assert(r[i] == x);
            }
            if x == r.last() {
                assert(r[r.len() - 1] == x);
            }
        }
        assert(all_tokens(r) =~= r.to_set());
    }
}

/// Two strictly increasing sequences with the same members are equal.
proof fn lemma_sorted_unique(a: Seq<Seq<char>>, b: Seq<Seq<char>>)
    requires
        strictly_sorted(a),
        strictly_sorted(b),
        a.to_set() == b.to_set(),
    ensures
        a == b,
    decreases a.len() + b.len(),
{
    if a.len() == 0 {
        if b.len() > 0 {
            assert(b.to_set().contains(b[0]));
        }
        assert(a =~= b);
    } else if b.len() == 0 {
        assert(a.to_set().contains(a[0]));
    } else {
        let x = a.last();
        let y = b.last();
        assert(a.to_set().contains(x));
        assert(b.to_set().contains(y));
        let j = choose|j: int| 0 <= j < a.len() && a[j] == y;
        let k = choose|k: int| 0 <= k < b.len() && b[k] == x;
        lemma_lex_total(x, y);
        if x != y {
            if lex_lt(x, y) {
                if j < a.len() - 1 {
                    assert(lex_lt(a[j], a[a.len() - 1]));
                }
                lemma_lex_irreflexive(x);
            } else {
                if k < b.len() - 1 {
                    assert(lex_lt(b[k], b[b.len() - 1]));
                }
                lemma_lex_irreflexive(y);
            }
        }
        let a0 = a.drop_last();
        let b0 = b.drop_last();
        assert(strictly_sorted(a0));
        assert(strictly_sorted(b0));
        assert forall|z: Seq<char>| a0.to_set().contains(z) <==> b0.to_set().contains(z) by {
            if a0.to_set().contains(z) {
                let i = choose|i: int| 0 <= i < a0.len() && a0[i] == z;
                assert(lex_lt(a[i], a[a.len() - 1]));
                lemma_lex_irreflexive(z);
                assert(a.to_set().contains(z));
                let m = choose|m: int| 0 <= m < b.len() && b[m] == z;
                assert(m != b.len() - 1);
                assert(b0[m] == z);
            }
            if b0.to_set().contains(z) {
                let i = choose|i: int| 0 <= i < b0.len() && b0[i] == z;
                assert(lex_lt(b[i], b[b.len() - 1]));
                lemma_lex_irreflexive(z);
                assert(b.to_set().contains(z));
                let m = choose|m: int| 0 <= m < a.len() && a[m] == z;
                assert(m != a.len() - 1);
                assert(a0[m] == z);
            }
        }
        assert(a0.to_set() =~= b0.to_set());
        lemma_sorted_unique(a0, b0);
        assert(a =~= a0.push(x));
        assert(b =~= b0.push(y));
    }
}

/// Normalizing is idempotent: normalizing the result of a normalization gives
/// it back.
pub proof fn law_normalize_idempotent(cs: Seq<Seq<char>>, r: Seq<Seq<char>>, r2: Seq<Seq<char>>)
    requires
        strictly_sorted(r),
        r.to_set() == all_tokens(cs),
        strictly_sorted(r2),
        r2.to_set() == all_tokens(r),
    ensures
        r2 == r,
{
    assert forall|i: int| 0 <= i < r.len() implies is_token(#[trigger] r[i]) by {
        assert(r.to_set().contains(r[i]));
        lemma_all_tokens_are_tokens(cs, r[i]);
    }
    lemma_all_tokens_of_tokens(r);
    lemma_sorted_unique(r2, r);
}

} // verus!
