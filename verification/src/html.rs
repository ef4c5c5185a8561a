//! Rewriting the `class="..."` attributes of HTML source: each class list is
//! replaced by the name that the collector gives it.
use vstd::prelude::*;
use crate::collector::{bundle_text, css_added, list_name, named_classes, ClassCollector};
use crate::converter::Converter;
use crate::merge::{entries_after_insert, key_position, lemma_key_position};
use crate::naming::{name_for, naming_ok};
use crate::shorthand::trim;
use crate::text::{chars_of, index_of_from, index_of_from_vec, is_ascii_ws, lemma_index_of_from_spec, push_chars, string_of_chars};
use crate::types::NamingMode;

verus! {

/// Whether a `class` attribute starts at `i`: after whitespace or `<` (or at
/// the start), spelled `class`, and followed by `=` or whitespace.
pub open spec fn class_attr_at(s: Seq<char>, i: int) -> bool {
    &&& 0 <= i
    &&& i + 5 < s.len()
    &&& (i == 0 || is_ascii_ws(s[i - 1]) || s[i - 1] == '<')
    &&& s[i] == 'c' && s[i + 1] == 'l' && s[i + 2] == 'a' && s[i + 3] == 's' && s[i + 4] == 's'
    &&& (s[i + 5] == '=' || is_ascii_ws(s[i + 5]))
}

/// The first position at or after `i` that is not ASCII whitespace.
pub open spec fn skip_ws(s: Seq<char>, i: int) -> int
    decreases s.len() - i,
{
    if i < 0 || i >= s.len() || !is_ascii_ws(s[i]) {
        i
    } else {
        skip_ws(s, i + 1)
    }
}

/// A piece of HTML source: text kept as it is, or a quoted class attribute
/// with its text, quote and value.
pub enum HtmlPiece {
    Keep(Seq<char>),
    Class(Seq<char>, char, Seq<char>),
}

/// The pieces of `s` from `i`.
pub open spec fn html_pieces(s: Seq<char>, i: int) -> Seq<HtmlPiece>
    decreases s.len() - i,
{
    if i < 0 || i >= s.len() {
        seq![]
    } else if class_attr_at(s, i) {
        let j = skip_ws(s, i + 5);
        proof {
            lemma_skip_ws(s, i + 5);
        }
        if j < s.len() && s[j] == '=' {
            let k = skip_ws(s, j + 1);
            proof {
                lemma_skip_ws(s, j + 1);
            }
            if k < s.len() && (s[k] == '"' || s[k] == '\'') {
                let e = index_of_from(s, s[k], k + 1);
                proof {
                    lemma_index_of_from_spec(s, s[k], k + 1);
                }
                if e < s.len() {
                    seq![HtmlPiece::Class(s.subrange(i, e + 1), s[k], s.subrange(k + 1, e))] + html_pieces(s, e + 1)
                } else {
                    seq![HtmlPiece::Keep(s.subrange(i, e))] + html_pieces(s, e)
                }
            } else {
                seq![HtmlPiece::Keep(s.subrange(i, k))] + html_pieces(s, k)
            }
        } else {
            seq![HtmlPiece::Keep(s.subrange(i, j))] + html_pieces(s, j)
        }
    } else {
        seq![HtmlPiece::Keep(seq![s[i]])] + html_pieces(s, i + 1)
    }
}

pub proof fn lemma_skip_ws(s: Seq<char>, i: int)
    requires
        0 <= i,
    ensures
        i <= skip_ws(s, i),
        i <= s.len() ==> skip_ws(s, i) <= s.len(),
        skip_ws(s, i) < s.len() ==> !is_ascii_ws(s[skip_ws(s, i)]),
    decreases s.len() - i,
{
    if i < s.len() && is_ascii_ws(s[i]) {
        lemma_skip_ws(s, i + 1);
    }
}

/// The class values of the pieces, in order.
pub open spec fn class_values(ps: Seq<HtmlPiece>) -> Seq<Seq<char>>
    decreases ps.len(),
{
    if ps.len() == 0 {
        seq![]
    } else {
        match ps.last() {
            HtmlPiece::Class(_, _, v) => class_values(ps.drop_last()).push(v),
            HtmlPiece::Keep(_) => class_values(ps.drop_last()),
        }
    }
}

/// The source text of the pieces with each class value replaced by its name
/// (`names` in order); a class attribute whose name is empty is kept.
pub open spec fn render(ps: Seq<HtmlPiece>, names: Seq<Seq<char>>) -> Seq<char>
    decreases ps.len(),
{
    if ps.len() == 0 {
        seq![]
    } else {
        match ps.last() {
            HtmlPiece::Keep(t) => render(ps.drop_last(), names) + t,
            HtmlPiece::Class(raw, q, _) => {
                let k = class_values(ps.drop_last()).len();
                let n = names[k as int];
                render(ps.drop_last(), names) + if n.len() == 0 {
                    raw
                } else {
                    "class="@ + seq![q] + n + seq![q]
                }
            },
        }
    }
}

/// The name that a collector with the entries `e` gives a class list, and its
/// entries afterwards.
pub open spec fn name_step(
    cv: Converter,
    mode: NamingMode,
    preserve: bool,
    e: Seq<(Seq<char>, Seq<char>)>,
    v: Seq<char>,
) -> (Seq<char>, Seq<(Seq<char>, Seq<char>)>) {
    let t = trim(v);
    if t.len() == 0 {
        (seq![], e)
    } else if key_position(e, t) >= 0 {
        (e[key_position(e, t)].1, e)
    } else {
        let n = list_name(cv, mode, preserve, t);
        (n, entries_after_insert(e, t, n))
    }
}

/// Whether a collector with the entries `e` can name a class list (its
/// naming can cut the name between characters).
pub open spec fn name_step_ok(
    cv: Converter,
    mode: NamingMode,
    preserve: bool,
    e: Seq<(Seq<char>, Seq<char>)>,
    v: Seq<char>,
) -> bool {
    let t = trim(v);
    ||| t.len() == 0
    ||| key_position(e, t) >= 0
    ||| (preserve && named_classes(cv, true, t).len() == 0)
    ||| naming_ok(mode, named_classes(cv, preserve, t))
}

/// The names that a collector with the entries `e` gives the class lists in
/// turn, and its entries afterwards.
pub open spec fn name_all(
    cv: Converter,
    mode: NamingMode,
    preserve: bool,
    e: Seq<(Seq<char>, Seq<char>)>,
    vs: Seq<Seq<char>>,
) -> (Seq<Seq<char>>, Seq<(Seq<char>, Seq<char>)>)
    decreases vs.len(),
{
    if vs.len() == 0 {
        (seq![], e)
    } else {
        let (ns, e1) = name_all(cv, mode, preserve, e, vs.drop_last());
        let (n, e2) = name_step(cv, mode, preserve, e1, vs.last());
        (ns.push(n), e2)
    }
}

/// Whether each class list can be named in turn.
pub open spec fn name_all_ok(
    cv: Converter,
    mode: NamingMode,
    preserve: bool,
    e: Seq<(Seq<char>, Seq<char>)>,
    vs: Seq<Seq<char>>,
) -> bool
    decreases vs.len(),
{
    if vs.len() == 0 {
        true
    } else {
        name_all_ok(cv, mode, preserve, e, vs.drop_last())
            && name_step_ok(cv, mode, preserve, name_all(cv, mode, preserve, e, vs.drop_last()).1, vs.last())
    }
}

/// What naming the class list `v` adds to the CSS entries `before` of a
/// collector with the entries `e`: nothing for a blank list, a list seen
/// before or one with no recognized class kept as it is; else the CSS that
/// its bundle gives.
pub open spec fn css_step(
    cv: Converter,
    mode: NamingMode,
    preserve: bool,
    indent: Seq<char>,
    e: Seq<(Seq<char>, Seq<char>)>,
    v: Seq<char>,
    before: Seq<Seq<char>>,
    after: Seq<Seq<char>>,
) -> bool {
    let t = trim(v);
    if t.len() == 0 || key_position(e, t) >= 0 || (preserve && named_classes(cv, true, t).len() == 0) {
        after == before
    } else {
        css_added(
            cv,
            name_for(mode, named_classes(cv, preserve, t)),
            bundle_text(cv, preserve, t),
            indent,
            before,
            after,
        )
    }
}

/// A class list that has been named keeps its name: naming it again gives
/// the same name, leaves the entries as they are and adds no CSS.
pub proof fn law_naming_reuses_names(
    cv: Converter,
    mode: NamingMode,
    preserve: bool,
    indent: Seq<char>,
    e: Seq<(Seq<char>, Seq<char>)>,
    v: Seq<char>,
)
    ensures
        ({
            let (n, e1) = name_step(cv, mode, preserve, e, v);
            &&& name_step(cv, mode, preserve, e1, v) == (n, e1)
            &&& forall|before: Seq<Seq<char>>, after: Seq<Seq<char>>|
                #[trigger] css_step(cv, mode, preserve, indent, e1, v, before, after) <==> after == before
        }),
{
    let t = trim(v);
    if t.len() > 0 && key_position(e, t) < 0 {
        let n = list_name(cv, mode, preserve, t);
        let e1 = entries_after_insert(e, t, n);
        assert(e1 == e.push((t, n)));
        assert(e1.last().0 == t);
        assert(key_position(e1, t) == e1.len() - 1);
    }
}

/// Naming class lists in turn gives one name per list, and each list that is
/// not blank ends up in the entries under its trimmed text with the name it
/// got; so lists that are the same once trimmed get the same name.
pub proof fn law_same_lists_same_names(
    cv: Converter,
    mode: NamingMode,
    preserve: bool,
    e: Seq<(Seq<char>, Seq<char>)>,
    vs: Seq<Seq<char>>,
)
    ensures
        ({
            let (ns, e2) = name_all(cv, mode, preserve, e, vs);
            &&& ns.len() == vs.len()
            &&& forall|i: int|
                0 <= i < vs.len() && trim(vs[i]).len() > 0 ==> key_position(e2, #[trigger] trim(vs[i])) >= 0
                    && e2[key_position(e2, trim(vs[i]))].1 == ns[i]
            &&& forall|i: int, j: int|
                0 <= i < vs.len() && 0 <= j < vs.len() && trim(vs[i]).len() > 0 && #[trigger] trim(vs[i]) == #[trigger] trim(vs[j])
                    ==> ns[i] == ns[j]
        }),
    decreases vs.len(),
{
    if vs.len() > 0 {
        let pre = vs.drop_last();
        let x = vs.last();
        law_same_lists_same_names(cv, mode, preserve, e, pre);
        let (ns1, e1) = name_all(cv, mode, preserve, e, pre);
        let (n, e2) = name_step(cv, mode, preserve, e1, x);
        let t = trim(x);
        lemma_key_position(e1, t);
        let (ns, e3) = name_all(cv, mode, preserve, e, vs);
        assert(ns == ns1.push(n) && e3 == e2);
        let fresh = t.len() > 0 && key_position(e1, t) < 0;
        if fresh {
            assert(e2 == e1.push((t, n)));
            assert(e2.drop_last() =~= e1);
            assert(key_position(e2, t) == e2.len() - 1);
        } else {
            assert(e2 == e1);
        }
        assert forall|i: int|
            0 <= i < vs.len() && trim(vs[i]).len() > 0 implies key_position(e2, #[trigger] trim(vs[i])) >= 0
                && e2[key_position(e2, trim(vs[i]))].1 == ns[i] by {
            if i < vs.len() - 1 {
                assert(vs[i] == pre[i]);
                let ti = trim(pre[i]);
                assert(key_position(e1, ti) >= 0 && e1[key_position(e1, ti)].1 == ns1[i]);
                assert(ns[i] == ns1[i]);
                if fresh {
                    lemma_key_position(e1, ti);
                    assert(e1[key_position(e1, ti)].0 == ti);
                    assert(ti != t);
                    assert(e2.last().0 == t);
                    assert(key_position(e2, ti) == key_position(e2.drop_last(), ti));
                    assert(e2[key_position(e1, ti)] == e1[key_position(e1, ti)]);
                }
            } else {
                assert(vs[i] == x);
                assert(ns[i] == n);
            }
        }
        assert forall|i: int, j: int|
            0 <= i < vs.len() && 0 <= j < vs.len() && trim(vs[i]).len() > 0 && #[trigger] trim(vs[i]) == #[trigger] trim(vs[j])
                implies ns[i] == ns[j] by {
            assert(key_position(e2, trim(vs[i])) >= 0 && e2[key_position(e2, trim(vs[i]))].1 == ns[i]);
            assert(key_position(e2, trim(vs[j])) >= 0 && e2[key_position(e2, trim(vs[j]))].1 == ns[j]);
        }
    }
}

/// Whether `steps` are the CSS entries of a collector with the entries `e`
/// before and after it names each of the class lists `vs` in turn.
pub open spec fn css_steps_ok(
    cv: Converter,
    mode: NamingMode,
    preserve: bool,
    indent: Seq<char>,
    e: Seq<(Seq<char>, Seq<char>)>,
    vs: Seq<Seq<char>>,
    steps: Seq<Seq<Seq<char>>>,
) -> bool {
    &&& steps.len() == vs.len() + 1
    &&& forall|i: int|
        0 <= i < vs.len() ==> #[trigger] css_step(
            cv,
            mode,
            preserve,
            indent,
            name_all(cv, mode, preserve, e, vs.subrange(0, i)).1,
            vs[i],
            steps[i],
            steps[i + 1],
        )
}

/// Whether `after` is what naming the class lists `vs` in turn makes of the
/// CSS entries `before` of a collector with the entries `e`.
pub open spec fn css_all(
    cv: Converter,
    mode: NamingMode,
    preserve: bool,
    indent: Seq<char>,
    e: Seq<(Seq<char>, Seq<char>)>,
    vs: Seq<Seq<char>>,
    before: Seq<Seq<char>>,
    after: Seq<Seq<char>>,
) -> bool {
    exists|steps: Seq<Seq<Seq<char>>>|
        #![trigger css_steps_ok(cv, mode, preserve, indent, e, vs, steps)]
        css_steps_ok(cv, mode, preserve, indent, e, vs, steps) && steps[0] == before && steps.last() == after
}

/// Whether the collector can name each class list of the HTML source in turn.
pub open spec fn html_nameable_by(c: ClassCollector, source: Seq<char>) -> bool {
    name_all_ok(c.converter(), c.naming_mode(), c.preserves(), c.names(), class_values(html_pieces(source, 0)))
}

/// Whether `r` and `new_c` are what rewriting the HTML source with the
/// collector `old_c` gives: each class list replaced by its name (a blank
/// name keeps the attribute), the names entered, and the CSS added.
pub open spec fn html_rewritten(old_c: ClassCollector, new_c: ClassCollector, source: Seq<char>, r: Seq<char>) -> bool {
    let cv = old_c.converter();
    let vs = class_values(html_pieces(source, 0));
    let (ns, e) = name_all(cv, old_c.naming_mode(), old_c.preserves(), old_c.names(), vs);
    &&& new_c.converter() == cv
    &&& new_c.naming_mode() == old_c.naming_mode()
    &&& new_c.preserves() == old_c.preserves()
    &&& new_c.uses_variables() == old_c.uses_variables()
    &&& new_c.indent_text() == old_c.indent_text()
    &&& r == render(html_pieces(source, 0), ns)
    &&& new_c.names() == e
    &&& css_all(cv, old_c.naming_mode(), old_c.preserves(), old_c.indent_text(), old_c.names(), vs, old_c.css(), new_c.css())
}

/// Rewrites the `class="..."` and `class='...'` attributes of HTML source:
/// each class list is replaced by the collector's name for it (an empty name
/// keeps the attribute); everything else is kept.
pub fn transform_html_source(source: &str, collector: &mut ClassCollector) -> (r: String)
    requires
        html_nameable_by(*old(collector), source@),
    ensures
        html_rewritten(*old(collector), *final(collector), source@, r@),
{
    match try_transform_html_source(source, collector) {
        Some(r) => r,
        None => String::new(),
    }
}

#[verifier::rlimit(80)]
#[verifier::spinoff_prover]
/// The rewritten HTML source as `transform_html_source` gives it, or `None`
/// when a class list cannot be named (its naming would cut a piece inside a
/// character); the lists before it have then been named.
pub fn try_transform_html_source(source: &str, collector: &mut ClassCollector) -> (r: Option<String>)
    ensures
        r is Some <==> html_nameable_by(*old(collector), source@),
        r matches Some(t) ==> html_rewritten(*old(collector), *final(collector), source@, t@),
{
    let v = chars_of(source);
    let n = v.len();
    let ghost s = v@;
    let ghost cv = collector.converter();
    let ghost mode = collector.naming_mode();
    let ghost preserve = collector.preserves();
    let ghost e0 = collector.names();
    let ghost all = html_pieces(s, 0);
    let mut result = String::new();
    let mut i: usize = 0;
    let ghost mut done: Seq<HtmlPiece> = seq![];
    let ghost mut steps: Seq<Seq<Seq<char>>> = seq![collector.css()];
    proof {
        assert(all == done + html_pieces(s, 0));
    }
    while i < n
        invariant
            i <= n == v@.len(),
            s == v@,
            s == source@,
            all == html_pieces(s, 0),
            all == done + html_pieces(s, i as int),
            collector.converter() == cv,
            collector.naming_mode() == mode,
            collector.preserves() == preserve,
            collector.uses_variables() == old(collector).uses_variables(),
            collector.indent_text() == old(collector).indent_text(),
            e0 == old(collector).names(),
            cv == old(collector).converter(),
            mode == old(collector).naming_mode(),
            preserve == old(collector).preserves(),
            name_all_ok(cv, mode, preserve, e0, class_values(done)),
            collector.names() == name_all(cv, mode, preserve, e0, class_values(done)).1,
            result@ == render(done, name_all(cv, mode, preserve, e0, class_values(done)).0),
            css_steps_ok(cv, mode, preserve, old(collector).indent_text(), e0, class_values(done), steps),
            steps[0] == old(collector).css(),
            steps.last() == collector.css(),
        decreases n - i,
    {
        let ghost names0 = name_all(cv, mode, preserve, e0, class_values(done)).0;
        proof {
            lemma_html_pieces_unfold(s, i as int);
        }
        if class_attr_check(&v, i) {
            let attr_start = i;
            let j = skip_ws_vec(&v, i + 5);
            if j < n && v[j] == '=' {
                let k = skip_ws_vec(&v, j + 1);
                if k < n && (v[k] == '"' || v[k] == '\'') {
                    let q = v[k];
                    let e = index_of_from_vec(&v, q, k + 1);
                    if e < n {
                        let value = string_of_chars(&v, k + 1, e);
                        let ghost piece = HtmlPiece::Class(s.subrange(attr_start as int, e + 1), q, s.subrange(k + 1, e as int));
                        proof {
                            lemma_class_values_concat(done.push(piece), html_pieces(s, e + 1));
                            assert(done + html_pieces(s, i as int) =~= done.push(piece) + html_pieces(s, e + 1));
                            assert(done.push(piece).drop_last() =~= done);
                            assert(class_values(done.push(piece)) == class_values(done).push(value@));
                        }
                        let named = name_class_list(collector, value.as_str());
                        let name = match named {
                            Some(name) => name,
                            None => {
                                proof {
                                    let k = class_values(done.push(piece)).len() as int;
                                    lemma_class_values_concat(done.push(piece), html_pieces(s, e + 1));
                                    if name_all_ok(cv, mode, preserve, e0, class_values(all)) {
                                        lemma_name_all_ok_prefix(cv, mode, preserve, e0, class_values(all), k);
                                        assert(class_values(all).subrange(0, k) =~= class_values(done.push(piece)));
                                        lemma_step_ok(cv, mode, preserve, e0, class_values(done), value@);
                                    }
                                }
                                return None;
                            },
                        };
                        proof {
                            lemma_push_ok(cv, mode, preserve, e0, class_values(done), value@);
                        }
                        proof {
                            lemma_css_steps_push(cv, mode, preserve, old(collector).indent_text(), e0, class_values(done), value@, steps, collector.css());
                            steps = steps.push(collector.css());
                        }
                        if name.unicode_len() > 0 {
                            crate::text::push_str(&mut result, "class=");
                            result.push(q);
                            crate::text::push_str(&mut result, name.as_str());
                            result.push(q);
                        } else {
                            push_chars(&mut result, &v, attr_start, e + 1);
                        }
                        proof {
                            let names1 = name_all(cv, mode, preserve, e0, class_values(done.push(piece))).0;
                            assert(names1 == names0.push(name@));
                            lemma_name_all_len(cv, mode, preserve, e0, class_values(done));
                            lemma_render_prefix(done, names0, names1);
                            if name@.len() == 0 {
                                assert(name@ =~= Seq::<char>::empty());
                            }
                            assert(result@ =~= render(done.push(piece), names1));
                            done = done.push(piece);
                        }
                        i = e + 1;
                    } else {
                        push_chars(&mut result, &v, attr_start, e);
                        proof {
                            self::lemma_keep_step(cv, mode, preserve, e0, done, s.subrange(attr_start as int, e as int));
                            assert(done + html_pieces(s, i as int) =~= done.push(HtmlPiece::Keep(s.subrange(attr_start as int, e as int))) + html_pieces(s, e as int));
                            done = done.push(HtmlPiece::Keep(s.subrange(attr_start as int, e as int)));
                        }
                        i = e;
                    }
                } else {
                    push_chars(&mut result, &v, attr_start, k);
                    proof {
                        self::lemma_keep_step(cv, mode, preserve, e0, done, s.subrange(attr_start as int, k as int));
                        assert(done + html_pieces(s, i as int) =~= done.push(HtmlPiece::Keep(s.subrange(attr_start as int, k as int))) + html_pieces(s, k as int));
                        done = done.push(HtmlPiece::Keep(s.subrange(attr_start as int, k as int)));
                    }
                    i = k;
                }
            } else {
                push_chars(&mut result, &v, attr_start, j);
                proof {
                    self::lemma_keep_step(cv, mode, preserve, e0, done, s.subrange(attr_start as int, j as int));
                    assert(done + html_pieces(s, i as int) =~= done.push(HtmlPiece::Keep(s.subrange(attr_start as int, j as int))) + html_pieces(s, j as int));
                    done = done.push(HtmlPiece::Keep(s.subrange(attr_start as int, j as int)));
                }
                i = j;
            }
        } else {
            result.push(v[i]);
            proof {
                self::lemma_keep_step(cv, mode, preserve, e0, done, seq![s[i as int]]);
                assert(done + html_pieces(s, i as int) =~= done.push(HtmlPiece::Keep(seq![s[i as int]])) + html_pieces(s, i + 1));
                done = done.push(HtmlPiece::Keep(seq![s[i as int]]));
            }
            i = i + 1;
        }
    }
    proof {
        assert(html_pieces(s, n as int) =~= Seq::<HtmlPiece>::empty());
        assert(all =~= done);
        assert(css_steps_ok(cv, mode, preserve, old(collector).indent_text(), e0, class_values(all), steps));
    }
    Some(result)
}

/// The first piece at `i` and where the rest starts.
pub proof fn lemma_html_pieces_unfold(s: Seq<char>, i: int)
    requires
        0 <= i,
    ensures
        i < s.len() ==> html_pieces(s, i).len() > 0,
{
}

proof fn lemma_class_values_concat(a: Seq<HtmlPiece>, b: Seq<HtmlPiece>)
    ensures
        class_values(a + b) == class_values(a) + class_values(b),
    decreases b.len(),
{
    if b.len() == 0 {
        assert(a + b =~= a);
        assert(class_values(a) + class_values(b) =~= class_values(a));
    } else {
        lemma_class_values_concat(a, b.drop_last());
        assert((a + b).drop_last() =~= a + b.drop_last());
        assert((a + b).last() == b.last());
        match b.last() {
            HtmlPiece::Class(_, _, v) => {
                assert(class_values(a) + class_values(b) =~= (class_values(a) + class_values(b.drop_last())).push(v));
            },
            HtmlPiece::Keep(_) => {},
        }
    }
}

proof fn lemma_name_all_ok_prefix(
    cv: Converter,
    mode: NamingMode,
    preserve: bool,
    e: Seq<(Seq<char>, Seq<char>)>,
    vs: Seq<Seq<char>>,
    k: int,
)
    requires
        0 <= k <= vs.len(),
        name_all_ok(cv, mode, preserve, e, vs),
    ensures
        name_all_ok(cv, mode, preserve, e, vs.subrange(0, k)),
    decreases vs.len() - k,
{
    if k < vs.len() {
        assert(vs.drop_last().subrange(0, k) =~= vs.subrange(0, k));
        lemma_name_all_ok_prefix(cv, mode, preserve, e, vs.drop_last(), k);
    } else {
        assert(vs.subrange(0, k) =~= vs);
    }
}

proof fn lemma_name_all_len(
    cv: Converter,
    mode: NamingMode,
    preserve: bool,
    e: Seq<(Seq<char>, Seq<char>)>,
    vs: Seq<Seq<char>>,
)
    ensures
        name_all(cv, mode, preserve, e, vs).0.len() == vs.len(),
    decreases vs.len(),
{
    if vs.len() > 0 {
        lemma_name_all_len(cv, mode, preserve, e, vs.drop_last());
    }
}

proof fn lemma_render_prefix(ps: Seq<HtmlPiece>, ns: Seq<Seq<char>>, ns2: Seq<Seq<char>>)
    requires
        ns.len() >= class_values(ps).len(),
        ns2.len() >= class_values(ps).len(),
        forall|i: int| 0 <= i < class_values(ps).len() ==> ns[i] == ns2[i],
    ensures
        render(ps, ns) == render(ps, ns2),
    decreases ps.len(),
{
    if ps.len() > 0 {
        lemma_render_prefix(ps.drop_last(), ns, ns2);
    }
}

proof fn lemma_css_steps_push(
    cv: Converter,
    mode: NamingMode,
    preserve: bool,
    indent: Seq<char>,
    e: Seq<(Seq<char>, Seq<char>)>,
    vs: Seq<Seq<char>>,
    x: Seq<char>,
    steps: Seq<Seq<Seq<char>>>,
    after: Seq<Seq<char>>,
)
    requires
        css_steps_ok(cv, mode, preserve, indent, e, vs, steps),
        css_step(cv, mode, preserve, indent, name_all(cv, mode, preserve, e, vs).1, x, steps.last(), after),
    ensures
        css_steps_ok(cv, mode, preserve, indent, e, vs.push(x), steps.push(after)),
{
    let ys = vs.push(x);
    let ss = steps.push(after);
    assert forall|i: int| 0 <= i < ys.len() implies #[trigger] css_step(
        cv,
        mode,
        preserve,
        indent,
        name_all(cv, mode, preserve, e, ys.subrange(0, i)).1,
        ys[i],
        ss[i],
        ss[i + 1],
    ) by {
        if i < vs.len() {
            assert(ys.subrange(0, i) =~= vs.subrange(0, i));
            assert(css_step(cv, mode, preserve, indent, name_all(cv, mode, preserve, e, vs.subrange(0, i)).1, vs[i], steps[i], steps[i + 1]));
        } else {
            assert(ys.subrange(0, i) =~= vs);
        }
    }
}

proof fn lemma_keep_step(
    cv: Converter,
    mode: NamingMode,
    preserve: bool,
    e0: Seq<(Seq<char>, Seq<char>)>,
    done: Seq<HtmlPiece>,
    t: Seq<char>,
)
    ensures
        class_values(done.push(HtmlPiece::Keep(t))) == class_values(done),
        render(done.push(HtmlPiece::Keep(t)), name_all(cv, mode, preserve, e0, class_values(done)).0)
            == render(done, name_all(cv, mode, preserve, e0, class_values(done)).0) + t,
{
    assert(done.push(HtmlPiece::Keep(t)).drop_last() =~= done);
}

fn class_attr_check(v: &Vec<char>, i: usize) -> (r: bool)
    requires
        i <= v@.len(),
    ensures
        r == class_attr_at(v@, i as int),
{
    let n = v.len();
    if !(i < n && n - i > 5) {
        return false;
    }
    if i > 0 && !crate::text::char_is_ascii_ws(v[i - 1]) && v[i - 1] != '<' {
        return false;
    }
    v[i] == 'c' && v[i + 1] == 'l' && v[i + 2] == 'a' && v[i + 3] == 's' && v[i + 4] == 's'
        && (v[i + 5] == '=' || crate::text::char_is_ascii_ws(v[i + 5]))
}

fn skip_ws_vec(v: &Vec<char>, i: usize) -> (r: usize)
    requires
        i <= v@.len(),
    ensures
        r == skip_ws(v@, i as int),
        i <= r <= v@.len(),
{
    let mut p = i;
    while p < v.len() && crate::text::char_is_ascii_ws(v[p])
        invariant
            i <= p <= v@.len(),
            skip_ws(v@, i as int) == skip_ws(v@, p as int),
        decreases v@.len() - p,
    {
        p = p + 1;
    }
    p
}

proof fn lemma_step_ok(
    cv: Converter,
    mode: NamingMode,
    preserve: bool,
    e: Seq<(Seq<char>, Seq<char>)>,
    vs: Seq<Seq<char>>,
    x: Seq<char>,
)
    requires
        name_all_ok(cv, mode, preserve, e, vs.push(x)),
    ensures
        name_step_ok(cv, mode, preserve, name_all(cv, mode, preserve, e, vs).1, x),
        name_all(cv, mode, preserve, e, vs.push(x)) == ({
            let (ns, e1) = name_all(cv, mode, preserve, e, vs);
            let (n, e2) = name_step(cv, mode, preserve, e1, x);
            (ns.push(n), e2)
        }),
{
    assert(vs.push(x).drop_last() =~= vs);
}

proof fn lemma_push_ok(
    cv: Converter,
    mode: NamingMode,
    preserve: bool,
    e: Seq<(Seq<char>, Seq<char>)>,
    vs: Seq<Seq<char>>,
    x: Seq<char>,
)
    requires
        name_all_ok(cv, mode, preserve, e, vs),
        name_step_ok(cv, mode, preserve, name_all(cv, mode, preserve, e, vs).1, x),
    ensures
        name_all_ok(cv, mode, preserve, e, vs.push(x)),
        name_all(cv, mode, preserve, e, vs.push(x)) == ({
            let (ns, e1) = name_all(cv, mode, preserve, e, vs);
            let (n, e2) = name_step(cv, mode, preserve, e1, x);
            (ns.push(n), e2)
        }),
{
    assert(vs.push(x).drop_last() =~= vs);
}

fn name_class_list(collector: &mut ClassCollector, value: &str) -> (r: Option<String>)
    ensures
        r is Some <==> name_step_ok(old(collector).converter(), old(collector).naming_mode(), old(collector).preserves(), old(collector).names(), value@),
        final(collector).converter() == old(collector).converter(),
        final(collector).naming_mode() == old(collector).naming_mode(),
        final(collector).preserves() == old(collector).preserves(),
        final(collector).uses_variables() == old(collector).uses_variables(),
        final(collector).indent_text() == old(collector).indent_text(),
        r matches Some(n) ==> {
            &&& n@ == name_step(old(collector).converter(), old(collector).naming_mode(), old(collector).preserves(), old(collector).names(), value@).0
            &&& final(collector).names() == name_step(old(collector).converter(), old(collector).naming_mode(), old(collector).preserves(), old(collector).names(), value@).1
            &&& css_step(
                old(collector).converter(),
                old(collector).naming_mode(),
                old(collector).preserves(),
                old(collector).indent_text(),
                old(collector).names(),
                value@,
                old(collector).css(),
                final(collector).css(),
            )
        },
{
    collector.try_process_classes(value)
}

} // verus!
