//! The declarations of one generated class, grouped by their modifier prefix,
//! and its CSS text.
use vstd::prelude::*;
use crate::bundler::{
    appended_under, concat_entries, decl_lines, decls_under, key_index, lemma_concat_step,
    lemma_key_index, push_decl_lines, DeclMap,
};
use crate::normalize::{lex_lt, sorted_insert, strictly_sorted};
use crate::parse::{modifiers_of_raw, modifiers_view, Modifier, ModifierKind, parse_modifiers_from_raw};
use crate::shorthand::{optimize_shorthands, optimize_spec};
use crate::text::{cat2, cat3, chars_of, opt_string_view, owned, push_str, str_eq, strings_view};
use crate::types::{decls_view, DeclView, Declaration};
use crate::variant::{
    container_at_rule, container_at_rule_spec, parameterized_selector,
    parameterized_spec, pseudo_class_at_rule, pseudo_class_at_rule_spec, pseudo_class_selector,
    pseudo_class_spec, pseudo_element_selector, pseudo_element_spec, resolve_state,
    resolve_state_spec, responsive_at_rule, responsive_at_rule_spec, supports_at_rule,
    supports_at_rule_spec, StateModel, StateResolution,
};

verus! {

/// `s` repeated `n` times.
pub open spec fn repeat_text(s: Seq<char>, n: nat) -> Seq<char>
    decreases n,
{
    if n == 0 {
        seq![]
    } else {
        repeat_text(s, (n - 1) as nat) + s
    }
}

/// `s` repeated `n` times.
pub fn repeat_str(s: &str, n: usize) -> (r: String)
    ensures
        r@ == repeat_text(s@, n as nat),
{
    let mut out = String::new();
    let mut i: usize = 0;
    while i < n
        invariant
            i <= n,
            out@ == repeat_text(s@, i as nat),
        decreases n - i,
    {
        push_str(&mut out, s);
        i = i + 1;
    }
    out
}

/// The at-rule that a modifier contributes: a container or media query for a
/// breakpoint, the at-rule of a hover-like pseudo-class, `@supports`,
/// `@starting-style`, or a state's media query.
pub open spec fn modifier_at_rule(m: (ModifierKind, Seq<char>)) -> Option<Seq<char>> {
    let name = m.1;
    match m.0 {
        ModifierKind::Responsive => if name.len() > 0 && name[0] == '@' {
            container_at_rule_spec(name)
        } else {
            responsive_at_rule_spec(name)
        },
        ModifierKind::PseudoClass => pseudo_class_at_rule_spec(name),
        ModifierKind::State => match supports_at_rule_spec(name) {
            Some(a) => Some(a),
            None => if name == "starting"@ {
                Some("@starting-style"@)
            } else {
                match resolve_state_spec(name, seq![]) {
                    StateModel::AtRule(a) => Some(a),
                    StateModel::Selector(_) => None,
                }
            },
        },
        _ => None,
    }
}

/// Whether a modifier shapes the selector: all but breakpoints and the states
/// that become at-rules.
pub open spec fn modifier_in_selector(m: (ModifierKind, Seq<char>)) -> bool {
    match m.0 {
        ModifierKind::Responsive => false,
        ModifierKind::State => modifier_at_rule(m) is None,
        _ => true,
    }
}

/// The at-rules and the selector modifiers of a modifier list, in order.
pub open spec fn split_modifiers(m: Seq<(ModifierKind, Seq<char>)>) -> (Seq<Seq<char>>, Seq<(ModifierKind, Seq<char>)>)
    decreases m.len(),
{
    if m.len() == 0 {
        (seq![], seq![])
    } else {
        let (ats, sels) = split_modifiers(m.drop_last());
        (
            match modifier_at_rule(m.last()) {
                Some(a) => ats.push(a),
                None => ats,
            },
            if modifier_in_selector(m.last()) {
                sels.push(m.last())
            } else {
                sels
            },
        )
    }
}

fn modifier_at_rule_of(m: &Modifier) -> (r: (Option<String>, bool))
    ensures
        opt_string_view(r.0) == modifier_at_rule(m@),
        r.1 == modifier_in_selector(m@),
{
    proof {
        reveal_strlit("");
    }
    match m {
        Modifier::Responsive(name) => {
            let v = chars_of(name.as_str());
            let at = if v.len() > 0 && v[0] == '@' {
                container_at_rule(name.as_str())
            } else {
                responsive_at_rule(name.as_str())
            };
            (at, false)
        },
        Modifier::PseudoClass(name) => match pseudo_class_at_rule(name.as_str()) {
            Some(a) => (Some(owned(a)), true),
            None => (None, true),
        },
        Modifier::State(name) => match supports_at_rule(name.as_str()) {
            Some(a) => (Some(a), false),
            None => if str_eq(name.as_str(), "starting") {
                (Some(owned("@starting-style")), false)
            } else {
                match resolve_state(name.as_str(), "") {
                    StateResolution::AtRule(a) => (Some(a), false),
                    StateResolution::Selector(_) => (None, true),
                }
            },
        },
        _ => (None, true),
    }
}

/// A selector with one selector modifier applied.
pub open spec fn context_modified(sel: Seq<char>, m: (ModifierKind, Seq<char>)) -> Seq<char> {
    let name = m.1;
    match m.0 {
        ModifierKind::PseudoClass => match parameterized_spec(name) {
            Some(p) => sel + p,
            None => if name == "*"@ {
                sel + " > *"@
            } else if name == "**"@ {
                sel + " *"@
            } else {
                sel + ":"@ + pseudo_class_spec(name)
            },
        },
        ModifierKind::PseudoElement => sel + "::"@ + pseudo_element_spec(name),
        ModifierKind::State => match resolve_state_spec(name, sel) {
            StateModel::Selector(s) => s,
            StateModel::AtRule(_) => sel,
        },
        ModifierKind::Responsive => sel,
        ModifierKind::Custom => match parameterized_spec(name) {
            Some(p) => sel + p,
            None => sel + ":"@ + name,
        },
    }
}

/// A selector with the selector modifiers applied in order.
pub open spec fn context_selector(sel: Seq<char>, m: Seq<(ModifierKind, Seq<char>)>) -> Seq<char>
    decreases m.len(),
{
    if m.len() == 0 {
        sel
    } else {
        context_modified(context_selector(sel, m.drop_last()), m.last())
    }
}

/// The openings of nested at-rules, each indented one level more.
pub open spec fn at_rule_opens(ats: Seq<Seq<char>>, indent: Seq<char>) -> Seq<char>
    decreases ats.len(),
{
    if ats.len() == 0 {
        seq![]
    } else {
        at_rule_opens(ats.drop_last(), indent) + repeat_text(indent, (ats.len() - 1) as nat) + ats.last() + " {\n"@
    }
}

/// The closings of `d` nested at-rules, innermost first.
pub open spec fn at_rule_closes(d: nat, indent: Seq<char>) -> Seq<char>
    decreases d,
{
    if d == 0 {
        seq![]
    } else {
        repeat_text(indent, (d - 1) as nat) + "}\n"@ + at_rule_closes((d - 1) as nat, indent)
    }
}

/// The rule of declarations under a modifier list: the selector with its
/// selector modifiers, inside the list's at-rules nested in order.
pub open spec fn modifier_rule(name: Seq<char>, m: Seq<(ModifierKind, Seq<char>)>, ds: Seq<DeclView>, indent: Seq<char>) -> Seq<char> {
    if m.len() == 0 {
        seq![]
    } else {
        let (ats, sels) = split_modifiers(m);
        let selector = context_selector("."@ + name, sels);
        if ats.len() > 0 {
            let d = ats.len();
            "\n"@ + at_rule_opens(ats, indent) + repeat_text(indent, d) + selector + " {\n"@
                + decl_lines(ds, repeat_text(indent, d + 1)) + repeat_text(indent, d) + "}\n"@
                + at_rule_closes(d, indent)
        } else {
            "\n"@ + selector + " {\n"@ + decl_lines(ds, indent) + "}\n"@
        }
    }
}

/// The CSS of the declarations written under one modifier prefix (nothing
/// when there are none), with their shorthands folded.
pub open spec fn prefix_rule(name: Seq<char>, raw: Seq<char>, ds: Seq<DeclView>, indent: Seq<char>) -> Seq<char> {
    if ds.len() == 0 {
        seq![]
    } else {
        modifier_rule(name, modifiers_of_raw(raw), optimize_spec(ds), indent)
    }
}

/// Whether `order` lists each non-empty prefix of the entries once, in
/// increasing order.
pub open spec fn prefix_order(entries: Seq<(Seq<char>, Seq<DeclView>)>, order: Seq<Seq<char>>) -> bool {
    &&& strictly_sorted(order)
    &&& order.to_set() == entries.map_values(|e: (Seq<char>, Seq<DeclView>)| e.0).to_set().remove(Seq::<char>::empty())
}

/// The CSS of a class context: the base rule (shorthands folded), then the
/// rule of each modifier prefix in the given order.
pub open spec fn context_css(
    name: Seq<char>,
    entries: Seq<(Seq<char>, Seq<DeclView>)>,
    order: Seq<Seq<char>>,
    indent: Seq<char>,
) -> Seq<char> {
    let base = decls_under(entries, Seq::<char>::empty());
    (if base.len() == 0 {
        seq![]
    } else {
        "."@ + name + " {\n"@ + decl_lines(optimize_spec(base), indent) + "}\n"@
    }) + concat_entries(order, |k: Seq<char>| prefix_rule(name, k, decls_under(entries, k), indent))
}

/// The declarations of one generated class, grouped by modifier prefix.
#[derive(Debug, Clone)]
pub struct ClassContext {
    /// The name of the generated class.
    pub class_name: String,
    groups: DeclMap,
}

impl ClassContext {
    /// The prefixes and their declarations, in the order the prefixes were first written.
    pub closed spec fn entries(&self) -> Seq<(Seq<char>, Seq<DeclView>)> {
        self.groups@
    }

    /// The name of the generated class.
    pub closed spec fn name(&self) -> Seq<char> {
        self.class_name@
    }

    /// A context with no declarations.
    pub fn new(class_name: String) -> (r: Self)
        ensures
            r.name() == class_name@,
            r.entries() == Seq::<(Seq<char>, Seq<DeclView>)>::empty(),
    {
        ClassContext { class_name, groups: DeclMap::new() }
    }

    /// Appends declarations under a modifier prefix such as `md:hover:`.
    pub fn write(&mut self, raw_modifiers: &str, declarations: Vec<Declaration>)
        ensures
            final(self).name() == old(self).name(),
            final(self).entries() == appended_under(old(self).entries(), raw_modifiers@, decls_view(declarations@)),
    {
        self.groups.append(raw_modifiers, declarations);
    }

    /// The CSS text of this context.
    pub fn to_css(&self, indent: &str) -> (r: String)
        ensures
            exists|order: Seq<Seq<char>>| #![auto]
                prefix_order(self.entries(), order) && r@ == context_css(self.name(), self.entries(), order, indent@),
    {
        let mut css = String::new();
        let name = self.class_name.as_str();
        proof {
            reveal_strlit("");
        }
        let base_css = self.base_rule_text(indent);
        push_str(&mut css, base_css.as_str());
        assert(css@ =~= base_css@);
        let keys = self.sorted_prefixes();
        let ghost order = strings_view(keys@);
        let ghost f = |k: Seq<char>| prefix_rule(name@, k, decls_under(self.entries(), k), indent@);
        let ghost start = css@;
        let mut i: usize = 0;
        assert(order.subrange(0, 0) =~= Seq::<Seq<char>>::empty());
        while i < keys.len()
            invariant
                i <= keys@.len(),
                order == strings_view(keys@),
                f == (|k: Seq<char>| prefix_rule(name@, k, decls_under(self.entries(), k), indent@)),
                name@ == self.class_name@,
                css@ == start + concat_entries(order.subrange(0, i as int), f),
            decreases keys@.len() - i,
        {
            let key = keys[i].as_str();
            let ghost before = css@;
            match self.groups.get(key) {
                Some(decls) => {
                    if decls.len() > 0 {
                        let mods = parse_modifiers_from_raw(key);
                        let optimized = optimize_shorthands(crate::types::duplicate_decls(decls));
                        self.generate_selector_with_modifiers(&mut css, &mods, &optimized, indent);
                    }
                },
                None => {},
            }
            proof {
                lemma_concat_step(order, f, i as int);
                assert(f(order[i as int]) == prefix_rule(name@, key@, decls_under(self.entries(), key@), indent@));
                assert(css@ =~= start + concat_entries(order.subrange(0, i + 1), f));
            }
            i = i + 1;
        }
        assert(order.subrange(0, keys@.len() as int) =~= order);
        assert(prefix_order(self.entries(), order));
        assert(css@ == context_css(self.class_name@, self.entries(), order, indent@));
        css
    }

    fn base_rule_text(&self, indent: &str) -> (r: String)
        ensures
            r@ == (if decls_under(self.entries(), Seq::<char>::empty()).len() == 0 {
                Seq::<char>::empty()
            } else {
                "."@ + self.name() + " {\n"@ + decl_lines(optimize_spec(decls_under(self.entries(), Seq::<char>::empty())), indent@) + "}\n"@
            }),
    {
        proof {
            reveal_strlit("");
        }
        let mut css = String::new();
        assert(""@ =~= Seq::<char>::empty());
        match self.groups.get("") {
            Some(decls) => {
                if decls.len() > 0 {
                    let optimized = optimize_shorthands(crate::types::duplicate_decls(decls));
                    push_str(&mut css, ".");
                    push_str(&mut css, self.class_name.as_str());
                    push_str(&mut css, " {\n");
                    push_decl_lines(&mut css, &optimized, indent);
                    push_str(&mut css, "}\n");
                    assert(css@ =~= "."@ + self.name() + " {\n"@ + decl_lines(optimize_spec(decls_view(decls@)), indent@) + "}\n"@);
                }
                assert(decls_view(decls@) == decls_under(self.entries(), Seq::<char>::empty()));
            },
            None => {
                assert(decls_under(self.entries(), Seq::<char>::empty()) =~= Seq::<DeclView>::empty());
            },
        }
        css
    }

    fn sorted_prefixes(&self) -> (r: Vec<String>)
        ensures
            prefix_order(self.entries(), strings_view(r@)),
    {
        let mut keys: Vec<String> = Vec::new();
        let ghost all = self.entries().map_values(|e: (Seq<char>, Seq<DeclView>)| e.0);
        let mut i: usize = 0;
        assert(strings_view(keys@).to_set() =~= all.subrange(0, 0).to_set().remove(Seq::<char>::empty()));
        while i < self.groups.len()
            invariant
                i <= self.entries().len(),
                self.groups@ == self.entries(),
                all == self.entries().map_values(|e: (Seq<char>, Seq<DeclView>)| e.0),
                strictly_sorted(strings_view(keys@)),
                strings_view(keys@).to_set() == all.subrange(0, i as int).to_set().remove(Seq::<char>::empty()),
            decreases self.entries().len() - i,
        {
            let (key, _) = self.groups.entry(i);
            let ghost before = strings_view(keys@).to_set();
            proof {
                assert(all.subrange(0, i + 1) =~= all.subrange(0, i as int).push(key@));
            }
            proof {
                all.subrange(0, i as int).lemma_push_to_set_commute(key@);
            }
            if key.unicode_len() > 0 {
                sorted_insert(&mut keys, owned(key));
                assert(strings_view(keys@).to_set() =~= all.subrange(0, i + 1).to_set().remove(Seq::<char>::empty()));
            } else {
                proof {
                    assert(key@ =~= Seq::<char>::empty());
                }
                assert(strings_view(keys@).to_set() =~= all.subrange(0, i + 1).to_set().remove(Seq::<char>::empty()));
            }
            i = i + 1;
        }
        assert(all.subrange(0, self.entries().len() as int) =~= all);
        keys
    }

    fn rule_parts(&self, modifiers: &Vec<Modifier>) -> (r: (Vec<String>, String))
        ensures
            strings_view(r.0@) == split_modifiers(modifiers_view(modifiers@)).0,
            r.1@ == context_selector("."@ + self.name(), split_modifiers(modifiers_view(modifiers@)).1),
    {
        let ghost m = modifiers_view(modifiers@);
        let mut at_rules: Vec<String> = Vec::new();
        let mut selector = cat2(".", self.class_name.as_str());
        let ghost base_sel = selector@;
        let ghost mut sels: Seq<(ModifierKind, Seq<char>)> = seq![];
        let mut i: usize = 0;
        assert(m.subrange(0, 0) =~= Seq::<(ModifierKind, Seq<char>)>::empty());
        assert(strings_view(at_rules@) =~= Seq::<Seq<char>>::empty());
        while i < modifiers.len()
            invariant
                i <= modifiers@.len(),
                m == modifiers_view(modifiers@),
                base_sel == "."@ + self.name(),
                split_modifiers(m.subrange(0, i as int)) == (strings_view(at_rules@), sels),
                selector@ == context_selector(base_sel, sels),
            decreases modifiers@.len() - i,
        {
            proof {
                assert(m.subrange(0, i + 1).drop_last() =~= m.subrange(0, i as int));
                assert(m.subrange(0, i + 1).last() == modifiers@[i as int]@);
            }
            let ghost ats0 = strings_view(at_rules@);
            let (at, in_sel) = modifier_at_rule_of(&modifiers[i]);
            if let Some(a) = at {
                at_rules.push(a);
                assert(strings_view(at_rules@) =~= ats0.push(a@));
            }
            if in_sel {
                selector = self.apply_modifier(selector.as_str(), &modifiers[i]);
                proof {
                    let x = modifiers@[i as int]@;
                    assert(sels.push(x).drop_last() =~= sels);
                    sels = sels.push(x);
                }
            }
            i = i + 1;
        }
        assert(m.subrange(0, modifiers@.len() as int) =~= m);
        (at_rules, selector)
    }

    fn generate_selector_with_modifiers(&self, css: &mut String, modifiers: &Vec<Modifier>, declarations: &Vec<Declaration>, indent: &str)
        ensures
            final(css)@ == old(css)@ + modifier_rule(self.name(), modifiers_view(modifiers@), decls_view(declarations@), indent@),
    {
        let ghost m = modifiers_view(modifiers@);
        if modifiers.len() == 0 {
            assert(css@ =~= old(css)@ + Seq::<char>::empty());
            return;
        }
        let (at_rules, selector) = self.rule_parts(modifiers);
        if at_rules.len() > 0 {
            push_nested_rule(css, &at_rules, selector.as_str(), declarations, indent);
        } else {
            push_str(css, "\n");
            push_str(css, selector.as_str());
            push_str(css, " {\n");
            push_decl_lines(css, declarations, indent);
            push_str(css, "}\n");
            assert(css@ =~= old(css)@ + modifier_rule(self.name(), m, decls_view(declarations@), indent@));
        }
    }

    fn apply_modifier(&self, selector: &str, modifier: &Modifier) -> (r: String)
        ensures
            r@ == context_modified(selector@, modifier@),
    {
        match modifier {
            Modifier::PseudoClass(name) => {
                if let Some(p) = parameterized_selector(name.as_str()) {
                    cat2(selector, p.as_str())
                } else if str_eq(name.as_str(), "*") {
                    cat2(selector, " > *")
                } else if str_eq(name.as_str(), "**") {
                    cat2(selector, " *")
                } else {
                    let c = pseudo_class_selector(name.as_str());
                    cat3(selector, ":", c.as_str())
                }
            },
            Modifier::PseudoElement(name) => {
                let c = pseudo_element_selector(name.as_str());
                cat3(selector, "::", c.as_str())
            },
            Modifier::State(name) => match resolve_state(name.as_str(), selector) {
                StateResolution::Selector(s) => s,
                StateResolution::AtRule(_) => owned(selector),
            },
            Modifier::Responsive(_) => owned(selector),
            Modifier::Custom(name) => {
                if let Some(p) = parameterized_selector(name.as_str()) {
                    cat2(selector, p.as_str())
                } else {
                    cat3(selector, ":", name.as_str())
                }
            },
        }
    }
}

/// A rule nested in at-rules: the openings, the selector one level deeper
/// than the last, its declarations, and the closings.
pub open spec fn nested_rule(ats: Seq<Seq<char>>, selector: Seq<char>, ds: Seq<DeclView>, indent: Seq<char>) -> Seq<char> {
    let d = ats.len();
    "\n"@ + at_rule_opens(ats, indent) + repeat_text(indent, d) + selector + " {\n"@
        + decl_lines(ds, repeat_text(indent, d + 1)) + repeat_text(indent, d) + "}\n"@
        + at_rule_closes(d, indent)
}

fn push_at_rule_opens(css: &mut String, at_rules: &Vec<String>, indent: &str)
    ensures
        final(css)@ == old(css)@ + at_rule_opens(strings_view(at_rules@), indent@),
{
    let ghost ats = strings_view(at_rules@);
    let mut j: usize = 0;
    assert(ats.subrange(0, 0) =~= Seq::<Seq<char>>::empty());
    assert(old(css)@ + Seq::<char>::empty() =~= old(css)@);
    while j < at_rules.len()
        invariant
            j <= at_rules@.len(),
            ats == strings_view(at_rules@),
            css@ == old(css)@ + at_rule_opens(ats.subrange(0, j as int), indent@),
        decreases at_rules@.len() - j,
    {
        let prefix = repeat_str(indent, j);
        push_str(css, prefix.as_str());
        push_str(css, at_rules[j].as_str());
        push_str(css, " {\n");
        proof {
            assert(ats.subrange(0, j + 1).drop_last() =~= ats.subrange(0, j as int));
        }
        assert(css@ =~= old(css)@ + at_rule_opens(ats.subrange(0, j + 1), indent@));
        j = j + 1;
    }
    assert(ats.subrange(0, at_rules@.len() as int) =~= ats);
}

fn push_at_rule_closes(css: &mut String, depth: usize, indent: &str)
    ensures
        final(css)@ == old(css)@ + at_rule_closes(depth as nat, indent@),
{
    let mut k: usize = depth;
    while k > 0
        invariant
            k <= depth,
            css@ + at_rule_closes(k as nat, indent@) == old(css)@ + at_rule_closes(depth as nat, indent@),
        decreases k,
    {
        let prefix = repeat_str(indent, k - 1);
        let ghost c0 = css@;
        push_str(css, prefix.as_str());
        push_str(css, "}\n");
        assert(c0 + at_rule_closes(k as nat, indent@) =~= css@ + at_rule_closes((k - 1) as nat, indent@));
        k = k - 1;
    }
    assert(css@ =~= css@ + at_rule_closes(0, indent@));
}

fn push_nested_rule(css: &mut String, at_rules: &Vec<String>, selector: &str, declarations: &Vec<Declaration>, indent: &str)
    ensures
        final(css)@ == old(css)@ + nested_rule(strings_view(at_rules@), selector@, decls_view(declarations@), indent@),
{
    push_str(css, "\n");
    push_at_rule_opens(css, at_rules, indent);
    let depth = at_rules.len();
    let sel_prefix = repeat_str(indent, depth);
    let decl_prefix = cat2(sel_prefix.as_str(), indent);
    push_str(css, sel_prefix.as_str());
    push_str(css, selector);
    push_str(css, " {\n");
    push_decl_lines(css, declarations, decl_prefix.as_str());
    push_str(css, sel_prefix.as_str());
    push_str(css, "}\n");
    push_at_rule_closes(css, depth, indent);
    assert(css@ =~= old(css)@ + nested_rule(strings_view(at_rules@), selector@, decls_view(declarations@), indent@));
}

} // verus!
