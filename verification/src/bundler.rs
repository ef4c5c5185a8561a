//! Bundling of several classes into one rule group, keyed by their modifiers,
//! and the CSS text of a group.
use vstd::prelude::*;
use crate::text::opt_string_view;
use crate::converter::{class_decls, Converter};
use crate::normalize::ws_tokens;
use crate::parse::{modifiers_of_raw, modifiers_view, ClassModel, Modifier, ModifierKind, ParsedClass};
use crate::parser::{
    classes_view, error_debug_text, parse_all, parse_class, parse_classes, ErrorModel, ParseError,
};
use crate::context::{context_css, prefix_order, ClassContext};
use crate::normalize::{sorted_insert, strictly_sorted};
use crate::parser::parse_model;
use crate::text::{
    after_prefix, before_suffix, cat2, cat3, chars_of, is_prefix, is_suffix, owned, push_str,
    str_eq, strings_view, strip_prefix, strip_suffix,
};
use crate::theme_values::{
    blur_size, blur_size_spec, font_family, font_family_spec, text_line_height,
    text_line_height_spec, text_size, text_size_spec,
};
use crate::variant::{
    container_at_rule, container_at_rule_spec, marker_selectors, parameterized_selector, parameterized_spec, pseudo_class_at_rule, pseudo_class_at_rule_spec,
    pseudo_class_selector, pseudo_class_spec, pseudo_element_selector, pseudo_element_spec,
    resolve_state, resolve_state_spec, responsive_at_rule, responsive_at_rule_spec, supports_at_rule,
    supports_at_rule_spec, StateModel, StateResolution,
};
use crate::types::{decls_view, ColorMode, DeclView, Declaration};

verus! {

// ── Keyed entries ───────────────────────────────────────────────────────────

/// The first position of the key `k` among the entries, or `-1`.
pub open spec fn key_index<V>(s: Seq<(Seq<char>, V)>, k: Seq<char>) -> int
    decreases s.len(),
{
    if s.len() == 0 {
        -1
    } else if s[0].0 == k {
        0
    } else {
        let r = key_index(s.drop_first(), k);
        if r < 0 {
            -1
        } else {
            r + 1
        }
    }
}

pub proof fn lemma_key_index<V>(s: Seq<(Seq<char>, V)>, k: Seq<char>)
    ensures
        -1 <= key_index(s, k) < s.len(),
        key_index(s, k) >= 0 ==> s[key_index(s, k)].0 == k,
        key_index(s, k) >= 0 ==> forall|j: int| 0 <= j < key_index(s, k) ==> s[j].0 != k,
        key_index(s, k) < 0 ==> forall|j: int| 0 <= j < s.len() ==> s[j].0 != k,
    decreases s.len(),
{
    if s.len() > 0 && s[0].0 != k {
        lemma_key_index(s.drop_first(), k);
        assert forall|j: int| 1 <= j < s.len() implies s[j] == s.drop_first()[j - 1] by {}
    }
}

/// The key `k` is first found at `i` when no entry before `i` has it and the
/// entry at `i` does (or `i` is the end).
pub proof fn lemma_key_index_at<V>(s: Seq<(Seq<char>, V)>, k: Seq<char>, i: int)
    requires
        0 <= i <= s.len(),
        forall|j: int| 0 <= j < i ==> s[j].0 != k,
        i < s.len() ==> s[i].0 == k,
    ensures
        key_index(s, k) == (if i < s.len() { i } else { -1 }),
    decreases i,
{
    if s.len() > 0 && i > 0 {
        assert(s[0].0 != k);
        assert forall|j: int| 0 <= j < i - 1 implies s.drop_first()[j].0 != k by {
            assert(s.drop_first()[j] == s[j + 1]);
        }
        if i < s.len() {
            assert(s.drop_first()[i - 1] == s[i]);
        }
        lemma_key_index_at(s.drop_first(), k, i - 1);
    }
}

/// Two entry lists with the same keys in the same places have the same key positions.
pub proof fn lemma_key_index_same_keys<V, W>(s: Seq<(Seq<char>, V)>, t: Seq<(Seq<char>, W)>, k: Seq<char>)
    requires
        s.len() == t.len(),
        forall|j: int| 0 <= j < s.len() ==> s[j].0 == t[j].0,
    ensures
        key_index(s, k) == key_index(t, k),
    decreases s.len(),
{
    if s.len() > 0 {
        lemma_key_index_same_keys(s.drop_first(), t.drop_first(), k);
    }
}

/// The declarations under the key `k`, or none.
pub open spec fn decls_under(s: Seq<(Seq<char>, Seq<DeclView>)>, k: Seq<char>) -> Seq<DeclView> {
    if key_index(s, k) >= 0 {
        s[key_index(s, k)].1
    } else {
        seq![]
    }
}

/// The entries with `ds` appended under the key `k` (a new last entry when `k` is new).
pub open spec fn appended_under(
    s: Seq<(Seq<char>, Seq<DeclView>)>,
    k: Seq<char>,
    ds: Seq<DeclView>,
) -> Seq<(Seq<char>, Seq<DeclView>)> {
    if key_index(s, k) >= 0 {
        s.update(key_index(s, k), (k, s[key_index(s, k)].1 + ds))
    } else {
        s.push((k, ds))
    }
}

/// Whether no key occurs twice among the entries.
pub open spec fn keys_distinct<V>(s: Seq<(Seq<char>, V)>) -> bool {
    forall|i: int, j: int| 0 <= i < j < s.len() ==> s[i].0 != s[j].0
}

/// Appending under a key keeps one entry per key, and the key then has an
/// entry; so a map that starts empty and is only appended to never holds a
/// key twice.
pub proof fn law_append_keeps_keys_distinct(s: Seq<(Seq<char>, Seq<DeclView>)>, k: Seq<char>, ds: Seq<DeclView>)
    requires
        keys_distinct(s),
    ensures
        keys_distinct(appended_under(s, k, ds)),
        key_index(appended_under(s, k, ds), k) >= 0,
        appended_under(s, k, ds).len() == s.len() + (if key_index(s, k) >= 0 { 0int } else { 1int }),
{
    lemma_key_index(s, k);
    let t = appended_under(s, k, ds);
    assert forall|i: int, j: int| 0 <= i < j < t.len() implies t[i].0 != t[j].0 by {
        if key_index(s, k) < 0 && j == s.len() {
            assert(s[i].0 != k);
        }
    }
    lemma_key_index(t, k);
    if key_index(s, k) >= 0 {
        assert(t[key_index(s, k)].0 == k);
    } else {
        assert(t[s.len() as int].0 == k);
    }
}

/// Declarations under keys, in the order the keys were first written.
#[derive(Debug, Clone)]
pub struct DeclMap {
    entries: Vec<(String, Vec<Declaration>)>,
}

impl View for DeclMap {
    type V = Seq<(Seq<char>, Seq<DeclView>)>;

    closed spec fn view(&self) -> Seq<(Seq<char>, Seq<DeclView>)> {
        self.entries@.map_values(|e: (String, Vec<Declaration>)| (e.0@, decls_view(e.1@)))
    }
}

impl DeclMap {
    /// No entries.
    pub fn new() -> (r: Self)
        ensures
            r@ == Seq::<(Seq<char>, Seq<DeclView>)>::empty(),
    {
        let r = DeclMap { entries: Vec::new() };
        assert(r@ =~= Seq::<(Seq<char>, Seq<DeclView>)>::empty());
        r
    }

    /// The number of keys.
    pub fn len(&self) -> (r: usize)
        ensures
            r == self@.len(),
    {
        self.entries.len()
    }

    /// Whether there are no keys.
    pub fn is_empty(&self) -> (r: bool)
        ensures
            r == (self@.len() == 0),
    {
        self.entries.len() == 0
    }

    fn find(&self, key: &str) -> (r: usize)
        ensures
            r <= self@.len(),
            r < self@.len() <==> key_index(self@, key@) >= 0,
            r < self@.len() ==> r == key_index(self@, key@),
    {
        proof {
            lemma_key_index(self@, key@);
        }
        let mut i: usize = 0;
        while i < self.entries.len()
            invariant
                i <= self.entries@.len(),
                self@.len() == self.entries@.len(),
                forall|j: int| 0 <= j < i ==> self@[j].0 != key@,
            decreases self.entries@.len() - i,
        {
            assert(self@[i as int].0 == self.entries@[i as int].0@);
            if str_eq(self.entries[i].0.as_str(), key) {
                proof {
                    lemma_key_index_at(self@, key@, i as int);
                }
                return i;
            }
            i = i + 1;
        }
        proof {
            lemma_key_index_at(self@, key@, i as int);
        }
        i
    }

    /// Whether `key` has an entry.
    pub fn contains_key(&self, key: &str) -> (r: bool)
        ensures
            r == (key_index(self@, key@) >= 0),
    {
        self.find(key) < self.entries.len()
    }

    /// The declarations under `key`.
    pub fn get(&self, key: &str) -> (r: Option<&Vec<Declaration>>)
        ensures
            match r {
                Some(v) => key_index(self@, key@) >= 0 && decls_view(v@) == decls_under(self@, key@),
                None => key_index(self@, key@) < 0,
            },
    {
        let i = self.find(key);
        if i < self.entries.len() {
            Some(&self.entries[i].1)
        } else {
            None
        }
    }

    /// The key and declarations of the entry at `i`.
    pub fn entry(&self, i: usize) -> (r: (&str, &Vec<Declaration>))
        requires
            i < self@.len(),
        ensures
            r.0@ == self@[i as int].0,
            decls_view(r.1@) == self@[i as int].1,
    {
        (self.entries[i].0.as_str(), &self.entries[i].1)
    }

    /// Appends declarations under `key`.
    pub fn append(&mut self, key: &str, declarations: Vec<Declaration>)
        ensures
            final(self)@ == appended_under(old(self)@, key@, decls_view(declarations@)),
    {
        let i = self.find(key);
        let ghost ds = decls_view(declarations@);
        if i < self.entries.len() {
            proof {
                lemma_key_index(self@, key@);
            }
            let ghost e0 = self.entries@;
            let (k, mut v) = self.entries.remove(i);
            assert(k@ == key@ && decls_view(v@) == old(self)@[i as int].1) by {
                assert(old(self)@[i as int] == (e0[i as int].0@, decls_view(e0[i as int].1@)));
            }
            let ghost before = decls_view(v@);
            let mut j: usize = 0;
            while j < declarations.len()
                invariant
                    j <= declarations@.len(),
                    decls_view(v@) == before + ds.subrange(0, j as int),
                    ds == decls_view(declarations@),
                decreases declarations@.len() - j,
            {
                let ghost vv = v@;
                let d = declarations[j].duplicate();
                assert(d@ == ds[j as int]);
                v.push(d);
                assert(decls_view(v@) =~= decls_view(vv).push(d@));
                assert(ds.subrange(0, j + 1) =~= ds.subrange(0, j as int).push(ds[j as int]));
                assert(decls_view(v@) =~= before + ds.subrange(0, j + 1));
                j = j + 1;
            }
            assert(ds.subrange(0, declarations@.len() as int) =~= ds);
            let ghost kv = (k, v);
            self.entries.insert(i, (k, v));
            assert(self.entries@ =~= e0.update(i as int, kv));
            assert(self@ =~= appended_under(old(self)@, key@, ds));
        } else {
            self.entries.push((owned(key), declarations));
            assert(self@ =~= appended_under(old(self)@, key@, ds));
        }
    }
}

// ── Rule groups ─────────────────────────────────────────────────────────────

/// Declarations grouped by modifier: the base rule, pseudo-classes,
/// pseudo-elements, and nested groups for breakpoints and states.
#[derive(Debug)]
pub struct RuleGroup {
    /// The declarations without a modifier.
    pub base: Vec<Declaration>,
    /// The declarations under each pseudo-class (such as `hover`).
    pub pseudo_classes: DeclMap,
    /// The declarations under each pseudo-element (such as `before`).
    pub pseudo_elements: DeclMap,
    /// The group under each breakpoint (such as `md`).
    pub responsive: GroupMap,
    /// The group under each state (such as `dark`).
    pub states: GroupMap,
}

/// Rule groups under keys, in the order the keys were first written.
#[derive(Debug)]
pub struct GroupMap {
    entries: Vec<(String, RuleGroup)>,
}

impl View for GroupMap {
    type V = Seq<(Seq<char>, RuleGroup)>;

    closed spec fn view(&self) -> Seq<(Seq<char>, RuleGroup)> {
        self.entries@.map_values(|e: (String, RuleGroup)| (e.0@, e.1))
    }
}

impl GroupMap {
    /// No entries.
    pub fn new() -> (r: Self)
        ensures
            r@ == Seq::<(Seq<char>, RuleGroup)>::empty(),
    {
        let r = GroupMap { entries: Vec::new() };
        assert(r@ =~= Seq::<(Seq<char>, RuleGroup)>::empty());
        r
    }

    /// The number of keys.
    pub fn len(&self) -> (r: usize)
        ensures
            r == self@.len(),
    {
        self.entries.len()
    }

    /// Whether there are no keys.
    pub fn is_empty(&self) -> (r: bool)
        ensures
            r == (self@.len() == 0),
    {
        self.entries.len() == 0
    }

    fn find(&self, key: &str) -> (r: usize)
        ensures
            r <= self@.len(),
            r < self@.len() <==> key_index(self@, key@) >= 0,
            r < self@.len() ==> r == key_index(self@, key@),
    {
        proof {
            lemma_key_index(self@, key@);
        }
        let mut i: usize = 0;
        while i < self.entries.len()
            invariant
                i <= self.entries@.len(),
                self@.len() == self.entries@.len(),
                forall|j: int| 0 <= j < i ==> self@[j].0 != key@,
            decreases self.entries@.len() - i,
        {
            assert(self@[i as int].0 == self.entries@[i as int].0@);
            if str_eq(self.entries[i].0.as_str(), key) {
                proof {
                    lemma_key_index_at(self@, key@, i as int);
                }
                return i;
            }
            i = i + 1;
        }
        proof {
            lemma_key_index_at(self@, key@, i as int);
        }
        i
    }

    /// Whether `key` has an entry.
    pub fn contains_key(&self, key: &str) -> (r: bool)
        ensures
            r == (key_index(self@, key@) >= 0),
    {
        self.find(key) < self.entries.len()
    }

    /// The group under `key`.
    pub fn get(&self, key: &str) -> (r: Option<&RuleGroup>)
        ensures
            match r {
                Some(g) => key_index(self@, key@) >= 0 && *g == self@[key_index(self@, key@)].1,
                None => key_index(self@, key@) < 0,
            },
    {
        let i = self.find(key);
        if i < self.entries.len() {
            Some(&self.entries[i].1)
        } else {
            None
        }
    }

    /// The key and group of the entry at `i`.
    pub fn entry(&self, i: usize) -> (r: (&str, &RuleGroup))
        requires
            i < self@.len(),
        ensures
            r.0@ == self@[i as int].0,
            *r.1 == self@[i as int].1,
    {
        (self.entries[i].0.as_str(), &self.entries[i].1)
    }
}

/// The bucket that a modifier list writes to: its leading breakpoints and
/// states, then the first pseudo-class (a custom modifier counts as one) or
/// pseudo-element, where the list stops mattering.
pub open spec fn bucket_key(m: Seq<(ModifierKind, Seq<char>)>) -> Seq<(ModifierKind, Seq<char>)>
    decreases m.len(),
{
    if m.len() == 0 {
        seq![]
    } else {
        match m[0].0 {
            ModifierKind::Responsive => seq![m[0]] + bucket_key(m.drop_first()),
            ModifierKind::State => seq![m[0]] + bucket_key(m.drop_first()),
            ModifierKind::PseudoClass => seq![(ModifierKind::PseudoClass, m[0].1)],
            ModifierKind::Custom => seq![(ModifierKind::PseudoClass, m[0].1)],
            ModifierKind::PseudoElement => seq![m[0]],
        }
    }
}

/// The declarations that a group holds for a modifier list: the base rule for
/// none, the pseudo-class or pseudo-element entry for the first such
/// modifier, and the nested group's for a leading breakpoint or state.
pub open spec fn decls_at(g: RuleGroup, m: Seq<(ModifierKind, Seq<char>)>) -> Seq<DeclView>
    decreases m.len(),
{
    if m.len() == 0 {
        decls_view(g.base@)
    } else {
        match m[0].0 {
            ModifierKind::PseudoClass => decls_under(g.pseudo_classes@, m[0].1),
            ModifierKind::Custom => decls_under(g.pseudo_classes@, m[0].1),
            ModifierKind::PseudoElement => decls_under(g.pseudo_elements@, m[0].1),
            ModifierKind::Responsive => {
                let i = key_index(g.responsive@, m[0].1);
                if i >= 0 {
                    decls_at(g.responsive@[i].1, m.drop_first())
                } else {
                    seq![]
                }
            },
            ModifierKind::State => {
                let i = key_index(g.states@, m[0].1);
                if i >= 0 {
                    decls_at(g.states@[i].1, m.drop_first())
                } else {
                    seq![]
                }
            },
        }
    }
}

/// Whether a group holds no declarations for any modifier list.
pub open spec fn is_empty_group(g: RuleGroup) -> bool {
    forall|m: Seq<(ModifierKind, Seq<char>)>| #[trigger] decls_at(g, m) == Seq::<DeclView>::empty()
}

proof fn lemma_bucket_key_cons(x: (ModifierKind, Seq<char>), a: Seq<(ModifierKind, Seq<char>)>, b: Seq<(ModifierKind, Seq<char>)>)
    requires
        a.len() > 0,
        b.len() > 0,
        a[0] == x,
        b[0] == x,
        x.0 == ModifierKind::Responsive || x.0 == ModifierKind::State,
    ensures
        (bucket_key(a) == bucket_key(b)) == (bucket_key(a.drop_first()) == bucket_key(b.drop_first())),
{
    let ka = bucket_key(a.drop_first());
    let kb = bucket_key(b.drop_first());
    assert(bucket_key(a) == seq![x] + ka);
    assert(bucket_key(b) == seq![x] + kb);
    if seq![x] + ka == seq![x] + kb {
        assert(ka =~= (seq![x] + ka).drop_first());
        assert(kb =~= (seq![x] + kb).drop_first());
    }
}

pub proof fn lemma_key_index_push<V>(s: Seq<(Seq<char>, V)>, x: (Seq<char>, V), n: Seq<char>)
    ensures
        key_index(s.push(x), n) == (if key_index(s, n) >= 0 {
            key_index(s, n)
        } else if x.0 == n {
            s.len() as int
        } else {
            -1
        }),
    decreases s.len(),
{
    let t = s.push(x);
    if s.len() > 0 {
        assert(t[0] == s[0]);
        if s[0].0 != n {
            assert(t.drop_first() =~= s.drop_first().push(x));
            lemma_key_index_push(s.drop_first(), x, n);
        }
    } else {
        assert(t[0] == x);
        assert(t.drop_first() =~= Seq::<(Seq<char>, V)>::empty());
        assert(key_index(t.drop_first(), n) == -1);
    }
}

pub proof fn lemma_appended_under(s: Seq<(Seq<char>, Seq<DeclView>)>, k: Seq<char>, ds: Seq<DeclView>, n: Seq<char>)
    ensures
        decls_under(appended_under(s, k, ds), n) == if n == k {
            decls_under(s, k) + ds
        } else {
            decls_under(s, n)
        },
        appended_under(s, k, ds).len() >= s.len(),
{
    lemma_key_index(s, k);
    lemma_key_index(s, n);
    let a = appended_under(s, k, ds);
    if key_index(s, k) >= 0 {
        let i = key_index(s, k);
        lemma_key_index_same_keys(a, s, n);
        lemma_key_index_same_keys(a, s, k);
    } else {
        lemma_key_index_push(s, (k, ds), n);
        if n == k {
            assert(Seq::<DeclView>::empty() + ds =~= ds);
        }
    }
}

/// The entries of a map after a nested group at `name` was replaced.
pub open spec fn nested_updated(
    e0: Seq<(Seq<char>, RuleGroup)>,
    e1: Seq<(Seq<char>, RuleGroup)>,
    name: Seq<char>,
    inner0: RuleGroup,
    inner1: RuleGroup,
) -> bool {
    if key_index(e0, name) >= 0 {
        &&& inner0 == e0[key_index(e0, name)].1
        &&& e1 == e0.update(key_index(e0, name), (name, inner1))
    } else {
        &&& is_empty_group(inner0)
        &&& e1 == e0.push((name, inner1))
    }
}

proof fn lemma_nested_lookup(
    e0: Seq<(Seq<char>, RuleGroup)>,
    e1: Seq<(Seq<char>, RuleGroup)>,
    name: Seq<char>,
    inner0: RuleGroup,
    inner1: RuleGroup,
    n: Seq<char>,
)
    requires
        nested_updated(e0, e1, name, inner0, inner1),
    ensures
        n == name ==> key_index(e1, n) >= 0 && e1[key_index(e1, n)].1 == inner1,
        n == name && key_index(e0, n) >= 0 ==> e0[key_index(e0, n)].1 == inner0,
        n != name ==> key_index(e1, n) == key_index(e0, n),
        n != name && key_index(e0, n) >= 0 ==> e1[key_index(e1, n)] == e0[key_index(e0, n)],
{
    lemma_key_index(e0, name);
    lemma_key_index(e0, n);
    if key_index(e0, name) >= 0 {
        lemma_key_index_same_keys(e1, e0, n);
    } else {
        lemma_key_index_push(e0, (name, inner1), n);
    }
}

proof fn lemma_bucket_first(m: Seq<(ModifierKind, Seq<char>)>, t: Seq<(ModifierKind, Seq<char>)>)
    requires
        m.len() > 0,
        t.len() > 0,
        (m[0].0 == ModifierKind::Responsive || m[0].0 == ModifierKind::State),
        (t[0].0 == ModifierKind::Responsive || t[0].0 == ModifierKind::State),
        m[0] != t[0],
    ensures
        bucket_key(m) != bucket_key(t),
{
    assert(bucket_key(m)[0] == m[0]);
    assert(bucket_key(t)[0] == t[0]);
}

proof fn lemma_nested_step(
    g0: RuleGroup,
    g1: RuleGroup,
    responsive: bool,
    name: Seq<char>,
    inner0: RuleGroup,
    inner1: RuleGroup,
    target: Seq<(ModifierKind, Seq<char>)>,
    ds: Seq<DeclView>,
)
    requires
        target.len() > 0,
        target[0] == (if responsive { ModifierKind::Responsive } else { ModifierKind::State }, name),
        g1.base == g0.base,
        g1.pseudo_classes == g0.pseudo_classes,
        g1.pseudo_elements == g0.pseudo_elements,
        responsive ==> g1.states == g0.states,
        !responsive ==> g1.responsive == g0.responsive,
        responsive ==> nested_updated(g0.responsive@, g1.responsive@, name, inner0, inner1),
        !responsive ==> nested_updated(g0.states@, g1.states@, name, inner0, inner1),
        forall|m: Seq<(ModifierKind, Seq<char>)>| #[trigger] decls_at(inner1, m) == if bucket_key(m) == bucket_key(target.drop_first()) {
            decls_at(inner0, m) + ds
        } else {
            decls_at(inner0, m)
        },
    ensures
        forall|m: Seq<(ModifierKind, Seq<char>)>| #[trigger] decls_at(g1, m) == if bucket_key(m) == bucket_key(target) {
            decls_at(g0, m) + ds
        } else {
            decls_at(g0, m)
        },
{
    assert forall|m: Seq<(ModifierKind, Seq<char>)>| #[trigger] decls_at(g1, m) == if bucket_key(m) == bucket_key(target) {
        decls_at(g0, m) + ds
    } else {
        decls_at(g0, m)
    } by {
        assert(bucket_key(target)[0] == target[0]);
        if m.len() == 0 {
            assert(bucket_key(m).len() == 0);
        } else {
            let k = m[0].0;
            let n = m[0].1;
            if k == ModifierKind::Responsive && responsive {
                lemma_nested_case(g0.responsive@, g1.responsive@, name, inner0, inner1, m, target, ds);
                assert(decls_at(g1, m) == nested_at(g1.responsive@, m));
                assert(decls_at(g0, m) == nested_at(g0.responsive@, m));
            } else if k == ModifierKind::State && !responsive {
                lemma_nested_case(g0.states@, g1.states@, name, inner0, inner1, m, target, ds);
                assert(decls_at(g1, m) == nested_at(g1.states@, m));
                assert(decls_at(g0, m) == nested_at(g0.states@, m));
            } else if k == ModifierKind::Responsive || k == ModifierKind::State {
                lemma_bucket_first(m, target);
            } else {
                assert(bucket_key(m)[0].0 != target[0].0);
            }
        }
    }
}

/// The declarations of a nested entry for a modifier list that starts with its key.
pub open spec fn nested_at(e: Seq<(Seq<char>, RuleGroup)>, m: Seq<(ModifierKind, Seq<char>)>) -> Seq<DeclView> {
    let i = key_index(e, m[0].1);
    if i >= 0 {
        decls_at(e[i].1, m.drop_first())
    } else {
        seq![]
    }
}

proof fn lemma_nested_case(
    e0: Seq<(Seq<char>, RuleGroup)>,
    e1: Seq<(Seq<char>, RuleGroup)>,
    name: Seq<char>,
    inner0: RuleGroup,
    inner1: RuleGroup,
    m: Seq<(ModifierKind, Seq<char>)>,
    target: Seq<(ModifierKind, Seq<char>)>,
    ds: Seq<DeclView>,
)
    requires
        nested_updated(e0, e1, name, inner0, inner1),
        m.len() > 0,
        target.len() > 0,
        m[0].0 == target[0].0,
        target[0].1 == name,
        (m[0].0 == ModifierKind::Responsive || m[0].0 == ModifierKind::State),
        forall|x: Seq<(ModifierKind, Seq<char>)>| #[trigger] decls_at(inner1, x) == if bucket_key(x) == bucket_key(target.drop_first()) {
            decls_at(inner0, x) + ds
        } else {
            decls_at(inner0, x)
        },
    ensures
        nested_at(e1, m) == if bucket_key(m) == bucket_key(target) {
            nested_at(e0, m) + ds
        } else {
            nested_at(e0, m)
        },
{
    let n = m[0].1;
    lemma_nested_lookup(e0, e1, name, inner0, inner1, n);
    if n == name {
        assert(m[0] == target[0]);
        lemma_bucket_key_cons(target[0], m, target);
        let x = m.drop_first();
        assert(nested_at(e1, m) == decls_at(inner1, x));
        if key_index(e0, n) < 0 {
            assert(decls_at(inner0, x) == Seq::<DeclView>::empty());
        }
        assert(nested_at(e0, m) == decls_at(inner0, x));
    } else {
        lemma_bucket_first(m, target);
    }
}

proof fn lemma_pseudo_step(
    g0: RuleGroup,
    g1: RuleGroup,
    element: bool,
    name: Seq<char>,
    target: Seq<(ModifierKind, Seq<char>)>,
    ds: Seq<DeclView>,
)
    requires
        target.len() > 0,
        target[0].1 == name,
        element ==> target[0].0 == ModifierKind::PseudoElement,
        !element ==> (target[0].0 == ModifierKind::PseudoClass || target[0].0 == ModifierKind::Custom),
        g1.base == g0.base,
        g1.responsive == g0.responsive,
        g1.states == g0.states,
        element ==> g1.pseudo_classes == g0.pseudo_classes,
        !element ==> g1.pseudo_elements == g0.pseudo_elements,
        element ==> g1.pseudo_elements@ == appended_under(g0.pseudo_elements@, name, ds),
        !element ==> g1.pseudo_classes@ == appended_under(g0.pseudo_classes@, name, ds),
    ensures
        forall|m: Seq<(ModifierKind, Seq<char>)>| #[trigger] decls_at(g1, m) == if bucket_key(m) == bucket_key(target) {
            decls_at(g0, m) + ds
        } else {
            decls_at(g0, m)
        },
{
    assert forall|m: Seq<(ModifierKind, Seq<char>)>| #[trigger] decls_at(g1, m) == if bucket_key(m) == bucket_key(target) {
        decls_at(g0, m) + ds
    } else {
        decls_at(g0, m)
    } by {
        let bt = bucket_key(target);
        assert(bt.len() == 1);
        if m.len() == 0 {
            assert(bucket_key(m).len() == 0);
        } else {
            let k = m[0].0;
            let n = m[0].1;
            let bm = bucket_key(m);
            assert(bm[0].0 == (if k == ModifierKind::Custom { ModifierKind::PseudoClass } else { k }));
            if element {
                lemma_appended_under(g0.pseudo_elements@, name, ds, n);
                if k == ModifierKind::PseudoElement && n == name {
                    assert(bm =~= bt);
                } else {
                    assert(bm[0] != bt[0]);
                }
            } else {
                lemma_appended_under(g0.pseudo_classes@, name, ds, n);
                if (k == ModifierKind::PseudoClass || k == ModifierKind::Custom) && n == name {
                    assert(bm =~= bt);
                } else {
                    assert(bm[0] != bt[0]);
                }
            }
        }
    }
}

impl RuleGroup {
    /// An empty group.
    pub fn new() -> (r: Self)
        ensures
            r.base@.len() == 0,
            r.pseudo_classes@.len() == 0,
            r.pseudo_elements@.len() == 0,
            r.responsive@.len() == 0,
            r.states@.len() == 0,
            is_empty_group(r),
    {
        let r = RuleGroup {
            base: Vec::new(),
            pseudo_classes: DeclMap::new(),
            pseudo_elements: DeclMap::new(),
            responsive: GroupMap::new(),
            states: GroupMap::new(),
        };
        assert forall|m: Seq<(ModifierKind, Seq<char>)>| #[trigger] decls_at(r, m) == Seq::<DeclView>::empty() by {
            assert(decls_view(r.base@) =~= Seq::<DeclView>::empty());
        }
        r
    }

    /// Adds declarations to the bucket of a modifier list.
    pub fn add_declarations(&mut self, modifiers: &[Modifier], declarations: Vec<Declaration>)
        ensures
            forall|m: Seq<(ModifierKind, Seq<char>)>| #[trigger] decls_at(*final(self), m) == if bucket_key(m) == bucket_key(modifiers_view(modifiers@)) {
                decls_at(*old(self), m) + decls_view(declarations@)
            } else {
                decls_at(*old(self), m)
            },
    {
        proof {
            assert(modifiers@.subrange(0, modifiers@.len() as int) =~= modifiers@);
        }
        self.add_from(modifiers, 0, declarations);
    }

    fn add_from(&mut self, modifiers: &[Modifier], from: usize, declarations: Vec<Declaration>)
        requires
            from <= modifiers@.len(),
        ensures
            forall|m: Seq<(ModifierKind, Seq<char>)>| #[trigger] decls_at(*final(self), m) == if bucket_key(m) == bucket_key(modifiers_view(modifiers@.subrange(from as int, modifiers@.len() as int))) {
                decls_at(*old(self), m) + decls_view(declarations@)
            } else {
                decls_at(*old(self), m)
            },
        decreases modifiers@.len() - from,
    {
        let ghost target = modifiers_view(modifiers@.subrange(from as int, modifiers@.len() as int));
        let ghost ds = decls_view(declarations@);
        let ghost g0 = *self;
        if from == modifiers.len() {
            crate::types::extend_decls(&mut self.base, declarations.as_slice());
            assert forall|m: Seq<(ModifierKind, Seq<char>)>| #[trigger] decls_at(*self, m) == if bucket_key(m) == bucket_key(target) {
                decls_at(g0, m) + ds
            } else {
                decls_at(g0, m)
            } by {
                assert(target.len() == 0);
                if m.len() == 0 {
                } else {
                    assert(bucket_key(m).len() > 0);
                }
            }
            return;
        }
        assert(target[0] == modifiers@[from as int]@);
        match &modifiers[from] {
            Modifier::PseudoClass(name) | Modifier::Custom(name) => {
                self.pseudo_classes.append(name.as_str(), declarations);
                proof {
                    lemma_pseudo_step(g0, *self, false, name@, target, ds);
                }
            },
            Modifier::PseudoElement(name) => {
                self.pseudo_elements.append(name.as_str(), declarations);
                proof {
                    lemma_pseudo_step(g0, *self, true, name@, target, ds);
                }
            },
            Modifier::Responsive(size) => {
                let i = self.responsive.find(size.as_str());
                let ghost e0 = self.responsive@;
                let ghost v0 = self.responsive.entries@;
                let (key, mut group) = if i < self.responsive.entries.len() {
                    self.responsive.entries.remove(i)
                } else {
                    (owned(size.as_str()), RuleGroup::new())
                };
                let ghost inner0 = group;
                proof {
                    lemma_key_index(e0, size@);
                    if i < v0.len() {
                        assert(inner0 == e0[i as int].1);
                    }
                    assert(target.drop_first() =~= modifiers_view(modifiers@.subrange(from + 1, modifiers@.len() as int)));
                }
                group.add_from(modifiers, from + 1, declarations);
                let ghost inner1 = group;
                self.responsive.entries.insert(i, (key, group));
                proof {
                    if i < v0.len() {
                        assert(self.responsive.entries@ =~= v0.update(i as int, (key, inner1)));
                        assert(self.responsive@ =~= e0.update(i as int, (size@, inner1)));
                    } else {
                        assert(self.responsive.entries@ =~= v0.push((key, inner1)));
                        assert(self.responsive@ =~= e0.push((size@, inner1)));
                    }
                    lemma_nested_step(g0, *self, true, size@, inner0, inner1, target, ds);
                }
            },
            Modifier::State(state) => {
                let i = self.states.find(state.as_str());
                let ghost e0 = self.states@;
                let ghost v0 = self.states.entries@;
                let (key, mut group) = if i < self.states.entries.len() {
                    self.states.entries.remove(i)
                } else {
                    (owned(state.as_str()), RuleGroup::new())
                };
                let ghost inner0 = group;
                proof {
                    lemma_key_index(e0, state@);
                    if i < v0.len() {
                        assert(inner0 == e0[i as int].1);
                    }
                    assert(target.drop_first() =~= modifiers_view(modifiers@.subrange(from + 1, modifiers@.len() as int)));
                }
                group.add_from(modifiers, from + 1, declarations);
                let ghost inner1 = group;
                self.states.entries.insert(i, (key, group));
                proof {
                    if i < v0.len() {
                        assert(self.states.entries@ =~= v0.update(i as int, (key, inner1)));
                        assert(self.states@ =~= e0.update(i as int, (state@, inner1)));
                    } else {
                        assert(self.states.entries@ =~= v0.push((key, inner1)));
                        assert(self.states@ =~= e0.push((state@, inner1)));
                    }
                    lemma_nested_step(g0, *self, false, state@, inner0, inner1, target, ds);
                }
            },
        }
    }
}


// ── The bundler ─────────────────────────────────────────────────────────────

/// The declarations that the classes `cs` give the bucket `key`, in order:
/// each class that converts and whose modifiers write to that bucket adds its
/// declarations.
pub open spec fn collected(cv: Converter, cs: Seq<ClassModel>, key: Seq<(ModifierKind, Seq<char>)>) -> Seq<DeclView>
    decreases cs.len(),
{
    if cs.len() == 0 {
        seq![]
    } else {
        let c = cs.last();
        let rest = collected(cv, cs.drop_last(), key);
        match class_decls(cv, c) {
            Some(ds) => if bucket_key(modifiers_of_raw(c.raw_modifiers)) == key {
                rest + ds
            } else {
                rest
            },
            None => rest,
        }
    }
}

/// The message of a list of classes that does not parse: `解析失败: ` and the
/// error as `{:?}` writes it.
pub open spec fn parse_failure(e: ErrorModel) -> Seq<char> {
    "解析失败: "@ + error_debug_text(e)
}

/// Bundles several classes into one group of rules keyed by modifier.
pub struct Bundler {
    converter: Converter,
}

impl Bundler {
    /// The converter that this bundler converts classes with.
    pub closed spec fn config(&self) -> Converter {
        self.converter
    }

    /// A bundler that writes theme values as variables.
    pub fn new() -> (r: Self)
        ensures
            r.config().use_variables,
            r.config().color_mode == ColorMode::Hex,
            !r.config().use_color_mix,
    {
        Bundler { converter: Converter::new() }
    }

    /// A bundler that writes theme values inline.
    pub fn with_inline() -> (r: Self)
        ensures
            !r.config().use_variables,
            r.config().color_mode == ColorMode::Hex,
            !r.config().use_color_mix,
    {
        Bundler { converter: Converter::with_inline() }
    }

    /// This bundler with another color mode.
    pub fn with_color_mode(self, mode: ColorMode) -> (r: Self)
        ensures
            r.config().use_variables == self.config().use_variables,
            r.config().color_mode == mode,
            r.config().use_color_mix == self.config().use_color_mix,
    {
        Bundler { converter: self.converter.with_color_mode(mode) }
    }

    /// This bundler with alpha applied by `color-mix()` or not.
    pub fn with_color_mix(self, enabled: bool) -> (r: Self)
        ensures
            r.config().use_variables == self.config().use_variables,
            r.config().color_mode == self.config().color_mode,
            r.config().use_color_mix == enabled,
    {
        Bundler { converter: self.converter.with_color_mix(enabled) }
    }

    /// Bundles a whitespace-separated list of classes into one group: each
    /// bucket holds, in order, the declarations of the classes that write to it.
    pub fn bundle(&self, classes: &str) -> (r: Result<RuleGroup, String>)
        ensures
            match r {
                Ok(g) => match parse_all(ws_tokens(classes@)) {
                    Ok(cs) => forall|m: Seq<(ModifierKind, Seq<char>)>| #[trigger] decls_at(g, m) == collected(self.config(), cs, bucket_key(m)),
                    Err(_) => false,
                },
                Err(e) => match parse_all(ws_tokens(classes@)) {
                    Ok(_) => false,
                    Err(pe) => e@ == parse_failure(pe),
                },
            },
    {
        let mut group = RuleGroup::new();
        let parsed_classes = match parse_classes(classes) {
            Ok(v) => v,
            Err(e) => {
                let d = e.debug_text();
                return Err(cat2("解析失败: ", d.as_str()));
            },
        };
        let ghost cs = classes_view(parsed_classes@);
        let mut i: usize = 0;
        while i < parsed_classes.len()
            invariant
                i <= parsed_classes@.len(),
                cs == classes_view(parsed_classes@),
                forall|m: Seq<(ModifierKind, Seq<char>)>| #[trigger] decls_at(group, m) == collected(self.converter, cs.subrange(0, i as int), bucket_key(m)),
            decreases parsed_classes@.len() - i,
        {
            let parsed = &parsed_classes[i];
            let ghost prefix = cs.subrange(0, i + 1);
            proof {
                assert(prefix.drop_last() =~= cs.subrange(0, i as int));
                assert(prefix.last() == parsed@);
            }
            match self.converter.convert(parsed) {
                Some(rule) => {
                    let mods = parsed.modifiers();
                    let ghost g0 = group;
                    let ghost ds = decls_view(rule.declarations@);
                    group.add_declarations(mods.as_slice(), rule.declarations);
                    assert forall|m: Seq<(ModifierKind, Seq<char>)>| #[trigger] decls_at(group, m) == collected(self.converter, prefix, bucket_key(m)) by {
                        assert(decls_at(g0, m) == collected(self.converter, cs.subrange(0, i as int), bucket_key(m)));
                    }
                },
                None => {
                    assert forall|m: Seq<(ModifierKind, Seq<char>)>| #[trigger] decls_at(group, m) == collected(self.converter, prefix, bucket_key(m)) by {
                        assert(decls_at(group, m) == collected(self.converter, cs.subrange(0, i as int), bucket_key(m)));
                    }
                },
            }
            i = i + 1;
        }
        proof {
            assert(cs.subrange(0, parsed_classes@.len() as int) =~= cs);
        }
        Ok(group)
    }
}


// ── CSS text of a group ─────────────────────────────────────────────────────

/// The lines `{prefix}{property}: {value};` of the declarations.
pub open spec fn decl_lines(ds: Seq<DeclView>, prefix: Seq<char>) -> Seq<char>
    decreases ds.len(),
{
    if ds.len() == 0 {
        seq![]
    } else {
        decl_lines(ds.drop_last(), prefix) + prefix + ds.last().0 + ": "@ + ds.last().1 + ";\n"@
    }
}

/// Appends the lines `{prefix}{property}: {value};` of the declarations.
pub fn push_decl_lines(css: &mut String, ds: &Vec<Declaration>, prefix: &str)
    ensures
        final(css)@ == old(css)@ + decl_lines(decls_view(ds@), prefix@),
{
    let mut i: usize = 0;
    let ghost all = decls_view(ds@);
    assert(all.subrange(0, 0) =~= Seq::<DeclView>::empty());
    assert(old(css)@ + decl_lines(all.subrange(0, 0), prefix@) =~= old(css)@);
    while i < ds.len()
        invariant
            i <= ds@.len(),
            all == decls_view(ds@),
            css@ == old(css)@ + decl_lines(all.subrange(0, i as int), prefix@),
        decreases ds@.len() - i,
    {
        let d = &ds[i];
        push_str(css, prefix);
        push_str(css, d.property.as_str());
        push_str(css, ": ");
        push_str(css, d.value.as_str());
        push_str(css, ";\n");
        proof {
            let s = all.subrange(0, i + 1);
            assert(s.drop_last() =~= all.subrange(0, i as int));
            assert(s.last() == d@);
        }
        i = i + 1;
    }
    assert(all.subrange(0, ds@.len() as int) =~= all);
}

/// The concatenation of `f` over the entries, in order.
pub open spec fn concat_entries<V>(s: Seq<V>, f: spec_fn(V) -> Seq<char>) -> Seq<char>
    decreases s.len(),
{
    if s.len() == 0 {
        seq![]
    } else {
        concat_entries(s.drop_last(), f) + f(s.last())
    }
}

pub proof fn lemma_concat_step<V>(s: Seq<V>, f: spec_fn(V) -> Seq<char>, i: int)
    requires
        0 <= i < s.len(),
    ensures
        concat_entries(s.subrange(0, i + 1), f) == concat_entries(s.subrange(0, i), f) + f(s[i]),
{
    let t = s.subrange(0, i + 1);
    assert(t.drop_last() =~= s.subrange(0, i));
}

/// The rule `.{name} { ... }` of the base declarations, when there are any.
pub open spec fn base_rule(name: Seq<char>, ds: Seq<DeclView>, indent: Seq<char>) -> Seq<char> {
    if ds.len() == 0 {
        seq![]
    } else {
        "."@ + name + " {\n"@ + decl_lines(ds, indent) + "}\n"@
    }
}

/// The selector of the class `name` under a pseudo-class: a parameterized
/// selector appended, ` > *` and ` *` for `*` and `**` (when `stars`), or
/// `:` and the CSS pseudo-class.
pub open spec fn pseudo_selector(name: Seq<char>, pseudo: Seq<char>, stars: bool) -> Seq<char> {
    match parameterized_spec(pseudo) {
        Some(p) => "."@ + name + p,
        None => if stars && pseudo == "*"@ {
            "."@ + name + " > *"@
        } else if stars && pseudo == "**"@ {
            "."@ + name + " *"@
        } else {
            "."@ + name + ":"@ + pseudo_class_spec(pseudo)
        },
    }
}

fn pseudo_selector_of(name: &str, pseudo: &str, stars: bool) -> (r: String)
    ensures
        r@ == pseudo_selector(name@, pseudo@, stars),
{
    match parameterized_selector(pseudo) {
        Some(p) => cat3(".", name, p.as_str()),
        None => if stars && str_eq(pseudo, "*") {
            cat3(".", name, " > *")
        } else if stars && str_eq(pseudo, "**") {
            cat3(".", name, " *")
        } else {
            let c = pseudo_class_selector(pseudo);
            let head = cat3(".", name, ":");
            cat2(head.as_str(), c.as_str())
        },
    }
}

/// A rule: `\n{outer}{selector} {`, the declarations one level in, and `{outer}}`.
pub open spec fn plain_rule(outer: Seq<char>, selector: Seq<char>, ds: Seq<DeclView>, inner: Seq<char>) -> Seq<char> {
    "\n"@ + outer + selector + " {\n"@ + decl_lines(ds, inner) + outer + "}\n"@
}

/// A rule inside an at-rule: `\n{outer}{at} {`, then `{outer}{indent}{selector} {`,
/// the declarations, and both closed.
pub open spec fn wrapped_rule(outer: Seq<char>, at: Seq<char>, indent: Seq<char>, selector: Seq<char>, ds: Seq<DeclView>) -> Seq<char> {
    "\n"@ + outer + at + " {\n"@ + outer + indent + selector + " {\n"@ + decl_lines(ds, outer + indent + indent)
        + outer + indent + "}\n"@ + outer + "}\n"@
}

fn push_plain_rule(css: &mut String, outer: &str, selector: &str, ds: &Vec<Declaration>, inner: &str)
    ensures
        final(css)@ == old(css)@ + plain_rule(outer@, selector@, decls_view(ds@), inner@),
{
    push_str(css, "\n");
    push_str(css, outer);
    push_str(css, selector);
    push_str(css, " {\n");
    push_decl_lines(css, ds, inner);
    push_str(css, outer);
    push_str(css, "}\n");
    assert(css@ =~= old(css)@ + plain_rule(outer@, selector@, decls_view(ds@), inner@));
}

fn push_wrapped_rule(css: &mut String, outer: &str, at: &str, indent: &str, selector: &str, ds: &Vec<Declaration>)
    ensures
        final(css)@ == old(css)@ + wrapped_rule(outer@, at@, indent@, selector@, decls_view(ds@)),
{
    push_str(css, "\n");
    push_str(css, outer);
    push_str(css, at);
    push_str(css, " {\n");
    push_str(css, outer);
    push_str(css, indent);
    push_str(css, selector);
    push_str(css, " {\n");
    let two = cat3(outer, indent, indent);
    push_decl_lines(css, ds, two.as_str());
    push_str(css, outer);
    push_str(css, indent);
    push_str(css, "}\n");
    push_str(css, outer);
    push_str(css, "}\n");
    assert(css@ =~= old(css)@ + wrapped_rule(outer@, at@, indent@, selector@, decls_view(ds@)));
}

/// The rule of a pseudo-class entry (nothing when it has no declarations):
/// inside its at-rule when it has one (`hover` is wrapped in a media query).
/// `outer` is the indentation of the enclosing block; `stars` admits `*` and `**`.
pub open spec fn pseudo_class_rule(
    name: Seq<char>,
    pseudo: Seq<char>,
    ds: Seq<DeclView>,
    indent: Seq<char>,
    outer: Seq<char>,
    stars: bool,
) -> Seq<char> {
    if ds.len() == 0 {
        seq![]
    } else {
        let sel = pseudo_selector(name, pseudo, stars);
        match pseudo_class_at_rule_spec(pseudo) {
            Some(at) => wrapped_rule(outer, at, indent, sel, ds),
            None => plain_rule(outer, sel, ds, outer + indent),
        }
    }
}

fn push_pseudo_class_rule(css: &mut String, name: &str, pseudo: &str, ds: &Vec<Declaration>, indent: &str, outer: &str, stars: bool)
    ensures
        final(css)@ == old(css)@ + pseudo_class_rule(name@, pseudo@, decls_view(ds@), indent@, outer@, stars),
{
    if ds.len() == 0 {
        assert(css@ =~= old(css)@ + Seq::<char>::empty());
        return;
    }
    let sel = pseudo_selector_of(name, pseudo, stars);
    match pseudo_class_at_rule(pseudo) {
        Some(at) => push_wrapped_rule(css, outer, at, indent, sel.as_str(), ds),
        None => {
            let inner = cat2(outer, indent);
            push_plain_rule(css, outer, sel.as_str(), ds, inner.as_str());
        },
    }
}

/// The rules of a pseudo-element entry (nothing when it has no declarations):
/// `marker` styles the element's own marker and its children's.
pub open spec fn pseudo_element_rule(name: Seq<char>, pseudo: Seq<char>, ds: Seq<DeclView>, indent: Seq<char>) -> Seq<char> {
    if ds.len() == 0 {
        seq![]
    } else if pseudo == "marker"@ {
        plain_rule(seq![], "."@ + name + "::marker"@, ds, indent) + plain_rule(seq![], "."@ + name + " *::marker"@, ds, indent)
    } else {
        plain_rule(seq![], "."@ + name + "::"@ + pseudo_element_spec(pseudo), ds, indent)
    }
}

fn push_pseudo_element_rule(css: &mut String, name: &str, pseudo: &str, ds: &Vec<Declaration>, indent: &str)
    ensures
        final(css)@ == old(css)@ + pseudo_element_rule(name@, pseudo@, decls_view(ds@), indent@),
{
    if ds.len() == 0 {
        assert(css@ =~= old(css)@ + Seq::<char>::empty());
        return;
    }
    let class_sel = cat2(".", name);
    if str_eq(pseudo, "marker") {
        let sels = marker_selectors(class_sel.as_str());
        push_plain_rule(css, "", sels[0].as_str(), ds, indent);
        push_plain_rule(css, "", sels[1].as_str(), ds, indent);
        proof {
            reveal_strlit("");
        }
        assert(css@ =~= old(css)@ + pseudo_element_rule(name@, pseudo@, decls_view(ds@), indent@));
    } else {
        let p = pseudo_element_selector(pseudo);
        let sel = cat3(class_sel.as_str(), "::", p.as_str());
        push_plain_rule(css, "", sel.as_str(), ds, indent);
        proof {
            reveal_strlit("");
        }
        assert(css@ =~= old(css)@ + pseudo_element_rule(name@, pseudo@, decls_view(ds@), indent@));
    }
}

/// The at-rule of a breakpoint: a container query for `@name`, else a media query.
pub open spec fn breakpoint_at_rule(size: Seq<char>) -> Option<Seq<char>> {
    if size.len() > 0 && size[0] == '@' {
        container_at_rule_spec(size)
    } else {
        responsive_at_rule_spec(size)
    }
}

fn breakpoint_at_rule_of(size: &str) -> (r: Option<String>)
    ensures
        opt_string_view(r) == breakpoint_at_rule(size@),
{
    let v = chars_of(size);
    if v.len() > 0 && v[0] == '@' {
        container_at_rule(size)
    } else {
        responsive_at_rule(size)
    }
}

/// The block of a breakpoint's group (nothing for an unknown breakpoint): its
/// base rule and pseudo-class rules one level in.
pub open spec fn responsive_rule(name: Seq<char>, size: Seq<char>, g: RuleGroup, indent: Seq<char>) -> Seq<char> {
    match breakpoint_at_rule(size) {
        None => seq![],
        Some(at) => "\n"@ + at + " {\n"@ + nested_base_rule(name, g, indent) + concat_entries(
            g.pseudo_classes@,
            |e: (Seq<char>, Seq<DeclView>)| pseudo_class_rule(name, e.0, e.1, indent, indent, false),
        ) + "}\n"@,
    }
}

/// The base rule of a breakpoint's group, one level in (nothing when it is empty).
pub open spec fn nested_base_rule(name: Seq<char>, g: RuleGroup, indent: Seq<char>) -> Seq<char> {
    if g.base@.len() == 0 {
        seq![]
    } else {
        indent + "."@ + name + " {\n"@ + decl_lines(decls_view(g.base@), indent + indent) + indent + "}\n"@
    }
}

fn push_nested_base_rule(css: &mut String, name: &str, g: &RuleGroup, indent: &str)
    ensures
        final(css)@ == old(css)@ + nested_base_rule(name@, *g, indent@),
{
    if g.base.len() > 0 {
        push_str(css, indent);
        push_str(css, ".");
        push_str(css, name);
        push_str(css, " {\n");
        let two = cat2(indent, indent);
        push_decl_lines(css, &g.base, two.as_str());
        push_str(css, indent);
        push_str(css, "}\n");
        assert(css@ =~= old(css)@ + nested_base_rule(name@, *g, indent@));
    } else {
        assert(css@ =~= old(css)@ + nested_base_rule(name@, *g, indent@));
    }
}

fn push_nested_pseudo_rules(css: &mut String, name: &str, map: &DeclMap, indent: &str)
    ensures
        final(css)@ == old(css)@ + concat_entries(map@, |e: (Seq<char>, Seq<DeclView>)| pseudo_class_rule(name@, e.0, e.1, indent@, indent@, false)),
{
    let ghost f = |e: (Seq<char>, Seq<DeclView>)| pseudo_class_rule(name@, e.0, e.1, indent@, indent@, false);
    let mut i: usize = 0;
    assert(map@.subrange(0, 0) =~= Seq::<(Seq<char>, Seq<DeclView>)>::empty());
    assert(old(css)@ + Seq::<char>::empty() =~= old(css)@);
    while i < map.len()
        invariant
            f == (|e: (Seq<char>, Seq<DeclView>)| pseudo_class_rule(name@, e.0, e.1, indent@, indent@, false)),
            i <= map@.len(),
            css@ == old(css)@ + concat_entries(map@.subrange(0, i as int), f),
        decreases map@.len() - i,
    {
        let (pseudo, ds) = map.entry(i);
        push_pseudo_class_rule(css, name, pseudo, ds, indent, indent, false);
        proof {
            lemma_concat_step(map@, f, i as int);
            assert(f(map@[i as int]) == pseudo_class_rule(name@, pseudo@, decls_view(ds@), indent@, indent@, false));
            assert(css@ =~= old(css)@ + concat_entries(map@.subrange(0, i + 1), f));
        }
        i = i + 1;
    }
    assert(map@.subrange(0, map@.len() as int) =~= map@);
}

fn push_responsive_rule(css: &mut String, name: &str, size: &str, g: &RuleGroup, indent: &str)
    ensures
        final(css)@ == old(css)@ + responsive_rule(name@, size@, *g, indent@),
{
    let at = match breakpoint_at_rule_of(size) {
        Some(a) => a,
        None => {
            assert(css@ =~= old(css)@ + Seq::<char>::empty());
            return;
        },
    };
    push_str(css, "\n");
    push_str(css, at.as_str());
    push_str(css, " {\n");
    push_nested_base_rule(css, name, g, indent);
    push_nested_pseudo_rules(css, name, &g.pseudo_classes, indent);
    push_str(css, "}\n");
    assert(css@ =~= old(css)@ + responsive_rule(name@, size@, *g, indent@));
}

/// The block of a state's group (nothing when its base is empty): inside
/// `@supports`, `@starting-style` or the state's media query, or under the
/// state's selector.
pub open spec fn state_rule(name: Seq<char>, state: Seq<char>, g: RuleGroup, indent: Seq<char>) -> Seq<char> {
    let ds = decls_view(g.base@);
    let class_sel = "."@ + name;
    if ds.len() == 0 {
        seq![]
    } else {
        match supports_at_rule_spec(state) {
            Some(at) => wrapped_rule(seq![], at, indent, class_sel, ds),
            None => if state == "starting"@ {
                wrapped_rule(seq![], "@starting-style"@, indent, class_sel, ds)
            } else {
                match resolve_state_spec(state, class_sel) {
                    StateModel::Selector(sel) => plain_rule(seq![], sel, ds, indent),
                    StateModel::AtRule(rule) => wrapped_rule(seq![], rule, indent, class_sel, ds),
                }
            },
        }
    }
}

fn push_state_rule(css: &mut String, name: &str, state: &str, g: &RuleGroup, indent: &str)
    ensures
        final(css)@ == old(css)@ + state_rule(name@, state@, *g, indent@),
{
    proof {
        reveal_strlit("");
    }
    if g.base.len() == 0 {
        assert(css@ =~= old(css)@ + Seq::<char>::empty());
        return;
    }
    let class_sel = cat2(".", name);
    match supports_at_rule(state) {
        Some(at) => push_wrapped_rule(css, "", at.as_str(), indent, class_sel.as_str(), &g.base),
        None => if str_eq(state, "starting") {
            push_wrapped_rule(css, "", "@starting-style", indent, class_sel.as_str(), &g.base)
        } else {
            match resolve_state(state, class_sel.as_str()) {
                StateResolution::Selector(sel) => push_plain_rule(css, "", sel.as_str(), &g.base, indent),
                StateResolution::AtRule(rule) => push_wrapped_rule(css, "", rule.as_str(), indent, class_sel.as_str(), &g.base),
            }
        },
    }
}

/// The CSS of a group's modifiers for the class `name`: the rules of the
/// pseudo-classes, pseudo-elements, breakpoints and states in the order their
/// keys were first written.
pub open spec fn modifier_css(name: Seq<char>, g: RuleGroup, indent: Seq<char>) -> Seq<char> {
    concat_entries(g.pseudo_classes@, |e: (Seq<char>, Seq<DeclView>)| pseudo_class_rule(name, e.0, e.1, indent, seq![], true))
        + concat_entries(g.pseudo_elements@, |e: (Seq<char>, Seq<DeclView>)| pseudo_element_rule(name, e.0, e.1, indent))
        + concat_entries(g.responsive@, |e: (Seq<char>, RuleGroup)| responsive_rule(name, e.0, e.1, indent))
        + concat_entries(g.states@, |e: (Seq<char>, RuleGroup)| state_rule(name, e.0, e.1, indent))
}

/// The CSS of a group for the class `name`: the base rule, then the rules of
/// its modifiers.
pub open spec fn group_css(name: Seq<char>, g: RuleGroup, indent: Seq<char>) -> Seq<char> {
    base_rule(name, decls_view(g.base@), indent) + modifier_css(name, g, indent)
}

fn push_pseudo_class_rules(css: &mut String, name: &str, map: &DeclMap, indent: &str)
    ensures
        final(css)@ == old(css)@ + concat_entries(map@, |e: (Seq<char>, Seq<DeclView>)| pseudo_class_rule(name@, e.0, e.1, indent@, seq![], true)),
{
    let ghost f = |e: (Seq<char>, Seq<DeclView>)| pseudo_class_rule(name@, e.0, e.1, indent@, seq![], true);
    let mut i: usize = 0;
    assert(map@.subrange(0, 0) =~= Seq::<(Seq<char>, Seq<DeclView>)>::empty());
    assert(old(css)@ + Seq::<char>::empty() =~= old(css)@);
    while i < map.len()
        invariant
            f == (|e: (Seq<char>, Seq<DeclView>)| pseudo_class_rule(name@, e.0, e.1, indent@, seq![], true)),
            i <= map@.len(),
            css@ == old(css)@ + concat_entries(map@.subrange(0, i as int), f),
        decreases map@.len() - i,
    {
        let (pseudo, ds) = map.entry(i);
        proof {
            reveal_strlit("");
        }
        push_pseudo_class_rule(css, name, pseudo, ds, indent, "", true);
        proof {
            lemma_concat_step(map@, f, i as int);
            assert(f(map@[i as int]) == pseudo_class_rule(name@, pseudo@, decls_view(ds@), indent@, seq![], true));
            assert(css@ =~= old(css)@ + concat_entries(map@.subrange(0, i + 1), f));
        }
        i = i + 1;
    }
    assert(map@.subrange(0, map@.len() as int) =~= map@);
}

fn push_element_rules(css: &mut String, name: &str, map: &DeclMap, indent: &str)
    ensures
        final(css)@ == old(css)@ + concat_entries(map@, |e: (Seq<char>, Seq<DeclView>)| pseudo_element_rule(name@, e.0, e.1, indent@)),
{
    let ghost f = |e: (Seq<char>, Seq<DeclView>)| pseudo_element_rule(name@, e.0, e.1, indent@);
    let mut i: usize = 0;
    assert(map@.subrange(0, 0) =~= Seq::<(Seq<char>, Seq<DeclView>)>::empty());
    assert(old(css)@ + Seq::<char>::empty() =~= old(css)@);
    while i < map.len()
        invariant
            f == (|e: (Seq<char>, Seq<DeclView>)| pseudo_element_rule(name@, e.0, e.1, indent@)),
            i <= map@.len(),
            css@ == old(css)@ + concat_entries(map@.subrange(0, i as int), f),
        decreases map@.len() - i,
    {
        let (pseudo, ds) = map.entry(i);
        push_pseudo_element_rule(css, name, pseudo, ds, indent);
        proof {
            lemma_concat_step(map@, f, i as int);
            assert(f(map@[i as int]) == pseudo_element_rule(name@, pseudo@, decls_view(ds@), indent@));
            assert(css@ =~= old(css)@ + concat_entries(map@.subrange(0, i + 1), f));
        }
        i = i + 1;
    }
    assert(map@.subrange(0, map@.len() as int) =~= map@);
}

fn push_group_rules(css: &mut String, name: &str, map: &GroupMap, indent: &str, states: bool)
    ensures
        !states ==> final(css)@ == old(css)@ + concat_entries(map@, |e: (Seq<char>, RuleGroup)| responsive_rule(name@, e.0, e.1, indent@)),
        states ==> final(css)@ == old(css)@ + concat_entries(map@, |e: (Seq<char>, RuleGroup)| state_rule(name@, e.0, e.1, indent@)),
{
    let ghost f0 = |e: (Seq<char>, RuleGroup)| responsive_rule(name@, e.0, e.1, indent@);
    let ghost f1 = |e: (Seq<char>, RuleGroup)| state_rule(name@, e.0, e.1, indent@);
    let mut i: usize = 0;
    assert(map@.subrange(0, 0) =~= Seq::<(Seq<char>, RuleGroup)>::empty());
    assert(old(css)@ + Seq::<char>::empty() =~= old(css)@);
    while i < map.len()
        invariant
            f0 == (|e: (Seq<char>, RuleGroup)| responsive_rule(name@, e.0, e.1, indent@)),
            f1 == (|e: (Seq<char>, RuleGroup)| state_rule(name@, e.0, e.1, indent@)),
            i <= map@.len(),
            !states ==> css@ == old(css)@ + concat_entries(map@.subrange(0, i as int), f0),
            states ==> css@ == old(css)@ + concat_entries(map@.subrange(0, i as int), f1),
        decreases map@.len() - i,
    {
        let (key, g) = map.entry(i);
        if states {
            push_state_rule(css, name, key, g, indent);
        } else {
            push_responsive_rule(css, name, key, g, indent);
        }
        proof {
            lemma_concat_step(map@, f0, i as int);
            lemma_concat_step(map@, f1, i as int);
            assert(f0(map@[i as int]) == responsive_rule(name@, key@, *g, indent@));
            assert(f1(map@[i as int]) == state_rule(name@, key@, *g, indent@));
            if states {
                assert(css@ =~= old(css)@ + concat_entries(map@.subrange(0, i + 1), f1));
            } else {
                assert(css@ =~= old(css)@ + concat_entries(map@.subrange(0, i + 1), f0));
            }
        }
        i = i + 1;
    }
    assert(map@.subrange(0, map@.len() as int) =~= map@);
}

/// Writes the rules of a group's modifiers.
fn push_modifier_rules(css: &mut String, name: &str, group: &RuleGroup, indent: &str)
    ensures
        final(css)@ == old(css)@ + modifier_css(name@, *group, indent@),
{
    push_pseudo_class_rules(css, name, &group.pseudo_classes, indent);
    push_element_rules(css, name, &group.pseudo_elements, indent);
    push_group_rules(css, name, &group.responsive, indent, false);
    push_group_rules(css, name, &group.states, indent, true);
    assert(css@ =~= old(css)@ + modifier_css(name@, *group, indent@));
}

impl Bundler {
    /// The CSS of a group for the class `class_name`, indented by `indent`.
    pub fn generate_css(&self, class_name: &str, group: &RuleGroup, indent: &str) -> (r: String)
        ensures
            r@ == group_css(class_name@, *group, indent@),
    {
        let mut css = String::new();
        if group.base.len() > 0 {
            push_str(&mut css, ".");
            push_str(&mut css, class_name);
            push_str(&mut css, " {\n");
            push_decl_lines(&mut css, &group.base, indent);
            push_str(&mut css, "}\n");
        }
        assert(css@ =~= base_rule(class_name@, decls_view(group.base@), indent@));
        push_modifier_rules(&mut css, class_name, group, indent);
        assert(css@ =~= group_css(class_name@, *group, indent@));
        css
    }

    /// The CSS of a group with its base rule already rendered as `base_css`
    /// (used when the group has base declarations; its error is passed on),
    /// then the rules of its modifiers exactly as `generate_css` writes them.
    pub fn generate_css_hybrid(
        &self,
        class_name: &str,
        group: &RuleGroup,
        indent: &str,
        base_css: Result<String, String>,
    ) -> (r: Result<String, String>)
        ensures
            group.base@.len() > 0 ==> match base_css {
                Ok(b) => (r matches Ok(s) && s@ == b@ + modifier_css(class_name@, *group, indent@)),
                Err(e) => (r matches Err(f) && f@ == e@),
            },
            group.base@.len() == 0 ==> (r matches Ok(s) && s@ == modifier_css(class_name@, *group, indent@)
                && s@ == group_css(class_name@, *group, indent@)),
    {
        let mut css = String::new();
        if group.base.len() > 0 {
            match base_css {
                Ok(b) => css = b,
                Err(e) => return Err(e),
            }
        }
        let ghost start = css@;
        push_modifier_rules(&mut css, class_name, group, indent);
        assert(css@ =~= start + modifier_css(class_name@, *group, indent@));
        if group.base.len() == 0 {
            assert(group_css(class_name@, *group, indent@) =~= modifier_css(class_name@, *group, indent@));
        }
        Ok(css)
    }
}


// ── Contexts, recognition and theme variables ───────────────────────────────

/// The declarations that the classes `cs` write under the modifier prefix
/// `raw`, in order.
pub open spec fn prefix_collected(cv: Converter, cs: Seq<ClassModel>, raw: Seq<char>) -> Seq<DeclView>
    decreases cs.len(),
{
    if cs.len() == 0 {
        seq![]
    } else {
        let c = cs.last();
        let rest = prefix_collected(cv, cs.drop_last(), raw);
        match class_decls(cv, c) {
            Some(ds) => if c.raw_modifiers == raw {
                rest + ds
            } else {
                rest
            },
            None => rest,
        }
    }
}

/// Whether `var(--` starts at `i` in `s`.
pub open spec fn var_at(s: Seq<char>, i: int) -> bool {
    0 <= i && i + 6 <= s.len() && s[i] == 'v' && s[i + 1] == 'a' && s[i + 2] == 'r' && s[i + 3] == '('
        && s[i + 4] == '-' && s[i + 5] == '-'
}

/// The first position at or after `from` where `var(--` starts, or `-1`.
pub open spec fn find_var(s: Seq<char>, from: int) -> int
    decreases s.len() - from,
{
    if from < 0 || from + 6 > s.len() {
        -1
    } else if var_at(s, from) {
        from
    } else {
        find_var(s, from + 1)
    }
}

pub proof fn lemma_find_var(s: Seq<char>, from: int)
    requires
        0 <= from,
    ensures
        find_var(s, from) == -1 || (from <= find_var(s, from) && var_at(s, find_var(s, from))),
        find_var(s, from) == -1 ==> forall|j: int| from <= j ==> !var_at(s, j),
        find_var(s, from) >= 0 ==> forall|j: int| from <= j < find_var(s, from) ==> !var_at(s, j),
    decreases s.len() - from,
{
    if from + 6 <= s.len() && !var_at(s, from) {
        lemma_find_var(s, from + 1);
    }
}

/// The variable names that `css` refers to with `var(--name)`, in order: for
/// each `var(--`, the text from its `--` to the next `)`; a `var(--` inside
/// another's fallback counts too.
pub open spec fn var_refs_from(s: Seq<char>, from: int) -> Seq<Seq<char>>
    decreases s.len() - from,
{
    if from < 0 {
        seq![]
    } else {
        let p = find_var(s, from);
        if p < 0 {
            seq![]
        } else {
            let a = p + 4;
            let e = crate::text::index_of_from(s, ')', a);
            proof {
                lemma_find_var(s, from);
                crate::text::lemma_index_of_from_spec(s, ')', a);
            }
            if e >= s.len() {
                seq![]
            } else {
                seq![s.subrange(a, e)] + var_refs_from(s, a)
            }
        }
    }
}

fn find_var_in(v: &Vec<char>, from: usize) -> (r: usize)
    requires
        from <= v@.len(),
    ensures
        r <= v@.len(),
        r == v@.len() ==> find_var(v@, from as int) == -1,
        r < v@.len() ==> r == find_var(v@, from as int) && var_at(v@, r as int),
{
    let n = v.len();
    let mut p = from;
    while p < n && n - p >= 6
        invariant
            from <= p <= n == v@.len(),
            forall|j: int| from <= j < p ==> !var_at(v@, j),
        decreases n - p,
    {
        if v[p] == 'v' && v[p + 1] == 'a' && v[p + 2] == 'r' && v[p + 3] == '(' && v[p + 4] == '-' && v[p + 5] == '-' {
            proof {
                lemma_find_var(v@, from as int);
                assert(var_at(v@, p as int));
                let q = find_var(v@, from as int);
                if q >= 0 && q < p {
                    assert(!var_at(v@, q));
                }
            }
            return p;
        }
        p = p + 1;
    }
    proof {
        lemma_find_var(v@, from as int);
        let q = find_var(v@, from as int);
        if q >= 0 {
            assert(!var_at(v@, q));
        }
    }
    n
}

/// The variable names that `css` refers to with `var(--name)`.
pub fn extract_var_references(css: &str) -> (r: Vec<String>)
    ensures
        strictly_sorted(strings_view(r@)),
        strings_view(r@).to_set() == var_refs_from(css@, 0).to_set(),
{
    let v = chars_of(css);
    let n = v.len();
    let mut refs: Vec<String> = Vec::new();
    let mut from: usize = 0;
    assert(strings_view(refs@).to_set() =~= Set::<Seq<char>>::empty());
    assert(var_refs_from(v@, 0).to_set() =~= Set::<Seq<char>>::empty().union(var_refs_from(v@, 0).to_set()));
    loop
        invariant
            from <= n == v@.len(),
            v@ == css@,
            strictly_sorted(strings_view(refs@)),
            var_refs_from(v@, 0).to_set() == strings_view(refs@).to_set().union(var_refs_from(v@, from as int).to_set()),
        decreases n - from,
    {
        let ghost s = v@;
        proof {
            lemma_find_var(s, from as int);
        }
        let p = find_var_in(&v, from);
        if p == n {
            proof {
                assert(var_refs_from(s, from as int) =~= Seq::<Seq<char>>::empty());
                assert(var_refs_from(s, from as int).to_set() =~= Set::<Seq<char>>::empty());
                assert(strings_view(refs@).to_set().union(Set::<Seq<char>>::empty()) =~= strings_view(refs@).to_set());
            }
            return refs;
        }
        let a = p + 4;
        let e = crate::text::index_of_from_vec(&v, ')', a);
        if e >= n {
            proof {
                assert(var_refs_from(s, from as int) =~= Seq::<Seq<char>>::empty());
                assert(var_refs_from(s, from as int).to_set() =~= Set::<Seq<char>>::empty());
                assert(strings_view(refs@).to_set().union(Set::<Seq<char>>::empty()) =~= strings_view(refs@).to_set());
            }
            return refs;
        }
        let name = crate::text::string_of_chars(&v, a, e);
        let ghost before = strings_view(refs@).to_set();
        let ghost rest = var_refs_from(s, a as int);
        proof {
            assert(var_refs_from(s, from as int) == seq![name@] + rest);
            assert((seq![name@] + rest).to_set() =~= rest.to_set().insert(name@)) by {
                assert forall|x: Seq<char>| (seq![name@] + rest).to_set().contains(x) <==> rest.to_set().insert(name@).contains(x) by {
                    if (seq![name@] + rest).contains(x) {
                        let w = choose|w: int| 0 <= w < (seq![name@] + rest).len() && #[trigger] (seq![name@] + rest)[w] == x;
                        if w > 0 {
                            assert(rest[w - 1] == x);
                        }
                    }
                    if rest.contains(x) {
                        let w = choose|w: int| 0 <= w < rest.len() && #[trigger] rest[w] == x;
                        assert((seq![name@] + rest)[w + 1] == x);
                    }
                    if x == name@ {
                        assert((seq![name@] + rest)[0] == x);
                    }
                }
            }
        }
        sorted_insert(&mut refs, name);
        assert(var_refs_from(v@, 0).to_set() =~= strings_view(refs@).to_set().union(var_refs_from(v@, a as int).to_set()));
        from = a;
    }
}

/// The value of a theme variable that the bundler's output can refer to:
/// `--text-{size}` and its `--line-height`, `--font-{family}`, `--blur-{size}`
/// and `--aspect-video`.
pub open spec fn theme_variable(name: Seq<char>) -> Option<Seq<char>> {
    if is_prefix("--text-"@, name) {
        let size = after_prefix("--text-"@, name);
        if is_suffix("--line-height"@, size) {
            text_line_height_spec(before_suffix("--line-height"@, size))
        } else {
            text_size_spec(size)
        }
    } else if is_prefix("--font-"@, name) {
        font_family_spec(after_prefix("--font-"@, name))
    } else if is_prefix("--blur-"@, name) {
        blur_size_spec(after_prefix("--blur-"@, name))
    } else if name == "--aspect-video"@ {
        Some("16 / 9"@)
    } else {
        None
    }
}

/// The value of a theme variable, such as `--text-3xl` → `1.875rem`.
pub fn resolve_theme_variable(var_name: &str) -> (r: Option<String>)
    ensures
        opt_string_view(r) == theme_variable(var_name@),
{
    let found: Option<&'static str> = if let Some(size) = strip_prefix(var_name, "--text-") {
        if let Some(lh) = strip_suffix(size, "--line-height") {
            text_line_height(lh)
        } else {
            text_size(size)
        }
    } else if let Some(family) = strip_prefix(var_name, "--font-") {
        font_family(family)
    } else if let Some(size) = strip_prefix(var_name, "--blur-") {
        blur_size(size)
    } else if str_eq(var_name, "--aspect-video") {
        Some("16 / 9")
    } else {
        None
    };
    match found {
        Some(v) => Some(owned(v)),
        None => None,
    }
}

/// The definition lines `  {name}: {value};` of the names that are theme variables.
pub open spec fn root_lines(order: Seq<Seq<char>>) -> Seq<char> {
    concat_entries(order, |k: Seq<char>| match theme_variable(k) {
        Some(v) => "  "@ + k + ": "@ + v + ";\n"@,
        None => seq![],
    })
}

/// The `:root` block that defines the theme variables among the names, or
/// nothing when none is one.
pub open spec fn root_block(order: Seq<Seq<char>>) -> Seq<char> {
    if root_lines(order).len() == 0 {
        seq![]
    } else {
        ":root {\n"@ + root_lines(order) + "}"@
    }
}

impl Bundler {
    /// Bundles classes into a context for the class `class_name`: each
    /// modifier prefix holds, in order, the declarations of the classes
    /// written with it.
    pub fn bundle_to_context(&self, class_name: &str, classes: &str) -> (r: Result<ClassContext, String>)
        ensures
            match r {
                Ok(ctx) => ctx.name() == class_name@ && match parse_all(ws_tokens(classes@)) {
                    Ok(cs) => forall|raw: Seq<char>| #[trigger] decls_under(ctx.entries(), raw) == prefix_collected(self.config(), cs, raw),
                    Err(_) => false,
                },
                Err(e) => match parse_all(ws_tokens(classes@)) {
                    Ok(_) => false,
                    Err(pe) => e@ == parse_failure(pe),
                },
            },
    {
        let mut context = ClassContext::new(owned(class_name));
        let parsed_list = match parse_classes(classes) {
            Ok(v) => v,
            Err(e) => {
                let d = e.debug_text();
                return Err(cat2("解析失败: ", d.as_str()));
            },
        };
        let ghost cs = classes_view(parsed_list@);
        let mut i: usize = 0;
        assert forall|raw: Seq<char>| #[trigger] decls_under(context.entries(), raw) == prefix_collected(self.converter, cs.subrange(0, 0), raw) by {
            assert(decls_under(context.entries(), raw) =~= Seq::<DeclView>::empty());
        }
        while i < parsed_list.len()
            invariant
                i <= parsed_list@.len(),
                cs == classes_view(parsed_list@),
                context.name() == class_name@,
                forall|raw: Seq<char>| #[trigger] decls_under(context.entries(), raw) == prefix_collected(self.converter, cs.subrange(0, i as int), raw),
            decreases parsed_list@.len() - i,
        {
            let parsed = &parsed_list[i];
            let ghost prefix = cs.subrange(0, i + 1);
            proof {
                assert(prefix.drop_last() =~= cs.subrange(0, i as int));
                assert(prefix.last() == parsed@);
            }
            match self.converter.to_declarations(parsed) {
                Some(declarations) => {
                    let ghost e0 = context.entries();
                    let ghost ds = decls_view(declarations@);
                    context.write(parsed.raw_modifiers.as_str(), declarations);
                    assert forall|raw: Seq<char>| #[trigger] decls_under(context.entries(), raw) == prefix_collected(self.converter, prefix, raw) by {
                        lemma_appended_under(e0, parsed.raw_modifiers@, ds, raw);
                        assert(decls_under(e0, raw) == prefix_collected(self.converter, cs.subrange(0, i as int), raw));
                    }
                },
                None => {
                    assert forall|raw: Seq<char>| #[trigger] decls_under(context.entries(), raw) == prefix_collected(self.converter, prefix, raw) by {
                        assert(decls_under(context.entries(), raw) == prefix_collected(self.converter, cs.subrange(0, i as int), raw));
                    }
                },
            }
            i = i + 1;
        }
        proof {
            assert(cs.subrange(0, parsed_list@.len() as int) =~= cs);
        }
        Ok(context)
    }

    /// Whether one class parses and converts to declarations.
    pub fn is_recognized(&self, class: &str) -> (r: bool)
        ensures
            r == match parse_model(class@) {
                Ok(c) => class_decls(self.config(), c) is Some,
                Err(_) => false,
            },
    {
        match parse_class(class) {
            Ok(parsed) => self.converter.to_declarations(&parsed).is_some(),
            Err(_) => false,
        }
    }

    /// The CSS of the context that the classes bundle into.
    pub fn bundle_to_css(&self, class_name: &str, classes: &str, indent: &str) -> (r: Result<String, String>)
        ensures
            match r {
                Ok(css) => match parse_all(ws_tokens(classes@)) {
                    Ok(cs) => exists|entries: Seq<(Seq<char>, Seq<DeclView>)>, order: Seq<Seq<char>>|
                        #![trigger context_css(class_name@, entries, order, indent@)]
                        (forall|raw: Seq<char>| #[trigger] decls_under(entries, raw) == prefix_collected(self.config(), cs, raw))
                            && prefix_order(entries, order)
                            && css@ == context_css(class_name@, entries, order, indent@),
                    Err(_) => false,
                },
                Err(e) => match parse_all(ws_tokens(classes@)) {
                    Ok(_) => false,
                    Err(pe) => e@ == parse_failure(pe),
                },
            },
    {
        let context = match self.bundle_to_context(class_name, classes) {
            Ok(c) => c,
            Err(e) => return Err(e),
        };
        let css = context.to_css(indent);
        Ok(css)
    }

    /// The `:root` block that defines the theme variables that `css` refers to,
    /// in the order of their names.
    pub fn generate_root_css(&self, css: &str) -> (r: String)
        ensures
            exists|order: Seq<Seq<char>>| #![trigger root_block(order)]
                strictly_sorted(order) && order.to_set() == var_refs_from(css@, 0).to_set() && r@ == root_block(order),
    {
        let refs = extract_var_references(css);
        let ghost order = strings_view(refs@);
        let ghost f = |k: Seq<char>| match theme_variable(k) {
            Some(v) => "  "@ + k + ": "@ + v + ";\n"@,
            None => seq![],
        };
        let mut lines = String::new();
        let mut i: usize = 0;
        assert(order.subrange(0, 0) =~= Seq::<Seq<char>>::empty());
        while i < refs.len()
            invariant
                i <= refs@.len(),
                order == strings_view(refs@),
                f == (|k: Seq<char>| match theme_variable(k) {
                    Some(v) => "  "@ + k + ": "@ + v + ";\n"@,
                    None => seq![],
                }),
                lines@ == concat_entries(order.subrange(0, i as int), f),
            decreases refs@.len() - i,
        {
            let name = refs[i].as_str();
            let ghost before = lines@;
            if let Some(value) = resolve_theme_variable(name) {
                push_str(&mut lines, "  ");
                push_str(&mut lines, name);
                push_str(&mut lines, ": ");
                push_str(&mut lines, value.as_str());
                push_str(&mut lines, ";\n");
            }
            proof {
                lemma_concat_step(order, f, i as int);
                assert(lines@ =~= concat_entries(order.subrange(0, i + 1), f));
            }
            i = i + 1;
        }
        assert(order.subrange(0, refs@.len() as int) =~= order);
        assert(lines@ == root_lines(order));
        if lines.unicode_len() == 0 {
            let r = String::new();
            assert(r@ =~= root_block(order));
            return r;
        }
        let mut root_css = owned(":root {\n");
        push_str(&mut root_css, lines.as_str());
        push_str(&mut root_css, "}");
        assert(root_css@ =~= root_block(order));
        root_css
    }
}

impl Default for Bundler {
    fn default() -> (r: Self)
        ensures
            r.config().use_variables,
            r.config().color_mode == ColorMode::Hex,
            !r.config().use_color_mix,
    {
        Bundler::new()
    }
}

impl Default for RuleGroup {
    fn default() -> (r: Self)
        ensures
            is_empty_group(r),
    {
        RuleGroup::new()
    }
}
} // verus!
