//! Bundling a list of classes into one class name and its merged declarations.
use vstd::prelude::*;
use crate::index::TailwindIndex;
use crate::merge::{merge_declarations, merge_spec};
use crate::naming::{create_naming_strategy, name_for, naming_ok, NamingStrategy};
use crate::normalize::{
    all_tokens, lemma_lex_irreflexive, lemma_lex_transitive, normalize_classes, strictly_sorted,
};
use crate::shorthand::{optimize_shorthands, optimize_spec};
use crate::text::{cat2, strings_view};
use crate::types::{decls_view, BundleRequest, BundleResult, DeclView, Declaration, Diagnostic, DiagnosticLevel, NamingMode};

verus! {

/// Looking up the declarations of a class name.
pub trait TailwindIndexLookup {
    /// The declarations of a class name, if it is known.
    spec fn lookup_spec(&self, class: Seq<char>) -> Option<Seq<DeclView>>;

    fn lookup(&self, class: &str) -> (r: Option<&[Declaration]>)
        ensures
            r is Some <==> self.lookup_spec(class@) is Some,
            r matches Some(ds) ==> self.lookup_spec(class@) == Some(decls_view(ds@)),
    ;
}

impl TailwindIndexLookup for TailwindIndex {
    open spec fn lookup_spec(&self, class: Seq<char>) -> Option<Seq<DeclView>> {
        if self@.dom().contains(class) {
            Some(self@[class])
        } else {
            None
        }
    }

    fn lookup(&self, class: &str) -> (r: Option<&[Declaration]>) {
        TailwindIndex::lookup(self, class)
    }
}

/// The sorted, duplicate-free classes of a request.
pub open spec fn normalized_classes(classes: Seq<Seq<char>>) -> Seq<Seq<char>> {
    choose|s: Seq<Seq<char>>| strictly_sorted(s) && s.to_set() == all_tokens(classes)
}

/// The declarations that the first `k` classes of `n` have in the index, in order.
pub open spec fn found_decls<I: TailwindIndexLookup>(idx: I, n: Seq<Seq<char>>, k: int) -> Seq<DeclView>
    decreases k,
{
    if k <= 0 {
        seq![]
    } else {
        found_decls(idx, n, k - 1) + match idx.lookup_spec(n[k - 1]) {
            Some(ds) => ds,
            None => seq![],
        }
    }
}

/// The classes among the first `k` of `n` that the index does not know.
pub open spec fn unknown_classes<I: TailwindIndexLookup>(idx: I, n: Seq<Seq<char>>, k: int) -> Seq<Seq<char>>
    decreases k,
{
    if k <= 0 {
        seq![]
    } else {
        unknown_classes(idx, n, k - 1) + if idx.lookup_spec(n[k - 1]) is None {
            seq![n[k - 1]]
        } else {
            seq![]
        }
    }
}

proof fn lemma_sorted_unique(a: Seq<Seq<char>>, b: Seq<Seq<char>>)
    requires
        strictly_sorted(a),
        strictly_sorted(b),
        a.to_set() == b.to_set(),
    ensures
        a == b,
    decreases a.len(),
{
    if a.len() == 0 {
        if b.len() > 0 {
            assert(b.to_set().contains(b[0]));
        }
        assert(a =~= b);
    } else {
        assert(a.to_set().contains(a[0]));
        assert(b.contains(a[0]));
        let j = choose|j: int| 0 <= j < b.len() && b[j] == a[0];
        assert(b.to_set().contains(b[0]));
        assert(a.contains(b[0]));
        let i = choose|i: int| 0 <= i < a.len() && a[i] == b[0];
        if j > 0 {
            if i > 0 {
                lemma_lex_transitive(b[0], b[j], a[i]);
                lemma_lex_irreflexive(b[0]);
            } else {
                lemma_lex_irreflexive(b[0]);
            }
        }
        let ta = a.subrange(1, a.len() as int);
        let tb = b.subrange(1, b.len() as int);
        assert(strictly_sorted(ta));
        assert(strictly_sorted(tb));
        assert(ta.to_set() =~= tb.to_set()) by {
            assert forall|x: Seq<char>| ta.to_set().contains(x) <==> tb.to_set().contains(x) by {
                if ta.contains(x) {
                    let p = choose|p: int| 0 <= p < ta.len() && ta[p] == x;
                    assert(a[p + 1] == x);
                    assert(a.to_set().contains(x));
                    let q = choose|q: int| 0 <= q < b.len() && b[q] == x;
                    if q == 0 {
                        lemma_lex_irreflexive(a[0]);
                    } else {
                        assert(tb[q - 1] == x);
                    }
                }
                if tb.contains(x) {
                    let p = choose|p: int| 0 <= p < tb.len() && tb[p] == x;
                    assert(b[p + 1] == x);
                    assert(b.to_set().contains(x));
                    let q = choose|q: int| 0 <= q < a.len() && a[q] == x;
                    if q == 0 {
                        lemma_lex_irreflexive(b[0]);
                    } else {
                        assert(ta[q - 1] == x);
                    }
                }
            }
        }
        lemma_sorted_unique(ta, tb);
        assert(a =~= seq![a[0]] + ta);
        assert(b =~= seq![b[0]] + tb);
    }
}

/// Bundles classes into one class: normalizes the list, looks each class up,
/// merges the declarations found, folds shorthands, and names the result.
/// Classes the index does not know are listed as removed, each with a warning.
pub fn bundle<I: TailwindIndexLookup>(request: BundleRequest, tw_index: &I) -> (r: BundleResult)
    requires
        request.naming_mode != NamingMode::Semantic,
        naming_ok(request.naming_mode, normalized_classes(strings_view(request.classes@))),
    ensures
        ({
            let n = normalized_classes(strings_view(request.classes@));
            &&& r.new_class@ == name_for(request.naming_mode, n)
            &&& decls_view(r.css_declarations@) == optimize_spec(merge_spec(found_decls(*tw_index, n, n.len() as int)))
            &&& strings_view(r.removed@) == unknown_classes(*tw_index, n, n.len() as int)
            &&& r.diagnostics@.len() == r.removed@.len()
            &&& forall|i: int| 0 <= i < r.diagnostics@.len() ==> (#[trigger] r.diagnostics@[i]).level == DiagnosticLevel::Warning
                && r.diagnostics@[i].message@ == "Unknown class: "@ + r.removed@[i]@
        }),
{
    let normalized = normalize_classes(request.classes.as_slice());
    let ghost n = normalized_classes(strings_view(request.classes@));
    proof {
        let m = strings_view(normalized@);
        assert(strictly_sorted(m) && m.to_set() == all_tokens(strings_view(request.classes@)));
        lemma_sorted_unique(m, n);
    }
    let mut declarations: Vec<Declaration> = Vec::new();
    let mut removed: Vec<String> = Vec::new();
    let mut diagnostics: Vec<Diagnostic> = Vec::new();
    let mut i: usize = 0;
    while i < normalized.len()
        invariant
            i <= normalized@.len(),
            strings_view(normalized@) == n,
            decls_view(declarations@) == found_decls(*tw_index, n, i as int),
            strings_view(removed@) == unknown_classes(*tw_index, n, i as int),
            diagnostics@.len() == removed@.len(),
            forall|j: int| 0 <= j < diagnostics@.len() ==> (#[trigger] diagnostics@[j]).level == DiagnosticLevel::Warning
                && diagnostics@[j].message@ == "Unknown class: "@ + removed@[j]@,
        decreases normalized@.len() - i,
    {
        let class = normalized[i].as_str();
        assert(class@ == n[i as int]);
        match tw_index.lookup(class) {
            Some(decls) => {
                crate::types::extend_decls(&mut declarations, decls);
                assert(strings_view(removed@) =~= unknown_classes(*tw_index, n, i + 1));
            },
            None => {
                let ghost before = strings_view(removed@);
                removed.push(normalized[i].clone());
                diagnostics.push(Diagnostic::warning(cat2("Unknown class: ", class).as_str()));
                assert(strings_view(removed@) =~= before + seq![n[i as int]]);
                assert(decls_view(declarations@) =~= found_decls(*tw_index, n, i + 1));
            },
        }
        i = i + 1;
    }
    let merged = merge_declarations(declarations);
    let optimized = optimize_shorthands(merged);
    let naming = create_naming_strategy(request.naming_mode);
    let new_class = naming.generate_name(normalized.as_slice());
    BundleResult { new_class, css_declarations: optimized, removed, diagnostics }
}

} // verus!
