//! Merging declarations so that each property appears once, the last value winning.
use vstd::prelude::*;
use indexmap::IndexMap;
use crate::types::{decls_view, DeclView, Declaration};

verus! {

#[verifier::external_type_specification]
#[verifier::external_body]
#[verifier::reject_recursive_types(K)]
#[verifier::reject_recursive_types(V)]
#[verifier::reject_recursive_types(S)]
pub struct ExIndexMap<K, V, S>(IndexMap<K, V, S>);

/// The entries of an insertion-ordered map of strings, in order.
pub uninterp spec fn ordered_entries(m: IndexMap<String, String>) -> Seq<(Seq<char>, Seq<char>)>;

/// The position of key `k` among `e`, or -1.
pub open spec fn key_position(e: Seq<(Seq<char>, Seq<char>)>, k: Seq<char>) -> int
    decreases e.len(),
{
    if e.len() == 0 {
        -1
    } else if e.last().0 == k {
        e.len() - 1
    } else {
        key_position(e.drop_last(), k)
    }
}

/// What inserting `(k, v)` does to the entries of an insertion-ordered map: an
/// existing key keeps its place and takes the new value; a new key goes last.
pub open spec fn entries_after_insert(
    e: Seq<(Seq<char>, Seq<char>)>,
    k: Seq<char>,
    v: Seq<char>,
) -> Seq<(Seq<char>, Seq<char>)> {
    let i = key_position(e, k);
    if i >= 0 {
        e.update(i, (k, v))
    } else {
        e.push((k, v))
    }
}

/// `IndexMap::new`: an empty map.
#[verifier::external_body]
pub(crate) fn ordered_map_new() -> (m: IndexMap<String, String>)
    ensures
        ordered_entries(m) == Seq::<(Seq<char>, Seq<char>)>::empty(),
{
    IndexMap::new()
}

/// `IndexMap::insert`: when the key is present, its entry keeps its place and
/// takes the new value, and the old value is returned; otherwise the entry is
/// appended and `None` is returned.
#[verifier::external_body]
pub(crate) fn ordered_map_insert(m: &mut IndexMap<String, String>, k: String, v: String) -> (r: Option<String>)
    ensures
        ordered_entries(*final(m)) == entries_after_insert(ordered_entries(*old(m)), k@, v@),
        key_position(ordered_entries(*old(m)), k@) >= 0 <==> r is Some,
        r matches Some(x) ==> x@ == ordered_entries(*old(m))[key_position(ordered_entries(*old(m)), k@)].1,
{
    m.insert(k, v)
}

/// `IndexMap::into_iter`, collected: the entries in order.
#[verifier::external_body]
pub(crate) fn ordered_map_into_pairs(m: IndexMap<String, String>) -> (r: Vec<(String, String)>)
    ensures
        r@.map_values(|p: (String, String)| (p.0@, p.1@)) == ordered_entries(m),
{
    m.into_iter().collect()
}

/// `IndexMap::get`: the value stored under a key.
#[verifier::external_body]
pub(crate) fn ordered_map_get<'a>(m: &'a IndexMap<String, String>, k: &str) -> (r: Option<&'a String>)
    ensures
        r is Some <==> key_position(ordered_entries(*m), k@) >= 0,
        r matches Some(x) ==> x@ == ordered_entries(*m)[key_position(ordered_entries(*m), k@)].1,
{
    m.get(k)
}

/// The merged declarations of the first `k` of `d`: one entry per property,
/// in order of first appearance, holding the property's last value.
pub open spec fn merged(d: Seq<DeclView>, k: int) -> Seq<DeclView>
    decreases k,
{
    if k <= 0 {
        seq![]
    } else {
        entries_after_insert(merged(d, k - 1), d[k - 1].0, d[k - 1].1)
    }
}

/// What `merge_declarations` returns for `d`.
pub open spec fn merge_spec(d: Seq<DeclView>) -> Seq<DeclView> {
    merged(d, d.len() as int)
}

/// Merges declarations: a later declaration of a property overrides an earlier
/// one, and properties keep the order of their first appearance.
pub fn merge_declarations(decls: Vec<Declaration>) -> (r: Vec<Declaration>)
    ensures
        decls_view(r@) == merge_spec(decls_view(decls@)),
{
    let ghost d = decls_view(decls@);
    let mut map = ordered_map_new();
    let mut i: usize = 0;
    while i < decls.len()
        invariant
            i <= decls@.len(),
            d == decls_view(decls@),
            ordered_entries(map) == merged(d, i as int),
        decreases decls@.len() - i,
    {
        let decl = decls[i].duplicate();
        let _ = ordered_map_insert(&mut map, decl.property, decl.value);
        i = i + 1;
    }
    let pairs = ordered_map_into_pairs(map);
    let mut out: Vec<Declaration> = Vec::new();
    let mut j: usize = 0;
    let ghost pv = pairs@.map_values(|p: (String, String)| (p.0@, p.1@));
    while j < pairs.len()
        invariant
            j <= pairs@.len(),
            pv == pairs@.map_values(|p: (String, String)| (p.0@, p.1@)),
            pv == merged(d, decls@.len() as int),
            out@.len() == j,
            forall|t: int| 0 <= t < j ==> #[trigger] out@[t]@ == pv[t],
        decreases pairs@.len() - j,
    {
        let (p, v) = (pairs[j].0.clone(), pairs[j].1.clone());
        out.push(Declaration::from_parts(p, v));
        j = j + 1;
    }
    assert(decls_view(out@) =~= merge_spec(d));
    out
}

// ── Laws ────────────────────────────────────────────────────────────────────

/// Whether the properties of `e` are pairwise distinct.
pub open spec fn distinct_keys(e: Seq<DeclView>) -> bool {
    forall|i: int, j: int| 0 <= i < j < e.len() ==> e[i].0 != e[j].0
}

pub proof fn lemma_key_position(e: Seq<DeclView>, k: Seq<char>)
    ensures
        -1 <= key_position(e, k) < e.len(),
        key_position(e, k) >= 0 ==> e[key_position(e, k)].0 == k,
        key_position(e, k) < 0 ==> forall|i: int| 0 <= i < e.len() ==> e[i].0 != k,
    decreases e.len(),
{
    if e.len() > 0 && e.last().0 != k {
        lemma_key_position(e.drop_last(), k);
        if key_position(e, k) < 0 {
            assert forall|i: int| 0 <= i < e.len() implies e[i].0 != k by {
                if i < e.len() - 1 {
                    assert(e.drop_last()[i] == e[i]);
                }
            }
        }
    }
}

proof fn lemma_merged_facts(d: Seq<DeclView>, k: int)
    requires
        0 <= k <= d.len(),
    ensures
        distinct_keys(merged(d, k)),
        forall|j: int| 0 <= j < k ==> key_position(merged(d, k), #[trigger] d[j].0) >= 0,
        forall|i: int| #![trigger merged(d, k)[i]] 0 <= i < merged(d, k).len() ==> exists|j: int| 0 <= j < k && #[trigger] d[j].0 == merged(d, k)[i].0,
    decreases k,
{
    if k > 0 {
        lemma_merged_facts(d, k - 1);
        let e = merged(d, k - 1);
        let key = d[k - 1].0;
        lemma_key_position(e, key);
        let e2 = merged(d, k);
        assert forall|j: int| 0 <= j < k implies key_position(e2, #[trigger] d[j].0) >= 0 by {
            lemma_key_position(e2, d[j].0);
            if j < k - 1 {
                lemma_key_position(e, d[j].0);
                let p = key_position(e, d[j].0);
                assert(e2[p].0 == d[j].0);
            } else {
                if key_position(e, key) >= 0 {
                    assert(e2[key_position(e, key)].0 == key);
                } else {
                    assert(e2[e.len() as int].0 == key);
                }
            }
        }
        assert forall|i: int| #![trigger e2[i]] 0 <= i < e2.len() implies exists|j: int| 0 <= j < k && #[trigger] d[j].0 == e2[i].0 by {
            if i < e.len() {
                if e2[i].0 == e[i].0 {
                    let j = choose|j: int| 0 <= j < k - 1 && #[trigger] d[j].0 == e[i].0;
                    assert(d[j].0 == e2[i].0);
                } else {
                    assert(d[k - 1].0 == e2[i].0);
                }
            } else {
                assert(d[k - 1].0 == e2[i].0);
            }
        }
    }
}

/// Merging leaves each property at most once, and every property of the input
/// appears in the result.
pub proof fn law_merge_distinct(d: Seq<DeclView>)
    ensures
        distinct_keys(merge_spec(d)),
        forall|j: int| 0 <= j < d.len() ==> key_position(merge_spec(d), #[trigger] d[j].0) >= 0,
        forall|i: int| #![trigger merge_spec(d)[i]] 0 <= i < merge_spec(d).len() ==> exists|j: int| 0 <= j < d.len() && #[trigger] d[j].0 == merge_spec(d)[i].0,
{
    lemma_merged_facts(d, d.len() as int);
}

} // verus!
