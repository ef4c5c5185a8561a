//! An index from class names to their CSS declarations.
use vstd::prelude::*;
use crate::types::{decls_view, duplicate_decls, DeclView, Declaration};

verus! {

/// The position of class `k` among `e`, or -1.
pub open spec fn entry_position(e: Seq<(String, Vec<Declaration>)>, k: Seq<char>) -> int
    decreases e.len(),
{
    if e.len() == 0 {
        -1
    } else if e.last().0@ == k {
        e.len() - 1
    } else {
        entry_position(e.drop_last(), k)
    }
}

proof fn lemma_entry_position(e: Seq<(String, Vec<Declaration>)>, k: Seq<char>)
    ensures
        -1 <= entry_position(e, k) < e.len(),
        entry_position(e, k) >= 0 ==> e[entry_position(e, k)].0@ == k,
        entry_position(e, k) < 0 ==> forall|i: int| 0 <= i < e.len() ==> (#[trigger] e[i]).0@ != k,
    decreases e.len(),
{
    if e.len() > 0 && e.last().0@ != k {
        lemma_entry_position(e.drop_last(), k);
        assert forall|i: int| 0 <= i < e.len() - 1 implies (#[trigger] e[i]) == e.drop_last()[i] by {}
    }
}

/// Tailwind class names and their CSS declarations.
pub struct TailwindIndex {
    entries: Vec<(String, Vec<Declaration>)>,
}

impl TailwindIndex {
    /// No class name occurs twice.
    #[verifier::type_invariant]
    spec fn distinct_classes(&self) -> bool {
        forall|i: int, j: int|
            0 <= i < j < self.entries@.len() ==> (#[trigger] self.entries@[i]).0@ != (
            #[trigger] self.entries@[j]).0@
    }

    /// The declarations of each class name in the index.
    pub closed spec fn as_map(&self) -> Map<Seq<char>, Seq<DeclView>> {
        Map::new(
            |k: Seq<char>| entry_position(self.entries@, k) >= 0,
            |k: Seq<char>| decls_view(self.entries@[entry_position(self.entries@, k)].1@),
        )
    }
}

impl View for TailwindIndex {
    type V = Map<Seq<char>, Seq<DeclView>>;

    open spec fn view(&self) -> Map<Seq<char>, Seq<DeclView>> {
        self.as_map()
    }
}

impl TailwindIndex {
    /// An empty index.
    pub fn new() -> (r: TailwindIndex)
        ensures
            r@ == Map::<Seq<char>, Seq<DeclView>>::empty(),
    {
        let r = TailwindIndex { entries: Vec::new() };
        assert(r@ =~= Map::<Seq<char>, Seq<DeclView>>::empty());
        r
    }

    /// Maps a class name to its declarations, replacing what it mapped to before.
    pub fn insert(&mut self, class: String, decls: Vec<Declaration>)
        ensures
            final(self)@ == old(self)@.insert(class@, decls_view(decls@)),
    {
        proof {
            use_type_invariant(&*self);
        }
        let ghost k = class@;
        let ghost dv = decls_view(decls@);
        let ghost before = self@;
        let mut entries: Vec<(String, Vec<Declaration>)> = Vec::new();
        std::mem::swap(&mut entries, &mut self.entries);
        let ghost e0 = entries@;
        let mut i: usize = 0;
        while i < entries.len() && !crate::text::str_eq(entries[i].0.as_str(), class.as_str())
            invariant
                i <= entries@.len(),
                e0 == entries@,
                k == class@,
                forall|j: int| 0 <= j < i ==> (#[trigger] entries@[j]).0@ != k,
            decreases entries@.len() - i,
        {
            i = i + 1;
        }
        let found = i < entries.len();
        proof {
            lemma_entry_position(e0, k);
        }
        if found {
            let ghost pos = i as int;
            entries.set(i, (class, decls));
            proof {
                let e1 = entries@;
                assert(e1 == e0.update(pos, e1[pos]));
                assert forall|a: int, b: int| 0 <= a < b < e1.len() implies (#[trigger] e1[a]).0@ != (#[trigger] e1[b]).0@ by {
                    assert(e0[a].0@ != e0[b].0@);
                }
            }
        } else {
            entries.push((class, decls));
            proof {
                let e1 = entries@;
                assert forall|a: int, b: int| 0 <= a < b < e1.len() implies (#[trigger] e1[a]).0@ != (#[trigger] e1[b]).0@ by {
                    if b == e0.len() {
                        assert(e0[a] == e1[a]);
                    } else {
                        assert(e0[a].0@ != e0[b].0@);
                    }
                }
            }
        }
        self.entries = entries;
        proof {
            use_type_invariant(&*self);
            let e1 = self.entries@;
            assert forall|q: Seq<char>| #![auto] self@.dom().contains(q) <==> before.insert(k, dv).dom().contains(q) by {
                lemma_entry_position(e1, q);
                lemma_entry_position(e0, q);
                if self@.dom().contains(q) && q != k {
                    let p = entry_position(e1, q);
                    assert(e1[p].0@ == q);
                    if found {
                        assert(p != i);
                        assert(e0[p] == e1[p]);
                    } else {
                        assert(p < e0.len());
                        assert(e0[p] == e1[p]);
                    }
                }
                if before.dom().contains(q) && q != k {
                    let p = entry_position(e0, q);
                    assert(e0[p].0@ == q);
                    assert(e1[p] == e0[p]);
                }
                if q == k {
                    if found {
                        assert(e1[i as int].0@ == k);
                    } else {
                        assert(e1[e0.len() as int].0@ == k);
                    }
                }
            }
            assert forall|q: Seq<char>| #![auto] self@.dom().contains(q) implies self@[q] == before.insert(k, dv)[q] by {
                lemma_entry_position(e1, q);
                lemma_entry_position(e0, q);
                let p = entry_position(e1, q);
                if q == k {
                    let t = if found {
                        i as int
                    } else {
                        e0.len() as int
                    };
                    assert(e1[t].0@ == k);
                    if p != t {
                        assert(e1[p].0@ != e1[t].0@);
                    }
                } else {
                    let p0 = entry_position(e0, q);
                    if found {
                        assert(p != i);
                    }
                    assert(e0[p] == e1[p]);
                    if p0 != p {
                        assert(e1[p0] == e0[p0]);
                        assert(e1[p0].0@ != e1[p].0@);
                    }
                }
            }
            assert(self@ =~= before.insert(k, dv));
        }
    }

    /// The declarations of a class name, if the index has it.
    #[verifier::loop_isolation(false)]
    pub fn lookup(&self, class: &str) -> (r: Option<&[Declaration]>)
        ensures
            r is Some <==> self@.dom().contains(class@),
            r matches Some(ds) ==> decls_view(ds@) == self@[class@],
    {
        proof {
            use_type_invariant(self);
            lemma_entry_position(self.entries@, class@);
        }
        let mut i: usize = 0;
        while i < self.entries.len()
            invariant
                i <= self.entries@.len(),
                forall|j: int| 0 <= j < i ==> (#[trigger] self.entries@[j]).0@ != class@,
            decreases self.entries@.len() - i,
        {
            if crate::text::str_eq(self.entries[i].0.as_str(), class) {
                proof {
                    let p = entry_position(self.entries@, class@);
                    if p != i {
                        assert(self.entries@[p].0@ == class@);
                        assert(p > i);
                    }
                }
                return Some(self.entries[i].1.as_slice());
            }
            i = i + 1;
        }
        None
    }

    /// All class names of the index (each once).
    pub fn classes(&self) -> (r: Vec<&str>)
        ensures
            r@.map_values(|s: &str| s@).to_set() == self@.dom(),
            r@.len() == self@.dom().len(),
    {
        proof {
            use_type_invariant(self);
        }
        let mut out: Vec<&str> = Vec::new();
        let mut i: usize = 0;
        while i < self.entries.len()
            invariant
                i <= self.entries@.len(),
                out@.len() == i,
                forall|j: int| 0 <= j < i ==> (#[trigger] out@[j])@ == self.entries@[j].0@,
            decreases self.entries@.len() - i,
        {
            out.push(self.entries[i].0.as_str());
            i = i + 1;
        }
        proof {
            let names = out@.map_values(|s: &str| s@);
            assert forall|q: Seq<char>| names.to_set().contains(q) <==> self@.dom().contains(q) by {
                lemma_entry_position(self.entries@, q);
                if names.contains(q) {
                    let j = choose|j: int| 0 <= j < names.len() && names[j] == q;
                    assert(self.entries@[j].0@ == q);
                }
                if self@.dom().contains(q) {
                    let p = entry_position(self.entries@, q);
                    assert(names[p] == q);
                }
            }
            assert(names.to_set() =~= self@.dom());
            assert(names.no_duplicates()) by {
                assert forall|a: int, b: int| 0 <= a < names.len() && 0 <= b < names.len() && a != b implies names[a] != names[b] by {
                    if a < b {
                        assert(self.entries@[a].0@ != self.entries@[b].0@);
                    } else {
                        assert(self.entries@[b].0@ != self.entries@[a].0@);
                    }
                }
            }
            names.unique_seq_to_set();
        }
        out
    }

    /// The number of class names in the index.
    pub fn len(&self) -> (r: usize)
        ensures
            self@.dom().finite(),
            r == self@.dom().len(),
    {
        let names = self.classes();
        proof {
            lemma_index_finite(self);
        }
        names.len()
    }

    /// Whether the index has no class names.
    pub fn is_empty(&self) -> (r: bool)
        ensures
            r == (self@.dom().len() == 0),
    {
        self.len() == 0
    }

    /// Builds an index from class names and their declarations, in order; a later
    /// entry for a class replaces an earlier one.
    pub fn from_entries(mappings: Vec<(String, Vec<Declaration>)>) -> (r: TailwindIndex)
        ensures
            r@ == entries_map(mappings@, mappings@.len() as int),
    {
        let mut index = TailwindIndex::new();
        let mut i: usize = 0;
        while i < mappings.len()
            invariant
                i <= mappings@.len(),
                index@ == entries_map(mappings@, i as int),
            decreases mappings@.len() - i,
        {
            let decls = duplicate_decls(&mappings[i].1);
            index.insert(mappings[i].0.clone(), decls);
            i = i + 1;
        }
        index
    }
}

/// The map that inserting the first `k` entries of `m` in order builds.
pub open spec fn entries_map(m: Seq<(String, Vec<Declaration>)>, k: int) -> Map<Seq<char>, Seq<DeclView>>
    decreases k,
{
    if k <= 0 {
        Map::empty()
    } else {
        entries_map(m, k - 1).insert(m[k - 1].0@, decls_view(m[k - 1].1@))
    }
}

/// An index holds finitely many class names.
pub proof fn lemma_index_finite(index: &TailwindIndex)
    ensures
        index@.dom().finite(),
{
    let names = index.entries@.map_values(|e: (String, Vec<Declaration>)| e.0@);
    assert forall|k: Seq<char>| index@.dom().contains(k) implies names.to_set().contains(k) by {
        lemma_entry_position(index.entries@, k);
        assert(names[entry_position(index.entries@, k)] == k);
    }
    vstd::seq_lib::seq_to_set_is_finite(names);
    vstd::set_lib::lemma_set_subset_finite(names.to_set(), index@.dom());
}

impl Default for TailwindIndex {
    fn default() -> (r: TailwindIndex)
        ensures
            r@ == Map::<Seq<char>, Seq<DeclView>>::empty(),
    {
        TailwindIndex::new()
    }
}

/// A read of a class gives back what the last write of that class wrote, and
/// writing one class leaves every other class as it was.
pub proof fn law_index_read_after_write(
    m: Map<Seq<char>, Seq<DeclView>>,
    class: Seq<char>,
    decls: Seq<DeclView>,
    other: Seq<char>,
)
    requires
        other != class,
    ensures
        m.insert(class, decls).dom().contains(class),
        m.insert(class, decls)[class] == decls,
        m.insert(class, decls).dom().contains(other) == m.dom().contains(other),
        m.dom().contains(other) ==> m.insert(class, decls)[other] == m[other],
{
}

} // verus!
