//! Column-family handles and the registry that a database keeps of them.
use vstd::prelude::*;

use crate::name_order::{
    compare_names, lemma_name_lt_irreflexive, lemma_name_lt_transitive, lemma_sorted_unique,
    name_lt, sorted_names,
};

verus! {

/// An opaque type used to represent a column family. Returned from some
/// functions, and used in others. It holds the address of the native handle.
pub struct ColumnFamily {
    inner: usize,
}

impl View for ColumnFamily {
    type V = usize;

    /// The address of the native handle.
    closed spec fn view(&self) -> usize {
        self.inner
    }
}

impl ColumnFamily {
    pub fn new(inner: usize) -> (r: ColumnFamily)
        ensures
            r@ == inner,
    {
        ColumnFamily { inner }
    }

    /// The address of the native handle, for a native call.
    pub fn handle(&self) -> (r: usize)
        ensures
            r == self@,
    {
        self.inner
    }
}

/// Whether no name occurs twice among the entries.
pub open spec fn unique_names(entries: Seq<(Seq<char>, usize)>) -> bool {
    forall|i: int, j: int|
        0 <= i < entries.len() && 0 <= j < entries.len() && #[trigger] entries[i].0
            == #[trigger] entries[j].0 ==> i == j
}

/// Whether entry `i` is the one named `name`.
pub open spec fn names_at(entries: Seq<(Seq<char>, usize)>, name: Seq<char>, i: int) -> bool {
    0 <= i < entries.len() && entries[i].0 == name
}

/// Whether some entry is named `name`.
pub open spec fn contains_name(entries: Seq<(Seq<char>, usize)>, name: Seq<char>) -> bool {
    exists|i: int| names_at(entries, name, i)
}

/// The handle registered under `name`, if any.
pub open spec fn lookup(entries: Seq<(Seq<char>, usize)>, name: Seq<char>) -> Option<usize> {
    if contains_name(entries, name) {
        Some(entries[choose|i: int| names_at(entries, name, i)].1)
    } else {
        None
    }
}

/// The column-family registry: an ordered mapping from name to handle, each
/// name once, in ascending byte order of the names. It is a sorted vector
/// rather than a `BTreeMap`: vstd specifies the map's operations only for key
/// types whose order it knows, and `String` is not among them.
pub struct ColumnFamilies {
    entries: Vec<(String, ColumnFamily)>,
}

impl View for ColumnFamilies {
    type V = Seq<(Seq<char>, usize)>;

    /// The names and handle addresses, in ascending order of name.
    closed spec fn view(&self) -> Seq<(Seq<char>, usize)> {
        entries_view(self.entries@)
    }
}

spec fn entries_view(entries: Seq<(String, ColumnFamily)>) -> Seq<(Seq<char>, usize)> {
    entries.map_values(|e: (String, ColumnFamily)| (e.0@, e.1@))
}

impl ColumnFamilies {
    /// The names are in strictly ascending order, so each occurs once.
    #[verifier::type_invariant]
    pub(crate) open spec fn wf(self) -> bool {
        sorted_names(self@)
    }

    /// Where `name` belongs: the index of the first entry that does not come
    /// before it, and whether that entry is named `name`.
    fn search(&self, name: &str) -> (r: (usize, bool))
        ensures
            r.0 <= self@.len(),
            forall|a: int| 0 <= a < r.0 ==> name_lt(#[trigger] self@[a].0, name@),
            r.1 ==> r.0 < self@.len() && self@[r.0 as int].0 == name@,
            !r.1 && r.0 < self@.len() ==> name_lt(name@, self@[r.0 as int].0),
    {
        let mut k: usize = 0;
        while k < self.entries.len()
            invariant
                k <= self@.len(),
                self@.len() == self.entries@.len(),
                forall|a: int| 0 <= a < k ==> name_lt(#[trigger] self@[a].0, name@),
            decreases self.entries@.len() - k,
        {
            let c = compare_names(self.entries[k].0.as_str(), name);
            if c == 0 {
                return (k, true);
            }
            if c > 0 {
                return (k, false);
            }
            k = k + 1;
        }
        (k, false)
    }

    pub fn new() -> (r: ColumnFamilies)
        ensures
            r@ == Seq::<(Seq<char>, usize)>::empty(),
    {
        let entries: Vec<(String, ColumnFamily)> = Vec::new();
        assert(entries_view(entries@) =~= Seq::<(Seq<char>, usize)>::empty());
        ColumnFamilies { entries }
    }

    pub fn len(&self) -> (r: usize)
        ensures
            r == self@.len(),
    {
        self.entries.len()
    }

    pub fn is_empty(&self) -> (r: bool)
        ensures
            r == (self@.len() == 0),
    {
        self.entries.len() == 0
    }

    /// The position of the entry named `name`, if there is one.
    fn position(&self, name: &str) -> (r: Option<usize>)
        ensures
            r is Some ==> names_at(self@, name@, r->Some_0 as int),
            r is None ==> !contains_name(self@, name@),
    {
        let key = name.to_owned();
        let mut i: usize = 0;
        while i < self.entries.len()
            invariant
                i <= self.entries@.len(),
                key@ == name@,
                forall|k: int| 0 <= k < i ==> !names_at(self@, name@, k),
            decreases self.entries@.len() - i,
        {
            if self.entries[i].0 == key {
                return Some(i);
            }
            i = i + 1;
        }
        None
    }

    /// The handle registered under `name`.
    pub fn get(&self, name: &str) -> (r: Option<&ColumnFamily>)
        ensures
            r is Some <==> contains_name(self@, name@),
            r is Some ==> lookup(self@, name@) == Some(r->Some_0@),
    {
        proof {
            use_type_invariant(self);
            lemma_sorted_unique(self@);
        }
        match self.position(name) {
            Some(i) => {
                proof {
                    let j = choose|j: int| names_at(self@, name@, j);
                    assert(j == i as int);
                }
                Some(&self.entries[i].1)
            },
            None => None,
        }
    }

    /// Registers `cf` under `name`, at its place in name order. A handle that
    /// was registered under the same name before is replaced and handed back,
    /// so that the caller can release it.
    pub fn insert(&mut self, name: String, cf: ColumnFamily) -> (r: Option<ColumnFamily>)
        ensures
            sorted_names(final(self)@),
            r is Some <==> contains_name(old(self)@, name@),
            r is Some ==> lookup(old(self)@, name@) == Some(r->Some_0@),
            r is Some ==> exists|i: int|
                names_at(old(self)@, name@, i) && final(self)@ == old(self)@.update(
                    i,
                    (name@, cf@),
                ),
            r is None ==> exists|k: int|
                0 <= k <= old(self)@.len() && final(self)@ == old(self)@.insert(
                    k,
                    (name@, cf@),
                ),
    {
        proof {
            use_type_invariant(&*self);
            lemma_sorted_unique(self@);
        }
        let ghost before = self@;
        let ghost entry = (name@, cf@);
        let (k, equal) = self.search(name.as_str());
        let mut entries: Vec<(String, ColumnFamily)> = Vec::new();
        std::mem::swap(&mut entries, &mut self.entries);
        assert(entries_view(entries@) == before);
        if equal {
            let replaced = entries.remove(k);
            entries.insert(k, (name, cf));
            let ghost after = entries_view(entries@);
            assert(after =~= before.update(k as int, entry));
            proof {
                assert(names_at(before, entry.0, k as int));
                let j = choose|j: int| names_at(before, entry.0, j);
                assert(j == k as int);
                assert forall|a: int, b: int| 0 <= a < b < after.len() implies name_lt(
                    #[trigger] after[a].0,
                    #[trigger] after[b].0,
                ) by {
                    assert(name_lt(before[a].0, before[b].0));
                }
            }
            self.entries = entries;
            Some(replaced.1)
        } else {
            entries.insert(k, (name, cf));
            let ghost after = entries_view(entries@);
            assert(after =~= before.insert(k as int, entry));
            proof {
                assert forall|a: int, b: int| 0 <= a < b < after.len() implies name_lt(
                    #[trigger] after[a].0,
                    #[trigger] after[b].0,
                ) by {
                    if b < k {
                        assert(name_lt(before[a].0, before[b].0));
                    } else if b == k {
                    } else if a < k {
                        assert(name_lt(before[a].0, before[b - 1].0));
                    } else if a == k {
                        if b - 1 > k {
                            assert(name_lt(before[k as int].0, before[b - 1].0));
                            lemma_name_lt_transitive(entry.0, before[k as int].0, before[b - 1].0);
                        }
                    } else {
                        assert(name_lt(before[a - 1].0, before[b - 1].0));
                    }
                }
                assert forall|a: int| !names_at(before, entry.0, a) by {
                    if 0 <= a < before.len() && before[a].0 == entry.0 {
                        if a < k {
                            lemma_name_lt_irreflexive(entry.0);
                        } else if a == k {
                            lemma_name_lt_irreflexive(entry.0);
                        } else {
                            assert(name_lt(before[k as int].0, before[a].0));
                            lemma_name_lt_transitive(entry.0, before[k as int].0, before[a].0);
                            lemma_name_lt_irreflexive(entry.0);
                        }
                    }
                }
                assert(!contains_name(before, entry.0));
            }
            self.entries = entries;
            None
        }
    }

    /// Takes the handle registered under `name` out of the registry, for the
    /// caller to release.
    pub fn remove(&mut self, name: &str) -> (r: Option<ColumnFamily>)
        ensures
            r is Some <==> contains_name(old(self)@, name@),
            r is Some ==> lookup(old(self)@, name@) == Some(r->Some_0@),
            r is Some ==> exists|i: int|
                names_at(old(self)@, name@, i) && final(self)@ == old(self)@.remove(i),
            r is None ==> final(self)@ == old(self)@,
            !contains_name(final(self)@, name@),
            sorted_names(final(self)@),
    {
        proof {
            use_type_invariant(&*self);
            lemma_sorted_unique(self@);
        }
        let ghost before = self@;
        match self.position(name) {
            Some(i) => {
                let mut entries: Vec<(String, ColumnFamily)> = Vec::new();
                std::mem::swap(&mut entries, &mut self.entries);
                assert(entries_view(entries@) == before);
                let removed = entries.remove(i);
                let ghost after = entries_view(entries@);
                assert(after =~= before.remove(i as int));
                proof {
                    assert(names_at(before, name@, i as int));
                    let j = choose|j: int| names_at(before, name@, j);
                    assert(j == i as int);
                    assert forall|a: int, b: int| 0 <= a < b < after.len() implies name_lt(
                        #[trigger] after[a].0,
                        #[trigger] after[b].0,
                    ) by {
                        let a0 = if a < i { a } else { a + 1 };
                        let b0 = if b < i { b } else { b + 1 };
                        assert(name_lt(before[a0].0, before[b0].0));
                    }
                    assert forall|a: int| !names_at(after, name@, a) by {
                        if 0 <= a < after.len() && after[a].0 == name@ {
                            let a0 = if a < i { a } else { a + 1 };
                            assert(before[a0].0 == before[i as int].0);
                        }
                    }
                }
                self.entries = entries;
                Some(removed.1)
            },
            None => None,
        }
    }

    /// Gives up the registry, handing out every handle once, in name order.
    pub fn into_handles(self) -> (r: Vec<ColumnFamily>)
        ensures
            r@.len() == self@.len(),
            forall|i: int| 0 <= i < r@.len() ==> #[trigger] r@[i]@ == self@[i].1,
    {
        let ghost entries = self@;
        let mut rest = self.entries;
        let mut out: Vec<ColumnFamily> = Vec::new();
        while rest.len() > 0
            invariant
                out@.len() + rest@.len() == entries.len(),
                forall|i: int| 0 <= i < out@.len() ==> #[trigger] out@[i]@ == entries[i].1,
                forall|i: int|
                    0 <= i < rest@.len() ==> (#[trigger] rest@[i]).1@ == entries[out@.len()
                        + i].1,
            decreases rest@.len(),
        {
            let e = rest.remove(0);
            out.push(e.1);
        }
        out
    }
}

} // verus!
