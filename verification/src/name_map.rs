//! An ordered map from names to values, the shape of the per-package
//! settings and of the release state.
use vstd::prelude::*;

use crate::text::{lemma_seq_lt_irreflexive, lemma_seq_lt_total, lemma_seq_lt_transitive, seq_lt, str_eq, str_lt, strictly_sorted};

verus! {

/// A copy that is equal to the original.
pub trait ExactClone: Sized {
    fn exact_clone(&self) -> (r: Self)
        ensures
            r == *self,
    ;
}

impl ExactClone for String {
    fn exact_clone(&self) -> (r: Self) {
        self.clone()
    }
}

/// The abstract contents of a list of keyed entries.
pub open spec fn keyed_views<V>(s: Seq<(String, V)>) -> Seq<(Seq<char>, V)> {
    s.map_values(|p: (String, V)| (p.0@, p.1))
}

/// The keys of an entry list.
pub open spec fn entry_keys<V>(e: Seq<(String, V)>) -> Seq<Seq<char>> {
    e.map_values(|p: (String, V)| p.0@)
}

/// The value an entry list holds for a key, if it holds one.
pub open spec fn entry_lookup<V>(e: Seq<(String, V)>, k: Seq<char>) -> Option<V>
    decreases e.len(),
{
    if e.len() == 0 {
        None
    } else if e.last().0@ == k {
        Some(e.last().1)
    } else {
        entry_lookup(e.drop_last(), k)
    }
}

pub proof fn lemma_lookup_index<V>(e: Seq<(String, V)>, k: Seq<char>, i: int)
    requires
        strictly_sorted(entry_keys(e)),
        0 <= i < e.len(),
        e[i].0@ == k,
    ensures
        entry_lookup(e, k) == Some(e[i].1),
    decreases e.len(),
{
    if i < e.len() - 1 {
        assert(seq_lt(entry_keys(e)[i], entry_keys(e)[e.len() - 1]));
        lemma_seq_lt_irreflexive(k);
        assert(entry_keys(e.drop_last()) =~= entry_keys(e).drop_last());
        lemma_lookup_index(e.drop_last(), k, i);
    }
}

pub proof fn lemma_lookup_absent<V>(e: Seq<(String, V)>, k: Seq<char>)
    requires
        !entry_keys(e).contains(k),
    ensures
        entry_lookup(e, k) is None,
    decreases e.len(),
{
    if e.len() > 0 {
        assert(entry_keys(e)[e.len() - 1] == e.last().0@);
        assert(entry_keys(e.drop_last()) =~= entry_keys(e).drop_last());
        if entry_keys(e.drop_last()).contains(k) {
            let j = choose|j: int| 0 <= j < entry_keys(e.drop_last()).len() && entry_keys(e.drop_last())[j] == k;
            assert(entry_keys(e)[j] == k);
        }
        lemma_lookup_absent(e.drop_last(), k);
    }
}

pub proof fn lemma_lookup_by_key<V>(e: Seq<(String, V)>, k: Seq<char>)
    requires
        strictly_sorted(entry_keys(e)),
    ensures
        entry_lookup(e, k) is Some <==> entry_keys(e).contains(k),
        entry_lookup(e, k) is Some ==> exists|i: int| 0 <= i < e.len() && e[i].0@ == k && e[i].1 == entry_lookup(e, k)->0,
{
    if entry_keys(e).contains(k) {
        let i = choose|i: int| 0 <= i < entry_keys(e).len() && entry_keys(e)[i] == k;
        lemma_lookup_index(e, k, i);
    } else {
        lemma_lookup_absent(e, k);
    }
}

/// A map from names to values, kept in name order.
#[derive(Debug)]
pub struct NameMap<V> {
    entries: Vec<(String, V)>,
}

impl<V: ExactClone> NameMap<V> {
    /// The invariant: names are strictly increasing.
    pub closed spec fn wf(&self) -> bool {
        strictly_sorted(entry_keys(self.entries@))
    }

    /// The value recorded for a name, if any.
    pub closed spec fn lookup(&self, name: Seq<char>) -> Option<V> {
        entry_lookup(self.entries@, name)
    }

    /// The names, in order.
    pub closed spec fn names(&self) -> Seq<Seq<char>> {
        entry_keys(self.entries@)
    }

    /// The entries in order, as (name, value) pairs.
    pub closed spec fn pairs(&self) -> Seq<(Seq<char>, V)> {
        keyed_views(self.entries@)
    }

    pub proof fn lemma_wf_facts(&self)
        requires
            self.wf(),
        ensures
            strictly_sorted(self.names()),
            forall|k: Seq<char>| (#[trigger] self.lookup(k) is Some) <==> self.names().contains(k),
            self.names().len() == self.pairs().len(),
            forall|i: int| 0 <= i < self.pairs().len() ==> #[trigger] self.pairs()[i].0 == self.names()[i],
            forall|i: int| 0 <= i < self.pairs().len() ==> self.lookup(#[trigger] self.pairs()[i].0) == Some(self.pairs()[i].1),
    {
        assert forall|k: Seq<char>| (#[trigger] self.lookup(k) is Some) <==> self.names().contains(k) by {
            lemma_lookup_by_key(self.entries@, k);
        }
        assert forall|i: int| 0 <= i < self.pairs().len() implies self.lookup(#[trigger] self.pairs()[i].0) == Some(self.pairs()[i].1) by {
            lemma_lookup_index(self.entries@, self.entries@[i].0@, i);
        }
    }

    /// An empty map.
    pub fn new() -> (s: NameMap<V>)
        ensures
            s.wf(),
            s.names().len() == 0,
            forall|k: Seq<char>| s.lookup(k) is None,
    {
        NameMap { entries: Vec::new() }
    }

    /// Whether the map is empty.
    pub fn is_empty(&self) -> (r: bool)
        ensures
            r == (self.names().len() == 0),
    {
        self.entries.len() == 0
    }

    /// The tag recorded for `name`.
    pub fn get(&self, name: &str) -> (r: Option<&V>)
        requires
            self.wf(),
        ensures
            r matches Some(t) ==> self.lookup(name@) == Some(*t),
            r is None ==> self.lookup(name@) is None,
    {
        let mut i: usize = 0;
        while i < self.entries.len()
            invariant
                i <= self.entries.len(),
                self.wf(),
                forall|j: int| 0 <= j < i ==> self.entries@[j].0@ != name@,
            decreases self.entries.len() - i,
        {
            if str_eq(self.entries[i].0.as_str(), name) {
                proof {
                    lemma_lookup_index(self.entries@, name@, i as int);
                }
                return Some(&self.entries[i].1);
            }
            i = i + 1;
        }
        proof {
            if entry_keys(self.entries@).contains(name@) {
                let k = choose|k: int| 0 <= k < entry_keys(self.entries@).len() && entry_keys(self.entries@)[k] == name@;
                assert(self.entries@[k].0@ == name@);
            }
            lemma_lookup_absent(self.entries@, name@);
        }
        None
    }

    /// Whether `name` is in pre-release.
    pub fn contains(&self, name: &str) -> (r: bool)
        requires
            self.wf(),
        ensures
            r == (self.lookup(name@) is Some),
    {
        self.get(name).is_some()
    }

    /// Whether `name` has a value.
    pub fn contains_key(&self, name: &str) -> (r: bool)
        requires
            self.wf(),
        ensures
            r == (self.lookup(name@) is Some),
    {
        self.contains(name)
    }

    /// The number of entries.
    pub fn len(&self) -> (r: usize)
        ensures
            r == self.names().len(),
    {
        self.entries.len()
    }

    /// Records `tag` for `name`, replacing an earlier tag.
    pub fn insert(&mut self, name: String, tag: V)
        requires
            old(self).wf(),
        ensures
            final(self).wf(),
            final(self).lookup(name@) == Some(tag),
            forall|k: Seq<char>| k != name@ ==> final(self).lookup(k) == old(self).lookup(k),
    {
        let ghost old_e = self.entries@;
        let mut i: usize = 0;
        while i < self.entries.len() && str_lt(self.entries[i].0.as_str(), name.as_str())
            invariant
                i <= self.entries.len(),
                self.entries@ == old_e,
                strictly_sorted(entry_keys(old_e)),
                forall|j: int| 0 <= j < i ==> seq_lt(#[trigger] entry_keys(old_e)[j], name@),
            decreases self.entries.len() - i,
        {
            i = i + 1;
        }
        let found = i < self.entries.len() && str_eq(self.entries[i].0.as_str(), name.as_str());
        if found {
            self.entries.set(i, (name, tag));
        } else {
            proof {
                if i < old_e.len() {
                    lemma_seq_lt_total(entry_keys(old_e)[i as int], name@);
                }
            }
            self.entries.insert(i, (name, tag));
        }
        proof {
            let ne = self.entries@;
            let ok = entry_keys(old_e);
            let nk = entry_keys(ne);
            if found {
                assert(nk =~= ok.update(i as int, name@));
            } else {
                assert(nk =~= ok.insert(i as int, name@));
            }
            assert forall|a: int, b: int| #![trigger nk[a], nk[b]] 0 <= a < b < nk.len() implies seq_lt(nk[a], nk[b]) by {
                if found {
                    if a == i {
                        assert(seq_lt(ok[a], ok[b]));
                    } else if b == i {
                        assert(seq_lt(ok[a], name@));
                    } else {
                        assert(seq_lt(ok[a], ok[b]));
                    }
                } else {
                    if b < i {
                        assert(seq_lt(ok[a], ok[b]));
                    } else if b == i {
                        assert(seq_lt(ok[a], name@));
                    } else if a < i {
                        if b - 1 > i {
                            assert(seq_lt(ok[i as int], ok[b - 1]));
                            lemma_seq_lt_transitive(name@, ok[i as int], ok[b - 1]);
                        }
                        lemma_seq_lt_transitive(ok[a], name@, ok[b - 1]);
                    } else if a == i {
                        if b - 1 > i {
                            assert(seq_lt(ok[i as int], ok[b - 1]));
                            lemma_seq_lt_transitive(name@, ok[i as int], ok[b - 1]);
                        }
                    } else {
                        assert(seq_lt(ok[a - 1], ok[b - 1]));
                    }
                }
            }
            lemma_lookup_index(ne, name@, i as int);
            assert forall|k: Seq<char>| k != name@ implies entry_lookup(ne, k) == entry_lookup(old_e, k) by {
                lemma_lookup_by_key(ne, k);
                lemma_lookup_by_key(old_e, k);
                if entry_lookup(old_e, k) is Some {
                    let j = choose|j: int| 0 <= j < old_e.len() && old_e[j].0@ == k && old_e[j].1 == entry_lookup(old_e, k)->0;
                    let nj = if found || j < i { j } else { j + 1 };
                    assert(ne[nj] == old_e[j]);
                    lemma_lookup_index(ne, k, nj);
                }
                if entry_lookup(ne, k) is Some {
                    let j = choose|j: int| 0 <= j < ne.len() && ne[j].0@ == k && ne[j].1 == entry_lookup(ne, k)->0;
                    let oj = if found || j < i { j } else { j - 1 };
                    assert(old_e[oj] == ne[j]);
                    lemma_lookup_index(old_e, k, oj);
                }
            }
        }
    }

    /// Drops `name` from the state, handing back its tag.
    pub fn remove(&mut self, name: &str) -> (r: Option<V>)
        requires
            old(self).wf(),
        ensures
            final(self).wf(),
            r matches Some(t) ==> old(self).lookup(name@) == Some(t),
            r is None ==> old(self).lookup(name@) is None,
            final(self).lookup(name@) is None,
            forall|k: Seq<char>| k != name@ ==> final(self).lookup(k) == old(self).lookup(k),
    {
        let ghost old_e = self.entries@;
        let mut i: usize = 0;
        while i < self.entries.len()
            invariant
                i <= self.entries.len(),
                self.entries@ == old_e,
                old_e == old(self).entries@,
                strictly_sorted(entry_keys(old_e)),
                forall|j: int| 0 <= j < i ==> old_e[j].0@ != name@,
            decreases self.entries.len() - i,
        {
            if str_eq(self.entries[i].0.as_str(), name) {
                proof {
                    lemma_lookup_index(old_e, name@, i as int);
                }
                let (_, tag) = self.entries.remove(i);
                proof {
                    let ne = self.entries@;
                    assert(entry_keys(ne) =~= entry_keys(old_e).remove(i as int));
                    let ok = entry_keys(old_e);
                    let nk = entry_keys(ne);
                    assert forall|a: int, b: int| #![trigger nk[a], nk[b]] 0 <= a < b < nk.len() implies seq_lt(nk[a], nk[b]) by {
                        let oa = if a < i { a } else { a + 1 };
                        let ob = if b < i { b } else { b + 1 };
                        assert(seq_lt(ok[oa], ok[ob]));
                    }
                    if entry_keys(ne).contains(name@) {
                        let j = choose|j: int| 0 <= j < entry_keys(ne).len() && entry_keys(ne)[j] == name@;
                        let oj = if j < i { j } else { j + 1 };
                        assert(ok[oj] == name@);
                        assert(seq_lt(ok[if oj < i { oj } else { i as int }], ok[if oj < i { i as int } else { oj }]));
                        lemma_seq_lt_irreflexive(name@);
                    }
                    lemma_lookup_absent(ne, name@);
                    assert forall|k: Seq<char>| k != name@ implies entry_lookup(ne, k) == entry_lookup(old_e, k) by {
                        lemma_lookup_by_key(ne, k);
                        lemma_lookup_by_key(old_e, k);
                        if entry_lookup(old_e, k) is Some {
                            let j = choose|j: int| 0 <= j < old_e.len() && old_e[j].0@ == k && old_e[j].1 == entry_lookup(old_e, k)->0;
                            let nj = if j < i { j } else { j - 1 };
                            assert(ne[nj] == old_e[j]);
                            lemma_lookup_index(ne, k, nj);
                        }
                        if entry_lookup(ne, k) is Some {
                            let j = choose|j: int| 0 <= j < ne.len() && ne[j].0@ == k && ne[j].1 == entry_lookup(ne, k)->0;
                            let oj = if j < i { j } else { j + 1 };
                            assert(old_e[oj] == ne[j]);
                            lemma_lookup_index(old_e, k, oj);
                        }
                    }
                }
                return Some(tag);
            }
            i = i + 1;
        }
        proof {
            if entry_keys(old_e).contains(name@) {
                let k = choose|k: int| 0 <= k < entry_keys(old_e).len() && entry_keys(old_e)[k] == name@;
                assert(old_e[k].0@ == name@);
            }
            lemma_lookup_absent(old_e, name@);
        }
        None
    }

    /// A copy of the map rebuilt from its entries, with its names in strict
    /// order; each name keeps the value it has in the map.
    pub fn to_valid(&self) -> (r: NameMap<V>)
        ensures
            r.wf(),
            forall|k: Seq<char>| #[trigger] r.lookup(k) == self.lookup(k),
    {
        let mut r = NameMap::new();
        let mut j: usize = 0;
        while j < self.entries.len()
            invariant
                j <= self.entries.len(),
                r.wf(),
                forall|k: Seq<char>| #[trigger] r.lookup(k) == entry_lookup(self.entries@.take(j as int), k),
            decreases self.entries.len() - j,
        {
            r.insert(self.entries[j].0.clone(), self.entries[j].1.exact_clone());
            proof {
                let t = self.entries@.take(j + 1);
                assert(t.drop_last() =~= self.entries@.take(j as int));
                assert(t.last() == self.entries@[j as int]);
            }
            j = j + 1;
        }
        proof {
            assert(self.entries@.take(self.entries@.len() as int) =~= self.entries@);
        }
        r
    }

    /// A copy with the same entries.
    pub fn duplicate(&self) -> (r: Self)
        ensures
            r.pairs() == self.pairs(),
            r.names() == self.names(),
            r.wf() == self.wf(),
            forall|k: Seq<char>| #[trigger] r.lookup(k) == self.lookup(k),
    {
        let mut entries: Vec<(String, V)> = Vec::new();
        let mut i: usize = 0;
        while i < self.entries.len()
            invariant
                i <= self.entries.len(),
                entries@ == self.entries@.take(i as int),
            decreases self.entries.len() - i,
        {
            let e = &self.entries[i];
            entries.push((e.0.clone(), e.1.exact_clone()));
            proof {
                assert(entries@ =~= self.entries@.take(i + 1));
            }
            i = i + 1;
        }
        proof {
            assert(self.entries@.take(self.entries.len() as int) =~= self.entries@);
        }
        NameMap { entries }
    }

    /// The (name, value) entries in name order.
    pub fn entries(&self) -> (r: Vec<(String, V)>)
        ensures
            keyed_views(r@) == self.pairs(),
    {
        let mut r: Vec<(String, V)> = Vec::new();
        let mut i: usize = 0;
        while i < self.entries.len()
            invariant
                i <= self.entries.len(),
                r@ == self.entries@.take(i as int),
            decreases self.entries.len() - i,
        {
            let e = &self.entries[i];
            r.push((e.0.clone(), e.1.exact_clone()));
            proof {
                assert(r@ =~= self.entries@.take(i + 1));
            }
            i = i + 1;
        }
        proof {
            assert(self.entries@.take(self.entries.len() as int) =~= self.entries@);
        }
        r
    }
}

} // verus!
