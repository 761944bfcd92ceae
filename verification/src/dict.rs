//! A map keyed by strings that keeps its entries in insertion order.
//!
//! A key is looked up at its first entry; `insert` overwrites that entry in
//! place, so no operation of this module ever creates a second entry for a key.
use vstd::prelude::*;

use crate::text::str_eq;

verus! {

/// The value of the first entry of `ps` whose key is `k`.
pub open spec fn lookup_in<V>(ps: Seq<(String, V)>, k: Seq<char>) -> Option<V>
    decreases ps.len(),
{
    if ps.len() == 0 {
        None
    } else if ps[0].0@ == k {
        Some(ps[0].1)
    } else {
        lookup_in(ps.drop_first(), k)
    }
}

/// `i` is the position of the first entry of `ps` whose key is `k`.
pub open spec fn first_at<V>(ps: Seq<(String, V)>, k: Seq<char>, i: int) -> bool {
    &&& 0 <= i < ps.len()
    &&& ps[i].0@ == k
    &&& forall|j: int| 0 <= j < i ==> (#[trigger] ps[j]).0@ != k
}

/// No two entries of `ps` have the same key.
pub open spec fn unique_keys<V>(ps: Seq<(String, V)>) -> bool {
    forall|i: int, j: int| 0 <= i < j < ps.len() ==> (#[trigger] ps[i]).0@ != (#[trigger] ps[j]).0@
}

/// No entry of `ps` has key `k`.
pub open spec fn absent_in<V>(ps: Seq<(String, V)>, k: Seq<char>) -> bool {
    forall|j: int| 0 <= j < ps.len() ==> (#[trigger] ps[j]).0@ != k
}

/// `ps` with every entry whose key is `k` dropped.
pub open spec fn without<V>(ps: Seq<(String, V)>, k: Seq<char>) -> Seq<(String, V)>
    decreases ps.len(),
{
    if ps.len() == 0 {
        ps
    } else if ps.last().0@ == k {
        without(ps.drop_last(), k)
    } else {
        without(ps.drop_last(), k).push(ps.last())
    }
}

pub proof fn lemma_lookup_first<V>(ps: Seq<(String, V)>, k: Seq<char>, i: int)
    requires
        first_at(ps, k, i),
    ensures
        lookup_in(ps, k) == Some(ps[i].1),
    decreases i,
{
    if i > 0 {
        assert(ps[0].0@ != k);
        assert forall|j: int| 0 <= j < i - 1 implies (#[trigger] ps.drop_first()[j]).0@ != k by {
            assert(ps.drop_first()[j] == ps[j + 1]);
        }
        lemma_lookup_first(ps.drop_first(), k, i - 1);
    }
}

pub proof fn lemma_lookup_absent<V>(ps: Seq<(String, V)>, k: Seq<char>)
    requires
        absent_in(ps, k),
    ensures
        lookup_in(ps, k) is None,
    decreases ps.len(),
{
    if ps.len() > 0 {
        assert(ps[0].0@ != k);
        assert forall|j: int| 0 <= j < ps.len() - 1 implies (#[trigger] ps.drop_first()[j]).0@ != k by {
            assert(ps.drop_first()[j] == ps[j + 1]);
        }
        lemma_lookup_absent(ps.drop_first(), k);
    }
}

/// A lookup finds a value exactly when some entry has the key.
pub proof fn lemma_lookup_some<V>(ps: Seq<(String, V)>, k: Seq<char>)
    ensures
        lookup_in(ps, k) is Some <==> !absent_in(ps, k),
        lookup_in(ps, k) matches Some(v) ==> exists|i: int| first_at(ps, k, i) && ps[i].1 == v,
    decreases ps.len(),
{
    if ps.len() > 0 {
        lemma_lookup_some(ps.drop_first(), k);
        if ps[0].0@ == k {
            assert(first_at(ps, k, 0));
        } else {
            if absent_in(ps.drop_first(), k) {
                assert forall|j: int| 0 <= j < ps.len() implies (#[trigger] ps[j]).0@ != k by {
                    if j > 0 {
                        assert(ps[j] == ps.drop_first()[j - 1]);
                    }
                }
            } else {
                let j = choose|j: int| 0 <= j < ps.drop_first().len() && (#[trigger] ps.drop_first()[j]).0@ == k;
                assert(ps[j + 1] == ps.drop_first()[j]);
            }
            if lookup_in(ps, k) is Some {
                let v = lookup_in(ps, k)->0;
                let i = choose|i: int| first_at(ps.drop_first(), k, i) && ps.drop_first()[i].1 == v;
                assert(first_at(ps, k, i + 1)) by {
                    assert forall|j: int| 0 <= j < i + 1 implies (#[trigger] ps[j]).0@ != k by {
                        if j > 0 {
                            assert(ps[j] == ps.drop_first()[j - 1]);
                        }
                    }
                }
            }
        }
    }
}

/// Updating the value at the first entry of `k` changes the lookup of `k` only.
pub proof fn lemma_lookup_update<V>(ps: Seq<(String, V)>, k: Seq<char>, i: int, key: String, v: V)
    requires
        first_at(ps, k, i),
        key@ == k,
    ensures
        forall|j: Seq<char>| #[trigger] lookup_in(ps.update(i, (key, v)), j) == if j == k {
            Some(v)
        } else {
            lookup_in(ps, j)
        },
    decreases i,
{
    assert forall|j: Seq<char>| #[trigger] lookup_in(ps.update(i, (key, v)), j) == if j == k {
        Some(v)
    } else {
        lookup_in(ps, j)
    } by {
        if i == 0 {
            assert(ps.update(0, (key, v)).drop_first() =~= ps.drop_first());
        } else {
            assert(ps[0].0@ != k);
            assert forall|m: int| 0 <= m < i - 1 implies (#[trigger] ps.drop_first()[m]).0@ != k by {
                assert(ps.drop_first()[m] == ps[m + 1]);
            }
            lemma_lookup_update(ps.drop_first(), k, i - 1, key, v);
            assert(ps.update(i, (key, v)).drop_first() =~= ps.drop_first().update(i - 1, (key, v)));
            assert(lookup_in(ps.drop_first().update(i - 1, (key, v)), j) == if j == k {
                Some(v)
            } else {
                lookup_in(ps.drop_first(), j)
            });
        }
    }
}

/// Appending an entry for an absent key adds exactly that lookup.
pub proof fn lemma_lookup_push<V>(ps: Seq<(String, V)>, key: String, v: V)
    requires
        absent_in(ps, key@),
    ensures
        forall|j: Seq<char>| #[trigger] lookup_in(ps.push((key, v)), j) == if j == key@ {
            Some(v)
        } else {
            lookup_in(ps, j)
        },
    decreases ps.len(),
{
    assert forall|j: Seq<char>| #[trigger] lookup_in(ps.push((key, v)), j) == if j == key@ {
        Some(v)
    } else {
        lookup_in(ps, j)
    } by {
        if ps.len() == 0 {
            assert(ps.push((key, v)).drop_first() =~= Seq::<(String, V)>::empty());
            assert(lookup_in(Seq::<(String, V)>::empty(), j) is None);
            assert(ps.push((key, v))[0] == (key, v));
        } else {
            assert(ps.push((key, v))[0] == ps[0]);
            assert(ps[0].0@ != key@);
            assert forall|m: int| 0 <= m < ps.len() - 1 implies (#[trigger] ps.drop_first()[m]).0@ != key@ by {
                assert(ps.drop_first()[m] == ps[m + 1]);
            }
            lemma_lookup_push(ps.drop_first(), key, v);
            assert(ps.push((key, v)).drop_first() =~= ps.drop_first().push((key, v)));
            assert(lookup_in(ps.drop_first().push((key, v)), j) == if j == key@ {
                Some(v)
            } else {
                lookup_in(ps.drop_first(), j)
            });
        }
    }
}

/// Dropping the entries of `k` removes the lookup of `k` only.
pub proof fn lemma_lookup_without<V>(ps: Seq<(String, V)>, k: Seq<char>)
    ensures
        forall|j: Seq<char>| #[trigger] lookup_in(without(ps, k), j) == if j == k {
            None
        } else {
            lookup_in(ps, j)
        },
        absent_in(without(ps, k), k),
    decreases ps.len(),
{
    if ps.len() > 0 {
        lemma_lookup_without(ps.drop_last(), k);
        lemma_lookup_drop_last(ps);
        if ps.last().0@ != k {
            let w = without(ps.drop_last(), k);
            lemma_lookup_append_one(w, ps.last());
            assert forall|j: Seq<char>| #[trigger] lookup_in(without(ps, k), j) == if j == k {
                None
            } else {
                lookup_in(ps, j)
            } by {
                if j != k {
                    assert(lookup_in(w.push(ps.last()), j) == match lookup_in(w, j) {
                        Some(x) => Some(x),
                        None => if ps.last().0@ == j { Some(ps.last().1) } else { None },
                    });
                    assert(lookup_in(ps, j) == match lookup_in(ps.drop_last(), j) {
                        Some(x) => Some(x),
                        None => if ps.last().0@ == j { Some(ps.last().1) } else { None },
                    });
                }
            }
        } else {
            assert forall|j: Seq<char>| #[trigger] lookup_in(without(ps, k), j) == if j == k {
                None
            } else {
                lookup_in(ps, j)
            } by {
                if j != k {
                    assert(lookup_in(ps, j) == match lookup_in(ps.drop_last(), j) {
                        Some(x) => Some(x),
                        None => if ps.last().0@ == j { Some(ps.last().1) } else { None },
                    });
                }
            }
        }
    }
}

/// Looking up in a sequence with one more entry at the end.
pub proof fn lemma_lookup_append_one<V>(ps: Seq<(String, V)>, e: (String, V))
    ensures
        forall|j: Seq<char>| #[trigger] lookup_in(ps.push(e), j) == match lookup_in(ps, j) {
            Some(x) => Some(x),
            None => if e.0@ == j { Some(e.1) } else { None },
        },
    decreases ps.len(),
{
    assert forall|j: Seq<char>| #[trigger] lookup_in(ps.push(e), j) == match lookup_in(ps, j) {
        Some(x) => Some(x),
        None => if e.0@ == j { Some(e.1) } else { None },
    } by {
        if ps.len() == 0 {
            assert(ps.push(e).drop_first() =~= Seq::<(String, V)>::empty());
            assert(lookup_in(Seq::<(String, V)>::empty(), j) is None);
            assert(ps.push(e)[0] == e);
        } else {
            assert(ps.push(e)[0] == ps[0]);
            lemma_lookup_append_one(ps.drop_first(), e);
            assert(ps.push(e).drop_first() =~= ps.drop_first().push(e));
        }
    }
}

/// Looking up in a non-empty sequence through its prefix.
pub proof fn lemma_lookup_drop_last<V>(ps: Seq<(String, V)>)
    requires
        ps.len() > 0,
    ensures
        forall|j: Seq<char>| #[trigger] lookup_in(ps, j) == match lookup_in(ps.drop_last(), j) {
            Some(x) => Some(x),
            None => if ps.last().0@ == j { Some(ps.last().1) } else { None },
        },
{
    lemma_lookup_append_one(ps.drop_last(), ps.last());
    assert(ps.drop_last().push(ps.last()) =~= ps);
}

/// Two entry sequences with the same keys in the same order find each key at the
/// same position.
pub proof fn lemma_lookup_same_keys<V, W>(ps: Seq<(String, V)>, qs: Seq<(String, W)>, k: Seq<char>)
    requires
        ps.len() == qs.len(),
        forall|i: int| 0 <= i < ps.len() ==> (#[trigger] ps[i]).0@ == qs[i].0@,
    ensures
        lookup_in(ps, k) is None <==> lookup_in(qs, k) is None,
        lookup_in(ps, k) is Some ==> exists|i: int|
            first_at(ps, k, i) && first_at(qs, k, i) && lookup_in(ps, k) == Some(ps[i].1) && lookup_in(qs, k)
                == Some(qs[i].1),
{
    lemma_lookup_some(ps, k);
    lemma_lookup_some(qs, k);
    if absent_in(ps, k) {
        assert forall|j: int| 0 <= j < qs.len() implies (#[trigger] qs[j]).0@ != k by {
            assert(ps[j].0@ == qs[j].0@);
        }
    } else {
        let v = lookup_in(ps, k)->0;
        let i = choose|i: int| first_at(ps, k, i) && ps[i].1 == v;
        assert(first_at(qs, k, i)) by {
            assert(ps[i].0@ == qs[i].0@);
            assert forall|j: int| 0 <= j < i implies (#[trigger] qs[j]).0@ != k by {
                assert(ps[j].0@ == qs[j].0@);
            }
        }
        lemma_lookup_first(ps, k, i);
        lemma_lookup_first(qs, k, i);
    }
}

/// A map from strings to values, in insertion order.
#[derive(Clone)]
pub struct StrMap<V> {
    entries: Vec<(String, V)>,
}

impl<V> StrMap<V> {
    /// The entries, in insertion order.
    pub closed spec fn pairs(&self) -> Seq<(String, V)> {
        self.entries@
    }

    /// The keys, in insertion order.
    pub open spec fn keys(&self) -> Seq<Seq<char>> {
        self.pairs().map_values(|p: (String, V)| p.0@)
    }

    /// The value stored under `k`.
    pub open spec fn lookup(&self, k: Seq<char>) -> Option<V> {
        lookup_in(self.pairs(), k)
    }

    /// Some entry has key `k`.
    pub open spec fn has(&self, k: Seq<char>) -> bool {
        !absent_in(self.pairs(), k)
    }

    /// An empty map.
    pub fn new() -> (r: Self)
        ensures
            r.pairs() == Seq::<(String, V)>::empty(),
    {
        StrMap { entries: Vec::new() }
    }

    /// A map holding exactly these entries, in this order.
    pub fn from_pairs(entries: Vec<(String, V)>) -> (r: Self)
        ensures
            r.pairs() == entries@,
    {
        StrMap { entries }
    }

    /// Gives up the entries, in order.
    pub fn into_pairs(self) -> (r: Vec<(String, V)>)
        ensures
            r@ == self.pairs(),
    {
        self.entries
    }

    /// The number of entries.
    pub fn len(&self) -> (r: usize)
        ensures
            r == self.pairs().len(),
    {
        self.entries.len()
    }

    /// The key of entry `i`.
    pub fn key_at(&self, i: usize) -> (r: &String)
        requires
            i < self.pairs().len(),
        ensures
            *r == self.pairs()[i as int].0,
    {
        &self.entries[i].0
    }

    /// The value of entry `i`.
    pub fn value_at(&self, i: usize) -> (r: &V)
        requires
            i < self.pairs().len(),
        ensures
            *r == self.pairs()[i as int].1,
    {
        &self.entries[i].1
    }

    /// The position of the first entry whose key is `k`.
    pub fn find(&self, k: &str) -> (r: Option<usize>)
        ensures
            match r {
                Some(i) => first_at(self.pairs(), k@, i as int),
                None => absent_in(self.pairs(), k@),
            },
    {
        let mut i: usize = 0;
        while i < self.entries.len()
            invariant
                i <= self.entries@.len(),
                forall|j: int| 0 <= j < i ==> (#[trigger] self.entries@[j]).0@ != k@,
            decreases self.entries.len() - i,
        {
            if str_eq(self.entries[i].0.as_str(), k) {
                return Some(i);
            }
            i = i + 1;
        }
        None
    }

    /// The value stored under `k`.
    pub fn get(&self, k: &str) -> (r: Option<&V>)
        ensures
            match r {
                Some(v) => self.lookup(k@) == Some(*v),
                None => self.lookup(k@) is None,
            },
            r is Some <==> self.has(k@),
    {
        proof {
            lemma_lookup_some(self.pairs(), k@);
        }
        match self.find(k) {
            Some(i) => {
                proof {
                    lemma_lookup_first(self.pairs(), k@, i as int);
                }
                Some(&self.entries[i].1)
            },
            None => {
                proof {
                    lemma_lookup_absent(self.pairs(), k@);
                }
                None
            },
        }
    }

    /// Some entry has key `k`.
    pub fn contains_key(&self, k: &str) -> (r: bool)
        ensures
            r == self.has(k@),
    {
        self.find(k).is_some()
    }

    /// The value of entry `i`, to change in place.
    pub fn value_mut(&mut self, i: usize) -> (r: &mut V)
        requires
            i < old(self).pairs().len(),
        ensures
            *r == old(self).pairs()[i as int].1,
            final(self).pairs() == old(self).pairs().update(i as int, (old(self).pairs()[i as int].0, *final(r))),
    {
        &mut self.entries[i].1
    }

    /// Replaces the value of entry `i`, keeping its key and position; returns the old value.
    pub fn replace_at(&mut self, i: usize, v: V) -> (old_v: V)
        requires
            i < old(self).pairs().len(),
        ensures
            old_v == old(self).pairs()[i as int].1,
            final(self).pairs() == old(self).pairs().update(i as int, (old(self).pairs()[i as int].0, v)),
    {
        let (key, old_v) = self.entries.remove(i);
        self.entries.insert(i, (key, v));
        assert(self.entries@ =~= old(self).entries@.update(i as int, (key, v)));
        old_v
    }

    /// Stores `v` under `k`: the first entry of `k` is overwritten in place, or a new
    /// entry is appended.
    pub fn insert(&mut self, k: String, v: V)
        ensures
            final(self).pairs() == match old(self).find_spec(k@) {
                Some(i) => old(self).pairs().update(i, (old(self).pairs()[i].0, v)),
                None => old(self).pairs().push((k, v)),
            },
            forall|j: Seq<char>| #[trigger] final(self).lookup(j) == if j == k@ {
                Some(v)
            } else {
                old(self).lookup(j)
            },
            unique_keys(old(self).pairs()) ==> unique_keys(final(self).pairs()),
            final(self).pairs().len() >= old(self).pairs().len(),
            forall|j: int|
                0 <= j < final(self).pairs().len() ==> (j < old(self).pairs().len() && #[trigger] final(self).pairs()[j]
                    == old(self).pairs()[j]) || (final(self).pairs()[j].0@ == k@ && final(self).pairs()[j].1 == v),
    {
        match self.find(k.as_str()) {
            Some(i) => {
                proof {
                    lemma_first_unique(self.pairs(), k@, i as int);
                    lemma_lookup_update(self.pairs(), k@, i as int, self.pairs()[i as int].0, v);
                }
                self.replace_at(i, v);
            },
            None => {
                proof {
                    lemma_lookup_push(self.pairs(), k, v);
                }
                self.entries.push((k, v));
            },
        }
    }

    /// The position of the first entry of `k`, if any.
    pub open spec fn find_spec(&self, k: Seq<char>) -> Option<int> {
        if absent_in(self.pairs(), k) {
            None
        } else {
            Some(choose|i: int| first_at(self.pairs(), k, i))
        }
    }

    /// Drops every entry of `k`; returns the value that was stored under `k`.
    pub fn remove(&mut self, k: &str) -> (r: Option<V>)
        ensures
            r == old(self).lookup(k@),
            final(self).pairs() == without(old(self).pairs(), k@),
            forall|j: Seq<char>| #[trigger] final(self).lookup(j) == if j == k@ {
                None
            } else {
                old(self).lookup(j)
            },
    {
        let mut rest: Vec<(String, V)> = Vec::new();
        std::mem::swap(&mut rest, &mut self.entries);
        let ghost all = rest@;
        let mut kept: Vec<(String, V)> = Vec::new();
        let mut found: Option<V> = None;
        let ghost mut n: int = 0;
        assert(all.take(0) =~= Seq::<(String, V)>::empty());
        while rest.len() > 0
            invariant
                0 <= n <= all.len(),
                rest@ == all.skip(n),
                kept@ == without(all.take(n), k@),
                found == lookup_in(all.take(n), k@),
            decreases rest.len(),
        {
            let e = rest.remove(0);
            proof {
                assert(all.take(n + 1).drop_last() =~= all.take(n));
                assert(all.take(n + 1).last() == e);
                assert(rest@ =~= all.skip(n + 1));
                lemma_lookup_drop_last(all.take(n + 1));
            }
            if str_eq(e.0.as_str(), k) {
                if found.is_none() {
                    found = Some(e.1);
                }
            } else {
                kept.push(e);
            }
            proof {
                n = n + 1;
            }
        }
        assert(all.take(n) =~= all);
        self.entries = kept;
        proof {
            lemma_lookup_without(all, k@);
        }
        found
    }
}

impl StrMap<String> {
    /// A copy of this map, entry by entry.
    pub fn copy(&self) -> (r: StrMap<String>)
        ensures
            r.pairs() == self.pairs(),
    {
        let mut entries: Vec<(String, String)> = Vec::new();
        let mut i: usize = 0;
        while i < self.entries.len()
            invariant
                i <= self.entries@.len(),
                entries@ == self.entries@.take(i as int),
            decreases self.entries.len() - i,
        {
            let k = self.entries[i].0.clone();
            let v = self.entries[i].1.clone();
            entries.push((k, v));
            i = i + 1;
            assert(entries@ =~= self.entries@.take(i as int));
        }
        assert(self.entries@.take(self.entries@.len() as int) =~= self.entries@);
        StrMap { entries }
    }
}

/// The first entry of `k` is unique.
pub proof fn lemma_first_unique<V>(ps: Seq<(String, V)>, k: Seq<char>, i: int)
    requires
        first_at(ps, k, i),
    ensures
        forall|j: int| first_at(ps, k, j) ==> j == i,
{
    assert forall|j: int| first_at(ps, k, j) implies j == i by {
        if j < i {
            assert(ps[j].0@ != k);
        } else if j > i {
            assert(ps[i].0@ != k);
        }
    }
}

} // verus!
