//! A map kept as a list of entries with distinct keys.

use vstd::prelude::*;
use crate::word::{Address, Word};

verus! {

/// A key of a [`Table`]: a value that can be told apart from any other of its type.
pub trait Key: Copy {
    /// Whether the two keys are the same.
    fn same(&self, other: &Self) -> (r: bool)
        ensures
            r == (*self == *other),
    ;
}

impl Key for Word {
    fn same(&self, other: &Self) -> (r: bool) {
        *self == *other
    }
}

impl Key for Address {
    fn same(&self, other: &Self) -> (r: bool) {
        *self == *other
    }
}

/// Whether no key occurs twice among the entries.
pub open spec fn distinct_keys<K, T>(s: Seq<(K, T)>) -> bool {
    forall|i: int, j: int| 0 <= i < j < s.len() ==> s[i].0 != s[j].0
}

/// Whether some entry has the key `k`.
pub open spec fn has_key<K, T>(s: Seq<(K, T)>, k: K) -> bool {
    exists|i: int| 0 <= i < s.len() && (#[trigger] s[i]).0 == k
}

/// The map that the entries make, a later entry going before an earlier one.
pub open spec fn map_of<K, T>(s: Seq<(K, T)>) -> Map<K, T>
    decreases s.len(),
{
    if s.len() == 0 {
        Map::empty()
    } else {
        map_of(s.drop_last()).insert(s.last().0, s.last().1)
    }
}

/// The map of entries with distinct keys holds each entry, and nothing else.
pub proof fn lemma_map_of<K, T>(s: Seq<(K, T)>)
    requires
        distinct_keys(s),
    ensures
        forall|k: K| #[trigger] map_of(s).contains_key(k) <==> has_key(s, k),
        forall|i: int|
            0 <= i < s.len() ==> map_of(s).contains_key((#[trigger] s[i]).0) && map_of(s)[s[i].0]
                == s[i].1,
    decreases s.len(),
{
    if s.len() > 0 {
        let t = s.drop_last();
        let n = s.len() - 1;
        lemma_map_of(t);
        assert(t.len() == n);
        assert(forall|i: int| 0 <= i < n ==> t[i] == s[i]);
        assert(map_of(s) == map_of(t).insert(s.last().0, s.last().1));
        assert forall|k: K| #[trigger] map_of(s).contains_key(k) <==> has_key(s, k) by {
            if has_key(t, k) {
                let i = choose|i: int| 0 <= i < t.len() && (#[trigger] t[i]).0 == k;
                assert(s[i].0 == k);
                assert(has_key(s, k));
            }
            if has_key(s, k) {
                let i = choose|i: int| 0 <= i < s.len() && (#[trigger] s[i]).0 == k;
                if i < n {
                    assert(t[i].0 == k);
                    assert(has_key(t, k));
                } else {
                    assert(k == s.last().0);
                }
            }
            if k == s.last().0 {
                assert(s[n].0 == k);
                assert(has_key(s, k));
            }
            assert(map_of(s).contains_key(k) <==> (k == s.last().0 || map_of(t).contains_key(k)));
        }
        assert forall|i: int| 0 <= i < s.len() implies map_of(s).contains_key(
            (#[trigger] s[i]).0,
        ) && map_of(s)[s[i].0] == s[i].1 by {
            if i < n {
                assert(t[i] == s[i]);
                assert(s[i].0 != s[n].0);
            }
        }
    }
}

/// A finite map from keys to values.
#[derive(Debug)]
pub struct Table<K: Key, T> {
    entries: Vec<(K, T)>,
}

impl<K: Key, T> View for Table<K, T> {
    type V = Map<K, T>;

    closed spec fn view(&self) -> Map<K, T> {
        map_of(self.entries@)
    }
}

impl<K: Key, T> Table<K, T> {
    #[verifier::type_invariant]
    spec fn keys_are_distinct(self) -> bool {
        distinct_keys(self.entries@)
    }

    /// No key occurs twice. This holds of every table that a program holds.
    pub closed spec fn wf(&self) -> bool {
        distinct_keys(self.entries@)
    }

    /// The entries in the order in which the table holds them.
    pub closed spec fn spec_entries(&self) -> Seq<(K, T)> {
        self.entries@
    }

    /// The entries are those of the map, each once.
    pub proof fn lemma_entries(self)
        requires
            self.wf(),
        ensures
            distinct_keys(self.spec_entries()),
            self@ == map_of(self.spec_entries()),
            forall|k: K| #[trigger] self@.contains_key(k) <==> has_key(self.spec_entries(), k),
            forall|i: int|
                0 <= i < self.spec_entries().len() ==> self@.contains_key(
                    (#[trigger] self.spec_entries()[i]).0,
                ) && self@[self.spec_entries()[i].0] == self.spec_entries()[i].1,
    {
        lemma_map_of(self.entries@);
    }

    /// An empty table.
    pub fn new() -> (r: Self)
        ensures
            r@ == Map::<K, T>::empty(),
            r.spec_entries().len() == 0,
    {
        Table { entries: Vec::new() }
    }

    /// The number of entries.
    pub fn len(&self) -> (r: usize)
        ensures
            self.wf(),
            r == self.spec_entries().len(),
    {
        proof {
            use_type_invariant(self);
        }
        self.entries.len()
    }

    /// The entry at place `i`, which is an entry of the map.
    pub fn entry(&self, i: usize) -> (r: &(K, T))
        requires
            i < self.spec_entries().len(),
        ensures
            *r == self.spec_entries()[i as int],
            self@.contains_key(r.0),
            self@[r.0] == r.1,
    {
        proof {
            use_type_invariant(self);
            lemma_map_of(self.entries@);
        }
        &self.entries[i]
    }

    fn find(&self, key: &K) -> (r: Option<usize>)
        ensures
            match r {
                Some(i) => i < self.entries@.len() && self.entries@[i as int].0 == *key,
                None => !has_key(self.entries@, *key),
            },
    {
        let mut i: usize = 0;
        while i < self.entries.len()
            invariant
                i <= self.entries@.len(),
                forall|j: int| 0 <= j < i ==> (#[trigger] self.entries@[j]).0 != *key,
            decreases self.entries@.len() - i,
        {
            if key.same(&self.entries[i].0) {
                return Some(i);
            }
            i = i + 1;
        }
        None
    }

    /// Whether the table has an entry for `key`.
    pub fn contains_key(&self, key: &K) -> (r: bool)
        ensures
            r == self@.contains_key(*key),
    {
        proof {
            use_type_invariant(self);
            lemma_map_of(self.entries@);
        }
        self.find(key).is_some()
    }

    /// The value that the table holds for `key`.
    pub fn get(&self, key: &K) -> (r: Option<&T>)
        ensures
            match r {
                Some(v) => self@.contains_key(*key) && *v == self@[*key],
                None => !self@.contains_key(*key),
            },
    {
        proof {
            use_type_invariant(self);
            lemma_map_of(self.entries@);
        }
        match self.find(key) {
            Some(i) => Some(&self.entries[i].1),
            None => None,
        }
    }

    /// Sets the value for `key`, in place of the one that was there, if any.
    pub fn insert(&mut self, key: K, value: T)
        ensures
            final(self)@ == old(self)@.insert(key, value),
    {
        let mut taken: Table<K, T> = Table::new();
        core::mem::swap(self, &mut taken);
        proof {
            use_type_invariant(&taken);
        }
        let found = taken.find(&key);
        let mut entries = taken.entries;
        let ghost before = entries@;
        proof {
            lemma_map_of(before);
        }
        match found {
            Some(i) => {
                entries.set(i, (key, value));
                proof {
                    let after = entries@;
                    assert(distinct_keys(after)) by {
                        assert forall|a: int, b: int| 0 <= a < b < after.len() implies after[a].0
                            != after[b].0 by {
                            assert(after[a].0 == before[a].0);
                            assert(after[b].0 == before[b].0);
                        }
                    }
                    lemma_map_of(after);
                    assert forall|k: K| #[trigger]
                        map_of(after).contains_key(k) <==> map_of(before).insert(
                            key,
                            value,
                        ).contains_key(k) by {
                        if has_key(after, k) {
                            let j = choose|j: int|
                                0 <= j < after.len() && (#[trigger] after[j]).0 == k;
                            assert(before[j].0 == k);
                        }
                        if has_key(before, k) {
                            let j = choose|j: int|
                                0 <= j < before.len() && (#[trigger] before[j]).0 == k;
                            assert(after[j].0 == k);
                        }
                    }
                    assert forall|k: K| #[trigger]
                        map_of(after).contains_key(k) implies map_of(after)[k] == map_of(
                        before,
                    ).insert(key, value)[k] by {
                        let j = choose|j: int| 0 <= j < after.len() && (#[trigger] after[j]).0 == k;
                        assert(map_of(after)[after[j].0] == after[j].1);
                        if j != i {
                            assert(before[j] == after[j]);
                            assert(before[j].0 != before[i as int].0);
                            assert(map_of(before)[before[j].0] == before[j].1);
                        }
                    }
                    assert(map_of(after) =~= map_of(before).insert(key, value));
                }
            },
            None => {
                entries.push((key, value));
                proof {
                    let after = entries@;
                    assert(after.drop_last() =~= before);
                    assert forall|a: int, b: int| 0 <= a < b < after.len() implies after[a].0
                        != after[b].0 by {
                        assert(after[a] == before[a]);
                        if b < before.len() {
                            assert(after[b] == before[b]);
                        }
                    }
                }
            },
        }
        *self = Table { entries };
    }

    /// Takes the entry for `key` out and gives its value, if there is one.
    pub fn remove(&mut self, key: &K) -> (r: Option<T>)
        ensures
            final(self)@ == old(self)@.remove(*key),
            r == if old(self)@.contains_key(*key) {
                Some(old(self)@[*key])
            } else {
                None
            },
    {
        let mut taken: Table<K, T> = Table::new();
        core::mem::swap(self, &mut taken);
        proof {
            use_type_invariant(&taken);
        }
        let found = taken.find(key);
        let mut entries = taken.entries;
        let ghost before = entries@;
        proof {
            lemma_map_of(before);
        }
        match found {
            Some(i) => {
                let (_, value) = entries.remove(i);
                proof {
                    let after = entries@;
                    assert forall|a: int| 0 <= a < after.len() implies #[trigger] after[a]
                        == before[if a < i {
                        a
                    } else {
                        a + 1
                    }] by {}
                    assert(distinct_keys(after)) by {
                        assert forall|a: int, b: int| 0 <= a < b < after.len() implies after[a].0
                            != after[b].0 by {
                            let a0 = if a < i {
                                a
                            } else {
                                a + 1
                            };
                            let b0 = if b < i {
                                b
                            } else {
                                b + 1
                            };
                            assert(after[a] == before[a0]);
                            assert(after[b] == before[b0]);
                        }
                    }
                    lemma_map_of(after);
                    assert forall|k: K| #[trigger]
                        map_of(after).contains_key(k) <==> map_of(before).remove(*key).contains_key(
                            k,
                        ) by {
                        if has_key(after, k) {
                            let j = choose|j: int|
                                0 <= j < after.len() && (#[trigger] after[j]).0 == k;
                            let j0 = if j < i {
                                j
                            } else {
                                j + 1
                            };
                            assert(after[j] == before[j0]);
                            assert(before[j0].0 == k);
                            assert(before[j0].0 != before[i as int].0);
                        }
                        if has_key(before, k) && k != *key {
                            let j = choose|j: int|
                                0 <= j < before.len() && (#[trigger] before[j]).0 == k;
                            let j1 = if j < i {
                                j
                            } else {
                                j - 1
                            };
                            assert(after[j1] == before[j]);
                            assert(after[j1].0 == k);
                        }
                    }
                    assert forall|k: K| #[trigger]
                        map_of(after).contains_key(k) implies map_of(after)[k] == map_of(
                        before,
                    ).remove(*key)[k] by {
                        let j = choose|j: int| 0 <= j < after.len() && (#[trigger] after[j]).0 == k;
                        let j0 = if j < i {
                            j
                        } else {
                            j + 1
                        };
                        assert(after[j] == before[j0]);
                        assert(map_of(after)[after[j].0] == after[j].1);
                        assert(map_of(before)[before[j0].0] == before[j0].1);
                    }
                    assert(map_of(after) =~= map_of(before).remove(*key));
                    assert(map_of(before)[before[i as int].0] == before[i as int].1);
                }
                *self = Table { entries };
                Some(value)
            },
            None => {
                assert(map_of(before) =~= map_of(before).remove(*key));
                *self = Table { entries };
                None
            },
        }
    }
}

impl<K: Key, T: Clone> Clone for Table<K, T> {
    /// A table with the same keys, and for each key a clone of its value.
    fn clone(&self) -> (r: Self)
        ensures
            r@.dom() =~= self@.dom(),
            forall|k: K| #[trigger]
                r@.contains_key(k) ==> vstd::pervasive::cloned::<T>(self@[k], r@[k]),
    {
        proof {
            use_type_invariant(self);
        }
        let n: usize = self.entries.len();
        let mut entries: Vec<(K, T)> = Vec::new();
        let mut i: usize = 0;
        while i < n
            invariant
                i <= n,
                n == self.entries@.len(),
                entries@.len() == i,
                forall|j: int|
                    0 <= j < i ==> (#[trigger] entries@[j]).0 == self.entries@[j].0
                        && vstd::pervasive::cloned::<T>(self.entries@[j].1, entries@[j].1),
            decreases n - i,
        {
            let key: K = self.entries[i].0;
            let value: T = self.entries[i].1.clone();
            entries.push((key, value));
            i = i + 1;
        }
        proof {
            let before = self.entries@;
            let after = entries@;
            assert forall|a: int, b: int| 0 <= a < b < after.len() implies after[a].0
                != after[b].0 by {
                assert(after[a].0 == before[a].0);
                assert(after[b].0 == before[b].0);
            }
            lemma_map_of(before);
            lemma_map_of(after);
            assert forall|k: K| #[trigger]
                map_of(after).contains_key(k) <==> map_of(before).contains_key(k) by {
                if has_key(after, k) {
                    let j = choose|j: int| 0 <= j < after.len() && (#[trigger] after[j]).0 == k;
                    assert(before[j].0 == k);
                }
                if has_key(before, k) {
                    let j = choose|j: int| 0 <= j < before.len() && (#[trigger] before[j]).0 == k;
                    assert(after[j].0 == k);
                }
            }
            assert forall|k: K| #[trigger] map_of(after).contains_key(k) implies vstd::pervasive::cloned::<
                T,
            >(map_of(before)[k], map_of(after)[k]) by {
                let j = choose|j: int| 0 <= j < after.len() && (#[trigger] after[j]).0 == k;
                assert(before[j].0 == k);
                assert(map_of(after)[after[j].0] == after[j].1);
                assert(map_of(before)[before[j].0] == before[j].1);
            }
        }
        Table { entries }
    }
}

/// The entries of `m` whose value is not zero.
pub open spec fn nonzero_part<K>(m: Map<K, Word>) -> Map<K, Word> {
    Map::new(|k: K| m.contains_key(k) && m[k]@ != 0, |k: K| m[k])
}

impl<K: Key> Table<K, Word> {
    /// Whether every entry of this table is an entry of `other`.
    fn within(&self, other: &Table<K, Word>) -> (r: bool)
        ensures
            r == (forall|k: K| #[trigger]
                self@.contains_key(k) ==> other@.contains_key(k) && other@[k] == self@[k]),
    {
        proof {
            use_type_invariant(self);
            lemma_map_of(self.entries@);
        }
        let n: usize = self.entries.len();
        let mut i: usize = 0;
        while i < n
            invariant
                i <= n,
                n == self.entries@.len(),
                distinct_keys(self.entries@),
                forall|j: int|
                    0 <= j < i ==> other@.contains_key((#[trigger] self.entries@[j]).0)
                        && other@[self.entries@[j].0] == self.entries@[j].1,
            decreases n - i,
        {
            let key: K = self.entries[i].0;
            let value: Word = self.entries[i].1;
            let same = match other.get(&key) {
                Some(v) => *v == value,
                None => false,
            };
            if !same {
                proof {
                    lemma_map_of(self.entries@);
                    assert(self@.contains_key(self.entries@[i as int].0));
                    assert(self@[key] == value);
                }
                return false;
            }
            i = i + 1;
        }
        proof {
            lemma_map_of(self.entries@);
            assert forall|k: K| #[trigger] self@.contains_key(k) implies other@.contains_key(k)
                && other@[k] == self@[k] by {
                let j = choose|j: int|
                    0 <= j < self.entries@.len() && (#[trigger] self.entries@[j]).0 == k;
                assert(self@[self.entries@[j].0] == self.entries@[j].1);
            }
        }
        true
    }

    /// Whether the two tables hold the same entries, in whatever order.
    pub fn same_as(&self, other: &Table<K, Word>) -> (r: bool)
        ensures
            r == (self@ == other@),
    {
        let r = self.within(other) && other.within(self);
        proof {
            if r {
                assert(self@ =~= other@);
            }
        }
        r
    }

    /// Takes out every entry whose value is zero.
    pub fn remove_zeros(&mut self)
        ensures
            final(self)@ == nonzero_part(old(self)@),
    {
        proof {
            use_type_invariant(&*self);
        }
        let mut out: Table<K, Word> = Table::new();
        let n: usize = self.entries.len();
        let mut i: usize = 0;
        assert(self.entries@.take(0) =~= Seq::<(K, Word)>::empty());
        assert(out@ =~= nonzero_part(map_of(self.entries@.take(0))));
        while i < n
            invariant
                i <= n,
                n == self.entries@.len(),
                self.entries@ == old(self).entries@,
                distinct_keys(self.entries@),
                out@ == nonzero_part(map_of(self.entries@.take(i as int))),
            decreases n - i,
        {
            let k: K = self.entries[i].0;
            let v: Word = self.entries[i].1;
            proof {
                let prefix = self.entries@.take(i as int);
                let next = self.entries@.take(i + 1);
                assert(next.drop_last() =~= prefix);
                assert(next.last() == self.entries@[i as int]);
                assert(map_of(next) == map_of(prefix).insert(k, v));
                assert(distinct_keys(prefix));
                lemma_map_of(prefix);
                if has_key(prefix, k) {
                    let j = choose|j: int| 0 <= j < prefix.len() && (#[trigger] prefix[j]).0 == k;
                    assert(self.entries@[j].0 == k);
                }
                assert(!map_of(prefix).contains_key(k));
            }
            if !v.is_zero() {
                out.insert(k, v);
            }
            assert(out@ =~= nonzero_part(map_of(self.entries@.take(i + 1))));
            i = i + 1;
        }
        assert(self.entries@.take(n as int) =~= self.entries@);
        *self = out;
    }
}

} // verus!
