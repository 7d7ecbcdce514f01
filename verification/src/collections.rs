//! A sparse key/value store with a mathematical `Map` view.
//!
//! `VecMap` is the executable representation used for pool data, balances,
//! delegation shares and per-epoch deltas. Keys are compared structurally
//! through [`MapKey`], so every operation's contract is stated over the
//! abstract `Map` the container denotes.

use vstd::prelude::*;

verus! {

/// Executable key equality that agrees with structural equality in
/// specifications. Implemented by every identifier type used as a map key.
pub trait MapKey: Copy + Sized {
    fn key_eq(&self, other: &Self) -> (b: bool)
        ensures
            b == (*self == *other),
    ;
}

impl MapKey for u64 {
    fn key_eq(&self, other: &Self) -> (b: bool)
        ensures
            b == (*self == *other),
    {
        *self == *other
    }
}

/// No two entries of `s` share a key.
pub open spec fn keys_unique<K, V>(s: Seq<(K, V)>) -> bool {
    forall|i: int, j: int| 0 <= i < j < s.len() ==> s[i].0 != s[j].0
}

/// The map denoted by an association list; later entries shadow earlier ones,
/// which is irrelevant here because the container keeps its keys unique.
pub open spec fn seq_to_map<K, V>(s: Seq<(K, V)>) -> Map<K, V>
    decreases s.len(),
{
    if s.len() == 0 {
        Map::empty()
    } else {
        seq_to_map(s.drop_last()).insert(s.last().0, s.last().1)
    }
}

pub proof fn lemma_seq_to_map_contains<K, V>(s: Seq<(K, V)>, k: K)
    ensures
        seq_to_map(s).dom().contains(k) <==> exists|i: int| 0 <= i < s.len() && s[i].0 == k,
    decreases s.len(),
{
    if s.len() > 0 {
        lemma_seq_to_map_contains(s.drop_last(), k);
        if k == s.last().0 {
            assert(s[s.len() - 1].0 == k);
        } else {
            if exists|i: int| 0 <= i < s.len() && s[i].0 == k {
                let i = choose|i: int| 0 <= i < s.len() && s[i].0 == k;
                assert(i < s.len() - 1);
                assert(s.drop_last()[i].0 == k);
            }
            if exists|i: int| 0 <= i < s.drop_last().len() && s.drop_last()[i].0 == k {
                let i = choose|i: int| 0 <= i < s.drop_last().len() && s.drop_last()[i].0 == k;
                assert(s[i].0 == k);
            }
        }
    }
}

pub proof fn lemma_seq_to_map_last<K, V>(s: Seq<(K, V)>, i: int)
    requires
        0 <= i < s.len(),
        forall|j: int| i < j < s.len() ==> s[j].0 != s[i].0,
    ensures
        seq_to_map(s).dom().contains(s[i].0),
        seq_to_map(s)[s[i].0] == s[i].1,
    decreases s.len(),
{
    if i < s.len() - 1 {
        lemma_seq_to_map_last(s.drop_last(), i);
        assert(s.drop_last()[i] == s[i]);
        assert(s.last().0 != s[i].0);
    }
}

pub proof fn lemma_seq_to_map_finite<K, V>(s: Seq<(K, V)>)
    ensures
        seq_to_map(s).dom().finite(),
    decreases s.len(),
{
    if s.len() > 0 {
        lemma_seq_to_map_finite(s.drop_last());
    }
}

pub proof fn lemma_seq_to_map_len<K, V>(s: Seq<(K, V)>)
    requires
        keys_unique(s),
    ensures
        seq_to_map(s).dom().finite(),
        seq_to_map(s).dom().len() == s.len(),
    decreases s.len(),
{
    lemma_seq_to_map_finite(s);
    if s.len() > 0 {
        lemma_seq_to_map_len(s.drop_last());
        lemma_seq_to_map_contains(s.drop_last(), s.last().0);
        assert(forall|i: int| 0 <= i < s.drop_last().len() ==> s.drop_last()[i] == s[i]);
        assert(!seq_to_map(s.drop_last()).dom().contains(s.last().0));
    }
}

pub proof fn lemma_seq_to_map_update<K, V>(s: Seq<(K, V)>, i: int, v: V)
    requires
        0 <= i < s.len(),
        forall|j: int| i < j < s.len() ==> s[j].0 != s[i].0,
    ensures
        seq_to_map(s.update(i, (s[i].0, v))) == seq_to_map(s).insert(s[i].0, v),
    decreases s.len(),
{
    let t = s.update(i, (s[i].0, v));
    if i == s.len() - 1 {
        assert(t.drop_last() =~= s.drop_last());
        assert(seq_to_map(t) =~= seq_to_map(s).insert(s[i].0, v));
    } else {
        lemma_seq_to_map_update(s.drop_last(), i, v);
        assert(t.drop_last() =~= s.drop_last().update(i, (s[i].0, v)));
        assert(t.last() == s.last());
        assert(s[i].0 != s.last().0);
        assert(seq_to_map(t) =~= seq_to_map(s).insert(s[i].0, v));
    }
}

pub proof fn lemma_seq_to_map_remove<K, V>(s: Seq<(K, V)>, i: int)
    requires
        keys_unique(s),
        0 <= i < s.len(),
    ensures
        seq_to_map(s.remove(i)) == seq_to_map(s).remove(s[i].0),
    decreases s.len(),
{
    let t = s.remove(i);
    if i == s.len() - 1 {
        assert(t =~= s.drop_last());
        lemma_seq_to_map_contains(s.drop_last(), s.last().0);
        assert(forall|j: int| 0 <= j < s.drop_last().len() ==> s.drop_last()[j] == s[j]);
        assert(!seq_to_map(s.drop_last()).dom().contains(s.last().0));
        assert(seq_to_map(t) =~= seq_to_map(s).remove(s[i].0));
    } else {
        lemma_seq_to_map_remove(s.drop_last(), i);
        assert(t.drop_last() =~= s.drop_last().remove(i));
        assert(t.last() == s.last());
        assert(s[i].0 != s.last().0);
        assert(seq_to_map(t) =~= seq_to_map(s).remove(s[i].0));
    }
}

/// A key/value store over a vector of entries with pairwise-distinct keys.
#[derive(Debug, PartialEq, Eq)]
pub struct VecMap<K, V> {
    entries: Vec<(K, V)>,
}

impl<K, V> View for VecMap<K, V> {
    type V = Map<K, V>;

    closed spec fn view(&self) -> Map<K, V> {
        seq_to_map(self.entries@)
    }
}

impl<K: MapKey, V> VecMap<K, V> {
    /// Keys are pairwise distinct; every constructor establishes this and
    /// every operation preserves it.
    pub closed spec fn wf(&self) -> bool {
        keys_unique(self.entries@)
    }

    pub closed spec fn spec_len(&self) -> nat {
        self.entries@.len()
    }

    pub proof fn lemma_len(&self)
        requires
            self.wf(),
        ensures
            self@.dom().finite(),
            self@.dom().len() == self.spec_len(),
    {
        lemma_seq_to_map_len(self.entries@);
    }

    pub fn new() -> (r: Self)
        ensures
            r.wf(),
            r@ == Map::<K, V>::empty(),
            r.spec_len() == 0,
    {
        VecMap { entries: Vec::new() }
    }

    /// Index of the last entry with this key; the last one is what the map
    /// view denotes, so lookups need no uniqueness assumption.
    fn find_idx(&self, key: &K) -> (r: Option<usize>)
        ensures
            match r {
                Some(i) => i < self.entries@.len() && self.entries@[i as int].0 == *key && forall|
                    j: int,
                |
                    i < j < self.entries@.len() ==> self.entries@[j].0 != *key,
                None => forall|i: int| 0 <= i < self.entries@.len() ==> self.entries@[i].0 != *key,
            },
    {
        let mut i: usize = self.entries.len();
        while i > 0
            invariant
                i <= self.entries@.len(),
                forall|j: int| i <= j < self.entries@.len() ==> self.entries@[j].0 != *key,
            decreases i,
        {
            i = i - 1;
            if self.entries[i].0.key_eq(key) {
                return Some(i);
            }
        }
        None
    }

    pub fn contains_key(&self, key: &K) -> (r: bool)
        ensures
            r == self@.dom().contains(*key),
    {
        proof {
            lemma_seq_to_map_contains(self.entries@, *key);
        }
        self.find_idx(key).is_some()
    }

    pub fn get(&self, key: &K) -> (r: Option<&V>)
        ensures
            match r {
                Some(v) => self@.dom().contains(*key) && *v == self@[*key],
                None => !self@.dom().contains(*key),
            },
    {
        proof {
            lemma_seq_to_map_contains(self.entries@, *key);
        }
        match self.find_idx(key) {
            Some(i) => {
                proof {
                    lemma_seq_to_map_last(self.entries@, i as int);
                }
                Some(&self.entries[i].1)
            },
            None => None,
        }
    }

    pub fn insert(&mut self, key: K, value: V)
        ensures
            old(self).wf() ==> final(self).wf(),
            final(self)@ == old(self)@.insert(key, value),
            final(self).spec_len() == if old(self)@.dom().contains(key) {
                old(self).spec_len()
            } else {
                old(self).spec_len() + 1
            },
    {
        proof {
            lemma_seq_to_map_contains(self.entries@, key);
        }
        match self.find_idx(&key) {
            Some(i) => {
                proof {
                    lemma_seq_to_map_update(self.entries@, i as int, value);
                }
                self.entries.set(i, (key, value));
            },
            None => {
                self.entries.push((key, value));
                proof {
                    assert(self.entries@.drop_last() =~= old(self).entries@);
                }
            },
        }
    }

    pub fn remove(&mut self, key: &K)
        requires
            old(self).wf(),
        ensures
            final(self).wf(),
            final(self)@ == old(self)@.remove(*key),
            final(self).spec_len() == if old(self)@.dom().contains(*key) {
                (old(self).spec_len() - 1) as nat
            } else {
                old(self).spec_len()
            },
    {
        proof {
            lemma_seq_to_map_contains(self.entries@, *key);
        }
        match self.find_idx(key) {
            Some(i) => {
                proof {
                    lemma_seq_to_map_remove(self.entries@, i as int);
                    assert forall|a: int, b: int|
                        0 <= a < b < self.entries@.remove(i as int).len() implies self.entries@.remove(
                        i as int,
                    )[a].0 != self.entries@.remove(i as int)[b].0 by {
                        let s = self.entries@;
                        let a0 = if a < i { a } else { a + 1 };
                        let b0 = if b < i { b } else { b + 1 };
                        assert(s.remove(i as int)[a] == s[a0]);
                        assert(s.remove(i as int)[b] == s[b0]);
                    }
                }
                self.entries.remove(i);
            },
            None => {
                proof {
                    assert(self@ =~= old(self)@.remove(*key));
                }
            },
        }
    }

    pub fn len(&self) -> (r: usize)
        requires
            self.wf(),
        ensures
            r == self.spec_len(),
            r == self@.dom().len(),
    {
        proof {
            self.lemma_len();
        }
        self.entries.len()
    }

    pub fn is_empty(&self) -> (r: bool)
        ensures
            r == (self@ == Map::<K, V>::empty()),
    {
        proof {
            if self.entries@.len() == 0 {
                assert(self@ =~= Map::<K, V>::empty());
            } else {
                lemma_seq_to_map_contains(self.entries@, self.entries@[0].0);
            }
        }
        self.entries.len() == 0
    }

    /// The keys of the store, in entry order; without repetition when the
    /// store is well formed.
    pub fn keys(&self) -> (r: Vec<K>)
        ensures
            r@.len() == self.spec_len(),
            forall|i: int| 0 <= i < r@.len() ==> #[trigger] self@.dom().contains(r@[i]),
            self.wf() ==> forall|i: int, j: int| 0 <= i < j < r@.len() ==> r@[i] != r@[j],
            forall|k: K| self@.dom().contains(k) ==> exists|i: int| 0 <= i < r@.len() && r@[i] == k,
    {
        let n = self.entries.len();
        let mut r: Vec<K> = Vec::new();
        let mut i: usize = 0;
        while i < n
            invariant
                n == self.entries@.len(),
                i <= n,
                r@.len() == i,
                forall|j: int| 0 <= j < i ==> r@[j] == self.entries@[j].0,
            decreases n - i,
        {
            r.push(self.entries[i].0);
            i = i + 1;
        }
        proof {
            assert forall|i2: int| 0 <= i2 < r@.len() implies #[trigger] self@.dom().contains(
                r@[i2],
            ) by {
                lemma_seq_to_map_contains(self.entries@, r@[i2]);
                assert(self.entries@[i2].0 == r@[i2]);
            }
            assert forall|k: K| self@.dom().contains(k) implies exists|i2: int|
                0 <= i2 < r@.len() && r@[i2] == k by {
                lemma_seq_to_map_contains(self.entries@, k);
                let i2 = choose|i2: int|
                    0 <= i2 < self.entries@.len() && self.entries@[i2].0 == k;
                assert(r@[i2] == k);
            }
        }
        r
    }
}

impl<K: MapKey, V: Copy> VecMap<K, V> {
    /// The value stored for `key`, copied out.
    pub fn get_copied(&self, key: &K) -> (r: Option<V>)
        ensures
            r == if self@.dom().contains(*key) {
                Some(self@[*key])
            } else {
                None::<V>
            },
    {
        match self.get(key) {
            Some(v) => Some(*v),
            None => None,
        }
    }

    /// An entry-by-entry copy of the store.
    pub fn duplicate(&self) -> (r: Self)
        requires
            self.wf(),
        ensures
            r.wf(),
            r@ == self@,
            r.spec_len() == self.spec_len(),
    {
        let n = self.entries.len();
        let mut entries: Vec<(K, V)> = Vec::new();
        let mut i: usize = 0;
        while i < n
            invariant
                self.wf(),
                n == self.entries@.len(),
                i <= n,
                entries@.len() == i,
                forall|j: int| 0 <= j < i ==> entries@[j] == self.entries@[j],
            decreases n - i,
        {
            let e = &self.entries[i];
            entries.push((e.0, e.1));
            i = i + 1;
        }
        proof {
            assert(entries@ =~= self.entries@);
        }
        VecMap { entries }
    }
}

} // verus!
