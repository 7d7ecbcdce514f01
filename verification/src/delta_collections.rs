//! Delta collections: sparse sets of pending changes over a key space.
//!
//! `DeltaAmountCollection` records signed balance changes with keyed-sum
//! semantics; `DeltaDataCollection` records entity creation and removal as
//! tagged variants. Both support an associative `merge_with` used when a
//! block's overlay is folded into an epoch delta.

use vstd::prelude::*;
use crate::amount::SignedAmount;
use crate::collections::{MapKey, VecMap};
use crate::error::Error;

verus! {

/// Whether `v` fits the signed 128-bit range.
pub open spec fn fits_signed(v: int) -> bool {
    i128::MIN <= v <= i128::MAX
}

/// The entry that layering amount delta `b` over `a` leaves for one key:
/// the sum, normalised away when zero; no second delta leaves `a` as it is.
pub open spec fn merged_amount_entry(a: Option<SignedAmount>, b: Option<SignedAmount>) -> Option<
    SignedAmount,
> {
    match b {
        None => a,
        Some(bv) => {
            let sum = (match a {
                Some(av) => av.atoms as int,
                None => 0,
            }) + bv.atoms;
            if sum == 0 {
                None
            } else {
                Some(SignedAmount { atoms: sum as i128 })
            }
        },
    }
}

/// The whole map that layering amount deltas `b` over `a` produces.
pub open spec fn merged_amount_map<K>(a: Map<K, SignedAmount>, b: Map<K, SignedAmount>) -> Map<
    K,
    SignedAmount,
> {
    Map::new(
        |k: K| merged_amount_entry(map_entry(a, k), map_entry(b, k)) is Some,
        |k: K| merged_amount_entry(map_entry(a, k), map_entry(b, k))->Some_0,
    )
}

/// The value stored for `k`, if any.
pub open spec fn map_entry<K, V>(m: Map<K, V>, k: K) -> Option<V> {
    if m.dom().contains(k) {
        Some(m[k])
    } else {
        None
    }
}

/// A collection of signed amount deltas. An absent key stands for a zero
/// delta; a merge whose sum is zero removes the entry, so that reversing a
/// merge restores the collection exactly.
pub struct DeltaAmountCollection<K> {
    amounts: VecMap<K, SignedAmount>,
}

impl<K: MapKey> DeltaAmountCollection<K> {
    pub closed spec fn wf(&self) -> bool {
        self.amounts.wf()
    }

    /// The stored deltas, keyed; zero deltas are never stored.
    pub closed spec fn as_map(&self) -> Map<K, SignedAmount> {
        self.amounts@
    }

    /// The delta for `k` as a mathematical integer, zero when absent.
    pub open spec fn delta_of(&self, k: K) -> int {
        if self.as_map().dom().contains(k) {
            self.as_map()[k].atoms as int
        } else {
            0
        }
    }

    pub fn new() -> (r: Self)
        ensures
            r.wf(),
            r.as_map() == Map::<K, SignedAmount>::empty(),
    {
        DeltaAmountCollection { amounts: VecMap::new() }
    }

    pub fn get(&self, key: &K) -> (r: Option<SignedAmount>)
        ensures
            r == if self.as_map().dom().contains(*key) {
                Some(self.as_map()[*key])
            } else {
                None::<SignedAmount>
            },
    {
        self.amounts.get_copied(key)
    }

    /// Key-wise addition of one delta. The sum replaces the stored delta,
    /// a zero sum removes the entry, and a sum out of the signed range is
    /// rejected without changing the collection.
    pub fn merge_delta(&mut self, key: K, delta: SignedAmount) -> (r: Result<(), Error>)
        requires
            old(self).wf(),
        ensures
            fits_signed(old(self).delta_of(key) + delta.atoms) ==> {
                &&& r is Ok
                &&& final(self).wf()
                &&& final(self).as_map() == if old(self).delta_of(key) + delta.atoms == 0 {
                    old(self).as_map().remove(key)
                } else {
                    old(self).as_map().insert(
                        key,
                        SignedAmount { atoms: (old(self).delta_of(key) + delta.atoms) as i128 },
                    )
                }
            },
            !fits_signed(old(self).delta_of(key) + delta.atoms) ==> {
                &&& r == Err::<(), Error>(Error::AmountOverflow)
                &&& final(self).wf()
                &&& final(self).as_map() == old(self).as_map()
            },
    {
        let existing: i128 = match self.amounts.get_copied(&key) {
            Some(s) => s.atoms,
            None => 0,
        };
        match existing.checked_add(delta.atoms) {
            Some(sum) => {
                if sum == 0 {
                    self.amounts.remove(&key);
                } else {
                    self.amounts.insert(key, SignedAmount { atoms: sum });
                }
                Ok(())
            },
            None => Err(Error::AmountOverflow),
        }
    }

    /// Records `delta` for `key` unconditionally, even a zero; used when an
    /// undo must restore a prior entry exactly.
    pub fn insert_entry(&mut self, key: K, delta: SignedAmount)
        requires
            old(self).wf(),
        ensures
            final(self).wf(),
            final(self).as_map() == old(self).as_map().insert(key, delta),
    {
        self.amounts.insert(key, delta);
    }

    /// Deletes the entry for `key`, if any; used when an undo must restore
    /// the absence of a delta exactly.
    pub fn remove_entry(&mut self, key: &K)
        requires
            old(self).wf(),
        ensures
            final(self).wf(),
            final(self).as_map() == old(self).as_map().remove(*key),
    {
        self.amounts.remove(key);
    }

    /// The keys holding a delta, in entry order and without repetition.
    pub fn keys(&self) -> (r: Vec<K>)
        ensures
            forall|i: int| 0 <= i < r@.len() ==> #[trigger] self.as_map().dom().contains(r@[i]),
            self.wf() ==> forall|i: int, j: int| 0 <= i < j < r@.len() ==> r@[i] != r@[j],
            forall|k: K| self.as_map().dom().contains(k) ==> exists|i: int|
                0 <= i < r@.len() && r@[i] == k,
    {
        self.amounts.keys()
    }

    pub fn is_empty(&self) -> (r: bool)
        ensures
            r == (self.as_map() == Map::<K, SignedAmount>::empty()),
    {
        self.amounts.is_empty()
    }

    /// An entry-by-entry copy of the collection.
    pub fn duplicate(&self) -> (r: Self)
        requires
            self.wf(),
        ensures
            r.wf(),
            r.as_map() == self.as_map(),
    {
        DeltaAmountCollection { amounts: self.amounts.duplicate() }
    }

    /// Key-wise merge of a whole collection, associative. Either every key's
    /// sum fits the signed range and all of them are applied, or nothing is.
    pub fn merge_with(&mut self, other: &Self) -> (r: Result<(), Error>)
        requires
            old(self).wf(),
            other.wf(),
        ensures
            final(self).wf(),
            r is Ok <==> forall|k: K| fits_signed(
                old(self).delta_of(k) + #[trigger] other.delta_of(k),
            ),
            r is Ok ==> final(self).as_map() == merged_amount_map(
                old(self).as_map(),
                other.as_map(),
            ),
            r is Ok ==> forall|k: K| final(self).delta_of(k) == old(self).delta_of(k)
                + #[trigger] other.delta_of(k),
            r is Err ==> final(self).as_map() == old(self).as_map() && r == Err::<(), Error>(
                Error::AmountOverflow,
            ),
    {
        let keys = other.amounts.keys();
        let ghost ks = keys@;
        let mut merged = DeltaAmountCollection { amounts: self.amounts.duplicate() };
        proof {
            assert(merged.as_map() == self.as_map());
            assert(merged.wf());
        }
        let n = keys.len();
        let mut i: usize = 0;
        while i < n
            invariant
                self.wf(),
                other.wf(),
                merged.wf(),
                n == ks.len(),
                i <= n,
                forall|a: int, b: int| 0 <= a < b < ks.len() ==> ks[a] != ks[b],
                forall|a: int| 0 <= a < ks.len() ==> #[trigger] other.as_map().dom().contains(
                    ks[a],
                ),
                forall|k: K| other.as_map().dom().contains(k) ==> exists|a: int|
                    0 <= a < ks.len() && ks[a] == k,
                keys@ == ks,
                forall|k: K| #[trigger] map_entry(merged.as_map(), k) == if exists|a: int|
                    0 <= a < i && ks[a] == k {
                    merged_amount_entry(map_entry(self.as_map(), k), map_entry(other.as_map(), k))
                } else {
                    map_entry(self.as_map(), k)
                },
                forall|a: int| 0 <= a < i ==> fits_signed(
                    self.delta_of(ks[a]) + other.delta_of(#[trigger] ks[a]),
                ),
            decreases n - i,
        {
            let k = keys[i];
            let d = match other.amounts.get_copied(&k) {
                Some(s) => s,
                None => SignedAmount { atoms: 0 },
            };
            let ghost before = merged;
            match merged.merge_delta(k, d) {
                Ok(()) => {},
                Err(e) => {
                    proof {
                        assert(!(exists|a: int| 0 <= a < i && ks[a] == k));
                        assert(map_entry(before.as_map(), k) == map_entry(self.as_map(), k));
                        assert(before.delta_of(k) == self.delta_of(k));
                        assert(other.as_map().dom().contains(k));
                        assert(d.atoms == other.delta_of(k));
                        assert(!fits_signed(self.delta_of(k) + other.delta_of(k)));
                    }
                    return Err(e);
                },
            }
            proof {
                assert(!(exists|a: int| 0 <= a < i && ks[a] == k));
                assert(map_entry(before.as_map(), k) == map_entry(self.as_map(), k));
                assert(before.delta_of(k) == self.delta_of(k));
                assert(map_entry(merged.as_map(), k) == merged_amount_entry(
                    map_entry(self.as_map(), k),
                    map_entry(other.as_map(), k),
                ));
                assert forall|k2: K| k2 != k implies #[trigger] map_entry(merged.as_map(), k2)
                    == map_entry(before.as_map(), k2) by {}
            }
            i = i + 1;
        }
        proof {
            assert forall|k: K| fits_signed(
                self.delta_of(k) + #[trigger] other.delta_of(k),
            ) by {
                if other.as_map().dom().contains(k) {
                    let a = choose|a: int| 0 <= a < ks.len() && ks[a] == k;
                    assert(fits_signed(self.delta_of(ks[a]) + other.delta_of(ks[a])));
                } else {
                    assert(other.delta_of(k) == 0);
                }
            }
            assert forall|k: K| #[trigger] map_entry(merged.as_map(), k) == merged_amount_entry(
                map_entry(self.as_map(), k),
                map_entry(other.as_map(), k),
            ) by {
                if other.as_map().dom().contains(k) {
                    let a = choose|a: int| 0 <= a < ks.len() && ks[a] == k;
                } else {
                    assert(map_entry(other.as_map(), k) is None);
                }
            }
            assert forall|k: K| #[trigger] merged.as_map().dom().contains(k) == (merged_amount_entry(
                map_entry(self.as_map(), k),
                map_entry(other.as_map(), k),
            ) is Some) by {
                assert(map_entry(merged.as_map(), k) == merged_amount_entry(
                    map_entry(self.as_map(), k),
                    map_entry(other.as_map(), k),
                ));
            }
            assert forall|k: K| merged.as_map().dom().contains(k) implies #[trigger] merged.as_map()[k]
                == merged_amount_entry(
                map_entry(self.as_map(), k),
                map_entry(other.as_map(), k),
            )->Some_0 by {
                assert(map_entry(merged.as_map(), k) == merged_amount_entry(
                    map_entry(self.as_map(), k),
                    map_entry(other.as_map(), k),
                ));
            }
            assert(merged.as_map() =~= merged_amount_map(self.as_map(), other.as_map()));
            assert forall|k: K| #[trigger] merged.delta_of(k) == self.delta_of(k)
                + other.delta_of(k) by {
                assert(map_entry(merged.as_map(), k) == merged_amount_entry(
                    map_entry(self.as_map(), k),
                    map_entry(other.as_map(), k),
                ));
            }
        }
        *self = merged;
        Ok(())
    }
}

/// A tagged change to an entity: created with the given data, or removed.
#[derive(Clone, Copy, Debug)]
pub enum DataDelta<V> {
    Add(V),
    Remove,
}

/// The result of layering delta `b` over delta `a` for one key, where `None`
/// stands for "no change recorded".
pub open spec fn merged_data_entry<V>(a: Option<DataDelta<V>>, b: Option<DataDelta<V>>) -> Result<
    Option<DataDelta<V>>,
    Error,
> {
    match b {
        None => Ok(a),
        Some(bd) => match a {
            None => Ok(Some(bd)),
            Some(DataDelta::Add(_)) => match bd {
                DataDelta::Add(_) => Err(Error::DataCreatedMultipleTimes),
                DataDelta::Remove => Ok(None),
            },
            Some(DataDelta::Remove) => match bd {
                DataDelta::Add(_) => Err(Error::DataRecreatedAfterRemoval),
                DataDelta::Remove => Err(Error::DataRemovedMultipleTimes),
            },
        },
    }
}

/// The whole map that layering data deltas `b` over `a` produces, defined
/// where every key merges without conflict.
pub open spec fn merged_data_map<K, V>(a: Map<K, DataDelta<V>>, b: Map<K, DataDelta<V>>) -> Map<
    K,
    DataDelta<V>,
> {
    Map::new(
        |k: K| merged_data_entry(map_entry(a, k), map_entry(b, k)) matches Ok(Some(_)),
        |k: K| merged_data_entry(map_entry(a, k), map_entry(b, k))->Ok_0->Some_0,
    )
}

/// A collection of entity-data deltas with keyed tagged-variant semantics.
pub struct DeltaDataCollection<K, V> {
    data: VecMap<K, DataDelta<V>>,
}

impl<K: MapKey, V: Copy> DeltaDataCollection<K, V> {
    pub closed spec fn wf(&self) -> bool {
        self.data.wf()
    }

    pub closed spec fn as_map(&self) -> Map<K, DataDelta<V>> {
        self.data@
    }

    /// The delta recorded for `k`, if any.
    pub open spec fn entry_of(&self, k: K) -> Option<DataDelta<V>> {
        if self.as_map().dom().contains(k) {
            Some(self.as_map()[k])
        } else {
            None
        }
    }

    pub fn new() -> (r: Self)
        ensures
            r.wf(),
            r.as_map() == Map::<K, DataDelta<V>>::empty(),
    {
        DeltaDataCollection { data: VecMap::new() }
    }

    pub fn get(&self, key: &K) -> (r: Option<DataDelta<V>>)
        ensures
            r == self.entry_of(*key),
    {
        self.data.get_copied(key)
    }

    /// Layers one delta over the recorded one, following the merge rules:
    /// `Add` over `Add` and anything over `Remove` conflict, `Remove` over
    /// `Add` cancels the entry.
    pub fn merge_element(&mut self, key: K, delta: DataDelta<V>) -> (r: Result<(), Error>)
        requires
            old(self).wf(),
        ensures
            final(self).wf(),
            match merged_data_entry(old(self).entry_of(key), Some(delta)) {
                Ok(e) => {
                    &&& r is Ok
                    &&& final(self).as_map() == match e {
                        Some(d) => old(self).as_map().insert(key, d),
                        None => old(self).as_map().remove(key),
                    }
                },
                Err(e) => {
                    &&& r == Err::<(), Error>(e)
                    &&& final(self).as_map() == old(self).as_map()
                },
            },
    {
        match self.data.get(&key) {
            None => {
                self.data.insert(key, delta);
                Ok(())
            },
            Some(DataDelta::Add(_)) => match delta {
                DataDelta::Add(_) => Err(Error::DataCreatedMultipleTimes),
                DataDelta::Remove => {
                    self.data.remove(&key);
                    Ok(())
                },
            },
            Some(DataDelta::Remove) => match delta {
                DataDelta::Add(_) => Err(Error::DataRecreatedAfterRemoval),
                DataDelta::Remove => Err(Error::DataRemovedMultipleTimes),
            },
        }
    }

    /// Records `delta` for `key` unconditionally; used when an undo must
    /// restore a prior entry exactly.
    pub fn insert_entry(&mut self, key: K, delta: DataDelta<V>)
        requires
            old(self).wf(),
        ensures
            final(self).wf(),
            final(self).as_map() == old(self).as_map().insert(key, delta),
    {
        self.data.insert(key, delta);
    }

    /// Deletes the entry for `key`, if any; used when an undo must restore
    /// the absence of a delta exactly.
    pub fn remove_entry(&mut self, key: &K)
        requires
            old(self).wf(),
        ensures
            final(self).wf(),
            final(self).as_map() == old(self).as_map().remove(*key),
    {
        self.data.remove(key);
    }

    /// The keys holding a delta, in entry order and without repetition.
    pub fn keys(&self) -> (r: Vec<K>)
        ensures
            forall|i: int| 0 <= i < r@.len() ==> #[trigger] self.as_map().dom().contains(r@[i]),
            self.wf() ==> forall|i: int, j: int| 0 <= i < j < r@.len() ==> r@[i] != r@[j],
            forall|k: K| self.as_map().dom().contains(k) ==> exists|i: int|
                0 <= i < r@.len() && r@[i] == k,
    {
        self.data.keys()
    }

    pub fn is_empty(&self) -> (r: bool)
        ensures
            r == (self.as_map() == Map::<K, DataDelta<V>>::empty()),
    {
        self.data.is_empty()
    }

    /// An entry-by-entry copy of the collection.
    pub fn duplicate(&self) -> (r: Self)
        requires
            self.wf(),
        ensures
            r.wf(),
            r.as_map() == self.as_map(),
    {
        DeltaDataCollection { data: self.data.duplicate() }
    }

    /// Key-wise merge of a whole collection, associative; either every key
    /// merges without conflict and all of them are applied, or nothing is.
    pub fn merge_with(&mut self, other: &Self) -> (r: Result<(), Error>)
        requires
            old(self).wf(),
            other.wf(),
        ensures
            final(self).wf(),
            r is Ok <==> forall|k: K| merged_data_entry(
                old(self).entry_of(k),
                #[trigger] other.entry_of(k),
            ) is Ok,
            r is Ok ==> forall|k: K| #[trigger] final(self).entry_of(k) == merged_data_entry(
                old(self).entry_of(k),
                other.entry_of(k),
            )->Ok_0,
            r is Ok ==> final(self).as_map() == merged_data_map(
                old(self).as_map(),
                other.as_map(),
            ),
            r is Err ==> final(self).as_map() == old(self).as_map(),
    {
        let keys = other.data.keys();
        let ghost ks = keys@;
        let mut merged = DeltaDataCollection { data: self.data.duplicate() };
        proof {
            assert(merged.as_map() == self.as_map());
        }
        let n = keys.len();
        let mut i: usize = 0;
        while i < n
            invariant
                self.wf(),
                other.wf(),
                merged.wf(),
                n == ks.len(),
                i <= n,
                forall|a: int, b: int| 0 <= a < b < ks.len() ==> ks[a] != ks[b],
                forall|a: int| 0 <= a < ks.len() ==> #[trigger] other.as_map().dom().contains(
                    ks[a],
                ),
                forall|k: K| other.as_map().dom().contains(k) ==> exists|a: int|
                    0 <= a < ks.len() && ks[a] == k,
                keys@ == ks,
                forall|k: K| #[trigger] merged.entry_of(k) == if exists|a: int|
                    0 <= a < i && ks[a] == k {
                    merged_data_entry(self.entry_of(k), other.entry_of(k))->Ok_0
                } else {
                    self.entry_of(k)
                },
                forall|a: int| 0 <= a < i ==> merged_data_entry(
                    self.entry_of(ks[a]),
                    other.entry_of(#[trigger] ks[a]),
                ) is Ok,
            decreases n - i,
        {
            let k = keys[i];
            let d = match other.data.get_copied(&k) {
                Some(dd) => dd,
                None => DataDelta::Remove,
            };
            let ghost before = merged;
            match merged.merge_element(k, d) {
                Ok(()) => {},
                Err(e) => {
                    proof {
                        assert(!(exists|a: int| 0 <= a < i && ks[a] == k));
                        assert(before.entry_of(k) == self.entry_of(k));
                        assert(other.as_map().dom().contains(k));
                        assert(other.entry_of(k) == Some(d));
                        assert(merged_data_entry(self.entry_of(k), other.entry_of(k)) is Err);
                    }
                    return Err(e);
                },
            }
            proof {
                assert(!(exists|a: int| 0 <= a < i && ks[a] == k));
                assert(before.entry_of(k) == self.entry_of(k));
                assert forall|k2: K| k2 != k implies #[trigger] merged.entry_of(k2)
                    == before.entry_of(k2) by {}
            }
            i = i + 1;
        }
        proof {
            assert forall|k: K| merged_data_entry(
                self.entry_of(k),
                #[trigger] other.entry_of(k),
            ) is Ok by {
                if other.as_map().dom().contains(k) {
                    let a = choose|a: int| 0 <= a < ks.len() && ks[a] == k;
                    assert(merged_data_entry(self.entry_of(ks[a]), other.entry_of(ks[a])) is Ok);
                } else {
                    assert(other.entry_of(k) is None);
                }
            }
            assert forall|k: K| #[trigger] merged.entry_of(k) == merged_data_entry(
                self.entry_of(k),
                other.entry_of(k),
            )->Ok_0 by {
                if other.as_map().dom().contains(k) {
                    let a = choose|a: int| 0 <= a < ks.len() && ks[a] == k;
                } else {
                    assert(other.entry_of(k) is None);
                }
            }
            assert forall|k: K| #[trigger] merged.as_map().dom().contains(k) == (merged_data_entry(
                self.entry_of(k),
                other.entry_of(k),
            ) matches Ok(Some(_))) by {
                assert(merged.entry_of(k) == merged_data_entry(
                    self.entry_of(k),
                    other.entry_of(k),
                )->Ok_0);
            }
            assert forall|k: K| merged.as_map().dom().contains(k) implies #[trigger] merged.as_map()[k]
                == merged_data_entry(self.entry_of(k), other.entry_of(k))->Ok_0->Some_0 by {
                assert(merged.entry_of(k) == merged_data_entry(
                    self.entry_of(k),
                    other.entry_of(k),
                )->Ok_0);
            }
            assert(merged.as_map() =~= merged_data_map(self.as_map(), other.as_map()));
        }
        *self = merged;
        Ok(())
    }
}

} // verus!
