//! Epoch storage and sealing.
//!
//! Each block's accounting deltas are applied to the tip store and folded
//! into the delta of the block's epoch. When a block completes an epoch, the
//! epoch lagging behind the tip by the configured sealing distance is folded
//! into the sealed aggregate, and the undo needed to revert that whole epoch
//! is recorded. Only sealed state may serve as the stake-weight input of
//! consensus, which is why the lag exists.

use vstd::prelude::*;
use crate::amount::{Amount, SignedAmount};
use crate::blocks::{Block, Transaction, TxInput};
use crate::chain::{ChainConfig, TxOutput};
use crate::collections::{MapKey, VecMap};
use crate::delta_collections::{
    map_entry, merged_amount_map, merged_data_map, DataDelta, DeltaAmountCollection,
    DeltaDataCollection, fits_signed,
};
use crate::error::Error;
use crate::pool_delta::{
    spec_create_delegation_id, spec_create_pool, spec_delegate_staking, DeltaMaps, ParentMaps,
    PoSAccountingDelta, PoSAccountingDeltaData, PoSAccountingUndo,
};
use crate::pool_types::{DelegationData, PoolData, ShareKey};
use crate::primitives::{BlockHeight, H256, OutPoint};
use crate::view::{map_get, spec_combine_amount, InMemoryPoSAccounting, PoSAccountingView};

verus! {

/// Every delta can be applied to the absolute store: no creation of data
/// that exists, no removal of data that does not, no balance leaving the
/// representable unsigned range.
pub open spec fn amount_apply_ok<K>(m: Map<K, Amount>, dm: Map<K, SignedAmount>) -> bool {
    forall|k: K| dm.dom().contains(k) ==> spec_combine_amount(
        map_get(m, k),
        Some(#[trigger] dm[k]),
    ) is Ok
}

/// The absolute amount map after applying the deltas; a zero result removes
/// the entry.
pub open spec fn applied_amount_map<K>(m: Map<K, Amount>, dm: Map<K, SignedAmount>) -> Map<
    K,
    Amount,
> {
    Map::new(
        |k: K| if dm.dom().contains(k) {
            spec_combine_amount(map_get(m, k), Some(dm[k])) matches Ok(Some(a)) && a.atoms != 0
        } else {
            m.dom().contains(k)
        },
        |k: K| if dm.dom().contains(k) {
            spec_combine_amount(map_get(m, k), Some(dm[k]))->Ok_0->Some_0
        } else {
            m[k]
        },
    )
}

pub open spec fn data_apply_ok<K, V>(m: Map<K, V>, dm: Map<K, DataDelta<V>>) -> bool {
    forall|k: K| dm.dom().contains(k) ==> match #[trigger] dm[k] {
        DataDelta::Add(_) => !m.dom().contains(k),
        DataDelta::Remove => m.dom().contains(k),
    }
}

/// The absolute data map after applying the deltas.
pub open spec fn applied_data_map<K, V>(m: Map<K, V>, dm: Map<K, DataDelta<V>>) -> Map<K, V> {
    Map::new(
        |k: K| match map_get(dm, k) {
            Some(DataDelta::Add(_)) => true,
            Some(DataDelta::Remove) => false,
            None => m.dom().contains(k),
        },
        |k: K| match map_get(dm, k) {
            Some(DataDelta::Add(v)) => v,
            _ => m[k],
        },
    )
}

/// Every amount delta can be negated.
pub open spec fn amount_invert_ok<K>(dm: Map<K, SignedAmount>) -> bool {
    forall|k: K| dm.dom().contains(k) ==> (#[trigger] dm[k]).atoms != i128::MIN
}

/// The amount deltas that revert `dm`.
pub open spec fn inverted_amount_map<K>(dm: Map<K, SignedAmount>) -> Map<K, SignedAmount> {
    Map::new(
        |k: K| dm.dom().contains(k),
        |k: K| SignedAmount { atoms: (-dm[k].atoms) as i128 },
    )
}

/// Every removal has prior data in the base to restore.
pub open spec fn data_invert_ok<K, V>(base: Map<K, V>, dm: Map<K, DataDelta<V>>) -> bool {
    forall|k: K| dm.dom().contains(k) ==> match #[trigger] dm[k] {
        DataDelta::Add(_) => true,
        DataDelta::Remove => base.dom().contains(k),
    }
}

/// The data deltas that revert `dm` against the base it was applied to.
pub open spec fn inverted_data_map<K, V>(base: Map<K, V>, dm: Map<K, DataDelta<V>>) -> Map<
    K,
    DataDelta<V>,
> {
    Map::new(
        |k: K| dm.dom().contains(k),
        |k: K| match dm[k] {
            DataDelta::Add(_) => DataDelta::Remove,
            DataDelta::Remove => DataDelta::Add(base[k]),
        },
    )
}

/// Applies amount deltas to an absolute amount store, key by key.
fn apply_amount_deltas<K: MapKey>(
    target: &mut VecMap<K, Amount>,
    deltas: &DeltaAmountCollection<K>,
) -> (r: Result<(), Error>)
    requires
        old(target).wf(),
        deltas.wf(),
    ensures
        final(target).wf(),
        r is Ok <==> amount_apply_ok(old(target)@, deltas.as_map()),
        r is Ok ==> final(target)@ == applied_amount_map(old(target)@, deltas.as_map()),
{
    let keys = deltas.keys();
    let ghost ks = keys@;
    let ghost m0 = target@;
    let ghost dm = deltas.as_map();
    let n = keys.len();
    let mut i: usize = 0;
    while i < n
        invariant
            target.wf(),
            deltas.wf(),
            m0 == old(target)@,
            dm == deltas.as_map(),
            n == ks.len(),
            i <= n,
            keys@ == ks,
            forall|a: int, b: int| 0 <= a < b < ks.len() ==> ks[a] != ks[b],
            forall|a: int| 0 <= a < ks.len() ==> #[trigger] dm.dom().contains(ks[a]),
            forall|k: K| dm.dom().contains(k) ==> exists|a: int| 0 <= a < ks.len() && ks[a] == k,
            forall|a: int| 0 <= a < i ==> spec_combine_amount(
                map_get(m0, #[trigger] ks[a]),
                Some(dm[ks[a]]),
            ) is Ok,
            forall|k: K| #[trigger] map_entry(target@, k) == if (exists|a: int|
                0 <= a < i && ks[a] == k) {
                let c = spec_combine_amount(map_get(m0, k), Some(dm[k]));
                if c matches Ok(Some(a)) && a.atoms != 0 {
                    Some(c->Ok_0->Some_0)
                } else {
                    None
                }
            } else {
                map_entry(m0, k)
            },
        decreases n - i,
    {
        let k = keys[i];
        let d = match deltas.get(&k) {
            Some(s) => s,
            None => SignedAmount { atoms: 0 },
        };
        proof {
            assert(!(exists|a: int| 0 <= a < i && ks[a] == k));
            assert(map_entry(target@, k) == map_entry(m0, k));
        }
        let cur = target.get_copied(&k);
        let combined = match crate::view::combine_amount_delta(&cur, &Some(d)) {
            Ok(v) => v,
            Err(_e) => {
                proof {
                    assert(!amount_apply_ok(m0, dm));
                }
                return Err(Error::AmountOverflow);
            },
        };
        let ghost before = target@;
        match combined {
            Some(a) => {
                if a.into_atoms() == 0 {
                    target.remove(&k);
                } else {
                    target.insert(k, a);
                }
            },
            None => {
                proof {
                    assert(false);
                }
            },
        }
        proof {
            assert forall|k2: K| k2 != k implies #[trigger] map_entry(target@, k2) == map_entry(
                before,
                k2,
            ) by {}
        }
        i = i + 1;
    }
    proof {
        assert forall|k: K| dm.dom().contains(k) implies spec_combine_amount(
            map_get(m0, k),
            Some(#[trigger] dm[k]),
        ) is Ok by {
            let a = choose|a: int| 0 <= a < ks.len() && ks[a] == k;
            assert(spec_combine_amount(map_get(m0, ks[a]), Some(dm[ks[a]])) is Ok);
        }
        assert forall|k: K| #[trigger] target@.dom().contains(k) == applied_amount_map(
            m0,
            dm,
        ).dom().contains(k) by {
            if dm.dom().contains(k) {
                assert(exists|a: int| 0 <= a < ks.len() && ks[a] == k);
            }
            assert(map_entry(target@, k) == map_entry(target@, k));
        }
        assert forall|k: K| target@.dom().contains(k) implies #[trigger] target@[k]
            == applied_amount_map(m0, dm)[k] by {
            if dm.dom().contains(k) {
                assert(exists|a: int| 0 <= a < ks.len() && ks[a] == k);
            }
            assert(map_entry(target@, k) == map_entry(target@, k));
        }
        assert(target@ =~= applied_amount_map(m0, dm));
    }
    Ok(())
}

/// Applies data deltas to an absolute data store, key by key.
fn apply_data_deltas<K: MapKey, V: Copy>(
    target: &mut VecMap<K, V>,
    deltas: &DeltaDataCollection<K, V>,
    created_twice: Error,
    removed_absent: Error,
) -> (r: Result<(), Error>)
    requires
        old(target).wf(),
        deltas.wf(),
    ensures
        final(target).wf(),
        r is Ok <==> data_apply_ok(old(target)@, deltas.as_map()),
        r is Ok ==> final(target)@ == applied_data_map(old(target)@, deltas.as_map()),
{
    let keys = deltas.keys();
    let ghost ks = keys@;
    let ghost m0 = target@;
    let ghost dm = deltas.as_map();
    let n = keys.len();
    let mut i: usize = 0;
    while i < n
        invariant
            target.wf(),
            deltas.wf(),
            m0 == old(target)@,
            dm == deltas.as_map(),
            n == ks.len(),
            i <= n,
            keys@ == ks,
            forall|a: int, b: int| 0 <= a < b < ks.len() ==> ks[a] != ks[b],
            forall|a: int| 0 <= a < ks.len() ==> #[trigger] dm.dom().contains(ks[a]),
            forall|k: K| dm.dom().contains(k) ==> exists|a: int| 0 <= a < ks.len() && ks[a] == k,
            forall|a: int| 0 <= a < i ==> match dm[#[trigger] ks[a]] {
                DataDelta::Add(_) => !m0.dom().contains(ks[a]),
                DataDelta::Remove => m0.dom().contains(ks[a]),
            },
            forall|k: K| #[trigger] map_entry(target@, k) == if (exists|a: int|
                0 <= a < i && ks[a] == k) {
                match dm[k] {
                    DataDelta::Add(v) => Some(v),
                    DataDelta::Remove => None,
                }
            } else {
                map_entry(m0, k)
            },
        decreases n - i,
    {
        let k = keys[i];
        let d = match deltas.get(&k) {
            Some(s) => s,
            None => DataDelta::Remove,
        };
        proof {
            assert(!(exists|a: int| 0 <= a < i && ks[a] == k));
            assert(map_entry(target@, k) == map_entry(m0, k));
        }
        let ghost before = target@;
        match d {
            DataDelta::Add(v) => {
                if target.contains_key(&k) {
                    return Err(created_twice);
                }
                target.insert(k, v);
            },
            DataDelta::Remove => {
                if !target.contains_key(&k) {
                    return Err(removed_absent);
                }
                target.remove(&k);
            },
        }
        proof {
            assert forall|k2: K| k2 != k implies #[trigger] map_entry(target@, k2) == map_entry(
                before,
                k2,
            ) by {}
        }
        i = i + 1;
    }
    proof {
        assert forall|k: K| dm.dom().contains(k) implies match #[trigger] dm[k] {
            DataDelta::Add(_) => !m0.dom().contains(k),
            DataDelta::Remove => m0.dom().contains(k),
        } by {
            let a = choose|a: int| 0 <= a < ks.len() && ks[a] == k;
        }
        assert forall|k: K| #[trigger] target@.dom().contains(k) == applied_data_map(
            m0,
            dm,
        ).dom().contains(k) by {
            if dm.dom().contains(k) {
                assert(exists|a: int| 0 <= a < ks.len() && ks[a] == k);
            }
            assert(map_entry(target@, k) == map_entry(target@, k));
        }
        assert forall|k: K| target@.dom().contains(k) implies #[trigger] target@[k]
            == applied_data_map(m0, dm)[k] by {
            if dm.dom().contains(k) {
                assert(exists|a: int| 0 <= a < ks.len() && ks[a] == k);
            }
            assert(map_entry(target@, k) == map_entry(target@, k));
        }
        assert(target@ =~= applied_data_map(m0, dm));
    }
    Ok(())
}

/// The amount deltas that revert `deltas`.
fn invert_amount_deltas<K: MapKey>(deltas: &DeltaAmountCollection<K>) -> (r: Result<
    DeltaAmountCollection<K>,
    Error,
>)
    requires
        deltas.wf(),
    ensures
        r is Ok <==> amount_invert_ok(deltas.as_map()),
        r is Ok ==> r->Ok_0.wf() && r->Ok_0.as_map() == inverted_amount_map(deltas.as_map()),
{
    let keys = deltas.keys();
    let ghost ks = keys@;
    let ghost dm = deltas.as_map();
    let mut out: DeltaAmountCollection<K> = DeltaAmountCollection::new();
    let n = keys.len();
    let mut i: usize = 0;
    while i < n
        invariant
            deltas.wf(),
            out.wf(),
            dm == deltas.as_map(),
            n == ks.len(),
            i <= n,
            keys@ == ks,
            forall|a: int, b: int| 0 <= a < b < ks.len() ==> ks[a] != ks[b],
            forall|a: int| 0 <= a < ks.len() ==> #[trigger] dm.dom().contains(ks[a]),
            forall|k: K| dm.dom().contains(k) ==> exists|a: int| 0 <= a < ks.len() && ks[a] == k,
            forall|a: int| 0 <= a < i ==> dm[#[trigger] ks[a]].atoms != i128::MIN,
            forall|k: K| #[trigger] map_entry(out.as_map(), k) == if (exists|a: int|
                0 <= a < i && ks[a] == k) {
                Some(SignedAmount { atoms: (-dm[k].atoms) as i128 })
            } else {
                None::<SignedAmount>
            },
        decreases n - i,
    {
        let k = keys[i];
        let d = match deltas.get(&k) {
            Some(s) => s,
            None => SignedAmount { atoms: 0 },
        };
        let neg = match d.checked_neg() {
            Some(nv) => nv,
            None => {
                return Err(Error::AmountOverflow);
            },
        };
        let ghost before = out.as_map();
        out.insert_entry(k, neg);
        proof {
            assert(!(exists|a: int| 0 <= a < i && ks[a] == k));
            assert forall|k2: K| k2 != k implies #[trigger] map_entry(out.as_map(), k2)
                == map_entry(before, k2) by {}
        }
        i = i + 1;
    }
    proof {
        assert forall|k: K| dm.dom().contains(k) implies (#[trigger] dm[k]).atoms != i128::MIN by {
            let a = choose|a: int| 0 <= a < ks.len() && ks[a] == k;
        }
        assert forall|k: K| #[trigger] out.as_map().dom().contains(k) == dm.dom().contains(k) by {
            if dm.dom().contains(k) {
                assert(exists|a: int| 0 <= a < ks.len() && ks[a] == k);
            }
            assert(map_entry(out.as_map(), k) == map_entry(out.as_map(), k));
        }
        assert forall|k: K| out.as_map().dom().contains(k) implies #[trigger] out.as_map()[k]
            == inverted_amount_map(dm)[k] by {
            assert(map_entry(out.as_map(), k) == map_entry(out.as_map(), k));
            assert(exists|a: int| 0 <= a < ks.len() && ks[a] == k);
        }
        assert(out.as_map() =~= inverted_amount_map(dm));
    }
    Ok(out)
}

/// The data deltas that revert `deltas` against the base they will be
/// applied to.
fn invert_data_deltas<K: MapKey, V: Copy>(
    base: &VecMap<K, V>,
    deltas: &DeltaDataCollection<K, V>,
    removed_absent: Error,
) -> (r: Result<DeltaDataCollection<K, V>, Error>)
    requires
        deltas.wf(),
    ensures
        r is Ok <==> data_invert_ok(base@, deltas.as_map()),
        r is Ok ==> r->Ok_0.wf() && r->Ok_0.as_map() == inverted_data_map(base@, deltas.as_map()),
{
    let keys = deltas.keys();
    let ghost ks = keys@;
    let ghost dm = deltas.as_map();
    let ghost bm = base@;
    let mut out: DeltaDataCollection<K, V> = DeltaDataCollection::new();
    let n = keys.len();
    let mut i: usize = 0;
    while i < n
        invariant
            deltas.wf(),
            out.wf(),
            dm == deltas.as_map(),
            bm == base@,
            n == ks.len(),
            i <= n,
            keys@ == ks,
            forall|a: int, b: int| 0 <= a < b < ks.len() ==> ks[a] != ks[b],
            forall|a: int| 0 <= a < ks.len() ==> #[trigger] dm.dom().contains(ks[a]),
            forall|k: K| dm.dom().contains(k) ==> exists|a: int| 0 <= a < ks.len() && ks[a] == k,
            forall|a: int| 0 <= a < i ==> match dm[#[trigger] ks[a]] {
                DataDelta::Add(_) => true,
                DataDelta::Remove => bm.dom().contains(ks[a]),
            },
            forall|k: K| #[trigger] map_entry(out.as_map(), k) == if (exists|a: int|
                0 <= a < i && ks[a] == k) {
                Some(
                    match dm[k] {
                        DataDelta::Add(_) => DataDelta::Remove,
                        DataDelta::Remove => DataDelta::Add(bm[k]),
                    },
                )
            } else {
                None::<DataDelta<V>>
            },
        decreases n - i,
    {
        let k = keys[i];
        let d = match deltas.get(&k) {
            Some(s) => s,
            None => DataDelta::Remove,
        };
        let ghost before = out.as_map();
        match d {
            DataDelta::Add(_) => {
                out.insert_entry(k, DataDelta::Remove);
            },
            DataDelta::Remove => {
                match base.get_copied(&k) {
                    Some(prior) => {
                        out.insert_entry(k, DataDelta::Add(prior));
                    },
                    None => {
                        return Err(removed_absent);
                    },
                }
            },
        }
        proof {
            assert(!(exists|a: int| 0 <= a < i && ks[a] == k));
            assert forall|k2: K| k2 != k implies #[trigger] map_entry(out.as_map(), k2)
                == map_entry(before, k2) by {}
        }
        i = i + 1;
    }
    proof {
        assert forall|k: K| dm.dom().contains(k) implies match #[trigger] dm[k] {
            DataDelta::Add(_) => true,
            DataDelta::Remove => bm.dom().contains(k),
        } by {
            let a = choose|a: int| 0 <= a < ks.len() && ks[a] == k;
        }
        assert forall|k: K| #[trigger] out.as_map().dom().contains(k) == dm.dom().contains(k) by {
            if dm.dom().contains(k) {
                assert(exists|a: int| 0 <= a < ks.len() && ks[a] == k);
            }
            assert(map_entry(out.as_map(), k) == map_entry(out.as_map(), k));
        }
        assert forall|k: K| out.as_map().dom().contains(k) implies #[trigger] out.as_map()[k]
            == inverted_data_map(bm, dm)[k] by {
            assert(map_entry(out.as_map(), k) == map_entry(out.as_map(), k));
            assert(exists|a: int| 0 <= a < ks.len() && ks[a] == k);
        }
        assert(out.as_map() =~= inverted_data_map(bm, dm));
    }
    Ok(out)
}

/// The outpoint that an accounting operation of this transaction derives
/// identifiers from: its first input, when that is an unspent output.
pub open spec fn tx_input0(tx: Transaction) -> Option<OutPoint> {
    if tx.inputs@.len() > 0 {
        match tx.inputs@[0] {
            TxInput::Utxo(op) => Some(op),
            TxInput::Account(_) => None,
        }
    } else {
        None
    }
}

/// The parent maps of an absolute store.
pub open spec fn store_maps(s: InMemoryPoSAccounting) -> ParentMaps {
    ParentMaps {
        pools: s.pools(),
        pool_balances: s.pool_balances(),
        delegations: s.delegations(),
        delegation_balances: s.delegation_balances(),
        shares: s.shares(),
    }
}

/// The accounting effect of one produced output on the overlay's deltas,
/// with the undo it yields; outputs without accounting content change
/// nothing.
pub open spec fn spec_apply_output(
    p: ParentMaps,
    m: DeltaMaps,
    input0: Option<OutPoint>,
    output: TxOutput,
) -> Result<(DeltaMaps, Seq<PoSAccountingUndo>), Error> {
    match output {
        TxOutput::CreateStakePool(_, data) => match input0 {
            None => Err(Error::MissingKernelInput),
            Some(op) => match spec_create_pool(p, m, op, data.value, data.decommission_key) {
                Ok((m2, u)) => Ok((m2, seq![u])),
                Err(e) => Err(e),
            },
        },
        TxOutput::CreateDelegationId(dest, target_pool) => match input0 {
            None => Err(Error::MissingKernelInput),
            Some(op) => match spec_create_delegation_id(p, m, target_pool, dest, op) {
                Ok((m2, _did, u)) => Ok((m2, seq![u])),
                Err(e) => Err(e),
            },
        },
        TxOutput::DelegateStaking(amount, delegation_id) => match spec_delegate_staking(
            p,
            m,
            delegation_id,
            amount,
        ) {
            Ok((m2, u)) => Ok((m2, seq![u])),
            Err(e) => Err(e),
        },
        _ => Ok((m, Seq::empty())),
    }
}

/// The accounting effect of a suffix of one transaction's outputs.
pub open spec fn spec_apply_tx_outputs(
    p: ParentMaps,
    m: DeltaMaps,
    input0: Option<OutPoint>,
    outs: Seq<TxOutput>,
) -> Result<(DeltaMaps, Seq<PoSAccountingUndo>), Error>
    decreases outs.len(),
{
    if outs.len() == 0 {
        Ok((m, Seq::empty()))
    } else {
        match spec_apply_output(p, m, input0, outs.first()) {
            Err(e) => Err(e),
            Ok((m2, us1)) => match spec_apply_tx_outputs(p, m2, input0, outs.drop_first()) {
                Err(e) => Err(e),
                Ok((m3, us2)) => Ok((m3, us1 + us2)),
            },
        }
    }
}

/// The accounting effect of a block's transactions, in order, against a
/// fixed parent store; every mutation lands in the overlay's deltas, so
/// later transactions read the earlier ones' writes.
pub open spec fn spec_apply_block(p: ParentMaps, m: DeltaMaps, txs: Seq<Transaction>) -> Result<
    (DeltaMaps, Seq<PoSAccountingUndo>),
    Error,
>
    decreases txs.len(),
{
    if txs.len() == 0 {
        Ok((m, Seq::empty()))
    } else {
        match spec_apply_tx_outputs(p, m, tx_input0(txs.first()), txs.first().outputs@) {
            Err(e) => Err(e),
            Ok((m2, us1)) => match spec_apply_block(p, m2, txs.drop_first()) {
                Err(e) => Err(e),
                Ok((m3, us2)) => Ok((m3, us1 + us2)),
            },
        }
    }
}

/// Whether a block's delta bundle records nothing.
pub open spec fn delta_maps_empty(m: DeltaMaps) -> bool {
    &&& m.pool_data == Map::<H256, DataDelta<PoolData>>::empty()
    &&& m.pool_balances == Map::<H256, SignedAmount>::empty()
    &&& m.pool_delegation_shares == Map::<ShareKey, SignedAmount>::empty()
    &&& m.delegation_balances == Map::<H256, SignedAmount>::empty()
    &&& m.delegation_data == Map::<H256, DataDelta<DelegationData>>::empty()
}

/// Whether `dm` can be applied to the absolute store `s`.
pub open spec fn bundle_apply_ok(s: InMemoryPoSAccounting, dm: DeltaMaps) -> bool {
    &&& data_apply_ok(s.pools(), dm.pool_data)
    &&& amount_apply_ok(s.pool_balances(), dm.pool_balances)
    &&& amount_apply_ok(s.shares(), dm.pool_delegation_shares)
    &&& amount_apply_ok(s.delegation_balances(), dm.delegation_balances)
    &&& data_apply_ok(s.delegations(), dm.delegation_data)
}

/// The five maps of the absolute store after applying `dm`.
pub open spec fn bundle_applied(s: InMemoryPoSAccounting, dm: DeltaMaps) -> ParentMaps {
    ParentMaps {
        pools: applied_data_map(s.pools(), dm.pool_data),
        pool_balances: applied_amount_map(s.pool_balances(), dm.pool_balances),
        shares: applied_amount_map(s.shares(), dm.pool_delegation_shares),
        delegation_balances: applied_amount_map(s.delegation_balances(), dm.delegation_balances),
        delegations: applied_data_map(s.delegations(), dm.delegation_data),
    }
}

/// Whether `b` can be folded over `a`.
pub open spec fn bundle_merge_ok(a: DeltaMaps, b: DeltaMaps) -> bool {
    &&& forall|k: H256| crate::delta_collections::merged_data_entry(
        map_entry(a.pool_data, k),
        #[trigger] map_entry(b.pool_data, k),
    ) is Ok
    &&& forall|k: H256| fits_signed(
        #[trigger] crate::pool_delta::delta_int(a.pool_balances, k) + crate::pool_delta::delta_int(
            b.pool_balances,
            k,
        ),
    )
    &&& forall|k: ShareKey| fits_signed(
        #[trigger] crate::pool_delta::delta_int(a.pool_delegation_shares, k)
            + crate::pool_delta::delta_int(b.pool_delegation_shares, k),
    )
    &&& forall|k: H256| fits_signed(
        #[trigger] crate::pool_delta::delta_int(a.delegation_balances, k)
            + crate::pool_delta::delta_int(b.delegation_balances, k),
    )
    &&& forall|k: H256| crate::delta_collections::merged_data_entry(
        map_entry(a.delegation_data, k),
        #[trigger] map_entry(b.delegation_data, k),
    ) is Ok
}

/// The fold of delta bundle `b` over `a`.
pub open spec fn bundle_merged(a: DeltaMaps, b: DeltaMaps) -> DeltaMaps {
    DeltaMaps {
        pool_data: merged_data_map(a.pool_data, b.pool_data),
        pool_balances: merged_amount_map(a.pool_balances, b.pool_balances),
        pool_delegation_shares: merged_amount_map(a.pool_delegation_shares, b.pool_delegation_shares),
        delegation_balances: merged_amount_map(a.delegation_balances, b.delegation_balances),
        delegation_data: merged_data_map(a.delegation_data, b.delegation_data),
    }
}

/// Whether the undo of `dm` against `base` can be computed.
pub open spec fn bundle_invert_ok(base: InMemoryPoSAccounting, dm: DeltaMaps) -> bool {
    &&& data_invert_ok(base.pools(), dm.pool_data)
    &&& amount_invert_ok(dm.pool_balances)
    &&& amount_invert_ok(dm.pool_delegation_shares)
    &&& amount_invert_ok(dm.delegation_balances)
    &&& data_invert_ok(base.delegations(), dm.delegation_data)
}

/// Applies a delta bundle to an absolute store; on rejection the store is
/// left as it was.
pub fn apply_bundle(store: &mut InMemoryPoSAccounting, bundle: &PoSAccountingDeltaData) -> (r:
    Result<(), Error>)
    requires
        old(store).wf(),
        bundle.wf(),
    ensures
        final(store).wf(),
        r is Ok <==> bundle_apply_ok(*old(store), bundle.maps()),
        r is Ok ==> store_maps(*final(store)) == bundle_applied(*old(store), bundle.maps()),
        r is Err ==> *final(store) == *old(store),
{
    let mut pool_data = store.pool_data.duplicate();
    let mut pool_balances = store.pool_balances.duplicate();
    let mut pool_delegation_shares = store.pool_delegation_shares.duplicate();
    let mut delegation_balances = store.delegation_balances.duplicate();
    let mut delegation_data = store.delegation_data.duplicate();
    match apply_data_deltas(
        &mut pool_data,
        &bundle.pool_data,
        Error::PoolCreatedMultipleTimes,
        Error::RemovingNonexistingPoolData,
    ) {
        Ok(()) => {},
        Err(e) => {
            return Err(e);
        },
    }
    match apply_amount_deltas(&mut pool_balances, &bundle.pool_balances) {
        Ok(()) => {},
        Err(e) => {
            return Err(e);
        },
    }
    match apply_amount_deltas(&mut pool_delegation_shares, &bundle.pool_delegation_shares) {
        Ok(()) => {},
        Err(e) => {
            return Err(e);
        },
    }
    match apply_amount_deltas(&mut delegation_balances, &bundle.delegation_balances) {
        Ok(()) => {},
        Err(e) => {
            return Err(e);
        },
    }
    match apply_data_deltas(
        &mut delegation_data,
        &bundle.delegation_data,
        Error::DelegationDataCreatedMultipleTimes,
        Error::RemovingNonexistingDelegationData,
    ) {
        Ok(()) => {},
        Err(e) => {
            return Err(e);
        },
    }
    *store = InMemoryPoSAccounting::from_values(
        pool_data,
        pool_balances,
        pool_delegation_shares,
        delegation_balances,
        delegation_data,
    );
    Ok(())
}

/// The undo bundle that reverts `bundle` against the base it is about to be
/// applied to.
pub fn invert_bundle(base: &InMemoryPoSAccounting, bundle: &PoSAccountingDeltaData) -> (r: Result<
    PoSAccountingDeltaData,
    Error,
>)
    requires
        base.wf(),
        bundle.wf(),
    ensures
        r is Ok <==> {
            &&& data_invert_ok(base.pools(), bundle.maps().pool_data)
            &&& amount_invert_ok(bundle.maps().pool_balances)
            &&& amount_invert_ok(bundle.maps().pool_delegation_shares)
            &&& amount_invert_ok(bundle.maps().delegation_balances)
            &&& data_invert_ok(base.delegations(), bundle.maps().delegation_data)
        },
        r is Ok ==> r->Ok_0.wf() && r->Ok_0.maps() == (DeltaMaps {
            pool_data: inverted_data_map(base.pools(), bundle.maps().pool_data),
            pool_balances: inverted_amount_map(bundle.maps().pool_balances),
            pool_delegation_shares: inverted_amount_map(bundle.maps().pool_delegation_shares),
            delegation_balances: inverted_amount_map(bundle.maps().delegation_balances),
            delegation_data: inverted_data_map(base.delegations(), bundle.maps().delegation_data),
        }),
{
    let pool_data = match invert_data_deltas(
        &base.pool_data,
        &bundle.pool_data,
        Error::RemovingNonexistingPoolData,
    ) {
        Ok(c) => c,
        Err(e) => {
            return Err(e);
        },
    };
    let pool_balances = match invert_amount_deltas(&bundle.pool_balances) {
        Ok(c) => c,
        Err(e) => {
            return Err(e);
        },
    };
    let pool_delegation_shares = match invert_amount_deltas(&bundle.pool_delegation_shares) {
        Ok(c) => c,
        Err(e) => {
            return Err(e);
        },
    };
    let delegation_balances = match invert_amount_deltas(&bundle.delegation_balances) {
        Ok(c) => c,
        Err(e) => {
            return Err(e);
        },
    };
    let delegation_data = match invert_data_deltas(
        &base.delegation_data,
        &bundle.delegation_data,
        Error::RemovingNonexistingDelegationData,
    ) {
        Ok(c) => c,
        Err(e) => {
            return Err(e);
        },
    };
    Ok(
        PoSAccountingDeltaData {
            pool_data,
            pool_balances,
            pool_delegation_shares,
            delegation_balances,
            delegation_data,
        },
    )
}

/// The delta recorded for epoch `e` once a block with delta `dm` has been
/// folded in.
pub open spec fn epoch_entry_after(store: EpochStore, e: u64, dm: DeltaMaps) -> Option<DeltaMaps> {
    if delta_maps_empty(dm) {
        match map_entry(store.epoch_deltas@, e) {
            Some(b) => Some(b.maps()),
            None => None,
        }
    } else {
        Some(
            bundle_merged(
                if store.epoch_deltas@.dom().contains(e) {
                    store.epoch_deltas@[e].maps()
                } else {
                    crate::pool_delta::empty_delta_maps()
                },
                dm,
            ),
        )
    }
}

/// The epoch delta a block at `height` seals, if the block completes an
/// epoch past the sealing distance and that epoch recorded one.
pub open spec fn seal_source(
    store: EpochStore,
    config: ChainConfig,
    height: BlockHeight,
    dm: DeltaMaps,
) -> Option<DeltaMaps> {
    let e = height.height / config.epoch_length;
    if height.height % config.epoch_length == config.epoch_length - 1 && e
        >= config.sealed_epoch_distance_from_tip {
        let se = (e - config.sealed_epoch_distance_from_tip) as u64;
        if se == e {
            epoch_entry_after(store, e, dm)
        } else {
            match map_entry(store.epoch_deltas@, se) {
                Some(b) => Some(b.maps()),
                None => None,
            }
        }
    } else {
        None
    }
}

/// When `process_block` owes success for a block whose fold produced `dm`:
/// the delta applies to the tip, folds over the epoch's delta, and — when
/// the block seals an epoch — that epoch's delta applies to the sealed
/// aggregate and its undo can be computed.
pub open spec fn process_block_accepts(
    store: EpochStore,
    config: ChainConfig,
    height: BlockHeight,
    dm: DeltaMaps,
) -> bool {
    let e = height.height / config.epoch_length;
    &&& (!delta_maps_empty(dm) ==> bundle_apply_ok(store.tip, dm) && bundle_merge_ok(
        if store.epoch_deltas@.dom().contains(e) {
            store.epoch_deltas@[e].maps()
        } else {
            crate::pool_delta::empty_delta_maps()
        },
        dm,
    ))
    &&& match seal_source(store, config, height, dm) {
        Some(sm) => bundle_invert_ok(store.sealed, sm) && bundle_apply_ok(store.sealed, sm),
        None => true,
    }
}

/// The accounting storage: the tip and sealed aggregates, the per-epoch
/// deltas and the undo deltas of sealed epochs.
pub struct EpochStore {
    pub tip: InMemoryPoSAccounting,
    pub sealed: InMemoryPoSAccounting,
    pub epoch_deltas: VecMap<u64, PoSAccountingDeltaData>,
    pub epoch_undo_deltas: VecMap<u64, PoSAccountingDeltaData>,
}

impl EpochStore {
    pub open spec fn wf(&self) -> bool {
        &&& self.tip.wf()
        &&& self.sealed.wf()
        &&& self.epoch_deltas.wf()
        &&& self.epoch_undo_deltas.wf()
        &&& forall|e: u64| self.epoch_deltas@.dom().contains(e)
            ==> (#[trigger] self.epoch_deltas@[e]).wf()
        &&& forall|e: u64| self.epoch_undo_deltas@.dom().contains(e)
            ==> (#[trigger] self.epoch_undo_deltas@[e]).wf()
    }

    pub fn new() -> (r: Self)
        ensures
            r.wf(),
            r.tip.pools() == Map::<H256, PoolData>::empty(),
            r.tip.pool_balances() == Map::<H256, Amount>::empty(),
            r.sealed.pools() == Map::<H256, PoolData>::empty(),
            r.sealed.pool_balances() == Map::<H256, Amount>::empty(),
            r.epoch_deltas@ == Map::<u64, PoSAccountingDeltaData>::empty(),
            r.epoch_undo_deltas@ == Map::<u64, PoSAccountingDeltaData>::empty(),
    {
        EpochStore {
            tip: InMemoryPoSAccounting::new(),
            sealed: InMemoryPoSAccounting::new(),
            epoch_deltas: VecMap::new(),
            epoch_undo_deltas: VecMap::new(),
        }
    }

    /// The accounting state at the chain tip.
    pub fn read_accounting_data_tip(&self) -> (r: &InMemoryPoSAccounting)
        ensures
            *r == self.tip,
    {
        &self.tip
    }

    /// The accounting state lagging the tip by the sealing distance.
    pub fn read_accounting_data_sealed(&self) -> (r: &InMemoryPoSAccounting)
        ensures
            *r == self.sealed,
    {
        &self.sealed
    }

    /// The delta an epoch accumulated; `None` means the epoch produced no
    /// accounting-relevant transactions, a normal condition.
    pub fn get_accounting_epoch_delta(&self, epoch_index: u64) -> (r: Option<
        &PoSAccountingDeltaData,
    >)
        requires
            self.wf(),
        ensures
            match r {
                Some(d) => self.epoch_deltas@.dom().contains(epoch_index) && *d
                    == self.epoch_deltas@[epoch_index],
                None => !self.epoch_deltas@.dom().contains(epoch_index),
            },
    {
        self.epoch_deltas.get(&epoch_index)
    }

    /// The undo of a whole epoch; populated only for epochs that have been
    /// folded into the sealed aggregate.
    pub fn get_accounting_epoch_undo_delta(&self, epoch_index: u64) -> (r: Option<
        &PoSAccountingDeltaData,
    >)
        requires
            self.wf(),
        ensures
            match r {
                Some(d) => self.epoch_undo_deltas@.dom().contains(epoch_index) && *d
                    == self.epoch_undo_deltas@[epoch_index],
                None => !self.epoch_undo_deltas@.dom().contains(epoch_index),
            },
    {
        self.epoch_undo_deltas.get(&epoch_index)
    }


    /// Processes one block: applies its staking operations through an
    /// overlay over the tip, folds the result into the tip and into the
    /// block's epoch delta, and, when the block completes an epoch past the
    /// sealing distance, folds the lagging epoch into the sealed aggregate
    /// and records that epoch's undo. On any rejection nothing changes.
    pub fn process_block(
        &mut self,
        config: &ChainConfig,
        height: BlockHeight,
        block: &Block,
    ) -> (r: Result<Vec<PoSAccountingUndo>, Error>)
        requires
            old(self).wf(),
            config.epoch_length >= 1,
        ensures
            final(self).wf(),
            r is Err ==> final(self).tip == old(self).tip && final(self).sealed == old(self).sealed
                && final(self).epoch_deltas@ == old(self).epoch_deltas@ && final(
            self).epoch_undo_deltas@ == old(self).epoch_undo_deltas@,
            match spec_apply_block(
                store_maps(old(self).tip),
                crate::pool_delta::empty_delta_maps(),
                block.transactions@,
            ) {
                Err(e) => r == Err::<Vec<PoSAccountingUndo>, Error>(e),
                Ok((dm, us)) => {
                    let e = height.height / config.epoch_length;
                    &&& (r is Ok <==> process_block_accepts(*old(self), *config, height, dm))
                    &&& r is Ok ==> {
                    &&& r->Ok_0@ == us
                    &&& (delta_maps_empty(dm) ==> final(self).tip == old(self).tip && final(
                    self).epoch_deltas@ == old(self).epoch_deltas@)
                    &&& (!delta_maps_empty(dm) ==> store_maps(final(self).tip) == bundle_applied(
                        old(self).tip,
                        dm,
                    ) && final(self).epoch_deltas@.dom() == old(self).epoch_deltas@.dom().insert(e)
                        && (match map_entry(final(self).epoch_deltas@, e) {
                        Some(b) => b.maps() == bundle_merged(
                            if old(self).epoch_deltas@.dom().contains(e) {
                                old(self).epoch_deltas@[e].maps()
                            } else {
                                crate::pool_delta::empty_delta_maps()
                            },
                            dm,
                        ),
                        None => false,
                    }) && forall|e2: u64|
                        e2 != e ==> #[trigger] map_entry(final(self).epoch_deltas@, e2) == map_entry(
                            old(self).epoch_deltas@,
                            e2,
                        ))
                    &&& (!(height.height % config.epoch_length == config.epoch_length - 1 && e
                        >= config.sealed_epoch_distance_from_tip) ==> final(self).sealed == old(
                    self).sealed && final(self).epoch_undo_deltas@ == old(self).epoch_undo_deltas@)
                    &&& ((height.height % config.epoch_length == config.epoch_length - 1 && e
                        >= config.sealed_epoch_distance_from_tip) ==> {
                        let se = (e - config.sealed_epoch_distance_from_tip) as u64;
                        match map_entry(final(self).epoch_deltas@, se) {
                            Some(b) => store_maps(final(self).sealed) == bundle_applied(
                                old(self).sealed,
                                b.maps(),
                            ) && final(self).epoch_undo_deltas@.dom() == old(
                            self).epoch_undo_deltas@.dom().insert(se) && (match map_entry(
                                final(self).epoch_undo_deltas@,
                                se,
                            ) {
                                Some(u) => u.maps() == (DeltaMaps {
                                    pool_data: inverted_data_map(
                                        old(self).sealed.pools(),
                                        b.maps().pool_data,
                                    ),
                                    pool_balances: inverted_amount_map(b.maps().pool_balances),
                                    pool_delegation_shares: inverted_amount_map(
                                        b.maps().pool_delegation_shares,
                                    ),
                                    delegation_balances: inverted_amount_map(
                                        b.maps().delegation_balances,
                                    ),
                                    delegation_data: inverted_data_map(
                                        old(self).sealed.delegations(),
                                        b.maps().delegation_data,
                                    ),
                                }),
                                None => false,
                            }),
                            None => final(self).sealed == old(self).sealed && final(
                            self).epoch_undo_deltas@ == old(self).epoch_undo_deltas@,
                        }
                    })
                    }
                },
            },
    {
        let ghost pm0 = store_maps(self.tip);
        let mut undos: Vec<PoSAccountingUndo> = Vec::new();
        let mut delta = PoSAccountingDelta::new(&self.tip);
        proof {
            assert(delta.spec_parent() == self.tip);
            assert(delta.parent_maps() == pm0);
            assert(delta.local_maps() == crate::pool_delta::empty_delta_maps());
        }
        match fold_block(&mut delta, block, &mut undos) {
            Ok(()) => {},
            Err(e) => {
                return Err(e);
            },
        }
        let bundle = delta.consume();
        let ghost dm = bundle.maps();
        let has_delta = !bundle.is_empty();
        proof {
            assert(has_delta == !delta_maps_empty(dm));
        }
        let epoch_index = config.epoch_index_from_height(height);

        let mut staged_tip: Option<InMemoryPoSAccounting> = None;
        let mut staged_entry: Option<PoSAccountingDeltaData> = None;
        if has_delta {
            let mut new_tip = self.tip.duplicate();
            proof {
                assert(store_maps(new_tip) == pm0);
            }
            let ghost tip_copy = new_tip;
            match apply_bundle(&mut new_tip, &bundle) {
                Ok(()) => {},
                Err(e) => {
                    proof {
                        assert(!bundle_apply_ok(tip_copy, dm));
                        assert(!bundle_apply_ok(old(self).tip, dm));
                        assert(!process_block_accepts(*old(self), *config, height, dm));
                    }
                    return Err(e);
                },
            }
            proof {
                assert(bundle_apply_ok(old(self).tip, dm));
                assert(store_maps(new_tip) == bundle_applied(old(self).tip, dm));
            }
            let ghost prior_maps = if self.epoch_deltas@.dom().contains(epoch_index) {
                self.epoch_deltas@[epoch_index].maps()
            } else {
                crate::pool_delta::empty_delta_maps()
            };
            let mut entry = match self.epoch_deltas.get(&epoch_index) {
                Some(existing) => existing.duplicate(),
                None => PoSAccountingDeltaData::new(),
            };
            proof {
                assert(entry.maps() == prior_maps);
            }
            let ghost entry_before = entry;
            match entry.merge_with(&bundle) {
                Ok(()) => {},
                Err(e) => {
                    proof {
                        lemma_bundle_merge_conditions(entry_before, bundle, prior_maps, dm);
                        assert(!bundle_merge_ok(prior_maps, dm));
                        assert(!process_block_accepts(*old(self), *config, height, dm));
                    }
                    return Err(e);
                },
            }
            proof {
                lemma_bundle_merge_conditions(entry_before, bundle, prior_maps, dm);
                assert(bundle_merge_ok(prior_maps, dm));
                assert(entry.maps() == bundle_merged(prior_maps, dm));
            }
            staged_tip = Some(new_tip);
            staged_entry = Some(entry);
        }

        let sealing_now = config.is_last_block_in_epoch(height) && epoch_index
            >= config.sealed_epoch_distance_from_tip;
        let mut staged_sealed: Option<(InMemoryPoSAccounting, PoSAccountingDeltaData)> = None;
        let seal_index: u64 = if sealing_now {
            epoch_index - config.sealed_epoch_distance_from_tip
        } else {
            0
        };
        let ghost seal_src = seal_source(*old(self), *config, height, dm);
        if sealing_now {
            let to_seal: Option<&PoSAccountingDeltaData> = if seal_index == epoch_index {
                match &staged_entry {
                    Some(en) => Some(en),
                    None => self.epoch_deltas.get(&seal_index),
                }
            } else {
                self.epoch_deltas.get(&seal_index)
            };
            match to_seal {
                Some(dseal) => {
                    proof {
                        assert(seal_src == Some(dseal.maps()));
                    }
                    let undo = match invert_bundle(&self.sealed, dseal) {
                        Ok(u) => u,
                        Err(e) => {
                            proof {
                                assert(!bundle_invert_ok(old(self).sealed, dseal.maps()));
                                assert(!process_block_accepts(*old(self), *config, height, dm));
                            }
                            return Err(e);
                        },
                    };
                    let ghost sealed_copy = self.sealed;
                    let mut new_sealed = self.sealed.duplicate();
                    proof {
                        assert(store_maps(new_sealed) == store_maps(old(self).sealed));
                    }
                    match apply_bundle(&mut new_sealed, dseal) {
                        Ok(()) => {},
                        Err(e) => {
                            proof {
                                assert(!bundle_apply_ok(old(self).sealed, dseal.maps()));
                                assert(!process_block_accepts(*old(self), *config, height, dm));
                            }
                            return Err(e);
                        },
                    }
                    proof {
                        assert(bundle_invert_ok(old(self).sealed, dseal.maps()));
                        assert(bundle_apply_ok(old(self).sealed, dseal.maps()));
                    }
                    staged_sealed = Some((new_sealed, undo));
                },
                None => {
                    proof {
                        assert(seal_src is None);
                    }
                },
            }
        } else {
            proof {
                assert(seal_src is None);
            }
        }
        proof {
            assert(process_block_accepts(*old(self), *config, height, dm));
        }

        if let Some(t2) = staged_tip {
            self.tip = t2;
        }
        if let Some(en) = staged_entry {
            self.epoch_deltas.insert(epoch_index, en);
        }
        if let Some((s2, u2)) = staged_sealed {
            self.sealed = s2;
            self.epoch_undo_deltas.insert(seal_index, u2);
        }
        Ok(undos)
    }
}

/// Folds the accounting operations of one transaction's outputs into the
/// overlay, collecting their undo tokens.
fn fold_tx_outputs<'a, P: PoSAccountingView>(
    delta: &mut PoSAccountingDelta<'a, P>,
    input0: Option<OutPoint>,
    tx: &Transaction,
    undos: &mut Vec<PoSAccountingUndo>,
) -> (r: Result<(), Error>)
    requires
        old(delta).wf(),
        old(delta).spec_parent().consistent(),
    ensures
        final(delta).wf(),
        final(delta).spec_parent() == old(delta).spec_parent(),
        match spec_apply_tx_outputs(
            old(delta).parent_maps(),
            old(delta).local_maps(),
            input0,
            tx.outputs@,
        ) {
            Err(e) => r == Err::<(), Error>(e),
            Ok((mt, ust)) => r is Ok && final(delta).local_maps() == mt && final(undos)@ == old(
                undos,
            )@ + ust,
        },
{
    let ghost pm = delta.parent_maps();
    let ghost outs = tx.outputs@;
    let ghost base = undos@;
    let n = tx.outputs.len();
    let mut j: usize = 0;
    proof {
        assert(outs.skip(0) =~= outs);
        assert(undos@.skip(base.len() as int) =~= Seq::<PoSAccountingUndo>::empty());
        assert(undos@.take(base.len() as int) =~= base);
        match spec_apply_tx_outputs(pm, delta.local_maps(), input0, outs) {
            Ok((mt, ust)) => {
                assert(undos@.skip(base.len() as int) + ust =~= ust);
            },
            Err(_) => {},
        }
    }
    while j < n
        invariant
            delta.wf(),
            delta.spec_parent() == old(delta).spec_parent(),
            delta.spec_parent().consistent(),
            pm == delta.parent_maps(),
            pm == old(delta).parent_maps(),
            outs == tx.outputs@,
            base == old(undos)@,
            n == outs.len(),
            j <= n,
            undos@.len() >= base.len(),
            undos@.take(base.len() as int) == base,
            match spec_apply_tx_outputs(pm, delta.local_maps(), input0, outs.skip(j as int)) {
                Err(e) => spec_apply_tx_outputs(pm, old(delta).local_maps(), input0, outs) == Err::<
                    (DeltaMaps, Seq<PoSAccountingUndo>),
                    Error,
                >(e),
                Ok((mt, ust)) => spec_apply_tx_outputs(pm, old(delta).local_maps(), input0, outs)
                    == Ok::<(DeltaMaps, Seq<PoSAccountingUndo>), Error>(
                    (mt, undos@.skip(base.len() as int) + ust),
                ),
            },
        decreases n - j,
    {
        let output = &tx.outputs[j];
        proof {
            assert(outs.skip(j as int).first() == outs[j as int]);
            assert(outs.skip(j as int).drop_first() =~= outs.skip(j as int + 1));
        }
        let ghost us_before = undos@;
        let ghost m_before = delta.local_maps();
        match output {
            TxOutput::CreateStakePool(_, data) => {
                let op = match &input0 {
                    Some(op) => *op,
                    None => {
                        return Err(Error::MissingKernelInput);
                    },
                };
                match delta.create_pool(&op, data.value, data.decommission_key) {
                    Ok(u) => {
                        undos.push(u);
                        proof {
                            assert(undos@.skip(base.len() as int) =~= us_before.skip(
                                base.len() as int,
                            ).push(u));
                        }
                    },
                    Err(e) => {
                        return Err(e);
                    },
                }
            },
            TxOutput::CreateDelegationId(dest, target_pool) => {
                let op = match &input0 {
                    Some(op) => *op,
                    None => {
                        return Err(Error::MissingKernelInput);
                    },
                };
                match delta.create_delegation_id(*target_pool, *dest, &op) {
                    Ok((_did, u)) => {
                        undos.push(u);
                        proof {
                            assert(undos@.skip(base.len() as int) =~= us_before.skip(
                                base.len() as int,
                            ).push(u));
                        }
                    },
                    Err(e) => {
                        return Err(e);
                    },
                }
            },
            TxOutput::DelegateStaking(amount, delegation_id) => {
                match delta.delegate_staking(*delegation_id, *amount) {
                    Ok(u) => {
                        undos.push(u);
                        proof {
                            assert(undos@.skip(base.len() as int) =~= us_before.skip(
                                base.len() as int,
                            ).push(u));
                        }
                    },
                    Err(e) => {
                        return Err(e);
                    },
                }
            },
            _ => {},
        }
        proof {
            assert(undos@.take(base.len() as int) =~= base);
            match spec_apply_output(pm, m_before, input0, outs[j as int]) {
                Ok((m2, us1)) => {
                    assert(delta.local_maps() == m2);
                    match spec_apply_tx_outputs(pm, m2, input0, outs.skip(j as int + 1)) {
                        Ok((mt, ust)) => {
                            assert(undos@.skip(base.len() as int) + ust =~= us_before.skip(
                                base.len() as int,
                            ) + (us1 + ust));
                        },
                        Err(_) => {},
                    }
                },
                Err(_) => {
                    assert(false);
                },
            }
        }
        j = j + 1;
    }
    proof {
        assert(outs.skip(n as int) =~= Seq::<TxOutput>::empty());
        assert(undos@.skip(base.len() as int) + Seq::<PoSAccountingUndo>::empty() =~= undos@.skip(
            base.len() as int,
        ));
        assert(base + undos@.skip(base.len() as int) =~= undos@);
    }
    Ok(())
}

/// Folds the accounting operations of a whole block into the overlay.
fn fold_block<'a, P: PoSAccountingView>(
    delta: &mut PoSAccountingDelta<'a, P>,
    block: &Block,
    undos: &mut Vec<PoSAccountingUndo>,
) -> (r: Result<(), Error>)
    requires
        old(delta).wf(),
        old(delta).spec_parent().consistent(),
        old(undos)@.len() == 0,
    ensures
        final(delta).wf(),
        final(delta).spec_parent() == old(delta).spec_parent(),
        match spec_apply_block(
            old(delta).parent_maps(),
            old(delta).local_maps(),
            block.transactions@,
        ) {
            Err(e) => r == Err::<(), Error>(e),
            Ok((mf, usf)) => r is Ok && final(delta).local_maps() == mf && final(undos)@ == usf,
        },
{
    let ghost pm = delta.parent_maps();
    let ghost txs = block.transactions@;
    let n = block.transactions.len();
    let mut t: usize = 0;
    proof {
        assert(txs.skip(0) =~= txs);
        assert(undos@ =~= Seq::<PoSAccountingUndo>::empty());
        match spec_apply_block(pm, delta.local_maps(), txs) {
            Ok((mf, usf)) => {
                assert(undos@ + usf =~= usf);
            },
            Err(_) => {},
        }
    }
    while t < n
        invariant
            delta.wf(),
            delta.spec_parent() == old(delta).spec_parent(),
            delta.spec_parent().consistent(),
            pm == delta.parent_maps(),
            pm == old(delta).parent_maps(),
            txs == block.transactions@,
            n == txs.len(),
            t <= n,
            match spec_apply_block(pm, delta.local_maps(), txs.skip(t as int)) {
                Err(e) => spec_apply_block(pm, old(delta).local_maps(), txs) == Err::<
                    (DeltaMaps, Seq<PoSAccountingUndo>),
                    Error,
                >(e),
                Ok((mf, usf)) => spec_apply_block(pm, old(delta).local_maps(), txs) == Ok::<
                    (DeltaMaps, Seq<PoSAccountingUndo>),
                    Error,
                >((mf, undos@ + usf)),
            },
        decreases n - t,
    {
        let tx = &block.transactions[t];
        let input0: Option<OutPoint> = if tx.inputs.len() > 0 {
            match &tx.inputs[0] {
                TxInput::Utxo(op) => Some(*op),
                TxInput::Account(_) => None,
            }
        } else {
            None
        };
        proof {
            assert(input0 == tx_input0(txs[t as int]));
            assert(txs.skip(t as int).first() == txs[t as int]);
            assert(txs.skip(t as int).drop_first() =~= txs.skip(t as int + 1));
        }
        let ghost us_before = undos@;
        let ghost m_before = delta.local_maps();
        match fold_tx_outputs(delta, input0, tx, undos) {
            Ok(()) => {},
            Err(e) => {
                return Err(e);
            },
        }
        proof {
            match spec_apply_tx_outputs(pm, m_before, input0, txs[t as int].outputs@) {
                Ok((mt, ust)) => {
                    match spec_apply_block(pm, mt, txs.skip(t as int + 1)) {
                        Ok((mf, usf)) => {
                            assert(undos@ + usf =~= us_before + (ust + usf));
                        },
                        Err(_) => {},
                    }
                },
                Err(_) => {},
            }
        }
        t = t + 1;
    }
    proof {
        assert(txs.skip(n as int) =~= Seq::<Transaction>::empty());
        assert(undos@ + Seq::<PoSAccountingUndo>::empty() =~= undos@);
    }
    Ok(())
}

/// The merge conditions of a bundle, stated over its collections and over
/// its abstract maps, say the same thing.
proof fn lemma_bundle_merge_conditions(
    a: PoSAccountingDeltaData,
    b: PoSAccountingDeltaData,
    am: DeltaMaps,
    bm: DeltaMaps,
)
    requires
        a.maps() == am,
        b.maps() == bm,
    ensures
        bundle_merge_ok(am, bm) <==> ({
            &&& forall|k: H256| crate::delta_collections::merged_data_entry(
                a.pool_data.entry_of(k),
                #[trigger] b.pool_data.entry_of(k),
            ) is Ok
            &&& forall|k: H256| fits_signed(
                a.pool_balances.delta_of(k) + #[trigger] b.pool_balances.delta_of(k),
            )
            &&& forall|k: ShareKey| fits_signed(
                a.pool_delegation_shares.delta_of(k)
                    + #[trigger] b.pool_delegation_shares.delta_of(k),
            )
            &&& forall|k: H256| fits_signed(
                a.delegation_balances.delta_of(k) + #[trigger] b.delegation_balances.delta_of(k),
            )
            &&& forall|k: H256| crate::delta_collections::merged_data_entry(
                a.delegation_data.entry_of(k),
                #[trigger] b.delegation_data.entry_of(k),
            ) is Ok
        }),
{
    assert forall|k: H256|
        crate::delta_collections::merged_data_entry(
            map_entry(am.pool_data, k),
            #[trigger] map_entry(bm.pool_data, k),
        ) == crate::delta_collections::merged_data_entry(
        a.pool_data.entry_of(k),
        b.pool_data.entry_of(k),
    ) by {
        assert(a.pool_data.entry_of(k) == map_entry(am.pool_data, k));
        assert(b.pool_data.entry_of(k) == map_entry(bm.pool_data, k));
    }
    assert forall|k: H256|
        crate::delta_collections::merged_data_entry(
            a.pool_data.entry_of(k),
            #[trigger] b.pool_data.entry_of(k),
        ) == crate::delta_collections::merged_data_entry(
        map_entry(am.pool_data, k),
        map_entry(bm.pool_data, k),
    ) by {
        assert(a.pool_data.entry_of(k) == map_entry(am.pool_data, k));
        assert(b.pool_data.entry_of(k) == map_entry(bm.pool_data, k));
    }
    assert forall|k: H256|
        #[trigger] crate::pool_delta::delta_int(am.pool_balances, k) == a.pool_balances.delta_of(
        k,
    ) && crate::pool_delta::delta_int(bm.pool_balances, k) == b.pool_balances.delta_of(k) by {}
    assert forall|k: H256|
        a.pool_balances.delta_of(k) + #[trigger] b.pool_balances.delta_of(k)
            == crate::pool_delta::delta_int(am.pool_balances, k) + crate::pool_delta::delta_int(
            bm.pool_balances,
            k,
        ) by {}
    assert forall|k: ShareKey|
        a.pool_delegation_shares.delta_of(k) + #[trigger] b.pool_delegation_shares.delta_of(k)
            == crate::pool_delta::delta_int(am.pool_delegation_shares, k)
            + crate::pool_delta::delta_int(bm.pool_delegation_shares, k) by {}
    assert forall|k: ShareKey|
        #[trigger] crate::pool_delta::delta_int(am.pool_delegation_shares, k)
            + crate::pool_delta::delta_int(bm.pool_delegation_shares, k)
            == a.pool_delegation_shares.delta_of(k) + b.pool_delegation_shares.delta_of(k) by {}
    assert forall|k: H256|
        a.delegation_balances.delta_of(k) + #[trigger] b.delegation_balances.delta_of(k)
            == crate::pool_delta::delta_int(am.delegation_balances, k)
            + crate::pool_delta::delta_int(bm.delegation_balances, k) by {}
    assert forall|k: H256|
        #[trigger] crate::pool_delta::delta_int(am.delegation_balances, k)
            + crate::pool_delta::delta_int(bm.delegation_balances, k)
            == a.delegation_balances.delta_of(k) + b.delegation_balances.delta_of(k) by {}
    assert forall|k: H256|
        crate::delta_collections::merged_data_entry(
            map_entry(am.delegation_data, k),
            #[trigger] map_entry(bm.delegation_data, k),
        ) == crate::delta_collections::merged_data_entry(
        a.delegation_data.entry_of(k),
        b.delegation_data.entry_of(k),
    ) by {
        assert(a.delegation_data.entry_of(k) == map_entry(am.delegation_data, k));
        assert(b.delegation_data.entry_of(k) == map_entry(bm.delegation_data, k));
    }
    assert forall|k: H256|
        crate::delta_collections::merged_data_entry(
            a.delegation_data.entry_of(k),
            #[trigger] b.delegation_data.entry_of(k),
        ) == crate::delta_collections::merged_data_entry(
        map_entry(am.delegation_data, k),
        map_entry(bm.delegation_data, k),
    ) by {
        assert(a.delegation_data.entry_of(k) == map_entry(am.delegation_data, k));
        assert(b.delegation_data.entry_of(k) == map_entry(bm.delegation_data, k));
    }
}

} // verus!
