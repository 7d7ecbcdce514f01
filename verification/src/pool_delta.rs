//! The layered write overlay over a parent accounting view.
//!
//! `PoSAccountingDelta` records every mutation as a delta against a borrowed
//! parent view, without touching the parent. Each write operation returns an
//! undo token; consuming the token in strict reverse order restores the
//! overlay's observable state exactly. Reads combine the parent's absolute
//! values with the local deltas under the composition rules of
//! [`crate::view::spec_combine_amount`] and [`spec_combine_data`].

use vstd::prelude::*;
use crate::amount::{Amount, SignedAmount};
use crate::collections::{MapKey, VecMap};
use crate::delta_collections::{
    fits_signed, merged_amount_map, merged_data_entry, merged_data_map, DataDelta,
    DeltaAmountCollection, DeltaDataCollection,
};
use crate::error::Error;
use crate::pool_types::{
    spec_delegation_id, spec_pool_id, make_delegation_id, make_pool_id, DelegationData,
    Destination, PoolData, PublicKey, ShareKey,
};
use crate::primitives::{H256, OutPoint};
use crate::view::{
    combine_amount_delta, map_get, pool_shares_of, spec_combine_amount, PoSAccountingView,
};

verus! {

/// How a parent's entity data combines with a local data delta: creation
/// over existing data and removal of absent data are invariant violations.
pub open spec fn spec_combine_data<V>(
    p: Option<V>,
    d: Option<DataDelta<V>>,
    created_twice: Error,
    removed_absent: Error,
) -> Result<Option<V>, Error> {
    match (p, d) {
        (None, None) => Ok(None),
        (None, Some(dl)) => match dl {
            DataDelta::Add(v) => Ok(Some(v)),
            DataDelta::Remove => Err(removed_absent),
        },
        (Some(pv), None) => Ok(Some(pv)),
        (Some(_), Some(dl)) => match dl {
            DataDelta::Add(_) => Err(created_twice),
            DataDelta::Remove => Ok(None),
        },
    }
}

/// Undo token of `create_pool`: the originating outpoint re-derives the pool
/// identifier, and the pledge is kept for completeness of the record.
#[derive(Clone, Copy, Debug, PartialEq, Eq, Structural)]
pub struct CreatePoolUndo {
    pub input0_outpoint: OutPoint,
    pub pledge_amount: Amount,
}

/// Undo token of `decommission_pool`: the balance and data the pool held
/// just before removal, sufficient for full restoration.
#[derive(Clone, Copy, Debug, PartialEq, Eq, Structural)]
pub struct DecommissionPoolUndo {
    pub pool_id: H256,
    pub last_amount: Amount,
    pub pool_data: PoolData,
}

/// Undo token of `create_delegation_id`.
#[derive(Clone, Copy, Debug, PartialEq, Eq, Structural)]
pub struct CreateDelegationIdUndo {
    pub input0_outpoint: OutPoint,
}

/// Undo token of `delegate_staking`.
#[derive(Clone, Copy, Debug, PartialEq, Eq, Structural)]
pub struct DelegateStakingUndo {
    pub delegation_target: H256,
    pub amount_to_delegate: Amount,
}

/// The undo token returned by every write operation, pure data owning no
/// reference to the mutated store.
#[derive(Clone, Copy, Debug, PartialEq, Eq, Structural)]
pub enum PoSAccountingUndo {
    CreatePool(CreatePoolUndo),
    DecommissionPool(DecommissionPoolUndo),
    CreateDelegationId(CreateDelegationIdUndo),
    DelegateStaking(DelegateStakingUndo),
}

/// The abstract content of the five local delta collections.
pub struct DeltaMaps {
    pub pool_data: Map<H256, DataDelta<PoolData>>,
    pub pool_balances: Map<H256, SignedAmount>,
    pub pool_delegation_shares: Map<ShareKey, SignedAmount>,
    pub delegation_balances: Map<H256, SignedAmount>,
    pub delegation_data: Map<H256, DataDelta<DelegationData>>,
}

/// The delta maps of a fresh overlay: nothing recorded.
pub open spec fn empty_delta_maps() -> DeltaMaps {
    DeltaMaps {
        pool_data: Map::<H256, DataDelta<PoolData>>::empty(),
        pool_balances: Map::<H256, SignedAmount>::empty(),
        pool_delegation_shares: Map::<ShareKey, SignedAmount>::empty(),
        delegation_balances: Map::<H256, SignedAmount>::empty(),
        delegation_data: Map::<H256, DataDelta<DelegationData>>::empty(),
    }
}

/// The abstract content of the parent view.
pub struct ParentMaps {
    pub pools: Map<H256, PoolData>,
    pub pool_balances: Map<H256, Amount>,
    pub delegations: Map<H256, DelegationData>,
    pub delegation_balances: Map<H256, Amount>,
    pub shares: Map<ShareKey, Amount>,
}

/// The signed delta recorded for `k`, zero when absent.
pub open spec fn delta_int<K>(m: Map<K, SignedAmount>, k: K) -> int {
    if m.dom().contains(k) {
        m[k].atoms as int
    } else {
        0
    }
}

/// The result of adding `sum` as the new delta for `k`: a zero sum removes
/// the entry, anything else replaces it.
pub open spec fn spec_merge_amount_entry<K>(m: Map<K, SignedAmount>, k: K, sum: int) -> Map<
    K,
    SignedAmount,
> {
    if sum == 0 {
        m.remove(k)
    } else {
        m.insert(k, SignedAmount { atoms: sum as i128 })
    }
}

/// The write-capable overlay: all mutations are recorded locally as deltas
/// against the borrowed parent view.
pub struct PoSAccountingDelta<'a, P: PoSAccountingView> {
    parent: &'a P,
    pool_data: DeltaDataCollection<H256, PoolData>,
    pool_balances: DeltaAmountCollection<H256>,
    pool_delegation_shares: DeltaAmountCollection<ShareKey>,
    delegation_balances: DeltaAmountCollection<H256>,
    delegation_data: DeltaDataCollection<H256, DelegationData>,
}

impl<'a, P: PoSAccountingView> PoSAccountingDelta<'a, P> {
    pub closed spec fn wf(&self) -> bool {
        &&& self.pool_data.wf()
        &&& self.pool_balances.wf()
        &&& self.pool_delegation_shares.wf()
        &&& self.delegation_balances.wf()
        &&& self.delegation_data.wf()
    }

    /// The parent view this overlay reads through.
    pub closed spec fn spec_parent(&self) -> P {
        *self.parent
    }

    /// The recorded local deltas.
    pub closed spec fn local_maps(&self) -> DeltaMaps {
        DeltaMaps {
            pool_data: self.pool_data.as_map(),
            pool_balances: self.pool_balances.as_map(),
            pool_delegation_shares: self.pool_delegation_shares.as_map(),
            delegation_balances: self.delegation_balances.as_map(),
            delegation_data: self.delegation_data.as_map(),
        }
    }

    /// The parent's abstract content.
    pub open spec fn parent_maps(&self) -> ParentMaps {
        ParentMaps {
            pools: self.spec_parent().pools(),
            pool_balances: self.spec_parent().pool_balances(),
            delegations: self.spec_parent().delegations(),
            delegation_balances: self.spec_parent().delegation_balances(),
            shares: self.spec_parent().shares(),
        }
    }

    pub open spec fn combined_pool_data(&self, id: H256) -> Result<Option<PoolData>, Error> {
        spec_combine_data(
            map_get(self.parent_maps().pools, id),
            map_get(self.local_maps().pool_data, id),
            Error::PoolCreatedMultipleTimes,
            Error::RemovingNonexistingPoolData,
        )
    }

    pub open spec fn combined_pool_balance(&self, id: H256) -> Result<Option<Amount>, Error> {
        spec_combine_amount(
            map_get(self.parent_maps().pool_balances, id),
            map_get(self.local_maps().pool_balances, id),
        )
    }

    pub open spec fn combined_delegation_data(&self, id: H256) -> Result<
        Option<DelegationData>,
        Error,
    > {
        spec_combine_data(
            map_get(self.parent_maps().delegations, id),
            map_get(self.local_maps().delegation_data, id),
            Error::DelegationDataCreatedMultipleTimes,
            Error::RemovingNonexistingDelegationData,
        )
    }

    pub open spec fn combined_delegation_balance(&self, id: H256) -> Result<Option<Amount>, Error> {
        spec_combine_amount(
            map_get(self.parent_maps().delegation_balances, id),
            map_get(self.local_maps().delegation_balances, id),
        )
    }

    pub open spec fn combined_share(&self, k: ShareKey) -> Result<Option<Amount>, Error> {
        spec_combine_amount(
            map_get(self.parent_maps().shares, k),
            map_get(self.local_maps().pool_delegation_shares, k),
        )
    }

    /// A fresh overlay over `parent`, recording nothing yet.
    pub fn new(parent: &'a P) -> (r: Self)
        ensures
            r.wf(),
            r.spec_parent() == *parent,
            r.local_maps() == empty_delta_maps(),
    {
        PoSAccountingDelta {
            parent,
            pool_data: DeltaDataCollection::new(),
            pool_balances: DeltaAmountCollection::new(),
            pool_delegation_shares: DeltaAmountCollection::new(),
            delegation_balances: DeltaAmountCollection::new(),
            delegation_data: DeltaDataCollection::new(),
        }
    }

    fn combined_pool_balance_read(&self, id: H256) -> (r: Result<Option<Amount>, Error>)
        ensures
            self.spec_parent().consistent() ==> r == self.combined_pool_balance(id),
    {
        let parent_amount = match self.parent.get_pool_balance(id) {
            Ok(v) => v,
            Err(e) => {
                return Err(e);
            },
        };
        combine_amount_delta(&parent_amount, &self.pool_balances.get(&id))
    }

    fn combined_pool_data_read(&self, id: H256) -> (r: Result<Option<PoolData>, Error>)
        ensures
            self.spec_parent().consistent() ==> r == self.combined_pool_data(id),
    {
        let parent_data = match self.parent.get_pool_data(id) {
            Ok(v) => v,
            Err(e) => {
                return Err(e);
            },
        };
        match (parent_data, self.pool_data.get(&id)) {
            (None, None) => Ok(None),
            (None, Some(d)) => match d {
                DataDelta::Add(v) => Ok(Some(v)),
                DataDelta::Remove => Err(Error::RemovingNonexistingPoolData),
            },
            (Some(p), None) => Ok(Some(p)),
            (Some(_), Some(d)) => match d {
                DataDelta::Add(_) => Err(Error::PoolCreatedMultipleTimes),
                DataDelta::Remove => Ok(None),
            },
        }
    }

    fn combined_delegation_data_read(&self, id: H256) -> (r: Result<Option<DelegationData>, Error>)
        ensures
            self.spec_parent().consistent() ==> r == self.combined_delegation_data(id),
    {
        let parent_data = match self.parent.get_delegation_data(id) {
            Ok(v) => v,
            Err(e) => {
                return Err(e);
            },
        };
        match (parent_data, self.delegation_data.get(&id)) {
            (None, None) => Ok(None),
            (None, Some(d)) => match d {
                DataDelta::Add(v) => Ok(Some(v)),
                DataDelta::Remove => Err(Error::RemovingNonexistingDelegationData),
            },
            (Some(p), None) => Ok(Some(p)),
            (Some(_), Some(d)) => match d {
                DataDelta::Add(_) => Err(Error::DelegationDataCreatedMultipleTimes),
                DataDelta::Remove => Ok(None),
            },
        }
    }

    fn combined_delegation_balance_read(&self, id: H256) -> (r: Result<Option<Amount>, Error>)
        ensures
            self.spec_parent().consistent() ==> r == self.combined_delegation_balance(id),
    {
        let parent_amount = match self.parent.get_delegation_id_balance(id) {
            Ok(v) => v,
            Err(e) => {
                return Err(e);
            },
        };
        combine_amount_delta(&parent_amount, &self.delegation_balances.get(&id))
    }

    fn combined_share_read(&self, pool_id: H256, delegation_id: H256) -> (r: Result<
        Option<Amount>,
        Error,
    >)
        ensures
            self.spec_parent().consistent() ==> r == self.combined_share(
                ShareKey { pool_id, delegation_id },
            ),
    {
        let parent_amount = match self.parent.get_delegation_share(pool_id, delegation_id) {
            Ok(v) => v,
            Err(e) => {
                return Err(e);
            },
        };
        combine_amount_delta(
            &parent_amount,
            &self.pool_delegation_shares.get(&ShareKey { pool_id, delegation_id }),
        )
    }

    /// The delegation data visible through the overlay; the overlay's own
    /// entry takes precedence over the parent's.
    pub fn get_delegation_id_data(&self, delegation_id: H256) -> (r: Result<
        Option<DelegationData>,
        Error,
    >)
        ensures
            self.spec_parent().consistent() ==> r == self.combined_delegation_data(delegation_id),
    {
        self.combined_delegation_data_read(delegation_id)
    }

    /// Derives the pool identifier from the creating outpoint, rejects a
    /// pool whose balance or data already exists, and records the pledge as
    /// a balance delta beside a creation data delta.
    pub fn create_pool(
        &mut self,
        input0_outpoint: &OutPoint,
        pledge_amount: Amount,
        decommission_key: PublicKey,
    ) -> (r: Result<PoSAccountingUndo, Error>)
        requires
            old(self).wf(),
        ensures
            final(self).wf(),
            final(self).spec_parent() == old(self).spec_parent(),
            old(self).spec_parent().consistent() ==> match spec_create_pool(
                old(self).parent_maps(),
                old(self).local_maps(),
                *input0_outpoint,
                pledge_amount,
                decommission_key,
            ) {
                Ok((m2, u)) => r == Ok::<PoSAccountingUndo, Error>(u) && final(self).local_maps()
                    == m2,
                Err(e) => r == Err::<PoSAccountingUndo, Error>(e),
            },
            r is Err ==> final(self).local_maps() == old(self).local_maps(),
    {
        let pool_id = make_pool_id(input0_outpoint);
        let current_amount = match self.combined_pool_balance_read(pool_id) {
            Ok(v) => v,
            Err(e) => {
                return Err(e);
            },
        };
        if current_amount.is_some() {
            return Err(Error::InvariantErrorPoolBalanceAlreadyExists);
        }
        let current_data = match self.combined_pool_data_read(pool_id) {
            Ok(v) => v,
            Err(e) => {
                return Err(e);
            },
        };
        if current_data.is_some() {
            return Err(Error::InvariantErrorPoolDataAlreadyExists);
        }
        let pledge_delta = match pledge_amount.into_signed() {
            Some(s) => s,
            None => {
                return Err(Error::PledgeValueToSignedError);
            },
        };
        self.pool_balances.insert_entry(pool_id, pledge_delta);
        self.pool_data.insert_entry(
            pool_id,
            DataDelta::Add(PoolData { decommission_key, pledge_amount }),
        );
        Ok(
            PoSAccountingUndo::CreatePool(
                CreatePoolUndo { input0_outpoint: *input0_outpoint, pledge_amount },
            ),
        )
    }

    /// Deletes exactly the balance and data deltas that the matching
    /// `create_pool` recorded, restoring the observable state before it.
    pub fn undo_create_pool(&mut self, undo_data: CreatePoolUndo) -> (r: Result<(), Error>)
        requires
            old(self).wf(),
        ensures
            final(self).wf(),
            final(self).spec_parent() == old(self).spec_parent(),
            match spec_undo_create_pool(old(self).local_maps(), undo_data) {
                Ok(m2) => r is Ok && final(self).local_maps() == m2,
                Err(e) => r == Err::<(), Error>(e) && final(self).local_maps()
                    == old(self).local_maps(),
            },
    {
        let pool_id = make_pool_id(&undo_data.input0_outpoint);
        if self.pool_balances.get(&pool_id).is_none() {
            return Err(Error::InvariantErrorPoolCreationReversalFailedBalanceNotFound);
        }
        match self.pool_data.get(&pool_id) {
            Some(DataDelta::Add(_)) => {},
            _ => {
                return Err(Error::InvariantErrorPoolCreationReversalFailedDataNotFound);
            },
        }
        self.pool_balances.remove_entry(&pool_id);
        self.pool_data.remove_entry(&pool_id);
        Ok(())
    }

    /// Removes a pool's balance and data, producing an undo token that
    /// carries the balance and data it held just before removal.
    pub fn decommission_pool(&mut self, pool_id: H256) -> (r: Result<PoSAccountingUndo, Error>)
        requires
            old(self).wf(),
        ensures
            final(self).wf(),
            final(self).spec_parent() == old(self).spec_parent(),
            old(self).spec_parent().consistent() ==> match spec_decommission_pool(
                old(self).parent_maps(),
                old(self).local_maps(),
                pool_id,
            ) {
                Ok((m2, u)) => r == Ok::<PoSAccountingUndo, Error>(u) && final(self).local_maps()
                    == m2,
                Err(e) => r == Err::<PoSAccountingUndo, Error>(e),
            },
            r is Err ==> final(self).local_maps() == old(self).local_maps(),
    {
        let last_amount = match self.combined_pool_balance_read(pool_id) {
            Ok(Some(a)) => a,
            Ok(None) => {
                return Err(Error::AttemptedDecommissionNonexistingPoolBalance);
            },
            Err(e) => {
                return Err(e);
            },
        };
        let pool_data = match self.combined_pool_data_read(pool_id) {
            Ok(Some(d)) => d,
            Ok(None) => {
                return Err(Error::AttemptedDecommissionNonexistingPoolData);
            },
            Err(e) => {
                return Err(e);
            },
        };
        let last_signed = match last_amount.into_signed() {
            Some(s) => s,
            None => {
                return Err(Error::ArithmeticErrorToSignedFailed);
            },
        };
        // A `Remove` entry under combined data `Some` cannot occur against a
        // consistent parent; reject it so the data merge below cannot fail
        // after the balance has already moved.
        match self.pool_data.get(&pool_id) {
            Some(DataDelta::Remove) => {
                return Err(Error::RemovingNonexistingPoolData);
            },
            _ => {},
        }
        let local_delta: i128 = match self.pool_balances.get(&pool_id) {
            Some(s) => s.atoms,
            None => 0,
        };
        let new_delta: i128 = match local_delta.checked_sub(last_signed.atoms) {
            Some(d) => d,
            None => {
                return Err(Error::AmountOverflow);
            },
        };
        let neg_last = match last_signed.checked_neg() {
            Some(n) => n,
            None => {
                proof {
                    assert(false);
                }
                return Err(Error::AmountOverflow);
            },
        };
        match self.pool_balances.merge_delta(pool_id, neg_last) {
            Ok(()) => {},
            Err(e) => {
                proof {
                    assert(false);
                }
                return Err(e);
            },
        }
        match self.pool_data.merge_element(pool_id, DataDelta::Remove) {
            Ok(()) => {},
            Err(e) => {
                proof {
                    assert(false);
                }
                return Err(e);
            },
        }
        proof {
            assert(new_delta as int == delta_int(old(self).local_maps().pool_balances, pool_id)
                - last_amount.atoms);
        }
        Ok(
            PoSAccountingUndo::DecommissionPool(
                DecommissionPoolUndo { pool_id, last_amount, pool_data },
            ),
        )
    }

    /// Restores the balance and data deltas that the matching
    /// `decommission_pool` removed.
    pub fn undo_decommission_pool(&mut self, undo_data: DecommissionPoolUndo) -> (r: Result<
        (),
        Error,
    >)
        requires
            old(self).wf(),
        ensures
            final(self).wf(),
            final(self).spec_parent() == old(self).spec_parent(),
            old(self).spec_parent().consistent() ==> match spec_undo_decommission_pool(
                old(self).parent_maps(),
                old(self).local_maps(),
                undo_data,
            ) {
                Ok(m2) => r is Ok && final(self).local_maps() == m2,
                Err(e) => r == Err::<(), Error>(e),
            },
            r is Err ==> final(self).local_maps() == old(self).local_maps(),
    {
        let pool_id = undo_data.pool_id;
        let last_signed = match undo_data.last_amount.into_signed() {
            Some(s) => s,
            None => {
                return Err(Error::ArithmeticErrorToSignedFailed);
            },
        };
        let parent_data = match self.parent.get_pool_data(pool_id) {
            Ok(v) => v,
            Err(e) => {
                return Err(e);
            },
        };
        let entry = self.pool_data.get(&pool_id);
        match (parent_data.is_some(), entry) {
            (true, Some(DataDelta::Remove)) => {},
            (false, None) => {},
            _ => {
                return Err(Error::InvariantErrorDecommissionUndoFailedDataInconsistent);
            },
        }
        let parent_balance = match self.parent.get_pool_balance(pool_id) {
            Ok(v) => v,
            Err(e) => {
                return Err(e);
            },
        };
        let local_balance = self.pool_balances.get(&pool_id);
        if parent_balance.is_none() && local_balance.is_none() {
            self.pool_balances.insert_entry(pool_id, last_signed);
        } else {
            let local_delta: i128 = match local_balance {
                Some(s) => s.atoms,
                None => 0,
            };
            if local_delta.checked_add(last_signed.atoms).is_none() {
                return Err(Error::AmountOverflow);
            }
            match self.pool_balances.merge_delta(pool_id, last_signed) {
                Ok(()) => {},
                Err(e) => {
                    proof {
                        assert(false);
                    }
                    return Err(e);
                },
            }
        }
        if parent_data.is_some() {
            self.pool_data.remove_entry(&pool_id);
        } else {
            self.pool_data.insert_entry(pool_id, DataDelta::Add(undo_data.pool_data));
        }
        Ok(())
    }

    /// Derives a delegation identifier from the creating outpoint and
    /// records the delegation data, provided the target pool exists.
    pub fn create_delegation_id(
        &mut self,
        target_pool: H256,
        spend_destination: Destination,
        input0_outpoint: &OutPoint,
    ) -> (r: Result<(H256, PoSAccountingUndo), Error>)
        requires
            old(self).wf(),
        ensures
            final(self).wf(),
            final(self).spec_parent() == old(self).spec_parent(),
            old(self).spec_parent().consistent() ==> match spec_create_delegation_id(
                old(self).parent_maps(),
                old(self).local_maps(),
                target_pool,
                spend_destination,
                *input0_outpoint,
            ) {
                Ok((m2, did, u)) => r == Ok::<(H256, PoSAccountingUndo), Error>((did, u))
                    && final(self).local_maps() == m2,
                Err(e) => r == Err::<(H256, PoSAccountingUndo), Error>(e),
            },
            r is Err ==> final(self).local_maps() == old(self).local_maps(),
    {
        let delegation_id = make_delegation_id(input0_outpoint);
        match self.combined_pool_data_read(target_pool) {
            Ok(Some(_)) => {},
            Ok(None) => {
                return Err(Error::DelegationCreationFailedPoolDoesNotExist);
            },
            Err(e) => {
                return Err(e);
            },
        }
        match self.combined_delegation_data_read(delegation_id) {
            Ok(None) => {},
            Ok(Some(_)) => {
                return Err(Error::InvariantErrorDelegationDataAlreadyExists);
            },
            Err(e) => {
                return Err(e);
            },
        }
        self.delegation_data.insert_entry(
            delegation_id,
            DataDelta::Add(DelegationData { source_pool: target_pool, spend_destination }),
        );
        Ok(
            (
                delegation_id,
                PoSAccountingUndo::CreateDelegationId(
                    CreateDelegationIdUndo { input0_outpoint: *input0_outpoint },
                ),
            ),
        )
    }

    /// Deletes exactly the data delta that the matching
    /// `create_delegation_id` recorded.
    pub fn undo_create_delegation_id(&mut self, undo_data: CreateDelegationIdUndo) -> (r: Result<
        (),
        Error,
    >)
        requires
            old(self).wf(),
        ensures
            final(self).wf(),
            final(self).spec_parent() == old(self).spec_parent(),
            match spec_undo_create_delegation_id(old(self).local_maps(), undo_data) {
                Ok(m2) => r is Ok && final(self).local_maps() == m2,
                Err(e) => r == Err::<(), Error>(e) && final(self).local_maps()
                    == old(self).local_maps(),
            },
    {
        let delegation_id = make_delegation_id(&undo_data.input0_outpoint);
        match self.delegation_data.get(&delegation_id) {
            Some(DataDelta::Add(_)) => {},
            _ => {
                return Err(Error::InvariantErrorDelegationIdUndoFailedDataNotFound);
            },
        }
        self.delegation_data.remove_entry(&delegation_id);
        Ok(())
    }

    /// Increases the delegation's balance, the target pool's balance and the
    /// delegation's share together; on any overflow nothing moves.
    pub fn delegate_staking(&mut self, delegation_target: H256, amount_to_delegate: Amount) -> (r:
        Result<PoSAccountingUndo, Error>)
        requires
            old(self).wf(),
        ensures
            final(self).wf(),
            final(self).spec_parent() == old(self).spec_parent(),
            old(self).spec_parent().consistent() ==> match spec_delegate_staking(
                old(self).parent_maps(),
                old(self).local_maps(),
                delegation_target,
                amount_to_delegate,
            ) {
                Ok((m2, u)) => r == Ok::<PoSAccountingUndo, Error>(u) && final(self).local_maps()
                    == m2,
                Err(e) => r == Err::<PoSAccountingUndo, Error>(e),
            },
            r is Err ==> final(self).local_maps() == old(self).local_maps(),
    {
        let delegation_data = match self.combined_delegation_data_read(delegation_target) {
            Ok(Some(d)) => d,
            Ok(None) => {
                return Err(Error::DelegateToNonexistingId);
            },
            Err(e) => {
                return Err(e);
            },
        };
        let pool_id = delegation_data.source_pool;
        let share_key = ShareKey { pool_id, delegation_id: delegation_target };
        let amount_signed = match amount_to_delegate.into_signed() {
            Some(s) => s,
            None => {
                return Err(Error::ArithmeticErrorToSignedFailed);
            },
        };
        let db: i128 = match self.delegation_balances.get(&delegation_target) {
            Some(s) => s.atoms,
            None => 0,
        };
        let pb: i128 = match self.pool_balances.get(&pool_id) {
            Some(s) => s.atoms,
            None => 0,
        };
        let sh: i128 = match self.pool_delegation_shares.get(&share_key) {
            Some(s) => s.atoms,
            None => 0,
        };
        if db.checked_add(amount_signed.atoms).is_none() || pb.checked_add(
            amount_signed.atoms,
        ).is_none() || sh.checked_add(amount_signed.atoms).is_none() {
            return Err(Error::AmountOverflow);
        }
        match self.delegation_balances.merge_delta(delegation_target, amount_signed) {
            Ok(()) => {},
            Err(e) => {
                proof {
                    assert(false);
                }
                return Err(e);
            },
        }
        match self.pool_balances.merge_delta(pool_id, amount_signed) {
            Ok(()) => {},
            Err(e) => {
                proof {
                    assert(false);
                }
                return Err(e);
            },
        }
        match self.pool_delegation_shares.merge_delta(share_key, amount_signed) {
            Ok(()) => {},
            Err(e) => {
                proof {
                    assert(false);
                }
                return Err(e);
            },
        }
        Ok(
            PoSAccountingUndo::DelegateStaking(
                DelegateStakingUndo { delegation_target, amount_to_delegate },
            ),
        )
    }

    /// Decreases the delegation's balance, the target pool's balance and the
    /// delegation's share together by the delegated amount.
    pub fn undo_delegate_staking(&mut self, undo_data: DelegateStakingUndo) -> (r: Result<
        (),
        Error,
    >)
        requires
            old(self).wf(),
        ensures
            final(self).wf(),
            final(self).spec_parent() == old(self).spec_parent(),
            old(self).spec_parent().consistent() ==> match spec_undo_delegate_staking(
                old(self).parent_maps(),
                old(self).local_maps(),
                undo_data,
            ) {
                Ok(m2) => r is Ok && final(self).local_maps() == m2,
                Err(e) => r == Err::<(), Error>(e),
            },
            r is Err ==> final(self).local_maps() == old(self).local_maps(),
    {
        let delegation_target = undo_data.delegation_target;
        let delegation_data = match self.combined_delegation_data_read(delegation_target) {
            Ok(Some(d)) => d,
            Ok(None) => {
                return Err(Error::DelegateToNonexistingId);
            },
            Err(e) => {
                return Err(e);
            },
        };
        let pool_id = delegation_data.source_pool;
        let share_key = ShareKey { pool_id, delegation_id: delegation_target };
        let amount_signed = match undo_data.amount_to_delegate.into_signed() {
            Some(s) => s,
            None => {
                return Err(Error::ArithmeticErrorToSignedFailed);
            },
        };
        let neg = match amount_signed.checked_neg() {
            Some(n) => n,
            None => {
                proof {
                    assert(false);
                }
                return Err(Error::AmountOverflow);
            },
        };
        let db: i128 = match self.delegation_balances.get(&delegation_target) {
            Some(s) => s.atoms,
            None => 0,
        };
        let pb: i128 = match self.pool_balances.get(&pool_id) {
            Some(s) => s.atoms,
            None => 0,
        };
        let sh: i128 = match self.pool_delegation_shares.get(&share_key) {
            Some(s) => s.atoms,
            None => 0,
        };
        if db.checked_sub(amount_signed.atoms).is_none() || pb.checked_sub(
            amount_signed.atoms,
        ).is_none() || sh.checked_sub(amount_signed.atoms).is_none() {
            return Err(Error::AmountOverflow);
        }
        match self.delegation_balances.merge_delta(delegation_target, neg) {
            Ok(()) => {},
            Err(e) => {
                proof {
                    assert(false);
                }
                return Err(e);
            },
        }
        match self.pool_balances.merge_delta(pool_id, neg) {
            Ok(()) => {},
            Err(e) => {
                proof {
                    assert(false);
                }
                return Err(e);
            },
        }
        match self.pool_delegation_shares.merge_delta(share_key, neg) {
            Ok(()) => {},
            Err(e) => {
                proof {
                    assert(false);
                }
                return Err(e);
            },
        }
        Ok(())
    }
}

impl<'a, P: PoSAccountingView> PoSAccountingView for PoSAccountingDelta<'a, P> {
    /// A delta layer is consistent when its parent is and no local delta
    /// conflicts with the parent: no double creation, no removal of absent
    /// data, no negative or unrepresentable combined balance.
    open spec fn consistent(&self) -> bool {
        &&& self.wf()
        &&& self.spec_parent().consistent()
        &&& forall|id: H256| (#[trigger] self.combined_pool_data(id)) is Ok
        &&& forall|id: H256| (#[trigger] self.combined_pool_balance(id)) is Ok
        &&& forall|id: H256| (#[trigger] self.combined_delegation_data(id)) is Ok
        &&& forall|id: H256| (#[trigger] self.combined_delegation_balance(id)) is Ok
        &&& forall|k: ShareKey| (#[trigger] self.combined_share(k)) is Ok
    }

    open spec fn pools(&self) -> Map<H256, PoolData> {
        Map::new(
            |id: H256| self.combined_pool_data(id) matches Ok(Some(_)),
            |id: H256| self.combined_pool_data(id)->Ok_0->Some_0,
        )
    }

    open spec fn pool_balances(&self) -> Map<H256, Amount> {
        Map::new(
            |id: H256| self.combined_pool_balance(id) matches Ok(Some(_)),
            |id: H256| self.combined_pool_balance(id)->Ok_0->Some_0,
        )
    }

    open spec fn delegations(&self) -> Map<H256, DelegationData> {
        Map::new(
            |id: H256| self.combined_delegation_data(id) matches Ok(Some(_)),
            |id: H256| self.combined_delegation_data(id)->Ok_0->Some_0,
        )
    }

    open spec fn delegation_balances(&self) -> Map<H256, Amount> {
        Map::new(
            |id: H256| self.combined_delegation_balance(id) matches Ok(Some(_)),
            |id: H256| self.combined_delegation_balance(id)->Ok_0->Some_0,
        )
    }

    open spec fn shares(&self) -> Map<ShareKey, Amount> {
        Map::new(
            |k: ShareKey| self.combined_share(k) matches Ok(Some(_)),
            |k: ShareKey| self.combined_share(k)->Ok_0->Some_0,
        )
    }

    fn pool_exists(&self, pool_id: H256) -> (r: Result<bool, Error>) {
        match self.combined_pool_data_read(pool_id) {
            Ok(v) => Ok(v.is_some()),
            Err(e) => Err(e),
        }
    }

    fn get_pool_data(&self, pool_id: H256) -> (r: Result<Option<PoolData>, Error>) {
        self.combined_pool_data_read(pool_id)
    }

    fn get_pool_balance(&self, pool_id: H256) -> (r: Result<Option<Amount>, Error>) {
        self.combined_pool_balance_read(pool_id)
    }

    fn get_delegation_data(&self, delegation_id: H256) -> (r: Result<
        Option<DelegationData>,
        Error,
    >) {
        self.combined_delegation_data_read(delegation_id)
    }

    fn get_delegation_id_balance(&self, delegation_id: H256) -> (r: Result<Option<Amount>, Error>) {
        self.combined_delegation_balance_read(delegation_id)
    }

    fn get_delegation_share(&self, pool_id: H256, delegation_id: H256) -> (r: Result<
        Option<Amount>,
        Error,
    >) {
        self.combined_share_read(pool_id, delegation_id)
    }

    fn get_delegation_shares(&self, pool_id: H256) -> (r: Result<
        Option<VecMap<H256, Amount>>,
        Error,
    >) {
        let ghost ps = pool_shares_of(self.spec_parent().shares(), pool_id);
        let ghost local = self.local_maps().pool_delegation_shares;
        let mut result: VecMap<H256, Amount> = match self.parent.get_delegation_shares(pool_id) {
            Ok(Some(m)) => m,
            Ok(None) => VecMap::new(),
            Err(e) => {
                return Err(e);
            },
        };
        let keys = self.pool_delegation_shares.keys();
        let ghost ks = keys@;
        let n = keys.len();
        let mut i: usize = 0;
        while i < n
            invariant
                n == ks.len(),
                i <= n,
                keys@ == ks,
                ps == pool_shares_of(self.spec_parent().shares(), pool_id),
                local == self.local_maps().pool_delegation_shares,
                forall|a: int| 0 <= a < ks.len() ==> #[trigger] local.dom().contains(ks[a]),
                forall|k: ShareKey| local.dom().contains(k) ==> exists|a: int|
                    0 <= a < ks.len() && ks[a] == k,
                self.consistent() ==> forall|a: int, b: int| 0 <= a < b < ks.len() ==> ks[a]
                    != ks[b],
                self.consistent() ==> result.wf(),
                self.consistent() ==> forall|d: H256| #[trigger] result@.dom().contains(d) <==> (
                ps.dom().contains(d) || exists|a: int|
                    0 <= a < i && ks[a] == (ShareKey { pool_id, delegation_id: d })),
                self.consistent() ==> forall|d: H256| result@.dom().contains(d) ==> #[trigger] result@[d]
                    == if (exists|a: int| 0 <= a < i && ks[a] == (ShareKey {
                    pool_id,
                    delegation_id: d,
                })) {
                    self.combined_share(ShareKey { pool_id, delegation_id: d })->Ok_0->Some_0
                } else {
                    ps[d]
                },
            decreases n - i,
        {
            let k = keys[i];
            if k.pool_id.key_eq(&pool_id) {
                let local_delta = self.pool_delegation_shares.get(&k);
                let pv = result.get_copied(&k.delegation_id);
                let ghost before = result@;
                match combine_amount_delta(&pv, &local_delta) {
                    Ok(Some(a)) => {
                        result.insert(k.delegation_id, a);
                        proof {
                            if self.consistent() {
                                assert(k == (ShareKey { pool_id, delegation_id: k.delegation_id }));
                                assert(!(exists|a2: int|
                                    0 <= a2 < i && ks[a2] == (ShareKey {
                                        pool_id,
                                        delegation_id: k.delegation_id,
                                    })));
                                assert(pv == map_get(ps, k.delegation_id));
                                assert(map_get(ps, k.delegation_id) == map_get(
                                    self.spec_parent().shares(),
                                    k,
                                ));
                                assert(local_delta == map_get(local, k));
                                assert(Ok::<Option<Amount>, Error>(Some(a))
                                    == self.combined_share(k));
                                assert forall|d: H256|
                                    #[trigger] result@.dom().contains(d) <==> (ps.dom().contains(d)
                                    || exists|a2: int|
                                    0 <= a2 < i + 1 && ks[a2] == (ShareKey {
                                        pool_id,
                                        delegation_id: d,
                                    })) by {
                                    if d == k.delegation_id {
                                        assert(ks[i as int] == (ShareKey {
                                            pool_id,
                                            delegation_id: d,
                                        }));
                                    } else {
                                        assert(result@.dom().contains(d) == before.dom().contains(
                                            d,
                                        ));
                                    }
                                }
                            }
                        }
                    },
                    Ok(None) => {
                        proof {
                            assert(local.dom().contains(k));
                            assert(local_delta is Some);
                            assert(false);
                        }
                    },
                    Err(e) => {
                        return Err(e);
                    },
                }
            }
            i = i + 1;
        }
        proof {
            if self.consistent() {
                assert forall|d: H256| #[trigger] result@.dom().contains(d) == pool_shares_of(
                    self.shares(),
                    pool_id,
                ).dom().contains(d) by {
                    let sk = ShareKey { pool_id, delegation_id: d };
                    if result@.dom().contains(d) {
                        if ps.dom().contains(d) {
                            assert(self.spec_parent().shares().dom().contains(sk));
                            assert(self.combined_share(sk) is Ok);
                            assert(self.combined_share(sk) matches Ok(Some(_)));
                        } else {
                            let a = choose|a: int| 0 <= a < n && ks[a] == sk;
                            assert(local.dom().contains(sk));
                            assert(self.combined_share(sk) matches Ok(Some(_)));
                        }
                        assert(self.shares().dom().contains(sk));
                    }
                    if pool_shares_of(self.shares(), pool_id).dom().contains(d) {
                        assert(self.shares().dom().contains(sk));
                        assert(self.combined_share(sk) matches Ok(Some(_)));
                        if self.spec_parent().shares().dom().contains(sk) {
                            assert(ps.dom().contains(d));
                        } else {
                            assert(map_get(self.spec_parent().shares(), sk) is None);
                            assert(local.dom().contains(sk));
                            let a = choose|a: int| 0 <= a < ks.len() && ks[a] == sk;
                            assert(exists|a2: int| 0 <= a2 < n && ks[a2] == sk);
                        }
                        assert(result@.dom().contains(d));
                    }
                }
                assert forall|d: H256| result@.dom().contains(d) implies #[trigger] result@[d]
                    == pool_shares_of(self.shares(), pool_id)[d] by {
                    let sk = ShareKey { pool_id, delegation_id: d };
                    if exists|a: int| 0 <= a < n && ks[a] == sk {
                        assert(result@[d] == self.combined_share(sk)->Ok_0->Some_0);
                    } else {
                        assert(!local.dom().contains(sk));
                        assert(map_get(local, sk) is None);
                        assert(ps.dom().contains(d));
                        assert(self.spec_parent().shares().dom().contains(sk));
                        assert(self.combined_share(sk) == Ok::<Option<Amount>, Error>(
                            Some(self.spec_parent().shares()[sk]),
                        ));
                        assert(result@[d] == ps[d]);
                        assert(ps[d] == self.spec_parent().shares()[sk]);
                    }
                    assert(self.shares()[sk] == self.combined_share(sk)->Ok_0->Some_0);
                }
                assert(result@ =~= pool_shares_of(self.shares(), pool_id));
            }
        }
        if result.is_empty() {
            Ok(None)
        } else {
            Ok(Some(result))
        }
    }
}

/// What a successful `create_pool` does to the local deltas, and which error
/// each rejected input produces.
pub open spec fn spec_create_pool(
    p: ParentMaps,
    m: DeltaMaps,
    outpoint: OutPoint,
    pledge: Amount,
    key: PublicKey,
) -> Result<(DeltaMaps, PoSAccountingUndo), Error> {
    let pid = spec_pool_id(outpoint);
    match spec_combine_amount(map_get(p.pool_balances, pid), map_get(m.pool_balances, pid)) {
        Err(e) => Err(e),
        Ok(Some(_)) => Err(Error::InvariantErrorPoolBalanceAlreadyExists),
        Ok(None) => match spec_combine_data(
            map_get(p.pools, pid),
            map_get(m.pool_data, pid),
            Error::PoolCreatedMultipleTimes,
            Error::RemovingNonexistingPoolData,
        ) {
            Err(e) => Err(e),
            Ok(Some(_)) => Err(Error::InvariantErrorPoolDataAlreadyExists),
            Ok(None) => if pledge.atoms > i128::MAX {
                Err(Error::PledgeValueToSignedError)
            } else {
                Ok(
                    (
                        DeltaMaps {
                            pool_balances: m.pool_balances.insert(
                                pid,
                                SignedAmount { atoms: pledge.atoms as i128 },
                            ),
                            pool_data: m.pool_data.insert(
                                pid,
                                DataDelta::Add(
                                    PoolData { decommission_key: key, pledge_amount: pledge },
                                ),
                            ),
                            ..m
                        },
                        PoSAccountingUndo::CreatePool(
                            CreatePoolUndo { input0_outpoint: outpoint, pledge_amount: pledge },
                        ),
                    ),
                )
            },
        },
    }
}

/// What a successful `undo_create_pool` does to the local deltas: it deletes
/// exactly the two deltas the creation recorded.
pub open spec fn spec_undo_create_pool(m: DeltaMaps, undo: CreatePoolUndo) -> Result<
    DeltaMaps,
    Error,
> {
    let pid = spec_pool_id(undo.input0_outpoint);
    if !m.pool_balances.dom().contains(pid) {
        Err(Error::InvariantErrorPoolCreationReversalFailedBalanceNotFound)
    } else if !(map_get(m.pool_data, pid) matches Some(DataDelta::Add(_))) {
        Err(Error::InvariantErrorPoolCreationReversalFailedDataNotFound)
    } else {
        Ok(
            DeltaMaps {
                pool_balances: m.pool_balances.remove(pid),
                pool_data: m.pool_data.remove(pid),
                ..m
            },
        )
    }
}

/// What a successful `decommission_pool` does to the local deltas.
pub open spec fn spec_decommission_pool(p: ParentMaps, m: DeltaMaps, pool_id: H256) -> Result<
    (DeltaMaps, PoSAccountingUndo),
    Error,
> {
    match spec_combine_amount(map_get(p.pool_balances, pool_id), map_get(m.pool_balances, pool_id)) {
        Err(e) => Err(e),
        Ok(None) => Err(Error::AttemptedDecommissionNonexistingPoolBalance),
        Ok(Some(last)) => match spec_combine_data(
            map_get(p.pools, pool_id),
            map_get(m.pool_data, pool_id),
            Error::PoolCreatedMultipleTimes,
            Error::RemovingNonexistingPoolData,
        ) {
            Err(e) => Err(e),
            Ok(None) => Err(Error::AttemptedDecommissionNonexistingPoolData),
            Ok(Some(data)) => if last.atoms > i128::MAX {
                Err(Error::ArithmeticErrorToSignedFailed)
            } else if !fits_signed(delta_int(m.pool_balances, pool_id) - last.atoms) {
                Err(Error::AmountOverflow)
            } else {
                Ok(
                    (
                        DeltaMaps {
                            pool_balances: spec_merge_amount_entry(
                                m.pool_balances,
                                pool_id,
                                delta_int(m.pool_balances, pool_id) - last.atoms,
                            ),
                            pool_data: match map_get(m.pool_data, pool_id) {
                                Some(DataDelta::Add(_)) => m.pool_data.remove(pool_id),
                                _ => m.pool_data.insert(pool_id, DataDelta::Remove),
                            },
                            ..m
                        },
                        PoSAccountingUndo::DecommissionPool(
                            DecommissionPoolUndo { pool_id, last_amount: last, pool_data: data },
                        ),
                    ),
                )
            },
        },
    }
}

/// What a successful `undo_decommission_pool` does to the local deltas: the
/// data delta is restored according to whether the parent knows the pool,
/// and the balance delta gets the removed amount back.
pub open spec fn spec_undo_decommission_pool(
    p: ParentMaps,
    m: DeltaMaps,
    undo: DecommissionPoolUndo,
) -> Result<DeltaMaps, Error> {
    let pid = undo.pool_id;
    if undo.last_amount.atoms > i128::MAX {
        Err(Error::ArithmeticErrorToSignedFailed)
    } else {
        let entry = map_get(m.pool_data, pid);
        if p.pools.dom().contains(pid) && !(entry matches Some(DataDelta::Remove)) {
            Err(Error::InvariantErrorDecommissionUndoFailedDataInconsistent)
        } else if !p.pools.dom().contains(pid) && !(entry is None) {
            Err(Error::InvariantErrorDecommissionUndoFailedDataInconsistent)
        } else {
            let new_data = if p.pools.dom().contains(pid) {
                m.pool_data.remove(pid)
            } else {
                m.pool_data.insert(pid, DataDelta::Add(undo.pool_data))
            };
            if !p.pool_balances.dom().contains(pid) && !m.pool_balances.dom().contains(pid) {
                Ok(
                    DeltaMaps {
                        pool_data: new_data,
                        pool_balances: m.pool_balances.insert(
                            pid,
                            SignedAmount { atoms: undo.last_amount.atoms as i128 },
                        ),
                        ..m
                    },
                )
            } else if !fits_signed(delta_int(m.pool_balances, pid) + undo.last_amount.atoms) {
                Err(Error::AmountOverflow)
            } else {
                Ok(
                    DeltaMaps {
                        pool_data: new_data,
                        pool_balances: spec_merge_amount_entry(
                            m.pool_balances,
                            pid,
                            delta_int(m.pool_balances, pid) + undo.last_amount.atoms,
                        ),
                        ..m
                    },
                )
            }
        }
    }
}

/// What a successful `create_delegation_id` does to the local deltas.
pub open spec fn spec_create_delegation_id(
    p: ParentMaps,
    m: DeltaMaps,
    target_pool: H256,
    spend_destination: Destination,
    outpoint: OutPoint,
) -> Result<(DeltaMaps, H256, PoSAccountingUndo), Error> {
    let did = spec_delegation_id(outpoint);
    match spec_combine_data(
        map_get(p.pools, target_pool),
        map_get(m.pool_data, target_pool),
        Error::PoolCreatedMultipleTimes,
        Error::RemovingNonexistingPoolData,
    ) {
        Err(e) => Err(e),
        Ok(None) => Err(Error::DelegationCreationFailedPoolDoesNotExist),
        Ok(Some(_)) => match spec_combine_data(
            map_get(p.delegations, did),
            map_get(m.delegation_data, did),
            Error::DelegationDataCreatedMultipleTimes,
            Error::RemovingNonexistingDelegationData,
        ) {
            Err(e) => Err(e),
            Ok(Some(_)) => Err(Error::InvariantErrorDelegationDataAlreadyExists),
            Ok(None) => Ok(
                (
                    DeltaMaps {
                        delegation_data: m.delegation_data.insert(
                            did,
                            DataDelta::Add(
                                DelegationData { source_pool: target_pool, spend_destination },
                            ),
                        ),
                        ..m
                    },
                    did,
                    PoSAccountingUndo::CreateDelegationId(
                        CreateDelegationIdUndo { input0_outpoint: outpoint },
                    ),
                ),
            ),
        },
    }
}

/// What a successful `undo_create_delegation_id` does to the local deltas.
pub open spec fn spec_undo_create_delegation_id(m: DeltaMaps, undo: CreateDelegationIdUndo) -> Result<
    DeltaMaps,
    Error,
> {
    let did = spec_delegation_id(undo.input0_outpoint);
    if !(map_get(m.delegation_data, did) matches Some(DataDelta::Add(_))) {
        Err(Error::InvariantErrorDelegationIdUndoFailedDataNotFound)
    } else {
        Ok(DeltaMaps { delegation_data: m.delegation_data.remove(did), ..m })
    }
}

/// What a successful `delegate_staking` does to the local deltas: the
/// delegation's balance, the pool's balance and the delegation's share all
/// move together, or none does.
pub open spec fn spec_delegate_staking(
    p: ParentMaps,
    m: DeltaMaps,
    delegation_target: H256,
    amount: Amount,
) -> Result<(DeltaMaps, PoSAccountingUndo), Error> {
    match spec_combine_data(
        map_get(p.delegations, delegation_target),
        map_get(m.delegation_data, delegation_target),
        Error::DelegationDataCreatedMultipleTimes,
        Error::RemovingNonexistingDelegationData,
    ) {
        Err(e) => Err(e),
        Ok(None) => Err(Error::DelegateToNonexistingId),
        Ok(Some(dd)) => {
            let pool = dd.source_pool;
            let sk = ShareKey { pool_id: pool, delegation_id: delegation_target };
            if amount.atoms > i128::MAX {
                Err(Error::ArithmeticErrorToSignedFailed)
            } else if !fits_signed(delta_int(m.delegation_balances, delegation_target) + amount.atoms)
                || !fits_signed(delta_int(m.pool_balances, pool) + amount.atoms) || !fits_signed(
                delta_int(m.pool_delegation_shares, sk) + amount.atoms,
            ) {
                Err(Error::AmountOverflow)
            } else {
                Ok(
                    (
                        DeltaMaps {
                            delegation_balances: spec_merge_amount_entry(
                                m.delegation_balances,
                                delegation_target,
                                delta_int(m.delegation_balances, delegation_target) + amount.atoms,
                            ),
                            pool_balances: spec_merge_amount_entry(
                                m.pool_balances,
                                pool,
                                delta_int(m.pool_balances, pool) + amount.atoms,
                            ),
                            pool_delegation_shares: spec_merge_amount_entry(
                                m.pool_delegation_shares,
                                sk,
                                delta_int(m.pool_delegation_shares, sk) + amount.atoms,
                            ),
                            ..m
                        },
                        PoSAccountingUndo::DelegateStaking(
                            DelegateStakingUndo {
                                delegation_target,
                                amount_to_delegate: amount,
                            },
                        ),
                    ),
                )
            }
        },
    }
}

/// What a successful `undo_delegate_staking` does to the local deltas: the
/// exact reverse of the matching `delegate_staking`.
pub open spec fn spec_undo_delegate_staking(
    p: ParentMaps,
    m: DeltaMaps,
    undo: DelegateStakingUndo,
) -> Result<DeltaMaps, Error> {
    let did = undo.delegation_target;
    let amount = undo.amount_to_delegate;
    match spec_combine_data(
        map_get(p.delegations, did),
        map_get(m.delegation_data, did),
        Error::DelegationDataCreatedMultipleTimes,
        Error::RemovingNonexistingDelegationData,
    ) {
        Err(e) => Err(e),
        Ok(None) => Err(Error::DelegateToNonexistingId),
        Ok(Some(dd)) => {
            let pool = dd.source_pool;
            let sk = ShareKey { pool_id: pool, delegation_id: did };
            if amount.atoms > i128::MAX {
                Err(Error::ArithmeticErrorToSignedFailed)
            } else if !fits_signed(delta_int(m.delegation_balances, did) - amount.atoms)
                || !fits_signed(delta_int(m.pool_balances, pool) - amount.atoms) || !fits_signed(
                delta_int(m.pool_delegation_shares, sk) - amount.atoms,
            ) {
                Err(Error::AmountOverflow)
            } else {
                Ok(
                    DeltaMaps {
                        delegation_balances: spec_merge_amount_entry(
                            m.delegation_balances,
                            did,
                            delta_int(m.delegation_balances, did) - amount.atoms,
                        ),
                        pool_balances: spec_merge_amount_entry(
                            m.pool_balances,
                            pool,
                            delta_int(m.pool_balances, pool) - amount.atoms,
                        ),
                        pool_delegation_shares: spec_merge_amount_entry(
                            m.pool_delegation_shares,
                            sk,
                            delta_int(m.pool_delegation_shares, sk) - amount.atoms,
                        ),
                        ..m
                    },
                )
            }
        },
    }
}

/// The delta content of one block or one epoch, detached from any parent:
/// what the overlay records is folded into per-epoch deltas through this
/// bundle.
pub struct PoSAccountingDeltaData {
    pub pool_data: DeltaDataCollection<H256, PoolData>,
    pub pool_balances: DeltaAmountCollection<H256>,
    pub pool_delegation_shares: DeltaAmountCollection<ShareKey>,
    pub delegation_balances: DeltaAmountCollection<H256>,
    pub delegation_data: DeltaDataCollection<H256, DelegationData>,
}

impl PoSAccountingDeltaData {
    pub open spec fn wf(&self) -> bool {
        &&& self.pool_data.wf()
        &&& self.pool_balances.wf()
        &&& self.pool_delegation_shares.wf()
        &&& self.delegation_balances.wf()
        &&& self.delegation_data.wf()
    }

    pub open spec fn maps(&self) -> DeltaMaps {
        DeltaMaps {
            pool_data: self.pool_data.as_map(),
            pool_balances: self.pool_balances.as_map(),
            pool_delegation_shares: self.pool_delegation_shares.as_map(),
            delegation_balances: self.delegation_balances.as_map(),
            delegation_data: self.delegation_data.as_map(),
        }
    }

    pub fn new() -> (r: Self)
        ensures
            r.wf(),
            r.maps().pool_data == Map::<H256, DataDelta<PoolData>>::empty(),
            r.maps().pool_balances == Map::<H256, SignedAmount>::empty(),
            r.maps().pool_delegation_shares == Map::<ShareKey, SignedAmount>::empty(),
            r.maps().delegation_balances == Map::<H256, SignedAmount>::empty(),
            r.maps().delegation_data == Map::<H256, DataDelta<DelegationData>>::empty(),
    {
        PoSAccountingDeltaData {
            pool_data: DeltaDataCollection::new(),
            pool_balances: DeltaAmountCollection::new(),
            pool_delegation_shares: DeltaAmountCollection::new(),
            delegation_balances: DeltaAmountCollection::new(),
            delegation_data: DeltaDataCollection::new(),
        }
    }

    /// Whether the bundle records no change at all.
    pub fn is_empty(&self) -> (r: bool)
        ensures
            r == (self.maps().pool_data == Map::<H256, DataDelta<PoolData>>::empty()
                && self.maps().pool_balances == Map::<H256, SignedAmount>::empty()
                && self.maps().pool_delegation_shares == Map::<ShareKey, SignedAmount>::empty()
                && self.maps().delegation_balances == Map::<H256, SignedAmount>::empty()
                && self.maps().delegation_data == Map::<H256, DataDelta<DelegationData>>::empty()),
    {
        self.pool_data.is_empty() && self.pool_balances.is_empty()
            && self.pool_delegation_shares.is_empty() && self.delegation_balances.is_empty()
            && self.delegation_data.is_empty()
    }

    /// An entry-by-entry copy of the bundle.
    pub fn duplicate(&self) -> (r: Self)
        requires
            self.wf(),
        ensures
            r.wf(),
            r.maps() == self.maps(),
    {
        PoSAccountingDeltaData {
            pool_data: self.pool_data.duplicate(),
            pool_balances: self.pool_balances.duplicate(),
            pool_delegation_shares: self.pool_delegation_shares.duplicate(),
            delegation_balances: self.delegation_balances.duplicate(),
            delegation_data: self.delegation_data.duplicate(),
        }
    }

    /// Overlay composition: folds `other` over this bundle, key-wise summing
    /// the amount deltas and layering the data deltas. Either every key
    /// merges and all five collections move, or none does.
    pub fn merge_with(&mut self, other: &Self) -> (r: Result<(), Error>)
        requires
            old(self).wf(),
            other.wf(),
        ensures
            final(self).wf(),
            r is Ok <==> {
                &&& forall|k: H256| merged_data_entry(
                    old(self).pool_data.entry_of(k),
                    #[trigger] other.pool_data.entry_of(k),
                ) is Ok
                &&& forall|k: H256| fits_signed(
                    old(self).pool_balances.delta_of(k) + #[trigger] other.pool_balances.delta_of(
                        k,
                    ),
                )
                &&& forall|k: ShareKey| fits_signed(
                    old(self).pool_delegation_shares.delta_of(k)
                        + #[trigger] other.pool_delegation_shares.delta_of(k),
                )
                &&& forall|k: H256| fits_signed(
                    old(self).delegation_balances.delta_of(k)
                        + #[trigger] other.delegation_balances.delta_of(k),
                )
                &&& forall|k: H256| merged_data_entry(
                    old(self).delegation_data.entry_of(k),
                    #[trigger] other.delegation_data.entry_of(k),
                ) is Ok
            },
            r is Ok ==> {
                &&& forall|k: H256| final(self).pool_balances.delta_of(k) == old(
                    self,
                ).pool_balances.delta_of(k) + #[trigger] other.pool_balances.delta_of(k)
                &&& forall|k: ShareKey| final(self).pool_delegation_shares.delta_of(k) == old(
                    self,
                ).pool_delegation_shares.delta_of(k)
                    + #[trigger] other.pool_delegation_shares.delta_of(k)
                &&& forall|k: H256| final(self).delegation_balances.delta_of(k) == old(
                    self,
                ).delegation_balances.delta_of(k) + #[trigger] other.delegation_balances.delta_of(k)
                &&& forall|k: H256| #[trigger] final(self).pool_data.entry_of(k)
                    == merged_data_entry(
                    old(self).pool_data.entry_of(k),
                    other.pool_data.entry_of(k),
                )->Ok_0
                &&& forall|k: H256| #[trigger] final(self).delegation_data.entry_of(k)
                    == merged_data_entry(
                    old(self).delegation_data.entry_of(k),
                    other.delegation_data.entry_of(k),
                )->Ok_0
                &&& final(self).maps() == (DeltaMaps {
                    pool_data: merged_data_map(
                        old(self).maps().pool_data,
                        other.maps().pool_data,
                    ),
                    pool_balances: merged_amount_map(
                        old(self).maps().pool_balances,
                        other.maps().pool_balances,
                    ),
                    pool_delegation_shares: merged_amount_map(
                        old(self).maps().pool_delegation_shares,
                        other.maps().pool_delegation_shares,
                    ),
                    delegation_balances: merged_amount_map(
                        old(self).maps().delegation_balances,
                        other.maps().delegation_balances,
                    ),
                    delegation_data: merged_data_map(
                        old(self).maps().delegation_data,
                        other.maps().delegation_data,
                    ),
                })
            },
            r is Err ==> final(self).maps() == old(self).maps(),
    {
        let mut pool_data = self.pool_data.duplicate();
        let mut pool_balances = self.pool_balances.duplicate();
        let mut pool_delegation_shares = self.pool_delegation_shares.duplicate();
        let mut delegation_balances = self.delegation_balances.duplicate();
        let mut delegation_data = self.delegation_data.duplicate();
        match pool_data.merge_with(&other.pool_data) {
            Ok(()) => {},
            Err(e) => {
                return Err(e);
            },
        }
        match pool_balances.merge_with(&other.pool_balances) {
            Ok(()) => {},
            Err(e) => {
                return Err(e);
            },
        }
        match pool_delegation_shares.merge_with(&other.pool_delegation_shares) {
            Ok(()) => {},
            Err(e) => {
                return Err(e);
            },
        }
        match delegation_balances.merge_with(&other.delegation_balances) {
            Ok(()) => {},
            Err(e) => {
                return Err(e);
            },
        }
        match delegation_data.merge_with(&other.delegation_data) {
            Ok(()) => {},
            Err(e) => {
                return Err(e);
            },
        }
        *self = PoSAccountingDeltaData {
            pool_data,
            pool_balances,
            pool_delegation_shares,
            delegation_balances,
            delegation_data,
        };
        Ok(())
    }
}

impl<'a, P: PoSAccountingView> PoSAccountingDelta<'a, P> {
    /// Detaches the recorded deltas from the parent; the overlay is spent
    /// and its content becomes a block delta to persist or fold.
    pub fn consume(self) -> (r: PoSAccountingDeltaData)
        ensures
            r.maps() == self.local_maps(),
            self.wf() ==> r.wf(),
    {
        PoSAccountingDeltaData {
            pool_data: self.pool_data,
            pool_balances: self.pool_balances,
            pool_delegation_shares: self.pool_delegation_shares,
            delegation_balances: self.delegation_balances,
            delegation_data: self.delegation_data,
        }
    }
}

/// Law: `create_pool` followed by `undo_create_pool` with the returned
/// token restores the overlay's recorded deltas exactly as they were, for
/// every pledge amount, whenever the creating outpoint derives a pool
/// identifier the parent does not know (which the UTXO model guarantees).
pub proof fn lemma_create_pool_undo_roundtrip(
    p: ParentMaps,
    m: DeltaMaps,
    outpoint: OutPoint,
    pledge: Amount,
    key: PublicKey,
)
    requires
        map_get(p.pools, spec_pool_id(outpoint)) is None,
        spec_create_pool(p, m, outpoint, pledge, key) is Ok,
    ensures
        ({
            let (m1, u) = spec_create_pool(p, m, outpoint, pledge, key)->Ok_0;
            &&& u == PoSAccountingUndo::CreatePool(
                CreatePoolUndo { input0_outpoint: outpoint, pledge_amount: pledge },
            )
            &&& spec_undo_create_pool(
                m1,
                CreatePoolUndo { input0_outpoint: outpoint, pledge_amount: pledge },
            ) == Ok::<DeltaMaps, Error>(m)
        }),
{
    let pid = spec_pool_id(outpoint);
    let (m1, u) = spec_create_pool(p, m, outpoint, pledge, key)->Ok_0;
    assert(map_get(m.pool_balances, pid) is None);
    assert(map_get(m.pool_data, pid) is None);
    assert(m1.pool_balances == m.pool_balances.insert(
        pid,
        SignedAmount { atoms: pledge.atoms as i128 },
    ));
    assert(m1.pool_balances.remove(pid) =~= m.pool_balances);
    assert(m1.pool_data.remove(pid) =~= m.pool_data);
    let m0 = spec_undo_create_pool(
        m1,
        CreatePoolUndo { input0_outpoint: outpoint, pledge_amount: pledge },
    )->Ok_0;
    assert(m0 == m);
}

/// Law: `decommission_pool` followed by `undo_decommission_pool` with the
/// returned token restores the overlay's recorded deltas exactly as they
/// were. A recorded balance delta over a parent that also holds a balance
/// is never zero — the operations keep it so — which the premise states.
pub proof fn lemma_decommission_undo_roundtrip(p: ParentMaps, m: DeltaMaps, pool_id: H256)
    requires
        spec_decommission_pool(p, m, pool_id) is Ok,
        p.pool_balances.dom().contains(pool_id) && m.pool_balances.dom().contains(pool_id)
            ==> m.pool_balances[pool_id].atoms != 0,
    ensures
        ({
            let (m1, u) = spec_decommission_pool(p, m, pool_id)->Ok_0;
            &&& u matches PoSAccountingUndo::DecommissionPool(du)
            &&& spec_undo_decommission_pool(
                p,
                m1,
                spec_decommission_undo_token(p, m, pool_id),
            ) == Ok::<DeltaMaps, Error>(m)
        }),
{
    let (m1, u) = spec_decommission_pool(p, m, pool_id)->Ok_0;
    let du = spec_decommission_undo_token(p, m, pool_id);
    let last = du.last_amount;
    let back = spec_undo_decommission_pool(p, m1, du);
    assert(spec_combine_amount(
        map_get(p.pool_balances, pool_id),
        map_get(m.pool_balances, pool_id),
    ) == Ok::<Option<Amount>, Error>(Some(last)));
    if p.pools.dom().contains(pool_id) {
        assert(map_get(m.pool_data, pool_id) is None);
        assert(m1.pool_data == m.pool_data.insert(pool_id, DataDelta::Remove));
        assert(m1.pool_data.remove(pool_id) =~= m.pool_data);
    } else {
        assert(map_get(m.pool_data, pool_id) matches Some(DataDelta::Add(_)));
        assert(m1.pool_data == m.pool_data.remove(pool_id));
        assert(du.pool_data == m.pool_data[pool_id]->Add_0);
        assert(m1.pool_data.insert(pool_id, DataDelta::Add(du.pool_data)) =~= m.pool_data);
    }
    if p.pool_balances.dom().contains(pool_id) {
        let pb = p.pool_balances[pool_id].atoms as int;
        let d = delta_int(m.pool_balances, pool_id);
        assert(last.atoms == pb + d);
        assert(m1.pool_balances == spec_merge_amount_entry(m.pool_balances, pool_id, d
            - last.atoms));
        if d == pb + d {
            assert(pb == 0);
        }
        if d - last.atoms == 0 {
            assert(d == last.atoms);
            assert(pb == 0);
            assert(!m.pool_balances.dom().contains(pool_id) || m.pool_balances[pool_id].atoms
                != 0);
            assert(spec_merge_amount_entry(
                m1.pool_balances,
                pool_id,
                delta_int(m1.pool_balances, pool_id) + last.atoms,
            ) =~= m.pool_balances);
        } else {
            assert(m1.pool_balances.dom().contains(pool_id));
            assert(delta_int(m1.pool_balances, pool_id) == d - last.atoms);
            assert(spec_merge_amount_entry(
                m1.pool_balances,
                pool_id,
                delta_int(m1.pool_balances, pool_id) + last.atoms,
            ) =~= m.pool_balances);
        }
    } else {
        assert(map_get(m.pool_balances, pool_id) is Some);
        let d = delta_int(m.pool_balances, pool_id);
        assert(last.atoms == d);
        assert(m1.pool_balances == spec_merge_amount_entry(m.pool_balances, pool_id, 0));
        assert(!m1.pool_balances.dom().contains(pool_id));
        assert(m1.pool_balances.insert(
            pool_id,
            SignedAmount { atoms: last.atoms as i128 },
        ) =~= m.pool_balances);
    }
    assert(back->Ok_0 =~= m);
    assert(back->Ok_0.pool_data =~= m.pool_data);
    assert(back->Ok_0.pool_balances =~= m.pool_balances);
}

/// The undo token a successful `spec_decommission_pool` yields.
pub open spec fn spec_decommission_undo_token(
    p: ParentMaps,
    m: DeltaMaps,
    pool_id: H256,
) -> DecommissionPoolUndo {
    DecommissionPoolUndo {
        pool_id,
        last_amount: spec_combine_amount(
            map_get(p.pool_balances, pool_id),
            map_get(m.pool_balances, pool_id),
        )->Ok_0->Some_0,
        pool_data: spec_combine_data(
            map_get(p.pools, pool_id),
            map_get(m.pool_data, pool_id),
            Error::PoolCreatedMultipleTimes,
            Error::RemovingNonexistingPoolData,
        )->Ok_0->Some_0,
    }
}

/// Law: `delegate_staking` followed by `undo_delegate_staking` with the
/// returned token restores the overlay's recorded deltas exactly as they
/// were; the premise states that recorded deltas are never zero, which the
/// operations keep.
pub proof fn lemma_delegate_staking_undo_roundtrip(
    p: ParentMaps,
    m: DeltaMaps,
    delegation_target: H256,
    amount: Amount,
)
    requires
        spec_delegate_staking(p, m, delegation_target, amount) is Ok,
        m.delegation_balances.dom().contains(delegation_target)
            ==> m.delegation_balances[delegation_target].atoms != 0,
        ({
            let dd = spec_combine_data(
                map_get(p.delegations, delegation_target),
                map_get(m.delegation_data, delegation_target),
                Error::DelegationDataCreatedMultipleTimes,
                Error::RemovingNonexistingDelegationData,
            )->Ok_0->Some_0;
            &&& (m.pool_balances.dom().contains(dd.source_pool) ==> m.pool_balances[
                dd.source_pool].atoms != 0)
            &&& (m.pool_delegation_shares.dom().contains(
                (ShareKey { pool_id: dd.source_pool, delegation_id: delegation_target }),
            ) ==> m.pool_delegation_shares[(ShareKey {
                pool_id: dd.source_pool,
                delegation_id: delegation_target,
            })].atoms != 0)
        }),
    ensures
        ({
            let (m1, u) = spec_delegate_staking(p, m, delegation_target, amount)->Ok_0;
            &&& u == PoSAccountingUndo::DelegateStaking(
                DelegateStakingUndo { delegation_target, amount_to_delegate: amount },
            )
            &&& spec_undo_delegate_staking(
                p,
                m1,
                DelegateStakingUndo { delegation_target, amount_to_delegate: amount },
            ) == Ok::<DeltaMaps, Error>(m)
        }),
{
    let (m1, u) = spec_delegate_staking(p, m, delegation_target, amount)->Ok_0;
    let du = DelegateStakingUndo { delegation_target, amount_to_delegate: amount };
    let dd = spec_combine_data(
        map_get(p.delegations, delegation_target),
        map_get(m.delegation_data, delegation_target),
        Error::DelegationDataCreatedMultipleTimes,
        Error::RemovingNonexistingDelegationData,
    )->Ok_0->Some_0;
    let pool = dd.source_pool;
    let sk = ShareKey { pool_id: pool, delegation_id: delegation_target };
    assert(m1.delegation_data == m.delegation_data);
    lemma_merge_entry_roundtrip(m.delegation_balances, delegation_target, amount.atoms as int);
    lemma_merge_entry_roundtrip(m.pool_balances, pool, amount.atoms as int);
    lemma_merge_entry_roundtrip(m.pool_delegation_shares, sk, amount.atoms as int);
    let back = spec_undo_delegate_staking(p, m1, du);
    assert(back is Ok);
    assert(back->Ok_0 =~= m);
}

/// Adding `a` to a recorded delta and then taking it away restores the
/// entry exactly, provided a recorded zero never occurs for the key.
proof fn lemma_merge_entry_roundtrip<K>(m: Map<K, SignedAmount>, k: K, a: int)
    requires
        fits_signed(delta_int(m, k) + a),
        m.dom().contains(k) ==> m[k].atoms != 0,
    ensures
        ({
            let m1 = spec_merge_amount_entry(m, k, delta_int(m, k) + a);
            &&& delta_int(m1, k) == delta_int(m, k) + a
            &&& spec_merge_amount_entry(m1, k, delta_int(m1, k) - a) =~= m
        }),
{
    let d = delta_int(m, k);
    let m1 = spec_merge_amount_entry(m, k, d + a);
    if d + a == 0 {
        assert(delta_int(m1, k) == 0);
        assert(spec_merge_amount_entry(m1, k, -a) =~= m);
    } else {
        assert(delta_int(m1, k) == d + a);
        if d == 0 {
            assert(!m.dom().contains(k));
            assert(spec_merge_amount_entry(m1, k, d) =~= m);
        } else {
            assert(spec_merge_amount_entry(m1, k, d) =~= m);
        }
    }
}

} // verus!
