use pos_ledger::amount::{Amount, SignedAmount};
use pos_ledger::collections::VecMap;
use pos_ledger::delta_collections::{DataDelta, DeltaAmountCollection, DeltaDataCollection};
use pos_ledger::error::Error;
use pos_ledger::pool_delta::{PoSAccountingDelta, PoSAccountingUndo};
use pos_ledger::pool_types::{
    make_delegation_id, make_pool_id, DelegationData, Destination, PoolData, PublicKey,
};
use pos_ledger::primitives::{H256, OutPoint};
use pos_ledger::view::{InMemoryPoSAccounting, PoSAccountingView};

fn outpoint(seed: u64) -> OutPoint {
    OutPoint::new(H256::from_words(seed, seed + 1, seed + 2, seed + 3), 0)
}

fn key() -> PublicKey {
    PublicKey::new(H256::from_words(11, 12, 13, 14))
}

#[test]
fn amount_checked_arithmetic() {
    assert_eq!(
        Amount::from_atoms(2).checked_add(Amount::from_atoms(3)),
        Some(Amount::from_atoms(5))
    );
    assert_eq!(Amount::from_atoms(u128::MAX).checked_add(Amount::from_atoms(1)), None);
    assert_eq!(
        Amount::from_atoms(5).checked_sub(Amount::from_atoms(2)),
        Some(Amount::from_atoms(3))
    );
    assert_eq!(Amount::from_atoms(1).checked_sub(Amount::from_atoms(2)), None);
    assert_eq!(Amount::from_atoms(u128::MAX).into_signed(), None);
    assert_eq!(
        Amount::from_atoms(7).into_signed(),
        Some(SignedAmount::from_atoms(7))
    );
    assert_eq!(SignedAmount::from_atoms(-1).into_unsigned(), None);
}

// Create/undo round trip: the overlay is restored exactly, for an ordinary
// pledge and for the extreme pledges of the signed range.
#[test]
fn create_pool_undo_roundtrip() {
    for pledge in [0u128, 100, i128::MAX as u128] {
        let parent = InMemoryPoSAccounting::new();
        let mut delta = PoSAccountingDelta::new(&parent);
        let op = outpoint(1);
        let pool_id = make_pool_id(&op);
        let undo = delta.create_pool(&op, Amount::from_atoms(pledge), key()).unwrap();
        assert_eq!(
            delta.get_pool_balance(pool_id).unwrap(),
            Some(Amount::from_atoms(pledge))
        );
        assert!(delta.get_pool_data(pool_id).unwrap().is_some());
        match undo {
            PoSAccountingUndo::CreatePool(cu) => delta.undo_create_pool(cu).unwrap(),
            _ => panic!("unexpected undo token"),
        }
        assert_eq!(delta.get_pool_balance(pool_id).unwrap(), None);
        assert_eq!(delta.get_pool_data(pool_id).unwrap(), None);
        assert!(!delta.pool_exists(pool_id).unwrap());
    }
}

#[test]
fn create_pool_rejects_existing_pool() {
    let op = outpoint(2);
    let pool_id = make_pool_id(&op);
    let mut pool_data = VecMap::new();
    pool_data.insert(pool_id, PoolData::new(key(), Amount::from_atoms(5)));
    let mut balances = VecMap::new();
    balances.insert(pool_id, Amount::from_atoms(5));
    let parent = InMemoryPoSAccounting::from_values(
        pool_data,
        balances,
        VecMap::new(),
        VecMap::new(),
        VecMap::new(),
    );
    let mut delta = PoSAccountingDelta::new(&parent);
    let err = delta.create_pool(&op, Amount::from_atoms(10), key()).unwrap_err();
    assert_eq!(err, Error::InvariantErrorPoolBalanceAlreadyExists);
}

#[test]
fn create_pool_rejects_unrepresentable_pledge() {
    let parent = InMemoryPoSAccounting::new();
    let mut delta = PoSAccountingDelta::new(&parent);
    let err = delta
        .create_pool(&outpoint(3), Amount::from_atoms(u128::MAX), key())
        .unwrap_err();
    assert_eq!(err, Error::PledgeValueToSignedError);
}

// Overlay precedence: a +50 delta over a parent balance of 100 reads as
// 150; a decommission delta over existing parent data reads as absent.
#[test]
fn overlay_precedence() {
    let op = outpoint(4);
    let pool_id = make_pool_id(&op);
    let mut pool_data = VecMap::new();
    pool_data.insert(pool_id, PoolData::new(key(), Amount::from_atoms(100)));
    let mut balances = VecMap::new();
    balances.insert(pool_id, Amount::from_atoms(100));
    let mut delegation_data = VecMap::new();
    let delegation_id = H256::from_words(21, 22, 23, 24);
    delegation_data.insert(
        delegation_id,
        DelegationData::new(pool_id, Destination::AnyoneCanSpend),
    );
    let parent = InMemoryPoSAccounting::from_values(
        pool_data,
        balances,
        VecMap::new(),
        VecMap::new(),
        delegation_data,
    );

    let mut delta = PoSAccountingDelta::new(&parent);
    // +50 atoms arrive through a delegation to the pool.
    delta
        .delegate_staking(delegation_id, Amount::from_atoms(50))
        .unwrap();
    assert_eq!(
        delta.get_pool_balance(pool_id).unwrap(),
        Some(Amount::from_atoms(150))
    );

    // A decommission recorded in the overlay hides the parent's data; the
    // combined balance drops to zero (the parent's absolute value stays,
    // offset by the local delta).
    let undo = delta.decommission_pool(pool_id).unwrap();
    assert_eq!(delta.get_pool_data(pool_id).unwrap(), None);
    assert_eq!(
        delta.get_pool_balance(pool_id).unwrap(),
        Some(Amount::from_atoms(0))
    );

    // Undoing the decommission restores the combined view.
    match undo {
        PoSAccountingUndo::DecommissionPool(du) => {
            assert_eq!(du.last_amount, Amount::from_atoms(150));
            delta.undo_decommission_pool(du).unwrap();
        },
        _ => panic!("unexpected undo token"),
    }
    assert_eq!(
        delta.get_pool_balance(pool_id).unwrap(),
        Some(Amount::from_atoms(150))
    );
    assert!(delta.get_pool_data(pool_id).unwrap().is_some());
}

#[test]
fn delegation_lifecycle() {
    let pool_op = outpoint(5);
    let pool_id = make_pool_id(&pool_op);
    let parent = InMemoryPoSAccounting::new();
    let mut delta = PoSAccountingDelta::new(&parent);
    delta.create_pool(&pool_op, Amount::from_atoms(1000), key()).unwrap();

    let delegation_op = outpoint(9);
    let (delegation_id, _undo) = delta
        .create_delegation_id(pool_id, Destination::AnyoneCanSpend, &delegation_op)
        .unwrap();
    assert_eq!(delegation_id, make_delegation_id(&delegation_op));

    let undo = delta
        .delegate_staking(delegation_id, Amount::from_atoms(70))
        .unwrap();
    assert_eq!(
        delta.get_delegation_id_balance(delegation_id).unwrap(),
        Some(Amount::from_atoms(70))
    );
    assert_eq!(
        delta.get_pool_balance(pool_id).unwrap(),
        Some(Amount::from_atoms(1070))
    );
    assert_eq!(
        delta.get_delegation_share(pool_id, delegation_id).unwrap(),
        Some(Amount::from_atoms(70))
    );
    let shares = delta.get_delegation_shares(pool_id).unwrap().unwrap();
    assert_eq!(shares.get_copied(&delegation_id), Some(Amount::from_atoms(70)));

    match undo {
        PoSAccountingUndo::DelegateStaking(du) => delta.undo_delegate_staking(du).unwrap(),
        _ => panic!("unexpected undo token"),
    }
    assert_eq!(delta.get_delegation_id_balance(delegation_id).unwrap(), None);
    assert_eq!(
        delta.get_pool_balance(pool_id).unwrap(),
        Some(Amount::from_atoms(1000))
    );
    assert_eq!(delta.get_delegation_shares(pool_id).unwrap(), None);
}

#[test]
fn delegation_to_missing_pool_is_rejected() {
    let parent = InMemoryPoSAccounting::new();
    let mut delta = PoSAccountingDelta::new(&parent);
    let err = delta
        .create_delegation_id(
            H256::from_words(1, 2, 3, 4),
            Destination::AnyoneCanSpend,
            &outpoint(6),
        )
        .unwrap_err();
    assert_eq!(err, Error::DelegationCreationFailedPoolDoesNotExist);

    let err = delta
        .delegate_staking(H256::from_words(1, 2, 3, 4), Amount::from_atoms(5))
        .unwrap_err();
    assert_eq!(err, Error::DelegateToNonexistingId);
}

#[test]
fn decommission_of_missing_pool_is_rejected() {
    let parent = InMemoryPoSAccounting::new();
    let mut delta = PoSAccountingDelta::new(&parent);
    let err = delta.decommission_pool(H256::zero()).unwrap_err();
    assert_eq!(err, Error::AttemptedDecommissionNonexistingPoolBalance);
}

#[test]
fn amount_collection_merge_sums_and_cancels() {
    let mut a: DeltaAmountCollection<H256> = DeltaAmountCollection::new();
    a.merge_delta(H256::zero(), SignedAmount::from_atoms(10)).unwrap();
    let mut b: DeltaAmountCollection<H256> = DeltaAmountCollection::new();
    b.merge_delta(H256::zero(), SignedAmount::from_atoms(-10)).unwrap();
    b.merge_delta(H256::from_words(1, 0, 0, 0), SignedAmount::from_atoms(4)).unwrap();
    a.merge_with(&b).unwrap();
    assert_eq!(a.get(&H256::zero()), None);
    assert_eq!(
        a.get(&H256::from_words(1, 0, 0, 0)),
        Some(SignedAmount::from_atoms(4))
    );
}

#[test]
fn amount_collection_merge_overflow_is_rejected() {
    let mut a: DeltaAmountCollection<H256> = DeltaAmountCollection::new();
    a.merge_delta(H256::zero(), SignedAmount::from_atoms(i128::MAX)).unwrap();
    let err = a.merge_delta(H256::zero(), SignedAmount::from_atoms(1)).unwrap_err();
    assert_eq!(err, Error::AmountOverflow);
}

#[test]
fn data_collection_merge_conflicts() {
    let mut a: DeltaDataCollection<H256, PoolData> = DeltaDataCollection::new();
    let d = PoolData::new(key(), Amount::from_atoms(1));
    a.merge_element(H256::zero(), DataDelta::Add(d)).unwrap();
    // A second creation for the same key conflicts.
    let err = a.merge_element(H256::zero(), DataDelta::Add(d)).unwrap_err();
    assert_eq!(err, Error::DataCreatedMultipleTimes);
    // Creation followed by removal cancels to nothing.
    a.merge_element(H256::zero(), DataDelta::Remove).unwrap();
    assert!(a.get(&H256::zero()).is_none());
    // Removal of what was never created is a bug upstream.
    a.merge_element(H256::zero(), DataDelta::Remove).unwrap();
    let err = a.merge_element(H256::zero(), DataDelta::Remove).unwrap_err();
    assert_eq!(err, Error::DataRemovedMultipleTimes);
    // Re-creation after a removal in one layer is deliberately undefined.
    let err = a.merge_element(H256::zero(), DataDelta::Add(d)).unwrap_err();
    assert_eq!(err, Error::DataRecreatedAfterRemoval);
}

#[test]
fn pool_ids_differ_from_delegation_ids() {
    let op = outpoint(12);
    assert_ne!(make_pool_id(&op), make_delegation_id(&op));
    // The derivation is deterministic.
    assert_eq!(make_pool_id(&op), make_pool_id(&outpoint(12)));
}
