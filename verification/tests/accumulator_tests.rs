use pos_ledger::accumulator::{ConnectTransactionError, ConstrainedValueAccumulator, IOPolicyError};
use pos_ledger::amount::Amount;
use pos_ledger::chain::{
    AccountNonce, AccountOutPoint, AccountSpending, ChainConfig, OutputTimeLock, OutputValue,
    StakePoolData, TxOutput,
};
use pos_ledger::collections::VecMap;
use pos_ledger::pool_types::{Destination, PoolData, PublicKey};
use pos_ledger::primitives::{BlockDistance, BlockHeight, H256};
use pos_ledger::view::{InMemoryPoSAccounting, PoSAccountingDB};

fn test_config(decommission: i64, spend_share: i64) -> ChainConfig {
    ChainConfig::new(
        BlockDistance::new(decommission),
        BlockDistance::new(spend_share),
        1,
        0,
    )
}

fn pool_store(pool_id: H256, pledge: u128) -> InMemoryPoSAccounting {
    let mut pool_data = VecMap::new();
    pool_data.insert(
        pool_id,
        PoolData::new(PublicKey::new(H256::zero()), Amount::from_atoms(pledge)),
    );
    InMemoryPoSAccounting::from_values(
        pool_data,
        VecMap::new(),
        VecMap::new(),
        VecMap::new(),
        VecMap::new(),
    )
}

#[test]
fn allow_fees_from_decommission() {
    let chain_config = test_config(100, 200);
    let pool_id = H256::from_words(1, 2, 3, 4);
    let staked_atoms = 750u128;
    let fee_atoms = 50u128;
    let store = pool_store(pool_id, staked_atoms);
    let pos_db = PoSAccountingDB::new(&store);

    let stake_pool_data = StakePoolData::new(
        Amount::from_atoms(staked_atoms),
        PublicKey::new(H256::zero()),
    );
    let input = TxOutput::CreateStakePool(pool_id, stake_pool_data);
    let output = TxOutput::LockThenTransfer(
        OutputValue::Coin(Amount::from_atoms(staked_atoms - fee_atoms)),
        Destination::AnyoneCanSpend,
        OutputTimeLock::ForBlockCount(100),
    );

    let mut acc = ConstrainedValueAccumulator::new();
    acc.process_input_utxo(&chain_config, BlockHeight::new(1), &pos_db, &input)
        .unwrap();
    acc.process_output(&output).unwrap();
    assert_eq!(acc.consume().unwrap().into_atoms(), fee_atoms);
}

#[test]
fn allow_fees_from_spend_share() {
    let chain_config = test_config(100, 200);
    let delegation_id = H256::from_words(7, 7, 7, 7);
    let delegated_atoms = 400u128;
    let fee_atoms = 25u128;

    let input_account = AccountOutPoint::new(
        AccountNonce::new(0),
        AccountSpending::Delegation(delegation_id, Amount::from_atoms(delegated_atoms)),
    );
    let output = TxOutput::LockThenTransfer(
        OutputValue::Coin(Amount::from_atoms(delegated_atoms - fee_atoms)),
        Destination::AnyoneCanSpend,
        OutputTimeLock::ForBlockCount(200),
    );

    let mut acc = ConstrainedValueAccumulator::new();
    acc.process_input_from_account(&chain_config, BlockHeight::new(1), &input_account)
        .unwrap();
    acc.process_output(&output).unwrap();
    assert_eq!(acc.consume().unwrap().into_atoms(), fee_atoms);
}

#[test]
fn try_to_unlocked_coins() {
    let chain_config = test_config(100, 200);
    let pool_id = H256::from_words(9, 9, 9, 9);
    let staked_atoms = 600u128;
    let store = pool_store(pool_id, staked_atoms);
    let pos_db = PoSAccountingDB::new(&store);

    let stake_pool_data = StakePoolData::new(
        Amount::from_atoms(staked_atoms),
        PublicKey::new(H256::zero()),
    );
    let inputs = vec![
        TxOutput::CreateStakePool(pool_id, stake_pool_data),
        TxOutput::Transfer(
            OutputValue::Coin(Amount::from_atoms(100)),
            Destination::AnyoneCanSpend,
        ),
    ];

    let outputs = vec![
        TxOutput::LockThenTransfer(
            OutputValue::Coin(Amount::from_atoms(staked_atoms)),
            Destination::AnyoneCanSpend,
            OutputTimeLock::ForBlockCount(100),
        ),
        TxOutput::LockThenTransfer(
            OutputValue::Coin(Amount::from_atoms(10)),
            Destination::AnyoneCanSpend,
            OutputTimeLock::ForBlockCount(150),
        ),
        TxOutput::Transfer(
            OutputValue::Coin(Amount::from_atoms(100)),
            Destination::AnyoneCanSpend,
        ),
    ];

    let mut acc = ConstrainedValueAccumulator::new();
    for input in &inputs {
        acc.process_input_utxo(&chain_config, BlockHeight::new(1), &pos_db, input)
            .unwrap();
    }
    acc.process_output(&outputs[0]).unwrap();
    // The second locked output's lock of 150 blocks satisfies no bucket
    // requirement (the 100-bucket is drained, and 150 exceeds nothing
    // else), so it draws 10 unconstrained atoms.
    acc.process_output(&outputs[1]).unwrap();
    let result = acc.process_output(&outputs[2]).unwrap_err();
    assert_eq!(
        result,
        ConnectTransactionError::IOPolicyError(IOPolicyError::MoneyPrinting)
    );
}

#[test]
fn check_timelock_saturation() {
    let required_decommission_maturity = 100;
    let required_spend_share_maturity = 200;
    let chain_config = test_config(required_decommission_maturity, required_spend_share_maturity);
    let pool_id = H256::from_words(4, 3, 2, 1);
    let staked_atoms = 500u128;
    let delegated_atoms = 300u128;
    let transferred_atoms = 250u128;
    let store = pool_store(pool_id, staked_atoms);
    let pos_db = PoSAccountingDB::new(&store);

    let stake_pool_data = StakePoolData::new(
        Amount::from_atoms(staked_atoms),
        PublicKey::new(H256::zero()),
    );
    let delegation_id = H256::from_words(5, 5, 5, 5);

    let mut acc = ConstrainedValueAccumulator::new();
    acc.process_input_utxo(
        &chain_config,
        BlockHeight::new(1),
        &pos_db,
        &TxOutput::CreateStakePool(pool_id, stake_pool_data),
    )
    .unwrap();
    acc.process_input_utxo(
        &chain_config,
        BlockHeight::new(1),
        &pos_db,
        &TxOutput::Transfer(
            OutputValue::Coin(Amount::from_atoms(transferred_atoms)),
            Destination::AnyoneCanSpend,
        ),
    )
    .unwrap();
    acc.process_input_from_account(
        &chain_config,
        BlockHeight::new(1),
        &AccountOutPoint::new(
            AccountNonce::new(0),
            AccountSpending::Delegation(delegation_id, Amount::from_atoms(delegated_atoms)),
        ),
    )
    .unwrap();

    // An output locked for the shorter maturity may draw on both buckets:
    // the longer-locked withdrawal satisfies it too, longest first.
    acc.process_output(&TxOutput::LockThenTransfer(
        OutputValue::Coin(Amount::from_atoms(staked_atoms + delegated_atoms)),
        Destination::AnyoneCanSpend,
        OutputTimeLock::ForBlockCount(required_decommission_maturity as u64),
    ))
    .unwrap();
    acc.process_output(&TxOutput::Transfer(
        OutputValue::Coin(Amount::from_atoms(transferred_atoms)),
        Destination::AnyoneCanSpend,
    ))
    .unwrap();

    assert_eq!(acc.consume().unwrap().into_atoms(), 0);
}

// Conservation: inputs worth 900 atoms, outputs worth 860, fee 40.
#[test]
fn conservation_exact_fee() {
    let chain_config = test_config(100, 200);
    let pool_id = H256::from_words(1, 1, 1, 1);
    let store = pool_store(pool_id, 500);
    let pos_db = PoSAccountingDB::new(&store);

    let mut acc = ConstrainedValueAccumulator::new();
    acc.process_input_utxo(
        &chain_config,
        BlockHeight::new(1),
        &pos_db,
        &TxOutput::Transfer(
            OutputValue::Coin(Amount::from_atoms(400)),
            Destination::AnyoneCanSpend,
        ),
    )
    .unwrap();
    acc.process_input_utxo(
        &chain_config,
        BlockHeight::new(1),
        &pos_db,
        &TxOutput::CreateStakePool(
            pool_id,
            StakePoolData::new(Amount::from_atoms(500), PublicKey::new(H256::zero())),
        ),
    )
    .unwrap();
    acc.process_output(&TxOutput::Transfer(
        OutputValue::Coin(Amount::from_atoms(360)),
        Destination::AnyoneCanSpend,
    ))
    .unwrap();
    acc.process_output(&TxOutput::LockThenTransfer(
        OutputValue::Coin(Amount::from_atoms(500)),
        Destination::AnyoneCanSpend,
        OutputTimeLock::ForBlockCount(100),
    ))
    .unwrap();
    assert_eq!(acc.consume().unwrap().into_atoms(), 40);
}

// Maturity tie-break: buckets {100: 500, 200: 300}; an output locked for
// 150 blocks is satisfied entirely from the 200-bucket, never the 100-bucket.
#[test]
fn maturity_tie_break() {
    let chain_config = test_config(100, 200);
    let pool_id = H256::from_words(2, 2, 2, 2);
    let store = pool_store(pool_id, 500);
    let pos_db = PoSAccountingDB::new(&store);

    let mut acc = ConstrainedValueAccumulator::new();
    // 100-bucket: the pool's pledge, 500 atoms.
    acc.process_input_utxo(
        &chain_config,
        BlockHeight::new(1),
        &pos_db,
        &TxOutput::CreateStakePool(
            pool_id,
            StakePoolData::new(Amount::from_atoms(500), PublicKey::new(H256::zero())),
        ),
    )
    .unwrap();
    // 200-bucket: a delegation withdrawal, 300 atoms.
    acc.process_input_from_account(
        &chain_config,
        BlockHeight::new(1),
        &AccountOutPoint::new(
            AccountNonce::new(0),
            AccountSpending::Delegation(
                H256::from_words(6, 6, 6, 6),
                Amount::from_atoms(300),
            ),
        ),
    )
    .unwrap();
    // The 150-locked output must drain the 200-bucket to zero and touch
    // neither the 100-bucket nor the unconstrained total.
    acc.process_output(&TxOutput::LockThenTransfer(
        OutputValue::Coin(Amount::from_atoms(300)),
        Destination::AnyoneCanSpend,
        OutputTimeLock::ForBlockCount(150),
    ))
    .unwrap();
    // The whole 100-bucket is still available for a 100-locked output.
    acc.process_output(&TxOutput::LockThenTransfer(
        OutputValue::Coin(Amount::from_atoms(500)),
        Destination::AnyoneCanSpend,
        OutputTimeLock::ForBlockCount(100),
    ))
    .unwrap();
    assert_eq!(acc.consume().unwrap().into_atoms(), 0);
}

// Overdraft rejection: an output beyond unconstrained plus every eligible
// bucket fails with MoneyPrinting and leaves the accumulator untouched.
#[test]
fn overdraft_rejected_without_partial_mutation() {
    let chain_config = test_config(100, 200);
    let pool_id = H256::from_words(3, 3, 3, 3);
    let store = pool_store(pool_id, 500);
    let pos_db = PoSAccountingDB::new(&store);

    let mut acc = ConstrainedValueAccumulator::new();
    acc.process_input_utxo(
        &chain_config,
        BlockHeight::new(1),
        &pos_db,
        &TxOutput::Transfer(
            OutputValue::Coin(Amount::from_atoms(100)),
            Destination::AnyoneCanSpend,
        ),
    )
    .unwrap();
    acc.process_input_utxo(
        &chain_config,
        BlockHeight::new(1),
        &pos_db,
        &TxOutput::CreateStakePool(
            pool_id,
            StakePoolData::new(Amount::from_atoms(500), PublicKey::new(H256::zero())),
        ),
    )
    .unwrap();
    let err = acc
        .process_output(&TxOutput::LockThenTransfer(
            OutputValue::Coin(Amount::from_atoms(700)),
            Destination::AnyoneCanSpend,
            OutputTimeLock::ForBlockCount(50),
        ))
        .unwrap_err();
    assert_eq!(
        err,
        ConnectTransactionError::IOPolicyError(IOPolicyError::MoneyPrinting)
    );
    // Nothing was drained: the full 600 atoms are still accounted for.
    assert_eq!(acc.consume().unwrap().into_atoms(), 600);
}

#[test]
fn kernel_input_of_unknown_pool_is_rejected() {
    let chain_config = test_config(100, 200);
    let store = InMemoryPoSAccounting::new();
    let pos_db = PoSAccountingDB::new(&store);
    let pool_id = H256::from_words(8, 8, 8, 8);

    let mut acc = ConstrainedValueAccumulator::new();
    let err = acc
        .process_input_utxo(
            &chain_config,
            BlockHeight::new(1),
            &pos_db,
            &TxOutput::ProduceBlockFromStake(Destination::AnyoneCanSpend, pool_id),
        )
        .unwrap_err();
    assert_eq!(err, ConnectTransactionError::PoolDataNotFound(pool_id));
}

#[test]
fn unconstrained_overflow_is_rejected() {
    let chain_config = test_config(100, 200);
    let store = InMemoryPoSAccounting::new();
    let pos_db = PoSAccountingDB::new(&store);

    let mut acc = ConstrainedValueAccumulator::new();
    acc.process_input_utxo(
        &chain_config,
        BlockHeight::new(1),
        &pos_db,
        &TxOutput::Transfer(
            OutputValue::Coin(Amount::from_atoms(u128::MAX)),
            Destination::AnyoneCanSpend,
        ),
    )
    .unwrap();
    let err = acc
        .process_input_utxo(
            &chain_config,
            BlockHeight::new(1),
            &pos_db,
            &TxOutput::Transfer(
                OutputValue::Coin(Amount::from_atoms(1)),
                Destination::AnyoneCanSpend,
            ),
        )
        .unwrap_err();
    assert_eq!(
        err,
        ConnectTransactionError::IOPolicyError(IOPolicyError::AmountOverflow)
    );
}

#[test]
fn block_count_beyond_distance_range_is_rejected() {
    let chain_config = test_config(100, 200);
    let mut acc = ConstrainedValueAccumulator::new();
    let store = InMemoryPoSAccounting::new();
    let pos_db = PoSAccountingDB::new(&store);
    acc.process_input_utxo(
        &chain_config,
        BlockHeight::new(1),
        &pos_db,
        &TxOutput::Transfer(
            OutputValue::Coin(Amount::from_atoms(10)),
            Destination::AnyoneCanSpend,
        ),
    )
    .unwrap();
    let err = acc
        .process_output(&TxOutput::LockThenTransfer(
            OutputValue::Coin(Amount::from_atoms(10)),
            Destination::AnyoneCanSpend,
            OutputTimeLock::ForBlockCount(u64::MAX),
        ))
        .unwrap_err();
    assert_eq!(err, ConnectTransactionError::BlockHeightArithmeticError);
}

#[test]
fn token_values_carry_no_coins() {
    let chain_config = test_config(100, 200);
    let store = InMemoryPoSAccounting::new();
    let pos_db = PoSAccountingDB::new(&store);
    let mut acc = ConstrainedValueAccumulator::new();
    acc.process_input_utxo(
        &chain_config,
        BlockHeight::new(1),
        &pos_db,
        &TxOutput::Transfer(
            OutputValue::Token(H256::zero()),
            Destination::AnyoneCanSpend,
        ),
    )
    .unwrap();
    // A token transfer out is no coin spend either.
    acc.process_output(&TxOutput::Transfer(
        OutputValue::Token(H256::zero()),
        Destination::AnyoneCanSpend,
    ))
    .unwrap();
    assert_eq!(acc.consume().unwrap().into_atoms(), 0);
}
