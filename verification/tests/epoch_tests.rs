use pos_ledger::amount::Amount;
use pos_ledger::blocks::{Block, BlockHeader, Transaction, TxInput};
use pos_ledger::chain::{ChainConfig, OutputValue, StakePoolData, TxOutput};
use pos_ledger::epoch::EpochStore;
use pos_ledger::pool_types::{make_pool_id, Destination, PublicKey};
use pos_ledger::primitives::{BlockDistance, BlockHeight, BlockTimestamp, H256, OutPoint};
use pos_ledger::view::PoSAccountingView;

fn config_sealing_immediately() -> ChainConfig {
    ChainConfig::new(BlockDistance::new(100), BlockDistance::new(200), 1, 0)
}

fn block_with(outputs: Vec<TxOutput>, inputs: Vec<TxInput>) -> Block {
    Block::new(
        BlockHeader::new(
            H256::from_words(90, 91, 92, 93),
            None,
            BlockTimestamp::from_int_seconds(5),
        ),
        vec![Transaction::new(inputs, outputs)],
    )
}

// Epoch sealing: with epoch length one and seal distance zero, one block
// creating a pool with a pledge of 100 atoms lands in the tip and in the
// sealed aggregate alike, and the epoch's undo delta is recorded.
#[test]
fn epoch_sealing_scenario() {
    let config = config_sealing_immediately();
    let mut store = EpochStore::new();

    let op = OutPoint::new(H256::from_words(50, 51, 52, 53), 0);
    let pool_id = make_pool_id(&op);
    let block = block_with(
        vec![TxOutput::CreateStakePool(
            pool_id,
            StakePoolData::new(
                Amount::from_atoms(100),
                PublicKey::new(H256::zero()),
            ),
        )],
        vec![TxInput::Utxo(op)],
    );

    let undos = store.process_block(&config, BlockHeight::new(0), &block).unwrap();
    assert_eq!(undos.len(), 1);

    let tip = store.read_accounting_data_tip();
    assert!(tip.get_pool_data(pool_id).unwrap().is_some());
    assert_eq!(
        tip.get_pool_balance(pool_id).unwrap(),
        Some(Amount::from_atoms(100))
    );

    let sealed = store.read_accounting_data_sealed();
    assert!(sealed.get_pool_data(pool_id).unwrap().is_some());
    assert_eq!(
        sealed.get_pool_balance(pool_id).unwrap(),
        Some(Amount::from_atoms(100))
    );

    assert!(store.get_accounting_epoch_delta(0).is_some());
    assert!(store.get_accounting_epoch_undo_delta(0).is_some());
}

// No accounting data: a block with only a plain coin transfer leaves both
// aggregates empty and records no epoch delta.
#[test]
fn no_accounting_data_scenario() {
    let config = config_sealing_immediately();
    let mut store = EpochStore::new();

    let op = OutPoint::new(H256::from_words(60, 61, 62, 63), 0);
    let block = block_with(
        vec![TxOutput::Transfer(
            OutputValue::Coin(Amount::from_atoms(42)),
            Destination::AnyoneCanSpend,
        )],
        vec![TxInput::Utxo(op)],
    );

    let undos = store.process_block(&config, BlockHeight::new(0), &block).unwrap();
    assert!(undos.is_empty());

    let probe = H256::from_words(1, 2, 3, 4);
    assert_eq!(store.read_accounting_data_tip().get_pool_data(probe).unwrap(), None);
    assert_eq!(store.read_accounting_data_sealed().get_pool_data(probe).unwrap(), None);
    assert!(store.get_accounting_epoch_delta(0).is_none());
    assert!(store.get_accounting_epoch_undo_delta(0).is_none());
}

// With a sealing distance of one epoch, the sealed aggregate lags the tip.
#[test]
fn sealing_lags_by_configured_distance() {
    let config = ChainConfig::new(BlockDistance::new(100), BlockDistance::new(200), 1, 1);
    let mut store = EpochStore::new();

    let op = OutPoint::new(H256::from_words(70, 71, 72, 73), 0);
    let pool_id = make_pool_id(&op);
    let block = block_with(
        vec![TxOutput::CreateStakePool(
            pool_id,
            StakePoolData::new(
                Amount::from_atoms(77),
                PublicKey::new(H256::zero()),
            ),
        )],
        vec![TxInput::Utxo(op)],
    );

    store.process_block(&config, BlockHeight::new(0), &block).unwrap();
    // The tip has the pool; the sealed aggregate does not see epoch 0 yet.
    assert!(store.read_accounting_data_tip().get_pool_data(pool_id).unwrap().is_some());
    assert_eq!(store.read_accounting_data_sealed().get_pool_data(pool_id).unwrap(), None);
    assert!(store.get_accounting_epoch_undo_delta(0).is_none());

    // An empty block closes epoch 1; epoch 0 is now sealed.
    let idle = block_with(vec![], vec![]);
    store.process_block(&config, BlockHeight::new(1), &idle).unwrap();
    assert!(store.read_accounting_data_sealed().get_pool_data(pool_id).unwrap().is_some());
    assert_eq!(
        store.read_accounting_data_sealed().get_pool_balance(pool_id).unwrap(),
        Some(Amount::from_atoms(77))
    );
    assert!(store.get_accounting_epoch_undo_delta(0).is_some());
}
