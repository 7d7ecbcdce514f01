//! Transaction outputs, timelocks, account spending and the chain
//! configuration constants the accounting core reads.

use vstd::prelude::*;
use crate::amount::Amount;
use crate::pool_types::{Destination, PublicKey};
use crate::primitives::{BlockDistance, BlockHeight, BlockTimestamp, H256};

verus! {

/// The value carried by an output: coins, or a token this core does not
/// account for.
#[derive(Clone, Copy, Debug, PartialEq, Eq, Structural, Hash)]
pub enum OutputValue {
    Coin(Amount),
    Token(H256),
}

/// The coin content of an output value; a token carries no coin value.
pub open spec fn spec_coin_amount(v: OutputValue) -> Option<Amount> {
    match v {
        OutputValue::Coin(a) => Some(a),
        OutputValue::Token(_) => None,
    }
}

impl OutputValue {
    pub fn coin_amount(&self) -> (r: Option<Amount>)
        ensures
            r == spec_coin_amount(*self),
    {
        match self {
            OutputValue::Coin(a) => Some(*a),
            OutputValue::Token(_) => None,
        }
    }
}

/// When a locked output becomes spendable.
#[derive(Clone, Copy, Debug, PartialEq, Eq, Structural, Hash)]
pub enum OutputTimeLock {
    UntilHeight(BlockHeight),
    UntilTime(BlockTimestamp),
    ForBlockCount(u64),
    ForSeconds(u64),
}

/// The data a stake-pool creation output carries: the pledged value and the
/// decommission authority.
#[derive(Clone, Copy, Debug, PartialEq, Eq, Structural, Hash)]
pub struct StakePoolData {
    pub value: Amount,
    pub decommission_key: PublicKey,
}

impl StakePoolData {
    pub fn new(value: Amount, decommission_key: PublicKey) -> (r: StakePoolData)
        ensures
            r == (StakePoolData { value, decommission_key }),
    {
        StakePoolData { value, decommission_key }
    }

    pub fn value(&self) -> (r: Amount)
        ensures
            r == self.value,
    {
        self.value
    }
}

/// A transaction output, by kind.
#[derive(Clone, Copy, Debug, PartialEq, Eq, Structural, Hash)]
pub enum TxOutput {
    Transfer(OutputValue, Destination),
    LockThenTransfer(OutputValue, Destination, OutputTimeLock),
    Burn(OutputValue),
    CreateStakePool(H256, StakePoolData),
    ProduceBlockFromStake(Destination, H256),
    CreateDelegationId(Destination, H256),
    DelegateStaking(Amount, H256),
}

impl TxOutput {
    /// Whether spending this output is deferred by a timelock.
    pub fn has_timelock(&self) -> (r: bool)
        ensures
            r == (*self matches TxOutput::LockThenTransfer(_, _, _)),
    {
        match self {
            TxOutput::LockThenTransfer(_, _, _) => true,
            _ => false,
        }
    }
}

/// Sequence number of an account operation.
#[derive(Clone, Copy, Debug, PartialEq, Eq, Structural, Hash)]
pub struct AccountNonce {
    pub value: u64,
}

impl AccountNonce {
    pub fn new(value: u64) -> (r: AccountNonce)
        ensures
            r.value == value,
    {
        AccountNonce { value }
    }
}

/// What an account-based input spends.
#[derive(Clone, Copy, Debug, PartialEq, Eq, Structural, Hash)]
pub enum AccountSpending {
    Delegation(H256, Amount),
}

/// An account-based input: a nonce and the spend it authorises.
#[derive(Clone, Copy, Debug, PartialEq, Eq, Structural, Hash)]
pub struct AccountOutPoint {
    pub nonce: AccountNonce,
    pub account: AccountSpending,
}

impl AccountOutPoint {
    pub fn new(nonce: AccountNonce, account: AccountSpending) -> (r: AccountOutPoint)
        ensures
            r == (AccountOutPoint { nonce, account }),
    {
        AccountOutPoint { nonce, account }
    }

    pub fn account(&self) -> (r: &AccountSpending)
        ensures
            *r == self.account,
    {
        &self.account
    }
}

/// The chain configuration the accounting core consumes: maturity distances
/// as functions of block height (constant in this configuration), and the
/// epoch parameters.
#[derive(Clone, Copy, Debug, PartialEq, Eq, Structural, Hash)]
pub struct ChainConfig {
    pub decommission_maturity: BlockDistance,
    pub spend_share_maturity: BlockDistance,
    pub epoch_length: u64,
    pub sealed_epoch_distance_from_tip: u64,
}

impl ChainConfig {
    pub fn new(
        decommission_maturity: BlockDistance,
        spend_share_maturity: BlockDistance,
        epoch_length: u64,
        sealed_epoch_distance_from_tip: u64,
    ) -> (r: ChainConfig)
        requires
            epoch_length >= 1,
        ensures
            r == (ChainConfig {
                decommission_maturity,
                spend_share_maturity,
                epoch_length,
                sealed_epoch_distance_from_tip,
            }),
    {
        ChainConfig {
            decommission_maturity,
            spend_share_maturity,
            epoch_length,
            sealed_epoch_distance_from_tip,
        }
    }

    /// How long decommissioned stake must remain locked, from this height.
    pub fn decommission_pool_maturity_distance(&self, _block_height: BlockHeight) -> (r:
        BlockDistance)
        ensures
            r == self.decommission_maturity,
    {
        self.decommission_maturity
    }

    /// How long a withdrawn delegation share must remain locked, from this
    /// height.
    pub fn spend_share_maturity_distance(&self, _block_height: BlockHeight) -> (r: BlockDistance)
        ensures
            r == self.spend_share_maturity,
    {
        self.spend_share_maturity
    }

    /// The epoch a height belongs to.
    pub fn epoch_index_from_height(&self, height: BlockHeight) -> (r: u64)
        requires
            self.epoch_length >= 1,
        ensures
            r == height.height / self.epoch_length,
    {
        height.height / self.epoch_length
    }

    /// Whether this height is the last block of its epoch.
    pub fn is_last_block_in_epoch(&self, height: BlockHeight) -> (r: bool)
        requires
            self.epoch_length >= 1,
        ensures
            r == (height.height % self.epoch_length == self.epoch_length - 1),
    {
        (height.height % self.epoch_length) == self.epoch_length - 1
    }
}

} // verus!
