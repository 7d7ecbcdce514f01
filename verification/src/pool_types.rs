//! Pool and delegation entities, and the derivation of their identifiers.

use vstd::prelude::*;
use crate::amount::Amount;
use crate::collections::MapKey;
use crate::primitives::{H256, OutPoint};

verus! {

/// Tag mixed into a pool identifier so that pool and delegation identifiers
/// derived from one outpoint never coincide.
pub const POOL_ID_TAG: u64 = 0x504f4f4c;

/// Tag mixed into a delegation identifier.
pub const DELEGATION_ID_TAG: u64 = 0x44454c47;

/// A public key, the decommission authority of a pool.
#[derive(Clone, Copy, Debug, PartialEq, Eq, Structural, Hash)]
pub struct PublicKey {
    pub key: H256,
}

impl PublicKey {
    pub fn new(key: H256) -> (r: PublicKey)
        ensures
            r.key == key,
    {
        PublicKey { key }
    }
}

/// The party entitled to spend an output.
#[derive(Clone, Copy, Debug, PartialEq, Eq, Structural, Hash)]
pub enum Destination {
    Address(H256),
    PublicKey(PublicKey),
    ScriptHash(H256),
    AnyoneCanSpend,
}

/// Data of a staking pool: its decommission authority and the pledge
/// recorded once at creation and never independently altered.
#[derive(Clone, Copy, Debug, PartialEq, Eq, Structural, Hash)]
pub struct PoolData {
    pub decommission_key: PublicKey,
    pub pledge_amount: Amount,
}

impl PoolData {
    pub fn new(decommission_key: PublicKey, pledge_amount: Amount) -> (r: PoolData)
        ensures
            r == (PoolData { decommission_key, pledge_amount }),
    {
        PoolData { decommission_key, pledge_amount }
    }

    pub fn pledge_amount(&self) -> (r: Amount)
        ensures
            r == self.pledge_amount,
    {
        self.pledge_amount
    }

    pub fn decommission_key(&self) -> (r: PublicKey)
        ensures
            r == self.decommission_key,
    {
        self.decommission_key
    }
}

/// Data of a delegation: the pool it delegates to and the destination that
/// may spend the withdrawn share.
#[derive(Clone, Copy, Debug, PartialEq, Eq, Structural, Hash)]
pub struct DelegationData {
    pub source_pool: H256,
    pub spend_destination: Destination,
}

impl DelegationData {
    pub fn new(source_pool: H256, spend_destination: Destination) -> (r: DelegationData)
        ensures
            r == (DelegationData { source_pool, spend_destination }),
    {
        DelegationData { source_pool, spend_destination }
    }

    pub fn source_pool(&self) -> (r: H256)
        ensures
            r == self.source_pool,
    {
        self.source_pool
    }
}

/// Key of a delegation share: the pool and the delegation it belongs to.
#[derive(Clone, Copy, Debug, PartialEq, Eq, Structural, Hash)]
pub struct ShareKey {
    pub pool_id: H256,
    pub delegation_id: H256,
}

impl MapKey for ShareKey {
    fn key_eq(&self, other: &Self) -> (b: bool)
        ensures
            b == (*self == *other),
    {
        self.pool_id.key_eq(&other.pool_id) && self.delegation_id.key_eq(&other.delegation_id)
    }
}

/// The pool identifier derived from the outpoint that created the pool.
/// The same outpoint always yields the same identifier.
pub open spec fn spec_pool_id(op: OutPoint) -> H256 {
    H256 {
        w0: op.tx_id.w0 ^ (op.output_index as u64),
        w1: op.tx_id.w1 ^ POOL_ID_TAG,
        w2: op.tx_id.w2,
        w3: op.tx_id.w3,
    }
}

pub fn make_pool_id(op: &OutPoint) -> (r: H256)
    ensures
        r == spec_pool_id(*op),
{
    H256 {
        w0: op.tx_id.w0 ^ (op.output_index as u64),
        w1: op.tx_id.w1 ^ POOL_ID_TAG,
        w2: op.tx_id.w2,
        w3: op.tx_id.w3,
    }
}

/// The delegation identifier derived from the outpoint that created the
/// delegation; tagged differently from pool identifiers.
pub open spec fn spec_delegation_id(op: OutPoint) -> H256 {
    H256 {
        w0: op.tx_id.w0 ^ (op.output_index as u64),
        w1: op.tx_id.w1 ^ DELEGATION_ID_TAG,
        w2: op.tx_id.w2,
        w3: op.tx_id.w3,
    }
}

pub fn make_delegation_id(op: &OutPoint) -> (r: H256)
    ensures
        r == spec_delegation_id(*op),
{
    H256 {
        w0: op.tx_id.w0 ^ (op.output_index as u64),
        w1: op.tx_id.w1 ^ DELEGATION_ID_TAG,
        w2: op.tx_id.w2,
        w3: op.tx_id.w3,
    }
}

} // verus!
