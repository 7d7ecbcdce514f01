//! Blocks, transactions and the per-block index entry kept by chainstate.

use vstd::prelude::*;
use crate::chain::{AccountOutPoint, ChainConfig, TxOutput};
use crate::primitives::{BlockHeight, BlockTimestamp, H256, OutPoint, Uint256};

verus! {

/// A transaction input: an unspent output, or an account operation.
#[derive(Clone, Copy, Debug, PartialEq, Eq, Structural, Hash)]
pub enum TxInput {
    Utxo(OutPoint),
    Account(AccountOutPoint),
}

/// A transaction: inputs consumed and outputs produced, in order.
#[derive(Clone, Debug, PartialEq, Eq)]
pub struct Transaction {
    pub inputs: Vec<TxInput>,
    pub outputs: Vec<TxOutput>,
}

impl Transaction {
    pub fn new(inputs: Vec<TxInput>, outputs: Vec<TxOutput>) -> (r: Transaction)
        ensures
            r.inputs@ == inputs@,
            r.outputs@ == outputs@,
    {
        Transaction { inputs, outputs }
    }
}

/// A block header: the block's identifier, its predecessor (none for the
/// genesis block) and its timestamp.
#[derive(Clone, Copy, Debug, PartialEq, Eq, Structural, Hash)]
pub struct BlockHeader {
    pub block_id: H256,
    pub prev_block_id: Option<H256>,
    pub timestamp: BlockTimestamp,
}

impl BlockHeader {
    pub fn new(block_id: H256, prev_block_id: Option<H256>, timestamp: BlockTimestamp) -> (r:
        BlockHeader)
        ensures
            r == (BlockHeader { block_id, prev_block_id, timestamp }),
    {
        BlockHeader { block_id, prev_block_id, timestamp }
    }

    pub fn prev_block_id(&self) -> (r: &Option<H256>)
        ensures
            *r == self.prev_block_id,
    {
        &self.prev_block_id
    }

    pub fn timestamp(&self) -> (r: BlockTimestamp)
        ensures
            r == self.timestamp,
    {
        self.timestamp
    }

    /// Whether this header belongs to the chain's first block, the one
    /// without a predecessor.
    pub fn is_genesis(&self, _chain_config: &ChainConfig) -> (r: bool)
        ensures
            r == (self.prev_block_id is None),
    {
        self.prev_block_id.is_none()
    }
}

/// A block: its header and the transactions it carries.
#[derive(Clone, Debug, PartialEq, Eq)]
pub struct Block {
    pub header: BlockHeader,
    pub transactions: Vec<Transaction>,
}

impl Block {
    pub fn new(header: BlockHeader, transactions: Vec<Transaction>) -> (r: Block)
        ensures
            r.header == header,
            r.transactions@ == transactions@,
    {
        Block { header, transactions }
    }

    pub fn header(&self) -> (r: &BlockHeader)
        ensures
            *r == self.header,
    {
        &self.header
    }

    pub fn get_id(&self) -> (r: H256)
        ensures
            r == self.header.block_id,
    {
        self.header.block_id
    }
}

/// What chainstate remembers of one block: identifier, header, accumulated
/// chain trust, height, and the maximum timestamp seen up to it.
pub struct BlockIndex {
    block_id: H256,
    block_header: BlockHeader,
    chain_trust: Uint256,
    height: BlockHeight,
    time_max: BlockTimestamp,
}

impl BlockIndex {
    /// The whole block is taken because the block's identifier cannot be
    /// derived from the header alone by this index.
    pub fn new(block: &Block, chain_trust: Uint256, height: BlockHeight, time_max: BlockTimestamp)
        -> (r: BlockIndex)
        ensures
            r.block_id_spec() == block.header.block_id,
            r.block_header_spec() == block.header,
            r.chain_trust_spec() == chain_trust,
            r.block_height_spec() == height,
            r.time_max_spec() == time_max,
    {
        BlockIndex {
            block_header: block.header,
            block_id: block.get_id(),
            chain_trust,
            height,
            time_max,
        }
    }

    pub closed spec fn block_id_spec(&self) -> H256 {
        self.block_id
    }

    pub closed spec fn block_header_spec(&self) -> BlockHeader {
        self.block_header
    }

    pub closed spec fn chain_trust_spec(&self) -> Uint256 {
        self.chain_trust
    }

    pub closed spec fn block_height_spec(&self) -> BlockHeight {
        self.height
    }

    pub closed spec fn time_max_spec(&self) -> BlockTimestamp {
        self.time_max
    }

    pub fn block_id(&self) -> (r: &H256)
        ensures
            *r == self.block_id_spec(),
    {
        &self.block_id
    }

    pub fn prev_block_id(&self) -> (r: &Option<H256>)
        ensures
            *r == self.block_header_spec().prev_block_id,
    {
        &self.block_header.prev_block_id
    }

    pub fn is_genesis(&self, chain_config: &ChainConfig) -> (r: bool)
        ensures
            r == (self.block_header_spec().prev_block_id is None),
    {
        self.block_header.is_genesis(chain_config)
    }

    pub fn block_timestamp(&self) -> (r: BlockTimestamp)
        ensures
            r == self.block_header_spec().timestamp,
    {
        self.block_header.timestamp()
    }

    pub fn chain_timestamps_max(&self) -> (r: BlockTimestamp)
        ensures
            r == self.time_max_spec(),
    {
        self.time_max
    }

    pub fn block_height(&self) -> (r: BlockHeight)
        ensures
            r == self.block_height_spec(),
    {
        self.height
    }

    pub fn chain_trust(&self) -> (r: &Uint256)
        ensures
            *r == self.chain_trust_spec(),
    {
        &self.chain_trust
    }

    pub fn block_header(&self) -> (r: &BlockHeader)
        ensures
            *r == self.block_header_spec(),
    {
        &self.block_header
    }

    pub fn into_block_header(self) -> (r: BlockHeader)
        ensures
            r == self.block_header_spec(),
    {
        self.block_header
    }
}

} // verus!
