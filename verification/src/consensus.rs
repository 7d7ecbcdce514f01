//! The interface chainstate offers to consumers of consensus state.

use vstd::prelude::*;
use crate::blocks::Block;
use crate::primitives::{BlockHeight, H256};

verus! {

/// Where a processed block came from.
#[derive(Clone, Copy, Debug, PartialEq, Eq, Structural, Hash)]
pub enum BlockSource {
    Peer,
    Local,
}

/// Failures of consensus processing.
#[derive(Clone, Copy, Debug, PartialEq, Eq, Structural, Hash)]
pub enum ConsensusError {
    StorageFailure,
    InvalidBlock,
}

/// Processing and queries over the best chain, implemented by the
/// chainstate subsystem for its consumers.
pub trait ConsensusInterface {
    fn process_block(&mut self, block: Block, source: BlockSource) -> Result<(), ConsensusError>;

    fn get_best_block_id(&self) -> Result<H256, ConsensusError>;

    fn is_block_in_main_chain(&self, block_id: &H256) -> Result<bool, ConsensusError>;

    fn get_block_height_in_main_chain(&self, block_id: &H256) -> Result<
        Option<BlockHeight>,
        ConsensusError,
    >;

    fn get_block_id_from_height(&self, height: &BlockHeight) -> Result<
        Option<H256>,
        ConsensusError,
    >;

    fn get_block(&self, block_id: H256) -> Result<Option<Block>, ConsensusError>;
}

} // verus!
