//! Chain-wide primitive types: 256-bit identifiers, block heights and
//! distances, timestamps and outpoints.

use vstd::prelude::*;
use crate::collections::MapKey;

verus! {

/// A 256-bit identifier held as four 64-bit words. Pool and delegation
/// identifiers, transaction and block identifiers are all of this shape.
#[derive(Clone, Copy, Debug, PartialEq, Eq, Structural, Hash)]
pub struct H256 {
    pub w0: u64,
    pub w1: u64,
    pub w2: u64,
    pub w3: u64,
}

impl H256 {
    pub fn zero() -> (r: H256)
        ensures
            r == (H256 { w0: 0, w1: 0, w2: 0, w3: 0 }),
    {
        H256 { w0: 0, w1: 0, w2: 0, w3: 0 }
    }

    pub fn from_words(w0: u64, w1: u64, w2: u64, w3: u64) -> (r: H256)
        ensures
            r == (H256 { w0, w1, w2, w3 }),
    {
        H256 { w0, w1, w2, w3 }
    }
}

impl MapKey for H256 {
    fn key_eq(&self, other: &Self) -> (b: bool)
        ensures
            b == (*self == *other),
    {
        self.w0 == other.w0 && self.w1 == other.w1 && self.w2 == other.w2 && self.w3 == other.w3
    }
}

/// A 256-bit accumulated-work figure, held as four 64-bit words.
#[derive(Clone, Copy, Debug, PartialEq, Eq, Structural, Hash)]
pub struct Uint256 {
    pub w0: u64,
    pub w1: u64,
    pub w2: u64,
    pub w3: u64,
}

impl Uint256 {
    pub fn from_u64(v: u64) -> (r: Uint256)
        ensures
            r == (Uint256 { w0: v, w1: 0, w2: 0, w3: 0 }),
    {
        Uint256 { w0: v, w1: 0, w2: 0, w3: 0 }
    }
}

/// Height of a block in the chain.
#[derive(Clone, Copy, Debug, PartialEq, Eq, Structural, Hash)]
pub struct BlockHeight {
    pub height: u64,
}

impl BlockHeight {
    pub fn new(height: u64) -> (r: BlockHeight)
        ensures
            r.height == height,
    {
        BlockHeight { height }
    }

    pub fn into_int(self) -> (r: u64)
        ensures
            r == self.height,
    {
        self.height
    }
}

/// A distance between block heights; maturity requirements are stated as a
/// number of blocks a value must stay locked.
#[derive(Clone, Copy, Debug, PartialEq, Eq, Structural, Hash)]
pub struct BlockDistance {
    pub distance: i64,
}

impl BlockDistance {
    pub fn new(distance: i64) -> (r: BlockDistance)
        ensures
            r.distance == distance,
    {
        BlockDistance { distance }
    }

    pub fn into_int(self) -> (r: i64)
        ensures
            r == self.distance,
    {
        self.distance
    }
}

/// Timestamp of a block, in seconds.
#[derive(Clone, Copy, Debug, PartialEq, Eq, Structural, Hash)]
pub struct BlockTimestamp {
    pub seconds: u64,
}

impl BlockTimestamp {
    pub fn from_int_seconds(seconds: u64) -> (r: BlockTimestamp)
        ensures
            r.seconds == seconds,
    {
        BlockTimestamp { seconds }
    }

    pub fn as_int_seconds(self) -> (r: u64)
        ensures
            r == self.seconds,
    {
        self.seconds
    }
}

/// A reference to a transaction output: the identifier of the transaction
/// that produced it and the output's index within that transaction.
#[derive(Clone, Copy, Debug, PartialEq, Eq, Structural, Hash)]
pub struct OutPoint {
    pub tx_id: H256,
    pub output_index: u32,
}

impl OutPoint {
    pub fn new(tx_id: H256, output_index: u32) -> (r: OutPoint)
        ensures
            r == (OutPoint { tx_id, output_index }),
    {
        OutPoint { tx_id, output_index }
    }
}

} // verus!
