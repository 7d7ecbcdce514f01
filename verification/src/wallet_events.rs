//! Callbacks invoked when the wallet database changes, so that a front end
//! can re-render.

use vstd::prelude::*;
use crate::primitives::H256;

verus! {

/// Identifier of a wallet transaction within one account.
#[derive(Clone, Copy, Debug, PartialEq, Eq, Structural, Hash)]
pub struct AccountWalletTxId {
    pub account_id: H256,
    pub tx_id: H256,
}

/// A transaction as the wallet tracks it.
#[derive(Clone, Copy, Debug, PartialEq, Eq, Structural, Hash)]
pub struct WalletTx {
    pub tx_id: H256,
}

/// Callbacks that are invoked when the wallet database is updated.
pub trait WalletEvents {
    fn new_block(&mut self);

    fn set_transaction(&mut self, id: &AccountWalletTxId, tx: &WalletTx);

    fn del_transaction(&mut self, id: &AccountWalletTxId);
}

/// The listener that ignores every event.
pub struct WalletEventsNoOp;

impl WalletEvents for WalletEventsNoOp {
    fn new_block(&mut self) {
    }

    fn set_transaction(&mut self, _id: &AccountWalletTxId, _tx: &WalletTx) {
    }

    fn del_transaction(&mut self, _id: &AccountWalletTxId) {
    }
}

} // verus!
