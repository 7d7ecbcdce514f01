//! Consensus-accounting core of a proof-of-stake blockchain node.
//!
//! The library tracks staking pools, delegations and their balances as a
//! layered, undoable ledger, and validates a transaction's input/output
//! value flows against maturity (timelock) rules:
//!
//! * [`amount`] — fixed-point unsigned/signed amounts with checked
//!   arithmetic;
//! * [`collections`] and [`delta_collections`] — sparse key/value maps and
//!   delta collections with an associative merge;
//! * [`view`] — the read-only accounting interface and its backing stores;
//! * [`pool_delta`] — the copy-on-write overlay recording mutations as
//!   deltas against a parent view, every operation paired with an exact
//!   undo;
//! * [`epoch`] — per-epoch delta persistence, tip and sealed aggregates,
//!   and sealing at the configured distance behind the tip;
//! * [`accumulator`] — the constrained-value accumulator reconciling value
//!   entering and leaving a transaction under heterogeneous locking rules.
//!
//! Around the core stand the node's data types and services that lend
//! themselves to verification: blocks and their index, the peer database,
//! the peer-to-peer message types, the sync decision table, and the peeking
//! byte reader of the serialization layer. What cannot stand here — sockets
//! and files, asynchronous executors, front ends — lives in the embedding
//! application, which hands this library plain values.

pub mod accumulator;
pub mod amount;
pub mod blocks;
pub mod chain;
pub mod collections;
pub mod commands;
pub mod delta_collections;
pub mod dns_storage;
pub mod epoch;
pub mod error;
pub mod merkle;
pub mod network_tab;
pub mod p2p_types;
pub mod peekable;
pub mod peerdb;
pub mod pool_delta;
pub mod pool_types;
pub mod primitives;
pub mod server_config;
pub mod sync;
pub mod consensus;
pub mod view;
pub mod wallet_events;
