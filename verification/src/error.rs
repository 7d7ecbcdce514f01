//! Errors of the accounting core.
//!
//! Invariant violations signal a caller or model bug and abort block
//! validation; arithmetic errors reject malformed or adversarial amounts;
//! lookup failures distinguish a missing entity from a failing backing store.

use vstd::prelude::*;

verus! {

#[derive(Clone, Copy, Debug, PartialEq, Eq, Structural, Hash)]
pub enum Error {
    /// A delta sum left the representable signed range.
    AmountOverflow,
    /// A combined absolute balance would be negative.
    ArithmeticErrorSumToUnsignedFailed,
    /// An absolute value exceeds the signed range and cannot become a delta.
    ArithmeticErrorToSignedFailed,
    /// A pledge amount exceeds the signed range.
    PledgeValueToSignedError,
    /// Two `Add` deltas for one key were merged.
    DataCreatedMultipleTimes,
    /// An `Add` delta was merged onto a `Remove` delta; re-creation within
    /// one layer is deliberately undefined and treated as an error.
    DataRecreatedAfterRemoval,
    /// Two `Remove` deltas for one key were merged.
    DataRemovedMultipleTimes,
    /// A `CreatePool` delta sits over parent data that already exists.
    PoolCreatedMultipleTimes,
    /// A `DecommissionPool` delta sits over no parent data.
    RemovingNonexistingPoolData,
    /// An `Add` delegation delta sits over parent data that already exists.
    DelegationDataCreatedMultipleTimes,
    /// A `Remove` delegation delta sits over no parent data.
    RemovingNonexistingDelegationData,
    /// `create_pool` found a balance for the derived pool identifier.
    InvariantErrorPoolBalanceAlreadyExists,
    /// `create_pool` found data for the derived pool identifier.
    InvariantErrorPoolDataAlreadyExists,
    /// `decommission_pool` found no balance for the pool.
    AttemptedDecommissionNonexistingPoolBalance,
    /// `decommission_pool` found no data for the pool.
    AttemptedDecommissionNonexistingPoolData,
    /// `create_delegation_id` targets a pool that does not exist.
    DelegationCreationFailedPoolDoesNotExist,
    /// `create_delegation_id` found data for the derived identifier.
    InvariantErrorDelegationDataAlreadyExists,
    /// `delegate_staking` targets a delegation that does not exist.
    DelegateToNonexistingId,
    /// Undoing a pool creation found no balance delta to delete.
    InvariantErrorPoolCreationReversalFailedBalanceNotFound,
    /// Undoing a pool creation found no matching data delta to delete.
    InvariantErrorPoolCreationReversalFailedDataNotFound,
    /// Undoing a decommission found the pool's data state inconsistent.
    InvariantErrorDecommissionUndoFailedDataInconsistent,
    /// Undoing a delegation creation found no matching data delta to delete.
    InvariantErrorDelegationIdUndoFailedDataNotFound,
    /// A transaction creating a pool or delegation has no kernel outpoint
    /// to derive the identifier from.
    MissingKernelInput,
    /// The backing store failed to answer a query.
    ViewFail,
}

} // verus!
