//! The constrained-value accumulator.
//!
//! A transaction's inputs deposit value either into one unconstrained total
//! or into buckets keyed by the block distance the value must stay locked;
//! outputs withdraw from the unconstrained total, or — for outputs locked by
//! a block count — from the buckets whose required distance their own lock
//! satisfies, longest requirement first. What remains after all inputs and
//! outputs is the transaction's fee.
//!
//! The model is a pair of an unconstrained total and a sequence of
//! `(distance, amount)` buckets sorted strictly by distance; every operation
//! is pinned to the transition [`spec_step`], and conservation over any
//! sequence of events is the law [`lemma_conservation`].

use vstd::prelude::*;
use crate::amount::Amount;
use crate::chain::{
    spec_coin_amount, AccountOutPoint, AccountSpending, ChainConfig, OutputTimeLock, TxOutput,
};
use crate::error::Error;
use crate::pool_types::PoolData;
use crate::primitives::{BlockDistance, BlockHeight, H256};
use crate::view::PoSAccountingView;

verus! {

/// Rejections of a transaction's value flow.
#[derive(Clone, Copy, Debug, PartialEq, Eq, Structural, Hash)]
pub enum IOPolicyError {
    /// An accumulated amount left the representable range.
    AmountOverflow,
    /// The transaction tries to create value from nothing, or to unlock
    /// value before its maturity.
    MoneyPrinting,
}

/// Errors surfaced while connecting a transaction.
#[derive(Clone, Copy, Debug, PartialEq, Eq, Structural, Hash)]
pub enum ConnectTransactionError {
    IOPolicyError(IOPolicyError),
    /// A kernel input spends a pool unknown to the accounting view.
    PoolDataNotFound(H256),
    /// A block-count lock does not fit a block distance.
    BlockHeightArithmeticError,
    /// The accounting view failed to answer.
    PoSAccountingError(Error),
}

/// Buckets are strictly ordered by their required distance.
pub open spec fn buckets_sorted(s: Seq<(int, int)>) -> bool {
    forall|i: int, j: int| 0 <= i < j < s.len() ==> s[i].0 < s[j].0
}

/// Bucket amounts are never negative.
pub open spec fn buckets_nonneg(s: Seq<(int, int)>) -> bool {
    forall|i: int| 0 <= i < s.len() ==> s[i].1 >= 0
}

/// The value held across all buckets.
pub open spec fn sum_amounts(s: Seq<(int, int)>) -> int
    decreases s.len(),
{
    if s.len() == 0 {
        0
    } else {
        sum_amounts(s.drop_last()) + s.last().1
    }
}

/// The amount held in the bucket for `d`, zero when there is none.
pub open spec fn bucket_val(s: Seq<(int, int)>, d: int) -> int
    decreases s.len(),
{
    if s.len() == 0 {
        0
    } else if s.last().0 == d {
        s.last().1
    } else {
        bucket_val(s.drop_last(), d)
    }
}

/// Adds `a` to the bucket for `d`, creating it in order if absent.
pub open spec fn bucket_add(s: Seq<(int, int)>, d: int, a: int) -> Seq<(int, int)>
    decreases s.len(),
{
    if s.len() == 0 {
        seq![(d, a)]
    } else if d > s.last().0 {
        s.push((d, a))
    } else if d == s.last().0 {
        s.update(s.len() - 1, (d, s.last().1 + a))
    } else {
        bucket_add(s.drop_last(), d, a).push(s.last())
    }
}

/// Withdraws up to `a` from the buckets whose distance is at least
/// `min_distance`, saturating the largest distances first; returns the new
/// buckets and how much of `a` the buckets could not cover.
pub open spec fn drain(s: Seq<(int, int)>, min_distance: int, a: int) -> (Seq<(int, int)>, int)
    decreases s.len(),
{
    if s.len() == 0 {
        (s, a)
    } else if s.last().0 < min_distance || a <= 0 {
        (s, a)
    } else if a >= s.last().1 {
        let (s2, a2) = drain(s.drop_last(), min_distance, a - s.last().1);
        (s2.push((s.last().0, 0)), a2)
    } else {
        (s.update(s.len() - 1, (s.last().0, s.last().1 - a)), 0)
    }
}

/// One deposit into or withdrawal from the accumulated value.
#[derive(Clone, Copy, Debug, PartialEq, Eq, Structural, Hash)]
pub enum AccumulatorEvent {
    AddUnconstrained { amount: u128 },
    AddConstrained { distance: i64, amount: u128 },
    SpendUnconstrained { amount: u128 },
    SpendLocked { distance: i64, amount: u128 },
}

/// How one event transforms the accumulated state; `None` is the rejection
/// the executable code reports as overflow or money printing.
pub open spec fn spec_step(u: int, s: Seq<(int, int)>, ev: AccumulatorEvent) -> Option<
    (int, Seq<(int, int)>),
> {
    match ev {
        AccumulatorEvent::AddUnconstrained { amount } => if u + amount <= u128::MAX {
            Some((u + amount, s))
        } else {
            None
        },
        AccumulatorEvent::AddConstrained { distance, amount } => if bucket_val(s, distance as int)
            + amount <= u128::MAX {
            Some((u, bucket_add(s, distance as int, amount as int)))
        } else {
            None
        },
        AccumulatorEvent::SpendUnconstrained { amount } => if amount <= u {
            Some((u - amount, s))
        } else {
            None
        },
        AccumulatorEvent::SpendLocked { distance, amount } => {
            let (s2, rem) = drain(s, distance as int, amount as int);
            if rem <= u {
                Some((u - rem, s2))
            } else {
                None
            }
        },
    }
}

/// The value an event adds to (positive) or removes from (negative) the
/// accumulated total.
pub open spec fn event_net(ev: AccumulatorEvent) -> int {
    match ev {
        AccumulatorEvent::AddUnconstrained { amount } => amount as int,
        AccumulatorEvent::AddConstrained { distance, amount } => amount as int,
        AccumulatorEvent::SpendUnconstrained { amount } => -(amount as int),
        AccumulatorEvent::SpendLocked { distance, amount } => -(amount as int),
    }
}

/// Folds a sequence of events over the state; `None` as soon as one fails.
pub open spec fn spec_run(u: int, s: Seq<(int, int)>, evs: Seq<AccumulatorEvent>) -> Option<
    (int, Seq<(int, int)>),
>
    decreases evs.len(),
{
    if evs.len() == 0 {
        Some((u, s))
    } else {
        match spec_step(u, s, evs.first()) {
            None => None,
            Some((u2, s2)) => spec_run(u2, s2, evs.drop_first()),
        }
    }
}

/// The net of all deposits minus all withdrawals.
pub open spec fn net_flow(evs: Seq<AccumulatorEvent>) -> int
    decreases evs.len(),
{
    if evs.len() == 0 {
        0
    } else {
        event_net(evs.first()) + net_flow(evs.drop_first())
    }
}

pub proof fn lemma_bucket_val_absent(s: Seq<(int, int)>, d: int)
    requires
        forall|i: int| 0 <= i < s.len() ==> s[i].0 != d,
    ensures
        bucket_val(s, d) == 0,
    decreases s.len(),
{
    if s.len() > 0 {
        lemma_bucket_val_absent(s.drop_last(), d);
    }
}

pub proof fn lemma_bucket_val_found(s: Seq<(int, int)>, i: int)
    requires
        buckets_sorted(s),
        0 <= i < s.len(),
    ensures
        bucket_val(s, s[i].0) == s[i].1,
    decreases s.len(),
{
    if i < s.len() - 1 {
        assert(s[i].0 != s.last().0);
        lemma_bucket_val_found(s.drop_last(), i);
        assert(s.drop_last()[i] == s[i]);
    }
}

pub proof fn lemma_bucket_add(s: Seq<(int, int)>, d: int, a: int)
    requires
        buckets_sorted(s),
        buckets_nonneg(s),
        a >= 0,
    ensures
        buckets_sorted(bucket_add(s, d, a)),
        buckets_nonneg(bucket_add(s, d, a)),
        sum_amounts(bucket_add(s, d, a)) == sum_amounts(s) + a,
        forall|i: int| 0 <= i < bucket_add(s, d, a).len() ==> #[trigger] bucket_add(s, d, a)[i].0
            == d || exists|j: int| 0 <= j < s.len() && bucket_add(s, d, a)[i].0 == s[j].0,
        bucket_val(s, d) >= 0,
    decreases s.len(),
{
    let r = bucket_add(s, d, a);
    if s.len() == 0 {
        assert(r =~= seq![(d, a)]);
        assert(r.drop_last() =~= Seq::<(int, int)>::empty());
        assert(sum_amounts(Seq::<(int, int)>::empty()) == 0);
        assert(sum_amounts(r) == sum_amounts(r.drop_last()) + r.last().1);
    } else if d > s.last().0 {
        assert(r.drop_last() =~= s);
        assert(sum_amounts(r) == sum_amounts(s) + a);
        if exists|i: int| 0 <= i < s.len() && s[i].0 == d {
            let i = choose|i: int| 0 <= i < s.len() && s[i].0 == d;
            assert(s[i].0 <= s.last().0);
            assert(false);
        }
        lemma_bucket_val_absent(s, d);
    } else if d == s.last().0 {
        assert(r.drop_last() =~= s.drop_last());
        assert(r.last() == (d, s.last().1 + a));
        assert(sum_amounts(r) == sum_amounts(s.drop_last()) + s.last().1 + a);
        lemma_bucket_val_found(s, s.len() - 1);
    } else {
        lemma_bucket_add(s.drop_last(), d, a);
        let inner = bucket_add(s.drop_last(), d, a);
        assert(r.drop_last() =~= inner);
        assert(r.last() == s.last());
        assert(sum_amounts(r) == sum_amounts(inner) + s.last().1);
        assert forall|i: int, j: int| 0 <= i < j < r.len() implies r[i].0 < r[j].0 by {
            if j < r.len() - 1 {
                assert(inner[i].0 < inner[j].0);
            } else {
                assert(r[i].0 == inner[i].0);
                if inner[i].0 == d {
                    assert(r[i].0 < s.last().0);
                } else {
                    let j2 = choose|j2: int|
                        0 <= j2 < s.drop_last().len() && inner[i].0 == s.drop_last()[j2].0;
                    assert(s[j2].0 < s.last().0);
                }
            }
        }
        assert(bucket_val(s, d) == bucket_val(s.drop_last(), d));
    }
}

pub proof fn lemma_drain(s: Seq<(int, int)>, m: int, a: int)
    requires
        buckets_sorted(s),
        buckets_nonneg(s),
        a >= 0,
    ensures
        ({
            let (s2, rem) = drain(s, m, a);
            &&& buckets_sorted(s2)
            &&& buckets_nonneg(s2)
            &&& 0 <= rem <= a
            &&& sum_amounts(s2) == sum_amounts(s) - (a - rem)
            &&& s2.len() == s.len()
            &&& forall|i: int| 0 <= i < s2.len() ==> #[trigger] s2[i].0 == s[i].0
        }),
    decreases s.len(),
{
    let (s2, rem) = drain(s, m, a);
    if s.len() == 0 {
    } else if s.last().0 < m || a <= 0 {
    } else if a >= s.last().1 {
        lemma_drain(s.drop_last(), m, a - s.last().1);
        let (i2, r2) = drain(s.drop_last(), m, a - s.last().1);
        assert(s2 =~= i2.push((s.last().0, 0)));
        assert(s2.drop_last() =~= i2);
        assert forall|i: int| 0 <= i < s2.len() implies #[trigger] s2[i].0 == s[i].0 by {
            if i < s2.len() - 1 {
                assert(s2[i].0 == i2[i].0);
                assert(s.drop_last()[i] == s[i]);
            }
        }
    } else {
        assert(s2.drop_last() =~= s.drop_last());
    }
}

pub proof fn lemma_step_total(u: int, s: Seq<(int, int)>, ev: AccumulatorEvent)
    requires
        buckets_sorted(s),
        buckets_nonneg(s),
        u >= 0,
        spec_step(u, s, ev) is Some,
    ensures
        ({
            let (u2, s2) = spec_step(u, s, ev)->Some_0;
            &&& u2 >= 0
            &&& buckets_sorted(s2)
            &&& buckets_nonneg(s2)
            &&& u2 + sum_amounts(s2) == u + sum_amounts(s) + event_net(ev)
        }),
{
    match ev {
        AccumulatorEvent::AddUnconstrained { amount } => {},
        AccumulatorEvent::AddConstrained { distance, amount } => {
            lemma_bucket_add(s, distance as int, amount as int);
        },
        AccumulatorEvent::SpendUnconstrained { amount } => {},
        AccumulatorEvent::SpendLocked { distance, amount } => {
            lemma_drain(s, distance as int, amount as int);
        },
    }
}

pub proof fn lemma_run_total(u: int, s: Seq<(int, int)>, evs: Seq<AccumulatorEvent>)
    requires
        buckets_sorted(s),
        buckets_nonneg(s),
        u >= 0,
        spec_run(u, s, evs) is Some,
    ensures
        ({
            let (u2, s2) = spec_run(u, s, evs)->Some_0;
            &&& u2 >= 0
            &&& buckets_sorted(s2)
            &&& buckets_nonneg(s2)
            &&& u2 + sum_amounts(s2) == u + sum_amounts(s) + net_flow(evs)
        }),
    decreases evs.len(),
{
    if evs.len() > 0 {
        lemma_step_total(u, s, evs.first());
        let (u2, s2) = spec_step(u, s, evs.first())->Some_0;
        lemma_run_total(u2, s2, evs.drop_first());
    }
}

pub proof fn lemma_bucket_add_found(s: Seq<(int, int)>, i: int, a: int)
    requires
        buckets_sorted(s),
        0 <= i < s.len(),
    ensures
        bucket_add(s, s[i].0, a) == s.update(i, (s[i].0, s[i].1 + a)),
    decreases s.len(),
{
    if i == s.len() - 1 {
        assert(bucket_add(s, s[i].0, a) =~= s.update(i, (s[i].0, s[i].1 + a)));
    } else {
        assert(s[i].0 < s.last().0);
        lemma_bucket_add_found(s.drop_last(), i, a);
        assert(s.drop_last()[i] == s[i]);
        assert(bucket_add(s.drop_last(), s[i].0, a).push(s.last()) =~= s.update(
            i,
            (s[i].0, s[i].1 + a),
        ));
    }
}

pub proof fn lemma_bucket_add_at(s: Seq<(int, int)>, idx: int, d: int, a: int)
    requires
        buckets_sorted(s),
        0 <= idx <= s.len(),
        forall|j: int| idx <= j < s.len() ==> s[j].0 > d,
        forall|j: int| 0 <= j < idx ==> s[j].0 < d,
    ensures
        bucket_add(s, d, a) == s.insert(idx, (d, a)),
    decreases s.len(),
{
    if s.len() == 0 {
        assert(bucket_add(s, d, a) =~= s.insert(0, (d, a)));
    } else if idx == s.len() {
        assert(s.last().0 < d);
        assert(s.push((d, a)) =~= s.insert(idx, (d, a)));
    } else {
        assert(s.last().0 > d);
        lemma_bucket_add_at(s.drop_last(), idx, d, a);
        assert(bucket_add(s.drop_last(), d, a).push(s.last()) =~= s.insert(idx, (d, a)));
    }
}

pub proof fn lemma_sum_take(s: Seq<(int, int)>, i: int)
    requires
        buckets_nonneg(s),
        0 <= i <= s.len(),
    ensures
        sum_amounts(s) >= sum_amounts(s.take(i)),
    decreases s.len(),
{
    if i == s.len() {
        assert(s.take(i) =~= s);
    } else {
        lemma_sum_take(s.drop_last(), i);
        assert(s.drop_last().take(i) =~= s.take(i));
    }
}

/// Law: conservation. For any sequence of deposits and withdrawals that the
/// accumulator processes successfully from its initial state, the value that
/// remains — unconstrained plus every constrained bucket, which is what
/// `consume` returns — equals exactly the net of deposits minus
/// withdrawals: the transaction's intended fee.
pub proof fn lemma_conservation(evs: Seq<AccumulatorEvent>, fee: int)
    requires
        spec_run(0, Seq::empty(), evs) is Some,
        net_flow(evs) == fee,
    ensures
        ({
            let (u2, s2) = spec_run(0, Seq::empty(), evs)->Some_0;
            u2 + sum_amounts(s2) == fee
        }),
{
    lemma_run_total(0, Seq::empty(), evs);
}

/// Adding coins to the unconstrained total; overflow is rejected.
pub open spec fn spec_add_unconstrained(u: int, s: Seq<(int, int)>, coins: Amount) -> Result<
    (int, Seq<(int, int)>),
    ConnectTransactionError,
> {
    match spec_step(u, s, (AccumulatorEvent::AddUnconstrained { amount: coins.atoms })) {
        Some(x) => Ok(x),
        None => Err(ConnectTransactionError::IOPolicyError(IOPolicyError::AmountOverflow)),
    }
}

/// Spending coins from the unconstrained total; a shortfall is money
/// printing.
pub open spec fn spec_spend_unconstrained(u: int, s: Seq<(int, int)>, coins: Amount) -> Result<
    (int, Seq<(int, int)>),
    ConnectTransactionError,
> {
    match spec_step(u, s, (AccumulatorEvent::SpendUnconstrained { amount: coins.atoms })) {
        Some(x) => Ok(x),
        None => Err(ConnectTransactionError::IOPolicyError(IOPolicyError::MoneyPrinting)),
    }
}

/// What `process_input_utxo` does for each kind of spent output. A kernel
/// input spending a pool adds the pool's pledge to the bucket keyed by the
/// decommission maturity distance, which this configuration holds constant
/// over heights.
pub open spec fn spec_process_input_utxo(
    u: int,
    s: Seq<(int, int)>,
    config: ChainConfig,
    pools: Map<H256, PoolData>,
    output: TxOutput,
) -> Result<(int, Seq<(int, int)>), ConnectTransactionError> {
    match output {
        TxOutput::Transfer(v, _) => match spec_coin_amount(v) {
            Some(coins) => spec_add_unconstrained(u, s, coins),
            None => Ok((u, s)),
        },
        TxOutput::LockThenTransfer(v, _, _) => match spec_coin_amount(v) {
            Some(coins) => spec_add_unconstrained(u, s, coins),
            None => Ok((u, s)),
        },
        TxOutput::Burn(v) => match spec_coin_amount(v) {
            Some(coins) => spec_add_unconstrained(u, s, coins),
            None => Ok((u, s)),
        },
        TxOutput::DelegateStaking(coins, _) => spec_add_unconstrained(u, s, coins),
        TxOutput::CreateDelegationId(_, _) => Ok((u, s)),
        TxOutput::CreateStakePool(pool_id, _) => spec_add_kernel(u, s, config, pools, pool_id),
        TxOutput::ProduceBlockFromStake(_, pool_id) => spec_add_kernel(
            u,
            s,
            config,
            pools,
            pool_id,
        ),
    }
}

/// The kernel-input case: the pool's pledge joins the decommission bucket.
pub open spec fn spec_add_kernel(
    u: int,
    s: Seq<(int, int)>,
    config: ChainConfig,
    pools: Map<H256, PoolData>,
    pool_id: H256,
) -> Result<(int, Seq<(int, int)>), ConnectTransactionError> {
    if !pools.dom().contains(pool_id) {
        Err(ConnectTransactionError::PoolDataNotFound(pool_id))
    } else {
        match spec_step(
            u,
            s,
            (AccumulatorEvent::AddConstrained {
                distance: config.decommission_maturity.distance,
                amount: pools[pool_id].pledge_amount.atoms,
            }),
        ) {
            Some(x) => Ok(x),
            None => Err(ConnectTransactionError::IOPolicyError(IOPolicyError::AmountOverflow)),
        }
    }
}

/// What `process_input_from_account` does: a delegation withdrawal adds its
/// spend amount to the bucket keyed by the spend-share maturity distance.
pub open spec fn spec_process_input_from_account(
    u: int,
    s: Seq<(int, int)>,
    config: ChainConfig,
    account: AccountOutPoint,
) -> Result<(int, Seq<(int, int)>), ConnectTransactionError> {
    match account.account {
        AccountSpending::Delegation(_, spend_amount) => match spec_step(
            u,
            s,
            (AccumulatorEvent::AddConstrained {
                distance: config.spend_share_maturity.distance,
                amount: spend_amount.atoms,
            }),
        ) {
            Some(x) => Ok(x),
            None => Err(ConnectTransactionError::IOPolicyError(IOPolicyError::AmountOverflow)),
        },
    }
}

/// What `process_output` does for each kind of produced output. Only a
/// lock-then-transfer with a block-count lock reaches the constrained
/// buckets; the other lock kinds are not reconciled against any bucket.
pub open spec fn spec_process_output(u: int, s: Seq<(int, int)>, output: TxOutput) -> Result<
    (int, Seq<(int, int)>),
    ConnectTransactionError,
> {
    match output {
        TxOutput::Transfer(v, _) => match spec_coin_amount(v) {
            Some(coins) => spec_spend_unconstrained(u, s, coins),
            None => Ok((u, s)),
        },
        TxOutput::Burn(v) => match spec_coin_amount(v) {
            Some(coins) => spec_spend_unconstrained(u, s, coins),
            None => Ok((u, s)),
        },
        TxOutput::DelegateStaking(coins, _) => spec_spend_unconstrained(u, s, coins),
        TxOutput::CreateStakePool(_, data) => spec_spend_unconstrained(u, s, data.value),
        TxOutput::ProduceBlockFromStake(_, _) => Ok((u, s)),
        TxOutput::CreateDelegationId(_, _) => Ok((u, s)),
        TxOutput::LockThenTransfer(v, _, timelock) => match timelock {
            OutputTimeLock::ForBlockCount(count) => if count > i64::MAX {
                Err(ConnectTransactionError::BlockHeightArithmeticError)
            } else {
                match spec_coin_amount(v) {
                    Some(coins) => match spec_step(
                        u,
                        s,
                        (AccumulatorEvent::SpendLocked {
                            distance: count as i64,
                            amount: coins.atoms,
                        }),
                    ) {
                        Some(x) => Ok(x),
                        None => Err(
                            ConnectTransactionError::IOPolicyError(IOPolicyError::MoneyPrinting),
                        ),
                    },
                    None => Ok((u, s)),
                }
            },
            _ => Ok((u, s)),
        },
    }
}

/// One constrained bucket: the distance the value must stay locked and how
/// much of it is left.
#[derive(Clone, Copy, Debug, PartialEq, Eq, Structural, Hash)]
pub struct ConstrainedBucket {
    pub distance: BlockDistance,
    pub amount: Amount,
}

/// The abstract content of a bucket vector.
pub open spec fn entries_view(v: Seq<ConstrainedBucket>) -> Seq<(int, int)> {
    v.map_values(|e: ConstrainedBucket| (e.distance.distance as int, e.amount.atoms as int))
}

/// Accumulates a transaction's value flows: one unconstrained total and one
/// amount per required lock distance.
pub struct ConstrainedValueAccumulator {
    unconstrained_value: Amount,
    timelock_constrained: Vec<ConstrainedBucket>,
}

impl ConstrainedValueAccumulator {
    pub closed spec fn unconstrained(&self) -> int {
        self.unconstrained_value.atoms as int
    }

    pub closed spec fn buckets(&self) -> Seq<(int, int)> {
        entries_view(self.timelock_constrained@)
    }

    pub closed spec fn wf(&self) -> bool {
        buckets_sorted(self.buckets())
    }

    /// The value still accounted for: unconstrained plus all buckets.
    pub open spec fn total(&self) -> int {
        self.unconstrained() + sum_amounts(self.buckets())
    }

    pub proof fn lemma_nonneg(&self)
        ensures
            buckets_nonneg(self.buckets()),
            self.unconstrained() >= 0,
    {
    }

    pub fn new() -> (r: Self)
        ensures
            r.wf(),
            r.unconstrained() == 0,
            r.buckets() == Seq::<(int, int)>::empty(),
    {
        let r = ConstrainedValueAccumulator {
            unconstrained_value: Amount::zero(),
            timelock_constrained: Vec::new(),
        };
        proof {
            assert(r.buckets() =~= Seq::<(int, int)>::empty());
        }
        r
    }

    fn add_unconstrained(&mut self, coins: Amount) -> (r: Result<(), IOPolicyError>)
        requires
            old(self).wf(),
        ensures
            final(self).wf(),
            match spec_step(
                old(self).unconstrained(),
                old(self).buckets(),
                (AccumulatorEvent::AddUnconstrained { amount: coins.atoms }),
            ) {
                Some((u2, s2)) => r is Ok && final(self).unconstrained() == u2 && final(self).buckets() == s2,
                None => r == Err::<(), IOPolicyError>(IOPolicyError::AmountOverflow) && final(self).unconstrained() == old(self).unconstrained() && final(self).buckets() == old(
                    self,
                ).buckets(),
            },
    {
        match self.unconstrained_value.checked_add(coins) {
            Some(sum) => {
                self.unconstrained_value = sum;
                Ok(())
            },
            None => Err(IOPolicyError::AmountOverflow),
        }
    }

    fn spend_unconstrained(&mut self, coins: Amount) -> (r: Result<(), IOPolicyError>)
        requires
            old(self).wf(),
        ensures
            final(self).wf(),
            match spec_step(
                old(self).unconstrained(),
                old(self).buckets(),
                (AccumulatorEvent::SpendUnconstrained { amount: coins.atoms }),
            ) {
                Some((u2, s2)) => r is Ok && final(self).unconstrained() == u2 && final(self).buckets() == s2,
                None => r == Err::<(), IOPolicyError>(IOPolicyError::MoneyPrinting) && final(self).unconstrained() == old(self).unconstrained() && final(self).buckets() == old(
                    self,
                ).buckets(),
            },
    {
        match self.unconstrained_value.checked_sub(coins) {
            Some(diff) => {
                self.unconstrained_value = diff;
                Ok(())
            },
            None => Err(IOPolicyError::MoneyPrinting),
        }
    }

    fn add_to_bucket(&mut self, distance: BlockDistance, amount: Amount) -> (r: Result<
        (),
        IOPolicyError,
    >)
        requires
            old(self).wf(),
        ensures
            final(self).wf(),
            match spec_step(
                old(self).unconstrained(),
                old(self).buckets(),
                (AccumulatorEvent::AddConstrained {
                    distance: distance.distance,
                    amount: amount.atoms,
                }),
            ) {
                Some((u2, s2)) => r is Ok && final(self).unconstrained() == u2 && final(self).buckets() == s2,
                None => r == Err::<(), IOPolicyError>(IOPolicyError::AmountOverflow) && final(self).unconstrained() == old(self).unconstrained() && final(self).buckets() == old(
                    self,
                ).buckets(),
            },
    {
        let ghost b0 = self.buckets();
        let ghost dd = distance.distance as int;
        let n = self.timelock_constrained.len();
        let mut idx: usize = n;
        while idx > 0
            invariant_except_break
                idx <= n,
                n == self.timelock_constrained@.len(),
                b0 == self.buckets(),
                dd == distance.distance as int,
                buckets_sorted(b0),
                forall|j: int| idx <= j < n ==> b0[j].0 > dd,
            ensures
                idx <= n,
                n == self.timelock_constrained@.len(),
                b0 == self.buckets(),
                dd == distance.distance as int,
                forall|j: int| idx <= j < n ==> b0[j].0 > dd,
                idx > 0 ==> b0[idx - 1].0 <= dd,
            decreases idx,
        {
            proof {
                assert(b0[idx - 1] == (self.timelock_constrained@[idx - 1].distance.distance as int,
                self.timelock_constrained@[idx - 1].amount.atoms as int));
            }
            if self.timelock_constrained[idx - 1].distance.into_int() <= distance.into_int() {
                break ;
            }
            idx = idx - 1;
        }
        if idx > 0 && self.timelock_constrained[idx - 1].distance.into_int()
            == distance.into_int() {
            let e = self.timelock_constrained[idx - 1];
            proof {
                assert(b0[idx - 1] == (dd, e.amount.atoms as int));
                lemma_bucket_val_found(b0, idx - 1);
            }
            match e.amount.checked_add(amount) {
                Some(sum) => {
                    self.timelock_constrained.set(
                        idx - 1,
                        ConstrainedBucket { distance, amount: sum },
                    );
                    proof {
                        lemma_bucket_add_found(b0, idx - 1, amount.atoms as int);
                        assert(self.buckets() =~= b0.update(
                            idx - 1,
                            (dd, e.amount.atoms + amount.atoms),
                        ));
                        lemma_bucket_add(b0, dd, amount.atoms as int);
                    }
                    Ok(())
                },
                None => Err(IOPolicyError::AmountOverflow),
            }
        } else {
            proof {
                assert forall|j: int| 0 <= j < n implies b0[j].0 != dd by {
                    if j < idx {
                        if j < idx - 1 {
                            assert(b0[j].0 < b0[idx - 1].0);
                        }
                        assert(b0[idx - 1].0 != dd);
                    }
                }
                lemma_bucket_val_absent(b0, dd);
                assert forall|j: int| 0 <= j < idx implies b0[j].0 < dd by {
                    if j < idx - 1 {
                        assert(b0[j].0 < b0[idx - 1].0);
                    }
                }
                lemma_bucket_add_at(b0, idx as int, dd, amount.atoms as int);
                lemma_bucket_add(b0, dd, amount.atoms as int);
            }
            self.timelock_constrained.insert(idx, ConstrainedBucket { distance, amount });
            proof {
                assert(self.buckets() =~= b0.insert(idx as int, (dd, amount.atoms as int)));
            }
            Ok(())
        }
    }

    fn spend_locked(&mut self, lock_distance: BlockDistance, coins: Amount) -> (r: Result<
        (),
        IOPolicyError,
    >)
        requires
            old(self).wf(),
        ensures
            final(self).wf(),
            match spec_step(
                old(self).unconstrained(),
                old(self).buckets(),
                (AccumulatorEvent::SpendLocked {
                    distance: lock_distance.distance,
                    amount: coins.atoms,
                }),
            ) {
                Some((u2, s2)) => r is Ok && final(self).unconstrained() == u2 && final(self).buckets() == s2,
                None => r == Err::<(), IOPolicyError>(IOPolicyError::MoneyPrinting) && final(self).unconstrained() == old(self).unconstrained() && final(self).buckets() == old(
                    self,
                ).buckets(),
            },
    {
        let ghost b0 = self.buckets();
        let ghost md = lock_distance.distance as int;
        let ghost a0 = coins.atoms as int;
        proof {
            lemma_drain(b0, md, a0);
        }
        let n = self.timelock_constrained.len();
        let mut scratch: Vec<ConstrainedBucket> = Vec::new();
        let mut i: usize = 0;
        while i < n
            invariant
                n == self.timelock_constrained@.len(),
                i <= n,
                scratch@.len() == i,
                forall|j: int| 0 <= j < i ==> scratch@[j] == self.timelock_constrained@[j],
            decreases n - i,
        {
            scratch.push(self.timelock_constrained[i]);
            i = i + 1;
        }
        proof {
            assert(scratch@ =~= self.timelock_constrained@);
        }
        let mut remaining = coins;
        let mut idx: usize = n;
        proof {
            assert(scratch@.take(n as int) =~= scratch@);
            assert(entries_view(scratch@) =~= b0);
            assert(entries_view(scratch@.skip(n as int)) =~= Seq::<(int, int)>::empty());
            let (ps, pr) = drain(b0, md, a0);
            assert(ps + entries_view(scratch@.skip(n as int)) =~= ps);
        }
        while idx > 0
            invariant_except_break
                n == scratch@.len(),
                idx <= n,
                buckets_sorted(b0),
                md == lock_distance.distance as int,
                a0 == coins.atoms as int,
                remaining.atoms >= 0,
                forall|j: int| 0 <= j < idx ==> scratch@[j] == self.timelock_constrained@[j],
                b0 == self.buckets(),
                n == self.timelock_constrained@.len(),
                drain(b0, md, a0) == ({
                    let (ps, pr) = drain(
                        entries_view(scratch@.take(idx as int)),
                        md,
                        remaining.atoms as int,
                    );
                    ((ps + entries_view(scratch@.skip(idx as int))), pr)
                }),
            ensures
                n == scratch@.len(),
                b0 == self.buckets(),
                md == lock_distance.distance as int,
                a0 == coins.atoms as int,
                n == self.timelock_constrained@.len(),
                drain(b0, md, a0) == ((entries_view(scratch@), remaining.atoms as int)),
            decreases idx,
        {
            let e = scratch[idx - 1];
            proof {
                assert(scratch@.take(idx as int).len() == idx);
                assert(scratch@.take(idx as int)[idx - 1] == scratch@[idx - 1]);
                assert(entries_view(scratch@.take(idx as int)).last() == (
                    e.distance.distance as int,
                    e.amount.atoms as int,
                ));
            }
            if e.distance.into_int() < lock_distance.into_int() || remaining.into_atoms() == 0 {
                proof {
                    let pre = entries_view(scratch@.take(idx as int));
                    assert(pre.len() == idx);
                    assert(pre.last().0 < md || remaining.atoms as int <= 0);
                    assert(drain(pre, md, remaining.atoms as int) == ((pre,
                    remaining.atoms as int)));
                    assert(pre + entries_view(scratch@.skip(idx as int)) =~= entries_view(
                        scratch@,
                    ));
                }
                break ;
            }
            let ghost scratch_before = scratch@;
            let ghost rem_before = remaining.atoms as int;
            if remaining.into_atoms() >= e.amount.into_atoms() {
                remaining = match remaining.checked_sub(e.amount) {
                    Some(d) => d,
                    None => {
                        proof {
                            assert(false);
                        }
                        remaining
                    },
                };
                scratch.set(idx - 1, ConstrainedBucket { distance: e.distance, amount: Amount::zero() });
                idx = idx - 1;
                proof {
                    let pre = entries_view(scratch_before.take(idx + 1 as int));
                    assert(scratch_before.take(idx + 1 as int).len() == idx + 1);
                    assert(scratch_before.take(idx + 1 as int)[idx as int] == scratch_before[
                        idx as int
                    ]);
                    assert(pre.last() == (e.distance.distance as int, e.amount.atoms as int));
                    assert(pre.last().0 >= md);
                    assert(rem_before > 0);
                    assert(rem_before >= pre.last().1);
                    assert(remaining.atoms as int == rem_before - pre.last().1);
                    assert(pre.drop_last() =~= entries_view(scratch_before.take(idx as int)));
                    assert(entries_view(scratch@.take(idx as int)) =~= entries_view(
                        scratch_before.take(idx as int),
                    ));
                    assert(entries_view(scratch@.skip(idx as int)) =~= seq![
                        (e.distance.distance as int, 0int),
                    ] + entries_view(scratch_before.skip(idx + 1 as int)));
                    let (ips, ipr) = drain(
                        entries_view(scratch_before.take(idx as int)),
                        md,
                        remaining.atoms as int,
                    );
                    assert(drain(pre, md, rem_before) == ((ips.push(
                        (e.distance.distance as int, 0int),
                    )), ipr));
                    assert(ips.push((e.distance.distance as int, 0int)) + entries_view(
                        scratch_before.skip(idx + 1 as int),
                    ) =~= ips + entries_view(scratch@.skip(idx as int)));
                }
            } else {
                let new_amount = match e.amount.checked_sub(remaining) {
                    Some(d) => d,
                    None => {
                        proof {
                            assert(false);
                        }
                        e.amount
                    },
                };
                scratch.set(idx - 1, ConstrainedBucket { distance: e.distance, amount: new_amount });
                remaining = Amount::zero();
                proof {
                    let pre = entries_view(scratch_before.take(idx as int));
                    assert(scratch_before.take(idx as int).len() == idx);
                    assert(scratch_before.take(idx as int)[idx - 1] == scratch_before[idx - 1]);
                    assert(pre.last() == (e.distance.distance as int, e.amount.atoms as int));
                    assert(pre.last().0 >= md);
                    assert(rem_before > 0);
                    assert(rem_before < pre.last().1);
                    assert(drain(pre, md, rem_before) == ((pre.update(
                        idx - 1,
                        (e.distance.distance as int, e.amount.atoms - rem_before),
                    )), 0int));
                    assert(pre.update(
                        idx - 1,
                        (e.distance.distance as int, e.amount.atoms - rem_before),
                    ) + entries_view(scratch_before.skip(idx as int)) =~= entries_view(scratch@));
                    assert(entries_view(scratch@.take(idx as int)) =~= entries_view(scratch@).take(
                        idx as int,
                    ));
                    assert(drain(
                        entries_view(scratch@.take(idx as int)),
                        md,
                        0int,
                    ) == ((entries_view(scratch@.take(idx as int)), 0int)));
                    assert(entries_view(scratch@.take(idx as int)) + entries_view(
                        scratch@.skip(idx as int),
                    ) =~= entries_view(scratch@));
                }
                break ;
            }
        }
        match self.unconstrained_value.checked_sub(remaining) {
            Some(diff) => {
                self.unconstrained_value = diff;
                self.timelock_constrained = scratch;
                proof {
                    assert(self.buckets() == drain(b0, md, a0).0);
                }
                Ok(())
            },
            None => Err(IOPolicyError::MoneyPrinting),
        }
    }

    /// Accounts one spent transaction output. Coins and withdrawn stakes
    /// become unconstrained; a kernel input spending a pool looks the pool's
    /// pledge up in the view and locks it behind the decommission maturity
    /// distance for this height.
    pub fn process_input_utxo<V: PoSAccountingView>(
        &mut self,
        chain_config: &ChainConfig,
        block_height: BlockHeight,
        pos_accounting_view: &V,
        output: &TxOutput,
    ) -> (r: Result<(), ConnectTransactionError>)
        requires
            old(self).wf(),
        ensures
            final(self).wf(),
            pos_accounting_view.consistent() ==> match spec_process_input_utxo(
                old(self).unconstrained(),
                old(self).buckets(),
                *chain_config,
                pos_accounting_view.pools(),
                *output,
            ) {
                Ok((u2, s2)) => r is Ok && final(self).unconstrained() == u2 && final(self).buckets() == s2,
                Err(e) => r == Err::<(), ConnectTransactionError>(e) && final(self).unconstrained()
                    == old(self).unconstrained() && final(self).buckets() == old(self).buckets(),
            },
            r is Err ==> final(self).unconstrained() == old(self).unconstrained()
                && final(self).buckets() == old(self).buckets(),
    {
        match output {
            TxOutput::Transfer(value, _) | TxOutput::LockThenTransfer(value, _, _)
                | TxOutput::Burn(value) => {
                match value.coin_amount() {
                    Some(coins) => match self.add_unconstrained(coins) {
                        Ok(()) => Ok(()),
                        Err(e) => Err(ConnectTransactionError::IOPolicyError(e)),
                    },
                    None => Ok(()),
                }
            },
            TxOutput::DelegateStaking(coins, _) => match self.add_unconstrained(*coins) {
                Ok(()) => Ok(()),
                Err(e) => Err(ConnectTransactionError::IOPolicyError(e)),
            },
            TxOutput::CreateDelegationId(_, _) => Ok(()),
            TxOutput::CreateStakePool(pool_id, _) | TxOutput::ProduceBlockFromStake(_, pool_id) => {
                let block_distance = chain_config.decommission_pool_maturity_distance(block_height);
                let pledged_amount = match pos_accounting_view.get_pool_data(*pool_id) {
                    Ok(Some(data)) => data.pledge_amount(),
                    Ok(None) => {
                        return Err(ConnectTransactionError::PoolDataNotFound(*pool_id));
                    },
                    Err(_) => {
                        return Err(ConnectTransactionError::PoSAccountingError(Error::ViewFail));
                    },
                };
                match self.add_to_bucket(block_distance, pledged_amount) {
                    Ok(()) => Ok(()),
                    Err(e) => Err(ConnectTransactionError::IOPolicyError(e)),
                }
            },
        }
    }

    /// Accounts one account-based input: a delegation withdrawal adds its
    /// spend amount behind the spend-share maturity distance.
    pub fn process_input_from_account(
        &mut self,
        chain_config: &ChainConfig,
        block_height: BlockHeight,
        account: &AccountOutPoint,
    ) -> (r: Result<(), ConnectTransactionError>)
        requires
            old(self).wf(),
        ensures
            final(self).wf(),
            match spec_process_input_from_account(
                old(self).unconstrained(),
                old(self).buckets(),
                *chain_config,
                *account,
            ) {
                Ok((u2, s2)) => r is Ok && final(self).unconstrained() == u2 && final(self).buckets() == s2,
                Err(e) => r == Err::<(), ConnectTransactionError>(e) && final(self).unconstrained()
                    == old(self).unconstrained() && final(self).buckets() == old(self).buckets(),
            },
    {
        match account.account() {
            AccountSpending::Delegation(_, spend_amount) => {
                let block_distance = chain_config.spend_share_maturity_distance(block_height);
                match self.add_to_bucket(block_distance, *spend_amount) {
                    Ok(()) => Ok(()),
                    Err(e) => Err(ConnectTransactionError::IOPolicyError(e)),
                }
            },
        }
    }

    /// Accounts one produced output. Plain transfers, burns and staking
    /// outputs draw on the unconstrained total; an output locked by a block
    /// count must be satisfied from the buckets whose required distance it
    /// meets, longest first, and only the remainder may draw on the
    /// unconstrained total. On any rejection the accumulator is unchanged.
    pub fn process_output(&mut self, output: &TxOutput) -> (r: Result<(), ConnectTransactionError>)
        requires
            old(self).wf(),
        ensures
            final(self).wf(),
            match spec_process_output(old(self).unconstrained(), old(self).buckets(), *output) {
                Ok((u2, s2)) => r is Ok && final(self).unconstrained() == u2 && final(self).buckets() == s2,
                Err(e) => r == Err::<(), ConnectTransactionError>(e) && final(self).unconstrained()
                    == old(self).unconstrained() && final(self).buckets() == old(self).buckets(),
            },
    {
        match output {
            TxOutput::Transfer(value, _) | TxOutput::Burn(value) => {
                match value.coin_amount() {
                    Some(coins) => match self.spend_unconstrained(coins) {
                        Ok(()) => Ok(()),
                        Err(e) => Err(ConnectTransactionError::IOPolicyError(e)),
                    },
                    None => Ok(()),
                }
            },
            TxOutput::DelegateStaking(coins, _) => match self.spend_unconstrained(*coins) {
                Ok(()) => Ok(()),
                Err(e) => Err(ConnectTransactionError::IOPolicyError(e)),
            },
            TxOutput::CreateStakePool(_, data) => match self.spend_unconstrained(data.value()) {
                Ok(()) => Ok(()),
                Err(e) => Err(ConnectTransactionError::IOPolicyError(e)),
            },
            TxOutput::ProduceBlockFromStake(_, _) | TxOutput::CreateDelegationId(_, _) => Ok(()),
            TxOutput::LockThenTransfer(value, _, timelock) => match timelock {
                OutputTimeLock::UntilHeight(_) | OutputTimeLock::UntilTime(_)
                    | OutputTimeLock::ForSeconds(_) => Ok(()),
                OutputTimeLock::ForBlockCount(block_count) => {
                    if *block_count > i64::MAX as u64 {
                        return Err(ConnectTransactionError::BlockHeightArithmeticError);
                    }
                    let distance = BlockDistance::new(*block_count as i64);
                    match value.coin_amount() {
                        Some(coins) => match self.spend_locked(distance, coins) {
                            Ok(()) => Ok(()),
                            Err(e) => Err(ConnectTransactionError::IOPolicyError(e)),
                        },
                        None => Ok(()),
                    }
                },
            },
        }
    }

    /// Returns the accumulated amount that is left — the transaction's fee.
    pub fn consume(self) -> (r: Result<Amount, IOPolicyError>)
        requires
            self.wf(),
        ensures
            match r {
                Ok(total) => self.total() <= u128::MAX && total.atoms == self.total(),
                Err(e) => e == IOPolicyError::AmountOverflow && self.total() > u128::MAX,
            },
    {
        proof {
            self.lemma_nonneg();
        }
        let ghost b = self.buckets();
        let n = self.timelock_constrained.len();
        let mut acc = Amount::zero();
        let mut i: usize = 0;
        while i < n
            invariant
                n == self.timelock_constrained@.len(),
                i <= n,
                b == self.buckets(),
                buckets_nonneg(b),
                acc.atoms == sum_amounts(b.take(i as int)),
            decreases n - i,
        {
            let e = self.timelock_constrained[i];
            proof {
                assert(b.take(i + 1 as int).drop_last() =~= b.take(i as int));
                assert(b.take(i + 1 as int).last() == (e.distance.distance as int,
                e.amount.atoms as int));
            }
            acc = match acc.checked_add(e.amount) {
                Some(sum) => sum,
                None => {
                    proof {
                        lemma_sum_take(b, i + 1 as int);
                    }
                    return Err(IOPolicyError::AmountOverflow);
                },
            };
            i = i + 1;
        }
        proof {
            assert(b.take(n as int) =~= b);
        }
        match acc.checked_add(self.unconstrained_value) {
            Some(total) => Ok(total),
            None => Err(IOPolicyError::AmountOverflow),
        }
    }
}

} // verus!
