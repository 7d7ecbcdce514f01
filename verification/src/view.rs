//! The read-only accounting interface and its backing stores.
//!
//! Every backing store — the in-memory store, the database view over it and
//! the delta overlay — answers the same queries. Absence means "never
//! existed or been fully undone", never "zero balance".

use vstd::prelude::*;
use crate::amount::{Amount, SignedAmount};
use crate::collections::{MapKey, VecMap};
use crate::error::Error;
use crate::pool_types::{DelegationData, PoolData, ShareKey};
use crate::primitives::H256;

verus! {

/// The value stored for `k`, if any.
pub open spec fn map_get<K, V>(m: Map<K, V>, k: K) -> Option<V> {
    if m.dom().contains(k) {
        Some(m[k])
    } else {
        None
    }
}

/// The shares of one pool, keyed by delegation identifier.
pub open spec fn pool_shares_of(shares: Map<ShareKey, Amount>, pool_id: H256) -> Map<
    H256,
    Amount,
> {
    Map::new(
        |d: H256| shares.dom().contains(ShareKey { pool_id, delegation_id: d }),
        |d: H256| shares[ShareKey { pool_id, delegation_id: d }],
    )
}

/// How a parent's absolute amount combines with a local signed delta:
/// a missing parent counts as zero, a missing delta as zero, the sum is
/// overflow-checked, and a negative combined balance is a fatal invariant
/// violation of the layered state.
pub open spec fn spec_combine_amount(p: Option<Amount>, d: Option<SignedAmount>) -> Result<
    Option<Amount>,
    Error,
> {
    match (p, d) {
        (None, None) => Ok(None),
        (None, Some(dl)) => if dl.atoms < 0 {
            Err(Error::ArithmeticErrorSumToUnsignedFailed)
        } else {
            Ok(Some(Amount { atoms: dl.atoms as u128 }))
        },
        (Some(pa), None) => Ok(Some(pa)),
        (Some(pa), Some(dl)) => if pa.atoms > i128::MAX {
            Err(Error::ArithmeticErrorToSignedFailed)
        } else if !(i128::MIN <= pa.atoms + dl.atoms <= i128::MAX) {
            Err(Error::AmountOverflow)
        } else if pa.atoms + dl.atoms < 0 {
            Err(Error::ArithmeticErrorSumToUnsignedFailed)
        } else {
            Ok(Some(Amount { atoms: (pa.atoms + dl.atoms) as u128 }))
        },
    }
}

/// Combines a parent's absolute amount with a local signed delta.
pub fn combine_amount_delta(parent: &Option<Amount>, delta: &Option<SignedAmount>) -> (r: Result<
    Option<Amount>,
    Error,
>)
    ensures
        r == spec_combine_amount(*parent, *delta),
{
    match (parent, delta) {
        (None, None) => Ok(None),
        (None, Some(dl)) => {
            if dl.atoms < 0 {
                Err(Error::ArithmeticErrorSumToUnsignedFailed)
            } else {
                Ok(Some(Amount { atoms: dl.atoms as u128 }))
            }
        },
        (Some(pa), None) => Ok(Some(*pa)),
        (Some(pa), Some(dl)) => {
            if pa.atoms > i128::MAX as u128 {
                Err(Error::ArithmeticErrorToSignedFailed)
            } else {
                match (pa.atoms as i128).checked_add(dl.atoms) {
                    None => Err(Error::AmountOverflow),
                    Some(sum) => {
                        if sum < 0 {
                            Err(Error::ArithmeticErrorSumToUnsignedFailed)
                        } else {
                            Ok(Some(Amount { atoms: sum as u128 }))
                        }
                    },
                }
            }
        },
    }
}

/// Read access to pool and delegation state. `consistent()` holds of a store
/// whose answers agree with the abstract maps; a store backed by failing
/// storage, or a delta layer conflicting with its parent, may answer `Err`.
pub trait PoSAccountingView: Sized {
    spec fn consistent(&self) -> bool;

    spec fn pools(&self) -> Map<H256, PoolData>;

    spec fn pool_balances(&self) -> Map<H256, Amount>;

    spec fn delegations(&self) -> Map<H256, DelegationData>;

    spec fn delegation_balances(&self) -> Map<H256, Amount>;

    spec fn shares(&self) -> Map<ShareKey, Amount>;

    fn pool_exists(&self, pool_id: H256) -> (r: Result<bool, Error>)
        ensures
            self.consistent() ==> r == Ok::<bool, Error>(self.pools().dom().contains(pool_id)),
    ;

    fn get_pool_data(&self, pool_id: H256) -> (r: Result<Option<PoolData>, Error>)
        ensures
            self.consistent() ==> r == Ok::<Option<PoolData>, Error>(
                map_get(self.pools(), pool_id),
            ),
    ;

    fn get_pool_balance(&self, pool_id: H256) -> (r: Result<Option<Amount>, Error>)
        ensures
            self.consistent() ==> r == Ok::<Option<Amount>, Error>(
                map_get(self.pool_balances(), pool_id),
            ),
    ;

    fn get_delegation_data(&self, delegation_id: H256) -> (r: Result<Option<DelegationData>, Error>)
        ensures
            self.consistent() ==> r == Ok::<Option<DelegationData>, Error>(
                map_get(self.delegations(), delegation_id),
            ),
    ;

    fn get_delegation_id_balance(&self, delegation_id: H256) -> (r: Result<Option<Amount>, Error>)
        ensures
            self.consistent() ==> r == Ok::<Option<Amount>, Error>(
                map_get(self.delegation_balances(), delegation_id),
            ),
    ;

    fn get_delegation_share(&self, pool_id: H256, delegation_id: H256) -> (r: Result<
        Option<Amount>,
        Error,
    >)
        ensures
            self.consistent() ==> r == Ok::<Option<Amount>, Error>(
                map_get(self.shares(), ShareKey { pool_id, delegation_id }),
            ),
    ;

    fn get_delegation_shares(&self, pool_id: H256) -> (r: Result<
        Option<VecMap<H256, Amount>>,
        Error,
    >)
        ensures
            self.consistent() ==> match r {
                Ok(Some(m)) => m.wf() && m@ == pool_shares_of(self.shares(), pool_id) && m@
                    != Map::<H256, Amount>::empty(),
                Ok(None) => pool_shares_of(self.shares(), pool_id) == Map::<H256, Amount>::empty(),
                Err(_) => false,
            },
    ;
}

/// Collects the shares of one pool out of the full share map.
pub fn collect_pool_shares(shares: &VecMap<ShareKey, Amount>, pool_id: H256) -> (r: VecMap<
    H256,
    Amount,
>)
    ensures
        r.wf(),
        r@ == pool_shares_of(shares@, pool_id),
{
    let keys = shares.keys();
    let ghost ks = keys@;
    let mut result: VecMap<H256, Amount> = VecMap::new();
    let n = keys.len();
    let mut i: usize = 0;
    while i < n
        invariant
            result.wf(),
            n == ks.len(),
            i <= n,
            keys@ == ks,
            forall|a: int| 0 <= a < ks.len() ==> #[trigger] shares@.dom().contains(ks[a]),
            forall|k: ShareKey| shares@.dom().contains(k) ==> exists|a: int|
                0 <= a < ks.len() && ks[a] == k,
            forall|d: H256| #[trigger] result@.dom().contains(d) <==> exists|a: int|
                0 <= a < i && ks[a] == (ShareKey { pool_id, delegation_id: d }),
            forall|d: H256| result@.dom().contains(d) ==> #[trigger] result@[d] == shares@[(
            ShareKey { pool_id, delegation_id: d })],
        decreases n - i,
    {
        let k = keys[i];
        if k.pool_id.key_eq(&pool_id) {
            match shares.get_copied(&k) {
                Some(amount) => {
                    result.insert(k.delegation_id, amount);
                    proof {
                        assert(k == (ShareKey { pool_id, delegation_id: k.delegation_id }));
                    }
                },
                None => {
                    proof {
                        assert(false);
                    }
                },
            }
        }
        i = i + 1;
    }
    proof {
        assert(result@ =~= pool_shares_of(shares@, pool_id));
    }
    result
}

/// The in-memory accounting store: absolute pool and delegation state held
/// in plain maps.
pub struct InMemoryPoSAccounting {
    pub pool_data: VecMap<H256, PoolData>,
    pub pool_balances: VecMap<H256, Amount>,
    pub pool_delegation_shares: VecMap<ShareKey, Amount>,
    pub delegation_balances: VecMap<H256, Amount>,
    pub delegation_data: VecMap<H256, DelegationData>,
}

impl InMemoryPoSAccounting {
    pub open spec fn wf(&self) -> bool {
        &&& self.pool_data.wf()
        &&& self.pool_balances.wf()
        &&& self.pool_delegation_shares.wf()
        &&& self.delegation_balances.wf()
        &&& self.delegation_data.wf()
    }

    pub fn new() -> (r: Self)
        ensures
            r.wf(),
            r.pools() == Map::<H256, PoolData>::empty(),
            r.pool_balances() == Map::<H256, Amount>::empty(),
            r.delegations() == Map::<H256, DelegationData>::empty(),
            r.delegation_balances() == Map::<H256, Amount>::empty(),
            r.shares() == Map::<ShareKey, Amount>::empty(),
    {
        InMemoryPoSAccounting {
            pool_data: VecMap::new(),
            pool_balances: VecMap::new(),
            pool_delegation_shares: VecMap::new(),
            delegation_balances: VecMap::new(),
            delegation_data: VecMap::new(),
        }
    }

    /// An entry-by-entry copy of the store.
    pub fn duplicate(&self) -> (r: Self)
        requires
            self.wf(),
        ensures
            r.wf(),
            r.pools() == self.pools(),
            r.pool_balances() == self.pool_balances(),
            r.delegations() == self.delegations(),
            r.delegation_balances() == self.delegation_balances(),
            r.shares() == self.shares(),
    {
        InMemoryPoSAccounting {
            pool_data: self.pool_data.duplicate(),
            pool_balances: self.pool_balances.duplicate(),
            pool_delegation_shares: self.pool_delegation_shares.duplicate(),
            delegation_balances: self.delegation_balances.duplicate(),
            delegation_data: self.delegation_data.duplicate(),
        }
    }

    pub fn from_values(
        pool_data: VecMap<H256, PoolData>,
        pool_balances: VecMap<H256, Amount>,
        pool_delegation_shares: VecMap<ShareKey, Amount>,
        delegation_balances: VecMap<H256, Amount>,
        delegation_data: VecMap<H256, DelegationData>,
    ) -> (r: Self)
        requires
            pool_data.wf(),
            pool_balances.wf(),
            pool_delegation_shares.wf(),
            delegation_balances.wf(),
            delegation_data.wf(),
        ensures
            r.wf(),
            r.pools() == pool_data@,
            r.pool_balances() == pool_balances@,
            r.shares() == pool_delegation_shares@,
            r.delegation_balances() == delegation_balances@,
            r.delegations() == delegation_data@,
    {
        InMemoryPoSAccounting {
            pool_data,
            pool_balances,
            pool_delegation_shares,
            delegation_balances,
            delegation_data,
        }
    }
}

impl PoSAccountingView for InMemoryPoSAccounting {
    open spec fn consistent(&self) -> bool {
        self.wf()
    }

    open spec fn pools(&self) -> Map<H256, PoolData> {
        self.pool_data@
    }

    open spec fn pool_balances(&self) -> Map<H256, Amount> {
        self.pool_balances@
    }

    open spec fn delegations(&self) -> Map<H256, DelegationData> {
        self.delegation_data@
    }

    open spec fn delegation_balances(&self) -> Map<H256, Amount> {
        self.delegation_balances@
    }

    open spec fn shares(&self) -> Map<ShareKey, Amount> {
        self.pool_delegation_shares@
    }

    fn pool_exists(&self, pool_id: H256) -> (r: Result<bool, Error>) {
        Ok(self.pool_data.contains_key(&pool_id))
    }

    fn get_pool_data(&self, pool_id: H256) -> (r: Result<Option<PoolData>, Error>) {
        Ok(self.pool_data.get_copied(&pool_id))
    }

    fn get_pool_balance(&self, pool_id: H256) -> (r: Result<Option<Amount>, Error>) {
        Ok(self.pool_balances.get_copied(&pool_id))
    }

    fn get_delegation_data(&self, delegation_id: H256) -> (r: Result<
        Option<DelegationData>,
        Error,
    >) {
        Ok(self.delegation_data.get_copied(&delegation_id))
    }

    fn get_delegation_id_balance(&self, delegation_id: H256) -> (r: Result<Option<Amount>, Error>) {
        Ok(self.delegation_balances.get_copied(&delegation_id))
    }

    fn get_delegation_share(&self, pool_id: H256, delegation_id: H256) -> (r: Result<
        Option<Amount>,
        Error,
    >) {
        Ok(self.pool_delegation_shares.get_copied(&ShareKey { pool_id, delegation_id }))
    }

    fn get_delegation_shares(&self, pool_id: H256) -> (r: Result<
        Option<VecMap<H256, Amount>>,
        Error,
    >) {
        let m = collect_pool_shares(&self.pool_delegation_shares, pool_id);
        if m.is_empty() {
            Ok(None)
        } else {
            Ok(Some(m))
        }
    }
}

/// A database view over a backing store; the storage collaborator of the
/// chainstate, here reading an in-memory store.
pub struct PoSAccountingDB<'a> {
    pub store: &'a InMemoryPoSAccounting,
}

impl<'a> PoSAccountingDB<'a> {
    pub fn new(store: &'a InMemoryPoSAccounting) -> (r: Self)
        ensures
            r.store == store,
    {
        PoSAccountingDB { store }
    }
}

impl<'a> PoSAccountingView for PoSAccountingDB<'a> {
    open spec fn consistent(&self) -> bool {
        self.store.consistent()
    }

    open spec fn pools(&self) -> Map<H256, PoolData> {
        self.store.pools()
    }

    open spec fn pool_balances(&self) -> Map<H256, Amount> {
        self.store.pool_balances()
    }

    open spec fn delegations(&self) -> Map<H256, DelegationData> {
        self.store.delegations()
    }

    open spec fn delegation_balances(&self) -> Map<H256, Amount> {
        self.store.delegation_balances()
    }

    open spec fn shares(&self) -> Map<ShareKey, Amount> {
        self.store.shares()
    }

    fn pool_exists(&self, pool_id: H256) -> (r: Result<bool, Error>) {
        self.store.pool_exists(pool_id)
    }

    fn get_pool_data(&self, pool_id: H256) -> (r: Result<Option<PoolData>, Error>) {
        self.store.get_pool_data(pool_id)
    }

    fn get_pool_balance(&self, pool_id: H256) -> (r: Result<Option<Amount>, Error>) {
        self.store.get_pool_balance(pool_id)
    }

    fn get_delegation_data(&self, delegation_id: H256) -> (r: Result<
        Option<DelegationData>,
        Error,
    >) {
        self.store.get_delegation_data(delegation_id)
    }

    fn get_delegation_id_balance(&self, delegation_id: H256) -> (r: Result<Option<Amount>, Error>) {
        self.store.get_delegation_id_balance(delegation_id)
    }

    fn get_delegation_share(&self, pool_id: H256, delegation_id: H256) -> (r: Result<
        Option<Amount>,
        Error,
    >) {
        self.store.get_delegation_share(pool_id, delegation_id)
    }

    fn get_delegation_shares(&self, pool_id: H256) -> (r: Result<
        Option<VecMap<H256, Amount>>,
        Error,
    >) {
        self.store.get_delegation_shares(pool_id)
    }
}

} // verus!
