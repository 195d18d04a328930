//! Decisions of the context builders and managers: which account an update
//! is for, and when an execution context may be sent.
use vstd::prelude::*;
use crate::address::Address;
use crate::fixed_point::Fixed;

verus! {

/// Errors of the context builders.
#[derive(Debug)]
pub enum ContextBuilderError {
    /// An operation context could not be sent.
    OperationContextSendError,
    /// A global context could not be sent.
    GlobalContextSendError,
    /// An account's data could not be read.
    ProcessUpdateError(String),
    /// An update came for an account the builder does not watch.
    UnrecognizedAccount(Address),
}

/// Whether an execution context may be sent yet.
#[derive(Clone, Copy, Debug, PartialEq, Eq, Structural)]
pub enum ContextReadiness {
    /// No oracle price has been received.
    AwaitingOraclePrice,
    /// The user's account is not loaded.
    AwaitingAccount,
    /// The user's sub accounts are not loaded.
    AwaitingSubAccounts,
    /// Everything is in place.
    Ready,
}

/// An execution context is held back until an oracle price has arrived,
/// then until the user's account is loaded, then until its sub accounts
/// are loaded.
pub fn execution_context_readiness(
    oracle_price: Fixed,
    account_authority: Address,
    sub_account_count: usize,
) -> (r: ContextReadiness)
    ensures
        r == (if oracle_price.val() == 0 {
            ContextReadiness::AwaitingOraclePrice
        } else if account_authority.is_zero() {
            ContextReadiness::AwaitingAccount
        } else if sub_account_count == 0 {
            ContextReadiness::AwaitingSubAccounts
        } else {
            ContextReadiness::Ready
        }),
{
    if oracle_price.is_zero() {
        return ContextReadiness::AwaitingOraclePrice;
    }
    if account_authority.is_unset() {
        return ContextReadiness::AwaitingAccount;
    }
    if sub_account_count == 0 {
        return ContextReadiness::AwaitingSubAccounts;
    }
    ContextReadiness::Ready
}

/// The accounts a spot context builder watches.
pub struct SpotAccountKeys {
    pub market: Address,
    pub event_queue: Address,
    pub bids: Address,
    pub asks: Address,
    pub open_orders: Address,
    pub asset_pool: Address,
    pub asset_pool_nodes: Vec<Address>,
    pub quote_pool: Address,
    pub quote_pool_nodes: Vec<Address>,
}

/// Which watched account of a spot market an update is for.
#[derive(Clone, Copy, Debug, PartialEq, Eq, Structural)]
pub enum SpotAccountUpdate {
    AssetPool,
    AssetPoolNode,
    QuotePool,
    QuotePoolNode,
    EventQueue,
    Bids,
    Asks,
    OpenOrders,
}

/// The first role that fits, checked in this order: asset pool, asset pool
/// node, quote pool, quote pool node, event queue, bids, asks, open orders.
pub open spec fn spot_update_kind(keys: SpotAccountKeys, account: Address) -> Option<SpotAccountUpdate> {
    if account == keys.asset_pool {
        Some(SpotAccountUpdate::AssetPool)
    } else if keys.asset_pool_nodes@.contains(account) {
        Some(SpotAccountUpdate::AssetPoolNode)
    } else if account == keys.quote_pool {
        Some(SpotAccountUpdate::QuotePool)
    } else if keys.quote_pool_nodes@.contains(account) {
        Some(SpotAccountUpdate::QuotePoolNode)
    } else if account == keys.event_queue {
        Some(SpotAccountUpdate::EventQueue)
    } else if account == keys.bids {
        Some(SpotAccountUpdate::Bids)
    } else if account == keys.asks {
        Some(SpotAccountUpdate::Asks)
    } else if account == keys.open_orders {
        Some(SpotAccountUpdate::OpenOrders)
    } else {
        None
    }
}

fn contains_address(v: &Vec<Address>, a: Address) -> (r: bool)
    ensures
        r == v@.contains(a),
{
    for k in 0..v.len()
        invariant
            forall|j: int| 0 <= j < k ==> v@[j] != a,
    {
        if v[k] == a {
            return true;
        }
    }
    false
}

/// Which watched account of a spot market an update is for; an update for
/// any other account is refused.
pub fn classify_spot_update(keys: &SpotAccountKeys, account: Address) -> (r: Result<
    SpotAccountUpdate,
    ContextBuilderError,
>)
    ensures
        match spot_update_kind(*keys, account) {
            Some(kind) => r matches Ok(k) && k == kind,
            None => r matches Err(ContextBuilderError::UnrecognizedAccount(a)) && a == account,
        },
{
    if account == keys.asset_pool {
        return Ok(SpotAccountUpdate::AssetPool);
    }
    if contains_address(&keys.asset_pool_nodes, account) {
        return Ok(SpotAccountUpdate::AssetPoolNode);
    }
    if account == keys.quote_pool {
        return Ok(SpotAccountUpdate::QuotePool);
    }
    if contains_address(&keys.quote_pool_nodes, account) {
        return Ok(SpotAccountUpdate::QuotePoolNode);
    }
    if account == keys.event_queue {
        return Ok(SpotAccountUpdate::EventQueue);
    }
    if account == keys.bids {
        return Ok(SpotAccountUpdate::Bids);
    }
    if account == keys.asks {
        return Ok(SpotAccountUpdate::Asks);
    }
    if account == keys.open_orders {
        return Ok(SpotAccountUpdate::OpenOrders);
    }
    Err(ContextBuilderError::UnrecognizedAccount(account))
}

/// Which watched account of the global context an update is for.
#[derive(Clone, Copy, Debug, PartialEq, Eq, Structural)]
pub enum GlobalAccountUpdate {
    Cache,
    Account,
    SubAccount,
}

/// The cache account first, then the user's account, then its sub account;
/// an update for any other account is refused.
pub fn classify_global_update(
    cache_account: Address,
    user_account: Address,
    sub_account: Address,
    account: Address,
) -> (r: Result<GlobalAccountUpdate, ContextBuilderError>)
    ensures
        account == cache_account ==> r matches Ok(GlobalAccountUpdate::Cache),
        account != cache_account && account == user_account ==> r matches Ok(
            GlobalAccountUpdate::Account,
        ),
        account != cache_account && account != user_account && account == sub_account ==> r matches Ok(
            GlobalAccountUpdate::SubAccount,
        ),
        account != cache_account && account != user_account && account != sub_account ==> (r matches Err(
            ContextBuilderError::UnrecognizedAccount(a),
        ) && a == account),
{
    if account == cache_account {
        return Ok(GlobalAccountUpdate::Cache);
    }
    if account == user_account {
        return Ok(GlobalAccountUpdate::Account);
    }
    if account == sub_account {
        return Ok(GlobalAccountUpdate::SubAccount);
    }
    Err(ContextBuilderError::UnrecognizedAccount(account))
}

/// The accounts of a derivatives market an update touches; an account may
/// play several roles.
#[derive(Clone, Copy, Debug, PartialEq, Eq, Structural)]
pub struct DerivativeAccountUpdates {
    pub market: bool,
    pub event_queue: bool,
    pub bids: bool,
    pub asks: bool,
    pub open_orders: bool,
}

/// Every role of a derivatives market that the updated account plays.
pub fn classify_derivative_update(
    market: Address,
    event_queue: Address,
    bids: Address,
    asks: Address,
    open_orders: Address,
    account: Address,
) -> (r: DerivativeAccountUpdates)
    ensures
        r == (DerivativeAccountUpdates {
            market: account == market,
            event_queue: account == event_queue,
            bids: account == bids,
            asks: account == asks,
            open_orders: account == open_orders,
        }),
{
    DerivativeAccountUpdates {
        market: account == market,
        event_queue: account == event_queue,
        bids: account == bids,
        asks: account == asks,
        open_orders: account == open_orders,
    }
}

} // verus!
