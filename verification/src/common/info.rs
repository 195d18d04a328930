//! The accounts a market operation needs.
use vstd::prelude::*;
use crate::address::Address;
use crate::seq_util::{lemma_take_all, lemma_take_succ};

verus! {

/// Metadata of a market.
#[derive(Clone, Copy, Debug, PartialEq, Eq, Structural)]
pub struct MarketMetadata {
    /// The decimals of the underlying asset/position.
    pub decimals: u8,
    /// The cache index for this market.
    pub cache_index: u16,
    /// The base multiplier or base lot size of the market.
    pub base_multiplier: u64,
    /// The quote multiplier or quote lot size of the market.
    pub quote_multiplier: u64,
}

/// The accounts of a perpetual market.
pub struct PerpMarketInfo {
    pub market: Address,
    pub orderbook: Address,
    pub bids: Address,
    pub asks: Address,
    pub event_queue: Address,
    pub orders: Address,
    pub quote_pool: Address,
    pub quote_pool_nodes: Vec<Address>,
}

/// The accounts of a futures market.
pub struct FuturesMarketInfo {
    pub market: Address,
    pub orderbook: Address,
    pub bids: Address,
    pub asks: Address,
    pub event_queue: Address,
    pub price_history: Address,
    pub orders: Address,
    pub quote_pool: Address,
    pub quote_pool_nodes: Vec<Address>,
}

/// The accounts of a spot market.
pub struct SpotMarketInfo {
    pub market: Address,
    pub bids: Address,
    pub asks: Address,
    pub event_queue: Address,
    pub request_queue: Address,
    pub asset_mint: Address,
    pub asset_vault: Address,
    pub asset_vault_signer: Address,
    pub quote_vault: Address,
    pub quote_vault_signer: Address,
    pub open_orders: Address,
    pub quote_pool: Address,
    pub dex_coin_vault: Address,
    pub dex_pc_vault: Address,
    pub dex_vault_signer: Address,
    pub quote_pool_nodes: Vec<Address>,
    pub asset_pool: Address,
    pub asset_pool_nodes: Vec<Address>,
}

/// The accounts of the market an operation works on.
pub enum Accounts {
    Futures(FuturesMarketInfo),
    Perpetuals(PerpMarketInfo),
    Spot(SpotMarketInfo),
}

impl Default for PerpMarketInfo {
    /// All addresses unset, no pool nodes.
    fn default() -> (r: Self)
        ensures
            r.market.is_zero(),
            r.orderbook.is_zero(),
            r.bids.is_zero(),
            r.asks.is_zero(),
            r.event_queue.is_zero(),
            r.orders.is_zero(),
            r.quote_pool.is_zero(),
            r.quote_pool_nodes@.len() == 0,
    {
        PerpMarketInfo {
            market: Address::zero(),
            orderbook: Address::zero(),
            bids: Address::zero(),
            asks: Address::zero(),
            event_queue: Address::zero(),
            orders: Address::zero(),
            quote_pool: Address::zero(),
            quote_pool_nodes: Vec::new(),
        }
    }
}

impl Default for FuturesMarketInfo {
    /// All addresses unset, no pool nodes.
    fn default() -> (r: Self)
        ensures
            r.market.is_zero(),
            r.orderbook.is_zero(),
            r.bids.is_zero(),
            r.asks.is_zero(),
            r.event_queue.is_zero(),
            r.price_history.is_zero(),
            r.orders.is_zero(),
            r.quote_pool.is_zero(),
            r.quote_pool_nodes@.len() == 0,
    {
        FuturesMarketInfo {
            market: Address::zero(),
            orderbook: Address::zero(),
            bids: Address::zero(),
            asks: Address::zero(),
            event_queue: Address::zero(),
            price_history: Address::zero(),
            orders: Address::zero(),
            quote_pool: Address::zero(),
            quote_pool_nodes: Vec::new(),
        }
    }
}

impl Default for SpotMarketInfo {
    /// All addresses unset, no pool nodes.
    fn default() -> (r: Self)
        ensures
            r.market.is_zero(),
            r.bids.is_zero(),
            r.asks.is_zero(),
            r.event_queue.is_zero(),
            r.request_queue.is_zero(),
            r.asset_mint.is_zero(),
            r.asset_vault.is_zero(),
            r.asset_vault_signer.is_zero(),
            r.quote_vault.is_zero(),
            r.quote_vault_signer.is_zero(),
            r.open_orders.is_zero(),
            r.quote_pool.is_zero(),
            r.dex_coin_vault.is_zero(),
            r.dex_pc_vault.is_zero(),
            r.dex_vault_signer.is_zero(),
            r.asset_pool.is_zero(),
            r.quote_pool_nodes@.len() == 0,
            r.asset_pool_nodes@.len() == 0,
    {
        SpotMarketInfo {
            market: Address::zero(),
            bids: Address::zero(),
            asks: Address::zero(),
            event_queue: Address::zero(),
            request_queue: Address::zero(),
            asset_mint: Address::zero(),
            asset_vault: Address::zero(),
            asset_vault_signer: Address::zero(),
            quote_vault: Address::zero(),
            quote_vault_signer: Address::zero(),
            open_orders: Address::zero(),
            quote_pool: Address::zero(),
            dex_coin_vault: Address::zero(),
            dex_pc_vault: Address::zero(),
            dex_vault_signer: Address::zero(),
            asset_pool: Address::zero(),
            quote_pool_nodes: Vec::new(),
            asset_pool_nodes: Vec::new(),
        }
    }
}

impl Default for Accounts {
    /// The accounts of a futures market, all unset.
    fn default() -> (r: Self)
        ensures
            r matches Accounts::Futures(f) && f.market.is_zero() && f.quote_pool_nodes@.len() == 0,
    {
        Accounts::Futures(FuturesMarketInfo::default())
    }
}

/// Information about a market operation.
pub struct ContextInfo {
    /// The symbol of the market.
    pub symbol: String,
    /// Metadata related to the market.
    pub market_metadata: MarketMetadata,
    /// The market accounts necessary to operate on the market.
    pub context_accounts: Accounts,
}

fn append_all(out: &mut Vec<Address>, extra: &Vec<Address>)
    ensures
        final(out)@ == old(out)@ + extra@,
{
    let ghost start = out@;
    for k in 0..extra.len()
        invariant
            out@ == start + extra@.take(k as int),
    {
        out.push(extra[k]);
        proof {
            assert(out@ =~= start + extra@.take(k + 1));
        }
    }
    proof {
        lemma_take_all(extra@);
    }
}

impl PerpMarketInfo {
    /// The market's accounts to watch, in order: market, orderbook, bids,
    /// asks, event queue, orders, quote pool, then the quote pool nodes.
    pub fn to_accounts_vec(&self) -> (r: Vec<Address>)
        ensures
            r@ == seq![
                self.market,
                self.orderbook,
                self.bids,
                self.asks,
                self.event_queue,
                self.orders,
                self.quote_pool,
            ] + self.quote_pool_nodes@,
    {
        let mut accounts = vec![
            self.market,
            self.orderbook,
            self.bids,
            self.asks,
            self.event_queue,
            self.orders,
            self.quote_pool,
        ];
        append_all(&mut accounts, &self.quote_pool_nodes);
        accounts
    }
}

impl FuturesMarketInfo {
    /// The market's accounts to watch, in order: market, orderbook, bids,
    /// asks, event queue, orders, quote pool, price history, then the quote
    /// pool nodes.
    pub fn to_accounts_vec(&self) -> (r: Vec<Address>)
        ensures
            r@ == seq![
                self.market,
                self.orderbook,
                self.bids,
                self.asks,
                self.event_queue,
                self.orders,
                self.quote_pool,
                self.price_history,
            ] + self.quote_pool_nodes@,
    {
        let mut accounts = vec![
            self.market,
            self.orderbook,
            self.bids,
            self.asks,
            self.event_queue,
            self.orders,
            self.quote_pool,
            self.price_history,
        ];
        append_all(&mut accounts, &self.quote_pool_nodes);
        accounts
    }
}

impl SpotMarketInfo {
    /// The market's accounts to watch, in order: market, bids, asks, event
    /// queue, open orders, quote pool, asset pool, then the quote pool nodes
    /// and the asset pool nodes.
    pub fn to_accounts_vec(&self) -> (r: Vec<Address>)
        ensures
            r@ == seq![
                self.market,
                self.bids,
                self.asks,
                self.event_queue,
                self.open_orders,
                self.quote_pool,
                self.asset_pool,
            ] + self.quote_pool_nodes@ + self.asset_pool_nodes@,
    {
        let mut accounts = vec![
            self.market,
            self.bids,
            self.asks,
            self.event_queue,
            self.open_orders,
            self.quote_pool,
            self.asset_pool,
        ];
        append_all(&mut accounts, &self.quote_pool_nodes);
        append_all(&mut accounts, &self.asset_pool_nodes);
        accounts
    }
}

/// The accounts of a market, as [`ContextInfo::context_accounts`] lists them.
pub open spec fn accounts_of(a: &Accounts) -> Seq<Address> {
    match a {
        Accounts::Futures(f) => seq![
            f.market,
            f.orderbook,
            f.bids,
            f.asks,
            f.event_queue,
            f.orders,
            f.quote_pool,
            f.price_history,
        ] + f.quote_pool_nodes@,
        Accounts::Perpetuals(p) => seq![
            p.market,
            p.orderbook,
            p.bids,
            p.asks,
            p.event_queue,
            p.orders,
            p.quote_pool,
        ] + p.quote_pool_nodes@,
        Accounts::Spot(s) => seq![
            s.market,
            s.bids,
            s.asks,
            s.event_queue,
            s.open_orders,
            s.quote_pool,
            s.asset_pool,
        ] + s.quote_pool_nodes@ + s.asset_pool_nodes@,
    }
}

impl ContextInfo {
    /// The accounts of the market the operation works on.
    pub fn context_accounts(&self) -> (r: Vec<Address>)
        ensures
            r@ == accounts_of(&self.context_accounts),
    {
        match &self.context_accounts {
            Accounts::Futures(f) => f.to_accounts_vec(),
            Accounts::Perpetuals(p) => p.to_accounts_vec(),
            Accounts::Spot(s) => s.to_accounts_vec(),
        }
    }
}

} // verus!
