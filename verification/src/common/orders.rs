//! Orders as the market maker tracks them.
use vstd::prelude::*;
use crate::fixed_point::Fixed;

verus! {

/// The side of an order.
#[derive(Clone, Copy, Debug, PartialEq, Eq, Structural)]
pub enum Side {
    Bid,
    Ask,
}

/// An order resting on the book, as read from the market's open orders.
#[derive(Clone, Copy, Debug, PartialEq, Eq, Structural)]
pub struct Order {
    /// The price, in lots.
    pub price: u64,
    /// The base quantity, in lots.
    pub base_quantity: u64,
    /// The quote quantity, in lots.
    pub quote_quantity: u64,
    /// The time in force timestamp.
    pub max_ts: u64,
    /// The client order id.
    pub client_order_id: u64,
    /// The order id.
    pub order_id: u128,
    /// The side.
    pub side: Side,
}

/// An order that should be cancelled.
#[derive(Clone, Copy, Debug, PartialEq, Eq, Structural)]
pub struct CandidateCancel {
    /// The order's id.
    pub order_id: u128,
    /// The order's client id.
    pub client_order_id: u64,
    /// The order's side.
    pub side: Side,
    /// The layer that this order represents.
    pub layer: usize,
}

/// An order that should be placed.
#[derive(Clone, Copy, Debug, PartialEq, Eq, Structural)]
pub struct CandidatePlacement {
    /// The order's price.
    pub price: Fixed,
    /// The order's base quantity.
    pub base_quantity: Fixed,
    /// The order's max quote quantity.
    pub max_quote_quantity: Fixed,
    /// The order's time in force timestamp.
    pub max_ts: u64,
    /// The order's client id.
    pub client_order_id: u64,
    /// The order's side.
    pub side: Side,
    /// The layer that this order represents.
    pub layer: usize,
}

/// A cancel that was submitted and is not confirmed yet.
#[derive(Clone, Copy, Debug, PartialEq, Eq, Structural)]
pub struct InflightCancel {
    /// The order id.
    pub order_id: u128,
    /// The client order id.
    pub client_order_id: u64,
    /// The order side.
    pub side: Side,
    /// The cancel's transaction submission timestamp.
    pub submitted_at: u64,
}

/// An order placed by the maker.
#[derive(Clone, Copy, Debug, PartialEq, Eq, Structural)]
pub struct ManagedOrder {
    /// The order's price, in lots.
    pub price_lots: u64,
    /// The order's max base quantity, in lots.
    pub base_quantity_lots: u64,
    /// The order's max quote quantity, in lots.
    pub quote_quantity_lots: u64,
    /// The order's price.
    pub price: Fixed,
    /// The order's base quantity.
    pub base_quantity: Fixed,
    /// The order's max quote quantity.
    pub max_quote_quantity: Fixed,
    /// The order's time in force timestamp.
    pub max_ts: u64,
    /// The order's transaction submission timestamp.
    pub submitted_at: u64,
    /// The order's client id.
    pub client_order_id: u64,
    /// The order's id.
    pub order_id: u128,
    /// The side of the order.
    pub side: Side,
    /// The layer of the order.
    pub layer: usize,
}

/// Confirmed and in-flight orders of a maker.
#[derive(Clone, Debug)]
pub struct OrdersInfo {
    pub open_orders: Vec<ManagedOrder>,
    pub inflight_cancels: Vec<InflightCancel>,
    pub inflight_orders: Vec<ManagedOrder>,
}

} // verus!
