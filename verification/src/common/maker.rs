//! The market maker's decisions: which orders to quote, which resting
//! orders are expired or stale, and what to submit.
use vstd::prelude::*;
use crate::fixed_point::{Fixed, div_bits, fits, int_bits, mul_bits, scale};
use super::inventory::{QuoteVolumes, SpreadInfo};
use super::layers::{
    BPS_UNIT, ask_layers, ask_price, ask_quotes_fit, bid_layers, bid_price, bid_quotes_fit,
    layer_count_fits, layer_size, layer_step_bits, lemma_ask_layers_layout, lemma_bid_layers_layout,
    lemma_bid_price_bounds, lemma_layer_count_small,
    lemma_layer_size_fits, lemma_layer_step, lemma_size_denominator, order_size_bits,
    placement, size_denominator_bits,
};
use super::order_manager::OrderManager;
use super::order_manager::OrderTracking;
use super::orders::{
    CandidateCancel, CandidatePlacement, InflightCancel, ManagedOrder, Order, OrdersInfo, Side,
};
use crate::seq_util::{
    copy_vec, first_index, lemma_first_index_found, lemma_first_index_none, lemma_first_index_props,
    lemma_take_all,
    lemma_take_succ,
};

verus! {

/// Represents the result of a maker's pulse.
#[derive(Clone, Copy, Debug, PartialEq, Eq, Structural)]
pub struct MakerPulseResult {
    /// Number of new orders submitted.
    pub num_new_orders: usize,
    /// Number of cancelled orders.
    pub num_cancelled_orders: usize,
}

/// A market maker: its configuration and the orders it tracks.
pub struct Maker {
    /// The symbol of the market.
    pub symbol: String,
    /// The number of orders on each side of the book.
    pub order_layer_count: usize,
    /// The distance between layers, in basis points.
    pub layer_spacing_bps: u16,
    /// How long orders stay in force, in seconds.
    pub time_in_force: u64,
    /// The orders the maker tracks.
    pub order_manager: OrderManager,
}

/// `get_order_size` is defined on these inputs: every intermediate value
/// fits and the denominator is not zero.
pub open spec fn order_size_defined(count: int, layer: int, total: int, prev: int) -> bool {
    &&& fits(mul_bits(int_bits(count) - int_bits(layer) + scale(), int_bits(count)))
    &&& size_denominator_bits(count, layer) != 0
    &&& fits(div_bits(total, size_denominator_bits(count, layer)))
    &&& fits(order_size_bits(count, layer, total, prev))
}

impl Maker {
    /// The size of order layer `layer` out of `layer_count`:
    /// `total_quote_size / ((layer_count - layer + 1) * layer_count) + prev_order_size`.
    pub fn get_order_size(
        &self,
        layer_count: usize,
        layer: usize,
        total_quote_size: Fixed,
        prev_order_size: Fixed,
    ) -> (r: Fixed)
        requires
            order_size_defined(
                layer_count as int,
                layer as int,
                total_quote_size.val(),
                prev_order_size.val(),
            ),
        ensures
            r.val() == order_size_bits(
                layer_count as int,
                layer as int,
                total_quote_size.val(),
                prev_order_size.val(),
            ),
    {
        let layer_count = Fixed::from_usize(layer_count);
        let layer = Fixed::from_usize(layer);
        let denominator = layer_count.sub(layer).add(Fixed::one()).mul(layer_count);
        total_quote_size.div(denominator).add(prev_order_size)
    }

    fn layer_step(&self) -> (r: Fixed)
        ensures
            r.val() == layer_step_bits(self.layer_spacing_bps as int),
            scale() <= r.val() <= 8 * scale(),
    {
        proof {
            lemma_layer_step(self.layer_spacing_bps as int);
        }
        Fixed::from_u64(BPS_UNIT).add(Fixed::from_u64(self.layer_spacing_bps as u64)).div(
            Fixed::from_u64(BPS_UNIT),
        )
    }

    /// The bids to quote: layer one at the spread's bid, each further layer
    /// at the previous price divided by the layer step, with sizes growing
    /// towards the quote volume's bid size.
    pub fn get_new_bids(&self, quote_volumes: &QuoteVolumes, spread_info: &SpreadInfo) -> (r: Vec<
        CandidatePlacement,
    >)
        requires
            self.order_layer_count < usize::MAX,
            layer_count_fits(self.order_layer_count as int),
            bid_quotes_fit(
                spread_info.bid.val(),
                layer_step_bits(self.layer_spacing_bps as int),
                quote_volumes.bid_size.val(),
                self.order_layer_count as int,
            ),
        ensures
            r@ == new_bids_spec(self, quote_volumes, spread_info),
    {
        let num_layers = self.order_layer_count;
        let layer_bps = self.layer_step();
        let ghost c = num_layers as int;
        let ghost step = layer_bps.val();
        let ghost total = quote_volumes.bid_size.val();
        let ghost bid = spread_info.bid.val();
        proof {
            lemma_layer_count_small(c);
        }
        let mut new_orders: Vec<CandidatePlacement> = Vec::new();
        let mut prev_order_size = Fixed::zero();
        let mut prev_order_price = Fixed::zero();
        let mut i: usize = 1;
        while i <= num_layers
            invariant
                1 <= i <= num_layers + 1,
                num_layers == self.order_layer_count,
                num_layers < usize::MAX,
                c == num_layers,
                c < 0x100_0000_0000,
                layer_count_fits(c),
                step == layer_bps.val(),
                step == layer_step_bits(self.layer_spacing_bps as int),
                scale() <= step,
                total == quote_volumes.bid_size.val(),
                bid == spread_info.bid.val(),
                bid_quotes_fit(bid, step, total, c),
                prev_order_size.val() == layer_size(total, c, (i - 1) as nat),
                i > 1 ==> prev_order_price.val() == bid_price(bid, step, (i - 1) as nat),
                new_orders@ == bid_layers(bid, step, total, c, (i - 1) as nat),
            decreases num_layers + 1 - i,
        {
            proof {
                lemma_layer_size_fits(total, c, i as nat);
                lemma_size_denominator(c, i as int);
            }
            let order_size = self.get_order_size(
                num_layers,
                i,
                quote_volumes.bid_size,
                prev_order_size,
            );
            let order_price = if i == 1 {
                spread_info.bid
            } else {
                proof {
                    lemma_bid_price_bounds(bid, step, i as nat);
                }
                prev_order_price.div(layer_bps)
            };
            assert(order_price.val() == bid_price(bid, step, i as nat));
            assert(order_size.val() == layer_size(total, c, i as nat));
            assert(fits(mul_bits(bid_price(bid, step, i as nat), layer_size(total, c, i as nat))));
            let max_quote_quantity = order_price.checked_mul(order_size).unwrap();
            new_orders.push(
                CandidatePlacement {
                    price: order_price,
                    base_quantity: order_size,
                    max_quote_quantity,
                    max_ts: 0,
                    client_order_id: 0,
                    side: Side::Bid,
                    layer: i,
                },
            );
            prev_order_price = order_price;
            prev_order_size = order_size;
            i = i + 1;
        }
        new_orders
    }
}


impl Maker {
    /// The asks to quote: layer one at the spread's ask, each further layer
    /// at the previous price times the layer step, with sizes growing
    /// towards the quote volume's ask size.
    pub fn get_new_asks(&self, quote_volumes: &QuoteVolumes, spread_info: &SpreadInfo) -> (r: Vec<
        CandidatePlacement,
    >)
        requires
            self.order_layer_count < usize::MAX,
            layer_count_fits(self.order_layer_count as int),
            ask_quotes_fit(
                spread_info.ask.val(),
                layer_step_bits(self.layer_spacing_bps as int),
                quote_volumes.ask_size.val(),
                self.order_layer_count as int,
            ),
        ensures
            r@ == new_asks_spec(self, quote_volumes, spread_info),
    {
        let num_layers = self.order_layer_count;
        let layer_bps = self.layer_step();
        let ghost c = num_layers as int;
        let ghost step = layer_bps.val();
        let ghost total = quote_volumes.ask_size.val();
        let ghost ask = spread_info.ask.val();
        proof {
            lemma_layer_count_small(c);
        }
        let mut new_orders: Vec<CandidatePlacement> = Vec::new();
        let mut prev_order_size = Fixed::zero();
        let mut prev_order_price = Fixed::zero();
        let mut i: usize = 1;
        while i <= num_layers
            invariant
                1 <= i <= num_layers + 1,
                num_layers == self.order_layer_count,
                num_layers < usize::MAX,
                c == num_layers,
                c < 0x100_0000_0000,
                layer_count_fits(c),
                step == layer_bps.val(),
                step == layer_step_bits(self.layer_spacing_bps as int),
                total == quote_volumes.ask_size.val(),
                ask == spread_info.ask.val(),
                ask_quotes_fit(ask, step, total, c),
                prev_order_size.val() == layer_size(total, c, (i - 1) as nat),
                i > 1 ==> prev_order_price.val() == ask_price(ask, step, (i - 1) as nat),
                new_orders@ == ask_layers(ask, step, total, c, (i - 1) as nat),
            decreases num_layers + 1 - i,
        {
            proof {
                lemma_layer_size_fits(total, c, i as nat);
                lemma_size_denominator(c, i as int);
            }
            let order_size = self.get_order_size(
                num_layers,
                i,
                quote_volumes.ask_size,
                prev_order_size,
            );
            assert(fits(ask_price(ask, step, i as nat)));
            let order_price = if i == 1 {
                spread_info.ask
            } else {
                prev_order_price.mul(layer_bps)
            };
            assert(order_price.val() == ask_price(ask, step, i as nat));
            assert(order_size.val() == layer_size(total, c, i as nat));
            let max_quote_quantity = order_price.checked_mul(order_size).unwrap();
            new_orders.push(
                CandidatePlacement {
                    price: order_price,
                    base_quantity: order_size,
                    max_quote_quantity,
                    max_ts: 0,
                    client_order_id: 0,
                    side: Side::Ask,
                    layer: i,
                },
            );
            prev_order_price = order_price;
            prev_order_size = order_size;
            i = i + 1;
        }
        new_orders
    }

    /// The full set of quotes: every bid layer, then every ask layer.
    pub fn get_new_orders(&self, quote_volumes: &QuoteVolumes, spread_info: &SpreadInfo) -> (r:
        Vec<CandidatePlacement>)
        requires
            quotes_defined(self, quote_volumes, spread_info),
        ensures
            r@ == new_orders_spec(self, quote_volumes, spread_info),
    {
        let new_asks = self.get_new_asks(quote_volumes, spread_info);
        let mut new_bids = self.get_new_bids(quote_volumes, spread_info);
        let ghost bids = new_bids@;
        for k in 0..new_asks.len()
            invariant
                new_bids@ == bids + new_asks@.take(k as int),
        {
            new_bids.push(new_asks[k]);
            proof {
                assert(new_bids@ =~= bids + new_asks@.take(k + 1));
            }
        }
        proof {
            lemma_take_all(new_asks@);
        }
        new_bids
    }
}

/// Every layer on both sides can be computed.
pub open spec fn quotes_defined(
    maker: &Maker,
    quote_volumes: &QuoteVolumes,
    spread_info: &SpreadInfo,
) -> bool {
    let c = maker.order_layer_count as int;
    let step = layer_step_bits(maker.layer_spacing_bps as int);
    &&& maker.order_layer_count < usize::MAX
    &&& layer_count_fits(c)
    &&& bid_quotes_fit(spread_info.bid.val(), step, quote_volumes.bid_size.val(), c)
    &&& ask_quotes_fit(spread_info.ask.val(), step, quote_volumes.ask_size.val(), c)
}

/// The bids for every layer followed by the asks for every layer.
pub open spec fn new_orders_spec(
    maker: &Maker,
    quote_volumes: &QuoteVolumes,
    spread_info: &SpreadInfo,
) -> Seq<CandidatePlacement> {
    new_bids_spec(maker, quote_volumes, spread_info) + new_asks_spec(maker, quote_volumes, spread_info)
}

/// The maker's bid quotes, one per layer from the first.
pub open spec fn new_bids_spec(
    maker: &Maker,
    quote_volumes: &QuoteVolumes,
    spread_info: &SpreadInfo,
) -> Seq<CandidatePlacement> {
    let c = maker.order_layer_count as int;
    bid_layers(
        spread_info.bid.val(),
        layer_step_bits(maker.layer_spacing_bps as int),
        quote_volumes.bid_size.val(),
        c,
        c as nat,
    )
}

/// The maker's ask quotes, one per layer from the first.
pub open spec fn new_asks_spec(
    maker: &Maker,
    quote_volumes: &QuoteVolumes,
    spread_info: &SpreadInfo,
) -> Seq<CandidatePlacement> {
    let c = maker.order_layer_count as int;
    ask_layers(
        spread_info.ask.val(),
        layer_step_bits(maker.layer_spacing_bps as int),
        quote_volumes.ask_size.val(),
        c,
        c as nat,
    )
}


// ---------------------------------------------------------------------------
// Cancels, filters and the order snapshot.

/// The cancel for a tracked order.
pub open spec fn cancel_of(o: ManagedOrder) -> CandidateCancel {
    CandidateCancel {
        order_id: o.order_id,
        client_order_id: o.client_order_id,
        side: o.side,
        layer: o.layer,
    }
}

/// The order's time in force has passed, or it was taken over from the book.
pub open spec fn order_expired(o: ManagedOrder, now: u64) -> bool {
    o.max_ts < now || o.layer == usize::MAX
}

/// Cancels for the expired orders, in order.
pub open spec fn expired_cancels(orders: Seq<ManagedOrder>, now: u64) -> Seq<CandidateCancel>
    decreases orders.len(),
{
    if orders.len() == 0 {
        Seq::empty()
    } else {
        let acc = expired_cancels(orders.drop_last(), now);
        if order_expired(orders.last(), now) {
            acc.push(cancel_of(orders.last()))
        } else {
            acc
        }
    }
}

/// A candidate placement for the given layer and side.
pub open spec fn slot_pred(layer: usize, side: Side) -> spec_fn(CandidatePlacement) -> bool {
    |p: CandidatePlacement| p.layer == layer && p.side == side
}

/// The order has no candidate for its layer and side, or the first such
/// candidate has another price or size.
pub open spec fn order_stale(o: ManagedOrder, placements: Seq<CandidatePlacement>) -> bool {
    let i = first_index(placements, slot_pred(o.layer, o.side));
    i < 0 || placements[i].price != o.price || placements[i].base_quantity != o.base_quantity
}

/// Cancels for the stale orders, in order.
pub open spec fn stale_cancels(orders: Seq<ManagedOrder>, placements: Seq<CandidatePlacement>) -> Seq<
    CandidateCancel,
>
    decreases orders.len(),
{
    if orders.len() == 0 {
        Seq::empty()
    } else {
        let acc = stale_cancels(orders.drop_last(), placements);
        if order_stale(orders.last(), placements) {
            acc.push(cancel_of(orders.last()))
        } else {
            acc
        }
    }
}

/// Placement `j` is the first candidate for the order's layer and side.
pub open spec fn first_candidate_at(placements: Seq<CandidatePlacement>, o: ManagedOrder, j: int) -> bool {
    &&& 0 <= j < placements.len()
    &&& placements[j].layer == o.layer
    &&& placements[j].side == o.side
    &&& forall|i: int|
        0 <= i < j ==> !((#[trigger] placements[i]).layer == o.layer && placements[i].side == o.side)
}

proof fn lemma_stale_cancels_members(orders: Seq<ManagedOrder>, placements: Seq<CandidatePlacement>)
    ensures
        forall|x: CandidateCancel|
            #[trigger] stale_cancels(orders, placements).contains(x) <==> exists|k: int|
                0 <= k < orders.len() && order_stale(#[trigger] orders[k], placements) && x
                    == cancel_of(orders[k]),
    decreases orders.len(),
{
    if orders.len() > 0 {
        let init = orders.drop_last();
        lemma_stale_cancels_members(init, placements);
        let prev = stale_cancels(init, placements);
        let all = stale_cancels(orders, placements);
        let n = orders.len() - 1;
        assert forall|x: CandidateCancel| #[trigger] all.contains(x) <==> exists|k: int|
            0 <= k < orders.len() && order_stale(#[trigger] orders[k], placements) && x == cancel_of(
                orders[k],
            ) by {
            if all.contains(x) {
                let j = choose|j: int| 0 <= j < all.len() && all[j] == x;
                if j < prev.len() {
                    assert(prev[j] == x);
                    assert(prev.contains(x));
                    let k = choose|k: int|
                        0 <= k < init.len() && order_stale(#[trigger] init[k], placements) && x
                            == cancel_of(init[k]);
                    assert(orders[k] == init[k]);
                } else {
                    assert(orders[n] == orders.last());
                }
            }
            if exists|k: int|
                0 <= k < orders.len() && order_stale(#[trigger] orders[k], placements) && x
                    == cancel_of(orders[k]) {
                let k = choose|k: int|
                    0 <= k < orders.len() && order_stale(#[trigger] orders[k], placements) && x
                        == cancel_of(orders[k]);
                if k < n {
                    assert(init[k] == orders[k]);
                    assert(prev.contains(x));
                    let j = choose|j: int| 0 <= j < prev.len() && prev[j] == x;
                    assert(all[j] == x);
                } else {
                    assert(orders.last() == orders[k]);
                    assert(all[prev.len() as int] == x);
                }
            }
        }
    }
}

/// Which orders are cancelled as stale: an order is cancelled when no
/// candidate has its layer and side, or when the first candidate that does
/// has another price or another base quantity; and a cancel is only ever
/// for an order whose first candidate (if any) differs from it in price or
/// base quantity.
pub proof fn lemma_stale_cancels_changed_orders(
    orders: Seq<ManagedOrder>,
    placements: Seq<CandidatePlacement>,
)
    ensures
        forall|k: int|
            0 <= k < orders.len() && (forall|j: int|
                0 <= j < placements.len() ==> !((#[trigger] placements[j]).layer
                    == orders[k].layer && placements[j].side == orders[k].side))
                ==> stale_cancels(orders, placements).contains(cancel_of(#[trigger] orders[k])),
        forall|k: int, j: int|
            0 <= k < orders.len() && #[trigger] first_candidate_at(placements, orders[k], j) && (
            placements[j].price != orders[k].price || placements[j].base_quantity
                != orders[k].base_quantity) ==> stale_cancels(orders, placements).contains(
                cancel_of(orders[k]),
            ),
        forall|x: CandidateCancel|
            #[trigger] stale_cancels(orders, placements).contains(x) ==> exists|k: int|
                0 <= k < orders.len() && x == cancel_of(#[trigger] orders[k]) && forall|j: int|
                    first_candidate_at(placements, orders[k], j) ==> (placements[j].price
                        != orders[k].price || placements[j].base_quantity
                        != orders[k].base_quantity),
{
    lemma_stale_cancels_members(orders, placements);
    let st = stale_cancels(orders, placements);
    assert forall|k: int|
        0 <= k < orders.len() && (forall|j: int|
            0 <= j < placements.len() ==> !((#[trigger] placements[j]).layer == orders[k].layer
                && placements[j].side == orders[k].side)) implies st.contains(
        cancel_of(#[trigger] orders[k]),
    ) by {
        let pr = slot_pred(orders[k].layer, orders[k].side);
        lemma_first_index_props(placements, pr);
        if first_index(placements, pr) >= 0 {
            let i = first_index(placements, pr);
            assert(pr(placements[i]));
        }
        assert(order_stale(orders[k], placements));
    }
    assert forall|k: int, j: int|
        0 <= k < orders.len() && #[trigger] first_candidate_at(placements, orders[k], j) && (
        placements[j].price != orders[k].price || placements[j].base_quantity
            != orders[k].base_quantity) implies st.contains(cancel_of(orders[k])) by {
        let pr = slot_pred(orders[k].layer, orders[k].side);
        assert forall|i: int| 0 <= i < j implies !pr(#[trigger] placements[i]) by {
            assert(!(placements[i].layer == orders[k].layer && placements[i].side == orders[k].side));
        }
        lemma_first_index_found(placements, pr, j);
        assert(order_stale(orders[k], placements));
    }
    assert forall|x: CandidateCancel| #[trigger] st.contains(x) implies exists|k: int|
        0 <= k < orders.len() && x == cancel_of(#[trigger] orders[k]) && forall|j: int|
            first_candidate_at(placements, orders[k], j) ==> (placements[j].price != orders[k].price
                || placements[j].base_quantity != orders[k].base_quantity) by {
        let k = choose|k: int|
            0 <= k < orders.len() && order_stale(#[trigger] orders[k], placements) && x == cancel_of(
                orders[k],
            );
        let o = orders[k];
        let pr = slot_pred(o.layer, o.side);
        lemma_first_index_props(placements, pr);
        assert forall|j: int| first_candidate_at(placements, o, j) implies (placements[j].price
            != o.price || placements[j].base_quantity != o.base_quantity) by {
            assert forall|i: int| 0 <= i < j implies !pr(#[trigger] placements[i]) by {
                assert(!(placements[i].layer == o.layer && placements[i].side == o.side));
            }
            assert(pr(placements[j]));
            lemma_first_index_found(placements, pr, j);
        }
    }
}

/// Some cancel is for the placement's layer and side.
pub open spec fn placement_replaces(p: CandidatePlacement, cancels: Seq<CandidateCancel>) -> bool {
    exists|k: int|
        0 <= k < cancels.len() && (#[trigger] cancels[k]).layer == p.layer && cancels[k].side
            == p.side
}

/// The placements whose layer and side are being cancelled, in order.
pub open spec fn replacements(
    placements: Seq<CandidatePlacement>,
    cancels: Seq<CandidateCancel>,
) -> Seq<CandidatePlacement>
    decreases placements.len(),
{
    if placements.len() == 0 {
        Seq::empty()
    } else {
        let acc = replacements(placements.drop_last(), cancels);
        if placement_replaces(placements.last(), cancels) {
            acc.push(placements.last())
        } else {
            acc
        }
    }
}

/// Some in-flight order has the placement's layer and side.
pub open spec fn placement_inflight(p: CandidatePlacement, inflight: Seq<ManagedOrder>) -> bool {
    exists|k: int|
        0 <= k < inflight.len() && p.layer == (#[trigger] inflight[k]).layer && p.side
            == inflight[k].side
}

/// The placements with no in-flight order for their layer and side.
pub open spec fn placements_not_inflight(
    placements: Seq<CandidatePlacement>,
    inflight: Seq<ManagedOrder>,
) -> Seq<CandidatePlacement>
    decreases placements.len(),
{
    if placements.len() == 0 {
        Seq::empty()
    } else {
        let acc = placements_not_inflight(placements.drop_last(), inflight);
        if !placement_inflight(placements.last(), inflight) {
            acc.push(placements.last())
        } else {
            acc
        }
    }
}

/// Some in-flight cancel on the same side has the cancel's client order id
/// or order id.
pub open spec fn cancel_inflight(c: CandidateCancel, inflight: Seq<InflightCancel>) -> bool {
    exists|k: int|
        0 <= k < inflight.len() && c.side == (#[trigger] inflight[k]).side && (c.client_order_id
            == inflight[k].client_order_id || c.order_id == inflight[k].order_id)
}

/// The cancels with no matching in-flight cancel.
pub open spec fn cancels_not_inflight(
    cancels: Seq<CandidateCancel>,
    inflight: Seq<InflightCancel>,
) -> Seq<CandidateCancel>
    decreases cancels.len(),
{
    if cancels.len() == 0 {
        Seq::empty()
    } else {
        let acc = cancels_not_inflight(cancels.drop_last(), inflight);
        if !cancel_inflight(cancels.last(), inflight) {
            acc.push(cancels.last())
        } else {
            acc
        }
    }
}

/// Some in-flight cancel has the order's order id or client order id.
pub open spec fn cancel_pending(o: ManagedOrder, cancels: Seq<InflightCancel>) -> bool {
    exists|k: int|
        0 <= k < cancels.len() && ((#[trigger] cancels[k]).order_id == o.order_id
            || cancels[k].client_order_id == o.client_order_id)
}

/// The managed orders with no cancel pending, in order.
pub open spec fn managed_not_cancelling(
    managed: Seq<ManagedOrder>,
    cancels: Seq<InflightCancel>,
) -> Seq<ManagedOrder>
    decreases managed.len(),
{
    if managed.len() == 0 {
        Seq::empty()
    } else {
        let acc = managed_not_cancelling(managed.drop_last(), cancels);
        if !cancel_pending(managed.last(), cancels) {
            acc.push(managed.last())
        } else {
            acc
        }
    }
}

/// A book order seen as a tracked order: no prices in units, no layer.
pub open spec fn book_order_as_managed(o: Order) -> ManagedOrder {
    ManagedOrder {
        price_lots: o.price,
        base_quantity_lots: o.base_quantity,
        quote_quantity_lots: o.quote_quantity,
        price: Fixed { bits: 0 },
        base_quantity: Fixed { bits: 0 },
        max_quote_quantity: Fixed { bits: 0 },
        max_ts: o.max_ts,
        submitted_at: 0,
        client_order_id: o.client_order_id,
        order_id: o.order_id,
        side: o.side,
        layer: 0,
    }
}

/// Some order already listed has the book order's order id.
pub open spec fn listed(orders: Seq<ManagedOrder>, o: Order) -> bool {
    exists|k: int| 0 <= k < orders.len() && (#[trigger] orders[k]).order_id == o.order_id
}

/// Appends, for each book order in turn, the book order seen as a tracked
/// order unless an order already listed has its order id.
pub open spec fn add_book_orders(orders: Seq<ManagedOrder>, book: Seq<Order>) -> Seq<ManagedOrder>
    decreases book.len(),
{
    if book.len() == 0 {
        orders
    } else {
        let acc = add_book_orders(orders, book.drop_last());
        if !listed(acc, book.last()) {
            acc.push(book_order_as_managed(book.last()))
        } else {
            acc
        }
    }
}

/// The orders a maker treats as open: managed orders with no cancel
/// pending, then book orders not already listed.
pub open spec fn open_orders_snapshot(t: OrderTracking) -> Seq<ManagedOrder> {
    add_book_orders(managed_not_cancelling(t.managed, t.cancels), t.open)
}

/// What to do with the orders this pulse.
pub enum UpdatePlan {
    /// Nothing is on the book but submissions are in flight: do nothing.
    Wait,
    /// Nothing is on the book: place the full set of quotes.
    PlaceAll { placements: Vec<CandidatePlacement> },
    /// Cancel the expired orders, then the stale ones, then place the
    /// quotes for the layers whose orders are cancelled as stale.
    Refresh {
        expired: Vec<CandidateCancel>,
        stale: Vec<CandidateCancel>,
        replacements: Vec<CandidatePlacement>,
    },
}

/// The outcome of one submission: whether it went through, and what it
/// carried.
pub struct PlacementBatch {
    pub submitted: bool,
    pub candidates: Vec<CandidatePlacement>,
}

/// The outcome of one cancel submission: whether it went through, and what
/// it carried.
pub struct CancelBatch {
    pub submitted: bool,
    pub candidates: Vec<CandidateCancel>,
}

/// A built order with the given layer and side.
pub open spec fn managed_slot_pred(layer: usize, side: Side) -> spec_fn(ManagedOrder) -> bool {
    |o: ManagedOrder| o.layer == layer && o.side == side
}

/// For each candidate, the first built order with its layer and side.
pub open spec fn orders_for_candidates(
    built: Seq<ManagedOrder>,
    candidates: Seq<CandidatePlacement>,
) -> Seq<ManagedOrder>
    decreases candidates.len(),
{
    if candidates.len() == 0 {
        Seq::empty()
    } else {
        let acc = orders_for_candidates(built, candidates.drop_last());
        let c = candidates.last();
        let i = first_index(built, managed_slot_pred(c.layer, c.side));
        if i >= 0 {
            acc.push(built[i])
        } else {
            acc
        }
    }
}

/// The built orders of every submission that went through, in order.
pub open spec fn submitted_orders(built: Seq<ManagedOrder>, batches: Seq<PlacementBatch>) -> Seq<
    ManagedOrder,
>
    decreases batches.len(),
{
    if batches.len() == 0 {
        Seq::empty()
    } else {
        let acc = submitted_orders(built, batches.drop_last());
        let b = batches.last();
        if b.submitted {
            acc + orders_for_candidates(built, b.candidates@)
        } else {
            acc
        }
    }
}

/// Some filtered cancel has the candidate's layer and side.
pub open spec fn cancel_was_requested(c: CandidateCancel, requested: Seq<CandidateCancel>) -> bool {
    exists|k: int|
        0 <= k < requested.len() && (#[trigger] requested[k]).layer == c.layer
            && requested[k].side == c.side
}

/// The in-flight cancel recorded for a submitted cancel.
pub open spec fn inflight_cancel_of(c: CandidateCancel, now: u64) -> InflightCancel {
    InflightCancel {
        order_id: c.order_id,
        client_order_id: c.client_order_id,
        side: c.side,
        submitted_at: now,
    }
}

/// In-flight cancels for the requested candidates of one submission.
pub open spec fn cancels_for_candidates(
    requested: Seq<CandidateCancel>,
    candidates: Seq<CandidateCancel>,
    now: u64,
) -> Seq<InflightCancel>
    decreases candidates.len(),
{
    if candidates.len() == 0 {
        Seq::empty()
    } else {
        let acc = cancels_for_candidates(requested, candidates.drop_last(), now);
        if cancel_was_requested(candidates.last(), requested) {
            acc.push(inflight_cancel_of(candidates.last(), now))
        } else {
            acc
        }
    }
}

/// In-flight cancels for every cancel submission that went through.
pub open spec fn submitted_cancels(
    requested: Seq<CandidateCancel>,
    batches: Seq<CancelBatch>,
    now: u64,
) -> Seq<InflightCancel>
    decreases batches.len(),
{
    if batches.len() == 0 {
        Seq::empty()
    } else {
        let acc = submitted_cancels(requested, batches.drop_last(), now);
        let b = batches.last();
        if b.submitted {
            acc + cancels_for_candidates(requested, b.candidates@, now)
        } else {
            acc
        }
    }
}

impl UpdatePlan {
    /// The pulse result once the plan is carried out without error: for a
    /// refresh, every expired and stale cancel counts as cancelled and every
    /// replacement as new.
    pub fn pulse_result(&self) -> (r: MakerPulseResult)
        requires
            self matches UpdatePlan::Refresh { expired, stale, .. } ==> expired.len() + stale.len()
                <= usize::MAX,
        ensures
            r == (match self {
                UpdatePlan::Wait => MakerPulseResult { num_new_orders: 0, num_cancelled_orders: 0 },
                UpdatePlan::PlaceAll { placements } => MakerPulseResult {
                    num_new_orders: placements.len(),
                    num_cancelled_orders: 0,
                },
                UpdatePlan::Refresh { expired, stale, replacements } => MakerPulseResult {
                    num_new_orders: replacements.len(),
                    num_cancelled_orders: (expired.len() + stale.len()) as usize,
                },
            }),
    {
        match self {
            UpdatePlan::Wait => MakerPulseResult { num_new_orders: 0, num_cancelled_orders: 0 },
            UpdatePlan::PlaceAll { placements } => MakerPulseResult {
                num_new_orders: placements.len(),
                num_cancelled_orders: 0,
            },
            UpdatePlan::Refresh { expired, stale, replacements } => MakerPulseResult {
                num_new_orders: replacements.len(),
                num_cancelled_orders: expired.len() + stale.len(),
            },
        }
    }
}

impl Maker {
    /// Cancels for the orders whose time in force is before `now`, or that
    /// were taken over from the book at start-up.
    pub fn get_expired_orders(&self, orders: &[ManagedOrder], now: u64) -> (r: Vec<CandidateCancel>)
        ensures
            r@ == expired_cancels(orders@, now),
    {
        let mut expired_orders: Vec<CandidateCancel> = Vec::new();
        for k in 0..orders.len()
            invariant
                expired_orders@ == expired_cancels(orders@.take(k as int), now),
        {
            let order = orders[k];
            proof {
                lemma_take_succ(orders@, k as int);
            }
            if order.max_ts < now || order.layer == usize::MAX {
                expired_orders.push(
                    CandidateCancel {
                        order_id: order.order_id,
                        client_order_id: order.client_order_id,
                        side: order.side,
                        layer: order.layer,
                    },
                );
            }
        }
        proof {
            lemma_take_all(orders@);
        }
        expired_orders
    }

    /// Cancels for the orders that are stale: the first candidate for the
    /// order's layer and side has another price or size, or there is none.
    pub fn get_stale_orders(
        &self,
        orders: &[ManagedOrder],
        candidate_placements: &[CandidatePlacement],
    ) -> (r: Vec<CandidateCancel>)
        ensures
            r@ == stale_cancels(orders@, candidate_placements@),
    {
        let mut stale_orders: Vec<CandidateCancel> = Vec::new();
        for k in 0..orders.len()
            invariant
                stale_orders@ == stale_cancels(orders@.take(k as int), candidate_placements@),
        {
            let order = orders[k];
            proof {
                lemma_take_succ(orders@, k as int);
            }
            let stale = match find_slot(candidate_placements, order.layer, order.side) {
                Some(idx) => {
                    let equivalent = candidate_placements[idx];
                    equivalent.price.bits != order.price.bits || equivalent.base_quantity.bits
                        != order.base_quantity.bits
                },
                None => true,
            };
            if stale {
                stale_orders.push(
                    CandidateCancel {
                        order_id: order.order_id,
                        client_order_id: order.client_order_id,
                        side: order.side,
                        layer: order.layer,
                    },
                );
            }
        }
        proof {
            lemma_take_all(orders@);
        }
        stale_orders
    }

    /// The candidate placements for which some candidate cancel has the same
    /// layer and side, in order.
    pub fn filter_candidate_placements(
        &self,
        candidate_placements: &[CandidatePlacement],
        candidate_cancels: &[CandidateCancel],
    ) -> (r: Vec<CandidatePlacement>)
        ensures
            r@ == replacements(candidate_placements@, candidate_cancels@),
    {
        let mut final_candidates: Vec<CandidatePlacement> = Vec::new();
        for k in 0..candidate_placements.len()
            invariant
                final_candidates@ == replacements(
                    candidate_placements@.take(k as int),
                    candidate_cancels@,
                ),
        {
            let candidate = candidate_placements[k];
            proof {
                lemma_take_succ(candidate_placements@, k as int);
            }
            let mut found = false;
            for j in 0..candidate_cancels.len()
                invariant
                    found == (exists|m: int|
                        0 <= m < j && (#[trigger] candidate_cancels@[m]).layer == candidate.layer
                            && candidate_cancels@[m].side == candidate.side),
            {
                if candidate_cancels[j].layer == candidate.layer && candidate_cancels[j].side
                    == candidate.side {
                    found = true;
                }
            }
            if found {
                final_candidates.push(candidate);
            }
        }
        proof {
            lemma_take_all(candidate_placements@);
        }
        final_candidates
    }

    /// The placements that no in-flight order already covers (same layer
    /// and side), in order.
    pub fn check_inflight_orders(&self, order_placements: &[CandidatePlacement]) -> (r: Vec<
        CandidatePlacement,
    >)
        ensures
            r@ == placements_not_inflight(order_placements@, self.order_manager@.inflight),
    {
        let inflight = &self.order_manager.inflight_orders;
        let mut filtered_candidates: Vec<CandidatePlacement> = Vec::new();
        for k in 0..order_placements.len()
            invariant
                inflight@ == self.order_manager@.inflight,
                filtered_candidates@ == placements_not_inflight(
                    order_placements@.take(k as int),
                    inflight@,
                ),
        {
            let op = order_placements[k];
            proof {
                lemma_take_succ(order_placements@, k as int);
            }
            let mut found = false;
            for j in 0..inflight.len()
                invariant
                    found == (exists|m: int|
                        0 <= m < j && op.layer == (#[trigger] inflight@[m]).layer && op.side
                            == inflight@[m].side),
            {
                if op.layer == inflight[j].layer && op.side == inflight[j].side {
                    found = true;
                }
            }
            if !found {
                filtered_candidates.push(op);
            }
        }
        proof {
            lemma_take_all(order_placements@);
        }
        filtered_candidates
    }

    /// The cancels that no in-flight cancel already covers (same side, and
    /// same client order id or order id), in order.
    pub fn check_inflight_cancels(&self, order_cancels: &[CandidateCancel]) -> (r: Vec<
        CandidateCancel,
    >)
        ensures
            r@ == cancels_not_inflight(order_cancels@, self.order_manager@.cancels),
    {
        let inflight = &self.order_manager.inflight_cancels;
        let mut filtered_candidates: Vec<CandidateCancel> = Vec::new();
        for k in 0..order_cancels.len()
            invariant
                inflight@ == self.order_manager@.cancels,
                filtered_candidates@ == cancels_not_inflight(
                    order_cancels@.take(k as int),
                    inflight@,
                ),
        {
            let oc = order_cancels[k];
            proof {
                lemma_take_succ(order_cancels@, k as int);
            }
            let mut found = false;
            for j in 0..inflight.len()
                invariant
                    found == (exists|m: int|
                        0 <= m < j && oc.side == (#[trigger] inflight@[m]).side && (
                        oc.client_order_id == inflight@[m].client_order_id || oc.order_id
                            == inflight@[m].order_id)),
            {
                if oc.side == inflight[j].side && (oc.client_order_id
                    == inflight[j].client_order_id || oc.order_id == inflight[j].order_id) {
                    found = true;
                }
            }
            if !found {
                filtered_candidates.push(oc);
            }
        }
        proof {
            lemma_take_all(order_cancels@);
        }
        filtered_candidates
    }

    /// The orders to work with: managed orders with no cancel pending, then
    /// book orders not already listed by order id; with the in-flight orders
    /// and cancels.
    pub fn get_orders(&self) -> (r: OrdersInfo)
        ensures
            r.open_orders@ == open_orders_snapshot(self.order_manager@),
            r.inflight_orders@ == self.order_manager@.inflight,
            r.inflight_cancels@ == self.order_manager@.cancels,
    {
        let om = &self.order_manager;
        let mut orders: Vec<ManagedOrder> = Vec::new();
        for k in 0..om.managed_orders.len()
            invariant
                orders@ == managed_not_cancelling(
                    om.managed_orders@.take(k as int),
                    om.inflight_cancels@,
                ),
        {
            let order = om.managed_orders[k];
            proof {
                lemma_take_succ(om.managed_orders@, k as int);
            }
            let mut pending = false;
            for j in 0..om.inflight_cancels.len()
                invariant
                    pending == (exists|m: int|
                        0 <= m < j && ((#[trigger] om.inflight_cancels@[m]).order_id
                            == order.order_id || om.inflight_cancels@[m].client_order_id
                            == order.client_order_id)),
            {
                let c = om.inflight_cancels[j];
                if c.order_id == order.order_id || c.client_order_id == order.client_order_id {
                    pending = true;
                }
            }
            if !pending {
                orders.push(order);
            }
        }
        proof {
            lemma_take_all(om.managed_orders@);
        }
        let ghost base = orders@;
        for k in 0..om.open_orders.len()
            invariant
                orders@ == add_book_orders(base, om.open_orders@.take(k as int)),
        {
            let order = om.open_orders[k];
            proof {
                lemma_take_succ(om.open_orders@, k as int);
            }
            let mut seen = false;
            for j in 0..orders.len()
                invariant
                    seen == (exists|m: int|
                        0 <= m < j && (#[trigger] orders@[m]).order_id == order.order_id),
            {
                if orders[j].order_id == order.order_id {
                    seen = true;
                }
            }
            if !seen {
                orders.push(
                    ManagedOrder {
                        price_lots: order.price,
                        base_quantity_lots: order.base_quantity,
                        quote_quantity_lots: order.quote_quantity,
                        price: Fixed::zero(),
                        base_quantity: Fixed::zero(),
                        max_quote_quantity: Fixed::zero(),
                        max_ts: order.max_ts,
                        submitted_at: 0,
                        client_order_id: order.client_order_id,
                        order_id: order.order_id,
                        side: order.side,
                        layer: 0,
                    },
                );
            }
        }
        proof {
            lemma_take_all(om.open_orders@);
        }
        OrdersInfo {
            open_orders: orders,
            inflight_orders: copy_vec(&om.inflight_orders),
            inflight_cancels: copy_vec(&om.inflight_cancels),
        }
    }

    /// Decides what to do with the orders: wait while submissions are in
    /// flight and nothing is on the book; place the full set of quotes when
    /// nothing is on the book; otherwise cancel expired and stale orders and
    /// replace the stale ones.
    pub fn plan_order_update(
        &self,
        quote_volumes: &QuoteVolumes,
        spread_info: &SpreadInfo,
        orders: &OrdersInfo,
        now: u64,
    ) -> (r: UpdatePlan)
        requires
            quotes_defined(self, quote_volumes, spread_info),
        ensures
            orders.open_orders@.len() == 0 && (orders.inflight_orders@.len() != 0
                || orders.inflight_cancels@.len() != 0) ==> r is Wait,
            orders.open_orders@.len() == 0 && orders.inflight_orders@.len() == 0
                && orders.inflight_cancels@.len() == 0 ==> (r matches UpdatePlan::PlaceAll {
                placements,
            } && placements@ == new_orders_spec(self, quote_volumes, spread_info)),
            orders.open_orders@.len() != 0 ==> (r matches UpdatePlan::Refresh {
                expired,
                stale,
                replacements: repl,
            } && expired@ == expired_cancels(orders.open_orders@, now) && stale@ == stale_cancels(
                orders.open_orders@,
                new_orders_spec(self, quote_volumes, spread_info),
            ) && repl@ == replacements(
                new_orders_spec(self, quote_volumes, spread_info),
                stale_cancels(
                    orders.open_orders@,
                    new_orders_spec(self, quote_volumes, spread_info),
                ),
            )),
    {
        if orders.open_orders.len() == 0 && (orders.inflight_orders.len() != 0
            || orders.inflight_cancels.len() != 0) {
            return UpdatePlan::Wait;
        }
        if orders.open_orders.len() == 0 {
            return UpdatePlan::PlaceAll { placements: self.get_new_orders(quote_volumes, spread_info) };
        }
        let expired = self.get_expired_orders(orders.open_orders.as_slice(), now);
        let candidate_placements = self.get_new_orders(quote_volumes, spread_info);
        let stale = self.get_stale_orders(
            orders.open_orders.as_slice(),
            candidate_placements.as_slice(),
        );
        let replacements = self.filter_candidate_placements(
            candidate_placements.as_slice(),
            stale.as_slice(),
        );
        UpdatePlan::Refresh { expired, stale, replacements }
    }

    /// Records the orders of the submissions that went through as in flight:
    /// for each submitted candidate, the first built order with its layer
    /// and side.
    pub fn record_submitted_orders(
        &mut self,
        managed_orders: &[ManagedOrder],
        batches: &[PlacementBatch],
    )
        ensures
            final(self).order_manager@.inflight == old(self).order_manager@.inflight
                + submitted_orders(managed_orders@, batches@),
            final(self).order_manager@.managed == old(self).order_manager@.managed,
            final(self).order_manager@.open == old(self).order_manager@.open,
            final(self).order_manager@.cancels == old(self).order_manager@.cancels,
            final(self).order_layer_count == old(self).order_layer_count,
            final(self).layer_spacing_bps == old(self).layer_spacing_bps,
            final(self).time_in_force == old(self).time_in_force,
            final(self).symbol == old(self).symbol,
    {
        let ghost start = self.order_manager.inflight_orders@;
        for b in 0..batches.len()
            invariant
                self.order_manager.inflight_orders@ == start + submitted_orders(
                    managed_orders@,
                    batches@.take(b as int),
                ),
                self.order_manager.managed_orders@ == old(self).order_manager@.managed,
                self.order_manager.open_orders@ == old(self).order_manager@.open,
                self.order_manager.inflight_cancels@ == old(self).order_manager@.cancels,
                self.order_layer_count == old(self).order_layer_count,
                self.layer_spacing_bps == old(self).layer_spacing_bps,
                self.time_in_force == old(self).time_in_force,
                self.symbol == old(self).symbol,
        {
            proof {
                lemma_take_succ(batches@, b as int);
            }
            let batch = &batches[b];
            if batch.submitted {
                let ghost before = self.order_manager.inflight_orders@;
                for c in 0..batch.candidates.len()
                    invariant
                        self.order_manager.inflight_orders@ == before + orders_for_candidates(
                            managed_orders@,
                            batch.candidates@.take(c as int),
                        ),
                        self.order_manager.managed_orders@ == old(self).order_manager@.managed,
                        self.order_manager.open_orders@ == old(self).order_manager@.open,
                        self.order_manager.inflight_cancels@ == old(self).order_manager@.cancels,
                        self.order_layer_count == old(self).order_layer_count,
                        self.layer_spacing_bps == old(self).layer_spacing_bps,
                        self.time_in_force == old(self).time_in_force,
                        self.symbol == old(self).symbol,
                {
                    let candidate = batch.candidates[c];
                    proof {
                        lemma_take_succ(batch.candidates@, c as int);
                    }
                    match find_built(managed_orders, candidate.layer, candidate.side) {
                        Some(i) => {
                            self.order_manager.inflight_orders.push(managed_orders[i]);
                            proof {
                                assert(self.order_manager.inflight_orders@ =~= before
                                    + orders_for_candidates(
                                    managed_orders@,
                                    batch.candidates@.take(c + 1),
                                ));
                            }
                        },
                        None => {},
                    }
                }
                proof {
                    lemma_take_all(batch.candidates@);
                    assert(self.order_manager.inflight_orders@ =~= start + submitted_orders(
                        managed_orders@,
                        batches@.take(b + 1),
                    ));
                }
            }
        }
        proof {
            lemma_take_all(batches@);
        }
    }

    /// Records the cancels of the submissions that went through as in
    /// flight, submitted at `now`: each submitted candidate whose layer and
    /// side were requested.
    pub fn record_submitted_cancels(
        &mut self,
        requested: &[CandidateCancel],
        batches: &[CancelBatch],
        now: u64,
    )
        ensures
            final(self).order_manager@.cancels == old(self).order_manager@.cancels
                + submitted_cancels(requested@, batches@, now),
            final(self).order_manager@.managed == old(self).order_manager@.managed,
            final(self).order_manager@.open == old(self).order_manager@.open,
            final(self).order_manager@.inflight == old(self).order_manager@.inflight,
            final(self).order_layer_count == old(self).order_layer_count,
            final(self).layer_spacing_bps == old(self).layer_spacing_bps,
            final(self).time_in_force == old(self).time_in_force,
            final(self).symbol == old(self).symbol,
    {
        let ghost start = self.order_manager.inflight_cancels@;
        for b in 0..batches.len()
            invariant
                self.order_manager.inflight_cancels@ == start + submitted_cancels(
                    requested@,
                    batches@.take(b as int),
                    now,
                ),
                self.order_manager.managed_orders@ == old(self).order_manager@.managed,
                self.order_manager.open_orders@ == old(self).order_manager@.open,
                self.order_manager.inflight_orders@ == old(self).order_manager@.inflight,
                self.order_layer_count == old(self).order_layer_count,
                self.layer_spacing_bps == old(self).layer_spacing_bps,
                self.time_in_force == old(self).time_in_force,
                self.symbol == old(self).symbol,
        {
            proof {
                lemma_take_succ(batches@, b as int);
            }
            let batch = &batches[b];
            if batch.submitted {
                let ghost before = self.order_manager.inflight_cancels@;
                for c in 0..batch.candidates.len()
                    invariant
                        self.order_manager.inflight_cancels@ == before + cancels_for_candidates(
                            requested@,
                            batch.candidates@.take(c as int),
                            now,
                        ),
                        self.order_manager.managed_orders@ == old(self).order_manager@.managed,
                        self.order_manager.open_orders@ == old(self).order_manager@.open,
                        self.order_manager.inflight_orders@ == old(self).order_manager@.inflight,
                        self.order_layer_count == old(self).order_layer_count,
                        self.layer_spacing_bps == old(self).layer_spacing_bps,
                        self.time_in_force == old(self).time_in_force,
                        self.symbol == old(self).symbol,
                {
                    let candidate = batch.candidates[c];
                    proof {
                        lemma_take_succ(batch.candidates@, c as int);
                    }
                    let mut found = false;
                    for j in 0..requested.len()
                        invariant
                            found == (exists|m: int|
                                0 <= m < j && (#[trigger] requested@[m]).layer == candidate.layer
                                    && requested@[m].side == candidate.side),
                    {
                        if requested[j].layer == candidate.layer && requested[j].side
                            == candidate.side {
                            found = true;
                        }
                    }
                    if found {
                        self.order_manager.inflight_cancels.push(
                            InflightCancel {
                                side: candidate.side,
                                order_id: candidate.order_id,
                                client_order_id: candidate.client_order_id,
                                submitted_at: now,
                            },
                        );
                    }
                    proof {
                        assert(self.order_manager.inflight_cancels@ =~= before
                            + cancels_for_candidates(
                            requested@,
                            batch.candidates@.take(c + 1),
                            now,
                        ));
                    }
                }
                proof {
                    lemma_take_all(batch.candidates@);
                    assert(self.order_manager.inflight_cancels@ =~= start + submitted_cancels(
                        requested@,
                        batches@.take(b + 1),
                        now,
                    ));
                }
            }
        }
        proof {
            lemma_take_all(batches@);
        }
    }
}

fn find_slot(placements: &[CandidatePlacement], layer: usize, side: Side) -> (r: Option<usize>)
    ensures
        match r {
            Some(i) => i < placements.len() && i == first_index(placements@, slot_pred(layer, side)),
            None => first_index(placements@, slot_pred(layer, side)) == -1,
        },
{
    let ghost p = slot_pred(layer, side);
    for k in 0..placements.len()
        invariant
            p == slot_pred(layer, side),
            forall|j: int| 0 <= j < k ==> !p(#[trigger] placements@[j]),
    {
        if placements[k].layer == layer && placements[k].side == side {
            proof {
                lemma_first_index_found(placements@, p, k as int);
            }
            return Some(k);
        }
    }
    proof {
        lemma_first_index_none(placements@, p);
    }
    None
}

fn find_built(built: &[ManagedOrder], layer: usize, side: Side) -> (r: Option<usize>)
    ensures
        match r {
            Some(i) => i < built.len() && i == first_index(built@, managed_slot_pred(layer, side)),
            None => first_index(built@, managed_slot_pred(layer, side)) == -1,
        },
{
    let ghost p = managed_slot_pred(layer, side);
    for k in 0..built.len()
        invariant
            p == managed_slot_pred(layer, side),
            forall|j: int| 0 <= j < k ==> !p(#[trigger] built@[j]),
    {
        if built[k].layer == layer && built[k].side == side {
            proof {
                lemma_first_index_found(built@, p, k as int);
            }
            return Some(k);
        }
    }
    proof {
        lemma_first_index_none(built@, p);
    }
    None
}

/// The quotes are the bid quotes followed by the ask quotes, one order per
/// layer on each side: first the bids for layers one to
/// `order_layer_count`, in order, then the asks for the same layers.
pub proof fn lemma_new_orders_layout(maker: &Maker, quote_volumes: &QuoteVolumes, spread_info: &SpreadInfo)
    ensures
        new_orders_spec(maker, quote_volumes, spread_info) == new_bids_spec(
            maker,
            quote_volumes,
            spread_info,
        ) + new_asks_spec(maker, quote_volumes, spread_info),
        new_bids_spec(maker, quote_volumes, spread_info).len() == maker.order_layer_count,
        new_asks_spec(maker, quote_volumes, spread_info).len() == maker.order_layer_count,
        new_orders_spec(maker, quote_volumes, spread_info).len() == 2 * maker.order_layer_count,
        forall|i: int| 0 <= i < maker.order_layer_count ==> {
            &&& (#[trigger] new_orders_spec(maker, quote_volumes, spread_info)[i]).side == Side::Bid
            &&& new_orders_spec(maker, quote_volumes, spread_info)[i].layer == i + 1
        },
        forall|i: int| maker.order_layer_count <= i < 2 * maker.order_layer_count ==> {
            &&& (#[trigger] new_orders_spec(maker, quote_volumes, spread_info)[i]).side == Side::Ask
            &&& new_orders_spec(maker, quote_volumes, spread_info)[i].layer == i - maker.order_layer_count + 1
        },
{
    let c = maker.order_layer_count as int;
    let step = layer_step_bits(maker.layer_spacing_bps as int);
    let bids = bid_layers(spread_info.bid.val(), step, quote_volumes.bid_size.val(), c, c as nat);
    let asks = ask_layers(spread_info.ask.val(), step, quote_volumes.ask_size.val(), c, c as nat);
    lemma_bid_layers_layout(spread_info.bid.val(), step, quote_volumes.bid_size.val(), c, c as nat);
    lemma_ask_layers_layout(spread_info.ask.val(), step, quote_volumes.ask_size.val(), c, c as nat);
    let all = new_orders_spec(maker, quote_volumes, spread_info);
    assert(all == bids + asks);
    assert forall|i: int| c <= i < 2 * c implies (#[trigger] all[i]).side == Side::Ask && all[i].layer == i - c + 1 by {
        assert(all[i] == asks[i - c]);
    }
}

/// The placements kept because no order is in flight for their slot are
/// exactly the given ones with no in-flight order for their layer and side,
/// in the order given.
pub proof fn lemma_placements_not_inflight(placements: Seq<CandidatePlacement>, inflight: Seq<ManagedOrder>)
    ensures
        forall|p: CandidatePlacement| #[trigger] placements_not_inflight(placements, inflight).contains(p)
            <==> (placements.contains(p) && !placement_inflight(p, inflight)),
    decreases placements.len(),
{
    if placements.len() > 0 {
        let init = placements.drop_last();
        lemma_placements_not_inflight(init, inflight);
        let prev = placements_not_inflight(init, inflight);
        let cur = placements_not_inflight(placements, inflight);
        assert forall|p: CandidatePlacement| #[trigger] cur.contains(p)
            <==> (placements.contains(p) && !placement_inflight(p, inflight)) by {
            if cur.contains(p) {
                let k = choose|k: int| 0 <= k < cur.len() && cur[k] == p;
                if k < prev.len() {
                    assert(prev[k] == p);
                    assert(prev.contains(p));
                    let j = choose|j: int| 0 <= j < init.len() && init[j] == p;
                    assert(placements[j] == p);
                } else {
                    assert(placements[placements.len() - 1] == p);
                }
            }
            if placements.contains(p) && !placement_inflight(p, inflight) {
                let j = choose|j: int| 0 <= j < placements.len() && placements[j] == p;
                if j < placements.len() - 1 {
                    assert(init[j] == p);
                    assert(init.contains(p));
                    assert(prev.contains(p));
                    let k = choose|k: int| 0 <= k < prev.len() && prev[k] == p;
                    assert(cur[k] == p);
                } else {
                    assert(cur[cur.len() - 1] == p);
                }
            }
        }
    }
}

/// The replacements are exactly the quotes whose layer and side are being
/// cancelled.
pub proof fn lemma_replacements(placements: Seq<CandidatePlacement>, cancels: Seq<CandidateCancel>)
    ensures
        forall|p: CandidatePlacement| #[trigger] replacements(placements, cancels).contains(p)
            <==> (placements.contains(p) && placement_replaces(p, cancels)),
    decreases placements.len(),
{
    if placements.len() > 0 {
        let init = placements.drop_last();
        lemma_replacements(init, cancels);
        let prev = replacements(init, cancels);
        let cur = replacements(placements, cancels);
        assert forall|p: CandidatePlacement| #[trigger] cur.contains(p)
            <==> (placements.contains(p) && placement_replaces(p, cancels)) by {
            if cur.contains(p) {
                let k = choose|k: int| 0 <= k < cur.len() && cur[k] == p;
                if k < prev.len() {
                    assert(prev[k] == p);
                    assert(prev.contains(p));
                    let j = choose|j: int| 0 <= j < init.len() && init[j] == p;
                    assert(placements[j] == p);
                } else {
                    assert(placements[placements.len() - 1] == p);
                }
            }
            if placements.contains(p) && placement_replaces(p, cancels) {
                let j = choose|j: int| 0 <= j < placements.len() && placements[j] == p;
                if j < placements.len() - 1 {
                    assert(init[j] == p);
                    assert(init.contains(p));
                    assert(prev.contains(p));
                    let k = choose|k: int| 0 <= k < prev.len() && prev[k] == p;
                    assert(cur[k] == p);
                } else {
                    assert(cur[cur.len() - 1] == p);
                }
            }
        }
    }
}

/// The cancels submitted are exactly the candidates that no in-flight
/// cancel already covers.
pub proof fn lemma_cancels_not_inflight(cancels: Seq<CandidateCancel>, inflight: Seq<InflightCancel>)
    ensures
        forall|p: CandidateCancel| #[trigger] cancels_not_inflight(cancels, inflight).contains(p)
            <==> (cancels.contains(p) && !cancel_inflight(p, inflight)),
    decreases cancels.len(),
{
    if cancels.len() > 0 {
        let init = cancels.drop_last();
        lemma_cancels_not_inflight(init, inflight);
        let prev = cancels_not_inflight(init, inflight);
        let cur = cancels_not_inflight(cancels, inflight);
        assert forall|p: CandidateCancel| #[trigger] cur.contains(p)
            <==> (cancels.contains(p) && !cancel_inflight(p, inflight)) by {
            if cur.contains(p) {
                let k = choose|k: int| 0 <= k < cur.len() && cur[k] == p;
                if k < prev.len() {
                    assert(prev[k] == p);
                    assert(prev.contains(p));
                    let j = choose|j: int| 0 <= j < init.len() && init[j] == p;
                    assert(cancels[j] == p);
                } else {
                    assert(cancels[cancels.len() - 1] == p);
                }
            }
            if cancels.contains(p) && !cancel_inflight(p, inflight) {
                let j = choose|j: int| 0 <= j < cancels.len() && cancels[j] == p;
                if j < cancels.len() - 1 {
                    assert(init[j] == p);
                    assert(init.contains(p));
                    assert(prev.contains(p));
                    let k = choose|k: int| 0 <= k < prev.len() && prev[k] == p;
                    assert(cur[k] == p);
                } else {
                    assert(cur[cur.len() - 1] == p);
                }
            }
        }
    }
}

proof fn lemma_expired_cancels_members(orders: Seq<ManagedOrder>, now: u64)
    ensures
        forall|x: CandidateCancel|
            #[trigger] expired_cancels(orders, now).contains(x) <==> exists|k: int|
                0 <= k < orders.len() && order_expired(#[trigger] orders[k], now) && x == cancel_of(
                    orders[k],
                ),
    decreases orders.len(),
{
    if orders.len() > 0 {
        let init = orders.drop_last();
        lemma_expired_cancels_members(init, now);
        let prev = expired_cancels(init, now);
        let all = expired_cancels(orders, now);
        let n = orders.len() - 1;
        assert forall|x: CandidateCancel| #[trigger] all.contains(x) <==> exists|k: int|
            0 <= k < orders.len() && order_expired(#[trigger] orders[k], now) && x == cancel_of(
                orders[k],
            ) by {
            if all.contains(x) {
                let j = choose|j: int| 0 <= j < all.len() && all[j] == x;
                if j < prev.len() {
                    assert(prev[j] == x);
                    assert(prev.contains(x));
                    let k = choose|k: int|
                        0 <= k < init.len() && order_expired(#[trigger] init[k], now) && x
                            == cancel_of(init[k]);
                    assert(orders[k] == init[k]);
                } else {
                    assert(orders[n] == orders.last());
                }
            }
            if exists|k: int|
                0 <= k < orders.len() && order_expired(#[trigger] orders[k], now) && x == cancel_of(
                    orders[k],
                ) {
                let k = choose|k: int|
                    0 <= k < orders.len() && order_expired(#[trigger] orders[k], now) && x
                        == cancel_of(orders[k]);
                if k < n {
                    assert(init[k] == orders[k]);
                    assert(prev.contains(x));
                    let j = choose|j: int| 0 <= j < prev.len() && prev[j] == x;
                    assert(all[j] == x);
                } else {
                    assert(orders.last() == orders[k]);
                    assert(all[prev.len() as int] == x);
                }
            }
        }
    }
}

/// What a refresh cancels and places. An order is cancelled as expired
/// exactly when its time in force is strictly before `now` or it was taken
/// over from the book; a candidate placement is kept as a replacement
/// exactly when some cancel is for its layer and side; a placement is
/// skipped exactly when an order for its layer and side is already in
/// flight; a cancel is skipped exactly when a cancel on its side for the
/// same client order id or order id is already in flight.
pub proof fn lemma_refresh_decisions(
    orders: Seq<ManagedOrder>,
    now: u64,
    placements: Seq<CandidatePlacement>,
    cancels: Seq<CandidateCancel>,
    inflight_orders: Seq<ManagedOrder>,
    inflight_cancels: Seq<InflightCancel>,
)
    ensures
        forall|x: CandidateCancel|
            #[trigger] expired_cancels(orders, now).contains(x) <==> exists|k: int|
                0 <= k < orders.len() && ((#[trigger] orders[k]).max_ts < now || orders[k].layer
                    == usize::MAX) && x == cancel_of(orders[k]),
        forall|p: CandidatePlacement|
            #[trigger] replacements(placements, cancels).contains(p) <==> (placements.contains(p)
                && exists|k: int|
                0 <= k < cancels.len() && (#[trigger] cancels[k]).layer == p.layer && cancels[k].side
                    == p.side),
        forall|p: CandidatePlacement|
            #[trigger] placements_not_inflight(placements, inflight_orders).contains(p) <==> (
            placements.contains(p) && !exists|k: int|
                0 <= k < inflight_orders.len() && p.layer == (#[trigger] inflight_orders[k]).layer
                    && p.side == inflight_orders[k].side),
        forall|c: CandidateCancel|
            #[trigger] cancels_not_inflight(cancels, inflight_cancels).contains(c) <==> (
            cancels.contains(c) && !exists|k: int|
                0 <= k < inflight_cancels.len() && c.side == (#[trigger] inflight_cancels[k]).side
                    && (c.client_order_id == inflight_cancels[k].client_order_id || c.order_id
                    == inflight_cancels[k].order_id)),
{
    lemma_expired_cancels_members(orders, now);
    lemma_replacements(placements, cancels);
    lemma_placements_not_inflight(placements, inflight_orders);
    lemma_cancels_not_inflight(cancels, inflight_cancels);
}

} // verus!
