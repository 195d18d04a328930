//! How a maker lays out its quotes: the size and price of each order layer,
//! and the arithmetic facts that keep every step in range.
use vstd::prelude::*;
use vstd::arithmetic::div_mod::{
    lemma_div_by_multiple, lemma_div_denominator, lemma_div_is_ordered,
    lemma_div_is_ordered_by_denominator, lemma_div_multiples_vanish, lemma_div_pos_is_pos,
    lemma_fundamental_div_mod,
};
use crate::fixed_point::{Fixed, div_bits, fits, int_bits, mul_bits, scale, trunc_div};
use super::orders::{CandidatePlacement, Side};

verus! {

/// One basis point is this fraction of a unit.
pub const BPS_UNIT: u64 = 10_000;

/// Raw bits of the price ratio between neighbouring layers:
/// `(BPS_UNIT + spacing) / BPS_UNIT`.
pub open spec fn layer_step_bits(spacing: int) -> int {
    div_bits(int_bits(BPS_UNIT as int) + int_bits(spacing), int_bits(BPS_UNIT as int))
}

/// Raw bits of `(count - layer + 1) * count`, as the maker computes it.
pub open spec fn size_denominator_bits(count: int, layer: int) -> int {
    mul_bits(int_bits(count) - int_bits(layer) + scale(), int_bits(count))
}

/// Raw bits of `total / ((count - layer + 1) * count) + prev`.
pub open spec fn order_size_bits(count: int, layer: int, total: int, prev: int) -> int {
    div_bits(total, size_denominator_bits(count, layer)) + prev
}

/// Raw bits of the size of layer `layer` (counted from one): each layer
/// adds `total / ((count - layer + 1) * count)` to the size of the layer
/// before it; before the first layer the size is zero.
pub open spec fn layer_size(total: int, count: int, layer: nat) -> int
    decreases layer,
{
    if layer == 0 {
        0
    } else {
        order_size_bits(count, layer as int, total, layer_size(total, count, (layer - 1) as nat))
    }
}

/// Raw bits of the price of bid layer `layer`: the first layer is at the
/// bid, each further one is the previous price divided by the step.
pub open spec fn bid_price(bid: int, step: int, layer: nat) -> int
    decreases layer,
{
    if layer <= 1 {
        bid
    } else {
        div_bits(bid_price(bid, step, (layer - 1) as nat), step)
    }
}

/// Raw bits of the price of ask layer `layer`: the first layer is at the
/// ask, each further one is the previous price times the step.
pub open spec fn ask_price(ask: int, step: int, layer: nat) -> int
    decreases layer,
{
    if layer <= 1 {
        ask
    } else {
        mul_bits(ask_price(ask, step, (layer - 1) as nat), step)
    }
}

/// The order placed for one layer: its price, size, the product of the
/// two as the most quote it may use, and the layer; no time in force and
/// no client order id.
pub open spec fn placement(side: Side, price: int, size: int, layer: int) -> CandidatePlacement {
    CandidatePlacement {
        price: Fixed { bits: price as i128 },
        base_quantity: Fixed { bits: size as i128 },
        max_quote_quantity: Fixed { bits: mul_bits(price, size) as i128 },
        max_ts: 0,
        client_order_id: 0,
        side,
        layer: layer as usize,
    }
}

/// The bid orders for layers one to `n`, in order.
pub open spec fn bid_layers(bid: int, step: int, total: int, count: int, n: nat) -> Seq<
    CandidatePlacement,
>
    decreases n,
{
    if n == 0 {
        Seq::empty()
    } else {
        bid_layers(bid, step, total, count, (n - 1) as nat).push(
            placement(Side::Bid, bid_price(bid, step, n), layer_size(total, count, n), n as int),
        )
    }
}

/// The ask orders for layers one to `n`, in order.
pub open spec fn ask_layers(ask: int, step: int, total: int, count: int, n: nat) -> Seq<
    CandidatePlacement,
>
    decreases n,
{
    if n == 0 {
        Seq::empty()
    } else {
        ask_layers(ask, step, total, count, (n - 1) as nat).push(
            placement(Side::Ask, ask_price(ask, step, n), layer_size(total, count, n), n as int),
        )
    }
}

/// The layer count is small enough that `count * count` fits as a number.
pub open spec fn layer_count_fits(count: int) -> bool {
    count * count * scale() <= i128::MAX
}

/// Every bid layer's price times its size fits.
pub open spec fn bid_quotes_fit(bid: int, step: int, total: int, count: int) -> bool {
    forall|l: nat|
        1 <= l <= count ==> fits(
            mul_bits(#[trigger] bid_price(bid, step, l), layer_size(total, count, l)),
        )
}

/// Every ask layer's price, and its price times its size, fit.
pub open spec fn ask_quotes_fit(ask: int, step: int, total: int, count: int) -> bool {
    forall|l: nat|
        1 <= l <= count ==> fits(#[trigger] ask_price(ask, step, l)) && fits(
            mul_bits(ask_price(ask, step, l), layer_size(total, count, l)),
        )
}

/// The denominator of layer `l` is `(count - l + 1) * count` whole units,
/// at least `count` and at most `count * count` units.
pub proof fn lemma_size_denominator(c: int, l: int)
    requires
        1 <= l <= c,
        layer_count_fits(c),
    ensures
        size_denominator_bits(c, l) == (c - l + 1) * c * scale(),
        c * scale() <= size_denominator_bits(c, l) <= c * c * scale(),
        fits(int_bits(c) - int_bits(l) + scale()),
{
    let k = c - l + 1;
    let s = scale();
    assert(int_bits(c) - int_bits(l) + s == k * s);
    assert((k * s) * (c * s) == s * (k * c * s)) by (nonlinear_arith);
    assert(k * c * s > 0) by (nonlinear_arith)
        requires
            k >= 1,
            c >= 1,
            s > 0,
    ;
    lemma_div_multiples_vanish(k * c * s, s);
    assert(c <= k * c <= c * c) by (nonlinear_arith)
        requires
            1 <= k <= c,
    ;
    assert(c * s <= k * c * s <= c * c * s) by (nonlinear_arith)
        requires
            c <= k * c <= c * c,
            s > 0,
    ;
    assert(c <= c * c) by (nonlinear_arith)
        requires
            c >= 1,
    ;
}

/// A layer's share of the total: dividing by `k * c` whole units gives a
/// number of the total's sign, at most the total divided by `c`.
pub proof fn lemma_size_quotient(t: int, k: int, c: int)
    requires
        fits(t),
        k >= 1,
        c >= 1,
    ensures
        k * c * scale() > 0,
        t >= 0 ==> 0 <= div_bits(t, k * c * scale()) <= t / c,
        t < 0 ==> -((-t) / c) <= div_bits(t, k * c * scale()) <= 0,
{
    let s = scale();
    let kc = k * c;
    assert(kc >= c) by (nonlinear_arith)
        requires
            kc == k * c,
            k >= 1,
            c >= 1,
    ;
    assert(kc * s > 0) by (nonlinear_arith)
        requires
            kc >= 1,
            s > 0,
    ;
    assert(s * kc == kc * s) by (nonlinear_arith);
    let u = if t >= 0 { t } else { -t };
    assert(u * s >= 0) by (nonlinear_arith)
        requires
            u >= 0,
            s > 0,
    ;
    lemma_div_denominator(u * s, s, kc);
    lemma_div_by_multiple(u, s);
    lemma_div_is_ordered_by_denominator(u, c, kc);
    lemma_div_pos_is_pos(u, kc);
    assert((u * s) / (kc * s) == u / kc);
    if t >= 0 {
        assert(t * s >= 0);
        assert(div_bits(t, kc * s) == (t * s) / (kc * s));
    } else {
        assert(t * s < 0) by (nonlinear_arith)
            requires
                t < 0,
                s > 0,
        ;
        assert(-(t * s) == u * s);
        assert(div_bits(t, kc * s) == -((u * s) / (kc * s)));
    }
}

/// `l` shares of `t / c` never exceed `t`, for `l` at most `c`.
pub proof fn lemma_shares_within_total(t: int, c: int, l: int)
    requires
        t >= 0,
        c >= 1,
        0 <= l <= c,
    ensures
        0 <= l * (t / c) <= t,
{
    lemma_div_pos_is_pos(t, c);
    lemma_fundamental_div_mod(t, c);
    assert(0 <= l * (t / c) <= c * (t / c)) by (nonlinear_arith)
        requires
            0 <= l <= c,
            t / c >= 0,
    ;
    assert(t % c >= 0);
}

/// Each layer's size has the total's sign and at most `l` shares of it.
pub proof fn lemma_layer_size_bounds(t: int, c: int, l: nat)
    requires
        fits(t),
        layer_count_fits(c),
        l <= c,
    ensures
        t >= 0 ==> 0 <= layer_size(t, c, l) <= l * (t / c),
        t < 0 ==> -(l * ((-t) / c)) <= layer_size(t, c, l) <= 0,
    decreases l,
{
    if l > 0 {
        lemma_layer_size_bounds(t, c, (l - 1) as nat);
        lemma_size_denominator(c, l as int);
        lemma_size_quotient(t, c - l + 1, c);
        assert((l - 1) * (t / c) + t / c == l * (t / c)) by (nonlinear_arith);
        assert((l - 1) * ((-t) / c) + (-t) / c == l * ((-t) / c)) by (nonlinear_arith);
    }
}

/// Each layer's size fits.
pub proof fn lemma_layer_size_fits(t: int, c: int, l: nat)
    requires
        fits(t),
        layer_count_fits(c),
        1 <= l <= c,
    ensures
        fits(layer_size(t, c, l)),
        fits(layer_size(t, c, (l - 1) as nat)),
        size_denominator_bits(c, l as int) != 0,
        fits(div_bits(t, size_denominator_bits(c, l as int))),
{
    lemma_layer_size_bounds(t, c, l);
    lemma_layer_size_bounds(t, c, (l - 1) as nat);
    lemma_size_denominator(c, l as int);
    lemma_size_quotient(t, c - l + 1, c);
    if t >= 0 {
        lemma_shares_within_total(t, c, l as int);
        lemma_shares_within_total(t, c, l - 1);
        lemma_shares_within_total(t, c, 1);
    } else {
        lemma_shares_within_total(-t, c, l as int);
        lemma_shares_within_total(-t, c, l - 1);
        lemma_shares_within_total(-t, c, 1);
    }
}

/// A layer count that fits is below `2^40`.
pub proof fn lemma_layer_count_small(c: int)
    requires
        c >= 0,
        layer_count_fits(c),
    ensures
        c < 0x100_0000_0000,
{
    if c >= 0x100_0000_0000 {
        assert(c * c >= 0x100_0000_0000 * 0x100_0000_0000) by (nonlinear_arith)
            requires
                c >= 0x100_0000_0000,
        ;
        assert(c * c * scale() >= 0x100_0000_0000 * 0x100_0000_0000 * scale()) by (
        nonlinear_arith)
            requires
                c * c >= 0x100_0000_0000 * 0x100_0000_0000,
        ;
    }
}

/// The step between layer prices is at least one and at most eight units.
pub proof fn lemma_layer_step(spacing: int)
    requires
        0 <= spacing <= u16::MAX,
    ensures
        scale() <= layer_step_bits(spacing) <= 8 * scale(),
        fits(int_bits(BPS_UNIT as int) + int_bits(spacing)),
{
    let s = scale();
    let a = int_bits(BPS_UNIT as int) + int_bits(spacing);
    let b = int_bits(BPS_UNIT as int);
    assert(a * s >= 0);
    assert(div_bits(a, b) == (a * s) / b);
    lemma_div_multiples_vanish(s, b);
    lemma_div_multiples_vanish(8 * s, b);
    assert(b * s <= a * s);
    assert(a * s <= b * (8 * s));
    lemma_div_is_ordered(b * s, a * s, b);
    lemma_div_is_ordered(a * s, b * (8 * s), b);
    assert(b * s == s * b);
}

/// Dividing by a step of at least one unit keeps the sign and does not
/// grow the number.
pub proof fn lemma_div_by_step(p: int, step: int)
    requires
        step >= scale(),
    ensures
        p >= 0 ==> 0 <= div_bits(p, step) <= p,
        p < 0 ==> p <= div_bits(p, step) <= 0,
{
    let s = scale();
    let u = if p >= 0 { p } else { -p };
    assert(u * s >= 0) by (nonlinear_arith)
        requires
            u >= 0,
            s > 0,
    ;
    lemma_div_is_ordered_by_denominator(u * s, s, step);
    lemma_div_by_multiple(u, s);
    lemma_div_pos_is_pos(u * s, step);
    if p < 0 {
        assert(p * s < 0) by (nonlinear_arith)
            requires
                p < 0,
                s > 0,
        ;
        assert(-(p * s) == u * s);
    }
}

/// Bid prices keep the bid's sign and never grow in size.
pub proof fn lemma_bid_price_bounds(bid: int, step: int, l: nat)
    requires
        step >= scale(),
    ensures
        bid >= 0 ==> 0 <= bid_price(bid, step, l) <= bid,
        bid < 0 ==> bid <= bid_price(bid, step, l) <= 0,
    decreases l,
{
    if l > 1 {
        lemma_bid_price_bounds(bid, step, (l - 1) as nat);
        lemma_div_by_step(bid_price(bid, step, (l - 1) as nat), step);
    }
}

/// Ask prices never come below a nonnegative ask: each layer's price is the
/// previous one's times a step of at least one.
pub proof fn lemma_ask_price_bounds(ask: int, step: int, l: nat)
    requires
        step >= scale(),
        ask >= 0,
    ensures
        ask_price(ask, step, l) >= ask,
    decreases l,
{
    if l > 1 {
        lemma_ask_price_bounds(ask, step, (l - 1) as nat);
        let p = ask_price(ask, step, (l - 1) as nat);
        let s = scale();
        assert(p * step >= p * s) by (nonlinear_arith)
            requires
                p >= 0,
                step >= s,
        ;
        assert((p * step) / s >= (p * s) / s) by (nonlinear_arith)
            requires
                p * step >= p * s,
                s > 0,
        ;
        assert((p * s) / s == p) by (nonlinear_arith)
            requires
                s > 0,
        ;
    }
}

/// The bid layers are `n` bids, the one at index `i` for layer `i + 1`.
pub proof fn lemma_bid_layers_layout(bid: int, step: int, total: int, count: int, n: nat)
    requires
        n <= usize::MAX,
    ensures
        bid_layers(bid, step, total, count, n).len() == n,
        forall|i: int| 0 <= i < n ==> (#[trigger] bid_layers(bid, step, total, count, n)[i]).side == Side::Bid
            && bid_layers(bid, step, total, count, n)[i].layer == i + 1,
    decreases n,
{
    if n > 0 {
        lemma_bid_layers_layout(bid, step, total, count, (n - 1) as nat);
        let prev = bid_layers(bid, step, total, count, (n - 1) as nat);
        let cur = bid_layers(bid, step, total, count, n);
        assert forall|i: int| 0 <= i < n implies (#[trigger] cur[i]).side == Side::Bid && cur[i].layer == i + 1 by {
            if i < n - 1 {
                assert(cur[i] == prev[i]);
            }
        }
    }
}

/// The ask layers are `n` asks, the one at index `i` for layer `i + 1`.
pub proof fn lemma_ask_layers_layout(ask: int, step: int, total: int, count: int, n: nat)
    requires
        n <= usize::MAX,
    ensures
        ask_layers(ask, step, total, count, n).len() == n,
        forall|i: int| 0 <= i < n ==> (#[trigger] ask_layers(ask, step, total, count, n)[i]).side == Side::Ask
            && ask_layers(ask, step, total, count, n)[i].layer == i + 1,
    decreases n,
{
    if n > 0 {
        lemma_ask_layers_layout(ask, step, total, count, (n - 1) as nat);
        let prev = ask_layers(ask, step, total, count, (n - 1) as nat);
        let cur = ask_layers(ask, step, total, count, n);
        assert forall|i: int| 0 <= i < n implies (#[trigger] cur[i]).side == Side::Ask && cur[i].layer == i + 1 by {
            if i < n - 1 {
                assert(cur[i] == prev[i]);
            }
        }
    }
}

} // verus!
