//! Amounts given in whole tokens turned into native units, and the quote
//! quantities that orders reserve.
use vstd::prelude::*;
use crate::common::orders::Side;
use crate::fixed_point::{fits, floor_int, int_bits, mul_bits, scale, Fixed};
use crate::liquidator::simulation::{pow10, ten_pow};

verus! {

/// The native units of an amount given in whole tokens of a token with
/// `decimals` decimals: the amount times `10^decimals`, rounded towards
/// negative infinity. `None` when `10^decimals` does not fit in a `u64`,
/// when the product overflows, or when the result is not a `u64`.
pub open spec fn native_units(amount: Fixed, decimals: u8) -> Option<u64> {
    if decimals <= 19 {
        let p = mul_bits(amount.val(), int_bits(ten_pow(decimals as nat) as int));
        if fits(p) && 0 <= floor_int(p) <= u64::MAX {
            Some(floor_int(p) as u64)
        } else {
            None
        }
    } else {
        None
    }
}

/// The native units of an amount given in whole tokens.
pub fn native_quantity(amount: Fixed, decimals: u8) -> (r: Option<u64>)
    ensures
        r == native_units(amount, decimals),
{
    if decimals > 19 {
        return None;
    }
    let unit = Fixed::from_u64(pow10(decimals));
    match amount.checked_mul(unit) {
        Some(p) => p.checked_to_u64(),
        None => None,
    }
}

/// A whole number of tokens is that number times `10^decimals` native
/// units, when that fits in a `u64`.
pub proof fn lemma_native_units_whole(n: u64, decimals: u8)
    requires
        decimals <= 19,
        n * ten_pow(decimals as nat) <= u64::MAX,
    ensures
        fits(int_bits(n as int)),
        native_units(Fixed { bits: int_bits(n as int) as i128 }, decimals)
            == Some((n * ten_pow(decimals as nat)) as u64),
{
    let t = ten_pow(decimals as nat) as int;
    let s = scale();
    let k = n * t;
    assert(0 <= k <= u64::MAX);
    assert(0 <= n as int * s <= u64::MAX * s) by (nonlinear_arith)
        requires
            0 <= n <= u64::MAX,
            s == 0x1_0000_0000_0000int,
    ;
    assert(int_bits(n as int) == n as int * s);
    assert(n as int * s * (t * s) == (k * s) * s) by (nonlinear_arith)
        requires
            k == n * t,
    ;
    assert(mul_bits(n as int * s, t * s) == k * s) by (nonlinear_arith)
        requires
            s > 0,
            n as int * s * (t * s) == (k * s) * s,
            mul_bits(n as int * s, t * s) == (n as int * s * (t * s)) / s,
    ;
    assert(0 <= k * s <= u64::MAX * s) by (nonlinear_arith)
        requires
            0 <= k <= u64::MAX,
            s == 0x1_0000_0000_0000int,
    ;
    assert(floor_int(k * s) == k) by (nonlinear_arith)
        requires
            s > 0,
            floor_int(k * s) == (k * s) / s,
    ;
}

/// The quote quantity of `base` native units at `price`, when it fits.
pub open spec fn notional(base: u64, price: u64) -> Option<u64> {
    if base * price <= u64::MAX {
        Some((base * price) as u64)
    } else {
        None
    }
}

/// The native base and quote quantities of an order of `size` whole tokens
/// at `limit_price`: the base in native units, and the base times the price.
pub open spec fn order_quantities_spec(size: Fixed, decimals: u8, limit_price: u64) -> Option<(u64, u64)> {
    match native_units(size, decimals) {
        Some(base) => match notional(base, limit_price) {
            Some(quote) => Some((base, quote)),
            None => None,
        },
        None => None,
    }
}

/// The native base and quote quantities of an order of `size` whole tokens
/// at `limit_price` (market and limit orders on derivative markets). `None`
/// where a step overflows or the size is negative.
pub fn order_quantities(size: Fixed, decimals: u8, limit_price: u64) -> (r: Option<(u64, u64)>)
    ensures
        r == order_quantities_spec(size, decimals, limit_price),
{
    match native_quantity(size, decimals) {
        Some(base) => match base.checked_mul(limit_price) {
            Some(quote) => Some((base, quote)),
            None => None,
        },
        None => None,
    }
}

/// The side of the order that closes a position: a short position is
/// bought back, any other is sold.
pub fn close_side(position: Fixed) -> (r: Side)
    ensures
        r == (if position.val() < 0 { Side::Bid } else { Side::Ask }),
{
    if position.is_negative() {
        Side::Bid
    } else {
        Side::Ask
    }
}

/// The quote reserve of an order that closes a position: the notional plus
/// `notional * 10030 / 10000` on top of it.
pub open spec fn close_quote(notional: u64) -> Option<u64> {
    if notional * 10030 <= u64::MAX && notional + (notional * 10030) / 10000 <= u64::MAX {
        Some((notional + (notional * 10030) / 10000) as u64)
    } else {
        None
    }
}

/// The base and quote quantities of the order that closes a position: the
/// base is the whole part of the position's size, the quote reserve is
/// [`close_quote`] of its notional.
pub open spec fn close_quantities_spec(position: Fixed, limit_price: u64) -> Option<(u64, u64)> {
    let size = if position.val() < 0 { -position.val() } else { position.val() };
    if position.bits != i128::MIN && floor_int(size) <= u64::MAX {
        let base = floor_int(size) as u64;
        match notional(base, limit_price) {
            Some(n) => match close_quote(n) {
                Some(q) => Some((base, q)),
                None => None,
            },
            None => None,
        }
    } else {
        None
    }
}

/// The base and quote quantities of the order that closes a position held
/// in native units, at `limit_price`. The quote reserve is never below the
/// notional. `None` where a step overflows.
pub fn close_quantities(position: Fixed, limit_price: u64) -> (r: Option<(u64, u64)>)
    ensures
        r == close_quantities_spec(position, limit_price),
        r matches Some((base, quote)) ==> quote >= base * limit_price,
{
    if position.bits == i128::MIN {
        return None;
    }
    let size = position.abs();
    let base = match size.checked_to_u64() {
        Some(b) => b,
        None => {
            return None;
        },
    };
    let n = match base.checked_mul(limit_price) {
        Some(n) => n,
        None => {
            return None;
        },
    };
    let scaled = match n.checked_mul(10030) {
        Some(s) => s,
        None => {
            return None;
        },
    };
    match n.checked_add(scaled / 10000) {
        Some(q) => Some((base, q)),
        None => None,
    }
}

/// An order that closes a position of a whole number of native units trades
/// exactly that many units, on the opposite side.
pub proof fn lemma_close_whole_position(n: int, limit_price: u64)
    requires
        -(u64::MAX as int) <= n <= u64::MAX,
        close_quantities_spec(Fixed { bits: int_bits(n) as i128 }, limit_price) is Some,
    ensures
        fits(int_bits(n)),
        (close_quantities_spec(Fixed { bits: int_bits(n) as i128 }, limit_price)->0).0
            == (if n < 0 { -n } else { n }),
{
    let s = scale();
    let m = if n < 0 { -n } else { n };
    assert(-(u64::MAX as int) * s <= n * s <= u64::MAX * s) by (nonlinear_arith)
        requires
            -(u64::MAX as int) <= n <= u64::MAX,
            s == 0x1_0000_0000_0000int,
    ;
    assert(int_bits(n) == n * s);
    assert((if n * s < 0 { -(n * s) } else { n * s }) == m * s) by (nonlinear_arith)
        requires
            s > 0,
            m == (if n < 0 { -n } else { n }),
    ;
    assert(floor_int(m * s) == m) by (nonlinear_arith)
        requires
            s > 0,
            floor_int(m * s) == (m * s) / s,
    ;
}

/// How a spot order rests on the book.
#[derive(Clone, Copy, Debug, PartialEq, Eq, Structural)]
pub enum SpotOrderType {
    Limit,
    PostOnly,
    ImmediateOrCancel,
}

/// The quote reserve of an order that may take liquidity: the notional in
/// native quote units (`coin * price * pc_lot_size`) plus the taker fee of
/// `taker_bps` basis points, rounded down.
pub open spec fn taker_quote(coin: u64, price: u64, pc_lot_size: u64, taker_bps: u16) -> Option<u64> {
    let n = coin * price;
    let m = n * pc_lot_size;
    let f = m * (10_000 + taker_bps);
    if n <= u64::MAX && m <= u64::MAX && f <= u64::MAX {
        Some((f / 10_000) as u64)
    } else {
        None
    }
}

/// The quote reserve of a post-only order: the notional in native quote
/// units, with no fee.
pub open spec fn post_only_quote(coin: u64, price: u64, pc_lot_size: u64) -> Option<u64> {
    let n = coin * price;
    let m = n * pc_lot_size;
    if n <= u64::MAX && m <= u64::MAX {
        Some(m as u64)
    } else {
        None
    }
}

/// The native quote quantity, fees included, that a spot order of
/// `coin_lots` lots at `limit_price` reserves. `None` where a step overflows.
pub fn spot_max_native_pc_qty(
    coin_lots: u64,
    limit_price: u64,
    pc_lot_size: u64,
    taker_bps: u16,
    order_type: SpotOrderType,
) -> (r: Option<u64>)
    ensures
        r == (if order_type == SpotOrderType::PostOnly {
            post_only_quote(coin_lots, limit_price, pc_lot_size)
        } else {
            taker_quote(coin_lots, limit_price, pc_lot_size, taker_bps)
        }),
{
    let n = match coin_lots.checked_mul(limit_price) {
        Some(n) => n,
        None => {
            return None;
        },
    };
    let m = match n.checked_mul(pc_lot_size) {
        Some(m) => m,
        None => {
            return None;
        },
    };
    if order_type == SpotOrderType::PostOnly {
        Some(m)
    } else {
        let bps: u64 = 10_000u64 + taker_bps as u64;
        match m.checked_mul(bps) {
            Some(f) => Some(f / 10_000),
            None => None,
        }
    }
}

/// A taker fee never lowers the reserve below the bare notional, and adds at
/// most `taker_bps` basis points of it.
pub proof fn lemma_taker_quote_bounds(coin: u64, price: u64, pc_lot_size: u64, taker_bps: u16)
    requires
        taker_quote(coin, price, pc_lot_size, taker_bps) is Some,
    ensures
        post_only_quote(coin, price, pc_lot_size) is Some,
        ({
            let t = taker_quote(coin, price, pc_lot_size, taker_bps)->0 as int;
            let p = post_only_quote(coin, price, pc_lot_size)->0 as int;
            p <= t && t * 10_000 <= p * (10_000 + taker_bps)
        }),
{
    let m = coin * price * pc_lot_size;
    let b = 10_000 + taker_bps;
    assert(m * b == m * 10_000 + m * taker_bps) by (nonlinear_arith)
        requires
            b == 10_000 + taker_bps,
    ;
    assert(m * taker_bps >= 0) by (nonlinear_arith)
        requires
            m >= 0,
            taker_bps >= 0,
    ;
    assert(m <= (m * b) / 10_000) by (nonlinear_arith)
        requires
            m * b >= m * 10_000,
            m >= 0,
    ;
    assert(((m * b) / 10_000) * 10_000 <= m * b) by (nonlinear_arith)
        requires
            m * b >= 0,
    ;
}

/// The order type a spot limit order asks for: "limit" or "postOnly";
/// `None` for any other word.
pub fn spot_order_type(text: &String) -> (r: Option<SpotOrderType>)
    ensures
        r == (if text@ == "limit"@ {
            Some(SpotOrderType::Limit)
        } else if text@ == "postOnly"@ {
            Some(SpotOrderType::PostOnly)
        } else {
            None
        }),
{
    if crate::cli::text_is(text, "limit") {
        Some(SpotOrderType::Limit)
    } else if crate::cli::text_is(text, "postOnly") {
        Some(SpotOrderType::PostOnly)
    } else {
        None
    }
}

} // verus!
