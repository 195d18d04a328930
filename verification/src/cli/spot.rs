//! Spot-market commands: their arguments, and the per-side totals of the
//! open orders they list.
use vstd::prelude::*;
use crate::address::Address;
use crate::cli::command::CliCommand;
use crate::cli::values::{optional_address, parsed_address};
use crate::cli::{
    fixed_arg, not_recognized, order_type_arg, rejected, required_order_type, required_fixed, required_side, required_text, side_arg,
    text_arg, text_is, unrecognized, CliError, PRICE_INVALID, PRICE_MISSING, SIDE_MISSING,
    SIDE_MISSING_PLACE, SIZE_INVALID, SIZE_MISSING, SIZE_MISSING_PLACE,
};
use crate::common::orders::Side;
use crate::fixed_point::{fits, Fixed};

verus! {

/// A spot-market command.
#[derive(Debug)]
pub enum SpotSubCommand {
    Orders { pubkey: Option<Address> },
    Settle { symbol: String },
    Market { symbol: String, side: Side, size: Fixed },
    Place { symbol: String, side: Side, size: Fixed, price: Fixed, order_type: String },
    Book { symbol: String },
}

/// The arguments given to the `spot` command: the name of its subcommand
/// (`None` when none was given) and the values given to that subcommand.
pub struct SpotMatches {
    pub subcommand: Option<String>,
    pub symbol: Option<String>,
    pub side: Option<String>,
    pub size: Option<String>,
    pub price: Option<String>,
    pub order_type: Option<String>,
    pub pubkey: Option<String>,
}

/// The message when the market symbol is missing.
pub const SYMBOL_MISSING: &'static str = "Symbol not provided, to see available markets try \"list pools\" command.";
/// The message when the market symbol is missing (place command).
pub const SYMBOL_MISSING_PLACE: &'static str = "Symbol not provided. To see available markets try \"list pools\" command.";
/// The message when no subcommand is given.
pub const NO_SUBCOMMAND: &'static str = "No market maker subcommand given.";

/// The subcommand names of the `spot` command.
pub open spec fn is_spot_subcommand(name: Seq<char>) -> bool {
    name == "book"@ || name == "settle"@ || name == "orders"@ || name == "market"@ || name == "place"@
}

/// The outcome of `spot book` and `spot settle`.
pub open spec fn symbol_parsed(m: SpotMatches, r: Result<CliCommand, CliError>, book: bool) -> bool {
    match text_arg(m.symbol, SYMBOL_MISSING@) {
        Err(msg) => rejected(r, msg),
        Ok(symbol) => if book {
            r matches Ok(CliCommand::Spot(SpotSubCommand::Book { symbol: s })) && s@ == symbol
        } else {
            r matches Ok(CliCommand::Spot(SpotSubCommand::Settle { symbol: s })) && s@ == symbol
        },
    }
}

/// The outcome of `spot market`: symbol, side, size, in that order.
pub open spec fn market_parsed(m: SpotMatches, r: Result<CliCommand, CliError>) -> bool {
    match text_arg(m.symbol, SYMBOL_MISSING@) {
        Err(msg) => rejected(r, msg),
        Ok(symbol) => match side_arg(m.side, SIDE_MISSING@) {
            Err(msg) => rejected(r, msg),
            Ok(side) => match fixed_arg(m.size, SIZE_MISSING@, SIZE_INVALID@) {
                Err(msg) => rejected(r, msg),
                Ok(size) => r matches Ok(
                    CliCommand::Spot(SpotSubCommand::Market { symbol: s, side: d, size: z }),
                ) && s@ == symbol && d == side && z == size,
            },
        },
    }
}

/// The outcome of `spot place`: symbol, side, size, price, order type, in
/// that order.
pub open spec fn place_parsed(m: SpotMatches, r: Result<CliCommand, CliError>) -> bool {
    match text_arg(m.symbol, SYMBOL_MISSING_PLACE@) {
        Err(msg) => rejected(r, msg),
        Ok(symbol) => match side_arg(m.side, SIDE_MISSING_PLACE@) {
            Err(msg) => rejected(r, msg),
            Ok(side) => match fixed_arg(m.size, SIZE_MISSING_PLACE@, SIZE_INVALID@) {
                Err(msg) => rejected(r, msg),
                Ok(size) => match fixed_arg(m.price, PRICE_MISSING@, PRICE_INVALID@) {
                    Err(msg) => rejected(r, msg),
                    Ok(price) => match order_type_arg(m.order_type) {
                        Err(msg) => rejected(r, msg),
                        Ok(order_type) => r matches Ok(
                            CliCommand::Spot(
                                SpotSubCommand::Place { symbol: s, side: d, size: z, price: p, order_type: t },
                            ),
                        ) && s@ == symbol && d == side && z == size && p == price && t@ == order_type,
                    },
                },
            },
        },
    }
}

/// The outcome of the `spot` subcommand with the given name; `None` where an
/// authority is given that is not an address.
pub open spec fn spot_parsed(name: Seq<char>, m: SpotMatches, r: Option<Result<CliCommand, CliError>>) -> bool {
    if name == "orders"@ {
        match m.pubkey {
            None => r == Some(Ok::<CliCommand, CliError>(CliCommand::Spot(SpotSubCommand::Orders { pubkey: None }))),
            Some(s) => match parsed_address(s@) {
                Some(a) => r == Some(Ok::<CliCommand, CliError>(CliCommand::Spot(SpotSubCommand::Orders { pubkey: Some(a) }))),
                None => r is None,
            },
        }
    } else {
        r matches Some(x) && if name == "book"@ {
            symbol_parsed(m, x, true)
        } else if name == "settle"@ {
            symbol_parsed(m, x, false)
        } else if name == "market"@ {
            market_parsed(m, x)
        } else {
            place_parsed(m, x)
        }
    }
}

/// The outcome of parsing the arguments of the `spot` command.
pub open spec fn spot_outcome(m: SpotMatches, r: Option<Result<CliCommand, CliError>>) -> bool {
    match m.subcommand {
        None => r matches Some(x) && unrecognized(x, NO_SUBCOMMAND@),
        Some(name) => spot_parsed(name@, m, r),
    }
}

/// Parses the arguments of the `spot` command. The subcommand, when given,
/// is one of the names the command line declares. `None` where an authority
/// is given that is not an address.
pub fn parse_spot_command(matches: &SpotMatches) -> (r: Option<Result<CliCommand, CliError>>)
    requires
        matches.subcommand matches Some(name) ==> is_spot_subcommand(name@),
    ensures
        spot_outcome(*matches, r),
{
    let name = match &matches.subcommand {
        Some(name) => name,
        None => {
            return Some(Err(not_recognized(NO_SUBCOMMAND)));
        },
    };
    if text_is(name, "orders") {
        match optional_address(&matches.pubkey) {
            Some(pubkey) => Some(Ok(CliCommand::Spot(SpotSubCommand::Orders { pubkey }))),
            None => None,
        }
    } else {
        Some(parse_symbol_command(name, matches))
    }
}

/// The subcommands of `spot` that name a market.
fn parse_symbol_command(name: &String, matches: &SpotMatches) -> (r: Result<CliCommand, CliError>)
    requires
        name@ != "orders"@,
    ensures
        spot_parsed(name@, *matches, Some(r)),
{
    if text_is(name, "book") || text_is(name, "settle") {
        let symbol = match required_text(&matches.symbol, SYMBOL_MISSING) {
            Ok(v) => v,
            Err(e) => {
                return Err(e);
            },
        };
        if text_is(name, "book") {
            Ok(CliCommand::Spot(SpotSubCommand::Book { symbol }))
        } else {
            Ok(CliCommand::Spot(SpotSubCommand::Settle { symbol }))
        }
    } else if text_is(name, "market") {
        let symbol = match required_text(&matches.symbol, SYMBOL_MISSING) {
            Ok(v) => v,
            Err(e) => {
                return Err(e);
            },
        };
        let side = match required_side(&matches.side, SIDE_MISSING) {
            Ok(v) => v,
            Err(e) => {
                return Err(e);
            },
        };
        let size = match required_fixed(&matches.size, SIZE_MISSING, SIZE_INVALID) {
            Ok(v) => v,
            Err(e) => {
                return Err(e);
            },
        };
        Ok(CliCommand::Spot(SpotSubCommand::Market { symbol, side, size }))
    } else {
        let symbol = match required_text(&matches.symbol, SYMBOL_MISSING_PLACE) {
            Ok(v) => v,
            Err(e) => {
                return Err(e);
            },
        };
        let side = match required_side(&matches.side, SIDE_MISSING_PLACE) {
            Ok(v) => v,
            Err(e) => {
                return Err(e);
            },
        };
        let size = match required_fixed(&matches.size, SIZE_MISSING_PLACE, SIZE_INVALID) {
            Ok(v) => v,
            Err(e) => {
                return Err(e);
            },
        };
        let price = match required_fixed(&matches.price, PRICE_MISSING, PRICE_INVALID) {
            Ok(v) => v,
            Err(e) => {
                return Err(e);
            },
        };
        let order_type = match required_order_type(&matches.order_type) {
            Ok(v) => v,
            Err(e) => {
                return Err(e);
            },
        };
        Ok(CliCommand::Spot(SpotSubCommand::Place { symbol, side, size, price, order_type }))
    }
}

/// An open order's side and its quantities in whole tokens.
#[derive(Clone, Copy, Debug, PartialEq, Eq, Structural)]
pub struct OrderAmounts {
    pub side: Side,
    pub base: Fixed,
    pub quote: Fixed,
}

/// The summed quantities of the open orders on each side of a book.
#[derive(Clone, Copy, Debug, PartialEq, Eq, Structural)]
pub struct SideTotals {
    pub bid_base: Fixed,
    pub bid_quote: Fixed,
    pub ask_base: Fixed,
    pub ask_quote: Fixed,
}

/// The quantity of an order that counts towards a side's base (or quote)
/// total: its own when it is on that side, else nothing.
pub open spec fn side_share(o: OrderAmounts, side: Side, quote: bool) -> int {
    if o.side == side {
        if quote { o.quote.val() } else { o.base.val() }
    } else {
        0
    }
}

/// The sum of the base (or quote) quantities of the orders on one side.
pub open spec fn side_sum(orders: Seq<OrderAmounts>, side: Side, quote: bool) -> int
    decreases orders.len(),
{
    if orders.len() == 0 {
        0
    } else {
        side_sum(orders.drop_last(), side, quote) + side_share(orders.last(), side, quote)
    }
}

/// Every running total, taken order by order, fits.
pub open spec fn totals_fit(orders: Seq<OrderAmounts>) -> bool
    decreases orders.len(),
{
    orders.len() == 0 || {
        &&& totals_fit(orders.drop_last())
        &&& fits(side_sum(orders, orders.last().side, false))
        &&& fits(side_sum(orders, orders.last().side, true))
    }
}

/// A prefix of orders whose running totals fit has running totals that fit.
pub proof fn lemma_totals_fit_prefix(orders: Seq<OrderAmounts>, k: int)
    requires
        totals_fit(orders),
        0 <= k <= orders.len(),
    ensures
        totals_fit(orders.take(k)),
    decreases orders.len(),
{
    if k == orders.len() {
        assert(orders.take(k) =~= orders);
    } else {
        assert(orders.drop_last().take(k) =~= orders.take(k));
        lemma_totals_fit_prefix(orders.drop_last(), k);
    }
}

/// Sums the quantities of the open orders on each side. `None` when a
/// running total overflows.
pub fn side_totals(orders: &Vec<OrderAmounts>) -> (r: Option<SideTotals>)
    ensures
        r is Some <==> totals_fit(orders@),
        r matches Some(t) ==> {
            &&& t.bid_base.val() == side_sum(orders@, Side::Bid, false)
            &&& t.bid_quote.val() == side_sum(orders@, Side::Bid, true)
            &&& t.ask_base.val() == side_sum(orders@, Side::Ask, false)
            &&& t.ask_quote.val() == side_sum(orders@, Side::Ask, true)
        },
{
    let mut totals = SideTotals {
        bid_base: Fixed::zero(),
        bid_quote: Fixed::zero(),
        ask_base: Fixed::zero(),
        ask_quote: Fixed::zero(),
    };
    let mut i: usize = 0;
    proof {
        assert(orders@.take(0) =~= Seq::<OrderAmounts>::empty());
    }
    while i < orders.len()
        invariant
            i <= orders.len(),
            totals_fit(orders@.take(i as int)),
            totals.bid_base.val() == side_sum(orders@.take(i as int), Side::Bid, false),
            totals.bid_quote.val() == side_sum(orders@.take(i as int), Side::Bid, true),
            totals.ask_base.val() == side_sum(orders@.take(i as int), Side::Ask, false),
            totals.ask_quote.val() == side_sum(orders@.take(i as int), Side::Ask, true),
        decreases orders.len() - i,
    {
        let o = orders[i];
        let ghost next = orders@.take(i + 1);
        proof {
            assert(next.drop_last() =~= orders@.take(i as int));
            assert(next.last() == o);
        }
        match o.side {
            Side::Bid => {
                let b = totals.bid_base.checked_add(o.base);
                let q = totals.bid_quote.checked_add(o.quote);
                if b.is_none() || q.is_none() {
                    proof {
                        if totals_fit(orders@) {
                            lemma_totals_fit_prefix(orders@, i + 1);
                        }
                    }
                    return None;
                }
                totals.bid_base = b.unwrap();
                totals.bid_quote = q.unwrap();
            },
            Side::Ask => {
                let b = totals.ask_base.checked_add(o.base);
                let q = totals.ask_quote.checked_add(o.quote);
                if b.is_none() || q.is_none() {
                    proof {
                        if totals_fit(orders@) {
                            lemma_totals_fit_prefix(orders@, i + 1);
                        }
                    }
                    return None;
                }
                totals.ask_base = b.unwrap();
                totals.ask_quote = q.unwrap();
            },
        }
        i = i + 1;
    }
    proof {
        assert(orders@.take(orders@.len() as int) =~= orders@);
    }
    Some(totals)
}

/// The balances an open orders account holds, in native units.
#[derive(Clone, Copy, Debug, PartialEq, Eq, Structural)]
pub struct OpenOrdersBalances {
    pub coin_free: u64,
    pub coin_total: u64,
    pub pc_free: u64,
    pub pc_total: u64,
}

impl OpenOrdersBalances {
    /// Whether any balance is nonzero (only then are they listed).
    pub fn has_balances(&self) -> (r: bool)
        ensures
            r == (self.coin_free != 0 || self.coin_total != 0 || self.pc_free != 0 || self.pc_total != 0),
    {
        self.coin_free != 0 || self.coin_total != 0 || self.pc_free != 0 || self.pc_total != 0
    }

    /// The base tokens locked in orders: the total less the free part, or
    /// `None` when the free part exceeds the total.
    pub fn coin_locked(&self) -> (r: Option<u64>)
        ensures
            r == (if self.coin_free <= self.coin_total {
                Some((self.coin_total - self.coin_free) as u64)
            } else {
                None::<u64>
            }),
    {
        self.coin_total.checked_sub(self.coin_free)
    }

    /// The quote tokens locked in orders: the total less the free part, or
    /// `None` when the free part exceeds the total.
    pub fn pc_locked(&self) -> (r: Option<u64>)
        ensures
            r == (if self.pc_free <= self.pc_total {
                Some((self.pc_total - self.pc_free) as u64)
            } else {
                None::<u64>
            }),
    {
        self.pc_total.checked_sub(self.pc_free)
    }
}

/// The sub-accounts an account has registered: the nonzero addresses of its
/// sub-account slots, in slot order.
pub fn registered_sub_accounts(slots: &Vec<Address>) -> (r: Vec<Address>)
    ensures
        r@ == slots@.filter(|a: Address| !a.is_zero()),
{
    let mut r: Vec<Address> = Vec::new();
    for i in 0..slots.len()
        invariant
            r@ == slots@.take(i as int).filter(|a: Address| !a.is_zero()),
    {
        proof {
            assert(slots@.take(i + 1).drop_last() =~= slots@.take(i as int));
            reveal(Seq::filter);
        }
        if !slots[i].is_unset() {
            r.push(slots[i]);
        }
    }
    proof {
        assert(slots@.take(slots@.len() as int) =~= slots@);
    }
    r
}

} // verus!
