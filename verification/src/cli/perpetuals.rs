//! Perpetual-market commands: their arguments, and the quantities of the
//! orders they submit.
use vstd::prelude::*;
use crate::cli::command::CliCommand;
use crate::cli::values::{parsed_u128, u128_from_str};
use crate::cli::{
    bad_parameters, fixed_arg, not_recognized, order_type_arg, prefixed, rejected, required_order_type, required_fixed, required_side,
    required_text, side_arg, text_arg, text_is, unrecognized, CliError, PRICE_INVALID,
    PRICE_MISSING, SIDE_MISSING, SIDE_MISSING_PLACE, SIZE_INVALID, SIZE_MISSING,
    SIZE_MISSING_PLACE,
};
use crate::common::orders::Side;
use crate::fixed_point::Fixed;

verus! {

/// A perpetual-market command.
#[derive(Debug)]
pub enum PerpetualsSubCommand {
    Orders,
    Cancel { symbol: String, order_id: u128, side: Side },
    Close { symbol: String },
    Settle { symbol: String },
    Market { symbol: String, side: Side, size: Fixed },
    Place { symbol: String, side: Side, size: Fixed, price: Fixed, order_type: String },
}

/// The arguments given to the `perps` command: the name of its subcommand
/// (`None` when none was given) and the values given to that subcommand.
pub struct PerpsMatches {
    pub subcommand: Option<String>,
    pub symbol: Option<String>,
    pub side: Option<String>,
    pub size: Option<String>,
    pub price: Option<String>,
    pub order_id: Option<String>,
    pub order_type: Option<String>,
}

/// The message when the market symbol is missing.
pub const SYMBOL_MISSING: &'static str = "Symbol not provided, to see available markets try \"list perps\" command.";
/// The message when the market symbol is missing (place command).
pub const SYMBOL_MISSING_PLACE: &'static str = "Symbol not provided. To see available markets try \"list perps\" command.";
/// The message when the order ID is missing.
pub const ORDER_ID_MISSING: &'static str = "Order ID not provided, to see open orders try \"perps orders\" command.";
/// What precedes the parse error of an order ID.
pub const ORDER_ID_INVALID: &'static str = "Invalid Order ID: ";
/// The message when no subcommand is given.
pub const NO_SUBCOMMAND: &'static str = "No perpetuals subcommand given.";

/// The subcommand names of the `perps` command.
pub open spec fn is_perps_subcommand(name: Seq<char>) -> bool {
    name == "orders"@ || name == "cancel"@ || name == "close"@ || name == "settle"@
        || name == "market"@ || name == "place"@
}

/// A required order ID argument, or the message when it is missing or does
/// not parse.
pub open spec fn order_id_arg(arg: Option<String>) -> Result<u128, Seq<char>> {
    match arg {
        Some(s) => match parsed_u128(s@) {
            Ok(v) => Ok(v),
            Err(e) => Err(ORDER_ID_INVALID@ + e),
        },
        None => Err(ORDER_ID_MISSING@),
    }
}

/// The outcome of `perps cancel`: the first missing or invalid argument is
/// reported, in the order symbol, order ID, side.
pub open spec fn cancel_parsed(m: PerpsMatches, r: Result<CliCommand, CliError>) -> bool {
    match text_arg(m.symbol, SYMBOL_MISSING@) {
        Err(msg) => rejected(r, msg),
        Ok(symbol) => match order_id_arg(m.order_id) {
            Err(msg) => rejected(r, msg),
            Ok(order_id) => match side_arg(m.side, SIDE_MISSING@) {
                Err(msg) => rejected(r, msg),
                Ok(side) => r matches Ok(
                    CliCommand::Perpetuals(PerpetualsSubCommand::Cancel { symbol: s, order_id: o, side: d }),
                ) && s@ == symbol && o == order_id && d == side,
            },
        },
    }
}

/// The outcome of `perps close` and `perps settle`.
pub open spec fn symbol_parsed(m: PerpsMatches, r: Result<CliCommand, CliError>, close: bool) -> bool {
    match text_arg(m.symbol, SYMBOL_MISSING@) {
        Err(msg) => rejected(r, msg),
        Ok(symbol) => if close {
            r matches Ok(CliCommand::Perpetuals(PerpetualsSubCommand::Close { symbol: s })) && s@ == symbol
        } else {
            r matches Ok(CliCommand::Perpetuals(PerpetualsSubCommand::Settle { symbol: s })) && s@ == symbol
        },
    }
}

/// The outcome of `perps market`: symbol, side, size, in that order.
pub open spec fn market_parsed(m: PerpsMatches, r: Result<CliCommand, CliError>) -> bool {
    match text_arg(m.symbol, SYMBOL_MISSING@) {
        Err(msg) => rejected(r, msg),
        Ok(symbol) => match side_arg(m.side, SIDE_MISSING@) {
            Err(msg) => rejected(r, msg),
            Ok(side) => match fixed_arg(m.size, SIZE_MISSING@, SIZE_INVALID@) {
                Err(msg) => rejected(r, msg),
                Ok(size) => r matches Ok(
                    CliCommand::Perpetuals(PerpetualsSubCommand::Market { symbol: s, side: d, size: z }),
                ) && s@ == symbol && d == side && z == size,
            },
        },
    }
}

/// The outcome of `perps place`: symbol, side, size, price, order type, in
/// that order.
pub open spec fn place_parsed(m: PerpsMatches, r: Result<CliCommand, CliError>) -> bool {
    match text_arg(m.symbol, SYMBOL_MISSING_PLACE@) {
        Err(msg) => rejected(r, msg),
        Ok(symbol) => match side_arg(m.side, SIDE_MISSING_PLACE@) {
            Err(msg) => rejected(r, msg),
            Ok(side) => match fixed_arg(m.size, SIZE_MISSING_PLACE@, SIZE_INVALID@) {
                Err(msg) => rejected(r, msg),
                Ok(size) => match fixed_arg(m.price, PRICE_MISSING@, PRICE_INVALID@) {
                    Err(msg) => rejected(r, msg),
                    Ok(price) => match order_type_arg(m.order_type) {
                        Err(msg) => rejected(r, msg),
                        Ok(order_type) => r matches Ok(
                            CliCommand::Perpetuals(
                                PerpetualsSubCommand::Place { symbol: s, side: d, size: z, price: p, order_type: t },
                            ),
                        ) && s@ == symbol && d == side && z == size && p == price && t@ == order_type,
                    },
                },
            },
        },
    }
}

/// The outcome of the `perps` subcommand with the given name.
pub open spec fn perps_parsed(name: Seq<char>, m: PerpsMatches, r: Result<CliCommand, CliError>) -> bool {
    if name == "orders"@ {
        r matches Ok(CliCommand::Perpetuals(PerpetualsSubCommand::Orders))
    } else if name == "cancel"@ {
        cancel_parsed(m, r)
    } else if name == "close"@ {
        symbol_parsed(m, r, true)
    } else if name == "settle"@ {
        symbol_parsed(m, r, false)
    } else if name == "market"@ {
        market_parsed(m, r)
    } else {
        place_parsed(m, r)
    }
}

/// The outcome of parsing the arguments of the `perps` command.
pub open spec fn perps_outcome(m: PerpsMatches, r: Result<CliCommand, CliError>) -> bool {
    match m.subcommand {
        None => unrecognized(r, NO_SUBCOMMAND@),
        Some(name) => perps_parsed(name@, m, r),
    }
}

/// Parses the arguments of the `perps` command. The subcommand, when given,
/// is one of the names the command line declares.
pub fn parse_perps_command(matches: &PerpsMatches) -> (r: Result<CliCommand, CliError>)
    requires
        matches.subcommand matches Some(name) ==> is_perps_subcommand(name@),
    ensures
        perps_outcome(*matches, r),
{
    let name = match &matches.subcommand {
        Some(name) => name,
        None => {
            return Err(not_recognized(NO_SUBCOMMAND));
        },
    };
    if text_is(name, "orders") {
        Ok(CliCommand::Perpetuals(PerpetualsSubCommand::Orders))
    } else if text_is(name, "cancel") {
        let symbol = match required_text(&matches.symbol, SYMBOL_MISSING) {
            Ok(v) => v,
            Err(e) => {
                return Err(e);
            },
        };
        let order_id = match &matches.order_id {
            Some(s) => match u128_from_str(s.as_str()) {
                Ok(v) => v,
                Err(e) => {
                    return Err(CliError::BadParameters(prefixed(ORDER_ID_INVALID, &e)));
                },
            },
            None => {
                return Err(bad_parameters(ORDER_ID_MISSING));
            },
        };
        let side = match required_side(&matches.side, SIDE_MISSING) {
            Ok(v) => v,
            Err(e) => {
                return Err(e);
            },
        };
        Ok(CliCommand::Perpetuals(PerpetualsSubCommand::Cancel { symbol, order_id, side }))
    } else if text_is(name, "close") {
        let symbol = match required_text(&matches.symbol, SYMBOL_MISSING) {
            Ok(v) => v,
            Err(e) => {
                return Err(e);
            },
        };
        Ok(CliCommand::Perpetuals(PerpetualsSubCommand::Close { symbol }))
    } else if text_is(name, "settle") {
        let symbol = match required_text(&matches.symbol, SYMBOL_MISSING) {
            Ok(v) => v,
            Err(e) => {
                return Err(e);
            },
        };
        Ok(CliCommand::Perpetuals(PerpetualsSubCommand::Settle { symbol }))
    } else if text_is(name, "market") {
        let symbol = match required_text(&matches.symbol, SYMBOL_MISSING) {
            Ok(v) => v,
            Err(e) => {
                return Err(e);
            },
        };
        let side = match required_side(&matches.side, SIDE_MISSING) {
            Ok(v) => v,
            Err(e) => {
                return Err(e);
            },
        };
        let size = match required_fixed(&matches.size, SIZE_MISSING, SIZE_INVALID) {
            Ok(v) => v,
            Err(e) => {
                return Err(e);
            },
        };
        Ok(CliCommand::Perpetuals(PerpetualsSubCommand::Market { symbol, side, size }))
    } else {
        let symbol = match required_text(&matches.symbol, SYMBOL_MISSING_PLACE) {
            Ok(v) => v,
            Err(e) => {
                return Err(e);
            },
        };
        let side = match required_side(&matches.side, SIDE_MISSING_PLACE) {
            Ok(v) => v,
            Err(e) => {
                return Err(e);
            },
        };
        let size = match required_fixed(&matches.size, SIZE_MISSING_PLACE, SIZE_INVALID) {
            Ok(v) => v,
            Err(e) => {
                return Err(e);
            },
        };
        let price = match required_fixed(&matches.price, PRICE_MISSING, PRICE_INVALID) {
            Ok(v) => v,
            Err(e) => {
                return Err(e);
            },
        };
        let order_type = match required_order_type(&matches.order_type) {
            Ok(v) => v,
            Err(e) => {
                return Err(e);
            },
        };
        Ok(CliCommand::Perpetuals(PerpetualsSubCommand::Place { symbol, side, size, price, order_type }))
    }
}

/// The index of the first book order with the given order id, on the side
/// whose order ids are given; `None` when the book does not show it.
pub fn book_order_index(order_ids: &[u128], order_id: u128) -> (r: Option<usize>)
    ensures
        r matches Some(i) ==> i < order_ids@.len() && order_ids@[i as int] == order_id
            && forall|k: int| 0 <= k < i ==> order_ids@[k] != order_id,
        r is None ==> forall|k: int| 0 <= k < order_ids@.len() ==> order_ids@[k] != order_id,
{
    let mut i: usize = 0;
    while i < order_ids.len()
        invariant
            i <= order_ids@.len(),
            forall|k: int| 0 <= k < i ==> order_ids@[k] != order_id,
        decreases order_ids@.len() - i,
    {
        if order_ids[i] == order_id {
            return Some(i);
        }
        i = i + 1;
    }
    None
}

} // verus!
