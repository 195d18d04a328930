//! The command line: the given arguments parsed into commands, and the
//! quantities that the order commands submit.
use vstd::prelude::*;
use crate::common::orders::Side;
use crate::fixed_point::{parsed_fixed, Fixed};

pub mod values;
pub mod quantities;
pub mod command;
pub mod account;
pub mod faucet;
pub mod list;
pub mod liquidator;
pub mod market_maker;
pub mod names;
pub mod perpetuals;
pub mod orderbook;
pub mod random;
pub mod spot;
pub mod sub_account;


verus! {

/// The result of a command.
#[derive(Debug)]
pub struct CliResult {}

/// Why a command failed. Errors of the network client, of the context
/// loaders, of the keypair loader and of the market maker are carried as
/// their messages.
#[derive(Debug)]
pub enum CliError {
    BadParameters(String),
    ClientError(String),
    ContextError(String),
    CommandNotRecognized(String),
    KeypairError(String),
    MarketMaker(String),
}

impl CliError {
    /// The error's message, as the command line prints it.
    pub fn message(&self) -> (r: String)
        ensures
            match self {
                CliError::BadParameters(m) => r@ == "Bad parameter: "@ + m@,
                CliError::CommandNotRecognized(m) => r@ == "Command not recognized: "@ + m@,
                CliError::KeypairError(m) => r@ == "Keypair error: "@ + m@,
                CliError::MarketMaker(m) => r@ == "Market maker error: "@ + m@,
                CliError::ClientError(m) => r@ == m@,
                CliError::ContextError(m) => r@ == m@,
            },
    {
        match self {
            CliError::BadParameters(m) => prefixed("Bad parameter: ", m),
            CliError::CommandNotRecognized(m) => prefixed("Command not recognized: ", m),
            CliError::KeypairError(m) => prefixed("Keypair error: ", m),
            CliError::MarketMaker(m) => prefixed("Market maker error: ", m),
            CliError::ClientError(m) => m.clone(),
            CliError::ContextError(m) => m.clone(),
        }
    }
}

/// Whether a text is the given literal.
pub fn text_is(s: &String, lit: &str) -> (r: bool)
    ensures
        r == (s@ == lit@),
{
    let t = lit.to_owned();
    *s == t
}

/// A literal followed by a text.
pub fn prefixed(prefix: &str, detail: &String) -> (r: String)
    ensures
        r@ == prefix@ + detail@,
{
    let mut r = prefix.to_owned();
    r.append(detail.as_str());
    r
}

/// A bad-parameter error with the given message.
pub fn bad_parameters(msg: &str) -> (r: CliError)
    ensures
        r matches CliError::BadParameters(m) && m@ == msg@,
{
    CliError::BadParameters(msg.to_owned())
}

/// An unrecognized-command error with the given message.
pub fn not_recognized(msg: &str) -> (r: CliError)
    ensures
        r matches CliError::CommandNotRecognized(m) && m@ == msg@,
{
    CliError::CommandNotRecognized(msg.to_owned())
}

/// The message when the order side is not one of the two accepted words.
pub const SIDE_INVALID: &'static str = "Invalid order side provided, must be one of \"buy\" or \"sell\".";
/// The message when the order side is missing (market and cancel commands).
pub const SIDE_MISSING: &'static str = "Order side not provided, must be one of \"buy\" or \"sell\".";
/// The message when the order side is missing (place commands).
pub const SIDE_MISSING_PLACE: &'static str = "Order side not provided. Must be one of \"buy\" or \"sell\".";
/// The message when the order size is missing (market commands).
pub const SIZE_MISSING: &'static str = "Order size not provided. value should be in base token, non-native units.";
/// The message when the order size is missing (place commands).
pub const SIZE_MISSING_PLACE: &'static str = "Order size not provided. Value should be in base token, non-native units.";
/// The message when the order price is missing.
pub const PRICE_MISSING: &'static str = "Price not provided. Value should be in quote token, non-native units.";
/// What precedes the parse error of an order size.
pub const SIZE_INVALID: &'static str = "Invalid order size.: ";
/// What precedes the parse error of an order price.
pub const PRICE_INVALID: &'static str = "Invalid price: ";
/// The message when the order type is missing.
pub const ORDER_TYPE_MISSING: &'static str = "Order type not provided. Must be one of \"limit\" or \"postOnly\".";
/// The message when the order type is not one of the two accepted words.
pub const ORDER_TYPE_INVALID: &'static str = "Invalid order type provided, must be one of \"limit\" or \"postOnly\".";

/// The side an order-side word names: "buy" is a bid, "sell" an ask.
pub open spec fn side_of(s: Seq<char>) -> Option<Side> {
    if s == "buy"@ {
        Some(Side::Bid)
    } else if s == "sell"@ {
        Some(Side::Ask)
    } else {
        None
    }
}

/// A required text argument, or the message when it is missing.
pub open spec fn text_arg(arg: Option<String>, missing: Seq<char>) -> Result<Seq<char>, Seq<char>> {
    match arg {
        Some(s) => Ok(s@),
        None => Err(missing),
    }
}

/// A required order-side argument, or the message when it is missing or
/// not a side.
pub open spec fn side_arg(arg: Option<String>, missing: Seq<char>) -> Result<Side, Seq<char>> {
    match arg {
        Some(s) => match side_of(s@) {
            Some(side) => Ok(side),
            None => Err(SIDE_INVALID@),
        },
        None => Err(missing),
    }
}

/// A required decimal argument, or the message when it is missing or does
/// not parse (the given prefix followed by the parse error).
pub open spec fn fixed_arg(arg: Option<String>, missing: Seq<char>, invalid: Seq<char>) -> Result<Fixed, Seq<char>> {
    match arg {
        Some(s) => match parsed_fixed(s@) {
            Ok(bits) => Ok(Fixed { bits }),
            Err(e) => Err(invalid + e),
        },
        None => Err(missing),
    }
}

/// The two order types a resting order may have.
pub open spec fn is_order_type(s: Seq<char>) -> bool {
    s == "limit"@ || s == "postOnly"@
}

/// A required order-type argument, or the message when it is missing or is
/// neither "limit" nor "postOnly".
pub open spec fn order_type_arg(arg: Option<String>) -> Result<Seq<char>, Seq<char>> {
    match arg {
        Some(s) => if is_order_type(s@) {
            Ok(s@)
        } else {
            Err(ORDER_TYPE_INVALID@)
        },
        None => Err(ORDER_TYPE_MISSING@),
    }
}

/// The result is the bad-parameter error with the given message.
pub open spec fn rejected<T>(r: Result<T, CliError>, msg: Seq<char>) -> bool {
    r matches Err(CliError::BadParameters(m)) && m@ == msg
}

/// The result is the unrecognized-command error with the given message.
pub open spec fn unrecognized<T>(r: Result<T, CliError>, msg: Seq<char>) -> bool {
    r matches Err(CliError::CommandNotRecognized(m)) && m@ == msg
}

/// Reads an order side: "buy" or "sell".
pub fn side_from_text(s: &String) -> (r: Option<Side>)
    ensures
        r == side_of(s@),
{
    if text_is(s, "buy") {
        Some(Side::Bid)
    } else if text_is(s, "sell") {
        Some(Side::Ask)
    } else {
        None
    }
}

/// Reads a required text argument.
pub fn required_text(arg: &Option<String>, missing: &str) -> (r: Result<String, CliError>)
    ensures
        match text_arg(*arg, missing@) {
            Ok(s) => r matches Ok(t) && t@ == s,
            Err(msg) => rejected(r, msg),
        },
{
    match arg {
        Some(s) => Ok(s.clone()),
        None => Err(bad_parameters(missing)),
    }
}

/// Reads a required order-side argument.
pub fn required_side(arg: &Option<String>, missing: &str) -> (r: Result<Side, CliError>)
    ensures
        match side_arg(*arg, missing@) {
            Ok(side) => r == Ok::<Side, CliError>(side),
            Err(msg) => rejected(r, msg),
        },
{
    match arg {
        Some(s) => match side_from_text(s) {
            Some(side) => Ok(side),
            None => Err(bad_parameters(SIDE_INVALID)),
        },
        None => Err(bad_parameters(missing)),
    }
}

/// Reads a required order-type argument: "limit" or "postOnly".
pub fn required_order_type(arg: &Option<String>) -> (r: Result<String, CliError>)
    ensures
        match order_type_arg(*arg) {
            Ok(t) => r matches Ok(u) && u@ == t,
            Err(msg) => rejected(r, msg),
        },
{
    match arg {
        Some(s) => if text_is(s, "limit") || text_is(s, "postOnly") {
            Ok(s.clone())
        } else {
            Err(bad_parameters(ORDER_TYPE_INVALID))
        },
        None => Err(bad_parameters(ORDER_TYPE_MISSING)),
    }
}

/// Reads a required decimal argument.
pub fn required_fixed(arg: &Option<String>, missing: &str, invalid: &str) -> (r: Result<Fixed, CliError>)
    ensures
        match fixed_arg(*arg, missing@, invalid@) {
            Ok(x) => r == Ok::<Fixed, CliError>(x),
            Err(msg) => rejected(r, msg),
        },
{
    match arg {
        Some(s) => match Fixed::parse(s.as_str()) {
            Ok(x) => Ok(x),
            Err(e) => Err(CliError::BadParameters(prefixed(invalid, &e))),
        },
        None => Err(bad_parameters(missing)),
    }
}

} // verus!
