//! Account commands: their arguments.
use vstd::prelude::*;
use crate::address::Address;
use crate::cli::command::CliCommand;
use crate::cli::values::{address_arg, address_from_str, optional_address, optional_u8, parsed_address, u8_arg};
use crate::cli::{not_recognized, text_is, unrecognized, CliError};

verus! {

/// An account command.
#[derive(Debug)]
pub enum AccountSubCommand {
    Close { account_number: Option<u8> },
    Create { account_number: Option<u8> },
    CreateWhitelisted { private_clearing: Address, whitelist: Address, account_number: Option<u8> },
    Peek { account_number: Option<u8>, pubkey: Option<Address> },
}

/// The arguments given to the `account` command: the name of its subcommand
/// (`None` when none was given) and the values given to it.
pub struct AccountMatches {
    pub subcommand: Option<String>,
    pub account_number: Option<String>,
    pub whitelist: Option<String>,
    pub private_clearing: Option<String>,
    pub pubkey: Option<String>,
}

/// The message when no subcommand is given.
pub const NO_SUBCOMMAND: &'static str = "No Account subcommand given.";

/// The subcommand names of the `account` command.
pub open spec fn is_account_subcommand(name: Seq<char>) -> bool {
    name == "close"@ || name == "create"@ || name == "create-whitelisted"@ || name == "peek"@
}

/// A required address argument: `None` when missing or not an address.
pub open spec fn required_address(arg: Option<String>) -> Option<Address> {
    match arg {
        Some(s) => parsed_address(s@),
        None => None,
    }
}

/// The outcome of the `account` subcommand with the given name. `None` where
/// the account number is not a `u8`, or an address is missing or does not
/// parse.
pub open spec fn account_parsed(name: Seq<char>, m: AccountMatches, r: Option<Result<CliCommand, CliError>>) -> bool {
    match u8_arg(m.account_number) {
        None => r is None,
        Some(a) => if name == "close"@ {
            r == Some(Ok::<CliCommand, CliError>(CliCommand::Account(AccountSubCommand::Close { account_number: a })))
        } else if name == "create"@ {
            r == Some(Ok::<CliCommand, CliError>(CliCommand::Account(AccountSubCommand::Create { account_number: a })))
        } else if name == "create-whitelisted"@ {
            match (required_address(m.whitelist), required_address(m.private_clearing)) {
                (Some(w), Some(p)) => r == Some(Ok::<CliCommand, CliError>(CliCommand::Account(
                    AccountSubCommand::CreateWhitelisted { private_clearing: p, whitelist: w, account_number: a },
                ))),
                _ => r is None,
            }
        } else {
            match address_arg(m.pubkey) {
                Some(k) => r == Some(Ok::<CliCommand, CliError>(CliCommand::Account(
                    AccountSubCommand::Peek { account_number: a, pubkey: k },
                ))),
                None => r is None,
            }
        },
    }
}

/// The outcome of parsing the arguments of the `account` command.
pub open spec fn account_outcome(m: AccountMatches, r: Option<Result<CliCommand, CliError>>) -> bool {
    match m.subcommand {
        None => r matches Some(x) && unrecognized(x, NO_SUBCOMMAND@),
        Some(name) => account_parsed(name@, m, r),
    }
}

/// Reads a required address argument: `None` when missing or not an address.
fn address_required(arg: &Option<String>) -> (r: Option<Address>)
    ensures
        r == required_address(*arg),
{
    match arg {
        Some(s) => address_from_str(s.as_str()),
        None => None,
    }
}

/// Parses the arguments of the `account` command. The subcommand, when given,
/// is one of the names the command line declares.
pub fn parse_account_command(matches: &AccountMatches) -> (r: Option<Result<CliCommand, CliError>>)
    requires
        matches.subcommand matches Some(name) ==> is_account_subcommand(name@),
    ensures
        account_outcome(*matches, r),
{
    let name = match &matches.subcommand {
        Some(name) => name,
        None => {
            return Some(Err(not_recognized(NO_SUBCOMMAND)));
        },
    };
    let account_number = match optional_u8(&matches.account_number) {
        Some(a) => a,
        None => {
            return None;
        },
    };
    if text_is(name, "close") {
        Some(Ok(CliCommand::Account(AccountSubCommand::Close { account_number })))
    } else if text_is(name, "create") {
        Some(Ok(CliCommand::Account(AccountSubCommand::Create { account_number })))
    } else if text_is(name, "create-whitelisted") {
        let whitelist = match address_required(&matches.whitelist) {
            Some(w) => w,
            None => {
                return None;
            },
        };
        let private_clearing = match address_required(&matches.private_clearing) {
            Some(p) => p,
            None => {
                return None;
            },
        };
        Some(Ok(CliCommand::Account(AccountSubCommand::CreateWhitelisted {
            private_clearing,
            whitelist,
            account_number,
        })))
    } else {
        match optional_address(&matches.pubkey) {
            Some(pubkey) => Some(Ok(CliCommand::Account(AccountSubCommand::Peek { account_number, pubkey }))),
            None => None,
        }
    }
}

} // verus!
