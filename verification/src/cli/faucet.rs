//! Faucet commands: their arguments.
use vstd::prelude::*;
use crate::cli::account::required_address;
use crate::cli::command::CliCommand;
use crate::cli::values::address_from_str;
use crate::cli::{not_recognized, text_is, unrecognized, CliError};

verus! {

/// The arguments given to the `faucet` command: the name of its subcommand
/// (`None` when none was given) and the values given to it.
pub struct FaucetMatches {
    pub subcommand: Option<String>,
    pub token_mint: Option<String>,
}

/// The message when no subcommand is given.
pub const NO_SUBCOMMAND: &'static str = "No `faucet` subcommand given!";

/// The subcommand names of the `faucet` command.
pub open spec fn is_faucet_subcommand(name: Seq<char>) -> bool {
    name == "list"@ || name == "request"@
}

/// The outcome of parsing the arguments of the `faucet` command: `None`
/// where the token mint of a request is missing or not an address.
pub open spec fn faucet_outcome(m: FaucetMatches, r: Option<Result<CliCommand, CliError>>) -> bool {
    match m.subcommand {
        None => r matches Some(x) && unrecognized(x, NO_SUBCOMMAND@),
        Some(name) => r == (if name@ == "list"@ {
            Some(Ok::<CliCommand, CliError>(CliCommand::FaucetList))
        } else {
            match required_address(m.token_mint) {
                Some(a) => Some(Ok::<CliCommand, CliError>(CliCommand::FaucetRequest { token_mint: a })),
                None => None,
            }
        }),
    }
}

/// Parses the arguments of the `faucet` command. The subcommand, when given,
/// is one of the names the command line declares. `None` where the token
/// mint of a request is missing or not an address.
pub fn parse_faucet_command(matches: &FaucetMatches) -> (r: Option<Result<CliCommand, CliError>>)
    requires
        matches.subcommand matches Some(name) ==> is_faucet_subcommand(name@),
    ensures
        faucet_outcome(*matches, r),
{
    let name = match &matches.subcommand {
        Some(name) => name,
        None => {
            return Some(Err(not_recognized(NO_SUBCOMMAND)));
        },
    };
    if text_is(name, "list") {
        Some(Ok(CliCommand::FaucetList))
    } else {
        let token_mint = match &matches.token_mint {
            Some(s) => match address_from_str(s.as_str()) {
                Some(a) => a,
                None => {
                    return None;
                },
            },
            None => {
                return None;
            },
        };
        Some(Ok(CliCommand::FaucetRequest { token_mint }))
    }
}

} // verus!
