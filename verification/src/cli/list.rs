//! Listing commands: their arguments.
use vstd::prelude::*;
use crate::cli::command::CliCommand;
use crate::cli::{not_recognized, text_is, unrecognized, CliError};

verus! {

/// A listing command.
#[derive(Debug, Clone, Copy, PartialEq, Eq, Structural)]
pub enum ListSubCommand {
    PerpetualMarkets,
    FuturesMarkets,
    Pools,
}

/// The message when no subcommand is given.
pub const NO_SUBCOMMAND: &'static str = "No market maker subcommand given.";

/// The subcommand names of the `list` command.
pub open spec fn is_list_subcommand(name: Seq<char>) -> bool {
    name == "perps"@ || name == "futures"@ || name == "pools"@
}

/// The outcome of parsing the arguments of the `list` command.
pub open spec fn list_outcome(subcommand: Option<String>, r: Result<CliCommand, CliError>) -> bool {
    match subcommand {
        None => unrecognized(r, NO_SUBCOMMAND@),
        Some(name) => r == Ok::<CliCommand, CliError>(CliCommand::List(
            if name@ == "perps"@ {
                ListSubCommand::PerpetualMarkets
            } else if name@ == "futures"@ {
                ListSubCommand::FuturesMarkets
            } else {
                ListSubCommand::Pools
            },
        )),
    }
}

/// Parses the arguments of the `list` command, given the name of its
/// subcommand (`None` when none was given), which is one of the names the
/// command line declares.
pub fn parse_list_command(subcommand: &Option<String>) -> (r: Result<CliCommand, CliError>)
    requires
        subcommand matches Some(name) ==> is_list_subcommand(name@),
    ensures
        list_outcome(*subcommand, r),
{
    match subcommand {
        None => Err(not_recognized(NO_SUBCOMMAND)),
        Some(name) => if text_is(name, "perps") {
            Ok(CliCommand::List(ListSubCommand::PerpetualMarkets))
        } else if text_is(name, "futures") {
            Ok(CliCommand::List(ListSubCommand::FuturesMarkets))
        } else {
            Ok(CliCommand::List(ListSubCommand::Pools))
        },
    }
}

} // verus!
