//! The liquidator command: its arguments.
use vstd::prelude::*;
use crate::cli::command::CliCommand;
use crate::cli::{not_recognized, unrecognized, CliError};

verus! {

/// The message when no subcommand is given.
pub const NO_SUBCOMMAND: &'static str = "no subcommand given";

/// The outcome of parsing the arguments of the `liquidator` command.
pub open spec fn liquidator_outcome(subcommand: Option<String>, r: Result<CliCommand, CliError>) -> bool {
    match subcommand {
        None => unrecognized(r, NO_SUBCOMMAND@),
        Some(_) => r == Ok::<CliCommand, CliError>(CliCommand::Liquidator),
    }
}

/// Parses the arguments of the `liquidator` command, given the name of its
/// subcommand (`None` when none was given); the only name it accepts is
/// `liquidator`.
pub fn parse_liquidator_command(subcommand: &Option<String>) -> (r: Result<CliCommand, CliError>)
    requires
        subcommand matches Some(name) ==> name@ == "liquidator"@,
    ensures
        liquidator_outcome(*subcommand, r),
{
    match subcommand {
        None => Err(not_recognized(NO_SUBCOMMAND)),
        Some(_) => Ok(CliCommand::Liquidator),
    }
}

} // verus!
