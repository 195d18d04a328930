//! The random-actions bot command: its arguments.
use vstd::prelude::*;
use crate::cli::command::CliCommand;
use crate::cli::values::{parsed_u64, u64_from_str};
use crate::cli::{not_recognized, unrecognized, CliError};

verus! {

/// The interval, in seconds, between actions when none is given.
pub const DEFAULT_INTERVAL: u64 = 30;

/// The message when no subcommand is given.
pub const NO_SUBCOMMAND: &'static str = "No market maker subcommand given.";

/// The arguments given to the `random` command: the name of its subcommand
/// (`None` when none was given) and the values given to it.
pub struct RandomMatches {
    pub subcommand: Option<String>,
    pub interval: Option<String>,
    pub input_keypair: Option<String>,
    pub output_keypair: Option<String>,
}

/// The interval argument: the default when absent, `None` when given but not
/// a `u64`.
pub open spec fn interval_arg(arg: Option<String>) -> Option<u64> {
    match arg {
        None => Some(DEFAULT_INTERVAL),
        Some(s) => parsed_u64(s@),
    }
}

/// Both texts are absent, or both are present and equal.
pub open spec fn same_text(a: Option<String>, b: Option<String>) -> bool {
    match (a, b) {
        (Some(x), Some(y)) => x@ == y@,
        (None, None) => true,
        _ => false,
    }
}

/// The outcome of parsing the arguments of the `random` command: `None`
/// where the interval is given but is not a `u64`.
pub open spec fn random_outcome(m: RandomMatches, r: Option<Result<CliCommand, CliError>>) -> bool {
    match m.subcommand {
        None => r matches Some(x) && unrecognized(x, NO_SUBCOMMAND@),
        Some(_) => match interval_arg(m.interval) {
            None => r is None,
            Some(interval) => r matches Some(Ok(CliCommand::Random { interval: i, output_keypair: o, input_keypair: n }))
                && i == interval && same_text(o, m.output_keypair) && same_text(n, m.input_keypair),
        },
    }
}

/// Parses the arguments of the `random` command. The subcommand, when given,
/// is `run`. `None` where the interval is given but is not a `u64`.
pub fn parse_random_command(matches: &RandomMatches) -> (r: Option<Result<CliCommand, CliError>>)
    requires
        matches.subcommand matches Some(name) ==> name@ == "run"@,
    ensures
        random_outcome(*matches, r),
{
    if matches.subcommand.is_none() {
        return Some(Err(not_recognized(NO_SUBCOMMAND)));
    }
    let output_keypair = match &matches.output_keypair {
        Some(s) => Some(s.clone()),
        None => None,
    };
    let input_keypair = match &matches.input_keypair {
        Some(s) => Some(s.clone()),
        None => None,
    };
    let interval = match &matches.interval {
        Some(s) => match u64_from_str(s.as_str()) {
            Some(i) => i,
            None => {
                return None;
            },
        },
        None => DEFAULT_INTERVAL,
    };
    Some(Ok(CliCommand::Random { interval, output_keypair, input_keypair }))
}

} // verus!
