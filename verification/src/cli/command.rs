//! The commands of the command line, and the parsing of the given arguments
//! into one.
use vstd::prelude::*;
use crate::address::Address;
use crate::cli::account::{account_outcome, is_account_subcommand, parse_account_command, AccountMatches, AccountSubCommand};
use crate::cli::faucet::{faucet_outcome, is_faucet_subcommand, parse_faucet_command, FaucetMatches};
use crate::cli::list::{is_list_subcommand, list_outcome, parse_list_command, ListSubCommand};
use crate::cli::liquidator::{liquidator_outcome, parse_liquidator_command};
use crate::cli::market_maker::{market_maker_outcome, parse_market_maker_command, MarketMakerMatches};
use crate::cli::perpetuals::{is_perps_subcommand, parse_perps_command, perps_outcome, PerpetualsSubCommand, PerpsMatches};
use crate::cli::random::{parse_random_command, random_outcome, RandomMatches};
use crate::cli::spot::{is_spot_subcommand, parse_spot_command, spot_outcome, SpotMatches, SpotSubCommand};
use crate::cli::sub_account::{
    is_sub_account_subcommand, parse_sub_account_command, sub_account_outcome, SubAccountMatches,
    SubAccountSubCommand,
};
use crate::cli::{not_recognized, text_is, unrecognized, CliError};

verus! {

/// A parsed command.
#[derive(Debug)]
pub enum CliCommand {
    FaucetList,
    FaucetRequest { token_mint: Address },
    List(ListSubCommand),
    Account(AccountSubCommand),
    SubAccount(SubAccountSubCommand),
    Perpetuals(PerpetualsSubCommand),
    Spot(SpotSubCommand),
    Liquidator,
    MarketMaker { path: String },
    Random { interval: u64, output_keypair: Option<String>, input_keypair: Option<String> },
}

/// The arguments given on the command line: the name of the command (`None`
/// when none was given) and, for the command so named, the arguments given
/// to it (the others are left empty).
pub struct CommandMatches {
    pub subcommand: Option<String>,
    pub account: AccountMatches,
    pub market_maker: MarketMakerMatches,
    pub liquidator: Option<String>,
    pub faucet: FaucetMatches,
    pub list: Option<String>,
    pub sub_account: SubAccountMatches,
    pub perps: PerpsMatches,
    pub spot: SpotMatches,
    pub random: RandomMatches,
}

/// The message when no command is given.
pub const NO_SUBCOMMAND: &'static str = "No subcommand given.";

/// Whether the names given are those the command line declares: a command
/// name, and for it one of its subcommand names (or none).
pub open spec fn declared(m: CommandMatches) -> bool {
    match m.subcommand {
        None => true,
        Some(name) => if name@ == "account"@ {
            m.account.subcommand matches Some(n) ==> is_account_subcommand(n@)
        } else if name@ == "market-maker"@ {
            m.market_maker.subcommand matches Some(n) ==> n@ == "run"@
        } else if name@ == "liquidator"@ {
            m.liquidator matches Some(n) ==> n@ == "liquidator"@
        } else if name@ == "faucet"@ {
            m.faucet.subcommand matches Some(n) ==> is_faucet_subcommand(n@)
        } else if name@ == "list"@ {
            m.list matches Some(n) ==> is_list_subcommand(n@)
        } else if name@ == "sub-account"@ {
            m.sub_account.subcommand matches Some(n) ==> is_sub_account_subcommand(n@)
        } else if name@ == "perps"@ {
            m.perps.subcommand matches Some(n) ==> is_perps_subcommand(n@)
        } else if name@ == "spot"@ {
            m.spot.subcommand matches Some(n) ==> is_spot_subcommand(n@)
        } else if name@ == "random"@ {
            m.random.subcommand matches Some(n) ==> n@ == "run"@
        } else {
            false
        },
    }
}

/// The outcome of parsing the arguments given on the command line: that of
/// the named command, or the unrecognized-command error when none is named.
/// `None` where a value does not parse that must.
pub open spec fn command_outcome(m: CommandMatches, r: Option<Result<CliCommand, CliError>>) -> bool {
    match m.subcommand {
        None => r matches Some(x) && unrecognized(x, NO_SUBCOMMAND@),
        Some(name) => if name@ == "account"@ {
            account_outcome(m.account, r)
        } else if name@ == "market-maker"@ {
            r matches Some(x) && market_maker_outcome(m.market_maker, x)
        } else if name@ == "liquidator"@ {
            r matches Some(x) && liquidator_outcome(m.liquidator, x)
        } else if name@ == "faucet"@ {
            faucet_outcome(m.faucet, r)
        } else if name@ == "list"@ {
            r matches Some(x) && list_outcome(m.list, x)
        } else if name@ == "sub-account"@ {
            sub_account_outcome(m.sub_account, r)
        } else if name@ == "perps"@ {
            r matches Some(x) && perps_outcome(m.perps, x)
        } else if name@ == "spot"@ {
            spot_outcome(m.spot, r)
        } else {
            random_outcome(m.random, r)
        },
    }
}

/// Parses the arguments given on the command line into a command.
pub fn parse_command(matches: &CommandMatches) -> (r: Option<Result<CliCommand, CliError>>)
    requires
        declared(*matches),
    ensures
        command_outcome(*matches, r),
{
    let name = match &matches.subcommand {
        Some(name) => name,
        None => {
            return Some(Err(not_recognized(NO_SUBCOMMAND)));
        },
    };
    if text_is(name, "account") {
        parse_account_command(&matches.account)
    } else if text_is(name, "market-maker") {
        Some(parse_market_maker_command(&matches.market_maker))
    } else if text_is(name, "liquidator") {
        Some(parse_liquidator_command(&matches.liquidator))
    } else if text_is(name, "faucet") {
        parse_faucet_command(&matches.faucet)
    } else if text_is(name, "list") {
        Some(parse_list_command(&matches.list))
    } else if text_is(name, "sub-account") {
        parse_sub_account_command(&matches.sub_account)
    } else if text_is(name, "perps") {
        Some(parse_perps_command(&matches.perps))
    } else if text_is(name, "spot") {
        parse_spot_command(&matches.spot)
    } else {
        parse_random_command(&matches.random)
    }
}

} // verus!
