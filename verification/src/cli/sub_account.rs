//! Sub-account commands: their arguments.
use vstd::prelude::*;
use crate::address::Address;
use crate::cli::command::CliCommand;
use crate::cli::values::{address_arg, optional_address, optional_u8, u8_arg};
use crate::cli::{fixed_arg, not_recognized, rejected, required_fixed, text_is, unrecognized, CliError};
use crate::cli::quantities::{native_quantity, native_units};
use crate::fixed_point::Fixed;

verus! {

/// A sub-account command.
#[derive(Debug)]
pub enum SubAccountSubCommand {
    Close { account_number: Option<u8>, sub_account_number: Option<u8> },
    Create { account_number: Option<u8>, sub_account_number: Option<u8>, sub_account_alias: Option<String> },
    Deposit { account_number: Option<u8>, sub_account_number: Option<u8>, symbol: String, amount: Fixed },
    Peek { account_number: Option<u8>, sub_account_number: Option<u8>, pubkey: Option<Address> },
    Withdraw { account_number: Option<u8>, sub_account_number: Option<u8>, symbol: String, amount: Fixed },
}

/// The arguments given to the `sub-account` command: the name of its
/// subcommand (`None` when none was given) and the values given to it.
pub struct SubAccountMatches {
    pub subcommand: Option<String>,
    pub account_number: Option<String>,
    pub sub_account_number: Option<String>,
    pub sub_account_alias: Option<String>,
    pub symbol: Option<String>,
    pub amount: Option<String>,
    pub pubkey: Option<String>,
}

/// The message when the amount is missing.
pub const AMOUNT_MISSING: &'static str = "Amount not provided. value should be in token, non-native units.";
/// What precedes the parse error of an amount.
pub const AMOUNT_INVALID: &'static str = "Invalid amount.: ";
/// The message when no subcommand is given.
pub const NO_SUBCOMMAND: &'static str = "No Sub Account subcommand given.";

/// The subcommand names of the `sub-account` command.
pub open spec fn is_sub_account_subcommand(name: Seq<char>) -> bool {
    name == "close"@ || name == "create"@ || name == "deposit"@ || name == "withdraw"@ || name == "peek"@
}

/// The outcome of `sub-account deposit` (or `withdraw`): account numbers,
/// symbol and amount, in that order. `None` where an account number is not a
/// `u8` or the symbol is missing.
pub open spec fn transfer_parsed(m: SubAccountMatches, r: Option<Result<CliCommand, CliError>>, deposit: bool) -> bool {
    match (u8_arg(m.account_number), u8_arg(m.sub_account_number), m.symbol) {
        (Some(a), Some(sa), Some(symbol)) => r matches Some(x) && match fixed_arg(m.amount, AMOUNT_MISSING@, AMOUNT_INVALID@) {
            Err(msg) => rejected(x, msg),
            Ok(amount) => if deposit {
                x matches Ok(CliCommand::SubAccount(SubAccountSubCommand::Deposit {
                    account_number: a2, sub_account_number: s2, symbol: y, amount: z,
                })) && a2 == a && s2 == sa && y@ == symbol@ && z == amount
            } else {
                x matches Ok(CliCommand::SubAccount(SubAccountSubCommand::Withdraw {
                    account_number: a2, sub_account_number: s2, symbol: y, amount: z,
                })) && a2 == a && s2 == sa && y@ == symbol@ && z == amount
            },
        },
        _ => r is None,
    }
}

/// The outcome of the `sub-account` subcommand with the given name.
pub open spec fn sub_account_parsed(name: Seq<char>, m: SubAccountMatches, r: Option<Result<CliCommand, CliError>>) -> bool {
    if name == "deposit"@ {
        transfer_parsed(m, r, true)
    } else if name == "withdraw"@ {
        transfer_parsed(m, r, false)
    } else {
        match (u8_arg(m.account_number), u8_arg(m.sub_account_number)) {
            (Some(a), Some(sa)) => if name == "close"@ {
                r == Some(Ok::<CliCommand, CliError>(CliCommand::SubAccount(
                    SubAccountSubCommand::Close { account_number: a, sub_account_number: sa },
                )))
            } else if name == "create"@ {
                r matches Some(Ok(CliCommand::SubAccount(SubAccountSubCommand::Create {
                    account_number: a2, sub_account_number: s2, sub_account_alias: alias,
                }))) && a2 == a && s2 == sa && match (alias, m.sub_account_alias) {
                    (Some(x), Some(y)) => x@ == y@,
                    (None, None) => true,
                    _ => false,
                }
            } else {
                match address_arg(m.pubkey) {
                    Some(k) => r == Some(Ok::<CliCommand, CliError>(CliCommand::SubAccount(
                        SubAccountSubCommand::Peek { account_number: a, sub_account_number: sa, pubkey: k },
                    ))),
                    None => r is None,
                }
            },
            _ => r is None,
        }
    }
}

/// The outcome of parsing the arguments of the `sub-account` command.
pub open spec fn sub_account_outcome(m: SubAccountMatches, r: Option<Result<CliCommand, CliError>>) -> bool {
    match m.subcommand {
        None => r matches Some(x) && unrecognized(x, NO_SUBCOMMAND@),
        Some(name) => sub_account_parsed(name@, m, r),
    }
}

/// Parses the arguments of the `sub-account` command. The subcommand, when
/// given, is one of the names the command line declares. `None` where an
/// account number is not a `u8`, an address does not parse, or the symbol
/// of a deposit or withdrawal is missing.
pub fn parse_sub_account_command(matches: &SubAccountMatches) -> (r: Option<Result<CliCommand, CliError>>)
    requires
        matches.subcommand matches Some(name) ==> is_sub_account_subcommand(name@),
    ensures
        sub_account_outcome(*matches, r),
{
    let name = match &matches.subcommand {
        Some(name) => name,
        None => {
            return Some(Err(not_recognized(NO_SUBCOMMAND)));
        },
    };
    let account_number = match optional_u8(&matches.account_number) {
        Some(a) => a,
        None => {
            return None;
        },
    };
    let sub_account_number = match optional_u8(&matches.sub_account_number) {
        Some(a) => a,
        None => {
            return None;
        },
    };
    if text_is(name, "deposit") || text_is(name, "withdraw") {
        let symbol = match &matches.symbol {
            Some(s) => s.clone(),
            None => {
                return None;
            },
        };
        let amount = match required_fixed(&matches.amount, AMOUNT_MISSING, AMOUNT_INVALID) {
            Ok(v) => v,
            Err(e) => {
                return Some(Err(e));
            },
        };
        if text_is(name, "deposit") {
            Some(Ok(CliCommand::SubAccount(SubAccountSubCommand::Deposit {
                account_number,
                sub_account_number,
                symbol,
                amount,
            })))
        } else {
            Some(Ok(CliCommand::SubAccount(SubAccountSubCommand::Withdraw {
                account_number,
                sub_account_number,
                symbol,
                amount,
            })))
        }
    } else if text_is(name, "close") {
        Some(Ok(CliCommand::SubAccount(SubAccountSubCommand::Close { account_number, sub_account_number })))
    } else if text_is(name, "create") {
        let sub_account_alias = match &matches.sub_account_alias {
            Some(a) => Some(a.clone()),
            None => None,
        };
        Some(Ok(CliCommand::SubAccount(SubAccountSubCommand::Create {
            account_number,
            sub_account_number,
            sub_account_alias,
        })))
    } else {
        match optional_address(&matches.pubkey) {
            Some(pubkey) => Some(Ok(CliCommand::SubAccount(SubAccountSubCommand::Peek {
                account_number,
                sub_account_number,
                pubkey,
            }))),
            None => None,
        }
    }
}

/// The sub-account a peek shows: the given address, else the sub-account
/// with the given numbers (the first ones when not given).
#[derive(Clone, Copy, Debug, PartialEq, Eq, Structural)]
pub enum PeekTarget {
    Given(Address),
    Derived { account_number: u8, sub_account_number: u8 },
}

/// Which sub-account a peek shows.
pub fn peek_target(pubkey: Option<Address>, account_number: Option<u8>, sub_account_number: Option<u8>) -> (r: PeekTarget)
    ensures
        r == (match pubkey {
            Some(a) => PeekTarget::Given(a),
            None => PeekTarget::Derived {
                account_number: match account_number { Some(n) => n, None => 0 },
                sub_account_number: match sub_account_number { Some(n) => n, None => 0 },
            },
        }),
{
    match pubkey {
        Some(a) => PeekTarget::Given(a),
        None => PeekTarget::Derived {
            account_number: match account_number {
                Some(n) => n,
                None => 0,
            },
            sub_account_number: match sub_account_number {
                Some(n) => n,
                None => 0,
            },
        },
    }
}

/// The index of the first pool node in use (a nonzero address), or `None`
/// when the pool has none.
pub fn first_pool_node(nodes: &Vec<Address>) -> (r: Option<usize>)
    ensures
        r matches Some(i) ==> i < nodes.len() && !nodes@[i as int].is_zero()
            && forall|k: int| 0 <= k < i ==> (#[trigger] nodes@[k]).is_zero(),
        r is None ==> forall|k: int| 0 <= k < nodes.len() ==> (#[trigger] nodes@[k]).is_zero(),
{
    for i in 0..nodes.len()
        invariant
            forall|k: int| 0 <= k < i ==> (#[trigger] nodes@[k]).is_zero(),
    {
        if !nodes[i].is_unset() {
            return Some(i);
        }
    }
    None
}

/// One step of moving tokens between the wallet and a sub account.
#[derive(Clone, Copy, Debug, PartialEq, Eq, Structural)]
pub enum TransferStep {
    /// Create a token account holding the given lamports besides its rent,
    /// when any are given.
    CreateTokenAccount { lamports: Option<u64> },
    /// Initialize the created token account for the pool's token.
    InitializeTokenAccount,
    /// Deposit the given native amount from the token account.
    DepositFunds { amount: u64 },
    /// Withdraw the given native amount to the token account.
    WithdrawFunds { amount: u64 },
    /// Close the created token account, returning its lamports.
    CloseTokenAccount,
}

/// The steps of a deposit of `native` units of a pool's token: wrapped SOL
/// goes through a token account created with those lamports, initialized,
/// deposited from and closed; any other token is deposited from the
/// wallet's associated token account.
pub open spec fn deposit_plan(wrapped_sol: bool, native: u64) -> Seq<TransferStep> {
    if wrapped_sol {
        seq![
            TransferStep::CreateTokenAccount { lamports: Some(native) },
            TransferStep::InitializeTokenAccount,
            TransferStep::DepositFunds { amount: native },
            TransferStep::CloseTokenAccount,
        ]
    } else {
        seq![TransferStep::DepositFunds { amount: native }]
    }
}

/// The steps of a withdrawal of `native` units of a pool's token: wrapped
/// SOL goes to a token account created empty, initialized, withdrawn to and
/// closed so that the SOL reaches the wallet; any other token goes to the
/// wallet's associated token account.
pub open spec fn withdraw_plan(wrapped_sol: bool, native: u64) -> Seq<TransferStep> {
    if wrapped_sol {
        seq![
            TransferStep::CreateTokenAccount { lamports: None },
            TransferStep::InitializeTokenAccount,
            TransferStep::WithdrawFunds { amount: native },
            TransferStep::CloseTokenAccount,
        ]
    } else {
        seq![TransferStep::WithdrawFunds { amount: native }]
    }
}

/// The steps of a deposit of `amount` whole tokens of a pool whose token has
/// the given mint and decimals. `None` where the amount has no native value
/// in a `u64`.
pub fn deposit_steps(token_mint: Address, wrapped_sol_mint: Address, amount: Fixed, decimals: u8) -> (r:
    Option<Vec<TransferStep>>)
    ensures
        match native_units(amount, decimals) {
            Some(n) => r matches Some(v) && v@ == deposit_plan(token_mint == wrapped_sol_mint, n),
            None => r is None,
        },
{
    let native = match native_quantity(amount, decimals) {
        Some(n) => n,
        None => {
            return None;
        },
    };
    if token_mint == wrapped_sol_mint {
        Some(
            vec![
                TransferStep::CreateTokenAccount { lamports: Some(native) },
                TransferStep::InitializeTokenAccount,
                TransferStep::DepositFunds { amount: native },
                TransferStep::CloseTokenAccount,
            ],
        )
    } else {
        Some(vec![TransferStep::DepositFunds { amount: native }])
    }
}

/// The steps of a withdrawal of `amount` whole tokens of a pool whose token
/// has the given mint and decimals. `None` where the amount has no native
/// value in a `u64`.
pub fn withdraw_steps(token_mint: Address, wrapped_sol_mint: Address, amount: Fixed, decimals: u8) -> (r:
    Option<Vec<TransferStep>>)
    ensures
        match native_units(amount, decimals) {
            Some(n) => r matches Some(v) && v@ == withdraw_plan(token_mint == wrapped_sol_mint, n),
            None => r is None,
        },
{
    let native = match native_quantity(amount, decimals) {
        Some(n) => n,
        None => {
            return None;
        },
    };
    if token_mint == wrapped_sol_mint {
        Some(
            vec![
                TransferStep::CreateTokenAccount { lamports: None },
                TransferStep::InitializeTokenAccount,
                TransferStep::WithdrawFunds { amount: native },
                TransferStep::CloseTokenAccount,
            ],
        )
    } else {
        Some(vec![TransferStep::WithdrawFunds { amount: native }])
    }
}

} // verus!
