use cypher_cli::cli::command::{parse_command, CliCommand, CommandMatches};
use cypher_cli::cli::account::AccountMatches;
use cypher_cli::cli::faucet::FaucetMatches;
use cypher_cli::cli::market_maker::MarketMakerMatches;
use cypher_cli::cli::perpetuals::{parse_perps_command, PerpetualsSubCommand, PerpsMatches};
use cypher_cli::cli::random::RandomMatches;
use cypher_cli::cli::spot::SpotMatches;
use cypher_cli::cli::sub_account::SubAccountMatches;
use cypher_cli::cli::CliError;
use cypher_cli::common::orders::Side;

fn text(s: &str) -> Option<String> {
    Some(s.to_string())
}

fn perps(sub: &str) -> PerpsMatches {
    PerpsMatches { subcommand: text(sub), symbol: None, side: None, size: None, price: None, order_id: None, order_type: None }
}

#[test]
fn perps_cancel_parses_all_arguments() {
    let m = PerpsMatches { symbol: text("SOL-PERP"), order_id: text("12"), side: text("buy"), ..perps("cancel") };
    match parse_perps_command(&m) {
        Ok(CliCommand::Perpetuals(PerpetualsSubCommand::Cancel { symbol, order_id, side })) => {
            assert_eq!(symbol, "SOL-PERP");
            assert_eq!(order_id, 12);
            assert_eq!(side, Side::Bid);
        }
        other => panic!("unexpected: {:?}", other),
    }
}

#[test]
fn perps_cancel_reports_bad_order_id_with_parse_error() {
    let m = PerpsMatches { symbol: text("SOL-PERP"), order_id: text("x1"), side: text("buy"), ..perps("cancel") };
    match parse_perps_command(&m) {
        Err(CliError::BadParameters(msg)) => assert_eq!(msg, "Invalid Order ID: invalid digit found in string"),
        other => panic!("unexpected: {:?}", other),
    }
}

#[test]
fn perps_missing_subcommand_is_not_recognized() {
    let m = PerpsMatches { subcommand: None, ..perps("") };
    match parse_perps_command(&m) {
        Err(CliError::CommandNotRecognized(msg)) => assert_eq!(msg, "No perpetuals subcommand given."),
        other => panic!("unexpected: {:?}", other),
    }
}

fn empty_command(name: Option<String>) -> CommandMatches {
    CommandMatches {
        subcommand: name,
        account: AccountMatches { subcommand: None, account_number: None, whitelist: None, private_clearing: None, pubkey: None },
        market_maker: MarketMakerMatches { subcommand: None, config: None },
        liquidator: None,
        faucet: FaucetMatches { subcommand: None, token_mint: None },
        list: None,
        sub_account: SubAccountMatches {
            subcommand: None,
            account_number: None,
            sub_account_number: None,
            sub_account_alias: None,
            symbol: None,
            amount: None,
            pubkey: None,
        },
        perps: perps(""),
        spot: SpotMatches { subcommand: None, symbol: None, side: None, size: None, price: None, order_type: None, pubkey: None },
        random: RandomMatches { subcommand: None, interval: None, input_keypair: None, output_keypair: None },
    }
}

#[test]
fn no_command_is_not_recognized() {
    match parse_command(&empty_command(None)) {
        Some(Err(CliError::CommandNotRecognized(msg))) => assert_eq!(msg, "No subcommand given."),
        other => panic!("unexpected: {:?}", other),
    }
}

use cypher_cli::address::Address;
use cypher_cli::cli::account::{parse_account_command, AccountSubCommand};
use cypher_cli::cli::faucet::parse_faucet_command;
use cypher_cli::cli::list::{parse_list_command, ListSubCommand};
use cypher_cli::cli::liquidator::parse_liquidator_command;
use cypher_cli::cli::market_maker::parse_market_maker_command;
use cypher_cli::cli::random::parse_random_command;
use cypher_cli::cli::spot::{parse_spot_command, SpotSubCommand};
use cypher_cli::cli::sub_account::{parse_sub_account_command, SubAccountSubCommand};
use cypher_cli::fixed_point::Fixed;

const WSOL: &str = "So11111111111111111111111111111111111111112";

fn words_of(key: &str) -> Address {
    let b = key.parse::<solana_sdk::pubkey::Pubkey>().unwrap().to_bytes();
    let w = |i: usize| u64::from_be_bytes(b[i * 8..i * 8 + 8].try_into().unwrap());
    Address { w0: w(0), w1: w(1), w2: w(2), w3: w(3) }
}

fn bad(r: Result<CliCommand, CliError>) -> String {
    match r {
        Err(CliError::BadParameters(m)) => m,
        other => panic!("unexpected: {:?}", other),
    }
}

#[test]
fn perps_market_and_place_read_sizes_and_prices() {
    let m = PerpsMatches { symbol: text("SOL-PERP"), side: text("sell"), size: text("1.5"), ..perps("market") };
    match parse_perps_command(&m) {
        Ok(CliCommand::Perpetuals(PerpetualsSubCommand::Market { symbol, side, size })) => {
            assert_eq!((symbol.as_str(), side, size.bits), ("SOL-PERP", Side::Ask, 3i128 << 47));
        }
        other => panic!("unexpected: {:?}", other),
    }
    let m = PerpsMatches { symbol: text("SOL-PERP"), side: text("buy"), size: text("2"), price: text("20.25"), order_type: text("postOnly"), ..perps("place") };
    match parse_perps_command(&m) {
        Ok(CliCommand::Perpetuals(PerpetualsSubCommand::Place { side, size, price, order_type, .. })) => {
            assert_eq!((side, size.bits, price.bits), (Side::Bid, 2i128 << 48, 81i128 << 46));
            assert_eq!(order_type.as_str(), "postOnly");
        }
        other => panic!("unexpected: {:?}", other),
    }
}

#[test]
fn perps_errors_come_in_argument_order() {
    assert_eq!(
        bad(parse_perps_command(&perps("close"))),
        "Symbol not provided, to see available markets try \"list perps\" command."
    );
    assert_eq!(
        bad(parse_perps_command(&perps("place"))),
        "Symbol not provided. To see available markets try \"list perps\" command."
    );
    let m = PerpsMatches { symbol: text("S"), side: text("up"), ..perps("market") };
    assert_eq!(bad(parse_perps_command(&m)), "Invalid order side provided, must be one of \"buy\" or \"sell\".");
    let m = PerpsMatches { symbol: text("S"), ..perps("market") };
    assert_eq!(bad(parse_perps_command(&m)), "Order side not provided, must be one of \"buy\" or \"sell\".");
    let m = PerpsMatches { symbol: text("S"), ..perps("place") };
    assert_eq!(bad(parse_perps_command(&m)), "Order side not provided. Must be one of \"buy\" or \"sell\".");
    let m = PerpsMatches { symbol: text("S"), side: text("buy"), ..perps("market") };
    assert_eq!(bad(parse_perps_command(&m)), "Order size not provided. value should be in base token, non-native units.");
    let m = PerpsMatches { symbol: text("S"), side: text("buy"), size: text("1..2"), ..perps("market") };
    assert_eq!(bad(parse_perps_command(&m)), "Invalid order size.: more than one point found in string");
    let m = PerpsMatches { symbol: text("S"), side: text("buy"), size: text("1"), ..perps("place") };
    assert_eq!(bad(parse_perps_command(&m)), "Price not provided. Value should be in quote token, non-native units.");
    let m = PerpsMatches { symbol: text("S"), side: text("buy"), size: text("1"), price: text("p"), ..perps("place") };
    assert_eq!(bad(parse_perps_command(&m)), "Invalid price: invalid digit found in string");
    let m = PerpsMatches { symbol: text("S"), ..perps("cancel") };
    assert_eq!(bad(parse_perps_command(&m)), "Order ID not provided, to see open orders try \"perps orders\" command.");
    assert!(matches!(parse_perps_command(&perps("orders")), Ok(CliCommand::Perpetuals(PerpetualsSubCommand::Orders))));
    let m = PerpsMatches { symbol: text("BTC-PERP"), ..perps("settle") };
    assert!(matches!(parse_perps_command(&m), Ok(CliCommand::Perpetuals(PerpetualsSubCommand::Settle { symbol })) if symbol == "BTC-PERP"));
}

fn spot(sub: &str) -> SpotMatches {
    SpotMatches { subcommand: text(sub), symbol: None, side: None, size: None, price: None, order_type: None, pubkey: None }
}

#[test]
fn spot_commands() {
    let m = SpotMatches { symbol: text("SOL"), side: text("buy"), size: text("1"), price: text("2"), order_type: text("limit"), ..spot("place") };
    match parse_spot_command(&m) {
        Some(Ok(CliCommand::Spot(SpotSubCommand::Place { symbol, order_type, price, .. }))) => {
            assert_eq!((symbol.as_str(), order_type.as_str(), price.bits), ("SOL", "limit", 2i128 << 48));
        }
        other => panic!("unexpected: {:?}", other),
    }
    let m = SpotMatches { symbol: text("SOL"), side: text("buy"), size: text("1"), price: text("2"), ..spot("place") };
    assert_eq!(bad(parse_spot_command(&m).unwrap()), "Order type not provided. Must be one of \"limit\" or \"postOnly\".");
    assert_eq!(
        bad(parse_spot_command(&spot("book")).unwrap()),
        "Symbol not provided, to see available markets try \"list pools\" command."
    );
    assert!(matches!(parse_spot_command(&spot("orders")), Some(Ok(CliCommand::Spot(SpotSubCommand::Orders { pubkey: None })))));
    let m = SpotMatches { pubkey: text(WSOL), ..spot("orders") };
    assert!(matches!(parse_spot_command(&m), Some(Ok(CliCommand::Spot(SpotSubCommand::Orders { pubkey: Some(a) }))) if a == words_of(WSOL)));
    let m = SpotMatches { pubkey: text("not-a-key"), ..spot("orders") };
    assert!(parse_spot_command(&m).is_none());
    let none = SpotMatches { subcommand: None, ..spot("") };
    assert!(matches!(parse_spot_command(&none), Some(Err(CliError::CommandNotRecognized(m))) if m == "No market maker subcommand given."));
}

fn sub_account(sub: &str) -> SubAccountMatches {
    SubAccountMatches {
        subcommand: text(sub),
        account_number: None,
        sub_account_number: None,
        sub_account_alias: None,
        symbol: None,
        amount: None,
        pubkey: None,
    }
}

#[test]
fn sub_account_commands() {
    let m = SubAccountMatches { account_number: text("1"), sub_account_number: text("2"), symbol: text("USDC"), amount: text("10"), ..sub_account("deposit") };
    match parse_sub_account_command(&m) {
        Some(Ok(CliCommand::SubAccount(SubAccountSubCommand::Deposit { account_number, sub_account_number, symbol, amount }))) => {
            assert_eq!((account_number, sub_account_number, symbol.as_str(), amount.bits), (Some(1), Some(2), "USDC", 10i128 << 48));
        }
        other => panic!("unexpected: {:?}", other),
    }
    let m = SubAccountMatches { symbol: text("USDC"), ..sub_account("withdraw") };
    assert_eq!(bad(parse_sub_account_command(&m).unwrap()), "Amount not provided. value should be in token, non-native units.");
    let m = SubAccountMatches { symbol: text("USDC"), amount: text("x"), ..sub_account("withdraw") };
    assert_eq!(bad(parse_sub_account_command(&m).unwrap()), "Invalid amount.: invalid digit found in string");
    // a symbol-less deposit and an account number beyond a byte abort
    assert!(parse_sub_account_command(&SubAccountMatches { amount: text("1"), ..sub_account("deposit") }).is_none());
    assert!(parse_sub_account_command(&SubAccountMatches { account_number: text("256"), ..sub_account("close") }).is_none());
    let m = SubAccountMatches { sub_account_alias: text("main"), ..sub_account("create") };
    assert!(matches!(parse_sub_account_command(&m),
        Some(Ok(CliCommand::SubAccount(SubAccountSubCommand::Create { account_number: None, sub_account_number: None, sub_account_alias: Some(a) }))) if a == "main"));
    let m = SubAccountMatches { pubkey: text(WSOL), ..sub_account("peek") };
    assert!(matches!(parse_sub_account_command(&m),
        Some(Ok(CliCommand::SubAccount(SubAccountSubCommand::Peek { pubkey: Some(a), .. }))) if a == words_of(WSOL)));
    let none = SubAccountMatches { subcommand: None, ..sub_account("") };
    assert!(matches!(parse_sub_account_command(&none), Some(Err(CliError::CommandNotRecognized(m))) if m == "No Sub Account subcommand given."));
}

fn account(sub: &str) -> AccountMatches {
    AccountMatches { subcommand: text(sub), account_number: None, whitelist: None, private_clearing: None, pubkey: None }
}

#[test]
fn account_commands() {
    assert!(matches!(parse_account_command(&AccountMatches { account_number: text("3"), ..account("create") }),
        Some(Ok(CliCommand::Account(AccountSubCommand::Create { account_number: Some(3) })))));
    let m = AccountMatches { whitelist: text(WSOL), private_clearing: text("11111111111111111111111111111111"), ..account("create-whitelisted") };
    match parse_account_command(&m) {
        Some(Ok(CliCommand::Account(AccountSubCommand::CreateWhitelisted { private_clearing, whitelist, account_number }))) => {
            assert_eq!(private_clearing, Address { w0: 0, w1: 0, w2: 0, w3: 0 });
            assert_eq!(whitelist, words_of(WSOL));
            assert_eq!(account_number, None);
        }
        other => panic!("unexpected: {:?}", other),
    }
    assert!(parse_account_command(&AccountMatches { whitelist: text(WSOL), ..account("create-whitelisted") }).is_none());
    assert!(parse_account_command(&AccountMatches { account_number: text("-1"), ..account("close") }).is_none());
    let none = AccountMatches { subcommand: None, ..account("") };
    assert!(matches!(parse_account_command(&none), Some(Err(CliError::CommandNotRecognized(m))) if m == "No Account subcommand given."));
}

#[test]
fn faucet_list_market_maker_liquidator_random() {
    let f = |sub: &str, mint: Option<String>| FaucetMatches { subcommand: text(sub), token_mint: mint };
    assert!(matches!(parse_faucet_command(&f("list", None)), Some(Ok(CliCommand::FaucetList))));
    assert!(matches!(parse_faucet_command(&f("request", text(WSOL))), Some(Ok(CliCommand::FaucetRequest { token_mint })) if token_mint == words_of(WSOL)));
    assert!(parse_faucet_command(&f("request", None)).is_none());
    assert!(matches!(parse_faucet_command(&FaucetMatches { subcommand: None, token_mint: None }),
        Some(Err(CliError::CommandNotRecognized(m))) if m == "No `faucet` subcommand given!"));

    assert!(matches!(parse_list_command(&text("pools")), Ok(CliCommand::List(ListSubCommand::Pools))));
    assert!(matches!(parse_list_command(&text("perps")), Ok(CliCommand::List(ListSubCommand::PerpetualMarkets))));
    assert!(matches!(parse_list_command(&text("futures")), Ok(CliCommand::List(ListSubCommand::FuturesMarkets))));

    assert!(matches!(parse_liquidator_command(&None), Err(CliError::CommandNotRecognized(m)) if m == "no subcommand given"));
    assert!(matches!(parse_liquidator_command(&text("liquidator")), Ok(CliCommand::Liquidator)));

    let mm = MarketMakerMatches { subcommand: text("run"), config: text("cfg.json") };
    assert!(matches!(parse_market_maker_command(&mm), Ok(CliCommand::MarketMaker { path }) if path == "cfg.json"));
    let mm = MarketMakerMatches { subcommand: text("run"), config: None };
    assert_eq!(bad(parse_market_maker_command(&mm)), "Path to config path not provided.");

    let r = RandomMatches { subcommand: text("run"), interval: None, input_keypair: None, output_keypair: text("out.json") };
    assert!(matches!(parse_random_command(&r),
        Some(Ok(CliCommand::Random { interval: 30, output_keypair: Some(o), input_keypair: None })) if o == "out.json"));
    let r = RandomMatches { subcommand: text("run"), interval: text("5"), input_keypair: None, output_keypair: None };
    assert!(matches!(parse_random_command(&r), Some(Ok(CliCommand::Random { interval: 5, .. }))));
    let r = RandomMatches { subcommand: text("run"), interval: text("soon"), input_keypair: None, output_keypair: None };
    assert!(parse_random_command(&r).is_none());
}

#[test]
fn command_dispatches_on_its_name() {
    let mut m = empty_command(text("perps"));
    m.perps = perps("orders");
    assert!(matches!(parse_command(&m), Some(Ok(CliCommand::Perpetuals(PerpetualsSubCommand::Orders)))));
    let mut m = empty_command(text("list"));
    m.list = text("pools");
    assert!(matches!(parse_command(&m), Some(Ok(CliCommand::List(ListSubCommand::Pools)))));
    let mut m = empty_command(text("sub-account"));
    m.sub_account = SubAccountMatches { symbol: text("SOL"), amount: text("0.5"), ..sub_account("withdraw") };
    match parse_command(&m) {
        Some(Ok(CliCommand::SubAccount(SubAccountSubCommand::Withdraw { amount, .. }))) => assert_eq!(amount, Fixed::from_bits(1i128 << 47)),
        other => panic!("unexpected: {:?}", other),
    }
}

#[test]
fn error_messages_carry_their_prefix() {
    assert_eq!(CliError::BadParameters("x".to_string()).message(), "Bad parameter: x");
    assert_eq!(CliError::CommandNotRecognized("y".to_string()).message(), "Command not recognized: y");
    assert_eq!(CliError::ClientError("z".to_string()).message(), "z");
}

#[test]
fn place_needs_a_known_order_type() {
    let m = PerpsMatches { symbol: text("SOL-PERP"), side: text("buy"), size: text("2"), price: text("20"), ..perps("place") };
    assert_eq!(bad(parse_perps_command(&m)), "Order type not provided. Must be one of \"limit\" or \"postOnly\".");
    let m = PerpsMatches { order_type: text("market"), ..m };
    assert_eq!(bad(parse_perps_command(&m)), "Invalid order type provided, must be one of \"limit\" or \"postOnly\".");
    let s = SpotMatches { symbol: text("SOL"), side: text("buy"), size: text("1"), price: text("2"), order_type: text("market"), ..spot("place") };
    match parse_spot_command(&s) {
        Some(r) => assert_eq!(bad(r), "Invalid order type provided, must be one of \"limit\" or \"postOnly\"."),
        None => panic!("expected a result"),
    }
}
