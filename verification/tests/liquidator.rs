use cypher_cli::address::Address;
use cypher_cli::fixed_point::Fixed;
use cypher_cli::liquidator::check::{
    check_can_liquidate, check_collateral, AccountSnapshot, DerivativePositionSnapshot, LiquidationType,
    MarketType, OpenOrdersCache, PositionSlot, PositionType, SpotPositionSnapshot, SubAccountMargining,
    SubAccountSnapshot, UserSnapshot,
};
use cypher_cli::liquidator::error::Error;
use cypher_cli::liquidator::planning::{
    accept_simulation, decide_liquidation, get_highest_simulation_value, get_highest_value_perp_position,
    get_highest_value_spot_position, LiquidationStep, ScoredSimulation,
};
use cypher_cli::liquidator::simulation::{
    simulate_perp_liquidation, simulate_spot_liquidation, SimulateLiquidationArgs, SimulationContext,
    SimulationResult, SimulationType,
};
use fixed::types::I80F48;

fn addr(n: u64) -> Address {
    Address { w0: 0, w1: 0, w2: 0, w3: n }
}

fn fx(v: f64) -> Fixed {
    Fixed::from_bits(I80F48::from_num(v).to_bits())
}

fn spot(mint: u64, position: f64, ui_total: f64, price: f64, coin_total: u64) -> SpotPositionSnapshot {
    SpotPositionSnapshot {
        token_mint: addr(mint),
        position: fx(position),
        ui_total: fx(ui_total),
        oracle_price: fx(price),
        cache_index: 0,
        open_orders_cache: OpenOrdersCache { coin_total, pc_total: 0 },
    }
}

fn derivative(market: u64, kind: MarketType, total: f64, price: f64) -> DerivativePositionSnapshot {
    DerivativePositionSnapshot {
        market: addr(market),
        market_type: kind,
        total_position: fx(total),
        ui_total: fx(total),
        oracle_price: fx(price),
        cache_index: 0,
        open_orders_cache: OpenOrdersCache { coin_total: 0, pc_total: 0 },
    }
}

fn sub(address: u64, margining: SubAccountMargining, ratio: f64, positions: Vec<PositionSlot>) -> SubAccountSnapshot {
    SubAccountSnapshot { address: addr(address), authority: addr(1), margining_type: margining, margin_c_ratio: fx(ratio), positions }
}

fn slot(s: SpotPositionSnapshot, d: DerivativePositionSnapshot) -> PositionSlot {
    PositionSlot { spot: s, derivative: d }
}

fn no_derivative() -> DerivativePositionSnapshot {
    derivative(0, MarketType::PerpetualFuture, 0.0, 0.0)
}

fn user(ratio: f64, subs: Vec<SubAccountSnapshot>) -> UserSnapshot {
    UserSnapshot {
        account: AccountSnapshot { address: addr(100), authority: addr(1), clearing: addr(2), margin_c_ratio: fx(ratio) },
        sub_accounts: subs,
    }
}

#[test]
fn account_below_maintenance_settles_cross_positions() {
    let cross = sub(10, SubAccountMargining::Cross, 2.0, vec![slot(spot(50, 1.0, 1.0, 1.0, 5), no_derivative())]);
    let isolated = sub(11, SubAccountMargining::Isolated, 0.5, vec![slot(spot(51, 1.0, 1.0, 1.0, 5), no_derivative())]);
    let check = check_collateral(&user(1.0, vec![cross, isolated]), fx(1.1));
    assert_eq!(check.liquidation_type, LiquidationType::Account { account: addr(100) });
    assert_eq!(check.positions_info.len(), 1);
    assert_eq!(check.positions_info[0].position_type, PositionType::Spot);
    assert_eq!((check.positions_info[0].identifier, check.positions_info[0].sub_account), (addr(50), addr(10)));
}

#[test]
fn first_isolated_sub_account_below_maintenance_is_chosen() {
    let healthy = sub(10, SubAccountMargining::Isolated, 2.0, vec![]);
    let weak = sub(11, SubAccountMargining::Isolated, 0.5, vec![slot(spot(52, 1.0, 1.0, 1.0, 0), no_derivative())]);
    let weaker = sub(12, SubAccountMargining::Isolated, 0.1, vec![]);
    let liqee = user(3.0, vec![healthy, weak, weaker]);
    let check = check_collateral(&liqee, fx(1.1));
    assert_eq!(check.liquidation_type, LiquidationType::SubAccount { sub_account: addr(11) });
    assert!(check.positions_info.is_empty());
    let (liqor, account) = (addr(1), addr(100));
    assert!(matches!(decide_liquidation(liqor, account, &check, &liqee.sub_accounts, true), Ok(LiquidationStep::SubAccount { sub_account_idx: 1 })));
    assert!(matches!(decide_liquidation(liqor, account, &check, &liqee.sub_accounts, false), Err(Error::LiquidatorCRatio)));
    assert!(matches!(decide_liquidation(addr(0), account, &check, &liqee.sub_accounts, false), Ok(LiquidationStep::Skip)));
    assert!(matches!(decide_liquidation(liqor, addr(0), &check, &liqee.sub_accounts, true), Ok(LiquidationStep::Skip)));
    let fine = check_collateral(&user(3.0, vec![]), fx(1.1));
    assert_eq!(fine.liquidation_type, LiquidationType::Ineligible);
    assert!(matches!(decide_liquidation(liqor, account, &fine, &[], false), Ok(LiquidationStep::Healthy)));
}

#[test]
fn liquidator_needs_its_initial_ratio() {
    let liqor = AccountSnapshot { address: addr(1), authority: addr(1), clearing: addr(2), margin_c_ratio: fx(1.5) };
    assert!(check_can_liquidate(&liqor, fx(1.5)));
    assert!(!check_can_liquidate(&liqor, fx(1.6)));
}

#[test]
fn most_valuable_positions_are_picked_first_of_equals() {
    let s = sub(10, SubAccountMargining::Cross, 1.0, vec![
        slot(spot(1, 2.0, 2.0, 3.0, 0), derivative(7, MarketType::PerpetualFuture, 1.0, 5.0)),
        slot(spot(2, 3.0, 3.0, 2.0, 0), derivative(8, MarketType::IndexFuture, 9.0, 9.0)),
        slot(spot(3, -9.0, 9.0, 9.0, 0), derivative(9, MarketType::PerpetualFuture, 2.0, 3.0)),
    ]);
    // spot values 6, 6 and a borrow: the first deposit worth 6
    assert_eq!(get_highest_value_spot_position(&s).token_mint, addr(1));
    // perpetual values 5 and 6: the second
    assert_eq!(get_highest_value_perp_position(&s).market, addr(9));
}

fn ctx() -> SimulationContext {
    SimulationContext {
        liqor_sub_account_idx: 0,
        liqee_sub_account_idx: 0,
        target_margin_ratio: fx(2.0),
        liqor_fee: fx(0.25),
        insurance_fee: fx(0.25),
        liqee_bankrupt: false,
        liqee_liability_position: fx(50.0),
        liqee_asset_position: fx(10.0),
        liqor_liability_position: fx(100.0),
        quote_mint: addr(99),
    }
}

fn args() -> SimulateLiquidationArgs {
    SimulateLiquidationArgs {
        assets_value: fx(140.0),
        liabilities_value: fx(100.0),
        asset: addr(5),
        liability: addr(6),
        asset_cache_idx: 0,
        liability_cache_idx: 1,
        asset_decimals: 6,
        liability_decimals: 6,
        asset_price: fx(2.0),
        liability_price: fx(1.0),
        insurance_fund: fx(1000.0),
    }
}

#[test]
fn spot_simulation_follows_the_formula() {
    let q = I80F48::from_num(1_000_000);
    let target = I80F48::from_num(2);
    let fee = I80F48::from_num(0.25);
    // excess = (100 * 2 - 140) / (2 - 0.25 - 0.25) = 40
    let excess = (I80F48::from_num(100) * target - I80F48::from_num(140)) / (target - fee - fee);
    let loan = I80F48::from_num(50) * I80F48::from_num(1) * q;
    let max_repay = loan.min(excess);
    let max_swap = (I80F48::from_num(10) * I80F48::from_num(2) * q) / (fee + fee);
    let liqor_repay = I80F48::from_num(100) * I80F48::from_num(1) * q;
    let repay_value = max_swap.min(liqor_repay).min(max_repay);
    let repay_amount = repay_value / (I80F48::from_num(1) * q) * I80F48::from_num(1_000_000);
    let credit = repay_value * fee;
    let insurance = repay_value * fee;
    let debit = (credit + insurance) / (I80F48::from_num(2) * q) * I80F48::from_num(1_000_000);
    let r = simulate_spot_liquidation(&ctx(), &args()).unwrap();
    assert_eq!(r.repay_amount.bits, repay_amount.to_bits());
    assert_eq!(r.liqee_asset_debit.bits, debit.to_bits());
    assert_eq!(r.global_insurance_credit.bits, insurance.to_bits());
    assert_eq!(r.global_insurance_debit, Fixed::zero());
    assert!(accept_simulation(&r));
}

#[test]
fn bankrupt_quote_liabilities_are_repaid_from_insurance() {
    let mut c = ctx();
    c.liqee_bankrupt = true;
    let mut a = args();
    a.asset = addr(99);
    a.liability = addr(99);
    a.insurance_fund = fx(7.0);
    let r = simulate_spot_liquidation(&c, &a).unwrap();
    assert_eq!((r.repay_amount, r.global_insurance_debit, r.liqee_asset_debit), (fx(7.0), fx(7.0), Fixed::zero()));
    assert!(!accept_simulation(&r));
}

#[test]
fn best_simulation_has_the_most_valuable_asset() {
    let zero = SimulationResult { repay_amount: Fixed::zero(), liqee_asset_debit: Fixed::zero(), global_insurance_credit: Fixed::zero(), global_insurance_debit: Fixed::zero() };
    let scored = |pos: f64, price: f64| ScoredSimulation {
        simulation_type: SimulationType::Spot { simulation_ctx: ctx(), simulation_args: args() },
        result: zero,
        asset_position: fx(pos),
        asset_price: fx(price),
    };
    assert_eq!(get_highest_simulation_value(&[scored(1.0, 2.0), scored(3.0, 1.0), scored(1.5, 2.0)]), Some(1));
    assert_eq!(get_highest_simulation_value(&[scored(0.0, 2.0)]), None);
    assert_eq!(simulate_perp_liquidation(&ctx(), &args()).unwrap(), zero);
}

use cypher_cli::liquidator::planning::{derivative_liquidation_accounts, DerivativeLiquidationAccounts};

#[test]
fn derivative_liquidation_leaves_the_quote_side_without_market() {
    let quote = addr(99);
    let unset = addr(0);
    assert_eq!(
        derivative_liquidation_accounts(quote, addr(5), quote),
        DerivativeLiquidationAccounts { asset_mint: quote, asset_market: unset, liability_mint: addr(5), liability_market: addr(5) }
    );
    assert_eq!(
        derivative_liquidation_accounts(addr(4), quote, quote),
        DerivativeLiquidationAccounts { asset_mint: addr(4), asset_market: addr(4), liability_mint: quote, liability_market: unset }
    );
    assert_eq!(
        derivative_liquidation_accounts(addr(4), addr(5), quote),
        DerivativeLiquidationAccounts { asset_mint: addr(4), asset_market: addr(4), liability_mint: addr(5), liability_market: addr(5) }
    );
}

use cypher_cli::liquidator::planning::{
    process_account_liquidation, process_sub_account_liquidation, CandidateSimulation, LiabilityCover, SlotCover,
};

#[test]
fn sub_account_liquidation_keeps_the_simulations_that_move_something() {
    let liqee = sub(10, SubAccountMargining::Isolated, 0.5, vec![
        slot(spot(5, 10.0, 10.0, 2.0, 0), derivative(7, MarketType::PerpetualFuture, 1.0, 5.0)),
        slot(spot(6, -50.0, 50.0, 1.0, 0), derivative(8, MarketType::PerpetualFuture, -1.0, 5.0)),
    ]);
    let covers = [
        SlotCover { spot: None, derivative: None },
        SlotCover {
            spot: Some(LiabilityCover { liqor_sub_account_idx: 0, liqor_position: fx(100.0) }),
            derivative: Some(LiabilityCover { liqor_sub_account_idx: 0, liqor_position: fx(5.0) }),
        },
    ];
    let mut spot_args = args();
    spot_args.liability_cache_idx = 0;
    let mut perp_args = spot_args;
    perp_args.asset = addr(7);
    perp_args.liability = addr(8);
    let simulations = [
        CandidateSimulation {
            simulation_type: SimulationType::Spot { simulation_ctx: ctx(), simulation_args: spot_args },
            asset_position: fx(10.0),
            asset_price: fx(2.0),
        },
        CandidateSimulation {
            simulation_type: SimulationType::Perpetuals { simulation_ctx: ctx(), simulation_args: perp_args },
            asset_position: fx(1.0),
            asset_price: fx(5.0),
        },
    ];
    let kept = process_sub_account_liquidation(&liqee, 0, &covers, &simulations).unwrap();
    assert_eq!(kept.len(), 1);
    assert_eq!(kept[0].result, simulate_spot_liquidation(&ctx(), &spot_args).unwrap());
    assert_eq!(kept[0].simulation_type, simulations[0].simulation_type);
    let best = process_account_liquidation(&[vec![], kept.clone()]);
    assert_eq!(best, Some(kept[0]));
    assert_eq!(process_account_liquidation(&[vec![], vec![]]), None);
}
