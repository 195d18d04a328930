//! What a liquidation would move: the amount repaid, the liqee's asset debit
//! and the insurance fund's credit or debit.
use vstd::prelude::*;
use crate::address::Address;
use crate::fixed_point::{
    Fixed, add_opt, div_bits, div_opt, fits, int_bits, lemma_div_bits_monotone, lemma_mul_bits_monotone,
    min_bits, mul_bits, mul_opt, scale, sub_opt,
};
use super::error::Error;

verus! {

/// Decimals of the quote token.
pub const QUOTE_TOKEN_DECIMALS: u8 = 6;

/// What a simulation reads of the liquidator, the liqee and their clearings.
#[derive(Clone, Copy, Debug, PartialEq, Eq, Structural)]
pub struct SimulationContext {
    /// The liquidator's sub account used for the liquidation.
    pub liqor_sub_account_idx: usize,
    /// The liqee's sub account being liquidated.
    pub liqee_sub_account_idx: usize,
    /// The liqee clearing's target margin ratio.
    pub target_margin_ratio: Fixed,
    /// The liquidator clearing's liquidation fee.
    pub liqor_fee: Fixed,
    /// The liqee clearing's insurance fee.
    pub insurance_fee: Fixed,
    /// Whether the liqee's sub account is bankrupt.
    pub liqee_bankrupt: bool,
    /// The liqee's liability position, absolute, in whole tokens.
    pub liqee_liability_position: Fixed,
    /// The liqee's asset position, absolute, in whole tokens.
    pub liqee_asset_position: Fixed,
    /// The liquidator's position in the liability, absolute, in whole tokens.
    pub liqor_liability_position: Fixed,
    /// The quote token's mint.
    pub quote_mint: Address,
}

/// The liquidation being simulated.
#[derive(Clone, Copy, Debug, PartialEq, Eq, Structural)]
pub struct SimulateLiquidationArgs {
    pub assets_value: Fixed,
    pub liabilities_value: Fixed,
    pub asset: Address,
    pub liability: Address,
    pub asset_cache_idx: usize,
    pub liability_cache_idx: usize,
    pub asset_decimals: u8,
    pub liability_decimals: u8,
    pub asset_price: Fixed,
    pub liability_price: Fixed,
    pub insurance_fund: Fixed,
}

/// A simulation of a given kind.
#[derive(Clone, Copy, Debug, PartialEq, Eq, Structural)]
pub enum SimulationType {
    Futures { simulation_ctx: SimulationContext, simulation_args: SimulateLiquidationArgs },
    Perpetuals { simulation_ctx: SimulationContext, simulation_args: SimulateLiquidationArgs },
    Spot { simulation_ctx: SimulationContext, simulation_args: SimulateLiquidationArgs },
}

/// What a liquidation would move.
#[derive(Clone, Copy, Debug, PartialEq, Eq, Structural)]
pub struct SimulationResult {
    pub repay_amount: Fixed,
    pub liqee_asset_debit: Fixed,
    pub global_insurance_credit: Fixed,
    pub global_insurance_debit: Fixed,
}

/// The result with every amount zero.
pub open spec fn zero_result() -> SimulationResult {
    SimulationResult {
        repay_amount: Fixed { bits: 0 },
        liqee_asset_debit: Fixed { bits: 0 },
        global_insurance_credit: Fixed { bits: 0 },
        global_insurance_debit: Fixed { bits: 0 },
    }
}

/// The result with the given raw amounts.
pub open spec fn result_of(repay: int, debit: int, credit: int, ins_debit: int) -> SimulationResult {
    SimulationResult {
        repay_amount: Fixed { bits: repay as i128 },
        liqee_asset_debit: Fixed { bits: debit as i128 },
        global_insurance_credit: Fixed { bits: credit as i128 },
        global_insurance_debit: Fixed { bits: ins_debit as i128 },
    }
}

/// `10^d`.
pub open spec fn ten_pow(d: nat) -> nat
    decreases d,
{
    if d == 0 {
        1
    } else {
        10 * ten_pow((d - 1) as nat)
    }
}

proof fn lemma_ten_pow_bound(d: nat)
    requires
        d <= 19,
    ensures
        1 <= ten_pow(d) <= ten_pow(19),
        ten_pow(19) == 10_000_000_000_000_000_000,
    decreases 19 - d,
{
    reveal_with_fuel(ten_pow, 20);
    if d < 19 {
        lemma_ten_pow_bound(d + 1);
    }
}

/// Raw bits of `10^d` as a number, when `10^d` fits in a `u64`.
pub open spec fn pow10_opt(d: int) -> Option<int> {
    if 0 <= d <= 19 {
        Some(int_bits(ten_pow(d as nat) as int))
    } else {
        None
    }
}

/// Raw bits of one whole quote token in native units.
pub open spec fn quote_unit() -> int {
    int_bits(1_000_000)
}

/// A value in whole tokens times the price, in native quote units.
pub open spec fn quote_value(amount: int, price: int) -> Option<int> {
    mul_opt(mul_opt(Some(amount), Some(price)), Some(quote_unit()))
}

/// A value in native quote units converted back to native token units.
pub open spec fn native_amount(value: Option<int>, price: int, decimals: int) -> Option<int> {
    mul_opt(div_opt(value, mul_opt(Some(price), Some(quote_unit()))), pow10_opt(decimals))
}

/// The outcome of a spot liquidation, or `None` when a step overflows,
/// divides by zero, or the liqee is bankrupt and the asset is not the quote
/// token.
///
/// The liabilities in excess of the target ratio,
/// `(liabilities * target - assets) / (target - liqor_fee - insurance_fee)`,
/// and the liqee's loan value bound what may be repaid. A bankrupt liqee
/// with quote token liabilities is repaid from the insurance fund. Otherwise
/// the repaid value is further bound by what the liqee's asset covers after
/// fees (the insurance fund over the liqor fee when bankrupt) and by the
/// liquidator's own position; the liquidator is credited the repaid value
/// times its fee, taken from the liqee's asset together with the insurance
/// fee, or from the insurance fund when the liqee is bankrupt.
pub open spec fn spot_outcome(ctx: SimulationContext, args: SimulateLiquidationArgs) -> Option<
    SimulationResult,
> {
    let target = ctx.target_margin_ratio.val();
    let liqor_fee = ctx.liqor_fee.val();
    let insurance_fee = ctx.insurance_fee.val();
    let excess = div_opt(
        sub_opt(
            mul_opt(Some(args.liabilities_value.val()), Some(target)),
            Some(args.assets_value.val()),
        ),
        sub_opt(sub_opt(Some(target), Some(liqor_fee)), Some(insurance_fee)),
    );
    let loan = quote_value(ctx.liqee_liability_position.val(), args.liability_price.val());
    match (excess, loan) {
        (Some(excess), Some(loan)) => {
            let max_repay = min_bits(loan, excess);
            if ctx.liqee_bankrupt && args.asset != ctx.quote_mint {
                None
            } else if ctx.liqee_bankrupt && args.liability == ctx.quote_mint {
                let repay = min_bits(max_repay, args.insurance_fund.val());
                Some(result_of(repay, 0, 0, repay))
            } else {
                let max_swap = if ctx.liqee_bankrupt {
                    div_opt(Some(args.insurance_fund.val()), Some(liqor_fee))
                } else {
                    div_opt(
                        quote_value(ctx.liqee_asset_position.val(), args.asset_price.val()),
                        add_opt(Some(liqor_fee), Some(insurance_fee)),
                    )
                };
                let liqor_repay = quote_value(
                    ctx.liqor_liability_position.val(),
                    args.liability_price.val(),
                );
                match (max_swap, liqor_repay) {
                    (Some(max_swap), Some(liqor_repay)) => {
                        let repay_value = min_bits(min_bits(max_swap, liqor_repay), max_repay);
                        let repay_amount = native_amount(
                            Some(repay_value),
                            args.liability_price.val(),
                            args.liability_decimals as int,
                        );
                        let liqor_credit = mul_opt(Some(repay_value), Some(liqor_fee));
                        if ctx.liqee_bankrupt {
                            match (repay_amount, liqor_credit) {
                                (Some(r), Some(c)) => Some(result_of(r, 0, 0, c)),
                                _ => None,
                            }
                        } else {
                            let insurance_credit = mul_opt(Some(repay_value), Some(insurance_fee));
                            let debit = native_amount(
                                add_opt(liqor_credit, insurance_credit),
                                args.asset_price.val(),
                                args.asset_decimals as int,
                            );
                            match (repay_amount, debit, insurance_credit) {
                                (Some(r), Some(d), Some(c)) => Some(result_of(r, d, c, 0)),
                                _ => None,
                            }
                        }
                    },
                    _ => None,
                }
            }
        },
        _ => None,
    }
}

/// `10^d`, for `d` up to 19.
pub fn pow10(d: u8) -> (r: u64)
    requires
        d <= 19,
    ensures
        r == ten_pow(d as nat),
{
    let mut r: u64 = 1;
    let mut i: u8 = 0;
    while i < d
        invariant
            i <= d <= 19,
            r == ten_pow(i as nat),
        decreases d - i,
    {
        proof {
            lemma_ten_pow_bound((i + 1) as nat);
        }
        r = r * 10;
        i = i + 1;
    }
    r
}

fn pow10_fixed(d: u8) -> (r: Option<Fixed>)
    ensures
        r matches Some(x) ==> pow10_opt(d as int) == Some(x.val()),
        r is None ==> pow10_opt(d as int) is None,
{
    if d <= 19 {
        Some(Fixed::from_u64(pow10(d)))
    } else {
        None
    }
}

fn quote_value_exec(amount: Fixed, price: Fixed) -> (r: Option<Fixed>)
    ensures
        r matches Some(x) ==> quote_value(amount.val(), price.val()) == Some(x.val()),
        r is None ==> quote_value(amount.val(), price.val()) is None,
{
    match amount.checked_mul(price) {
        Some(v) => v.checked_mul(Fixed::from_u64(1_000_000)),
        None => None,
    }
}

fn native_amount_exec(value: Fixed, price: Fixed, decimals: u8) -> (r: Option<Fixed>)
    ensures
        r matches Some(x) ==> native_amount(Some(value.val()), price.val(), decimals as int) == Some(
            x.val(),
        ),
        r is None ==> native_amount(Some(value.val()), price.val(), decimals as int) is None,
{
    let unit_price = match price.checked_mul(Fixed::from_u64(1_000_000)) {
        Some(p) => p,
        None => return None,
    };
    let q = match value.checked_div(unit_price) {
        Some(q) => q,
        None => return None,
    };
    match pow10_fixed(decimals) {
        Some(p) => q.checked_mul(p),
        None => None,
    }
}

/// The outcome of a spot liquidation, or `None` when it cannot be computed.
pub fn try_simulate_spot_liquidation(ctx: &SimulationContext, args: &SimulateLiquidationArgs) -> (r:
    Option<SimulationResult>)
    ensures
        r == spot_outcome(*ctx, *args),
{
    let target_ratio = ctx.target_margin_ratio;
    let liqor_fee = ctx.liqor_fee;
    let insurance_fee = ctx.insurance_fee;
    let fee_room = match target_ratio.checked_sub(liqor_fee) {
        Some(x) => match x.checked_sub(insurance_fee) {
            Some(y) => Some(y),
            None => None,
        },
        None => None,
    };
    let excess_liabs_value = match args.liabilities_value.checked_mul(target_ratio) {
        Some(a) => match a.checked_sub(args.assets_value) {
            Some(b) => match fee_room {
                Some(room) => b.checked_div(room),
                None => None,
            },
            None => None,
        },
        None => None,
    };
    let excess_liabs_value = match excess_liabs_value {
        Some(v) => v,
        None => return None,
    };
    let loan_value_in_position = match quote_value_exec(
        ctx.liqee_liability_position,
        args.liability_price,
    ) {
        Some(v) => v,
        None => return None,
    };
    let max_repay_value = loan_value_in_position.min(excess_liabs_value);
    let is_bankrupt = ctx.liqee_bankrupt;
    if is_bankrupt {
        if args.asset != ctx.quote_mint {
            return None;
        }
        if args.liability == ctx.quote_mint {
            let repay_amount = max_repay_value.min(args.insurance_fund);
            return Some(
                SimulationResult {
                    repay_amount,
                    liqee_asset_debit: Fixed::zero(),
                    global_insurance_credit: Fixed::zero(),
                    global_insurance_debit: repay_amount,
                },
            );
        }
    }
    let max_value_for_swap = if is_bankrupt {
        args.insurance_fund.checked_div(liqor_fee)
    } else {
        match quote_value_exec(ctx.liqee_asset_position, args.asset_price) {
            Some(v) => match liqor_fee.checked_add(insurance_fee) {
                Some(fees) => v.checked_div(fees),
                None => None,
            },
            None => None,
        }
    };
    let max_value_for_swap = match max_value_for_swap {
        Some(v) => v,
        None => return None,
    };
    let liqor_repay_position_value = match quote_value_exec(
        ctx.liqor_liability_position,
        args.liability_price,
    ) {
        Some(v) => v,
        None => return None,
    };
    let max_liability_swap_value = max_value_for_swap.min(liqor_repay_position_value);
    let repay_value = max_liability_swap_value.min(max_repay_value);
    let repay_amount = native_amount_exec(repay_value, args.liability_price, args.liability_decimals);
    let liqor_credit_value = repay_value.checked_mul(liqor_fee);
    if is_bankrupt {
        match (repay_amount, liqor_credit_value) {
            (Some(r), Some(c)) => Some(
                SimulationResult {
                    repay_amount: r,
                    liqee_asset_debit: Fixed::zero(),
                    global_insurance_credit: Fixed::zero(),
                    global_insurance_debit: c,
                },
            ),
            _ => None,
        }
    } else {
        let global_insurance_credit_value = repay_value.checked_mul(insurance_fee);
        let liqee_asset_debit = match (liqor_credit_value, global_insurance_credit_value) {
            (Some(c), Some(g)) => match c.checked_add(g) {
                Some(d) => native_amount_exec(d, args.asset_price, args.asset_decimals),
                None => None,
            },
            _ => None,
        };
        match (repay_amount, liqee_asset_debit, global_insurance_credit_value) {
            (Some(r), Some(d), Some(g)) => Some(
                SimulationResult {
                    repay_amount: r,
                    liqee_asset_debit: d,
                    global_insurance_credit: g,
                    global_insurance_debit: Fixed::zero(),
                },
            ),
            _ => None,
        }
    }
}


/// The outcome of a simulation of any kind: spot liquidations are
/// computed, the derivative kinds are not simulated yet and move nothing.
pub open spec fn simulation_outcome(simulation_type: SimulationType) -> Option<SimulationResult> {
    match simulation_type {
        SimulationType::Futures { .. } => Some(zero_result()),
        SimulationType::Perpetuals { .. } => Some(zero_result()),
        SimulationType::Spot { simulation_ctx, simulation_args } => spot_outcome(
            simulation_ctx,
            simulation_args,
        ),
    }
}

/// Where a spot liquidation's funds come from: a liqee that is not bankrupt
/// pays with its asset and the insurance fund pays nothing; a bankrupt
/// liqee's asset is never debited, and a bankrupt liqee's quote liability
/// is repaid from the insurance fund alone, never beyond the fund.
pub proof fn lemma_spot_funds_sources(ctx: SimulationContext, args: SimulateLiquidationArgs)
    requires
        spot_outcome(ctx, args) is Some,
    ensures
        !ctx.liqee_bankrupt ==> spot_outcome(ctx, args)->0.global_insurance_debit.val() == 0,
        ctx.liqee_bankrupt ==> spot_outcome(ctx, args)->0.liqee_asset_debit.val() == 0
            && spot_outcome(ctx, args)->0.global_insurance_credit.val() == 0,
        ctx.liqee_bankrupt && args.liability == ctx.quote_mint ==> spot_outcome(
            ctx,
            args,
        )->0.global_insurance_debit == spot_outcome(ctx, args)->0.repay_amount && spot_outcome(
            ctx,
            args,
        )->0.repay_amount.val() <= args.insurance_fund.val(),
{
}

/// A spot liquidation never repays more than the liquidator holds of the
/// liability, nor more than the liqee owes: unless a bankrupt liqee's quote
/// liability is repaid from the insurance fund, the amount repaid (in native
/// units of the liability) is at most the native amount of the liquidator's
/// own position, and at most that of the liqee's liability position, each
/// valued at the liability's price (positive) in native quote units and
/// converted back.
pub proof fn lemma_repay_within_liqor_position(ctx: SimulationContext, args: SimulateLiquidationArgs)
    requires
        spot_outcome(ctx, args) is Some,
        !(ctx.liqee_bankrupt && args.liability == ctx.quote_mint),
        args.liability_price.val() > 0,
    ensures
        ({
            let price = args.liability_price.val();
            let liqor_value = mul_bits(
                mul_bits(ctx.liqor_liability_position.val(), price),
                int_bits(1_000_000),
            );
            let liqee_value = mul_bits(
                mul_bits(ctx.liqee_liability_position.val(), price),
                int_bits(1_000_000),
            );
            &&& spot_outcome(ctx, args)->0.repay_amount.val() <= mul_bits(
                div_bits(liqor_value, price * 1_000_000),
                int_bits(ten_pow(args.liability_decimals as nat) as int),
            )
            &&& spot_outcome(ctx, args)->0.repay_amount.val() <= mul_bits(
                div_bits(liqee_value, price * 1_000_000),
                int_bits(ten_pow(args.liability_decimals as nat) as int),
            )
        }),
{
    let target = ctx.target_margin_ratio.val();
    let liqor_fee = ctx.liqor_fee.val();
    let insurance_fee = ctx.insurance_fee.val();
    let price = args.liability_price.val();
    let excess = div_opt(
        sub_opt(
            mul_opt(Some(args.liabilities_value.val()), Some(target)),
            Some(args.assets_value.val()),
        ),
        sub_opt(sub_opt(Some(target), Some(liqor_fee)), Some(insurance_fee)),
    );
    let loan = quote_value(ctx.liqee_liability_position.val(), price);
    let max_repay = min_bits(loan->0, excess->0);
    let max_swap = if ctx.liqee_bankrupt {
        div_opt(Some(args.insurance_fund.val()), Some(liqor_fee))
    } else {
        div_opt(
            quote_value(ctx.liqee_asset_position.val(), args.asset_price.val()),
            add_opt(Some(liqor_fee), Some(insurance_fee)),
        )
    };
    let liqor_repay = quote_value(ctx.liqor_liability_position.val(), price);
    let repay_value = min_bits(min_bits(max_swap->0, liqor_repay->0), max_repay);
    let liqor_value = mul_bits(mul_bits(ctx.liqor_liability_position.val(), price), int_bits(1_000_000));
    assert(liqor_repay->0 == liqor_value);
    assert(repay_value <= liqor_value);
    let u = int_bits(1_000_000);
    assert(mul_bits(price, u) == price * 1_000_000) by (nonlinear_arith)
        requires
            u == 1_000_000 * scale(),
            mul_bits(price, u) == (price * u) / scale(),
            scale() > 0,
    ;
    let p = int_bits(ten_pow(args.liability_decimals as nat) as int);
    assert(p >= 0) by (nonlinear_arith)
        requires
            p == (ten_pow(args.liability_decimals as nat) as int) * scale(),
            scale() > 0,
    ;
    lemma_div_bits_monotone(repay_value, liqor_value, price * 1_000_000);
    lemma_mul_bits_monotone(
        div_bits(repay_value, price * 1_000_000),
        div_bits(liqor_value, price * 1_000_000),
        p,
    );
    let liqee_value = mul_bits(mul_bits(ctx.liqee_liability_position.val(), price), int_bits(1_000_000));
    assert(loan->0 == liqee_value);
    assert(repay_value <= liqee_value);
    lemma_div_bits_monotone(repay_value, liqee_value, price * 1_000_000);
    lemma_mul_bits_monotone(
        div_bits(repay_value, price * 1_000_000),
        div_bits(liqee_value, price * 1_000_000),
        p,
    );
}

/// Simulating a liquidation of a kind gives what the simulation of that kind
/// gives: a spot simulation its computed outcome, a perpetual or futures
/// simulation the result in which nothing moves.
pub proof fn lemma_simulation_by_kind(ctx: SimulationContext, args: SimulateLiquidationArgs)
    ensures
        simulation_outcome(SimulationType::Spot { simulation_ctx: ctx, simulation_args: args })
            == spot_outcome(ctx, args),
        simulation_outcome(SimulationType::Perpetuals { simulation_ctx: ctx, simulation_args: args })
            == Some(zero_result()),
        simulation_outcome(SimulationType::Futures { simulation_ctx: ctx, simulation_args: args })
            == Some(zero_result()),
{
}

impl SimulationResult {
    /// The result with every amount zero.
    pub fn zero() -> (r: SimulationResult)
        ensures
            r == zero_result(),
    {
        SimulationResult {
            repay_amount: Fixed::zero(),
            liqee_asset_debit: Fixed::zero(),
            global_insurance_credit: Fixed::zero(),
            global_insurance_debit: Fixed::zero(),
        }
    }
}

/// Prepares a liquidation simulation; there is nothing to prepare.
pub fn prepare_simulation() -> (r: Result<(), Error>)
    ensures
        r matches Ok(()),
{
    Ok(())
}

/// Simulates a liquidation of a given kind.
pub fn simulate_liquidation(simulation_type: SimulationType) -> (r: Result<SimulationResult, Error>)
    requires
        simulation_outcome(simulation_type) is Some,
    ensures
        r matches Ok(res) && Some(res) == simulation_outcome(simulation_type),
{
    match simulation_type {
        SimulationType::Futures { simulation_ctx, simulation_args } => simulate_futures_liquidation(
            &simulation_ctx,
            &simulation_args,
        ),
        SimulationType::Perpetuals { simulation_ctx, simulation_args } => simulate_perp_liquidation(
            &simulation_ctx,
            &simulation_args,
        ),
        SimulationType::Spot { simulation_ctx, simulation_args } => simulate_spot_liquidation(
            &simulation_ctx,
            &simulation_args,
        ),
    }
}

/// Simulates a liquidation of tokens; see [`spot_outcome`].
pub fn simulate_spot_liquidation(ctx: &SimulationContext, args: &SimulateLiquidationArgs) -> (r:
    Result<SimulationResult, Error>)
    requires
        spot_outcome(*ctx, *args) is Some,
    ensures
        r matches Ok(res) && Some(res) == spot_outcome(*ctx, *args),
{
    Ok(try_simulate_spot_liquidation(ctx, args).unwrap())
}

/// Simulates a liquidation of perpetual positions: not simulated yet, so
/// nothing moves.
pub fn simulate_perp_liquidation(ctx: &SimulationContext, args: &SimulateLiquidationArgs) -> (r:
    Result<SimulationResult, Error>)
    ensures
        r matches Ok(res) && res == zero_result(),
{
    Ok(SimulationResult::zero())
}

/// Simulates a liquidation of futures positions: not simulated yet, so
/// nothing moves.
pub fn simulate_futures_liquidation(ctx: &SimulationContext, args: &SimulateLiquidationArgs) -> (r:
    Result<SimulationResult, Error>)
    ensures
        r matches Ok(res) && res == zero_result(),
{
    Ok(SimulationResult::zero())
}

} // verus!
