//! Choosing what to liquidate: the liqee's most valuable asset positions,
//! the liabilities the liquidator can take over, the best simulation, and
//! the step to take for a liqee.
use vstd::prelude::*;
use crate::address::Address;
use crate::fixed_point::{Fixed, fits, mul_bits};
use crate::seq_util::{lemma_take_all, lemma_take_succ};
use super::check::{
    DerivativePositionSnapshot, LiquidationCheck, LiquidationType, MarketType, OpenOrdersCache,
    PositionSlot, SpotPositionSnapshot, SubAccountSnapshot,
};
use super::error::Error;
use super::simulation::{simulate_liquidation, simulation_outcome, SimulationResult, SimulationType};

verus! {

/// An unused spot position.
pub open spec fn empty_spot() -> SpotPositionSnapshot {
    SpotPositionSnapshot {
        token_mint: Address::spec_zero(),
        position: Fixed { bits: 0 },
        ui_total: Fixed { bits: 0 },
        oracle_price: Fixed { bits: 0 },
        cache_index: 0,
        open_orders_cache: OpenOrdersCache { coin_total: 0, pc_total: 0 },
    }
}

/// An unused derivative position.
pub open spec fn empty_derivative() -> DerivativePositionSnapshot {
    DerivativePositionSnapshot {
        market: Address::spec_zero(),
        market_type: MarketType::PerpetualFuture,
        total_position: Fixed { bits: 0 },
        ui_total: Fixed { bits: 0 },
        oracle_price: Fixed { bits: 0 },
        cache_index: 0,
        open_orders_cache: OpenOrdersCache { coin_total: 0, pc_total: 0 },
    }
}

/// A spot position that is a deposit.
pub open spec fn spot_asset(s: SpotPositionSnapshot) -> bool {
    !s.token_mint.is_zero() && s.position.val() > 0
}

/// A spot position that is a borrow.
pub open spec fn spot_liability(s: SpotPositionSnapshot) -> bool {
    !s.token_mint.is_zero() && s.position.val() < 0
}

/// A derivative position of the given kind (perpetual or not) with the
/// given sign.
pub open spec fn derivative_of_kind(d: DerivativePositionSnapshot, perpetual: bool) -> bool {
    !d.market.is_zero() && ((d.market_type == MarketType::PerpetualFuture) == perpetual)
}

/// A long derivative position of the given kind.
pub open spec fn derivative_asset(d: DerivativePositionSnapshot, perpetual: bool) -> bool {
    derivative_of_kind(d, perpetual) && d.total_position.val() > 0
}

/// A short derivative position of the given kind.
pub open spec fn derivative_liability(d: DerivativePositionSnapshot, perpetual: bool) -> bool {
    derivative_of_kind(d, perpetual) && d.total_position.val() < 0
}

/// Raw bits of a spot position's value: its size in whole tokens times its
/// oracle price.
pub open spec fn spot_value(s: SpotPositionSnapshot) -> int {
    mul_bits(s.ui_total.val(), s.oracle_price.val())
}

/// Raw bits of a derivative position's value.
pub open spec fn derivative_value(d: DerivativePositionSnapshot) -> int {
    mul_bits(d.ui_total.val(), d.oracle_price.val())
}

/// Every spot deposit's value fits.
pub open spec fn spot_values_fit(positions: Seq<PositionSlot>) -> bool {
    forall|k: int|
        0 <= k < positions.len() && spot_asset((#[trigger] positions[k]).spot) ==> fits(
            spot_value(positions[k].spot),
        )
}

/// Every long derivative position's value, of the given kind, fits.
pub open spec fn derivative_values_fit(positions: Seq<PositionSlot>, perpetual: bool) -> bool {
    forall|k: int|
        0 <= k < positions.len() && derivative_asset((#[trigger] positions[k]).derivative, perpetual)
            ==> fits(derivative_value(positions[k].derivative))
}

/// The most valuable spot deposit found by a scan that keeps the first of
/// equal values, with its value; an unused position and zero when no
/// deposit is worth more than zero.
pub open spec fn highest_spot(positions: Seq<PositionSlot>) -> (SpotPositionSnapshot, int)
    decreases positions.len(),
{
    if positions.len() == 0 {
        (empty_spot(), 0)
    } else {
        let prev = highest_spot(positions.drop_last());
        let s = positions.last().spot;
        if spot_asset(s) && spot_value(s) > prev.1 {
            (s, spot_value(s))
        } else {
            prev
        }
    }
}

/// The most valuable long derivative position of the given kind, in the
/// same way.
pub open spec fn highest_derivative(positions: Seq<PositionSlot>, perpetual: bool) -> (
    DerivativePositionSnapshot,
    int,
)
    decreases positions.len(),
{
    if positions.len() == 0 {
        (empty_derivative(), 0)
    } else {
        let prev = highest_derivative(positions.drop_last(), perpetual);
        let d = positions.last().derivative;
        if derivative_asset(d, perpetual) && derivative_value(d) > prev.1 {
            (d, derivative_value(d))
        } else {
            prev
        }
    }
}

/// The chosen deposit is worth at least every deposit, and more than zero
/// unless none is chosen.
pub proof fn lemma_highest_spot_is_highest(positions: Seq<PositionSlot>)
    ensures
        highest_spot(positions).1 >= 0,
        forall|k: int|
            0 <= k < positions.len() && spot_asset((#[trigger] positions[k]).spot) ==> spot_value(
                positions[k].spot,
            ) <= highest_spot(positions).1,
        highest_spot(positions).0 == empty_spot() || (spot_asset(highest_spot(positions).0)
            && spot_value(highest_spot(positions).0) == highest_spot(positions).1
            && highest_spot(positions).1 > 0),
    decreases positions.len(),
{
    if positions.len() > 0 {
        lemma_highest_spot_is_highest(positions.drop_last());
        assert forall|k: int|
            0 <= k < positions.len() && spot_asset((#[trigger] positions[k]).spot) implies spot_value(
            positions[k].spot,
        ) <= highest_spot(positions).1 by {
            if k < positions.len() - 1 {
                assert(positions[k] == positions.drop_last()[k]);
            }
        }
    }
}

/// The chosen derivative position is worth at least every long position of
/// its kind, and more than zero unless none is chosen.
pub proof fn lemma_highest_derivative_is_highest(positions: Seq<PositionSlot>, perpetual: bool)
    ensures
        highest_derivative(positions, perpetual).1 >= 0,
        forall|k: int|
            0 <= k < positions.len() && derivative_asset(
                (#[trigger] positions[k]).derivative,
                perpetual,
            ) ==> derivative_value(positions[k].derivative) <= highest_derivative(
                positions,
                perpetual,
            ).1,
        highest_derivative(positions, perpetual).0 == empty_derivative() || (derivative_asset(
            highest_derivative(positions, perpetual).0,
            perpetual,
        ) && derivative_value(highest_derivative(positions, perpetual).0) == highest_derivative(
            positions,
            perpetual,
        ).1 && highest_derivative(positions, perpetual).1 > 0),
    decreases positions.len(),
{
    if positions.len() > 0 {
        lemma_highest_derivative_is_highest(positions.drop_last(), perpetual);
        assert forall|k: int|
            0 <= k < positions.len() && derivative_asset(
                (#[trigger] positions[k]).derivative,
                perpetual,
            ) implies derivative_value(positions[k].derivative) <= highest_derivative(
            positions,
            perpetual,
        ).1 by {
            if k < positions.len() - 1 {
                assert(positions[k] == positions.drop_last()[k]);
            }
        }
    }
}

fn empty_spot_position() -> (r: SpotPositionSnapshot)
    ensures
        r == empty_spot(),
{
    SpotPositionSnapshot {
        token_mint: Address::zero(),
        position: Fixed::zero(),
        ui_total: Fixed::zero(),
        oracle_price: Fixed::zero(),
        cache_index: 0,
        open_orders_cache: OpenOrdersCache { coin_total: 0, pc_total: 0 },
    }
}

fn empty_derivative_position() -> (r: DerivativePositionSnapshot)
    ensures
        r == empty_derivative(),
{
    DerivativePositionSnapshot {
        market: Address::zero(),
        market_type: MarketType::PerpetualFuture,
        total_position: Fixed::zero(),
        ui_total: Fixed::zero(),
        oracle_price: Fixed::zero(),
        cache_index: 0,
        open_orders_cache: OpenOrdersCache { coin_total: 0, pc_total: 0 },
    }
}

/// The sub account's most valuable spot deposit (the first of equal ones),
/// or an unused position when none is worth more than zero.
pub fn get_highest_value_spot_position(sub_account: &SubAccountSnapshot) -> (r: SpotPositionSnapshot)
    requires
        spot_values_fit(sub_account.positions@),
    ensures
        r == highest_spot(sub_account.positions@).0,
{
    let positions = &sub_account.positions;
    let mut spot_position = empty_spot_position();
    let mut highest_value = Fixed::zero();
    for k in 0..positions.len()
        invariant
            spot_values_fit(positions@),
            (spot_position, highest_value.val()) == highest_spot(positions@.take(k as int)),
    {
        proof {
            lemma_take_succ(positions@, k as int);
        }
        let s = positions[k].spot;
        if !s.token_mint.is_unset() && s.position.is_positive() {
            let position_value = s.ui_total.checked_mul(s.oracle_price).unwrap();
            if highest_value.lt(position_value) {
                highest_value = position_value;
                spot_position = s;
            }
        }
    }
    proof {
        lemma_take_all(positions@);
    }
    spot_position
}

fn highest_value_derivative(sub_account: &SubAccountSnapshot, perpetual: bool) -> (r:
    DerivativePositionSnapshot)
    requires
        derivative_values_fit(sub_account.positions@, perpetual),
    ensures
        r == highest_derivative(sub_account.positions@, perpetual).0,
{
    let positions = &sub_account.positions;
    let mut deriv_position = empty_derivative_position();
    let mut highest_value = Fixed::zero();
    for k in 0..positions.len()
        invariant
            derivative_values_fit(positions@, perpetual),
            (deriv_position, highest_value.val()) == highest_derivative(
                positions@.take(k as int),
                perpetual,
            ),
    {
        proof {
            lemma_take_succ(positions@, k as int);
        }
        let d = positions[k].derivative;
        let is_perpetual = match d.market_type {
            MarketType::PerpetualFuture => true,
            _ => false,
        };
        if !d.market.is_unset() && d.total_position.is_positive() && is_perpetual == perpetual {
            let position_value = d.ui_total.checked_mul(d.oracle_price).unwrap();
            if highest_value.lt(position_value) {
                highest_value = position_value;
                deriv_position = d;
            }
        }
    }
    proof {
        lemma_take_all(positions@);
    }
    deriv_position
}

/// The sub account's most valuable long perpetual position, or an unused
/// position when none is worth more than zero.
pub fn get_highest_value_perp_position(sub_account: &SubAccountSnapshot) -> (r:
    DerivativePositionSnapshot)
    requires
        derivative_values_fit(sub_account.positions@, true),
    ensures
        r == highest_derivative(sub_account.positions@, true).0,
{
    highest_value_derivative(sub_account, true)
}

/// The sub account's most valuable long futures position, or an unused
/// position when none is worth more than zero.
pub fn get_highest_value_futures_position(sub_account: &SubAccountSnapshot) -> (r:
    DerivativePositionSnapshot)
    requires
        derivative_values_fit(sub_account.positions@, false),
    ensures
        r == highest_derivative(sub_account.positions@, false).0,
{
    highest_value_derivative(sub_account, false)
}


// ---------------------------------------------------------------------------
// Liabilities the liquidator can take over.

/// The liquidator's position in a liability: which of its sub accounts
/// holds it, and its size.
#[derive(Clone, Copy, Debug, PartialEq, Eq, Structural)]
pub struct LiabilityCover {
    pub liqor_sub_account_idx: usize,
    pub liqor_position: Fixed,
}

/// For one of the liqee's position slots, the liquidator's positions in the
/// slot's spot token and derivative market, when it has any.
#[derive(Clone, Copy, Debug, PartialEq, Eq, Structural)]
pub struct SlotCover {
    pub spot: Option<LiabilityCover>,
    pub derivative: Option<LiabilityCover>,
}

/// The kind of position a liquidation takes over.
#[derive(Clone, Copy, Debug, PartialEq, Eq, Structural)]
pub enum CandidateKind {
    Spot,
    Perpetuals,
    Futures,
}

/// A liquidation worth simulating.
#[derive(Clone, Copy, Debug, PartialEq, Eq, Structural)]
pub struct LiquidationCandidate {
    /// What kind of position is taken over.
    pub kind: CandidateKind,
    /// The liqee's position slot holding the liability.
    pub slot: usize,
    /// The liability's token mint or market.
    pub liability: Address,
    /// The cache index used for the liability.
    pub liability_cache_idx: u16,
    /// The asset's token mint or market.
    pub asset: Address,
    /// The asset's cache index.
    pub asset_cache_idx: u16,
    /// The liquidator's sub account that takes the liability over.
    pub liqor_sub_account_idx: usize,
}

/// The liquidator's position is larger than the liqee's liability.
pub open spec fn covers(cover: Option<LiabilityCover>, liability: Fixed) -> bool {
    match cover {
        Some(c) => c.liqor_position.val() > (if liability.val() < 0 {
            -liability.val()
        } else {
            liability.val()
        }),
        None => false,
    }
}

/// The candidates of one slot, in order: its spot borrow, its short
/// perpetual position, its short futures position; each when the liquidator
/// covers it and the liqee has an asset of that kind worth more than zero.
/// Derivative liabilities use the slot's spot cache index.
pub open spec fn slot_candidates(
    positions: Seq<PositionSlot>,
    slot: int,
    cover: SlotCover,
) -> Seq<LiquidationCandidate> {
    let p = positions[slot];
    let spot_asset_choice = highest_spot(positions).0;
    let perp_asset = highest_derivative(positions, true).0;
    let futures_asset = highest_derivative(positions, false).0;
    let spot: Seq<LiquidationCandidate> = if spot_liability(p.spot) && covers(
        cover.spot,
        p.spot.position,
    ) && !spot_asset_choice.token_mint.is_zero() {
        seq![LiquidationCandidate {
            kind: CandidateKind::Spot,
            slot: slot as usize,
            liability: p.spot.token_mint,
            liability_cache_idx: p.spot.cache_index,
            asset: spot_asset_choice.token_mint,
            asset_cache_idx: spot_asset_choice.cache_index,
            liqor_sub_account_idx: cover.spot->0.liqor_sub_account_idx,
        }]
    } else {
        Seq::empty()
    };
    let perp: Seq<LiquidationCandidate> = if derivative_liability(p.derivative, true) && covers(
        cover.derivative,
        p.derivative.total_position,
    ) && !perp_asset.market.is_zero() {
        seq![LiquidationCandidate {
            kind: CandidateKind::Perpetuals,
            slot: slot as usize,
            liability: p.derivative.market,
            liability_cache_idx: p.spot.cache_index,
            asset: perp_asset.market,
            asset_cache_idx: perp_asset.cache_index,
            liqor_sub_account_idx: cover.derivative->0.liqor_sub_account_idx,
        }]
    } else {
        Seq::empty()
    };
    let futures: Seq<LiquidationCandidate> = if derivative_liability(p.derivative, false) && covers(
        cover.derivative,
        p.derivative.total_position,
    ) && !futures_asset.market.is_zero() {
        seq![LiquidationCandidate {
            kind: CandidateKind::Futures,
            slot: slot as usize,
            liability: p.derivative.market,
            liability_cache_idx: p.spot.cache_index,
            asset: futures_asset.market,
            asset_cache_idx: futures_asset.cache_index,
            liqor_sub_account_idx: cover.derivative->0.liqor_sub_account_idx,
        }]
    } else {
        Seq::empty()
    };
    spot + perp + futures
}

/// The candidates of the first `n` slots, slot by slot.
pub open spec fn candidates_upto(positions: Seq<PositionSlot>, covers: Seq<SlotCover>, n: nat) -> Seq<
    LiquidationCandidate,
>
    decreases n,
{
    if n == 0 {
        Seq::empty()
    } else {
        candidates_upto(positions, covers, (n - 1) as nat) + slot_candidates(
            positions,
            n - 1,
            covers[n - 1],
        )
    }
}

/// What makes a candidate for a slot: the liqee's position in the
/// candidate's liability is negative, and the liquidator's position in it
/// (through the sub account named) is larger than its absolute size.
pub open spec fn candidate_justified(
    positions: Seq<PositionSlot>,
    slot_covers: Seq<SlotCover>,
    c: LiquidationCandidate,
) -> bool {
    let p = positions[c.slot as int];
    let cover = slot_covers[c.slot as int];
    if c.kind == CandidateKind::Spot {
        &&& c.liability == p.spot.token_mint
        &&& p.spot.position.val() < 0
        &&& cover.spot is Some
        &&& cover.spot->0.liqor_sub_account_idx == c.liqor_sub_account_idx
        &&& cover.spot->0.liqor_position.val() > -p.spot.position.val()
    } else {
        &&& c.liability == p.derivative.market
        &&& p.derivative.total_position.val() < 0
        &&& cover.derivative is Some
        &&& cover.derivative->0.liqor_sub_account_idx == c.liqor_sub_account_idx
        &&& cover.derivative->0.liqor_position.val() > -p.derivative.total_position.val()
    }
}

/// The liquidator only takes over what it can cover: every candidate of the
/// first `n` slots names one of those slots, where the liqee's position in
/// the liability is negative and the liquidator's position is strictly
/// larger than the liability's absolute size.
pub proof fn lemma_candidates_are_covered(
    positions: Seq<PositionSlot>,
    slot_covers: Seq<SlotCover>,
    n: nat,
)
    requires
        n <= positions.len() <= usize::MAX,
        n <= slot_covers.len(),
    ensures
        forall|i: int|
            0 <= i < candidates_upto(positions, slot_covers, n).len() ==> {
                let c = #[trigger] candidates_upto(positions, slot_covers, n)[i];
                &&& c.slot < n
                &&& candidate_justified(positions, slot_covers, c)
            },
    decreases n,
{
    if n > 0 {
        let m = (n - 1) as nat;
        lemma_candidates_are_covered(positions, slot_covers, m);
        let prev = candidates_upto(positions, slot_covers, m);
        let here = slot_candidates(positions, m as int, slot_covers[m as int]);
        let all = candidates_upto(positions, slot_covers, n);
        assert(all == prev + here);
        assert forall|i: int| 0 <= i < all.len() implies {
            let c = #[trigger] all[i];
            &&& c.slot < n
            &&& candidate_justified(positions, slot_covers, c)
        } by {
            if i < prev.len() {
                assert(all[i] == prev[i]);
            } else {
                assert(all[i] == here[i - prev.len()]);
            }
        }
    }
}

proof fn lemma_highest_spot_chosen(positions: Seq<PositionSlot>)
    ensures
        highest_spot(positions).1 > 0 ==> spot_asset(highest_spot(positions).0),
    decreases positions.len(),
{
    if positions.len() > 0 {
        lemma_highest_spot_chosen(positions.drop_last());
    }
}

proof fn lemma_highest_derivative_chosen(positions: Seq<PositionSlot>, perpetual: bool)
    ensures
        highest_derivative(positions, perpetual).1 > 0 ==> derivative_asset(
            highest_derivative(positions, perpetual).0,
            perpetual,
        ),
    decreases positions.len(),
{
    if positions.len() > 0 {
        lemma_highest_derivative_chosen(positions.drop_last(), perpetual);
    }
}

/// The kind of candidate a slot's derivative liability gives.
pub open spec fn derivative_kind(d: DerivativePositionSnapshot) -> CandidateKind {
    if d.market_type == MarketType::PerpetualFuture {
        CandidateKind::Perpetuals
    } else {
        CandidateKind::Futures
    }
}

/// The liquidator takes over every liability it can cover: when a slot's
/// spot position is a borrow (or its derivative position a short), the
/// liquidator's position in it is strictly larger than its absolute size,
/// and the liqee holds a deposit (or a long position of the same kind of
/// market) worth more than zero, the slot gets a candidate of that kind for
/// that liability, through the liquidator's sub account that holds it.
pub proof fn lemma_covered_liabilities_are_planned(
    positions: Seq<PositionSlot>,
    slot_covers: Seq<SlotCover>,
    n: nat,
)
    requires
        n <= positions.len() <= usize::MAX,
        n <= slot_covers.len(),
    ensures
        forall|k: int, j: int|
            0 <= k < n && 0 <= j < positions.len() && !(#[trigger] positions[k]).spot.token_mint.is_zero()
                && positions[k].spot.position.val() < 0 && slot_covers[k].spot is Some
                && slot_covers[k].spot->0.liqor_position.val() > -positions[k].spot.position.val()
                && !(#[trigger] positions[j]).spot.token_mint.is_zero()
                && positions[j].spot.position.val() > 0 && spot_value(positions[j].spot) > 0
                ==> exists|i: int|
                0 <= i < candidates_upto(positions, slot_covers, n).len() && {
                    let c = #[trigger] candidates_upto(positions, slot_covers, n)[i];
                    &&& c.kind == CandidateKind::Spot
                    &&& c.slot == k
                    &&& c.liability == positions[k].spot.token_mint
                    &&& c.liqor_sub_account_idx == slot_covers[k].spot->0.liqor_sub_account_idx
                },
        forall|k: int, j: int|
            0 <= k < n && 0 <= j < positions.len() && !(#[trigger] positions[k]).derivative.market.is_zero()
                && positions[k].derivative.total_position.val() < 0 && slot_covers[k].derivative is Some
                && slot_covers[k].derivative->0.liqor_position.val()
                > -positions[k].derivative.total_position.val()
                && !(#[trigger] positions[j]).derivative.market.is_zero()
                && (positions[j].derivative.market_type == MarketType::PerpetualFuture) == (
            positions[k].derivative.market_type == MarketType::PerpetualFuture)
                && positions[j].derivative.total_position.val() > 0 && derivative_value(
                positions[j].derivative,
            ) > 0 ==> exists|i: int|
                0 <= i < candidates_upto(positions, slot_covers, n).len() && {
                    let c = #[trigger] candidates_upto(positions, slot_covers, n)[i];
                    &&& c.kind == derivative_kind(positions[k].derivative)
                    &&& c.slot == k
                    &&& c.liability == positions[k].derivative.market
                    &&& c.liqor_sub_account_idx == slot_covers[k].derivative->0.liqor_sub_account_idx
                },
    decreases n,
{
    if n > 0 {
        let m = (n - 1) as nat;
        lemma_covered_liabilities_are_planned(positions, slot_covers, m);
        lemma_highest_spot_is_highest(positions);
        lemma_highest_spot_chosen(positions);
        lemma_highest_derivative_is_highest(positions, true);
        lemma_highest_derivative_chosen(positions, true);
        lemma_highest_derivative_is_highest(positions, false);
        lemma_highest_derivative_chosen(positions, false);
        let prev = candidates_upto(positions, slot_covers, m);
        let here = slot_candidates(positions, m as int, slot_covers[m as int]);
        let all = candidates_upto(positions, slot_covers, n);
        assert(all == prev + here);
        assert forall|i: int| 0 <= i < prev.len() implies all[i] == prev[i] by {}
        assert forall|i: int| 0 <= i < here.len() implies all[prev.len() + i] == here[i] by {}
        assert forall|k: int, j: int|
            0 <= k < n && 0 <= j < positions.len() && !(#[trigger] positions[k]).spot.token_mint.is_zero()
                && positions[k].spot.position.val() < 0 && slot_covers[k].spot is Some
                && slot_covers[k].spot->0.liqor_position.val() > -positions[k].spot.position.val()
                && !(#[trigger] positions[j]).spot.token_mint.is_zero()
                && positions[j].spot.position.val() > 0 && spot_value(positions[j].spot) > 0
            implies exists|i: int|
                0 <= i < all.len() && {
                    let c = #[trigger] all[i];
                    &&& c.kind == CandidateKind::Spot
                    &&& c.slot == k
                    &&& c.liability == positions[k].spot.token_mint
                    &&& c.liqor_sub_account_idx == slot_covers[k].spot->0.liqor_sub_account_idx
                } by {
            if k < m {
                let i = choose|i: int|
                    0 <= i < prev.len() && {
                        let c = #[trigger] prev[i];
                        &&& c.kind == CandidateKind::Spot
                        &&& c.slot == k
                        &&& c.liability == positions[k].spot.token_mint
                        &&& c.liqor_sub_account_idx == slot_covers[k].spot->0.liqor_sub_account_idx
                    };
                assert(all[i] == prev[i]);
            } else {
                assert(spot_asset(positions[j].spot));
                assert(all[prev.len() as int] == here[0]);
            }
        }
        assert forall|k: int, j: int|
            0 <= k < n && 0 <= j < positions.len() && !(#[trigger] positions[k]).derivative.market.is_zero()
                && positions[k].derivative.total_position.val() < 0 && slot_covers[k].derivative is Some
                && slot_covers[k].derivative->0.liqor_position.val()
                > -positions[k].derivative.total_position.val()
                && !(#[trigger] positions[j]).derivative.market.is_zero()
                && (positions[j].derivative.market_type == MarketType::PerpetualFuture) == (
            positions[k].derivative.market_type == MarketType::PerpetualFuture)
                && positions[j].derivative.total_position.val() > 0 && derivative_value(
                positions[j].derivative,
            ) > 0 implies exists|i: int|
                0 <= i < all.len() && {
                    let c = #[trigger] all[i];
                    &&& c.kind == derivative_kind(positions[k].derivative)
                    &&& c.slot == k
                    &&& c.liability == positions[k].derivative.market
                    &&& c.liqor_sub_account_idx == slot_covers[k].derivative->0.liqor_sub_account_idx
                } by {
            if k < m {
                let i = choose|i: int|
                    0 <= i < prev.len() && {
                        let c = #[trigger] prev[i];
                        &&& c.kind == derivative_kind(positions[k].derivative)
                        &&& c.slot == k
                        &&& c.liability == positions[k].derivative.market
                        &&& c.liqor_sub_account_idx
                            == slot_covers[k].derivative->0.liqor_sub_account_idx
                    };
                assert(all[i] == prev[i]);
            } else {
                let perpetual = positions[k].derivative.market_type == MarketType::PerpetualFuture;
                assert(derivative_asset(positions[j].derivative, perpetual));
                assert(here[here.len() - 1].kind == derivative_kind(positions[k].derivative));
                assert(all[prev.len() + here.len() - 1] == here[here.len() - 1]);
            }
        }
    }
}

/// The inputs under which the candidates can be computed: one cover per
/// slot, no liability at the most negative number, and every asset value
/// fits.
pub open spec fn candidates_defined(sub_account: SubAccountSnapshot, slot_covers: Seq<SlotCover>) -> bool {
    &&& slot_covers.len() == sub_account.positions@.len()
    &&& spot_values_fit(sub_account.positions@)
    &&& derivative_values_fit(sub_account.positions@, true)
    &&& derivative_values_fit(sub_account.positions@, false)
    &&& forall|k: int|
        0 <= k < sub_account.positions@.len() ==> (#[trigger] sub_account.positions@[k]).spot.position.bits
            != i128::MIN && sub_account.positions@[k].derivative.total_position.bits != i128::MIN
}

fn covered(cover: Option<LiabilityCover>, liability: Fixed) -> (r: bool)
    requires
        liability.bits != i128::MIN,
    ensures
        r == covers(cover, liability),
{
    match cover {
        Some(c) => liability.abs().lt(c.liqor_position),
        None => false,
    }
}

/// The liquidations worth simulating for one of the liqee's sub accounts,
/// given, for each of its slots, the liquidator's positions in the slot's
/// liabilities.
pub fn plan_sub_account_liquidation(
    liqee_sub_account: &SubAccountSnapshot,
    slot_covers: &[SlotCover],
) -> (r: Vec<LiquidationCandidate>)
    requires
        candidates_defined(*liqee_sub_account, slot_covers@),
    ensures
        r@ == candidates_upto(
            liqee_sub_account.positions@,
            slot_covers@,
            liqee_sub_account.positions@.len(),
        ),
{
    let positions = &liqee_sub_account.positions;
    let asset_spot = get_highest_value_spot_position(liqee_sub_account);
    let asset_perp = get_highest_value_perp_position(liqee_sub_account);
    let asset_futures = get_highest_value_futures_position(liqee_sub_account);
    let mut candidates: Vec<LiquidationCandidate> = Vec::new();
    for k in 0..positions.len()
        invariant
            candidates_defined(*liqee_sub_account, slot_covers@),
            positions@ == liqee_sub_account.positions@,
            asset_spot == highest_spot(positions@).0,
            asset_perp == highest_derivative(positions@, true).0,
            asset_futures == highest_derivative(positions@, false).0,
            candidates@ == candidates_upto(positions@, slot_covers@, k as nat),
    {
        let p = positions[k];
        let cover = slot_covers[k];
        let ghost before = candidates@;
        assert(p.spot.position.bits != i128::MIN);
        if !p.spot.token_mint.is_unset() && p.spot.position.is_negative() {
            if covered(cover.spot, p.spot.position) && !asset_spot.token_mint.is_unset() {
                candidates.push(
                    LiquidationCandidate {
                        kind: CandidateKind::Spot,
                        slot: k,
                        liability: p.spot.token_mint,
                        liability_cache_idx: p.spot.cache_index,
                        asset: asset_spot.token_mint,
                        asset_cache_idx: asset_spot.cache_index,
                        liqor_sub_account_idx: cover.spot.unwrap().liqor_sub_account_idx,
                    },
                );
            }
        }
        let is_perpetual = match p.derivative.market_type {
            MarketType::PerpetualFuture => true,
            _ => false,
        };
        if !p.derivative.market.is_unset() && p.derivative.total_position.is_negative()
            && is_perpetual {
            if covered(cover.derivative, p.derivative.total_position)
                && !asset_perp.market.is_unset() {
                candidates.push(
                    LiquidationCandidate {
                        kind: CandidateKind::Perpetuals,
                        slot: k,
                        liability: p.derivative.market,
                        liability_cache_idx: p.spot.cache_index,
                        asset: asset_perp.market,
                        asset_cache_idx: asset_perp.cache_index,
                        liqor_sub_account_idx: cover.derivative.unwrap().liqor_sub_account_idx,
                    },
                );
            }
        }
        if !p.derivative.market.is_unset() && p.derivative.total_position.is_negative()
            && !is_perpetual {
            if covered(cover.derivative, p.derivative.total_position)
                && !asset_futures.market.is_unset() {
                candidates.push(
                    LiquidationCandidate {
                        kind: CandidateKind::Futures,
                        slot: k,
                        liability: p.derivative.market,
                        liability_cache_idx: p.spot.cache_index,
                        asset: asset_futures.market,
                        asset_cache_idx: asset_futures.cache_index,
                        liqor_sub_account_idx: cover.derivative.unwrap().liqor_sub_account_idx,
                    },
                );
            }
        }
        assert(candidates@ =~= before + slot_candidates(positions@, k as int, slot_covers@[k as int]));
    }
    candidates
}

/// A simulated liquidation is kept when it repays something and debits the
/// liqee's asset.
pub fn accept_simulation(result: &SimulationResult) -> (r: bool)
    ensures
        r == (result.repay_amount.val() != 0 && result.liqee_asset_debit.val() != 0),
{
    !result.repay_amount.is_zero() && !result.liqee_asset_debit.is_zero()
}

// ---------------------------------------------------------------------------
// The best simulation.

/// A simulated liquidation, with the liqee's position in the asset (in
/// whole units) and the asset's oracle price.
#[derive(Clone, Copy, Debug, PartialEq, Eq, Structural)]
pub struct ScoredSimulation {
    pub simulation_type: SimulationType,
    pub result: SimulationResult,
    pub asset_position: Fixed,
    pub asset_price: Fixed,
}

/// Raw bits of the liqee's asset value in a simulation.
pub open spec fn simulation_value(s: ScoredSimulation) -> int {
    mul_bits(s.asset_position.val(), s.asset_price.val())
}

/// The index of the simulation with the highest asset value above zero
/// (the first of equal ones), or `-1`, with that value (zero when none).
pub open spec fn highest_simulation(simulations: Seq<ScoredSimulation>) -> (int, int)
    decreases simulations.len(),
{
    if simulations.len() == 0 {
        (-1, 0)
    } else {
        let prev = highest_simulation(simulations.drop_last());
        let v = simulation_value(simulations.last());
        if v > prev.1 {
            (simulations.len() - 1, v)
        } else {
            prev
        }
    }
}

/// The chosen simulation's asset value is at least every simulation's.
pub proof fn lemma_highest_simulation_is_highest(simulations: Seq<ScoredSimulation>)
    ensures
        highest_simulation(simulations).1 >= 0,
        -1 <= highest_simulation(simulations).0 < simulations.len(),
        forall|k: int|
            0 <= k < simulations.len() ==> simulation_value(#[trigger] simulations[k])
                <= highest_simulation(simulations).1,
        highest_simulation(simulations).0 >= 0 ==> simulation_value(
            simulations[highest_simulation(simulations).0],
        ) == highest_simulation(simulations).1 && highest_simulation(simulations).1 > 0,
        highest_simulation(simulations).0 == -1 ==> highest_simulation(simulations).1 == 0,
    decreases simulations.len(),
{
    if simulations.len() > 0 {
        lemma_highest_simulation_is_highest(simulations.drop_last());
        assert forall|k: int| 0 <= k < simulations.len() implies simulation_value(
            #[trigger] simulations[k],
        ) <= highest_simulation(simulations).1 by {
            if k < simulations.len() - 1 {
                assert(simulations[k] == simulations.drop_last()[k]);
            }
        }
        let prev = highest_simulation(simulations.drop_last());
        if prev.0 >= 0 {
            assert(simulations[prev.0] == simulations.drop_last()[prev.0]);
        }
    }
}

/// The simulation whose asset is worth the most (the first of equal ones),
/// or `None` when no asset is worth more than zero.
pub fn get_highest_simulation_value(simulations: &[ScoredSimulation]) -> (r: Option<usize>)
    requires
        forall|k: int|
            0 <= k < simulations@.len() ==> fits(simulation_value(#[trigger] simulations@[k])),
    ensures
        r matches Some(i) ==> i as int == highest_simulation(simulations@).0,
        r is None ==> highest_simulation(simulations@).0 == -1,
{
    let mut best: Option<usize> = None;
    let mut highest_value = Fixed::zero();
    for k in 0..simulations.len()
        invariant
            forall|j: int|
                0 <= j < simulations@.len() ==> fits(simulation_value(#[trigger] simulations@[j])),
            highest_value.val() == highest_simulation(simulations@.take(k as int)).1,
            best matches Some(i) ==> i as int == highest_simulation(simulations@.take(k as int)).0,
            best is None ==> highest_simulation(simulations@.take(k as int)).0 == -1,
    {
        proof {
            lemma_take_succ(simulations@, k as int);
        }
        let s = simulations[k];
        let asset_value = s.asset_position.checked_mul(s.asset_price).unwrap();
        if highest_value.lt(asset_value) {
            highest_value = asset_value;
            best = Some(k);
        }
    }
    proof {
        lemma_take_all(simulations@);
    }
    best
}

// ---------------------------------------------------------------------------
// Running the simulations.

/// The simulation prepared for one candidate, with the liqee's position in
/// the candidate's asset (in whole units) and the asset's oracle price.
#[derive(Clone, Copy, Debug, PartialEq, Eq, Structural)]
pub struct CandidateSimulation {
    pub simulation_type: SimulationType,
    pub asset_position: Fixed,
    pub asset_price: Fixed,
}

/// The simulation is of the candidate's kind, for the liqee's sub account
/// with the given index, and names the candidate's asset, liability, cache
/// indexes and liquidator sub account.
pub open spec fn simulates(
    candidate: LiquidationCandidate,
    simulation: CandidateSimulation,
    liqee_sub_account_idx: usize,
) -> bool {
    let (kind, ctx, args) = match simulation.simulation_type {
        SimulationType::Spot { simulation_ctx, simulation_args } => (
            CandidateKind::Spot,
            simulation_ctx,
            simulation_args,
        ),
        SimulationType::Perpetuals { simulation_ctx, simulation_args } => (
            CandidateKind::Perpetuals,
            simulation_ctx,
            simulation_args,
        ),
        SimulationType::Futures { simulation_ctx, simulation_args } => (
            CandidateKind::Futures,
            simulation_ctx,
            simulation_args,
        ),
    };
    &&& kind == candidate.kind
    &&& ctx.liqee_sub_account_idx == liqee_sub_account_idx
    &&& ctx.liqor_sub_account_idx == candidate.liqor_sub_account_idx
    &&& args.asset == candidate.asset
    &&& args.liability == candidate.liability
    &&& args.asset_cache_idx == candidate.asset_cache_idx as usize
    &&& args.liability_cache_idx == candidate.liability_cache_idx as usize
}

/// A simulation result repays something and debits the liqee's asset.
pub open spec fn accepted(result: SimulationResult) -> bool {
    result.repay_amount.val() != 0 && result.liqee_asset_debit.val() != 0
}

/// A prepared simulation with the result it gives.
pub open spec fn scored(simulation: CandidateSimulation) -> ScoredSimulation {
    ScoredSimulation {
        simulation_type: simulation.simulation_type,
        result: simulation_outcome(simulation.simulation_type)->0,
        asset_position: simulation.asset_position,
        asset_price: simulation.asset_price,
    }
}

/// The results of the prepared simulations that are kept, in order.
pub open spec fn kept_simulations(simulations: Seq<CandidateSimulation>) -> Seq<ScoredSimulation>
    decreases simulations.len(),
{
    if simulations.len() == 0 {
        Seq::empty()
    } else {
        let prev = kept_simulations(simulations.drop_last());
        let s = scored(simulations.last());
        if accepted(s.result) {
            prev.push(s)
        } else {
            prev
        }
    }
}

/// Every kept result repays and debits something, and is the result of one
/// of the prepared simulations.
pub proof fn lemma_kept_simulations(simulations: Seq<CandidateSimulation>)
    ensures
        kept_simulations(simulations).len() <= simulations.len(),
        forall|i: int|
            0 <= i < kept_simulations(simulations).len() ==> accepted(
                (#[trigger] kept_simulations(simulations)[i]).result,
            ) && exists|k: int|
                0 <= k < simulations.len() && kept_simulations(simulations)[i] == scored(
                    #[trigger] simulations[k],
                ),
    decreases simulations.len(),
{
    if simulations.len() > 0 {
        let rest = simulations.drop_last();
        lemma_kept_simulations(rest);
        let kept = kept_simulations(simulations);
        assert forall|i: int| 0 <= i < kept.len() implies accepted((#[trigger] kept[i]).result)
            && exists|k: int| 0 <= k < simulations.len() && kept[i] == scored(
            #[trigger] simulations[k],
        ) by {
            if i < kept_simulations(rest).len() {
                let k = choose|k: int|
                    0 <= k < rest.len() && kept_simulations(rest)[i] == scored(#[trigger] rest[k]);
                assert(simulations[k] == rest[k]);
            } else {
                assert(kept[i] == scored(simulations[simulations.len() - 1]));
            }
        }
    }
}

/// The inputs under which one of the liqee's sub accounts can be processed:
/// its candidates can be computed, one simulation is prepared per candidate
/// and simulates it, and every simulation can be computed.
pub open spec fn sub_account_liquidation_defined(
    liqee_sub_account: SubAccountSnapshot,
    liqee_sub_account_idx: usize,
    slot_covers: Seq<SlotCover>,
    simulations: Seq<CandidateSimulation>,
) -> bool {
    let candidates = candidates_upto(
        liqee_sub_account.positions@,
        slot_covers,
        liqee_sub_account.positions@.len(),
    );
    &&& candidates_defined(liqee_sub_account, slot_covers)
    &&& simulations.len() == candidates.len()
    &&& forall|k: int|
        0 <= k < simulations.len() ==> simulates(
            candidates[k],
            #[trigger] simulations[k],
            liqee_sub_account_idx,
        )
    &&& forall|k: int|
        0 <= k < simulations.len() ==> simulation_outcome((#[trigger] simulations[k]).simulation_type)
            is Some
}

/// Processes one of the liqee's sub accounts: finds the liquidations worth
/// simulating, runs the simulation prepared for each, and keeps the results
/// that repay something and debit the liqee's asset. It never fails.
pub fn process_sub_account_liquidation(
    liqee_sub_account: &SubAccountSnapshot,
    liqee_sub_account_idx: usize,
    slot_covers: &[SlotCover],
    simulations: &[CandidateSimulation],
) -> (r: Result<Vec<ScoredSimulation>, Error>)
    requires
        sub_account_liquidation_defined(
            *liqee_sub_account,
            liqee_sub_account_idx,
            slot_covers@,
            simulations@,
        ),
    ensures
        r matches Ok(v) && v@ == kept_simulations(simulations@),
        forall|i: int|
            0 <= i < kept_simulations(simulations@).len() ==> accepted(
                (#[trigger] kept_simulations(simulations@)[i]).result,
            ) && exists|k: int|
                0 <= k < simulations@.len() && kept_simulations(simulations@)[i] == scored(
                    #[trigger] simulations@[k],
                ) && simulates(
                    candidates_upto(
                        liqee_sub_account.positions@,
                        slot_covers@,
                        liqee_sub_account.positions@.len(),
                    )[k],
                    simulations@[k],
                    liqee_sub_account_idx,
                ),
{
    let candidates = plan_sub_account_liquidation(liqee_sub_account, slot_covers);
    let mut results: Vec<ScoredSimulation> = Vec::new();
    for k in 0..candidates.len()
        invariant
            candidates@ == candidates_upto(
                liqee_sub_account.positions@,
                slot_covers@,
                liqee_sub_account.positions@.len(),
            ),
            sub_account_liquidation_defined(
                *liqee_sub_account,
                liqee_sub_account_idx,
                slot_covers@,
                simulations@,
            ),
            results@ == kept_simulations(simulations@.take(k as int)),
    {
        proof {
            lemma_take_succ(simulations@, k as int);
        }
        let s = simulations[k];
        match simulate_liquidation(s.simulation_type) {
            Ok(result) => {
                if accept_simulation(&result) {
                    results.push(
                        ScoredSimulation {
                            simulation_type: s.simulation_type,
                            result,
                            asset_position: s.asset_position,
                            asset_price: s.asset_price,
                        },
                    );
                }
            },
            Err(_) => {},
        }
    }
    proof {
        lemma_take_all(simulations@);
        lemma_kept_simulations(simulations@);
    }
    Ok(results)
}

/// The results of the sub accounts, one list after another.
pub open spec fn all_results(per_sub_account: Seq<Vec<ScoredSimulation>>) -> Seq<ScoredSimulation>
    decreases per_sub_account.len(),
{
    if per_sub_account.len() == 0 {
        Seq::empty()
    } else {
        all_results(per_sub_account.drop_last()) + per_sub_account.last()@
    }
}

/// Chooses the liquidation of a whole account: over the results of all of
/// its sub accounts, the one whose asset is worth the most (the first of
/// equal ones); `None` when no asset is worth more than zero.
pub fn process_account_liquidation(per_sub_account: &[Vec<ScoredSimulation>]) -> (r: Option<
    ScoredSimulation,
>)
    requires
        forall|k: int|
            0 <= k < all_results(per_sub_account@).len() ==> fits(
                simulation_value(#[trigger] all_results(per_sub_account@)[k]),
            ),
    ensures
        ({
            let all = all_results(per_sub_account@);
            let best = highest_simulation(all).0;
            &&& best >= 0 ==> r == Some(all[best])
            &&& best < 0 ==> r is None
        }),
{
    let mut possible: Vec<ScoredSimulation> = Vec::new();
    for j in 0..per_sub_account.len()
        invariant
            possible@ == all_results(per_sub_account@.take(j as int)),
    {
        proof {
            lemma_take_succ(per_sub_account@, j as int);
        }
        let results = &per_sub_account[j];
        let ghost before = possible@;
        for i in 0..results.len()
            invariant
                possible@ == before + results@.take(i as int),
        {
            proof {
                lemma_take_succ(results@, i as int);
            }
            possible.push(results[i]);
        }
        proof {
            lemma_take_all(results@);
        }
    }
    proof {
        lemma_take_all(per_sub_account@);
        lemma_highest_simulation_is_highest(possible@);
    }
    match get_highest_simulation_value(possible.as_slice()) {
        Some(i) => Some(possible[i]),
        None => None,
    }
}

// ---------------------------------------------------------------------------
// The step for a liqee.

/// What to do about a liqee.
#[derive(Clone, Copy, Debug, PartialEq, Eq, Structural)]
pub enum LiquidationStep {
    /// The liquidator's or the liqee's account is not loaded yet.
    Skip,
    /// The liqee cannot be liquidated.
    Healthy,
    /// Liquidate the liqee's account, over all of its sub accounts.
    Account,
    /// Liquidate the liqee's sub account with this index.
    SubAccount { sub_account_idx: usize },
}

/// A sub account with the given address.
pub open spec fn address_pred(address: Address) -> spec_fn(SubAccountSnapshot) -> bool {
    |s: SubAccountSnapshot| s.address == address
}

/// The index of the first sub account with the given address.
pub open spec fn sub_account_index(subs: Seq<SubAccountSnapshot>, address: Address) -> int {
    crate::seq_util::first_index(subs, address_pred(address))
}

/// Decides what to do about a liqee once its collateral is checked: nothing
/// while the liquidator's or the liqee's account is unset (the liquidator's
/// is looked at first); nothing when the liqee is not eligible; otherwise
/// refuse when the liquidator may not liquidate; otherwise liquidate the
/// account, or the sub account with the checked address.
pub fn decide_liquidation(
    liqor_account: Address,
    liqee_account: Address,
    liquidation_check: &LiquidationCheck,
    liqee_sub_accounts: &[SubAccountSnapshot],
    liqor_can_liquidate: bool,
) -> (r: Result<LiquidationStep, Error>)
    requires
        !liqor_account.is_zero() && !liqee_account.is_zero() && liqor_can_liquidate ==> (
        liquidation_check.liquidation_type matches LiquidationType::SubAccount { sub_account } ==> (
        exists|k: int|
            0 <= k < liqee_sub_accounts@.len() && (#[trigger] liqee_sub_accounts@[k]).address
                == sub_account)),
    ensures
        liqor_account.is_zero() || liqee_account.is_zero() ==> r matches Ok(LiquidationStep::Skip),
        !liqor_account.is_zero() && !liqee_account.is_zero()
            && liquidation_check.liquidation_type is Ineligible ==> r matches Ok(
            LiquidationStep::Healthy,
        ),
        !liqor_account.is_zero() && !liqee_account.is_zero()
            && !(liquidation_check.liquidation_type is Ineligible) && !liqor_can_liquidate
            ==> r matches Err(Error::LiquidatorCRatio),
        !liqor_account.is_zero() && !liqee_account.is_zero()
            && liquidation_check.liquidation_type is Account && liqor_can_liquidate ==> r matches Ok(
            LiquidationStep::Account,
        ),
        !liqor_account.is_zero() && !liqee_account.is_zero() && liqor_can_liquidate ==> (
        liquidation_check.liquidation_type matches LiquidationType::SubAccount { sub_account } ==> (
        r matches Ok(LiquidationStep::SubAccount { sub_account_idx }) && sub_account_idx as int
            == sub_account_index(liqee_sub_accounts@, sub_account))),
{
    if liqor_account.is_unset() || liqee_account.is_unset() {
        return Ok(LiquidationStep::Skip);
    }
    match liquidation_check.liquidation_type {
        LiquidationType::Ineligible => Ok(LiquidationStep::Healthy),
        LiquidationType::Account { .. } => {
            if !liqor_can_liquidate {
                return Err(Error::LiquidatorCRatio);
            }
            Ok(LiquidationStep::Account)
        },
        LiquidationType::SubAccount { sub_account } => {
            if !liqor_can_liquidate {
                return Err(Error::LiquidatorCRatio);
            }
            let ghost p = address_pred(sub_account);
            let mut k: usize = 0;
            while k < liqee_sub_accounts.len()
                invariant
                    p == address_pred(sub_account),
                    liquidation_check.liquidation_type == (LiquidationType::SubAccount { sub_account }),
                    liqor_can_liquidate,
                    !liqor_account.is_zero() && !liqee_account.is_zero(),
                    k <= liqee_sub_accounts@.len(),
                    forall|j: int| 0 <= j < k ==> !p(#[trigger] liqee_sub_accounts@[j]),
                    exists|j: int|
                        0 <= j < liqee_sub_accounts@.len() && (#[trigger] liqee_sub_accounts@[j]).address
                            == sub_account,
                decreases liqee_sub_accounts@.len() - k,
            {
                if liqee_sub_accounts[k].address == sub_account {
                    proof {
                        crate::seq_util::lemma_first_index_found(liqee_sub_accounts@, p, k as int);
                    }
                    return Ok(LiquidationStep::SubAccount { sub_account_idx: k });
                }
                k = k + 1;
            }
            proof {
                let j = choose|j: int|
                    0 <= j < liqee_sub_accounts@.len() && (#[trigger] liqee_sub_accounts@[j]).address
                        == sub_account;
                assert(!p(liqee_sub_accounts@[j]));
            }
            Ok(LiquidationStep::Healthy)
        },
    }
}

/// The mints and markets a derivative liquidation names: the quote token
/// side names no market (the unset address); any other side names its own
/// address as its market.
#[derive(Clone, Copy, Debug, PartialEq, Eq, Structural)]
pub struct DerivativeLiquidationAccounts {
    pub asset_mint: Address,
    pub asset_market: Address,
    pub liability_mint: Address,
    pub liability_market: Address,
}

/// The accounts a derivative liquidation names, given the simulated asset,
/// liability and the quote token's mint; the asset is looked at first.
pub fn derivative_liquidation_accounts(asset: Address, liability: Address, quote_mint: Address) -> (r:
    DerivativeLiquidationAccounts)
    ensures
        r.asset_mint == asset,
        r.liability_mint == liability,
        r.asset_market == (if asset == quote_mint { Address::spec_zero() } else { asset }),
        r.liability_market == (if asset != quote_mint && liability == quote_mint {
            Address::spec_zero()
        } else {
            liability
        }),
{
    if asset == quote_mint {
        DerivativeLiquidationAccounts {
            asset_mint: asset,
            asset_market: Address::zero(),
            liability_mint: liability,
            liability_market: liability,
        }
    } else if liability == quote_mint {
        DerivativeLiquidationAccounts {
            asset_mint: asset,
            asset_market: asset,
            liability_mint: liability,
            liability_market: Address::zero(),
        }
    } else {
        DerivativeLiquidationAccounts {
            asset_mint: asset,
            asset_market: asset,
            liability_mint: liability,
            liability_market: liability,
        }
    }
}

} // verus!
