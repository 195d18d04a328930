//! Whether an account or one of its sub accounts can be liquidated, and
//! whether the liquidator itself may liquidate.
use vstd::prelude::*;
use crate::address::Address;
use crate::fixed_point::Fixed;
use crate::seq_util::{first_index, lemma_first_index_found, lemma_first_index_none, lemma_take_all, lemma_take_succ};

verus! {

/// How a sub account is margined.
#[derive(Clone, Copy, Debug, PartialEq, Eq, Structural)]
pub enum SubAccountMargining {
    Cross,
    Isolated,
}

/// The kind of market a derivative position is in.
#[derive(Clone, Copy, Debug, PartialEq, Eq, Structural)]
pub enum MarketType {
    PerpetualFuture,
    IndexFuture,
    PairFuture,
}

/// Totals locked in a position's open orders.
#[derive(Clone, Copy, Debug, PartialEq, Eq, Structural)]
pub struct OpenOrdersCache {
    pub coin_total: u64,
    pub pc_total: u64,
}

/// A spot position as the liquidator reads it.
#[derive(Clone, Copy, Debug, PartialEq, Eq, Structural)]
pub struct SpotPositionSnapshot {
    /// The token's mint; all-zero for an unused slot.
    pub token_mint: Address,
    /// The position's deposits minus borrows.
    pub position: Fixed,
    /// The absolute total position, in whole tokens.
    pub ui_total: Fixed,
    /// The token's oracle price.
    pub oracle_price: Fixed,
    /// The token's cache index.
    pub cache_index: u16,
    /// What the position's open orders hold.
    pub open_orders_cache: OpenOrdersCache,
}

/// A derivative position as the liquidator reads it.
#[derive(Clone, Copy, Debug, PartialEq, Eq, Structural)]
pub struct DerivativePositionSnapshot {
    /// The market; all-zero for an unused slot.
    pub market: Address,
    /// The kind of market.
    pub market_type: MarketType,
    /// The total position.
    pub total_position: Fixed,
    /// The total position, in whole units.
    pub ui_total: Fixed,
    /// The market's oracle price.
    pub oracle_price: Fixed,
    /// The market's cache index.
    pub cache_index: u16,
    /// What the position's open orders hold.
    pub open_orders_cache: OpenOrdersCache,
}

/// One position slot of a sub account: a spot and a derivative position.
#[derive(Clone, Copy, Debug, PartialEq, Eq, Structural)]
pub struct PositionSlot {
    pub spot: SpotPositionSnapshot,
    pub derivative: DerivativePositionSnapshot,
}

/// A sub account as the liquidator reads it.
#[derive(Clone, Debug)]
pub struct SubAccountSnapshot {
    /// The sub account's address.
    pub address: Address,
    /// The sub account's authority.
    pub authority: Address,
    /// How the sub account is margined.
    pub margining_type: SubAccountMargining,
    /// The sub account's maintenance collateral ratio.
    pub margin_c_ratio: Fixed,
    /// The sub account's position slots.
    pub positions: Vec<PositionSlot>,
}

/// A master account as the liquidator reads it.
#[derive(Clone, Copy, Debug, PartialEq, Eq, Structural)]
pub struct AccountSnapshot {
    /// The account's address.
    pub address: Address,
    /// The account's authority.
    pub authority: Address,
    /// The account's clearing.
    pub clearing: Address,
    /// The account's margin collateral ratio.
    pub margin_c_ratio: Fixed,
}

/// A user's account and sub accounts.
pub struct UserSnapshot {
    pub account: AccountSnapshot,
    pub sub_accounts: Vec<SubAccountSnapshot>,
}

/// An open order to be cancelled.
#[derive(Clone, Copy, Debug, PartialEq, Eq, Structural)]
pub struct OpenOrder {
    pub order_id: u128,
    pub side: crate::common::orders::Side,
}

/// What kind of liquidation an account is eligible for.
#[derive(Clone, Copy, Debug, PartialEq, Eq, Structural)]
pub enum LiquidationType {
    /// Nothing can be liquidated.
    Ineligible,
    Account { account: Address },
    SubAccount { sub_account: Address },
}

impl Default for LiquidationType {
    /// Nothing to liquidate.
    fn default() -> (r: Self)
        ensures
            r == LiquidationType::Ineligible,
    {
        LiquidationType::Ineligible
    }
}

/// The kind of a position with funds to settle.
#[derive(Clone, Copy, Debug, PartialEq, Eq, Structural)]
pub enum PositionType {
    Spot,
    Derivative,
}

impl Default for PositionType {
    /// A spot position.
    fn default() -> (r: Self)
        ensures
            r == PositionType::Spot,
    {
        PositionType::Spot
    }
}

/// A position with funds in open orders.
#[derive(Clone, Copy, Debug, PartialEq, Eq, Structural)]
pub struct PositionInfo {
    pub position_type: PositionType,
    pub identifier: Address,
    pub account: Address,
    pub sub_account: Address,
}

/// The outcome of a collateral check.
pub struct LiquidationCheck {
    pub liquidation_type: LiquidationType,
    pub positions_info: Vec<PositionInfo>,
}

/// The open orders hold something.
pub open spec fn holds_funds(c: OpenOrdersCache) -> bool {
    c.coin_total != 0 || c.pc_total != 0
}

/// The positions of one slot with funds in open orders: the spot position,
/// then the derivative position.
pub open spec fn slot_settlements(p: PositionSlot, account: Address, sub_account: Address) -> Seq<
    PositionInfo,
> {
    let spot: Seq<PositionInfo> = if !p.spot.token_mint.is_zero() && holds_funds(
        p.spot.open_orders_cache,
    ) {
        seq![PositionInfo {
            position_type: PositionType::Spot,
            identifier: p.spot.token_mint,
            account,
            sub_account,
        }]
    } else {
        Seq::empty()
    };
    let derivative: Seq<PositionInfo> = if !p.derivative.market.is_zero() && holds_funds(
        p.derivative.open_orders_cache,
    ) {
        seq![PositionInfo {
            position_type: PositionType::Derivative,
            identifier: p.derivative.market,
            account,
            sub_account,
        }]
    } else {
        Seq::empty()
    };
    spot + derivative
}

/// The positions of a sub account with funds in open orders, slot by slot.
pub open spec fn settlements(positions: Seq<PositionSlot>, account: Address, sub_account: Address) -> Seq<
    PositionInfo,
>
    decreases positions.len(),
{
    if positions.len() == 0 {
        Seq::empty()
    } else {
        settlements(positions.drop_last(), account, sub_account) + slot_settlements(
            positions.last(),
            account,
            sub_account,
        )
    }
}

/// The positions with funds in open orders of every cross-margined sub
/// account, in order.
pub open spec fn cross_settlements(subs: Seq<SubAccountSnapshot>, account: Address) -> Seq<
    PositionInfo,
>
    decreases subs.len(),
{
    if subs.len() == 0 {
        Seq::empty()
    } else {
        let acc = cross_settlements(subs.drop_last(), account);
        let s = subs.last();
        if s.margining_type == SubAccountMargining::Cross {
            acc + settlements(s.positions@, account, s.address)
        } else {
            acc
        }
    }
}

/// An isolated sub account whose collateral ratio is below `maint`.
pub open spec fn isolated_below(maint: Fixed) -> spec_fn(SubAccountSnapshot) -> bool {
    |s: SubAccountSnapshot|
        s.margining_type == SubAccountMargining::Isolated && s.margin_c_ratio.val() < maint.val()
}

/// The kind of liquidation: the account, when its collateral ratio is below
/// maintenance; otherwise the first isolated sub account below maintenance;
/// otherwise none.
pub open spec fn liquidation_type_of(liqee: UserSnapshot, maint: Fixed) -> LiquidationType {
    if liqee.account.margin_c_ratio.val() < maint.val() {
        LiquidationType::Account { account: liqee.account.address }
    } else {
        let i = first_index(liqee.sub_accounts@, isolated_below(maint));
        if i >= 0 {
            LiquidationType::SubAccount { sub_account: liqee.sub_accounts@[i].address }
        } else {
            LiquidationType::Ineligible
        }
    }
}

/// The positions to settle for that liquidation: those of every cross
/// sub account for an account liquidation; those of the sub account for a
/// sub account liquidation; none otherwise.
pub open spec fn positions_to_settle(liqee: UserSnapshot, maint: Fixed) -> Seq<PositionInfo> {
    if liqee.account.margin_c_ratio.val() < maint.val() {
        cross_settlements(liqee.sub_accounts@, liqee.account.address)
    } else {
        let i = first_index(liqee.sub_accounts@, isolated_below(maint));
        if i >= 0 {
            settlements(
                liqee.sub_accounts@[i].positions@,
                liqee.account.address,
                liqee.sub_accounts@[i].address,
            )
        } else {
            Seq::empty()
        }
    }
}

/// A sub account's positions to settle are exactly its positions with a
/// set mint or market whose open orders hold base (coin) or quote (pc)
/// funds: each such spot and derivative position is listed, and nothing
/// else is.
pub proof fn lemma_settlements_are_funded_positions(
    positions: Seq<PositionSlot>,
    account: Address,
    sub_account: Address,
)
    ensures
        forall|k: int|
            0 <= k < positions.len() && !(#[trigger] positions[k]).spot.token_mint.is_zero() && (
            positions[k].spot.open_orders_cache.coin_total != 0
                || positions[k].spot.open_orders_cache.pc_total != 0) ==> settlements(
                positions,
                account,
                sub_account,
            ).contains(
                PositionInfo {
                    position_type: PositionType::Spot,
                    identifier: positions[k].spot.token_mint,
                    account,
                    sub_account,
                },
            ),
        forall|k: int|
            0 <= k < positions.len() && !(#[trigger] positions[k]).derivative.market.is_zero() && (
            positions[k].derivative.open_orders_cache.coin_total != 0
                || positions[k].derivative.open_orders_cache.pc_total != 0) ==> settlements(
                positions,
                account,
                sub_account,
            ).contains(
                PositionInfo {
                    position_type: PositionType::Derivative,
                    identifier: positions[k].derivative.market,
                    account,
                    sub_account,
                },
            ),
        forall|x: PositionInfo|
            #[trigger] settlements(positions, account, sub_account).contains(x) ==> x.account
                == account && x.sub_account == sub_account && exists|k: int|
                0 <= k < positions.len() && ((x.position_type == PositionType::Spot
                    && x.identifier == (#[trigger] positions[k]).spot.token_mint
                    && !positions[k].spot.token_mint.is_zero() && (
                positions[k].spot.open_orders_cache.coin_total != 0
                    || positions[k].spot.open_orders_cache.pc_total != 0)) || (x.position_type
                    == PositionType::Derivative && x.identifier == positions[k].derivative.market
                    && !positions[k].derivative.market.is_zero() && (
                positions[k].derivative.open_orders_cache.coin_total != 0
                    || positions[k].derivative.open_orders_cache.pc_total != 0))),
    decreases positions.len(),
{
    if positions.len() > 0 {
        let init = positions.drop_last();
        let last = positions.last();
        lemma_settlements_are_funded_positions(init, account, sub_account);
        let prev = settlements(init, account, sub_account);
        let here = slot_settlements(last, account, sub_account);
        let all = settlements(positions, account, sub_account);
        assert(all == prev + here);
        assert forall|x: PositionInfo| prev.contains(x) implies all.contains(x) by {
            let j = choose|j: int| 0 <= j < prev.len() && prev[j] == x;
            assert(all[j] == x);
        }
        assert forall|x: PositionInfo| here.contains(x) implies all.contains(x) by {
            let j = choose|j: int| 0 <= j < here.len() && here[j] == x;
            assert(all[prev.len() + j] == x);
        }
        let n = positions.len() - 1;
        assert(positions[n] == last);
        assert forall|k: int|
            0 <= k < positions.len() && !(#[trigger] positions[k]).spot.token_mint.is_zero() && (
            positions[k].spot.open_orders_cache.coin_total != 0
                || positions[k].spot.open_orders_cache.pc_total != 0) implies all.contains(
            PositionInfo {
                position_type: PositionType::Spot,
                identifier: positions[k].spot.token_mint,
                account,
                sub_account,
            },
        ) by {
            if k < n {
                assert(init[k] == positions[k]);
            } else {
                assert(here[0] == (PositionInfo {
                    position_type: PositionType::Spot,
                    identifier: positions[k].spot.token_mint,
                    account,
                    sub_account,
                }));
            }
        }
        assert forall|k: int|
            0 <= k < positions.len() && !(#[trigger] positions[k]).derivative.market.is_zero() && (
            positions[k].derivative.open_orders_cache.coin_total != 0
                || positions[k].derivative.open_orders_cache.pc_total != 0) implies all.contains(
            PositionInfo {
                position_type: PositionType::Derivative,
                identifier: positions[k].derivative.market,
                account,
                sub_account,
            },
        ) by {
            if k < n {
                assert(init[k] == positions[k]);
            } else {
                assert(here[here.len() - 1] == (PositionInfo {
                    position_type: PositionType::Derivative,
                    identifier: positions[k].derivative.market,
                    account,
                    sub_account,
                }));
            }
        }
        assert forall|x: PositionInfo| #[trigger] all.contains(x) implies x.account == account
            && x.sub_account == sub_account && exists|k: int|
            0 <= k < positions.len() && ((x.position_type == PositionType::Spot
                && x.identifier == (#[trigger] positions[k]).spot.token_mint
                && !positions[k].spot.token_mint.is_zero() && (
            positions[k].spot.open_orders_cache.coin_total != 0
                || positions[k].spot.open_orders_cache.pc_total != 0)) || (x.position_type
                == PositionType::Derivative && x.identifier == positions[k].derivative.market
                && !positions[k].derivative.market.is_zero() && (
            positions[k].derivative.open_orders_cache.coin_total != 0
                || positions[k].derivative.open_orders_cache.pc_total != 0))) by {
            let j = choose|j: int| 0 <= j < all.len() && all[j] == x;
            if j < prev.len() {
                assert(prev[j] == x);
                assert(prev.contains(x));
                let k = choose|k: int|
                    0 <= k < init.len() && ((x.position_type == PositionType::Spot
                        && x.identifier == (#[trigger] init[k]).spot.token_mint
                        && !init[k].spot.token_mint.is_zero() && (
                    init[k].spot.open_orders_cache.coin_total != 0
                        || init[k].spot.open_orders_cache.pc_total != 0)) || (x.position_type
                        == PositionType::Derivative && x.identifier == init[k].derivative.market
                        && !init[k].derivative.market.is_zero() && (
                    init[k].derivative.open_orders_cache.coin_total != 0
                        || init[k].derivative.open_orders_cache.pc_total != 0)));
                assert(positions[k] == init[k]);
            } else {
                assert(here[j - prev.len()] == x);
            }
        }
    }
}

proof fn lemma_cross_settlements_members(subs: Seq<SubAccountSnapshot>, account: Address)
    ensures
        forall|x: PositionInfo|
            #[trigger] cross_settlements(subs, account).contains(x) <==> exists|k: int|
                0 <= k < subs.len() && (#[trigger] subs[k]).margining_type == SubAccountMargining::Cross
                    && settlements(subs[k].positions@, account, subs[k].address).contains(x),
    decreases subs.len(),
{
    if subs.len() > 0 {
        let init = subs.drop_last();
        let last = subs.last();
        lemma_cross_settlements_members(init, account);
        let prev = cross_settlements(init, account);
        let all = cross_settlements(subs, account);
        let here = settlements(last.positions@, account, last.address);
        let n = subs.len() - 1;
        assert(subs[n] == last);
        assert forall|x: PositionInfo| #[trigger] all.contains(x) <==> exists|k: int|
            0 <= k < subs.len() && (#[trigger] subs[k]).margining_type == SubAccountMargining::Cross
                && settlements(subs[k].positions@, account, subs[k].address).contains(x) by {
            if all.contains(x) {
                let j = choose|j: int| 0 <= j < all.len() && all[j] == x;
                if j < prev.len() {
                    assert(prev[j] == x);
                    assert(prev.contains(x));
                    let k = choose|k: int|
                        0 <= k < init.len() && (#[trigger] init[k]).margining_type
                            == SubAccountMargining::Cross && settlements(
                            init[k].positions@,
                            account,
                            init[k].address,
                        ).contains(x);
                    assert(subs[k] == init[k]);
                } else {
                    assert(here[j - prev.len()] == x);
                    assert(here.contains(x));
                }
            }
            if exists|k: int|
                0 <= k < subs.len() && (#[trigger] subs[k]).margining_type == SubAccountMargining::Cross
                    && settlements(subs[k].positions@, account, subs[k].address).contains(x) {
                let k = choose|k: int|
                    0 <= k < subs.len() && (#[trigger] subs[k]).margining_type
                        == SubAccountMargining::Cross && settlements(
                        subs[k].positions@,
                        account,
                        subs[k].address,
                    ).contains(x);
                if k < n {
                    assert(init[k] == subs[k]);
                    assert(prev.contains(x));
                    let j = choose|j: int| 0 <= j < prev.len() && prev[j] == x;
                    assert(all[j] == x);
                } else {
                    let j = choose|j: int| 0 <= j < here.len() && here[j] == x;
                    assert(all[prev.len() + j] == x);
                }
            }
        }
    }
}

/// What a collateral check decides. The account is liquidated exactly when
/// its collateral ratio is strictly below the maintenance ratio, and then
/// the positions to settle are exactly those of its cross-margined sub
/// accounts. Otherwise the sub account liquidated is the first isolated one
/// whose ratio is strictly below maintenance, with its own positions to
/// settle; and when there is none, nothing is liquidated or settled.
pub proof fn lemma_collateral_check(liqee: UserSnapshot, maint: Fixed)
    ensures
        (liquidation_type_of(liqee, maint) is Account) <==> liqee.account.margin_c_ratio.val()
            < maint.val(),
        liquidation_type_of(liqee, maint) is Account ==> liquidation_type_of(liqee, maint)
            == (LiquidationType::Account { account: liqee.account.address }),
        liquidation_type_of(liqee, maint) is Account ==> forall|x: PositionInfo|
            #[trigger] positions_to_settle(liqee, maint).contains(x) <==> exists|k: int|
                0 <= k < liqee.sub_accounts@.len() && (#[trigger] liqee.sub_accounts@[k]).margining_type
                    == SubAccountMargining::Cross && settlements(
                    liqee.sub_accounts@[k].positions@,
                    liqee.account.address,
                    liqee.sub_accounts@[k].address,
                ).contains(x),
        liquidation_type_of(liqee, maint) is SubAccount ==> exists|k: int|
            0 <= k < liqee.sub_accounts@.len() && liquidation_type_of(liqee, maint) == (
            LiquidationType::SubAccount { sub_account: (#[trigger] liqee.sub_accounts@[k]).address })
                && liqee.sub_accounts@[k].margining_type == SubAccountMargining::Isolated
                && liqee.sub_accounts@[k].margin_c_ratio.val() < maint.val() && (forall|j: int|
                0 <= j < k ==> !((#[trigger] liqee.sub_accounts@[j]).margining_type
                    == SubAccountMargining::Isolated && liqee.sub_accounts@[j].margin_c_ratio.val()
                    < maint.val())) && positions_to_settle(liqee, maint) == settlements(
                liqee.sub_accounts@[k].positions@,
                liqee.account.address,
                liqee.sub_accounts@[k].address,
            ),
        (liquidation_type_of(liqee, maint) is Ineligible) <==> (liqee.account.margin_c_ratio.val()
            >= maint.val() && forall|k: int|
            0 <= k < liqee.sub_accounts@.len() ==> !((#[trigger] liqee.sub_accounts@[k]).margining_type
                == SubAccountMargining::Isolated && liqee.sub_accounts@[k].margin_c_ratio.val()
                < maint.val())),
        liquidation_type_of(liqee, maint) is Ineligible ==> positions_to_settle(liqee, maint).len()
            == 0,
{
    let subs = liqee.sub_accounts@;
    let p = isolated_below(maint);
    crate::seq_util::lemma_first_index_props(subs, p);
    lemma_cross_settlements_members(subs, liqee.account.address);
    let i = first_index(subs, p);
    if liqee.account.margin_c_ratio.val() >= maint.val() {
        if i >= 0 {
            assert(p(subs[i]));
            assert forall|j: int| 0 <= j < i implies !((#[trigger] subs[j]).margining_type
                == SubAccountMargining::Isolated && subs[j].margin_c_ratio.val() < maint.val()) by {
                assert(!p(subs[j]));
            }
            assert(!(forall|k: int|
                0 <= k < subs.len() ==> !((#[trigger] subs[k]).margining_type
                    == SubAccountMargining::Isolated && subs[k].margin_c_ratio.val() < maint.val())));
        } else {
            assert forall|k: int| 0 <= k < subs.len() implies !((#[trigger] subs[k]).margining_type
                == SubAccountMargining::Isolated && subs[k].margin_c_ratio.val() < maint.val()) by {
                assert(!p(subs[k]));
            }
        }
    }
}

fn append_slot_settlements(
    out: &mut Vec<PositionInfo>,
    p: &PositionSlot,
    account: Address,
    sub_account: Address,
)
    ensures
        final(out)@ == old(out)@ + slot_settlements(*p, account, sub_account),
{
    let ghost start = out@;
    if !p.spot.token_mint.is_unset() {
        if p.spot.open_orders_cache.coin_total != 0 || p.spot.open_orders_cache.pc_total != 0 {
            out.push(
                PositionInfo {
                    position_type: PositionType::Spot,
                    identifier: p.spot.token_mint,
                    account,
                    sub_account,
                },
            );
        }
    }
    let ghost mid = out@;
    if !p.derivative.market.is_unset() {
        if p.derivative.open_orders_cache.coin_total != 0
            || p.derivative.open_orders_cache.pc_total != 0 {
            out.push(
                PositionInfo {
                    position_type: PositionType::Derivative,
                    identifier: p.derivative.market,
                    account,
                    sub_account,
                },
            );
        }
    }
    assert(out@ =~= start + slot_settlements(*p, account, sub_account));
}

fn append_settlements(
    out: &mut Vec<PositionInfo>,
    positions: &Vec<PositionSlot>,
    account: Address,
    sub_account: Address,
)
    ensures
        final(out)@ == old(out)@ + settlements(positions@, account, sub_account),
{
    let ghost start = out@;
    for k in 0..positions.len()
        invariant
            out@ == start + settlements(positions@.take(k as int), account, sub_account),
    {
        proof {
            lemma_take_succ(positions@, k as int);
        }
        append_slot_settlements(out, &positions[k], account, sub_account);
        proof {
            assert(out@ =~= start + settlements(positions@.take(k + 1), account, sub_account));
        }
    }
    proof {
        lemma_take_all(positions@);
    }
}

/// Checks whether the liqee can be liquidated against the maintenance
/// margin ratio of its clearing: the account when its collateral ratio is
/// below it (with every cross sub account's positions that hold funds in
/// open orders), otherwise the first isolated sub account below it (with
/// its positions that hold funds in open orders), otherwise nothing.
pub fn check_collateral(liqee: &UserSnapshot, maint_margin_ratio: Fixed) -> (r: LiquidationCheck)
    ensures
        r.liquidation_type == liquidation_type_of(*liqee, maint_margin_ratio),
        r.positions_info@ == positions_to_settle(*liqee, maint_margin_ratio),
{
    let account = &liqee.account;
    let subs = &liqee.sub_accounts;
    if account.margin_c_ratio.lt(maint_margin_ratio) {
        let mut positions_info: Vec<PositionInfo> = Vec::new();
        for k in 0..subs.len()
            invariant
                positions_info@ == cross_settlements(subs@.take(k as int), account.address),
        {
            proof {
                lemma_take_succ(subs@, k as int);
            }
            let sub = &subs[k];
            if sub.margining_type == SubAccountMargining::Cross {
                append_settlements(&mut positions_info, &sub.positions, account.address, sub.address);
            }
        }
        proof {
            lemma_take_all(subs@);
        }
        return LiquidationCheck {
            liquidation_type: LiquidationType::Account { account: account.address },
            positions_info,
        };
    }
    let ghost p = isolated_below(maint_margin_ratio);
    for k in 0..subs.len()
        invariant
            p == isolated_below(maint_margin_ratio),
            subs@ == liqee.sub_accounts@,
            account == &liqee.account,
            !(liqee.account.margin_c_ratio.val() < maint_margin_ratio.val()),
            forall|j: int| 0 <= j < k ==> !p(#[trigger] subs@[j]),
    {
        let sub = &subs[k];
        if sub.margining_type == SubAccountMargining::Isolated {
            if sub.margin_c_ratio.lt(maint_margin_ratio) {
                proof {
                    lemma_first_index_found(subs@, p, k as int);
                }
                let mut positions_info: Vec<PositionInfo> = Vec::new();
                append_settlements(&mut positions_info, &sub.positions, account.address, sub.address);
                return LiquidationCheck {
                    liquidation_type: LiquidationType::SubAccount { sub_account: sub.address },
                    positions_info,
                };
            }
        }
    }
    proof {
        lemma_first_index_none(subs@, p);
    }
    LiquidationCheck { liquidation_type: LiquidationType::Ineligible, positions_info: Vec::new() }
}

/// The liquidator may liquidate while its own collateral ratio is at least
/// the initialization margin ratio of its clearing.
pub fn check_can_liquidate(liqor: &AccountSnapshot, init_margin_ratio: Fixed) -> (r: bool)
    ensures
        r == (liqor.margin_c_ratio.val() >= init_margin_ratio.val()),
{
    if init_margin_ratio.le(liqor.margin_c_ratio) {
        return true;
    }
    false
}

} // verus!
