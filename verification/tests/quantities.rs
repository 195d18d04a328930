use cypher_cli::cli::quantities::{
    close_quantities, close_side, native_quantity, order_quantities, spot_max_native_pc_qty,
    spot_order_type, SpotOrderType,
};
use cypher_cli::common::orders::Side;
use cypher_cli::fixed_point::Fixed;
use fixed::types::I80F48;

fn fx(v: &str) -> Fixed {
    Fixed::from_bits(v.parse::<I80F48>().unwrap().to_bits())
}

#[test]
fn whole_tokens_become_native_units() {
    assert_eq!(native_quantity(fx("1.5"), 6), Some(1_500_000));
    assert_eq!(native_quantity(fx("3"), 0), Some(3));
    assert_eq!(native_quantity(fx("0.0000015"), 6), Some(1));
}

#[test]
fn native_units_refuse_what_does_not_fit() {
    assert_eq!(native_quantity(fx("1"), 20), None);
    assert_eq!(native_quantity(fx("-1"), 6), None);
    assert_eq!(native_quantity(fx("100000000"), 19), None);
}

#[test]
fn order_quantities_are_base_and_notional() {
    assert_eq!(order_quantities(fx("2"), 3, 7), Some((2000, 14000)));
    assert_eq!(order_quantities(fx("2"), 3, u64::MAX), None);
}

#[test]
fn closing_side_is_opposite_to_the_position() {
    assert_eq!(close_side(fx("-2")), Side::Bid);
    assert_eq!(close_side(fx("2")), Side::Ask);
    assert_eq!(close_side(fx("0")), Side::Ask);
}

#[test]
fn close_reserve_adds_the_fee_term() {
    // base 2 (whole part of 2.5), notional 20, reserve 20 + 20 * 10030 / 10000 = 40
    assert_eq!(close_quantities(fx("-2.5"), 10), Some((2, 40)));
    // notional 1000, reserve 1000 + 1003 = 2003
    assert_eq!(close_quantities(fx("100"), 10), Some((100, 2003)));
    assert_eq!(close_quantities(Fixed::from_bits(i128::MIN), 10), None);
}

#[test]
fn spot_reserve_includes_taker_fee_unless_post_only() {
    // notional 3 * 7 * 10 = 210, with 25 bps: 210 * 10025 / 10000 = 210 (rounded down)
    assert_eq!(spot_max_native_pc_qty(3, 7, 10, 25, SpotOrderType::ImmediateOrCancel), Some(210));
    // notional 1000 * 10 * 10 = 100000, with 30 bps: 100300
    assert_eq!(spot_max_native_pc_qty(1000, 10, 10, 30, SpotOrderType::Limit), Some(100300));
    assert_eq!(spot_max_native_pc_qty(1000, 10, 10, 30, SpotOrderType::PostOnly), Some(100000));
    assert_eq!(spot_max_native_pc_qty(u64::MAX, 2, 1, 0, SpotOrderType::PostOnly), None);
}

#[test]
fn spot_order_type_words() {
    assert_eq!(spot_order_type(&"limit".to_string()), Some(SpotOrderType::Limit));
    assert_eq!(spot_order_type(&"postOnly".to_string()), Some(SpotOrderType::PostOnly));
    assert_eq!(spot_order_type(&"anything".to_string()), None);
}

use cypher_cli::address::Address;
use cypher_cli::cli::sub_account::{deposit_steps, withdraw_steps, TransferStep};

#[test]
fn wrapped_sol_moves_through_a_temporary_token_account() {
    let sol = Address { w0: 6, w1: 0, w2: 0, w3: 1 };
    let usdc = Address { w0: 7, w1: 0, w2: 0, w3: 2 };
    let amount = Fixed::from_bits(3i128 << 47); // 1.5
    assert_eq!(
        deposit_steps(sol, sol, amount, 9),
        Some(vec![
            TransferStep::CreateTokenAccount { lamports: Some(1_500_000_000) },
            TransferStep::InitializeTokenAccount,
            TransferStep::DepositFunds { amount: 1_500_000_000 },
            TransferStep::CloseTokenAccount,
        ])
    );
    assert_eq!(deposit_steps(usdc, sol, amount, 6), Some(vec![TransferStep::DepositFunds { amount: 1_500_000 }]));
    assert_eq!(
        withdraw_steps(sol, sol, amount, 9),
        Some(vec![
            TransferStep::CreateTokenAccount { lamports: None },
            TransferStep::InitializeTokenAccount,
            TransferStep::WithdrawFunds { amount: 1_500_000_000 },
            TransferStep::CloseTokenAccount,
        ])
    );
    assert_eq!(withdraw_steps(usdc, sol, amount, 6), Some(vec![TransferStep::WithdrawFunds { amount: 1_500_000 }]));
    assert_eq!(deposit_steps(usdc, sol, Fixed::from_bits(-(1i128 << 48)), 6), None);
}
