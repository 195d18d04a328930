use cypher_cli::address::Address;
use cypher_cli::cli::spot::{registered_sub_accounts, side_totals, OpenOrdersBalances, OrderAmounts};
use cypher_cli::cli::sub_account::{first_pool_node, peek_target, PeekTarget};
use cypher_cli::common::orders::Side;
use cypher_cli::fixed_point::Fixed;

fn units(n: i128) -> Fixed {
    Fixed::from_bits(n << 48)
}

#[test]
fn side_totals_sum_each_side() {
    let orders = vec![
        OrderAmounts { side: Side::Bid, base: units(1), quote: units(10) },
        OrderAmounts { side: Side::Ask, base: units(2), quote: units(25) },
        OrderAmounts { side: Side::Bid, base: units(3), quote: units(29) },
    ];
    let t = side_totals(&orders).unwrap();
    assert_eq!((t.bid_base, t.bid_quote, t.ask_base, t.ask_quote), (units(4), units(39), units(2), units(25)));
    let empty = side_totals(&vec![]).unwrap();
    assert_eq!(empty.bid_base, Fixed::zero());
}

#[test]
fn side_totals_refuse_an_overflowing_sum() {
    let huge = Fixed::from_bits(i128::MAX - 5);
    let orders = vec![
        OrderAmounts { side: Side::Ask, base: huge, quote: units(1) },
        OrderAmounts { side: Side::Bid, base: huge, quote: units(1) },
        OrderAmounts { side: Side::Ask, base: units(1), quote: units(1) },
    ];
    assert!(side_totals(&orders).is_none());
    assert!(side_totals(&orders[..2].to_vec()).is_some());
}

#[test]
fn open_orders_balances() {
    let b = OpenOrdersBalances { coin_free: 3, coin_total: 10, pc_free: 0, pc_total: 0 };
    assert!(b.has_balances());
    assert_eq!((b.coin_locked(), b.pc_locked()), (Some(7), Some(0)));
    let odd = OpenOrdersBalances { coin_free: 11, coin_total: 10, pc_free: 0, pc_total: 0 };
    assert_eq!(odd.coin_locked(), None);
    assert!(!OpenOrdersBalances { coin_free: 0, coin_total: 0, pc_free: 0, pc_total: 0 }.has_balances());
}

#[test]
fn registered_slots_and_pool_nodes() {
    let z = Address { w0: 0, w1: 0, w2: 0, w3: 0 };
    let x = Address { w0: 1, w1: 2, w2: 3, w3: 4 };
    let y = Address { w0: 0, w1: 0, w2: 0, w3: 9 };
    assert_eq!(registered_sub_accounts(&vec![z, x, z, y]), vec![x, y]);
    assert_eq!(first_pool_node(&vec![z, z, y, x]), Some(2));
    assert_eq!(first_pool_node(&vec![z]), None);
}

#[test]
fn peek_target_defaults_to_first_accounts() {
    let x = Address { w0: 1, w1: 2, w2: 3, w3: 4 };
    assert_eq!(peek_target(Some(x), Some(3), None), PeekTarget::Given(x));
    assert_eq!(peek_target(None, Some(3), None), PeekTarget::Derived { account_number: 3, sub_account_number: 0 });
    assert_eq!(peek_target(None, None, None), PeekTarget::Derived { account_number: 0, sub_account_number: 0 });
}
