use cypher_cli::address::Address;
use cypher_cli::common::context::{
    classify_global_update, classify_spot_update, execution_context_readiness, ContextBuilderError,
    ContextReadiness, GlobalAccountUpdate, SpotAccountKeys, SpotAccountUpdate,
};
use cypher_cli::fixed_point::Fixed;

fn a(n: u64) -> Address {
    Address { w0: 0, w1: 0, w2: 0, w3: n }
}

#[test]
fn context_waits_for_price_then_account_then_sub_accounts() {
    let one = Fixed::one();
    assert_eq!(execution_context_readiness(Fixed::zero(), a(0), 0), ContextReadiness::AwaitingOraclePrice);
    assert_eq!(execution_context_readiness(one, a(0), 3), ContextReadiness::AwaitingAccount);
    assert_eq!(execution_context_readiness(one, a(1), 0), ContextReadiness::AwaitingSubAccounts);
    assert_eq!(execution_context_readiness(one, a(1), 1), ContextReadiness::Ready);
}

#[test]
fn spot_updates_are_classified_by_role() {
    let keys = SpotAccountKeys {
        market: a(1),
        event_queue: a(2),
        bids: a(3),
        asks: a(4),
        open_orders: a(5),
        asset_pool: a(6),
        asset_pool_nodes: vec![a(7)],
        quote_pool: a(8),
        quote_pool_nodes: vec![a(9), a(10)],
    };
    assert!(matches!(classify_spot_update(&keys, a(10)), Ok(SpotAccountUpdate::QuotePoolNode)));
    assert!(matches!(classify_spot_update(&keys, a(7)), Ok(SpotAccountUpdate::AssetPoolNode)));
    assert!(matches!(classify_spot_update(&keys, a(3)), Ok(SpotAccountUpdate::Bids)));
    assert!(matches!(classify_spot_update(&keys, a(1)), Err(ContextBuilderError::UnrecognizedAccount(x)) if x == a(1)));
}

#[test]
fn global_updates_prefer_the_cache() {
    assert!(matches!(classify_global_update(a(1), a(1), a(2), a(1)), Ok(GlobalAccountUpdate::Cache)));
    assert!(matches!(classify_global_update(a(1), a(2), a(3), a(3)), Ok(GlobalAccountUpdate::SubAccount)));
    assert!(matches!(classify_global_update(a(1), a(2), a(3), a(4)), Err(ContextBuilderError::UnrecognizedAccount(_))));
}
