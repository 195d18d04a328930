use cypher_cli::address::Address;
use cypher_cli::cli::market_maker::{sorted_distinct, subscription_accounts};
use cypher_cli::common::info::{Accounts, ContextInfo, MarketMetadata, PerpMarketInfo};
use cypher_cli::liquidator::accounts::{WatchedAccounts, WatchedKind};
use cypher_cli::liquidator::error::Error;

fn a(n: u64) -> Address {
    Address { w0: 0, w1: 0, w2: 0, w3: n }
}

fn hi(n: u64) -> Address {
    Address { w0: n, w1: 0, w2: 0, w3: 0 }
}

#[test]
fn sorted_distinct_orders_by_first_word_first() {
    let v = vec![a(5), hi(1), a(2), a(5), a(9), hi(1)];
    assert_eq!(sorted_distinct(&v), vec![a(2), a(5), a(9), hi(1)]);
    assert_eq!(sorted_distinct(&vec![]), vec![]);
}

fn perp_info(market: u64, pools: Vec<u64>) -> ContextInfo {
    let mut info = PerpMarketInfo::default();
    info.market = a(market);
    info.orderbook = a(market + 1);
    info.quote_pool_nodes = pools.into_iter().map(a).collect();
    ContextInfo {
        symbol: "SOL-PERP".to_string(),
        market_metadata: MarketMetadata { decimals: 9, cache_index: 0, base_multiplier: 1, quote_multiplier: 1 },
        context_accounts: Accounts::Perpetuals(info),
    }
}

#[test]
fn subscriptions_merge_both_markets_once_each() {
    let maker = perp_info(10, vec![40, 41]);
    let hedger = perp_info(20, vec![41]);
    let subs = subscription_accounts(&maker, &hedger, a(10), a(7), a(8));
    // every address of both markets, the cache, the account and the
    // sub-account, in order, with the all-zero unset addresses once
    let mut expected: Vec<Address> = maker.context_accounts().into_iter().chain(hedger.context_accounts()).collect();
    expected.extend([a(10), a(7), a(8)]);
    expected.sort_by_key(|x| (x.w0, x.w1, x.w2, x.w3));
    expected.dedup();
    assert_eq!(subs, expected);
    assert!(subs.windows(2).all(|w| (w[0].w0, w[0].w1, w[0].w2, w[0].w3) < (w[1].w0, w[1].w1, w[1].w2, w[1].w3)));
}

#[test]
fn watching_subscribes_each_new_address_once() {
    let mut watched = WatchedAccounts::new();
    let first = watched.watch_all(&vec![a(1), a(2), a(1)], &vec![a(3)]);
    assert_eq!(first, vec![a(1), a(2), a(3)]);
    let second = watched.watch_all(&vec![a(2), a(4)], &vec![a(3), a(5), a(5)]);
    assert_eq!(second, vec![a(4), a(5)]);
    assert!(matches!(watched.classify(a(4)), Ok(WatchedKind::Account)));
    assert!(matches!(watched.classify(a(5)), Ok(WatchedKind::SubAccount)));
    assert!(matches!(watched.classify(a(6)), Err(Error::UnrecognizedAccount)));
}

#[test]
fn updates_cache_each_user_once() {
    let mut watched = WatchedAccounts::new();
    watched.watch_all(&vec![a(4)], &vec![a(5)]);
    let first = watched.process_update(a(4), a(40)).unwrap();
    assert_eq!((first.kind, first.authority, first.new_user), (WatchedKind::Account, a(40), true));
    let again = watched.process_update(a(5), a(40)).unwrap();
    assert_eq!((again.kind, again.new_user), (WatchedKind::SubAccount, false));
    assert!(matches!(watched.process_update(a(6), a(41)), Err(Error::UnrecognizedAccount)));
    assert!(watched.process_update(a(5), a(41)).unwrap().new_user);
}
