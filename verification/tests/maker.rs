use cypher_cli::common::identifier::Identifier;
use cypher_cli::common::inventory::{QuoteVolumes, SpreadInfo};
use cypher_cli::common::maker::{CancelBatch, Maker, PlacementBatch, UpdatePlan};
use cypher_cli::common::order_manager::OrderManager;
use cypher_cli::common::orders::{
    CandidateCancel, CandidatePlacement, InflightCancel, ManagedOrder, Order, OrdersInfo, Side,
};
use cypher_cli::fixed_point::Fixed;
use fixed::types::I80F48;

fn fx(v: I80F48) -> Fixed {
    Fixed::from_bits(v.to_bits())
}

fn num(n: i64) -> I80F48 {
    I80F48::from_num(n)
}

fn maker() -> Maker {
    Maker {
        symbol: "SOL-PERP".to_string(),
        order_layer_count: 2,
        layer_spacing_bps: 100,
        time_in_force: 60,
        order_manager: OrderManager::new(),
    }
}

fn volumes() -> (QuoteVolumes, SpreadInfo) {
    (
        QuoteVolumes { delta: Fixed::zero(), bid_size: fx(num(10)), ask_size: fx(num(20)) },
        SpreadInfo { oracle_price: fx(num(100)), bid: fx(num(100)), ask: fx(num(101)) },
    )
}

#[test]
fn quotes_are_layered_bids_then_asks() {
    let m = maker();
    let (qv, si) = volumes();
    let quotes = m.get_new_orders(&qv, &si);
    let step = num(10_000).checked_add(num(100)).unwrap().checked_div(num(10_000)).unwrap();
    let bid2 = num(100).checked_div(step).unwrap();
    let ask2 = num(101).checked_mul(step).unwrap();
    let half = I80F48::from_num(2.5);
    let expected = [
        (Side::Bid, 1usize, num(100), half),
        (Side::Bid, 2, bid2, I80F48::from_num(7.5)),
        (Side::Ask, 1, num(101), num(5)),
        (Side::Ask, 2, ask2, num(15)),
    ];
    assert_eq!(quotes.len(), 4);
    for (q, (side, layer, price, size)) in quotes.iter().zip(expected.iter()) {
        assert_eq!((q.side, q.layer), (*side, *layer));
        assert_eq!(q.price, fx(*price));
        assert_eq!(q.base_quantity, fx(*size));
        assert_eq!(q.max_quote_quantity, fx(price.checked_mul(*size).unwrap()));
    }
    // layer sizes: 10 / ((2 - 1 + 1) * 2) = 2.5, then 10 / ((2 - 2 + 1) * 2) + 2.5 = 7.5
    assert_eq!(m.get_order_size(2, 1, fx(num(10)), Fixed::zero()), fx(half));
}

fn managed(client: u64, order_id: u128, side: Side, layer: usize, price: I80F48, size: I80F48, max_ts: u64) -> ManagedOrder {
    ManagedOrder {
        price_lots: 0,
        base_quantity_lots: 0,
        quote_quantity_lots: 0,
        price: fx(price),
        base_quantity: fx(size),
        max_quote_quantity: Fixed::zero(),
        max_ts,
        submitted_at: 100,
        client_order_id: client,
        order_id,
        side,
        layer,
    }
}

#[test]
fn expired_and_stale_orders_are_cancelled_and_stale_slots_replaced() {
    let m = maker();
    let (qv, si) = volumes();
    let fresh = managed(1, 11, Side::Bid, 1, num(100), I80F48::from_num(2.5), 500);
    let moved = managed(2, 12, Side::Ask, 1, num(99), num(5), 500);
    let old = managed(3, 13, Side::Bid, 2, num(1), num(1), 50);
    let orders = vec![fresh, moved, old];
    let expired = m.get_expired_orders(&orders, 100);
    assert_eq!(expired, vec![CandidateCancel { order_id: 13, client_order_id: 3, side: Side::Bid, layer: 2 }]);
    let quotes = m.get_new_orders(&qv, &si);
    let stale = m.get_stale_orders(&orders, &quotes);
    assert_eq!(stale.iter().map(|c| c.client_order_id).collect::<Vec<_>>(), vec![2, 3]);
    let repl = m.filter_candidate_placements(&quotes, &stale);
    assert_eq!(repl.iter().map(|p| (p.side, p.layer)).collect::<Vec<_>>(), vec![(Side::Bid, 2), (Side::Ask, 1)]);

    let info = OrdersInfo { open_orders: orders, inflight_cancels: vec![], inflight_orders: vec![] };
    match m.plan_order_update(&qv, &si, &info, 100) {
        UpdatePlan::Refresh { expired: e, stale: s, replacements: r } => {
            assert_eq!((e, s, r), (expired, stale, repl));
        }
        _ => panic!("expected a refresh"),
    }
}

#[test]
fn empty_book_waits_for_inflight_or_places_everything() {
    let m = maker();
    let (qv, si) = volumes();
    let empty = OrdersInfo { open_orders: vec![], inflight_cancels: vec![], inflight_orders: vec![] };
    match m.plan_order_update(&qv, &si, &empty, 0) {
        UpdatePlan::PlaceAll { placements } => assert_eq!(placements, m.get_new_orders(&qv, &si)),
        _ => panic!("expected placing everything"),
    }
    let waiting = OrdersInfo {
        open_orders: vec![],
        inflight_cancels: vec![],
        inflight_orders: vec![managed(1, 0, Side::Bid, 1, num(1), num(1), 0)],
    };
    assert!(matches!(m.plan_order_update(&qv, &si, &waiting, 0), UpdatePlan::Wait));
    let plan = UpdatePlan::Refresh { expired: vec![], stale: vec![], replacements: vec![] };
    assert_eq!(plan.pulse_result().num_new_orders, 0);
}

#[test]
fn submissions_that_went_through_are_tracked_in_flight() {
    let mut m = maker();
    let (qv, si) = volumes();
    let quotes = m.get_new_orders(&qv, &si);
    let built: Vec<ManagedOrder> = quotes.iter().enumerate()
        .map(|(i, q)| managed(i as u64 + 1, 0, q.side, q.layer, num(1), num(1), 0))
        .collect();
    let batches = vec![
        PlacementBatch { submitted: true, candidates: vec![quotes[0], quotes[3]] },
        PlacementBatch { submitted: false, candidates: vec![quotes[1]] },
    ];
    m.record_submitted_orders(&built, &batches);
    assert_eq!(m.order_manager.inflight_orders, vec![built[0], built[3]]);
    // a second placement of a covered slot is filtered out
    let left = m.check_inflight_orders(&quotes);
    assert_eq!(left.iter().map(|p| (p.side, p.layer)).collect::<Vec<_>>(), vec![(Side::Bid, 2), (Side::Ask, 1)]);

    let cancel = CandidateCancel { order_id: 9, client_order_id: 4, side: Side::Ask, layer: 1 };
    m.record_submitted_cancels(&[cancel], &[CancelBatch { submitted: true, candidates: vec![cancel] }], 77);
    assert_eq!(m.order_manager.inflight_cancels, vec![InflightCancel { order_id: 9, client_order_id: 4, side: Side::Ask, submitted_at: 77 }]);
    assert!(m.check_inflight_cancels(&[cancel]).is_empty());
}

fn book_order(client: u64, order_id: u128, side: Side) -> Order {
    Order { price: 1, base_quantity: 2, quote_quantity: 3, max_ts: 0, client_order_id: client, order_id, side }
}

#[test]
fn update_moves_confirmed_orders_and_drops_expired_ones() {
    let mut om = OrderManager::new();
    let confirmed = managed(7, 0, Side::Bid, 1, num(1), num(1), 0);
    let mut stuck = managed(8, 0, Side::Ask, 1, num(1), num(1), 0);
    stuck.submitted_at = 10;
    om.inflight_orders = vec![confirmed, stuck];
    om.managed_orders = vec![managed(5, 55, Side::Bid, 2, num(1), num(1), 0)];
    let book = vec![book_order(7, 99, Side::Bid), book_order(5, 55, Side::Bid)];
    om.process_update(&book, 100);
    // the confirmed order takes the book's order id; the one submitted long
    // ago is dropped; every managed order is on the book
    assert!(om.inflight_orders.is_empty());
    assert_eq!(om.managed_orders.iter().map(|o| (o.client_order_id, o.order_id)).collect::<Vec<_>>(), vec![(5, 55), (7, 99)]);
    assert_eq!(om.open_orders, book);
}

#[test]
fn first_update_takes_over_the_book() {
    let mut om = OrderManager::new();
    let book = vec![book_order(1, 10, Side::Ask)];
    om.process_update(&book, 0);
    assert_eq!(om.managed_orders.len(), 1);
    assert_eq!((om.managed_orders[0].order_id, om.managed_orders[0].layer), (10, usize::MAX));
}

#[test]
fn maker_identifies_by_its_symbol() {
    assert_eq!(maker().symbol(), "SOL-PERP");
}
