use cypher_cli::cli::orderbook::{book_rows, BookRow};

#[test]
fn rows_pair_bids_and_asks_by_index() {
    assert_eq!(
        book_rows(3, 1),
        vec![BookRow::Both(0), BookRow::BidOnly(1), BookRow::BidOnly(2)]
    );
    assert_eq!(book_rows(1, 2), vec![BookRow::Both(0), BookRow::AskOnly(1)]);
    assert_eq!(book_rows(0, 0), vec![]);
}

#[test]
fn every_order_is_shown_once() {
    let rows = book_rows(4, 2);
    let bids = rows.iter().filter(|r| matches!(r, BookRow::Both(_) | BookRow::BidOnly(_))).count();
    let asks = rows.iter().filter(|r| matches!(r, BookRow::Both(_) | BookRow::AskOnly(_))).count();
    assert_eq!((rows.len(), bids, asks), (4, 4, 2));
}
