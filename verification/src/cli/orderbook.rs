//! The layout of an order book printed side by side: row `i` shows the
//! `i`-th bid and the `i`-th ask, where there are such orders.
use vstd::prelude::*;

verus! {

/// What a row of the printed book shows.
#[derive(Clone, Copy, Debug, PartialEq, Eq, Structural)]
pub enum BookRow {
    /// The bid and the ask at this index.
    Both(usize),
    /// Only the ask at this index; the bid columns show zeros.
    AskOnly(usize),
    /// Only the bid at this index; the ask columns show zeros.
    BidOnly(usize),
}

/// The row at index `i` of a book with `n_bids` bids and `n_asks` asks.
pub open spec fn book_row(i: int, n_bids: int, n_asks: int) -> BookRow {
    if i < n_bids && i < n_asks {
        BookRow::Both(i as usize)
    } else if i >= n_bids {
        BookRow::AskOnly(i as usize)
    } else {
        BookRow::BidOnly(i as usize)
    }
}

/// Whether a row shows a bid.
pub open spec fn shows_bid(row: BookRow) -> bool {
    row is Both || row is BidOnly
}

/// Whether a row shows an ask.
pub open spec fn shows_ask(row: BookRow) -> bool {
    row is Both || row is AskOnly
}

/// The rows of a book with `n_bids` bids and `n_asks` asks: as many as the
/// longer side has orders. Row `i` shows the `i`-th bid exactly when there
/// is one, and the `i`-th ask exactly when there is one, so every order is
/// shown once.
pub fn book_rows(n_bids: usize, n_asks: usize) -> (r: Vec<BookRow>)
    ensures
        r.len() == (if n_bids > n_asks { n_bids } else { n_asks }),
        forall|i: int| 0 <= i < r.len() ==> #[trigger] r[i] == book_row(i, n_bids as int, n_asks as int),
        forall|i: int| 0 <= i < r.len() ==> (shows_bid(#[trigger] r[i]) <==> i < n_bids),
        forall|i: int| 0 <= i < r.len() ==> (shows_ask(#[trigger] r[i]) <==> i < n_asks),
{
    let longest = if n_bids > n_asks { n_bids } else { n_asks };
    let mut rows: Vec<BookRow> = Vec::new();
    for i in 0..longest
        invariant
            longest == (if n_bids > n_asks { n_bids } else { n_asks }),
            rows.len() == i,
            forall|k: int| 0 <= k < i ==> #[trigger] rows[k] == book_row(k, n_bids as int, n_asks as int),
    {
        let row = if i < n_bids && i < n_asks {
            BookRow::Both(i)
        } else if i >= n_bids {
            BookRow::AskOnly(i)
        } else {
            BookRow::BidOnly(i)
        };
        rows.push(row);
    }
    rows
}

} // verus!
