//! Bookkeeping of the orders a maker has placed, the orders it has asked to
//! place and the cancels it has asked for, kept in step with the orders that
//! the book shows.
use vstd::prelude::*;
use crate::fixed_point::Fixed;
use crate::seq_util::{first_index, lemma_first_index_found, lemma_first_index_none, lemma_take_all, lemma_take_succ};
use super::orders::{InflightCancel, ManagedOrder, Order};

verus! {

/// Seconds after which an unconfirmed submission stops being tracked.
pub const INFLIGHT_TIMEOUT_SECS: u64 = 15;

/// The orders a maker tracks.
pub struct OrderManager {
    /// Orders placed by the maker and confirmed on the book.
    pub managed_orders: Vec<ManagedOrder>,
    /// The orders on the book at the last update.
    pub open_orders: Vec<Order>,
    /// Orders submitted and not confirmed yet.
    pub inflight_orders: Vec<ManagedOrder>,
    /// Cancels submitted and not confirmed yet.
    pub inflight_cancels: Vec<InflightCancel>,
}

/// What an [`OrderManager`] holds, as sequences.
pub struct OrderTracking {
    pub managed: Seq<ManagedOrder>,
    pub open: Seq<Order>,
    pub inflight: Seq<ManagedOrder>,
    pub cancels: Seq<InflightCancel>,
}

impl View for OrderManager {
    type V = OrderTracking;

    open spec fn view(&self) -> OrderTracking {
        OrderTracking {
            managed: self.managed_orders@,
            open: self.open_orders@,
            inflight: self.inflight_orders@,
            cancels: self.inflight_cancels@,
        }
    }
}

// ---------------------------------------------------------------------------
// In-flight cancels.

/// Some order on the book has the cancel's client order id or order id.
pub open spec fn cancel_on_book(book: Seq<Order>, c: InflightCancel) -> bool {
    exists|k: int|
        0 <= k < book.len() && ((#[trigger] book[k]).client_order_id == c.client_order_id
            || book[k].order_id == c.order_id)
}

/// The submission is older than the timeout.
pub open spec fn submission_expired(submitted_at: u64, now: u64) -> bool {
    submitted_at + INFLIGHT_TIMEOUT_SECS < now
}

/// The cancels to stop tracking, in the order in which they are dropped:
/// scanning the tracked cancels, each one no longer on the book is listed
/// once, and each expired one is listed (again).
pub open spec fn cancel_removals(cancels: Seq<InflightCancel>, book: Seq<Order>, now: u64) -> Seq<
    InflightCancel,
>
    decreases cancels.len(),
{
    if cancels.len() == 0 {
        Seq::empty()
    } else {
        let acc = cancel_removals(cancels.drop_last(), book, now);
        let c = cancels.last();
        let acc1 = if !cancel_on_book(book, c) && !acc.contains(c) {
            acc.push(c)
        } else {
            acc
        };
        if submission_expired(c.submitted_at, now) {
            acc1.push(c)
        } else {
            acc1
        }
    }
}

/// A tracked cancel matches a cancel to drop: same client order id, or same
/// order id on the same side.
pub open spec fn cancel_pred(o: InflightCancel) -> spec_fn(InflightCancel) -> bool {
    |p: InflightCancel|
        p.client_order_id == o.client_order_id || (p.order_id == o.order_id && p.side == o.side)
}

/// A managed order matches a cancel to drop, in the same way.
pub open spec fn managed_cancel_pred(o: InflightCancel) -> spec_fn(ManagedOrder) -> bool {
    |p: ManagedOrder|
        p.client_order_id == o.client_order_id || (p.order_id == o.order_id && p.side == o.side)
}

/// Drops, for each cancel in `removals` in turn, the first tracked cancel
/// that matches it and then the first managed order that matches it; a
/// removal that matches no tracked cancel changes nothing.
pub open spec fn apply_cancel_removals(
    cancels: Seq<InflightCancel>,
    managed: Seq<ManagedOrder>,
    removals: Seq<InflightCancel>,
) -> (Seq<InflightCancel>, Seq<ManagedOrder>)
    decreases removals.len(),
{
    if removals.len() == 0 {
        (cancels, managed)
    } else {
        let prev = apply_cancel_removals(cancels, managed, removals.drop_last());
        let o = removals.last();
        let i = first_index(prev.0, cancel_pred(o));
        if i < 0 {
            prev
        } else {
            let j = first_index(prev.1, managed_cancel_pred(o));
            if j < 0 {
                (prev.0.remove(i), prev.1)
            } else {
                (prev.0.remove(i), prev.1.remove(j))
            }
        }
    }
}

/// Tracking after confirmed or expired cancels are dropped.
pub open spec fn after_cancel_update(s: OrderTracking, book: Seq<Order>, now: u64) -> OrderTracking {
    let r = apply_cancel_removals(s.cancels, s.managed, cancel_removals(s.cancels, book, now));
    OrderTracking { cancels: r.0, managed: r.1, ..s }
}

// ---------------------------------------------------------------------------
// In-flight orders.

/// A book order with the given client order id.
pub open spec fn book_client_pred(client: u64) -> spec_fn(Order) -> bool {
    |p: Order| p.client_order_id == client
}

/// A tracked order with the given client order id.
pub open spec fn managed_client_pred(client: u64) -> spec_fn(ManagedOrder) -> bool {
    |p: ManagedOrder| p.client_order_id == client
}

/// The in-flight orders that the book now shows, each given the order id
/// of the first book order with its client order id; listed once each.
pub open spec fn orders_to_move(inflight: Seq<ManagedOrder>, book: Seq<Order>) -> Seq<ManagedOrder>
    decreases inflight.len(),
{
    if inflight.len() == 0 {
        Seq::empty()
    } else {
        let acc = orders_to_move(inflight.drop_last(), book);
        let o = inflight.last();
        let i = first_index(book, book_client_pred(o.client_order_id));
        if i >= 0 {
            let moved = ManagedOrder { order_id: book[i].order_id, ..o };
            if !acc.contains(moved) {
                acc.push(moved)
            } else {
                acc
            }
        } else {
            acc
        }
    }
}

/// The in-flight orders submitted longer ago than the timeout.
pub open spec fn orders_to_drop(inflight: Seq<ManagedOrder>, now: u64) -> Seq<ManagedOrder>
    decreases inflight.len(),
{
    if inflight.len() == 0 {
        Seq::empty()
    } else {
        let acc = orders_to_drop(inflight.drop_last(), now);
        let o = inflight.last();
        if submission_expired(o.submitted_at, now) {
            acc.push(o)
        } else {
            acc
        }
    }
}

/// For each confirmed order in turn: when an in-flight order has its client
/// order id, the first such is dropped and the confirmed order is appended
/// to the managed orders.
pub open spec fn apply_moves(
    inflight: Seq<ManagedOrder>,
    managed: Seq<ManagedOrder>,
    moves: Seq<ManagedOrder>,
) -> (Seq<ManagedOrder>, Seq<ManagedOrder>)
    decreases moves.len(),
{
    if moves.len() == 0 {
        (inflight, managed)
    } else {
        let prev = apply_moves(inflight, managed, moves.drop_last());
        let o = moves.last();
        let i = first_index(prev.0, managed_client_pred(o.client_order_id));
        if i < 0 {
            prev
        } else {
            (prev.0.remove(i), prev.1.push(o))
        }
    }
}

/// For each expired order in turn, the first in-flight order with its
/// client order id is dropped.
pub open spec fn apply_drops(inflight: Seq<ManagedOrder>, drops: Seq<ManagedOrder>) -> Seq<
    ManagedOrder,
>
    decreases drops.len(),
{
    if drops.len() == 0 {
        inflight
    } else {
        let prev = apply_drops(inflight, drops.drop_last());
        let i = first_index(prev, managed_client_pred(drops.last().client_order_id));
        if i < 0 {
            prev
        } else {
            prev.remove(i)
        }
    }
}

/// Tracking after confirmed in-flight orders become managed and expired
/// ones are dropped.
pub open spec fn after_order_update(s: OrderTracking, book: Seq<Order>, now: u64) -> OrderTracking {
    let moved = apply_moves(s.inflight, s.managed, orders_to_move(s.inflight, book));
    OrderTracking {
        inflight: apply_drops(moved.0, orders_to_drop(s.inflight, now)),
        managed: moved.1,
        ..s
    }
}

// ---------------------------------------------------------------------------
// Synchronisation with the book.

/// A book order taken over at start-up: it keeps its lots, ids and side, and
/// its layer marks it for cancelling.
pub open spec fn adopted_order(o: Order) -> ManagedOrder {
    ManagedOrder {
        price_lots: o.price,
        base_quantity_lots: o.base_quantity,
        quote_quantity_lots: o.quote_quantity,
        price: Fixed { bits: 0 },
        base_quantity: Fixed { bits: 0 },
        max_quote_quantity: Fixed { bits: 0 },
        max_ts: 0,
        submitted_at: 0,
        client_order_id: o.client_order_id,
        order_id: o.order_id,
        side: o.side,
        layer: usize::MAX,
    }
}

/// All book orders, taken over.
pub open spec fn adopt_all(book: Seq<Order>) -> Seq<ManagedOrder>
    decreases book.len(),
{
    if book.len() == 0 {
        Seq::empty()
    } else {
        adopt_all(book.drop_last()).push(adopted_order(book.last()))
    }
}

/// Some book order on the same side has the managed order's order id or
/// client order id.
pub open spec fn managed_on_book(book: Seq<Order>, m: ManagedOrder) -> bool {
    exists|k: int|
        0 <= k < book.len() && ((#[trigger] book[k]).order_id == m.order_id
            || book[k].client_order_id == m.client_order_id) && book[k].side == m.side
}

/// The managed orders that the book still shows, in order.
pub open spec fn keep_on_book(managed: Seq<ManagedOrder>, book: Seq<Order>) -> Seq<ManagedOrder>
    decreases managed.len(),
{
    if managed.len() == 0 {
        Seq::empty()
    } else {
        let acc = keep_on_book(managed.drop_last(), book);
        if managed_on_book(book, managed.last()) {
            acc.push(managed.last())
        } else {
            acc
        }
    }
}

/// Tracking after managed orders are brought in line with the book: with
/// nothing managed, every book order is taken over; otherwise managed
/// orders the book no longer shows are dropped. The book is recorded.
pub open spec fn after_sync(s: OrderTracking, book: Seq<Order>) -> OrderTracking {
    OrderTracking {
        managed: if s.managed.len() == 0 {
            adopt_all(book)
        } else {
            keep_on_book(s.managed, book)
        },
        open: book,
        ..s
    }
}

/// Tracking after a full update from the book.
pub open spec fn after_process_update(s: OrderTracking, book: Seq<Order>, now: u64) -> OrderTracking {
    after_sync(after_order_update(after_cancel_update(s, book, now), book, now), book)
}

/// No tracked submission time is so close to the largest timestamp that
/// adding the timeout overflows.
pub open spec fn timestamps_bounded(s: OrderTracking) -> bool {
    cancel_timestamps_bounded(s) && inflight_timestamps_bounded(s)
}

/// No in-flight cancel's submission time overflows when the timeout is added.
pub open spec fn cancel_timestamps_bounded(s: OrderTracking) -> bool {
    forall|k: int|
        0 <= k < s.cancels.len() ==> #[trigger] s.cancels[k].submitted_at
            <= u64::MAX - INFLIGHT_TIMEOUT_SECS
}

/// No in-flight order's submission time overflows when the timeout is added.
pub open spec fn inflight_timestamps_bounded(s: OrderTracking) -> bool {
    forall|k: int|
        0 <= k < s.inflight.len() ==> #[trigger] s.inflight[k].submitted_at
            <= u64::MAX - INFLIGHT_TIMEOUT_SECS
}

// ---------------------------------------------------------------------------
// Searches.

fn cancel_is_on_book(book: &[Order], c: &InflightCancel) -> (r: bool)
    ensures
        r == cancel_on_book(book@, *c),
{
    for k in 0..book.len()
        invariant
            forall|j: int|
                0 <= j < k ==> !((#[trigger] book@[j]).client_order_id == c.client_order_id
                    || book@[j].order_id == c.order_id),
    {
        if book[k].client_order_id == c.client_order_id || book[k].order_id == c.order_id {
            return true;
        }
    }
    false
}

fn contains_cancel(v: &Vec<InflightCancel>, c: &InflightCancel) -> (r: bool)
    ensures
        r == v@.contains(*c),
{
    for k in 0..v.len()
        invariant
            forall|j: int| 0 <= j < k ==> v@[j] != *c,
    {
        if v[k] == *c {
            return true;
        }
    }
    false
}

fn contains_managed(v: &Vec<ManagedOrder>, c: &ManagedOrder) -> (r: bool)
    ensures
        r == v@.contains(*c),
{
    for k in 0..v.len()
        invariant
            forall|j: int| 0 <= j < k ==> v@[j] != *c,
    {
        if v[k] == *c {
            return true;
        }
    }
    false
}

fn find_cancel(v: &Vec<InflightCancel>, o: &InflightCancel) -> (r: Option<usize>)
    ensures
        match r {
            Some(i) => i < v.len() && i == first_index(v@, cancel_pred(*o)),
            None => first_index(v@, cancel_pred(*o)) == -1,
        },
{
    let ghost p = cancel_pred(*o);
    for k in 0..v.len()
        invariant
            p == cancel_pred(*o),
            forall|j: int| 0 <= j < k ==> !p(#[trigger] v@[j]),
    {
        if v[k].client_order_id == o.client_order_id || (v[k].order_id == o.order_id
            && v[k].side == o.side) {
            proof {
                lemma_first_index_found(v@, p, k as int);
            }
            return Some(k);
        }
    }
    proof {
        lemma_first_index_none(v@, p);
    }
    None
}

fn find_managed_for_cancel(v: &Vec<ManagedOrder>, o: &InflightCancel) -> (r: Option<usize>)
    ensures
        match r {
            Some(i) => i < v.len() && i == first_index(v@, managed_cancel_pred(*o)),
            None => first_index(v@, managed_cancel_pred(*o)) == -1,
        },
{
    let ghost p = managed_cancel_pred(*o);
    for k in 0..v.len()
        invariant
            p == managed_cancel_pred(*o),
            forall|j: int| 0 <= j < k ==> !p(#[trigger] v@[j]),
    {
        if v[k].client_order_id == o.client_order_id || (v[k].order_id == o.order_id
            && v[k].side == o.side) {
            proof {
                lemma_first_index_found(v@, p, k as int);
            }
            return Some(k);
        }
    }
    proof {
        lemma_first_index_none(v@, p);
    }
    None
}

fn find_book_client(book: &[Order], client: u64) -> (r: Option<usize>)
    ensures
        match r {
            Some(i) => i < book.len() && i == first_index(book@, book_client_pred(client)),
            None => first_index(book@, book_client_pred(client)) == -1,
        },
{
    let ghost p = book_client_pred(client);
    for k in 0..book.len()
        invariant
            p == book_client_pred(client),
            forall|j: int| 0 <= j < k ==> !p(#[trigger] book@[j]),
    {
        if book[k].client_order_id == client {
            proof {
                lemma_first_index_found(book@, p, k as int);
            }
            return Some(k);
        }
    }
    proof {
        lemma_first_index_none(book@, p);
    }
    None
}

fn find_managed_client(v: &Vec<ManagedOrder>, client: u64) -> (r: Option<usize>)
    ensures
        match r {
            Some(i) => i < v.len() && i == first_index(v@, managed_client_pred(client)),
            None => first_index(v@, managed_client_pred(client)) == -1,
        },
{
    let ghost p = managed_client_pred(client);
    for k in 0..v.len()
        invariant
            p == managed_client_pred(client),
            forall|j: int| 0 <= j < k ==> !p(#[trigger] v@[j]),
    {
        if v[k].client_order_id == client {
            proof {
                lemma_first_index_found(v@, p, k as int);
            }
            return Some(k);
        }
    }
    proof {
        lemma_first_index_none(v@, p);
    }
    None
}

fn managed_is_on_book(book: &[Order], m: &ManagedOrder) -> (r: bool)
    ensures
        r == managed_on_book(book@, *m),
{
    for k in 0..book.len()
        invariant
            forall|j: int|
                0 <= j < k ==> !(((#[trigger] book@[j]).order_id == m.order_id
                    || book@[j].client_order_id == m.client_order_id) && book@[j].side == m.side),
    {
        if (book[k].order_id == m.order_id || book[k].client_order_id == m.client_order_id)
            && book[k].side == m.side {
            return true;
        }
    }
    false
}

impl OrderManager {
    /// An order manager that tracks nothing.
    pub fn new() -> (r: OrderManager)
        ensures
            r@.managed.len() == 0,
            r@.open.len() == 0,
            r@.inflight.len() == 0,
            r@.cancels.len() == 0,
    {
        OrderManager {
            managed_orders: Vec::new(),
            open_orders: Vec::new(),
            inflight_orders: Vec::new(),
            inflight_cancels: Vec::new(),
        }
    }

    /// Drops the in-flight cancels that the book confirms (no book order has
    /// their client order id or order id) or that have expired, together
    /// with the managed orders they cancel.
    pub fn update_inflight_cancels(&mut self, ctx_open_orders: &[Order], now: u64)
        requires
            cancel_timestamps_bounded(old(self)@),
        ensures
            final(self)@ == after_cancel_update(old(self)@, ctx_open_orders@, now),
    {
        let ghost old_cancels = self.inflight_cancels@;
        let ghost old_managed = self.managed_orders@;
        let mut to_remove: Vec<InflightCancel> = Vec::new();
        let n = self.inflight_cancels.len();
        for i in 0..n
            invariant
                n == self.inflight_cancels.len(),
                self.inflight_cancels@ == old_cancels,
                cancel_timestamps_bounded(self@),
                to_remove@ == cancel_removals(old_cancels.take(i as int), ctx_open_orders@, now),
        {
            let c = self.inflight_cancels[i];
            proof {
                lemma_take_succ(old_cancels, i as int);
            }
            if !cancel_is_on_book(ctx_open_orders, &c) {
                if !contains_cancel(&to_remove, &c) {
                    to_remove.push(c);
                }
            }
            if c.submitted_at + INFLIGHT_TIMEOUT_SECS < now {
                to_remove.push(c);
            }
        }
        proof {
            lemma_take_all(old_cancels);
        }
        let ghost removals = to_remove@;
        if to_remove.len() > 0 {
            let m = to_remove.len();
            for j in 0..m
                invariant
                    m == to_remove.len(),
                    to_remove@ == removals,
                    (self.inflight_cancels@, self.managed_orders@) == apply_cancel_removals(
                        old_cancels,
                        old_managed,
                        removals.take(j as int),
                    ),
                    self.open_orders@ == old(self).open_orders@,
                    self.inflight_orders@ == old(self).inflight_orders@,
            {
                let o = to_remove[j];
                proof {
                    lemma_take_succ(removals, j as int);
                }
                match find_cancel(&self.inflight_cancels, &o) {
                    Some(idx) => {
                        self.inflight_cancels.remove(idx);
                        match find_managed_for_cancel(&self.managed_orders, &o) {
                            Some(k) => {
                                self.managed_orders.remove(k);
                            },
                            None => {},
                        }
                    },
                    None => {},
                }
            }
            proof {
                lemma_take_all(removals);
            }
        } else {
            assert(removals =~= Seq::<InflightCancel>::empty());
        }
    }
}


impl OrderManager {
    /// Moves the in-flight orders that the book confirms (a book order has
    /// their client order id) to the managed orders, with the book's order
    /// id, and drops the in-flight orders that have expired.
    pub fn update_inflight_orders(&mut self, ctx_open_orders: &[Order], now: u64)
        requires
            inflight_timestamps_bounded(old(self)@),
        ensures
            final(self)@ == after_order_update(old(self)@, ctx_open_orders@, now),
    {
        let ghost old_inflight = self.inflight_orders@;
        let ghost old_managed = self.managed_orders@;
        let mut to_move: Vec<ManagedOrder> = Vec::new();
        let mut to_remove: Vec<ManagedOrder> = Vec::new();
        let n = self.inflight_orders.len();
        for i in 0..n
            invariant
                n == self.inflight_orders.len(),
                self.inflight_orders@ == old_inflight,
                inflight_timestamps_bounded(self@),
                to_move@ == orders_to_move(old_inflight.take(i as int), ctx_open_orders@),
                to_remove@ == orders_to_drop(old_inflight.take(i as int), now),
        {
            let o = self.inflight_orders[i];
            proof {
                lemma_take_succ(old_inflight, i as int);
            }
            match find_book_client(ctx_open_orders, o.client_order_id) {
                Some(k) => {
                    let mut order = o;
                    order.order_id = ctx_open_orders[k].order_id;
                    if !contains_managed(&to_move, &order) {
                        to_move.push(order);
                    }
                },
                None => {},
            }
            if o.submitted_at + INFLIGHT_TIMEOUT_SECS < now {
                to_remove.push(o);
            }
        }
        proof {
            lemma_take_all(old_inflight);
        }
        let ghost moves = to_move@;
        let ghost drops = to_remove@;
        let m = to_move.len();
        for j in 0..m
            invariant
                m == to_move.len(),
                to_move@ == moves,
                (self.inflight_orders@, self.managed_orders@) == apply_moves(
                    old_inflight,
                    old_managed,
                    moves.take(j as int),
                ),
                self.open_orders@ == old(self).open_orders@,
                self.inflight_cancels@ == old(self).inflight_cancels@,
        {
            let o = to_move[j];
            proof {
                lemma_take_succ(moves, j as int);
            }
            match find_managed_client(&self.inflight_orders, o.client_order_id) {
                Some(idx) => {
                    self.inflight_orders.remove(idx);
                    self.managed_orders.push(o);
                },
                None => {},
            }
        }
        proof {
            lemma_take_all(moves);
        }
        let ghost after_moves = self.inflight_orders@;
        let d = to_remove.len();
        for j in 0..d
            invariant
                d == to_remove.len(),
                to_remove@ == drops,
                self.inflight_orders@ == apply_drops(after_moves, drops.take(j as int)),
                self.managed_orders@ == apply_moves(old_inflight, old_managed, moves).1,
                self.open_orders@ == old(self).open_orders@,
                self.inflight_cancels@ == old(self).inflight_cancels@,
        {
            let o = to_remove[j];
            proof {
                lemma_take_succ(drops, j as int);
            }
            match find_managed_client(&self.inflight_orders, o.client_order_id) {
                Some(idx) => {
                    self.inflight_orders.remove(idx);
                },
                None => {},
            }
        }
        proof {
            lemma_take_all(drops);
        }
    }

    /// Brings the tracking in line with the book: confirmed or expired
    /// cancels and in-flight orders are settled first; then, with nothing
    /// managed, every book order is taken over (to be cancelled), and
    /// otherwise managed orders the book no longer shows are dropped; the
    /// book's orders are recorded.
    pub fn process_update(&mut self, ctx_open_orders: &[Order], now: u64)
        requires
            timestamps_bounded(old(self)@),
        ensures
            final(self)@ == after_process_update(old(self)@, ctx_open_orders@, now),
    {
        self.update_inflight_cancels(ctx_open_orders, now);
        self.update_inflight_orders(ctx_open_orders, now);
        let ghost before_sync = self@;
        if self.managed_orders.len() == 0 {
            for k in 0..ctx_open_orders.len()
                invariant
                    self.managed_orders@ == adopt_all(ctx_open_orders@.take(k as int)),
                    self.inflight_orders@ == before_sync.inflight,
                    self.inflight_cancels@ == before_sync.cancels,
            {
                let o = ctx_open_orders[k];
                proof {
                    lemma_take_succ(ctx_open_orders@, k as int);
                }
                self.managed_orders.push(
                    ManagedOrder {
                        price_lots: o.price,
                        base_quantity_lots: o.base_quantity,
                        quote_quantity_lots: o.quote_quantity,
                        price: Fixed::zero(),
                        base_quantity: Fixed::zero(),
                        max_quote_quantity: Fixed::zero(),
                        max_ts: 0,
                        submitted_at: 0,
                        client_order_id: o.client_order_id,
                        order_id: o.order_id,
                        side: o.side,
                        layer: usize::MAX,
                    },
                );
            }
            proof {
                lemma_take_all(ctx_open_orders@);
            }
        } else {
            let mut kept: Vec<ManagedOrder> = Vec::new();
            let n = self.managed_orders.len();
            for k in 0..n
                invariant
                    n == self.managed_orders.len(),
                    self.managed_orders@ == before_sync.managed,
                    kept@ == keep_on_book(before_sync.managed.take(k as int), ctx_open_orders@),
            {
                let m = self.managed_orders[k];
                proof {
                    lemma_take_succ(before_sync.managed, k as int);
                }
                if managed_is_on_book(ctx_open_orders, &m) {
                    kept.push(m);
                }
            }
            proof {
                lemma_take_all(before_sync.managed);
            }
            self.managed_orders = kept;
        }
        let mut open: Vec<Order> = Vec::new();
        for k in 0..ctx_open_orders.len()
            invariant
                open@ == ctx_open_orders@.take(k as int),
        {
            open.push(ctx_open_orders[k]);
            proof {
                assert(open@ =~= ctx_open_orders@.take(k + 1));
            }
        }
        proof {
            lemma_take_all(ctx_open_orders@);
        }
        self.open_orders = open;
    }
}

// ---------------------------------------------------------------------------
// Laws of an update.

proof fn lemma_keep_on_book_shown(managed: Seq<ManagedOrder>, book: Seq<Order>)
    ensures
        forall|i: int| 0 <= i < keep_on_book(managed, book).len()
            ==> managed_on_book(book, #[trigger] keep_on_book(managed, book)[i]),
    decreases managed.len(),
{
    if managed.len() > 0 {
        lemma_keep_on_book_shown(managed.drop_last(), book);
        let acc = keep_on_book(managed.drop_last(), book);
        let r = keep_on_book(managed, book);
        assert forall|i: int| 0 <= i < r.len() implies managed_on_book(book, #[trigger] r[i]) by {
            if i < acc.len() {
                assert(r[i] == acc[i]);
            }
        }
    }
}

proof fn lemma_adopt_all_shown(book: Seq<Order>, prefix: int)
    requires
        0 <= prefix <= book.len(),
    ensures
        adopt_all(book.take(prefix)).len() == prefix,
        forall|i: int| 0 <= i < prefix ==> #[trigger] adopt_all(book.take(prefix))[i] == adopted_order(book[i]),
    decreases prefix,
{
    if prefix > 0 {
        lemma_adopt_all_shown(book, prefix - 1);
        assert(book.take(prefix).drop_last() =~= book.take(prefix - 1));
    }
}

proof fn lemma_moves_shrink(inflight: Seq<ManagedOrder>, managed: Seq<ManagedOrder>, moves: Seq<ManagedOrder>)
    ensures
        apply_moves(inflight, managed, moves).0.len() <= inflight.len(),
    decreases moves.len(),
{
    if moves.len() > 0 {
        lemma_moves_shrink(inflight, managed, moves.drop_last());
        let prev = apply_moves(inflight, managed, moves.drop_last());
        crate::seq_util::lemma_first_index_props(prev.0, managed_client_pred(moves.last().client_order_id));
    }
}

proof fn lemma_drops_shrink(inflight: Seq<ManagedOrder>, drops: Seq<ManagedOrder>)
    ensures
        apply_drops(inflight, drops).len() <= inflight.len(),
    decreases drops.len(),
{
    if drops.len() > 0 {
        lemma_drops_shrink(inflight, drops.drop_last());
        let prev = apply_drops(inflight, drops.drop_last());
        crate::seq_util::lemma_first_index_props(prev, managed_client_pred(drops.last().client_order_id));
    }
}

/// After an update from the book, the recorded open orders are the book's,
/// every managed order is one the book shows (on its side, by order id or
/// client order id), and no order has been added to those in flight.
pub proof fn lemma_update_follows_book(s: OrderTracking, book: Seq<Order>, now: u64)
    ensures
        after_process_update(s, book, now).open == book,
        forall|i: int| 0 <= i < after_process_update(s, book, now).managed.len()
            ==> managed_on_book(book, #[trigger] after_process_update(s, book, now).managed[i]),
        after_process_update(s, book, now).inflight.len() <= s.inflight.len(),
{
    let c = after_cancel_update(s, book, now);
    let o = after_order_update(c, book, now);
    let r = after_process_update(s, book, now);
    assert(r == after_sync(o, book));
    if o.managed.len() == 0 {
        lemma_adopt_all_shown(book, book.len() as int);
        assert(book.take(book.len() as int) =~= book);
        assert forall|i: int| 0 <= i < r.managed.len() implies managed_on_book(book, #[trigger] r.managed[i]) by {
            assert(r.managed[i] == adopted_order(book[i]));
            assert(book[i].order_id == r.managed[i].order_id);
        }
    } else {
        lemma_keep_on_book_shown(o.managed, book);
    }
    let moved = apply_moves(c.inflight, c.managed, orders_to_move(c.inflight, book));
    lemma_moves_shrink(c.inflight, c.managed, orders_to_move(c.inflight, book));
    lemma_drops_shrink(moved.0, orders_to_drop(c.inflight, now));
    assert(c.inflight == s.inflight);
}

proof fn lemma_cancel_removals_keep_only(cancels: Seq<InflightCancel>, managed: Seq<ManagedOrder>, removals: Seq<InflightCancel>)
    ensures
        forall|x: InflightCancel| #[trigger] apply_cancel_removals(cancels, managed, removals).0.contains(x)
            ==> cancels.contains(x),
    decreases removals.len(),
{
    if removals.len() > 0 {
        lemma_cancel_removals_keep_only(cancels, managed, removals.drop_last());
        let prev = apply_cancel_removals(cancels, managed, removals.drop_last());
        let i = first_index(prev.0, cancel_pred(removals.last()));
        crate::seq_util::lemma_first_index_props(prev.0, cancel_pred(removals.last()));
        if i >= 0 {
            crate::seq_util::lemma_remove_keeps_only(prev.0, i);
        }
    }
}

proof fn lemma_moves_keep_only(inflight: Seq<ManagedOrder>, managed: Seq<ManagedOrder>, moves: Seq<ManagedOrder>)
    ensures
        forall|x: ManagedOrder| #[trigger] apply_moves(inflight, managed, moves).0.contains(x)
            ==> inflight.contains(x),
    decreases moves.len(),
{
    if moves.len() > 0 {
        lemma_moves_keep_only(inflight, managed, moves.drop_last());
        let prev = apply_moves(inflight, managed, moves.drop_last());
        let i = first_index(prev.0, managed_client_pred(moves.last().client_order_id));
        crate::seq_util::lemma_first_index_props(prev.0, managed_client_pred(moves.last().client_order_id));
        if i >= 0 {
            crate::seq_util::lemma_remove_keeps_only(prev.0, i);
        }
    }
}

proof fn lemma_drops_keep_only(inflight: Seq<ManagedOrder>, drops: Seq<ManagedOrder>)
    ensures
        forall|x: ManagedOrder| #[trigger] apply_drops(inflight, drops).contains(x) ==> inflight.contains(x),
    decreases drops.len(),
{
    if drops.len() > 0 {
        lemma_drops_keep_only(inflight, drops.drop_last());
        let prev = apply_drops(inflight, drops.drop_last());
        let i = first_index(prev, managed_client_pred(drops.last().client_order_id));
        crate::seq_util::lemma_first_index_props(prev, managed_client_pred(drops.last().client_order_id));
        if i >= 0 {
            crate::seq_util::lemma_remove_keeps_only(prev, i);
        }
    }
}

/// An update from the book only settles what was submitted: every cancel
/// and every order still in flight afterwards was in flight before, so
/// submission times that leave room for the timeout keep doing so.
pub proof fn lemma_update_only_settles(s: OrderTracking, book: Seq<Order>, now: u64)
    ensures
        forall|x: InflightCancel| #[trigger] after_process_update(s, book, now).cancels.contains(x)
            ==> s.cancels.contains(x),
        forall|x: ManagedOrder| #[trigger] after_process_update(s, book, now).inflight.contains(x)
            ==> s.inflight.contains(x),
        timestamps_bounded(s) ==> timestamps_bounded(after_process_update(s, book, now)),
{
    let c = after_cancel_update(s, book, now);
    let r = after_process_update(s, book, now);
    lemma_cancel_removals_keep_only(s.cancels, s.managed, cancel_removals(s.cancels, book, now));
    let moved = apply_moves(c.inflight, c.managed, orders_to_move(c.inflight, book));
    lemma_moves_keep_only(c.inflight, c.managed, orders_to_move(c.inflight, book));
    lemma_drops_keep_only(moved.0, orders_to_drop(c.inflight, now));
    assert(r.cancels == c.cancels);
    assert(c.inflight == s.inflight);
    if timestamps_bounded(s) {
        assert forall|k: int| 0 <= k < r.cancels.len() implies #[trigger] r.cancels[k].submitted_at
            <= u64::MAX - INFLIGHT_TIMEOUT_SECS by {
            assert(r.cancels.contains(r.cancels[k]));
            let j = choose|j: int| 0 <= j < s.cancels.len() && s.cancels[j] == r.cancels[k];
            assert(s.cancels[j].submitted_at <= u64::MAX - INFLIGHT_TIMEOUT_SECS);
        }
        assert forall|k: int| 0 <= k < r.inflight.len() implies #[trigger] r.inflight[k].submitted_at
            <= u64::MAX - INFLIGHT_TIMEOUT_SECS by {
            assert(r.inflight.contains(r.inflight[k]));
            let j = choose|j: int| 0 <= j < s.inflight.len() && s.inflight[j] == r.inflight[k];
            assert(s.inflight[j].submitted_at <= u64::MAX - INFLIGHT_TIMEOUT_SECS);
        }
    }
}

/// No two tracked cancels share a client order id, or an order id on the
/// same side.
pub open spec fn cancel_ids_distinct(cancels: Seq<InflightCancel>) -> bool {
    forall|i: int, j: int|
        0 <= i < cancels.len() && 0 <= j < cancels.len() && i != j ==> (#[trigger] cancels[i]).client_order_id
            != (#[trigger] cancels[j]).client_order_id && !(cancels[i].order_id == cancels[j].order_id
            && cancels[i].side == cancels[j].side)
}

proof fn lemma_cancel_removals_members(cancels: Seq<InflightCancel>, book: Seq<Order>, now: u64)
    ensures
        forall|x: InflightCancel|
            #[trigger] cancel_removals(cancels, book, now).contains(x) <==> (cancels.contains(x) && (
            !cancel_on_book(book, x) || submission_expired(x.submitted_at, now))),
    decreases cancels.len(),
{
    if cancels.len() > 0 {
        let init = cancels.drop_last();
        let c = cancels.last();
        lemma_cancel_removals_members(init, book, now);
        let acc = cancel_removals(init, book, now);
        let newly_confirmed = !cancel_on_book(book, c) && !acc.contains(c);
        let acc1 = if newly_confirmed { acc.push(c) } else { acc };
        let all = cancel_removals(cancels, book, now);
        assert(cancels[cancels.len() - 1] == c);
        assert forall|x: InflightCancel| acc.contains(x) implies acc1.contains(x) by {
            let j = choose|j: int| 0 <= j < acc.len() && acc[j] == x;
            assert(acc1[j] == x);
        }
        assert forall|x: InflightCancel| acc1.contains(x) implies all.contains(x) by {
            let j = choose|j: int| 0 <= j < acc1.len() && acc1[j] == x;
            assert(all[j] == x);
        }
        assert forall|x: InflightCancel| #[trigger] all.contains(x) <==> (cancels.contains(x) && (
        !cancel_on_book(book, x) || submission_expired(x.submitted_at, now))) by {
            if all.contains(x) {
                let j = choose|j: int| 0 <= j < all.len() && all[j] == x;
                if j < acc.len() {
                    assert(acc[j] == x);
                    assert(acc.contains(x));
                    let k = choose|k: int| 0 <= k < init.len() && init[k] == x;
                    assert(cancels[k] == x);
                } else {
                    assert(x == c);
                }
            }
            if cancels.contains(x) && (!cancel_on_book(book, x) || submission_expired(
                x.submitted_at,
                now,
            )) {
                let k = choose|k: int| 0 <= k < cancels.len() && cancels[k] == x;
                if k < cancels.len() - 1 {
                    assert(init[k] == x);
                    assert(init.contains(x));
                } else if submission_expired(x.submitted_at, now) {
                    assert(all[all.len() - 1] == x);
                } else if acc.contains(c) {
                } else {
                    assert(acc1[acc.len() as int] == x);
                }
            }
        }
    }
}

/// Two tracked cancels of which one matches the other are the same.
proof fn lemma_distinct_match_is_same(cancels: Seq<InflightCancel>, x: InflightCancel, y: InflightCancel)
    requires
        cancel_ids_distinct(cancels),
        cancels.contains(x),
        cancels.contains(y),
        cancel_pred(x)(y),
    ensures
        x == y,
{
    let a = choose|a: int| 0 <= a < cancels.len() && cancels[a] == x;
    let b = choose|b: int| 0 <= b < cancels.len() && cancels[b] == y;
    if a != b {
        assert(cancels[a].client_order_id != cancels[b].client_order_id);
    }
}

proof fn lemma_remove_distinct(cancels: Seq<InflightCancel>, i: int)
    requires
        cancel_ids_distinct(cancels),
        0 <= i < cancels.len(),
    ensures
        cancel_ids_distinct(cancels.remove(i)),
        forall|x: InflightCancel|
            #[trigger] cancels.remove(i).contains(x) <==> (cancels.contains(x) && x != cancels[i]),
{
    let r = cancels.remove(i);
    cancels.remove_ensures(i);
    assert forall|a: int, b: int|
        0 <= a < r.len() && 0 <= b < r.len() && a != b implies (#[trigger] r[a]).client_order_id
        != (#[trigger] r[b]).client_order_id && !(r[a].order_id == r[b].order_id && r[a].side
        == r[b].side) by {
        let a0 = if a < i { a } else { a + 1 };
        let b0 = if b < i { b } else { b + 1 };
        assert(r[a] == cancels[a0]);
        assert(r[b] == cancels[b0]);
        assert(cancels[a0].client_order_id != cancels[b0].client_order_id);
    }
    assert forall|x: InflightCancel| #[trigger] r.contains(x) <==> (cancels.contains(x) && x
        != cancels[i]) by {
        if r.contains(x) {
            let k = choose|k: int| 0 <= k < r.len() && r[k] == x;
            let k0 = if k < i { k } else { k + 1 };
            assert(r[k] == cancels[k0]);
            assert(k0 != i);
            assert(cancels[k0].client_order_id != cancels[i].client_order_id);
        }
        if cancels.contains(x) && x != cancels[i] {
            let k = choose|k: int| 0 <= k < cancels.len() && cancels[k] == x;
            if k < i {
                assert(r[k] == x);
            } else {
                assert(k != i);
                assert(r[k - 1] == x);
            }
        }
    }
}

proof fn lemma_apply_removals_members(
    cancels: Seq<InflightCancel>,
    managed: Seq<ManagedOrder>,
    removals: Seq<InflightCancel>,
)
    requires
        cancel_ids_distinct(cancels),
        forall|x: InflightCancel| #[trigger] removals.contains(x) ==> cancels.contains(x),
    ensures
        cancel_ids_distinct(apply_cancel_removals(cancels, managed, removals).0),
        forall|x: InflightCancel|
            #[trigger] apply_cancel_removals(cancels, managed, removals).0.contains(x) <==> (
            cancels.contains(x) && !removals.contains(x)),
    decreases removals.len(),
{
    if removals.len() > 0 {
        let init = removals.drop_last();
        let o = removals.last();
        assert forall|x: InflightCancel| #[trigger] init.contains(x) implies cancels.contains(x) by {
            let j = choose|j: int| 0 <= j < init.len() && init[j] == x;
            assert(removals[j] == x);
            assert(removals.contains(x));
        }
        assert(removals[removals.len() - 1] == o);
        assert(removals.contains(o));
        lemma_apply_removals_members(cancels, managed, init);
        let prev = apply_cancel_removals(cancels, managed, init);
        let pr = cancel_pred(o);
        crate::seq_util::lemma_first_index_props(prev.0, pr);
        let i = first_index(prev.0, pr);
        let res = apply_cancel_removals(cancels, managed, removals);
        assert forall|x: InflightCancel| #[trigger] removals.contains(x) <==> (init.contains(x) || x == o) by {
            if removals.contains(x) {
                let j = choose|j: int| 0 <= j < removals.len() && removals[j] == x;
                if j < removals.len() - 1 {
                    assert(init[j] == x);
                }
            }
            if init.contains(x) {
                let j = choose|j: int| 0 <= j < init.len() && init[j] == x;
                assert(removals[j] == x);
            }
        }
        if i >= 0 {
            assert(prev.0.contains(prev.0[i]));
            lemma_distinct_match_is_same(cancels, o, prev.0[i]);
            lemma_remove_distinct(prev.0, i);
        } else {
            if prev.0.contains(o) {
                let k = choose|k: int| 0 <= k < prev.0.len() && prev.0[k] == o;
                assert(pr(prev.0[k]));
            }
        }
    }
}

/// An update settles exactly the confirmed and the expired cancels: while
/// tracked cancels have distinct client order ids (and distinct order ids on
/// a side), a cancel is still tracked afterwards exactly when it was tracked
/// before, the book still shows an order with its client order id or its
/// order id, and it was submitted no more than the timeout before `now`.
pub proof fn lemma_update_settles_cancels(s: OrderTracking, book: Seq<Order>, now: u64)
    requires
        cancel_ids_distinct(s.cancels),
    ensures
        forall|x: InflightCancel|
            #[trigger] after_process_update(s, book, now).cancels.contains(x) <==> (s.cancels.contains(x)
                && (exists|k: int|
                0 <= k < book.len() && ((#[trigger] book[k]).client_order_id == x.client_order_id
                    || book[k].order_id == x.order_id)) && x.submitted_at + INFLIGHT_TIMEOUT_SECS
                >= now),
{
    let removals = cancel_removals(s.cancels, book, now);
    lemma_cancel_removals_members(s.cancels, book, now);
    lemma_apply_removals_members(s.cancels, s.managed, removals);
    let c = after_cancel_update(s, book, now);
    let r = after_process_update(s, book, now);
    assert(r.cancels == c.cancels);
}

/// No two in-flight orders share a client order id.
pub open spec fn inflight_clients_distinct(inflight: Seq<ManagedOrder>) -> bool {
    forall|i: int, j: int|
        0 <= i < inflight.len() && 0 <= j < inflight.len() && i != j ==> (#[trigger] inflight[i]).client_order_id
            != (#[trigger] inflight[j]).client_order_id
}

spec fn without_client(s: Seq<ManagedOrder>, c: u64) -> Seq<ManagedOrder> {
    let i = first_index(s, managed_client_pred(c));
    if i < 0 {
        s
    } else {
        s.remove(i)
    }
}

proof fn lemma_remove_client(s: Seq<ManagedOrder>, c: u64)
    requires
        inflight_clients_distinct(s),
    ensures
        inflight_clients_distinct(without_client(s, c)),
        forall|x: ManagedOrder| #[trigger] without_client(s, c).contains(x) <==> (s.contains(x)
            && x.client_order_id != c),
{
    let pr = managed_client_pred(c);
    crate::seq_util::lemma_first_index_props(s, pr);
    let i = first_index(s, pr);
    if i < 0 {
        assert forall|x: ManagedOrder| s.contains(x) implies x.client_order_id != c by {
            let k = choose|k: int| 0 <= k < s.len() && s[k] == x;
            assert(!pr(s[k]));
        }
    } else {
        let r = s.remove(i);
        assert(without_client(s, c) == r);
        s.remove_ensures(i);
        assert(pr(s[i]));
        assert forall|a: int, b: int|
            0 <= a < r.len() && 0 <= b < r.len() && a != b implies (#[trigger] r[a]).client_order_id
            != (#[trigger] r[b]).client_order_id by {
            let a0 = if a < i { a } else { a + 1 };
            let b0 = if b < i { b } else { b + 1 };
            assert(r[a] == s[a0]);
            assert(r[b] == s[b0]);
        }
        assert forall|x: ManagedOrder| #[trigger] r.contains(x) <==> (s.contains(x) && x.client_order_id
            != c) by {
            if r.contains(x) {
                let k = choose|k: int| 0 <= k < r.len() && r[k] == x;
                let k0 = if k < i { k } else { k + 1 };
                assert(r[k] == s[k0]);
                assert(s[k0].client_order_id != s[i].client_order_id);
            }
            if s.contains(x) && x.client_order_id != c {
                let k = choose|k: int| 0 <= k < s.len() && s[k] == x;
                if k < i {
                    assert(r[k] == x);
                } else {
                    assert(k != i);
                    assert(r[k - 1] == x);
                }
            }
        }
    }
}

/// No element of `s` has the client order id.
spec fn clients_avoid(s: Seq<ManagedOrder>, c: u64) -> bool {
    forall|k: int| 0 <= k < s.len() ==> (#[trigger] s[k]).client_order_id != c
}

proof fn lemma_clients_avoid_step(s: Seq<ManagedOrder>, c: u64)
    requires
        s.len() > 0,
    ensures
        clients_avoid(s, c) <==> (clients_avoid(s.drop_last(), c) && s.last().client_order_id != c),
{
    if clients_avoid(s.drop_last(), c) && s.last().client_order_id != c {
        assert forall|k: int| 0 <= k < s.len() implies (#[trigger] s[k]).client_order_id != c by {
            if k < s.len() - 1 {
                assert(s.drop_last()[k] == s[k]);
            }
        }
    }
    if clients_avoid(s, c) {
        assert forall|k: int| 0 <= k < s.drop_last().len() implies (#[trigger] s.drop_last()[k]).client_order_id
            != c by {
            assert(s.drop_last()[k] == s[k]);
        }
        assert(s[s.len() - 1] == s.last());
    }
}

proof fn lemma_apply_moves_members(
    inflight: Seq<ManagedOrder>,
    managed: Seq<ManagedOrder>,
    moves: Seq<ManagedOrder>,
)
    requires
        inflight_clients_distinct(inflight),
    ensures
        inflight_clients_distinct(apply_moves(inflight, managed, moves).0),
        forall|x: ManagedOrder|
            #[trigger] apply_moves(inflight, managed, moves).0.contains(x) <==> (inflight.contains(x)
                && clients_avoid(moves, x.client_order_id)),
    decreases moves.len(),
{
    if moves.len() > 0 {
        let init = moves.drop_last();
        let o = moves.last();
        lemma_apply_moves_members(inflight, managed, init);
        let prev = apply_moves(inflight, managed, init);
        lemma_remove_client(prev.0, o.client_order_id);
        let res = apply_moves(inflight, managed, moves);
        assert(res.0 == without_client(prev.0, o.client_order_id));
        assert forall|x: ManagedOrder| #[trigger] res.0.contains(x) <==> (inflight.contains(x)
            && clients_avoid(moves, x.client_order_id)) by {
            lemma_clients_avoid_step(moves, x.client_order_id);
        }
    }
}

proof fn lemma_apply_drops_members(inflight: Seq<ManagedOrder>, drops: Seq<ManagedOrder>)
    requires
        inflight_clients_distinct(inflight),
    ensures
        inflight_clients_distinct(apply_drops(inflight, drops)),
        forall|x: ManagedOrder|
            #[trigger] apply_drops(inflight, drops).contains(x) <==> (inflight.contains(x)
                && clients_avoid(drops, x.client_order_id)),
    decreases drops.len(),
{
    if drops.len() > 0 {
        let init = drops.drop_last();
        let o = drops.last();
        lemma_apply_drops_members(inflight, init);
        let prev = apply_drops(inflight, init);
        lemma_remove_client(prev, o.client_order_id);
        let res = apply_drops(inflight, drops);
        assert(res == without_client(prev, o.client_order_id));
        assert forall|x: ManagedOrder| #[trigger] res.contains(x) <==> (inflight.contains(x)
            && clients_avoid(drops, x.client_order_id)) by {
            lemma_clients_avoid_step(drops, x.client_order_id);
        }
    }
}

spec fn has_client(s: Seq<ManagedOrder>, c: u64) -> bool {
    exists|k: int| 0 <= k < s.len() && (#[trigger] s[k]).client_order_id == c
}

spec fn book_has_client(book: Seq<Order>, c: u64) -> bool {
    exists|b: int| 0 <= b < book.len() && (#[trigger] book[b]).client_order_id == c
}

proof fn lemma_orders_to_move_clients(inflight: Seq<ManagedOrder>, book: Seq<Order>)
    ensures
        forall|c: u64|
            #[trigger] has_client(orders_to_move(inflight, book), c) <==> (has_client(inflight, c)
                && book_has_client(book, c)),
    decreases inflight.len(),
{
    if inflight.len() > 0 {
        let init = inflight.drop_last();
        let o = inflight.last();
        lemma_orders_to_move_clients(init, book);
        let acc = orders_to_move(init, book);
        let all = orders_to_move(inflight, book);
        let pr = book_client_pred(o.client_order_id);
        crate::seq_util::lemma_first_index_props(book, pr);
        let bi = first_index(book, pr);
        assert(inflight[inflight.len() - 1] == o);
        assert forall|c: u64| #[trigger] has_client(all, c) <==> (has_client(inflight, c)
            && book_has_client(book, c)) by {
            if has_client(all, c) {
                let k = choose|k: int| 0 <= k < all.len() && (#[trigger] all[k]).client_order_id == c;
                if k < acc.len() {
                    assert(acc[k] == all[k]);
                    assert(has_client(acc, c));
                    let j = choose|j: int| 0 <= j < init.len() && (#[trigger] init[j]).client_order_id == c;
                    assert(inflight[j] == init[j]);
                } else {
                    assert(all[k].client_order_id == o.client_order_id);
                    assert(pr(book[bi]));
                }
            }
            if has_client(inflight, c) && book_has_client(book, c) {
                let k = choose|k: int| 0 <= k < inflight.len() && (#[trigger] inflight[k]).client_order_id == c;
                let b = choose|b: int| 0 <= b < book.len() && (#[trigger] book[b]).client_order_id == c;
                if k < inflight.len() - 1 {
                    assert(init[k] == inflight[k]);
                    assert(has_client(init, c));
                    assert(has_client(acc, c));
                    let j = choose|j: int| 0 <= j < acc.len() && (#[trigger] acc[j]).client_order_id == c;
                    assert(all[j] == acc[j]);
                } else {
                    assert(pr(book[b]));
                    let moved = ManagedOrder { order_id: book[bi].order_id, ..o };
                    if acc.contains(moved) {
                        let j = choose|j: int| 0 <= j < acc.len() && acc[j] == moved;
                        assert(all[j] == acc[j]);
                    } else {
                        assert(all[acc.len() as int] == moved);
                    }
                }
            }
        }
    }
}

proof fn lemma_orders_to_drop_members(inflight: Seq<ManagedOrder>, now: u64)
    ensures
        forall|x: ManagedOrder|
            #[trigger] orders_to_drop(inflight, now).contains(x) <==> (inflight.contains(x)
                && submission_expired(x.submitted_at, now)),
    decreases inflight.len(),
{
    if inflight.len() > 0 {
        let init = inflight.drop_last();
        let o = inflight.last();
        lemma_orders_to_drop_members(init, now);
        let acc = orders_to_drop(init, now);
        let all = orders_to_drop(inflight, now);
        assert(inflight[inflight.len() - 1] == o);
        assert(all == if submission_expired(o.submitted_at, now) { acc.push(o) } else { acc });
        assert forall|x: ManagedOrder| #[trigger] all.contains(x) <==> (inflight.contains(x)
            && submission_expired(x.submitted_at, now)) by {
            if all.contains(x) {
                let j = choose|j: int| 0 <= j < all.len() && all[j] == x;
                if j < acc.len() {
                    assert(acc[j] == x);
                    assert(acc.contains(x));
                    let k = choose|k: int| 0 <= k < init.len() && init[k] == x;
                    assert(inflight[k] == x);
                } else {
                    assert(x == o);
                }
            }
            if inflight.contains(x) && submission_expired(x.submitted_at, now) {
                let k = choose|k: int| 0 <= k < inflight.len() && inflight[k] == x;
                if k < inflight.len() - 1 {
                    assert(init[k] == x);
                    assert(init.contains(x));
                    assert(acc.contains(x));
                    let j = choose|j: int| 0 <= j < acc.len() && acc[j] == x;
                    assert(all[j] == x);
                } else {
                    assert(all[acc.len() as int] == x);
                }
            }
        }
    }
}

/// An update settles exactly the confirmed and the expired orders in
/// flight: while in-flight orders have distinct client order ids, an order
/// is still in flight afterwards exactly when it was in flight before, the
/// book shows no order with its client order id, and it was submitted no
/// more than the timeout before `now`.
pub proof fn lemma_update_settles_inflight_orders(s: OrderTracking, book: Seq<Order>, now: u64)
    requires
        inflight_clients_distinct(s.inflight),
    ensures
        forall|x: ManagedOrder|
            #[trigger] after_process_update(s, book, now).inflight.contains(x) <==> (s.inflight.contains(x)
                && !(exists|k: int|
                0 <= k < book.len() && (#[trigger] book[k]).client_order_id == x.client_order_id)
                && x.submitted_at + INFLIGHT_TIMEOUT_SECS >= now),
{
    let c = after_cancel_update(s, book, now);
    assert(c.inflight == s.inflight);
    let moves = orders_to_move(s.inflight, book);
    let drops = orders_to_drop(s.inflight, now);
    lemma_apply_moves_members(s.inflight, c.managed, moves);
    let moved = apply_moves(s.inflight, c.managed, moves);
    lemma_apply_drops_members(moved.0, drops);
    lemma_orders_to_move_clients(s.inflight, book);
    lemma_orders_to_drop_members(s.inflight, now);
    let r = after_process_update(s, book, now);
    assert(r.inflight == apply_drops(moved.0, drops));
    assert forall|x: ManagedOrder| #[trigger] r.inflight.contains(x) <==> (s.inflight.contains(x)
        && !(exists|k: int| 0 <= k < book.len() && (#[trigger] book[k]).client_order_id == x.client_order_id)
        && x.submitted_at + INFLIGHT_TIMEOUT_SECS >= now) by {
        if s.inflight.contains(x) {
            let kx = choose|k: int| 0 <= k < s.inflight.len() && s.inflight[k] == x;
            let cx = x.client_order_id;
            assert(s.inflight[kx].client_order_id == cx);
            assert(has_client(s.inflight, cx));
            assert(has_client(moves, cx) <==> book_has_client(book, cx));
            assert(clients_avoid(moves, cx) <==> !has_client(moves, cx));
            // the only in-flight order with x's client order id is x
            assert(clients_avoid(drops, cx) <==> !submission_expired(x.submitted_at, now)) by {
                if !clients_avoid(drops, cx) {
                    let k = choose|k: int| 0 <= k < drops.len() && !((#[trigger] drops[k]).client_order_id != cx);
                    assert(drops.contains(drops[k]));
                    let j = choose|j: int| 0 <= j < s.inflight.len() && s.inflight[j] == drops[k];
                    if j != kx {
                        assert(s.inflight[j].client_order_id != s.inflight[kx].client_order_id);
                    }
                }
                if submission_expired(x.submitted_at, now) {
                    assert(drops.contains(x));
                    let k = choose|k: int| 0 <= k < drops.len() && drops[k] == x;
                    assert(drops[k].client_order_id == cx);
                }
            }
        }
    }
}

} // verus!
