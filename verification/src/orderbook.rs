//! The per-ticker matching engine.
//!
//! Resting orders live in two queues kept sorted by price-time priority with
//! the best order first; cancels are tombstones in a lazily-consumed set.
//! The exact effect of every request — the fused log stream it emits and the
//! queues it leaves behind — is given by the spec functions [`match_buy`],
//! [`match_sell`], [`handle_buy_spec`], [`handle_sell_spec`] and
//! [`cancel_spec_logs`], and `handle_request` is proved to realise them.

use vstd::prelude::*;
use std::collections::HashSet;
use crate::common::{Direction, LimitOrMarket, OrderId, Price, Size, Ticker, TimeInForce};
use crate::event::{EventV, OrderAddedV, OrderExecutedV, OrderRemoved};
use crate::order::{buy_better, sell_better, BuyOrder, SellOrder};
use crate::orderbook_types::{
    logs_view, CancelOrderRequest, NewOrderRequest, OrderDeadResponse, OrderFillResponse,
    OrderbookLog, OrderbookLogV, OrderbookRequest, OrderResponse, OrderResponseV,
};

verus! {

broadcast use vstd::std_specs::hash::group_hash_axioms;

/// No later order is strictly better: the queue pops in priority order.
pub open spec fn buys_sorted(s: Seq<BuyOrder>) -> bool {
    forall|i: int, j: int| 0 <= i < j < s.len() ==> !buy_better(s[j], s[i])
}

/// No later order is strictly better: the queue pops in priority order.
pub open spec fn sells_sorted(s: Seq<SellOrder>) -> bool {
    forall|i: int, j: int| 0 <= i < j < s.len() ==> !sell_better(s[j], s[i])
}

/// The two logs recording one side of a trade: the owner's fill, then the
/// market's execution event.
pub open spec fn trade_logs(
    ticker: Seq<char>,
    order_id: OrderId,
    fill_size: Size,
    fill_price: Price,
) -> Seq<OrderbookLogV> {
    seq![
        OrderbookLogV::OrderLog(
            OrderResponseV::OrderFill(OrderFillResponse { order_id, fill_size, fill_price }),
        ),
        OrderbookLogV::EventLog(
            EventV::OrderExecuted(
                OrderExecutedV {
                    order_id,
                    ticker,
                    execution_size: fill_size,
                    execution_price: fill_price,
                },
            ),
        ),
    ]
}

/// The log telling an order's owner that the order is gone.
pub open spec fn dead_log(order_id: OrderId) -> Seq<OrderbookLogV> {
    seq![OrderbookLogV::OrderLog(OrderResponseV::OrderDead(OrderDeadResponse { order_id }))]
}

/// The event recording that the remainder of a request now rests on the book.
pub open spec fn added_log(ticker: Seq<char>, req: NewOrderRequest, left: Size) -> Seq<
    OrderbookLogV,
> {
    seq![
        OrderbookLogV::EventLog(
            EventV::OrderAdded(
                OrderAddedV {
                    order_id: req.order_id,
                    ticker,
                    direction: req.direction,
                    resting_size: left,
                    limit_price: req.price,
                },
            ),
        ),
    ]
}

/// The two logs a cancel emits, in this order.
pub open spec fn cancel_spec_logs(order_id: OrderId) -> Seq<OrderbookLogV> {
    seq![
        OrderbookLogV::OrderLog(OrderResponseV::OrderDead(OrderDeadResponse { order_id })),
        OrderbookLogV::EventLog(EventV::OrderRemoved(OrderRemoved { order_id })),
    ]
}

/// Result of matching an incoming buy against the sell queue.
#[verifier::ext_equal]
pub struct BuyMatch {
    pub logs: Seq<OrderbookLogV>,
    pub sells: Seq<SellOrder>,
    pub deleted: Set<OrderId>,
    pub left: Size,
}

/// Result of matching an incoming sell against the buy queue.
#[verifier::ext_equal]
pub struct SellMatch {
    pub logs: Seq<OrderbookLogV>,
    pub buys: Seq<BuyOrder>,
    pub deleted: Set<OrderId>,
    pub left: Size,
}

/// Matching of an incoming buy with `left` shares still unfilled against the
/// sell queue `sells` (best first): tombstoned entries at the front are
/// discarded together with their tombstones; a live best priced above the
/// buyer's limit stops matching; otherwise a trade of the smaller of the two
/// sizes happens at the maker's price, the maker's logs preceding the taker's.
pub open spec fn match_buy(
    ticker: Seq<char>,
    sells: Seq<SellOrder>,
    deleted: Set<OrderId>,
    req: NewOrderRequest,
    left: Size,
) -> BuyMatch
    decreases sells.len(), left,
{
    if left == 0 || sells.len() == 0 {
        BuyMatch { logs: seq![], sells, deleted, left }
    } else {
        let best = sells[0];
        if deleted.contains(best.order_id) {
            match_buy(ticker, sells.drop_first(), deleted.remove(best.order_id), req, left)
        } else if best.price > req.price {
            BuyMatch { logs: seq![], sells, deleted, left }
        } else if left < best.size {
            // the taker is exhausted; the maker rests on with its priority kept
            let maker = SellOrder {
                order_id: best.order_id,
                size: (best.size - left) as Size,
                price: best.price,
                timestamp: best.timestamp,
            };
            BuyMatch {
                logs: trade_logs(ticker, best.order_id, left, best.price) + trade_logs(
                    ticker,
                    req.order_id,
                    left,
                    best.price,
                ),
                sells: sells.update(0, maker),
                deleted,
                left: 0,
            }
        } else {
            // the maker is fully filled and leaves the book
            let m = match_buy(ticker, sells.drop_first(), deleted, req, (left - best.size) as Size);
            BuyMatch {
                logs: trade_logs(ticker, best.order_id, best.size, best.price) + dead_log(
                    best.order_id,
                ) + trade_logs(ticker, req.order_id, best.size, best.price) + m.logs,
                sells: m.sells,
                deleted: m.deleted,
                left: m.left,
            }
        }
    }
}

/// Mirror of [`match_buy`] for an incoming sell against the buy queue: a live
/// best priced below the seller's limit stops matching.
pub open spec fn match_sell(
    ticker: Seq<char>,
    buys: Seq<BuyOrder>,
    deleted: Set<OrderId>,
    req: NewOrderRequest,
    left: Size,
) -> SellMatch
    decreases buys.len(), left,
{
    if left == 0 || buys.len() == 0 {
        SellMatch { logs: seq![], buys, deleted, left }
    } else {
        let best = buys[0];
        if deleted.contains(best.order_id) {
            match_sell(ticker, buys.drop_first(), deleted.remove(best.order_id), req, left)
        } else if best.price < req.price {
            SellMatch { logs: seq![], buys, deleted, left }
        } else if left < best.size {
            let maker = BuyOrder {
                order_id: best.order_id,
                size: (best.size - left) as Size,
                price: best.price,
                timestamp: best.timestamp,
            };
            SellMatch {
                logs: trade_logs(ticker, best.order_id, left, best.price) + trade_logs(
                    ticker,
                    req.order_id,
                    left,
                    best.price,
                ),
                buys: buys.update(0, maker),
                deleted,
                left: 0,
            }
        } else {
            let m = match_sell(ticker, buys.drop_first(), deleted, req, (left - best.size) as Size);
            SellMatch {
                logs: trade_logs(ticker, best.order_id, best.size, best.price) + dead_log(
                    best.order_id,
                ) + trade_logs(ticker, req.order_id, best.size, best.price) + m.logs,
                buys: m.buys,
                deleted: m.deleted,
                left: m.left,
            }
        }
    }
}

/// Index at which a new buy order enters the queue: behind every order at
/// least as good, in front of the first strictly worse one.
pub open spec fn buy_insert_pos(s: Seq<BuyOrder>, o: BuyOrder) -> int
    decreases s.len(),
{
    if s.len() == 0 {
        0
    } else if buy_better(o, s[0]) {
        0int
    } else {
        1 + buy_insert_pos(s.drop_first(), o)
    }
}

/// Index at which a new sell order enters the queue.
pub open spec fn sell_insert_pos(s: Seq<SellOrder>, o: SellOrder) -> int
    decreases s.len(),
{
    if s.len() == 0 {
        0
    } else if sell_better(o, s[0]) {
        0int
    } else {
        1 + sell_insert_pos(s.drop_first(), o)
    }
}

pub open spec fn insert_buy(s: Seq<BuyOrder>, o: BuyOrder) -> Seq<BuyOrder> {
    s.insert(buy_insert_pos(s, o), o)
}

pub open spec fn insert_sell(s: Seq<SellOrder>, o: SellOrder) -> Seq<SellOrder> {
    s.insert(sell_insert_pos(s, o), o)
}

/// Full effect of a new buy order: match, then either rest the remainder (a
/// limit day order with shares left) or declare the taker dead.
pub open spec fn handle_buy_spec(
    ticker: Seq<char>,
    buys: Seq<BuyOrder>,
    sells: Seq<SellOrder>,
    deleted: Set<OrderId>,
    req: NewOrderRequest,
) -> (Seq<OrderbookLogV>, Seq<BuyOrder>, Seq<SellOrder>, Set<OrderId>) {
    let m = match_buy(ticker, sells, deleted, req, req.size);
    if m.left > 0 && req.limit_or_market == LimitOrMarket::Limit && req.time_in_force
        == TimeInForce::Day {
        let o = BuyOrder {
            order_id: req.order_id,
            size: m.left,
            price: req.price,
            timestamp: req.timestamp,
        };
        (m.logs + added_log(ticker, req, m.left), insert_buy(buys, o), m.sells, m.deleted)
    } else {
        (m.logs + dead_log(req.order_id), buys, m.sells, m.deleted)
    }
}

/// Full effect of a new sell order.
pub open spec fn handle_sell_spec(
    ticker: Seq<char>,
    buys: Seq<BuyOrder>,
    sells: Seq<SellOrder>,
    deleted: Set<OrderId>,
    req: NewOrderRequest,
) -> (Seq<OrderbookLogV>, Seq<BuyOrder>, Seq<SellOrder>, Set<OrderId>) {
    let m = match_sell(ticker, buys, deleted, req, req.size);
    if m.left > 0 && req.limit_or_market == LimitOrMarket::Limit && req.time_in_force
        == TimeInForce::Day {
        let o = SellOrder {
            order_id: req.order_id,
            size: m.left,
            price: req.price,
            timestamp: req.timestamp,
        };
        (m.logs + added_log(ticker, req, m.left), m.buys, insert_sell(sells, o), m.deleted)
    } else {
        (m.logs + dead_log(req.order_id), m.buys, sells, m.deleted)
    }
}

/// Discard tombstoned entries from the front of the buy queue, consuming
/// their tombstones, until a live order (or the end) is reached.
pub open spec fn gc_buys(buys: Seq<BuyOrder>, deleted: Set<OrderId>) -> (Seq<BuyOrder>, Set<
    OrderId,
>)
    decreases buys.len(),
{
    if buys.len() == 0 {
        (buys, deleted)
    } else if deleted.contains(buys[0].order_id) {
        gc_buys(buys.drop_first(), deleted.remove(buys[0].order_id))
    } else {
        (buys, deleted)
    }
}

/// Discard tombstoned entries from the front of the sell queue.
pub open spec fn gc_sells(sells: Seq<SellOrder>, deleted: Set<OrderId>) -> (Seq<SellOrder>, Set<
    OrderId,
>)
    decreases sells.len(),
{
    if sells.len() == 0 {
        (sells, deleted)
    } else if deleted.contains(sells[0].order_id) {
        gc_sells(sells.drop_first(), deleted.remove(sells[0].order_id))
    } else {
        (sells, deleted)
    }
}

pub proof fn lemma_buy_pos_bounds(s: Seq<BuyOrder>, o: BuyOrder)
    ensures
        0 <= buy_insert_pos(s, o) <= s.len(),
        forall|k: int| 0 <= k < buy_insert_pos(s, o) ==> !buy_better(o, s[k]),
        buy_insert_pos(s, o) < s.len() ==> buy_better(o, s[buy_insert_pos(s, o)]),
    decreases s.len(),
{
    if s.len() > 0 && !buy_better(o, s[0]) {
        lemma_buy_pos_bounds(s.drop_first(), o);
        assert forall|k: int| 0 <= k < buy_insert_pos(s, o) implies !buy_better(o, s[k]) by {
            if k > 0 {
                assert(s.drop_first()[k - 1] == s[k]);
            }
        }
        if buy_insert_pos(s, o) < s.len() {
            assert(s.drop_first()[buy_insert_pos(s.drop_first(), o)] == s[buy_insert_pos(s, o)]);
        }
    }
}

pub proof fn lemma_sell_pos_bounds(s: Seq<SellOrder>, o: SellOrder)
    ensures
        0 <= sell_insert_pos(s, o) <= s.len(),
        forall|k: int| 0 <= k < sell_insert_pos(s, o) ==> !sell_better(o, s[k]),
        sell_insert_pos(s, o) < s.len() ==> sell_better(o, s[sell_insert_pos(s, o)]),
    decreases s.len(),
{
    if s.len() > 0 && !sell_better(o, s[0]) {
        lemma_sell_pos_bounds(s.drop_first(), o);
        assert forall|k: int| 0 <= k < sell_insert_pos(s, o) implies !sell_better(o, s[k]) by {
            if k > 0 {
                assert(s.drop_first()[k - 1] == s[k]);
            }
        }
        if sell_insert_pos(s, o) < s.len() {
            assert(s.drop_first()[sell_insert_pos(s.drop_first(), o)] == s[sell_insert_pos(s, o)]);
        }
    }
}

pub proof fn lemma_insert_buy_sorted(s: Seq<BuyOrder>, o: BuyOrder)
    requires
        buys_sorted(s),
    ensures
        buys_sorted(insert_buy(s, o)),
{
    lemma_buy_pos_bounds(s, o);
    let p = buy_insert_pos(s, o);
    let t = insert_buy(s, o);
    assert forall|i: int, j: int| 0 <= i < j < t.len() implies !buy_better(t[j], t[i]) by {
        if i < p {
            assert(t[i] == s[i]);
        }
        if j < p {
            assert(t[j] == s[j]);
        }
        if i > p {
            assert(t[i] == s[i - 1]);
        }
        if j > p {
            assert(t[j] == s[j - 1]);
        }
        if i == p && j > p {
            // everything from position p on was not better than s[p], and o beats s[p]
            assert(!buy_better(s[j - 1], s[p]));
        }
    }
}

pub proof fn lemma_insert_sell_sorted(s: Seq<SellOrder>, o: SellOrder)
    requires
        sells_sorted(s),
    ensures
        sells_sorted(insert_sell(s, o)),
{
    lemma_sell_pos_bounds(s, o);
    let p = sell_insert_pos(s, o);
    let t = insert_sell(s, o);
    assert forall|i: int, j: int| 0 <= i < j < t.len() implies !sell_better(t[j], t[i]) by {
        if i < p {
            assert(t[i] == s[i]);
        }
        if j < p {
            assert(t[j] == s[j]);
        }
        if i > p {
            assert(t[i] == s[i - 1]);
        }
        if j > p {
            assert(t[j] == s[j - 1]);
        }
        if i == p && j > p {
            assert(!sell_better(s[j - 1], s[p]));
        }
    }
}

fn is_buy_better(a: &BuyOrder, b: &BuyOrder) -> (r: bool)
    ensures
        r == buy_better(*a, *b),
{
    a.price > b.price || (a.price == b.price && a.timestamp < b.timestamp)
}

fn is_sell_better(a: &SellOrder, b: &SellOrder) -> (r: bool)
    ensures
        r == sell_better(*a, *b),
{
    a.price < b.price || (a.price == b.price && a.timestamp < b.timestamp)
}

fn vec_insert_buy(v: &mut Vec<BuyOrder>, o: BuyOrder)
    requires
        buys_sorted(old(v)@),
    ensures
        final(v)@ == insert_buy(old(v)@, o),
        buys_sorted(final(v)@),
{
    let mut i: usize = 0;
    loop
        invariant
            0 <= i <= v@.len(),
            v@ == old(v)@,
            forall|k: int| 0 <= k < i ==> !buy_better(o, v@[k]),
        ensures
            0 <= i <= v@.len(),
            v@ == old(v)@,
            forall|k: int| 0 <= k < i ==> !buy_better(o, v@[k]),
            i == v@.len() || buy_better(o, v@[i as int]),
        decreases v@.len() - i,
    {
        if i == v.len() {
            break;
        }
        if is_buy_better(&o, &v[i]) {
            break;
        }
        i = i + 1;
    }
    proof {
        lemma_buy_pos_at(v@, o, i as int);
    }
    v.insert(i, o);
    proof {
        lemma_insert_buy_sorted(old(v)@, o);
    }
}

fn vec_insert_sell(v: &mut Vec<SellOrder>, o: SellOrder)
    requires
        sells_sorted(old(v)@),
    ensures
        final(v)@ == insert_sell(old(v)@, o),
        sells_sorted(final(v)@),
{
    let mut i: usize = 0;
    loop
        invariant
            0 <= i <= v@.len(),
            v@ == old(v)@,
            forall|k: int| 0 <= k < i ==> !sell_better(o, v@[k]),
        ensures
            0 <= i <= v@.len(),
            v@ == old(v)@,
            forall|k: int| 0 <= k < i ==> !sell_better(o, v@[k]),
            i == v@.len() || sell_better(o, v@[i as int]),
        decreases v@.len() - i,
    {
        if i == v.len() {
            break;
        }
        if is_sell_better(&o, &v[i]) {
            break;
        }
        i = i + 1;
    }
    proof {
        lemma_sell_pos_at(v@, o, i as int);
    }
    v.insert(i, o);
    proof {
        lemma_insert_sell_sorted(old(v)@, o);
    }
}

proof fn lemma_buy_pos_at(s: Seq<BuyOrder>, o: BuyOrder, i: int)
    requires
        0 <= i <= s.len(),
        forall|k: int| 0 <= k < i ==> !buy_better(o, s[k]),
        i == s.len() || buy_better(o, s[i]),
    ensures
        buy_insert_pos(s, o) == i,
    decreases i,
{
    if i == 0 {
    } else {
        assert(!buy_better(o, s[0]));
        assert(forall|k: int| 0 <= k < i - 1 ==> s.drop_first()[k] == s[k + 1]);
        lemma_buy_pos_at(s.drop_first(), o, i - 1);
    }
}

proof fn lemma_sell_pos_at(s: Seq<SellOrder>, o: SellOrder, i: int)
    requires
        0 <= i <= s.len(),
        forall|k: int| 0 <= k < i ==> !sell_better(o, s[k]),
        i == s.len() || sell_better(o, s[i]),
    ensures
        sell_insert_pos(s, o) == i,
    decreases i,
{
    if i == 0 {
    } else {
        assert(!sell_better(o, s[0]));
        assert(forall|k: int| 0 <= k < i - 1 ==> s.drop_first()[k] == s[k + 1]);
        lemma_sell_pos_at(s.drop_first(), o, i - 1);
    }
}

/// View of an [`OrderBook`].
#[verifier::ext_equal]
pub struct BookV {
    pub ticker: Seq<char>,
    pub buys: Seq<BuyOrder>,
    pub sells: Seq<SellOrder>,
    pub deleted: Set<OrderId>,
}

impl BookV {
    /// Both queues are sorted by priority, best first.
    pub open spec fn wf(self) -> bool {
        buys_sorted(self.buys) && sells_sorted(self.sells)
    }
}

/// The exact effect of one request on one book: the logs it emits and the
/// book it leaves behind.
pub open spec fn book_step(b: BookV, req: OrderbookRequest) -> (Seq<OrderbookLogV>, BookV) {
    match req {
        OrderbookRequest::NewOrder(r) => {
            let h = if r.direction == Direction::Buy {
                handle_buy_spec(b.ticker, b.buys, b.sells, b.deleted, r)
            } else {
                handle_sell_spec(b.ticker, b.buys, b.sells, b.deleted, r)
            };
            (h.0, BookV { ticker: b.ticker, buys: h.1, sells: h.2, deleted: h.3 })
        },
        OrderbookRequest::CancelOrder(c) => (
            cancel_spec_logs(c.order_id),
            BookV { deleted: b.deleted.insert(c.order_id), ..b },
        ),
    }
}

pub struct OrderBook {
    ticker: Ticker,
    buy_orders: Vec<BuyOrder>,
    sell_orders: Vec<SellOrder>,
    lazy_deleted: HashSet<OrderId>,
}

impl OrderBook {
    /// The ticker this book trades.
    pub closed spec fn ticker_view(self) -> Seq<char> {
        self.ticker@
    }

    /// The buy queue, best order first.
    pub closed spec fn buys(self) -> Seq<BuyOrder> {
        self.buy_orders@
    }

    /// The sell queue, best order first.
    pub closed spec fn sells(self) -> Seq<SellOrder> {
        self.sell_orders@
    }

    /// Order ids cancelled but not yet popped off a queue.
    pub closed spec fn deleted(self) -> Set<OrderId> {
        self.lazy_deleted@
    }

    /// Both queues are sorted by priority, best first.
    pub open spec fn wf(self) -> bool {
        buys_sorted(self.buys()) && sells_sorted(self.sells())
    }

    /// The whole state as one view value.
    pub open spec fn book(self) -> BookV {
        BookV {
            ticker: self.ticker_view(),
            buys: self.buys(),
            sells: self.sells(),
            deleted: self.deleted(),
        }
    }

    pub fn new(ticker: Ticker) -> (book: OrderBook)
        ensures
            book.wf(),
            book.ticker_view() == ticker@,
            book.buys() == Seq::<BuyOrder>::empty(),
            book.sells() == Seq::<SellOrder>::empty(),
            book.deleted() == Set::<OrderId>::empty(),
    {
        let book = OrderBook {
            ticker,
            buy_orders: Vec::new(),
            sell_orders: Vec::new(),
            lazy_deleted: HashSet::new(),
        };
        proof {
            assert(book.buys() =~= Seq::<BuyOrder>::empty());
            assert(book.sells() =~= Seq::<SellOrder>::empty());
            assert(book.deleted() =~= Set::<OrderId>::empty());
        }
        book
    }
}

proof fn lemma_sells_sorted_drop(s: Seq<SellOrder>)
    requires
        sells_sorted(s),
        s.len() > 0,
    ensures
        sells_sorted(s.drop_first()),
{
    assert forall|i: int, j: int| 0 <= i < j < s.drop_first().len() implies !sell_better(
        s.drop_first()[j],
        s.drop_first()[i],
    ) by {
        assert(s.drop_first()[i] == s[i + 1]);
        assert(s.drop_first()[j] == s[j + 1]);
    }
}

proof fn lemma_buys_sorted_drop(s: Seq<BuyOrder>)
    requires
        buys_sorted(s),
        s.len() > 0,
    ensures
        buys_sorted(s.drop_first()),
{
    assert forall|i: int, j: int| 0 <= i < j < s.drop_first().len() implies !buy_better(
        s.drop_first()[j],
        s.drop_first()[i],
    ) by {
        assert(s.drop_first()[i] == s[i + 1]);
        assert(s.drop_first()[j] == s[j + 1]);
    }
}

impl OrderBook {
    /// Matching of one incoming buy order, exactly as [`handle_buy_spec`] says.
    fn handle_new_buy_order(&mut self, req: NewOrderRequest) -> (logs: Vec<OrderbookLog>)
        requires
            old(self).wf(),
        ensures
            final(self).wf(),
            final(self).ticker_view() == old(self).ticker_view(),
            ({
                let r = handle_buy_spec(
                    old(self).ticker_view(),
                    old(self).buys(),
                    old(self).sells(),
                    old(self).deleted(),
                    req,
                );
                &&& logs_view(logs@) == r.0
                &&& final(self).buys() == r.1
                &&& final(self).sells() == r.2
                &&& final(self).deleted() == r.3
            }),
    {
        let ghost t = self.ticker@;
        let ghost buys0 = self.buy_orders@;
        let ghost m0 = match_buy(t, self.sell_orders@, self.lazy_deleted@, req, req.size);
        let mut logs: Vec<OrderbookLog> = Vec::new();
        let mut left: Size = req.size;
        proof {
            assert(m0.logs =~= logs_view(logs@) + m0.logs);
        }
        loop
            invariant
                sells_sorted(self.sell_orders@),
                buys_sorted(self.buy_orders@),
                self.buy_orders@ == buys0,
                self.ticker@ == t,
                m0.logs == logs_view(logs@) + match_buy(
                    t,
                    self.sell_orders@,
                    self.lazy_deleted@,
                    req,
                    left,
                ).logs,
                m0.sells == match_buy(t, self.sell_orders@, self.lazy_deleted@, req, left).sells,
                m0.deleted == match_buy(
                    t,
                    self.sell_orders@,
                    self.lazy_deleted@,
                    req,
                    left,
                ).deleted,
                m0.left == match_buy(t, self.sell_orders@, self.lazy_deleted@, req, left).left,
            ensures
                sells_sorted(self.sell_orders@),
                buys_sorted(self.buy_orders@),
                self.buy_orders@ == buys0,
                self.ticker@ == t,
                logs_view(logs@) == m0.logs,
                self.sell_orders@ == m0.sells,
                self.lazy_deleted@ == m0.deleted,
                left == m0.left,
            decreases self.sell_orders@.len(), left,
        {
            let ghost s_pre = self.sell_orders@;
            let ghost d_pre = self.lazy_deleted@;
            let ghost logs_pre = logs@;
            if left == 0 || self.sell_orders.len() == 0 {
                proof {
                    assert(logs_view(logs@) + Seq::<OrderbookLogV>::empty() =~= logs_view(logs@));
                }
                break;
            }
            let best = self.sell_orders[0];
            if self.lazy_deleted.contains(&best.order_id) {
                self.sell_orders.remove(0);
                self.lazy_deleted.remove(&best.order_id);
                proof {
                    assert(self.sell_orders@ =~= s_pre.drop_first());
                    assert(self.lazy_deleted@ =~= d_pre.remove(best.order_id));
                    lemma_sells_sorted_drop(s_pre);
                }
            } else if best.price > req.price {
                proof {
                    assert(logs_view(logs@) + Seq::<OrderbookLogV>::empty() =~= logs_view(logs@));
                }
                break;
            } else {
                let fill: Size = if left < best.size {
                    left
                } else {
                    best.size
                };
                logs.push(
                    OrderbookLog::OrderLog(
                        OrderResponse::OrderFill(
                            OrderFillResponse {
                                order_id: best.order_id,
                                fill_size: fill,
                                fill_price: best.price,
                            },
                        ),
                    ),
                );
                logs.push(
                    OrderbookLog::EventLog(
                        crate::event::Event::OrderExecuted(
                            crate::event::OrderExecuted {
                                order_id: best.order_id,
                                ticker: self.ticker.clone(),
                                execution_size: fill,
                                execution_price: best.price,
                            },
                        ),
                    ),
                );
                if fill < best.size {
                    let mut maker = self.sell_orders.remove(0);
                    maker.size = maker.size - fill;
                    self.sell_orders.insert(0, maker);
                    logs.push(
                        OrderbookLog::OrderLog(
                            OrderResponse::OrderFill(
                                OrderFillResponse {
                                    order_id: req.order_id,
                                    fill_size: fill,
                                    fill_price: best.price,
                                },
                            ),
                        ),
                    );
                    logs.push(
                        OrderbookLog::EventLog(
                            crate::event::Event::OrderExecuted(
                                crate::event::OrderExecuted {
                                    order_id: req.order_id,
                                    ticker: self.ticker.clone(),
                                    execution_size: fill,
                                    execution_price: best.price,
                                },
                            ),
                        ),
                    );
                    proof {
                        assert(self.sell_orders@ =~= s_pre.update(
                            0,
                            SellOrder {
                                order_id: best.order_id,
                                size: (best.size - left) as Size,
                                price: best.price,
                                timestamp: best.timestamp,
                            },
                        ));
                        assert(logs_view(logs@) =~= logs_view(logs_pre) + (trade_logs(
                            t,
                            best.order_id,
                            left,
                            best.price,
                        ) + trade_logs(t, req.order_id, left, best.price)));
                        assert forall|i: int, j: int|
                            0 <= i < j < self.sell_orders@.len() implies !sell_better(
                            self.sell_orders@[j],
                            self.sell_orders@[i],
                        ) by {
                            assert(self.sell_orders@[j] == s_pre[j]);
                            if i > 0 {
                                assert(self.sell_orders@[i] == s_pre[i]);
                            } else {
                                assert(self.sell_orders@[0].price == s_pre[0].price);
                                assert(self.sell_orders@[0].timestamp == s_pre[0].timestamp);
                                assert(!sell_better(s_pre[j], s_pre[0]));
                            }
                        }
                        let m_pre = match_buy(t, s_pre, d_pre, req, left);
                        let m_cur = match_buy(t, self.sell_orders@, self.lazy_deleted@, req, 0);
                        assert(m_pre.logs =~= (trade_logs(t, best.order_id, left, best.price)
                            + trade_logs(t, req.order_id, left, best.price)) + m_cur.logs);
                        assert(logs_view(logs_pre) + m_pre.logs =~= logs_view(logs@)
                            + m_cur.logs);
                    }
                    left = 0;
                } else {
                    self.sell_orders.remove(0);
                    logs.push(
                        OrderbookLog::OrderLog(
                            OrderResponse::OrderDead(
                                OrderDeadResponse { order_id: best.order_id },
                            ),
                        ),
                    );
                    logs.push(
                        OrderbookLog::OrderLog(
                            OrderResponse::OrderFill(
                                OrderFillResponse {
                                    order_id: req.order_id,
                                    fill_size: fill,
                                    fill_price: best.price,
                                },
                            ),
                        ),
                    );
                    logs.push(
                        OrderbookLog::EventLog(
                            crate::event::Event::OrderExecuted(
                                crate::event::OrderExecuted {
                                    order_id: req.order_id,
                                    ticker: self.ticker.clone(),
                                    execution_size: fill,
                                    execution_price: best.price,
                                },
                            ),
                        ),
                    );
                    proof {
                        assert(self.sell_orders@ =~= s_pre.drop_first());
                        lemma_sells_sorted_drop(s_pre);
                        assert(logs_view(logs@) =~= logs_view(logs_pre) + (trade_logs(
                            t,
                            best.order_id,
                            best.size,
                            best.price,
                        ) + dead_log(best.order_id) + trade_logs(
                            t,
                            req.order_id,
                            best.size,
                            best.price,
                        )));
                        let m_pre = match_buy(t, s_pre, d_pre, req, left);
                        let m_cur = match_buy(
                            t,
                            self.sell_orders@,
                            self.lazy_deleted@,
                            req,
                            (left - fill) as Size,
                        );
                        assert(m_pre.logs =~= (trade_logs(t, best.order_id, best.size, best.price)
                            + dead_log(best.order_id) + trade_logs(
                            t,
                            req.order_id,
                            best.size,
                            best.price,
                        )) + m_cur.logs);
                        assert(logs_view(logs_pre) + m_pre.logs =~= logs_view(logs@)
                            + m_cur.logs);
                    }
                    left = left - fill;
                }
            }
        }
        let should_insert = left > 0 && req.limit_or_market == LimitOrMarket::Limit
            && req.time_in_force == TimeInForce::Day;
        if should_insert {
            vec_insert_buy(
                &mut self.buy_orders,
                BuyOrder {
                    order_id: req.order_id,
                    size: left,
                    price: req.price,
                    timestamp: req.timestamp,
                },
            );
            logs.push(
                OrderbookLog::EventLog(
                    crate::event::Event::OrderAdded(
                        crate::event::OrderAdded {
                            order_id: req.order_id,
                            ticker: self.ticker.clone(),
                            direction: req.direction,
                            resting_size: left,
                            limit_price: req.price,
                        },
                    ),
                ),
            );
            proof {
                assert(logs_view(logs@) =~= m0.logs + added_log(t, req, left));
            }
        } else {
            logs.push(
                OrderbookLog::OrderLog(
                    OrderResponse::OrderDead(OrderDeadResponse { order_id: req.order_id }),
                ),
            );
            proof {
                assert(logs_view(logs@) =~= m0.logs + dead_log(req.order_id));
            }
        }
        logs
    }

    /// Matching of one incoming sell order, exactly as [`handle_sell_spec`] says.
    fn handle_new_sell_order(&mut self, req: NewOrderRequest) -> (logs: Vec<OrderbookLog>)
        requires
            old(self).wf(),
        ensures
            final(self).wf(),
            final(self).ticker_view() == old(self).ticker_view(),
            ({
                let r = handle_sell_spec(
                    old(self).ticker_view(),
                    old(self).buys(),
                    old(self).sells(),
                    old(self).deleted(),
                    req,
                );
                &&& logs_view(logs@) == r.0
                &&& final(self).buys() == r.1
                &&& final(self).sells() == r.2
                &&& final(self).deleted() == r.3
            }),
    {
        let ghost t = self.ticker@;
        let ghost buys0 = self.sell_orders@;
        let ghost m0 = match_sell(t, self.buy_orders@, self.lazy_deleted@, req, req.size);
        let mut logs: Vec<OrderbookLog> = Vec::new();
        let mut left: Size = req.size;
        proof {
            assert(m0.logs =~= logs_view(logs@) + m0.logs);
        }
        loop
            invariant
                buys_sorted(self.buy_orders@),
                sells_sorted(self.sell_orders@),
                self.sell_orders@ == buys0,
                self.ticker@ == t,
                m0.logs == logs_view(logs@) + match_sell(
                    t,
                    self.buy_orders@,
                    self.lazy_deleted@,
                    req,
                    left,
                ).logs,
                m0.buys == match_sell(t, self.buy_orders@, self.lazy_deleted@, req, left).buys,
                m0.deleted == match_sell(
                    t,
                    self.buy_orders@,
                    self.lazy_deleted@,
                    req,
                    left,
                ).deleted,
                m0.left == match_sell(t, self.buy_orders@, self.lazy_deleted@, req, left).left,
            ensures
                buys_sorted(self.buy_orders@),
                sells_sorted(self.sell_orders@),
                self.sell_orders@ == buys0,
                self.ticker@ == t,
                logs_view(logs@) == m0.logs,
                self.buy_orders@ == m0.buys,
                self.lazy_deleted@ == m0.deleted,
                left == m0.left,
            decreases self.buy_orders@.len(), left,
        {
            let ghost s_pre = self.buy_orders@;
            let ghost d_pre = self.lazy_deleted@;
            let ghost logs_pre = logs@;
            if left == 0 || self.buy_orders.len() == 0 {
                proof {
                    assert(logs_view(logs@) + Seq::<OrderbookLogV>::empty() =~= logs_view(logs@));
                }
                break;
            }
            let best = self.buy_orders[0];
            if self.lazy_deleted.contains(&best.order_id) {
                self.buy_orders.remove(0);
                self.lazy_deleted.remove(&best.order_id);
                proof {
                    assert(self.buy_orders@ =~= s_pre.drop_first());
                    assert(self.lazy_deleted@ =~= d_pre.remove(best.order_id));
                    lemma_buys_sorted_drop(s_pre);
                }
            } else if best.price < req.price {
                proof {
                    assert(logs_view(logs@) + Seq::<OrderbookLogV>::empty() =~= logs_view(logs@));
                }
                break;
            } else {
                let fill: Size = if left < best.size {
                    left
                } else {
                    best.size
                };
                logs.push(
                    OrderbookLog::OrderLog(
                        OrderResponse::OrderFill(
                            OrderFillResponse {
                                order_id: best.order_id,
                                fill_size: fill,
                                fill_price: best.price,
                            },
                        ),
                    ),
                );
                logs.push(
                    OrderbookLog::EventLog(
                        crate::event::Event::OrderExecuted(
                            crate::event::OrderExecuted {
                                order_id: best.order_id,
                                ticker: self.ticker.clone(),
                                execution_size: fill,
                                execution_price: best.price,
                            },
                        ),
                    ),
                );
                if fill < best.size {
                    let mut maker = self.buy_orders.remove(0);
                    maker.size = maker.size - fill;
                    self.buy_orders.insert(0, maker);
                    logs.push(
                        OrderbookLog::OrderLog(
                            OrderResponse::OrderFill(
                                OrderFillResponse {
                                    order_id: req.order_id,
                                    fill_size: fill,
                                    fill_price: best.price,
                                },
                            ),
                        ),
                    );
                    logs.push(
                        OrderbookLog::EventLog(
                            crate::event::Event::OrderExecuted(
                                crate::event::OrderExecuted {
                                    order_id: req.order_id,
                                    ticker: self.ticker.clone(),
                                    execution_size: fill,
                                    execution_price: best.price,
                                },
                            ),
                        ),
                    );
                    proof {
                        assert(self.buy_orders@ =~= s_pre.update(
                            0,
                            BuyOrder {
                                order_id: best.order_id,
                                size: (best.size - left) as Size,
                                price: best.price,
                                timestamp: best.timestamp,
                            },
                        ));
                        assert(logs_view(logs@) =~= logs_view(logs_pre) + (trade_logs(
                            t,
                            best.order_id,
                            left,
                            best.price,
                        ) + trade_logs(t, req.order_id, left, best.price)));
                        assert forall|i: int, j: int|
                            0 <= i < j < self.buy_orders@.len() implies !buy_better(
                            self.buy_orders@[j],
                            self.buy_orders@[i],
                        ) by {
                            assert(self.buy_orders@[j] == s_pre[j]);
                            if i > 0 {
                                assert(self.buy_orders@[i] == s_pre[i]);
                            } else {
                                assert(self.buy_orders@[0].price == s_pre[0].price);
                                assert(self.buy_orders@[0].timestamp == s_pre[0].timestamp);
                                assert(!buy_better(s_pre[j], s_pre[0]));
                            }
                        }
                        let m_pre = match_sell(t, s_pre, d_pre, req, left);
                        let m_cur = match_sell(t, self.buy_orders@, self.lazy_deleted@, req, 0);
                        assert(m_pre.logs =~= (trade_logs(t, best.order_id, left, best.price)
                            + trade_logs(t, req.order_id, left, best.price)) + m_cur.logs);
                        assert(logs_view(logs_pre) + m_pre.logs =~= logs_view(logs@)
                            + m_cur.logs);
                    }
                    left = 0;
                } else {
                    self.buy_orders.remove(0);
                    logs.push(
                        OrderbookLog::OrderLog(
                            OrderResponse::OrderDead(
                                OrderDeadResponse { order_id: best.order_id },
                            ),
                        ),
                    );
                    logs.push(
                        OrderbookLog::OrderLog(
                            OrderResponse::OrderFill(
                                OrderFillResponse {
                                    order_id: req.order_id,
                                    fill_size: fill,
                                    fill_price: best.price,
                                },
                            ),
                        ),
                    );
                    logs.push(
                        OrderbookLog::EventLog(
                            crate::event::Event::OrderExecuted(
                                crate::event::OrderExecuted {
                                    order_id: req.order_id,
                                    ticker: self.ticker.clone(),
                                    execution_size: fill,
                                    execution_price: best.price,
                                },
                            ),
                        ),
                    );
                    proof {
                        assert(self.buy_orders@ =~= s_pre.drop_first());
                        lemma_buys_sorted_drop(s_pre);
                        assert(logs_view(logs@) =~= logs_view(logs_pre) + (trade_logs(
                            t,
                            best.order_id,
                            best.size,
                            best.price,
                        ) + dead_log(best.order_id) + trade_logs(
                            t,
                            req.order_id,
                            best.size,
                            best.price,
                        )));
                        let m_pre = match_sell(t, s_pre, d_pre, req, left);
                        let m_cur = match_sell(
                            t,
                            self.buy_orders@,
                            self.lazy_deleted@,
                            req,
                            (left - fill) as Size,
                        );
                        assert(m_pre.logs =~= (trade_logs(t, best.order_id, best.size, best.price)
                            + dead_log(best.order_id) + trade_logs(
                            t,
                            req.order_id,
                            best.size,
                            best.price,
                        )) + m_cur.logs);
                        assert(logs_view(logs_pre) + m_pre.logs =~= logs_view(logs@)
                            + m_cur.logs);
                    }
                    left = left - fill;
                }
            }
        }
        let should_insert = left > 0 && req.limit_or_market == LimitOrMarket::Limit
            && req.time_in_force == TimeInForce::Day;
        if should_insert {
            vec_insert_sell(
                &mut self.sell_orders,
                SellOrder {
                    order_id: req.order_id,
                    size: left,
                    price: req.price,
                    timestamp: req.timestamp,
                },
            );
            logs.push(
                OrderbookLog::EventLog(
                    crate::event::Event::OrderAdded(
                        crate::event::OrderAdded {
                            order_id: req.order_id,
                            ticker: self.ticker.clone(),
                            direction: req.direction,
                            resting_size: left,
                            limit_price: req.price,
                        },
                    ),
                ),
            );
            proof {
                assert(logs_view(logs@) =~= m0.logs + added_log(t, req, left));
            }
        } else {
            logs.push(
                OrderbookLog::OrderLog(
                    OrderResponse::OrderDead(OrderDeadResponse { order_id: req.order_id }),
                ),
            );
            proof {
                assert(logs_view(logs@) =~= m0.logs + dead_log(req.order_id));
            }
        }
        logs
    }
}


impl OrderBook {
    /// A cancel tombstones the order id and reports the order dead and removed.
    /// Validity is the portal's business: the engine emits the two logs even
    /// for an id it has never seen.
    pub fn handle_cancel_order(&mut self, req: CancelOrderRequest) -> (logs: Vec<OrderbookLog>)
        requires
            old(self).wf(),
        ensures
            final(self).wf(),
            final(self).ticker_view() == old(self).ticker_view(),
            final(self).buys() == old(self).buys(),
            final(self).sells() == old(self).sells(),
            final(self).deleted() == old(self).deleted().insert(req.order_id),
            logs_view(logs@) == cancel_spec_logs(req.order_id),
    {
        self.lazy_deleted.insert(req.order_id);
        let mut logs: Vec<OrderbookLog> = Vec::new();
        logs.push(
            OrderbookLog::OrderLog(
                OrderResponse::OrderDead(OrderDeadResponse { order_id: req.order_id }),
            ),
        );
        logs.push(
            OrderbookLog::EventLog(
                crate::event::Event::OrderRemoved(OrderRemoved { order_id: req.order_id }),
            ),
        );
        proof {
            assert(logs_view(logs@) =~= cancel_spec_logs(req.order_id));
        }
        logs
    }

    /// A new order matches on the side its direction names.
    pub fn handle_new_order(&mut self, req: NewOrderRequest) -> (logs: Vec<OrderbookLog>)
        requires
            old(self).wf(),
        ensures
            final(self).wf(),
            final(self).ticker_view() == old(self).ticker_view(),
            ({
                let r = if req.direction == Direction::Buy {
                    handle_buy_spec(
                        old(self).ticker_view(),
                        old(self).buys(),
                        old(self).sells(),
                        old(self).deleted(),
                        req,
                    )
                } else {
                    handle_sell_spec(
                        old(self).ticker_view(),
                        old(self).buys(),
                        old(self).sells(),
                        old(self).deleted(),
                        req,
                    )
                };
                &&& logs_view(logs@) == r.0
                &&& final(self).buys() == r.1
                &&& final(self).sells() == r.2
                &&& final(self).deleted() == r.3
            }),
    {
        match req.direction {
            Direction::Buy => self.handle_new_buy_order(req),
            Direction::Sell => self.handle_new_sell_order(req),
        }
    }

    /// One entry point for the portal: route the request by its kind.
    pub fn handle_request(&mut self, req: OrderbookRequest) -> (logs: Vec<OrderbookLog>)
        requires
            old(self).wf(),
        ensures
            final(self).wf(),
            logs_view(logs@) == book_step(old(self).book(), req).0,
            final(self).book() == book_step(old(self).book(), req).1,
    {
        let logs = match req {
            OrderbookRequest::NewOrder(new_order_req) => self.handle_new_order(new_order_req),
            OrderbookRequest::CancelOrder(cancel_order_req) => {
                self.handle_cancel_order(cancel_order_req)
            },
        };
        proof {
            assert(self.book() =~= book_step(old(self).book(), req).1);
        }
        logs
    }

    /// Price of the best live buy order. Tombstoned entries blocking the top
    /// of the queue are discarded on the way, the only garbage collection the
    /// book does outside matching.
    pub fn best_buy_price(&mut self) -> (r: Option<Price>)
        requires
            old(self).wf(),
        ensures
            final(self).wf(),
            final(self).ticker_view() == old(self).ticker_view(),
            final(self).sells() == old(self).sells(),
            ({
                let g = gc_buys(old(self).buys(), old(self).deleted());
                &&& final(self).buys() == g.0
                &&& final(self).deleted() == g.1
                &&& r == (if g.0.len() > 0 {
                    Some(g.0[0].price)
                } else {
                    None::<Price>
                })
            }),
    {
        let ghost buys0 = self.buy_orders@;
        let ghost d0 = self.lazy_deleted@;
        loop
            invariant
                buys_sorted(self.buy_orders@),
                sells_sorted(self.sell_orders@),
                self.sell_orders@ == old(self).sells(),
                self.ticker@ == old(self).ticker_view(),
                gc_buys(buys0, d0).0 == gc_buys(self.buy_orders@, self.lazy_deleted@).0,
                gc_buys(buys0, d0).1 == gc_buys(self.buy_orders@, self.lazy_deleted@).1,
            ensures
                buys_sorted(self.buy_orders@),
                sells_sorted(self.sell_orders@),
                self.sell_orders@ == old(self).sells(),
                self.ticker@ == old(self).ticker_view(),
                self.buy_orders@ == gc_buys(buys0, d0).0,
                self.lazy_deleted@ == gc_buys(buys0, d0).1,
            decreases self.buy_orders@.len(),
        {
            let ghost s_pre = self.buy_orders@;
            let ghost d_pre = self.lazy_deleted@;
            if self.buy_orders.len() == 0 {
                break;
            }
            let best = self.buy_orders[0];
            if self.lazy_deleted.contains(&best.order_id) {
                self.buy_orders.remove(0);
                self.lazy_deleted.remove(&best.order_id);
                proof {
                    assert(self.buy_orders@ =~= s_pre.drop_first());
                    assert(self.lazy_deleted@ =~= d_pre.remove(best.order_id));
                    lemma_buys_sorted_drop(s_pre);
                }
            } else {
                break;
            }
        }
        if self.buy_orders.len() > 0 {
            Some(self.buy_orders[0].price)
        } else {
            None
        }
    }

    /// Price of the best live sell order; the sell-side mirror of
    /// `best_buy_price`.
    pub fn best_sell_price(&mut self) -> (r: Option<Price>)
        requires
            old(self).wf(),
        ensures
            final(self).wf(),
            final(self).ticker_view() == old(self).ticker_view(),
            final(self).buys() == old(self).buys(),
            ({
                let g = gc_sells(old(self).sells(), old(self).deleted());
                &&& final(self).sells() == g.0
                &&& final(self).deleted() == g.1
                &&& r == (if g.0.len() > 0 {
                    Some(g.0[0].price)
                } else {
                    None::<Price>
                })
            }),
    {
        let ghost sells0 = self.sell_orders@;
        let ghost d0 = self.lazy_deleted@;
        loop
            invariant
                buys_sorted(self.buy_orders@),
                sells_sorted(self.sell_orders@),
                self.buy_orders@ == old(self).buys(),
                self.ticker@ == old(self).ticker_view(),
                gc_sells(sells0, d0).0 == gc_sells(self.sell_orders@, self.lazy_deleted@).0,
                gc_sells(sells0, d0).1 == gc_sells(self.sell_orders@, self.lazy_deleted@).1,
            ensures
                buys_sorted(self.buy_orders@),
                sells_sorted(self.sell_orders@),
                self.buy_orders@ == old(self).buys(),
                self.ticker@ == old(self).ticker_view(),
                self.sell_orders@ == gc_sells(sells0, d0).0,
                self.lazy_deleted@ == gc_sells(sells0, d0).1,
            decreases self.sell_orders@.len(),
        {
            let ghost s_pre = self.sell_orders@;
            let ghost d_pre = self.lazy_deleted@;
            if self.sell_orders.len() == 0 {
                break;
            }
            let best = self.sell_orders[0];
            if self.lazy_deleted.contains(&best.order_id) {
                self.sell_orders.remove(0);
                self.lazy_deleted.remove(&best.order_id);
                proof {
                    assert(self.sell_orders@ =~= s_pre.drop_first());
                    assert(self.lazy_deleted@ =~= d_pre.remove(best.order_id));
                    lemma_sells_sorted_drop(s_pre);
                }
            } else {
                break;
            }
        }
        if self.sell_orders.len() > 0 {
            Some(self.sell_orders[0].price)
        } else {
            None
        }
    }
}

} // verus!
