//! The portal: the serialized façade over matching, accounts, order identity
//! and event history. `process_request` turns one request into the exact
//! task list given by [`portal_step`].

use vstd::prelude::*;
use vstd::string::StringExecFns;
use crate::account::{valid_potential, Account, AccountV};
use crate::account_manager::{apply_potential, apply_update, AccountManager};
use crate::account_types::{AccountUpdate, AccountUpdateV, PotentialOrder, PotentialOrderV};
use crate::common::{Cash, Direction, InvId, LimitOrMarket, OrderId, Password, SeqNum, Size, Ticker};
use crate::event_history::EventHistory;
use crate::order_info::{
    apply_event_to_resting, gc_zero, live_resting, OrderInfo, OrderRecord, OrderRecordV,
};
use crate::orderbook::{book_step, gc_buys, gc_sells, BookV};
use crate::orderbook_manager::OrderbookManager;
use crate::orderbook_types::{
    logs_view, CancelOrderRequest, NewOrderRequest, OrderbookLog, OrderbookLogV, OrderbookRequest,
    OrderResponse, OrderResponseV,
};
use crate::portal_types::{
    tasks_view, PortalNewOrderRequest, PortalNewOrderRequestV, PortalRequest, PortalRequestV,
    PortalTask, PortalTaskV,
};
use crate::stock_manager::{spec_valid_order, StockManager, StockRecord};
use crate::wire::get_order_id;

verus! {

/// View of the whole portal state.
#[verifier::ext_equal]
pub struct PortalV {
    pub books: Map<Seq<char>, BookV>,
    pub history: Seq<crate::event::EventV>,
    pub binds: Map<OrderId, OrderRecordV>,
    pub restings: Map<OrderId, Size>,
    pub accounts: Map<InvId, AccountV>,
    pub logins: Set<InvId>,
    pub stocks: Map<Seq<char>, StockRecord>,
    pub last_order_id: OrderId,
}

/// The bookkeeping instructions one order response earns its owner: a buy
/// fill refunds the over-reserved cash and credits the shares; a sell fill
/// credits the proceeds; a death refunds whatever still rested.
pub open spec fn resp_updates(
    resp: OrderResponseV,
    rec: OrderRecordV,
    resting: Option<Size>,
) -> Seq<AccountUpdateV> {
    match resp {
        OrderResponseV::OrderFill(f) => match rec.direction {
            Direction::Buy => seq![
                AccountUpdateV::UpdCash(
                    rec.inv_id,
                    (f.fill_size * (rec.limit_price - f.fill_price)) as Cash,
                ),
                AccountUpdateV::AddPos(rec.inv_id, rec.ticker, f.fill_size),
            ],
            Direction::Sell => seq![
                AccountUpdateV::UpdCash(rec.inv_id, (f.fill_size * f.fill_price) as Cash),
            ],
        },
        OrderResponseV::OrderDead(_) => match rec.direction {
            Direction::Buy => match resting {
                Some(r) => seq![
                    AccountUpdateV::UpdCash(rec.inv_id, (r * rec.limit_price) as Cash),
                ],
                None => seq![],
            },
            Direction::Sell => match resting {
                Some(r) => seq![AccountUpdateV::AddPos(rec.inv_id, rec.ticker, r)],
                None => seq![],
            },
        },
    }
}

/// The amounts of [`resp_updates`] stay in the unsigned 64-bit domain. The
/// engine only fills a buy at or under its limit and never over-fills, so
/// this holds of every log a gated flow produces.
pub open spec fn resp_updates_ok(
    resp: OrderResponseV,
    rec: OrderRecordV,
    resting: Option<Size>,
) -> bool {
    match resp {
        OrderResponseV::OrderFill(f) => match rec.direction {
            Direction::Buy => f.fill_price <= rec.limit_price && f.fill_size * (rec.limit_price
                - f.fill_price) <= u64::MAX,
            Direction::Sell => f.fill_size * f.fill_price <= u64::MAX,
        },
        OrderResponseV::OrderDead(_) => match (rec.direction, resting) {
            (Direction::Buy, Some(r)) => r * rec.limit_price <= u64::MAX,
            _ => true,
        },
    }
}

/// View of a sequence of updates, element by element.
pub open spec fn updates_view(s: Seq<AccountUpdate>) -> Seq<AccountUpdateV> {
    s.map_values(|u: AccountUpdate| u@)
}

/// Fold [`apply_update`] over a sequence of updates.
pub open spec fn apply_updates(m: Map<InvId, AccountV>, ups: Seq<AccountUpdateV>) -> Map<
    InvId,
    AccountV,
>
    decreases ups.len(),
{
    if ups.len() == 0 {
        m
    } else {
        apply_updates(apply_update(m, ups[0]), ups.drop_first())
    }
}

/// The portal state after one engine log is folded in, and the task it owes
/// downstream. A response whose order id was never bound yields no task and
/// no account change; the portal never hands the engine such an order.
pub open spec fn apply_log(p: PortalV, log: OrderbookLogV) -> (PortalV, Seq<PortalTaskV>) {
    match log {
        OrderbookLogV::OrderLog(resp) => {
            let id = resp.order_id();
            let resting = live_resting(p.restings, id);
            let p1 = PortalV { restings: gc_zero(p.restings, id), ..p };
            if p.binds.contains_key(id) {
                let rec = p.binds[id];
                let ups = if resp_updates_ok(resp, rec, resting) {
                    resp_updates(resp, rec, resting)
                } else {
                    seq![]
                };
                (
                    PortalV { accounts: apply_updates(p1.accounts, ups), ..p1 },
                    seq![PortalTaskV::OrderResponse(rec.inv_id, resp)],
                )
            } else {
                (p1, seq![])
            }
        },
        OrderbookLogV::EventLog(ev) => (
            PortalV {
                history: p.history.push(ev),
                restings: apply_event_to_resting(p.restings, ev),
                ..p
            },
            seq![PortalTaskV::IncrementalEvent(ev)],
        ),
    }
}

/// Fold [`apply_log`] over the engine's log sequence, keeping task order.
pub open spec fn apply_logs(p: PortalV, logs: Seq<OrderbookLogV>) -> (PortalV, Seq<PortalTaskV>)
    decreases logs.len(),
{
    if logs.len() == 0 {
        (p, seq![])
    } else {
        let first = apply_log(p, logs[0]);
        let rest = apply_logs(first.0, logs.drop_first());
        (rest.0, first.1 + rest.1)
    }
}

/// The reservation a new order asks for.
pub open spec fn potential_of(req: PortalNewOrderRequestV) -> PotentialOrderV {
    match req.direction {
        Direction::Buy => PotentialOrderV::PotentialBuy(req.price, req.size),
        Direction::Sell => PotentialOrderV::PotentialSell(req.size, req.ticker),
    }
}

/// Market-order price fill-in: the best opposite price, or the close price
/// when that side is empty. Reading the best price consumes tombstones at
/// the front of the queried queue, so the book changes too. A limit order
/// passes through untouched.
pub open spec fn fill_in_spec(p: PortalV, req: PortalNewOrderRequestV) -> (
    PortalV,
    PortalNewOrderRequestV,
) {
    if req.limit_or_market == LimitOrMarket::Market && p.books.contains_key(req.ticker) {
        let b = p.books[req.ticker];
        match req.direction {
            Direction::Buy => {
                let g = gc_sells(b.sells, b.deleted);
                let best = if g.0.len() > 0 {
                    g.0[0].price
                } else {
                    p.stocks[req.ticker].close_price
                };
                (
                    PortalV {
                        books: p.books.insert(req.ticker, BookV { sells: g.0, deleted: g.1, ..b }),
                        ..p
                    },
                    PortalNewOrderRequestV { price: best, ..req },
                )
            },
            Direction::Sell => {
                let g = gc_buys(b.buys, b.deleted);
                let best = if g.0.len() > 0 {
                    g.0[0].price
                } else {
                    p.stocks[req.ticker].close_price
                };
                (
                    PortalV {
                        books: p.books.insert(req.ticker, BookV { buys: g.0, deleted: g.1, ..b }),
                        ..p
                    },
                    PortalNewOrderRequestV { price: best, ..req },
                )
            },
        }
    } else {
        (p, req)
    }
}

/// Hand one request to the named ticker's book and fold the logs it emits;
/// an unknown ticker (which the gating above rules out) is a no-op.
pub open spec fn engine_dispatch(p: PortalV, ticker: Seq<char>, obreq: OrderbookRequest) -> (
    PortalV,
    Seq<PortalTaskV>,
) {
    if p.books.contains_key(ticker) {
        let stepped = book_step(p.books[ticker], obreq);
        apply_logs(PortalV { books: p.books.insert(ticker, stepped.1), ..p }, stepped.0)
    } else {
        (p, seq![])
    }
}

/// The record bound to a freshly accepted order.
pub open spec fn record_of(inv_id: InvId, req: PortalNewOrderRequestV) -> OrderRecordV {
    OrderRecordV {
        inv_id,
        ticker: req.ticker,
        direction: req.direction,
        limit_price: req.price,
        initial_size: req.size,
    }
}

/// One new order, from tick/lot check to the tasks of its logs.
pub open spec fn new_order_step(
    p: PortalV,
    inv_id: InvId,
    seqnum: SeqNum,
    req: PortalNewOrderRequestV,
) -> (PortalV, Seq<PortalTaskV>) {
    if !spec_valid_order(p.stocks, req.ticker, req.price, req.size) {
        (
            p,
            seq![
                PortalTaskV::OrderReject(
                    inv_id,
                    seqnum,
                    "Invalid new order request: Invalid price or size"@,
                ),
            ],
        )
    } else {
        let filled = fill_in_spec(p, req);
        let p1 = filled.0;
        let req1 = filled.1;
        let pot = potential_of(req1);
        if !(p1.accounts.contains_key(inv_id) && valid_potential(p1.accounts[inv_id], pot)) {
            (
                p1,
                seq![
                    PortalTaskV::OrderReject(
                        inv_id,
                        seqnum,
                        "Invalid new order request: Insufficient cash or lot to complete the order"@,
                    ),
                ],
            )
        } else {
            let order_id = (p1.last_order_id + 1) as OrderId;
            let p2 = PortalV {
                accounts: apply_potential(p1.accounts, inv_id, pot),
                binds: p1.binds.insert(order_id, record_of(inv_id, req1)),
                last_order_id: order_id,
                ..p1
            };
            let dispatched = engine_dispatch(
                p2,
                req1.ticker,
                OrderbookRequest::NewOrder(
                    NewOrderRequest {
                        order_id,
                        direction: req1.direction,
                        size: req1.size,
                        price: req1.price,
                        timestamp: req1.timestamp,
                        limit_or_market: req1.limit_or_market,
                        time_in_force: req1.time_in_force,
                    },
                ),
            );
            (dispatched.0, seq![PortalTaskV::OrderAck(inv_id, seqnum, order_id)] + dispatched.1)
        }
    }
}

/// Whether a cancel is valid right now: the order rests with shares left and
/// belongs to the asking investor.
pub open spec fn cancel_valid(p: PortalV, order_id: OrderId, inv_id: InvId) -> bool {
    &&& live_resting(p.restings, order_id).is_some()
    &&& p.binds.contains_key(order_id)
    &&& p.binds[order_id].inv_id == inv_id
}

/// One cancel: gate on validity, tombstone the order, fold the two logs.
pub open spec fn cancel_step(p: PortalV, inv_id: InvId, seqnum: SeqNum, order_id: OrderId) -> (
    PortalV,
    Seq<PortalTaskV>,
) {
    let p1 = PortalV { restings: gc_zero(p.restings, order_id), ..p };
    if cancel_valid(p, order_id, inv_id) {
        let ticker = p.binds[order_id].ticker;
        engine_dispatch(p1, ticker, OrderbookRequest::CancelOrder(CancelOrderRequest { order_id }))
    } else {
        (p1, seq![PortalTaskV::CancelReject(inv_id, seqnum, "Invalid cancel order request"@)])
    }
}

/// A login attempt succeeds: the account exists, the password matches, and
/// nobody holds the session.
pub open spec fn login_ok(p: PortalV, inv_id: InvId, password: Seq<char>) -> bool {
    &&& p.accounts.contains_key(inv_id)
    &&& p.accounts[inv_id].password == password
    &&& !p.logins.contains(inv_id)
}

/// The portal after a login attempt: a successful one records the session.
pub open spec fn login_next(p: PortalV, inv_id: InvId, password: Seq<char>) -> PortalV {
    if login_ok(p, inv_id, password) {
        PortalV { logins: p.logins.insert(inv_id), ..p }
    } else {
        p
    }
}

/// The portal's whole request surface as one transition function.
pub open spec fn portal_step(p: PortalV, seqnum: SeqNum, req: PortalRequestV) -> (
    PortalV,
    Seq<PortalTaskV>,
) {
    match req {
        PortalRequestV::EventHistory(sub_id) => (
            p,
            seq![PortalTaskV::EventHistory(sub_id, p.history)],
        ),
        PortalRequestV::NewOrder(inv_id, order_req) => new_order_step(p, inv_id, seqnum, order_req),
        PortalRequestV::CancelOrder(inv_id, order_id) => cancel_step(p, inv_id, seqnum, order_id),
    }
}


/// Whether [`resp_updates`] stays in range; the guard before building the
/// updates of one response.
fn check_resp_updates(resp: &OrderResponse, rec: &OrderRecord, resting: Option<Size>) -> (r: bool)
    ensures
        r == resp_updates_ok(resp@, rec@, resting),
{
    match resp {
        OrderResponse::OrderFill(f) => match rec.direction {
            Direction::Buy => f.fill_price <= rec.limit_price && (f.fill_size as u64).checked_mul(
                rec.limit_price - f.fill_price,
            ).is_some(),
            Direction::Sell => (f.fill_size as u64).checked_mul(f.fill_price).is_some(),
        },
        OrderResponse::OrderDead(_) => match (&rec.direction, resting) {
            (Direction::Buy, Some(r)) => (r as u64).checked_mul(rec.limit_price).is_some(),
            _ => true,
        },
    }
}

/// Generate the bookkeeping instructions one order response earns its owner.
pub fn orderresponse_to_acc_update(
    orderbook_log: OrderResponse,
    order_rec: &OrderRecord,
    resting_size: Option<Size>,
) -> (r: Vec<AccountUpdate>)
    requires
        resp_updates_ok(orderbook_log@, order_rec@, resting_size),
    ensures
        updates_view(r@) == resp_updates(orderbook_log@, order_rec@, resting_size),
{
    let mut acc_updates: Vec<AccountUpdate> = Vec::new();
    match orderbook_log {
        OrderResponse::OrderFill(order_fill) => match order_rec.direction {
            Direction::Buy => {
                acc_updates.push(
                    AccountUpdate::UpdCash(
                        order_rec.inv_id,
                        (order_fill.fill_size as u64) * (order_rec.limit_price
                            - order_fill.fill_price),
                    ),
                );
                acc_updates.push(
                    AccountUpdate::AddPos(
                        order_rec.inv_id,
                        order_rec.ticker.clone(),
                        order_fill.fill_size,
                    ),
                );
            },
            Direction::Sell => {
                acc_updates.push(
                    AccountUpdate::UpdCash(
                        order_rec.inv_id,
                        (order_fill.fill_size as u64) * order_fill.fill_price,
                    ),
                );
            },
        },
        OrderResponse::OrderDead(_order_dead) => match order_rec.direction {
            Direction::Buy => {
                match resting_size {
                    Some(resting) => {
                        acc_updates.push(
                            AccountUpdate::UpdCash(
                                order_rec.inv_id,
                                (resting as u64) * order_rec.limit_price,
                            ),
                        );
                    },
                    None => {},
                }
            },
            Direction::Sell => {
                match resting_size {
                    Some(resting) => {
                        acc_updates.push(
                            AccountUpdate::AddPos(
                                order_rec.inv_id,
                                order_rec.ticker.clone(),
                                resting,
                            ),
                        );
                    },
                    None => {},
                }
            },
        },
    }
    proof {
        assert(updates_view(acc_updates@) =~= resp_updates(
            orderbook_log@,
            order_rec@,
            resting_size,
        ));
    }
    acc_updates
}

pub struct Portal {
    orderbook_manager: OrderbookManager,
    event_history: EventHistory,
    order_info: OrderInfo,
    account_manager: AccountManager,
    stock_manager: StockManager,
    last_order_id: u64,
}

impl Portal {
    /// The portal's whole state as one view value.
    pub closed spec fn model(self) -> PortalV {
        PortalV {
            books: self.orderbook_manager.books(),
            history: self.event_history.history(),
            binds: self.order_info.binds(),
            restings: self.order_info.restings(),
            accounts: self.account_manager.accounts_view(),
            logins: self.account_manager.logins(),
            stocks: self.stock_manager.stocks(),
            last_order_id: self.last_order_id,
        }
    }

    /// The components are well-formed and every listed stock has its book.
    pub closed spec fn wf(self) -> bool {
        &&& self.orderbook_manager.wf()
        &&& self.account_manager.wf()
        &&& self.stock_manager.wf()
        &&& self.stock_manager.inner_wf()
        &&& self.orderbook_manager.books().dom() == self.stock_manager.stocks().dom()
    }

    /// Fold one engine log into the portal; the task owed downstream, if any.
    fn process_log(&mut self, log: OrderbookLog) -> (task: Option<PortalTask>)
        requires
            old(self).wf(),
        ensures
            final(self).wf(),
            final(self).model() == apply_log(old(self).model(), log@).0,
            (match task {
                Some(t) => seq![t@],
                None => Seq::<PortalTaskV>::empty(),
            }) == apply_log(old(self).model(), log@).1,
    {
        match log {
            OrderbookLog::OrderLog(order_resp) => {
                let order_id = get_order_id(&order_resp);
                let resting_size = self.order_info.get_resting(&order_id);
                let found: Option<(InvId, Vec<AccountUpdate>)> = match self.order_info
                    .get_order_record(&order_id) {
                    Some(order_rec) => {
                        let inv_id = order_rec.inv_id;
                        let updates: Vec<AccountUpdate> = if check_resp_updates(
                            &order_resp,
                            order_rec,
                            resting_size,
                        ) {
                            orderresponse_to_acc_update(order_resp, order_rec, resting_size)
                        } else {
                            Vec::new()
                        };
                        Some((inv_id, updates))
                    },
                    None => None,
                };
                match found {
                    Some((inv_id, updates)) => {
                        let ghost ups = updates_view(updates@);
                        let ghost accounts_mid = self.account_manager.accounts_view();
                        let ghost frame = *self;
                        let mut updates = updates;
                        proof {
                            assert(updates_view(updates@) =~= ups);
                        }
                        loop
                            invariant
                                self.account_manager.wf(),
                                apply_updates(accounts_mid, ups) == apply_updates(
                                    self.account_manager.accounts_view(),
                                    updates_view(updates@),
                                ),
                                self.account_manager.logins() == old(self).model().logins,
                                self.orderbook_manager == frame.orderbook_manager,
                                self.event_history == frame.event_history,
                                self.order_info == frame.order_info,
                                self.stock_manager == frame.stock_manager,
                                self.last_order_id == frame.last_order_id,
                            ensures
                                self.account_manager.wf(),
                                self.account_manager.accounts_view() == apply_updates(
                                    accounts_mid,
                                    ups,
                                ),
                                self.account_manager.logins() == old(self).model().logins,
                                self.orderbook_manager == frame.orderbook_manager,
                                self.event_history == frame.event_history,
                                self.order_info == frame.order_info,
                                self.stock_manager == frame.stock_manager,
                                self.last_order_id == frame.last_order_id,
                            decreases updates@.len(),
                        {
                            if updates.len() == 0 {
                                proof {
                                    assert(updates_view(updates@) =~= Seq::<
                                        AccountUpdateV,
                                    >::empty());
                                }
                                break;
                            }
                            let ghost pre = updates@;
                            let upd = updates.remove(0);
                            proof {
                                assert(updates@ =~= pre.drop_first());
                                assert(updates_view(pre)[0] == upd@);
                                assert(updates_view(updates@) =~= updates_view(pre).drop_first());
                            }
                            self.account_manager.update(upd);
                        }
                        let task = PortalTask::OrderResponse(inv_id, order_resp);
                        proof {
                            assert(self.model() =~= apply_log(old(self).model(), log@).0);
                            assert(seq![task@] =~= apply_log(old(self).model(), log@).1);
                        }
                        Some(task)
                    },
                    None => {
                        proof {
                            assert(self.model() =~= apply_log(old(self).model(), log@).0);
                            assert(Seq::<PortalTaskV>::empty() =~= apply_log(
                                old(self).model(),
                                log@,
                            ).1);
                        }
                        None
                    },
                }
            },
            OrderbookLog::EventLog(event) => {
                let task = PortalTask::IncrementalEvent(event.clone());
                self.event_history.update_by_event(event.clone());
                self.order_info.update_by_event(event);
                proof {
                    assert(self.model() =~= apply_log(old(self).model(), log@).0);
                    assert(seq![task@] =~= apply_log(old(self).model(), log@).1);
                }
                Some(task)
            },
        }
    }

    /// Fold a whole log sequence, collecting the tasks in order.
    fn process_logs(&mut self, logs: Vec<OrderbookLog>) -> (tasks: Vec<PortalTask>)
        requires
            old(self).wf(),
        ensures
            final(self).wf(),
            final(self).model() == apply_logs(old(self).model(), logs_view(logs@)).0,
            tasks_view(tasks@) == apply_logs(old(self).model(), logs_view(logs@)).1,
    {
        let ghost logs0 = logs_view(logs@);
        let ghost model0 = old(self).model();
        let mut tasks: Vec<PortalTask> = Vec::new();
        let mut logs = logs;
        proof {
            assert(tasks_view(tasks@) =~= Seq::<PortalTaskV>::empty());
        }
        loop
            invariant
                self.wf(),
                apply_logs(model0, logs0).0 == apply_logs(self.model(), logs_view(logs@)).0,
                apply_logs(model0, logs0).1 =~= tasks_view(tasks@) + apply_logs(
                    self.model(),
                    logs_view(logs@),
                ).1,
            ensures
                self.wf(),
                self.model() == apply_logs(model0, logs0).0,
                tasks_view(tasks@) == apply_logs(model0, logs0).1,
            decreases logs@.len(),
        {
            if logs.len() == 0 {
                proof {
                    assert(logs_view(logs@) =~= Seq::<OrderbookLogV>::empty());
                    assert(tasks_view(tasks@) + Seq::<PortalTaskV>::empty() =~= tasks_view(
                        tasks@,
                    ));
                }
                break;
            }
            let ghost logs_pre = logs@;
            let ghost tasks_pre = tasks@;
            let log = logs.remove(0);
            proof {
                assert(logs@ =~= logs_pre.drop_first());
                assert(logs_view(logs_pre)[0] == log@);
                assert(logs_view(logs@) =~= logs_view(logs_pre).drop_first());
            }
            let task = self.process_log(log);
            match task {
                Some(t) => {
                    tasks.push(t);
                    proof {
                        assert(tasks_view(tasks@) =~= tasks_view(tasks_pre).push(t@));
                        assert(apply_logs(model0, logs0).1 =~= tasks_view(tasks@) + apply_logs(
                            self.model(),
                            logs_view(logs@),
                        ).1);
                    }
                },
                None => {
                    proof {
                        assert(apply_logs(model0, logs0).1 =~= tasks_view(tasks@) + apply_logs(
                            self.model(),
                            logs_view(logs@),
                        ).1);
                    }
                },
            }
        }
        tasks
    }
}


/// The stock map and the (empty) books after the listed stocks are loaded.
pub open spec fn stocks_loaded(
    st: Map<Seq<char>, StockRecord>,
    bk: Map<Seq<char>, BookV>,
    s: Seq<(Ticker, StockRecord)>,
) -> (Map<Seq<char>, StockRecord>, Map<Seq<char>, BookV>)
    decreases s.len(),
{
    if s.len() == 0 {
        (st, bk)
    } else {
        stocks_loaded(
            st.insert(s[0].0@, s[0].1),
            bk.insert(
                s[0].0@,
                BookV {
                    ticker: s[0].0@,
                    buys: Seq::empty(),
                    sells: Seq::empty(),
                    deleted: Set::empty(),
                },
            ),
            s.drop_first(),
        )
    }
}

/// The account registry after the investor roster is loaded.
pub open spec fn accounts_loaded(m: Map<InvId, AccountV>, s: Seq<Account>) -> Map<InvId, AccountV>
    decreases s.len(),
{
    if s.len() == 0 {
        m
    } else {
        accounts_loaded(m.insert(s[0].inv_id, s[0]@), s.drop_first())
    }
}

impl Portal {
    /// Initialize a portal with the listed stocks and the investor roster.
    pub fn new(stocks: Vec<(Ticker, StockRecord)>, investors: Vec<Account>) -> (r: Portal)
        requires
            forall|i: int|
                0 <= i < stocks@.len() ==> (#[trigger] stocks@[i].1.lot_size) > 0
                    && stocks@[i].1.mpf > 0,
            forall|i: int| 0 <= i < investors@.len() ==> (#[trigger] investors@[i]).wf(),
        ensures
            r.wf(),
            r.model() == (PortalV {
                books: stocks_loaded(Map::empty(), Map::empty(), stocks@).1,
                history: Seq::empty(),
                binds: Map::empty(),
                restings: Map::empty(),
                accounts: accounts_loaded(Map::empty(), investors@),
                logins: Set::empty(),
                stocks: stocks_loaded(Map::empty(), Map::empty(), stocks@).0,
                last_order_id: 0,
            }),
    {
        let ghost stocks0 = stocks@;
        let ghost investors0 = investors@;
        let mut orderbook_manager = OrderbookManager::new();
        let event_history = EventHistory::new();
        let order_info = OrderInfo::new();
        let mut account_manager = AccountManager::new();
        let mut stock_manager = StockManager::new();

        let mut stocks = stocks;
        loop
            invariant
                stock_manager.wf(),
                stock_manager.inner_wf(),
                orderbook_manager.wf(),
                stock_manager.stocks().dom() == orderbook_manager.books().dom(),
                stocks_loaded(Map::empty(), Map::empty(), stocks0) == stocks_loaded(
                    stock_manager.stocks(),
                    orderbook_manager.books(),
                    stocks@,
                ),
                forall|i: int|
                    0 <= i < stocks@.len() ==> (#[trigger] stocks@[i].1.lot_size) > 0
                        && stocks@[i].1.mpf > 0,
            ensures
                stock_manager.wf(),
                stock_manager.inner_wf(),
                orderbook_manager.wf(),
                stock_manager.stocks().dom() == orderbook_manager.books().dom(),
                stock_manager.stocks() == stocks_loaded(Map::empty(), Map::empty(), stocks0).0,
                orderbook_manager.books() == stocks_loaded(Map::empty(), Map::empty(), stocks0).1,
            decreases stocks@.len(),
        {
            if stocks.len() == 0 {
                break;
            }
            let ghost pre = stocks@;
            let pair = stocks.remove(0);
            proof {
                assert(stocks@ =~= pre.drop_first());
            }
            stock_manager.bind_stock(pair.0.clone(), pair.1);
            orderbook_manager.add_orderbook(pair.0);
            proof {
                assert(stock_manager.stocks().dom() =~= orderbook_manager.books().dom());
            }
        }

        let mut investors = investors;
        loop
            invariant
                account_manager.wf(),
                account_manager.logins() == Set::<InvId>::empty(),
                accounts_loaded(Map::empty(), investors0) == accounts_loaded(
                    account_manager.accounts_view(),
                    investors@,
                ),
                forall|i: int| 0 <= i < investors@.len() ==> (#[trigger] investors@[i]).wf(),
            ensures
                account_manager.wf(),
                account_manager.logins() == Set::<InvId>::empty(),
                account_manager.accounts_view() == accounts_loaded(Map::empty(), investors0),
            decreases investors@.len(),
        {
            if investors.len() == 0 {
                break;
            }
            let ghost pre = investors@;
            let inv = investors.remove(0);
            proof {
                assert(investors@ =~= pre.drop_first());
            }
            let inv_id = inv.inv_id;
            account_manager.add_account(inv_id, inv);
        }

        let r = Portal {
            orderbook_manager,
            event_history,
            order_info,
            account_manager,
            stock_manager,
            last_order_id: 0,
        };
        proof {
            assert(r.model() =~= PortalV {
                books: stocks_loaded(Map::empty(), Map::empty(), stocks0).1,
                history: Seq::empty(),
                binds: Map::empty(),
                restings: Map::empty(),
                accounts: accounts_loaded(Map::empty(), investors0),
                logins: Set::empty(),
                stocks: stocks_loaded(Map::empty(), Map::empty(), stocks0).0,
                last_order_id: 0,
            });
        }
        r
    }

    /// The last order id issued; the next accepted order gets the one above.
    pub fn last_order_id(&self) -> (r: OrderId)
        ensures
            r == self.model().last_order_id,
    {
        self.last_order_id
    }

    /// Try to login with an investor id and password.
    pub fn try_login(&mut self, inv_id: InvId, password: &Password) -> (r: bool)
        requires
            old(self).wf(),
        ensures
            final(self).wf(),
            r == login_ok(old(self).model(), inv_id, password@),
            final(self).model() == login_next(old(self).model(), inv_id, password@),
    {
        let r = self.account_manager.try_login(inv_id, password);
        proof {
            assert(self.model() =~= login_next(old(self).model(), inv_id, password@));
        }
        r
    }

    /// The ticker of a bound order.
    fn find_ticker_by_order_id(&self, order_id: OrderId) -> (r: Option<Ticker>)
        ensures
            match r {
                Some(t) => self.model().binds.contains_key(order_id) && t@ == self.model().binds[
                    order_id
                ].ticker,
                None => !self.model().binds.contains_key(order_id),
            },
    {
        match self.order_info.get_order_record(&order_id) {
            Some(order_rec) => Some(order_rec.ticker.clone()),
            None => None,
        }
    }

    /// The next order id off the monotone counter.
    fn generate_order_id(&mut self) -> (r: OrderId)
        requires
            old(self).model().last_order_id < u64::MAX,
        ensures
            r == old(self).model().last_order_id + 1,
            final(self).model() == (PortalV { last_order_id: r, ..old(self).model() }),
            final(self).wf() == old(self).wf(),
    {
        self.last_order_id = self.last_order_id + 1;
        proof {
            assert(self.model() =~= PortalV {
                last_order_id: self.last_order_id,
                ..old(self).model()
            });
        }
        self.last_order_id
    }

    /// The reservation a new order request asks for.
    fn make_potential_order(&self, req: &PortalNewOrderRequest) -> (r: PotentialOrder)
        ensures
            r@ == potential_of(req@),
    {
        match req.direction {
            Direction::Buy => PotentialOrder::PotentialBuy(req.price, req.size),
            Direction::Sell => PotentialOrder::PotentialSell(req.size, req.ticker.clone()),
        }
    }

    /// Fill a market order's price in from the opposite side of the book, or
    /// from the close price when that side is empty.
    fn fill_in_market_order(&mut self, req: PortalNewOrderRequest) -> (r: PortalNewOrderRequest)
        requires
            old(self).wf(),
            old(self).model().stocks.contains_key(req@.ticker),
        ensures
            final(self).wf(),
            final(self).model() == fill_in_spec(old(self).model(), req@).0,
            r@ == fill_in_spec(old(self).model(), req@).1,
    {
        if req.limit_or_market == LimitOrMarket::Market {
            proof {
                assert(self.orderbook_manager.books().dom() == self.stock_manager.stocks().dom());
                assert(self.orderbook_manager.books().contains_key(req@.ticker));
            }
            match req.direction {
                Direction::Buy => {
                    let looked = self.orderbook_manager.best_sell_price(&req.ticker);
                    let best_price: u64 = match looked {
                        Some(p) => p,
                        None => {
                            match self.stock_manager.get_close_price(&req.ticker) {
                                Some(c) => c,
                                None => vstd::pervasive::unreached(),
                            }
                        },
                    };
                    let out = PortalNewOrderRequest { price: best_price, ..req };
                    proof {
                        assert(self.orderbook_manager.books().dom() =~= self.stock_manager
                            .stocks().dom());
                        assert(self.model() =~= fill_in_spec(old(self).model(), req@).0);
                    }
                    out
                },
                Direction::Sell => {
                    let looked = self.orderbook_manager.best_buy_price(&req.ticker);
                    let best_price: u64 = match looked {
                        Some(p) => p,
                        None => {
                            match self.stock_manager.get_close_price(&req.ticker) {
                                Some(c) => c,
                                None => vstd::pervasive::unreached(),
                            }
                        },
                    };
                    let out = PortalNewOrderRequest { price: best_price, ..req };
                    proof {
                        assert(self.orderbook_manager.books().dom() =~= self.stock_manager
                            .stocks().dom());
                        assert(self.model() =~= fill_in_spec(old(self).model(), req@).0);
                    }
                    out
                },
            }
        } else {
            req
        }
    }

    /// Hand a validated, priced and reserved order to the engine and fold the
    /// logs it emits.
    fn process_new_order(&mut self, order_id: OrderId, req: PortalNewOrderRequest) -> (tasks: Vec<
        PortalTask,
    >)
        requires
            old(self).wf(),
        ensures
            final(self).wf(),
            ({
                let d = engine_dispatch(
                    old(self).model(),
                    req@.ticker,
                    OrderbookRequest::NewOrder(
                        NewOrderRequest {
                            order_id,
                            direction: req@.direction,
                            size: req@.size,
                            price: req@.price,
                            timestamp: req@.timestamp,
                            limit_or_market: req@.limit_or_market,
                            time_in_force: req@.time_in_force,
                        },
                    ),
                );
                &&& final(self).model() == d.0
                &&& tasks_view(tasks@) == d.1
            }),
    {
        let order_book_req = OrderbookRequest::NewOrder(
            NewOrderRequest {
                order_id,
                direction: req.direction,
                size: req.size,
                price: req.price,
                limit_or_market: req.limit_or_market,
                time_in_force: req.time_in_force,
                timestamp: req.timestamp,
            },
        );
        let ghost mid_target = PortalV {
            books: old(self).model().books.insert(
                req@.ticker,
                book_step(old(self).model().books[req@.ticker], order_book_req).1,
            ),
            ..old(self).model()
        };
        let logs = self.orderbook_manager.handle_orderbook_request(req.ticker, order_book_req);
        proof {
            assert(self.orderbook_manager.books().dom() =~= self.stock_manager.stocks().dom());
            if old(self).model().books.contains_key(req@.ticker) {
                assert(self.model() =~= mid_target);
            } else {
                assert(self.model() =~= old(self).model());
                assert(logs_view(logs@) =~= Seq::<OrderbookLogV>::empty());
            }
        }
        let tasks = self.process_logs(logs);
        tasks
    }

    /// Validate, price, reserve and dispatch one new order; exactly
    /// [`new_order_step`].
    fn process_portal_new_order(
        &mut self,
        inv_id: InvId,
        seqnum: SeqNum,
        req: PortalNewOrderRequest,
    ) -> (tasks: Vec<PortalTask>)
        requires
            old(self).wf(),
            old(self).model().last_order_id < u64::MAX,
        ensures
            final(self).wf(),
            final(self).model() == new_order_step(old(self).model(), inv_id, seqnum, req@).0,
            tasks_view(tasks@) == new_order_step(old(self).model(), inv_id, seqnum, req@).1,
    {
        let ghost req0 = req@;
        if self.stock_manager.check_valid_order(&req.ticker, &req.price, &req.size) {
            let req = self.fill_in_market_order(req);
            let p_order: PotentialOrder = self.make_potential_order(&req);
            if self.account_manager.valid_potential_order(&inv_id, &p_order) {
                let order_id = self.generate_order_id();
                let mut tasks: Vec<PortalTask> = Vec::new();
                tasks.push(PortalTask::OrderAck(inv_id, seqnum, order_id));
                let ghost model_before_reserve = self.model();
                self.account_manager.update_by_potential_order(inv_id, p_order);
                self.order_info.add_new_order(&order_id, &inv_id, &req);
                let ghost p2 = PortalV {
                    accounts: apply_potential(
                        fill_in_spec(old(self).model(), req0).0.accounts,
                        inv_id,
                        potential_of(fill_in_spec(old(self).model(), req0).1),
                    ),
                    binds: fill_in_spec(old(self).model(), req0).0.binds.insert(
                        order_id,
                        record_of(inv_id, fill_in_spec(old(self).model(), req0).1),
                    ),
                    last_order_id: order_id,
                    ..fill_in_spec(old(self).model(), req0).0
                };
                proof {
                    assert(self.model() =~= p2);
                }
                let mut more = self.process_new_order(order_id, req);
                tasks.append(&mut more);
                proof {
                    assert(tasks_view(tasks@) =~= new_order_step(
                        old(self).model(),
                        inv_id,
                        seqnum,
                        req0,
                    ).1);
                }
                tasks
            } else {
                let mut tasks: Vec<PortalTask> = Vec::new();
                tasks.push(
                    PortalTask::OrderReject(
                        inv_id,
                        seqnum,
                        String::from_str(
                            "Invalid new order request: Insufficient cash or lot to complete the order",
                        ),
                    ),
                );
                proof {
                    assert(tasks_view(tasks@) =~= new_order_step(
                        old(self).model(),
                        inv_id,
                        seqnum,
                        req0,
                    ).1);
                }
                tasks
            }
        } else {
            let mut tasks: Vec<PortalTask> = Vec::new();
            tasks.push(
                PortalTask::OrderReject(
                    inv_id,
                    seqnum,
                    String::from_str("Invalid new order request: Invalid price or size"),
                ),
            );
            proof {
                assert(tasks_view(tasks@) =~= new_order_step(
                    old(self).model(),
                    inv_id,
                    seqnum,
                    req@,
                ).1);
            }
            tasks
        }
    }

    /// Gate and dispatch one cancel; exactly [`cancel_step`].
    fn process_portal_cancel_order(
        &mut self,
        inv_id: InvId,
        seqnum: SeqNum,
        order_id: OrderId,
    ) -> (tasks: Vec<PortalTask>)
        requires
            old(self).wf(),
        ensures
            final(self).wf(),
            final(self).model() == cancel_step(old(self).model(), inv_id, seqnum, order_id).0,
            tasks_view(tasks@) == cancel_step(old(self).model(), inv_id, seqnum, order_id).1,
    {
        if self.order_info.valid_cancel_order(&order_id, &inv_id) {
            let req = OrderbookRequest::CancelOrder(CancelOrderRequest { order_id });
            let ticker = match self.find_ticker_by_order_id(order_id) {
                Some(t) => t,
                None => vstd::pervasive::unreached(),
            };
            let ghost p1 = PortalV {
                restings: gc_zero(old(self).model().restings, order_id),
                ..old(self).model()
            };
            proof {
                assert(self.model() =~= p1);
            }
            let logs = self.orderbook_manager.handle_orderbook_request(ticker, req);
            proof {
                assert(self.orderbook_manager.books().dom() =~= self.stock_manager.stocks()
                    .dom());
                if p1.books.contains_key(ticker@) {
                    assert(self.model() =~= PortalV {
                        books: p1.books.insert(ticker@, book_step(p1.books[ticker@], req).1),
                        ..p1
                    });
                } else {
                    assert(self.model() =~= p1);
                    assert(logs_view(logs@) =~= Seq::<OrderbookLogV>::empty());
                }
            }
            let tasks = self.process_logs(logs);
            tasks
        } else {
            let mut tasks: Vec<PortalTask> = Vec::new();
            tasks.push(
                PortalTask::CancelReject(
                    inv_id,
                    seqnum,
                    String::from_str("Invalid cancel order request"),
                ),
            );
            proof {
                assert(self.model() =~= cancel_step(
                    old(self).model(),
                    inv_id,
                    seqnum,
                    order_id,
                ).0);
                assert(tasks_view(tasks@) =~= cancel_step(
                    old(self).model(),
                    inv_id,
                    seqnum,
                    order_id,
                ).1);
            }
            tasks
        }
    }

    /// Process one request and return the tasks it triggers, exactly
    /// [`portal_step`]. The counter bound keeps order-id assignment from
    /// wrapping; callers check it before entering.
    pub fn process_request(&mut self, seqnum: SeqNum, req: PortalRequest) -> (tasks: Vec<
        PortalTask,
    >)
        requires
            old(self).wf(),
            old(self).model().last_order_id < u64::MAX,
        ensures
            final(self).wf(),
            final(self).model() == portal_step(old(self).model(), seqnum, req@).0,
            tasks_view(tasks@) == portal_step(old(self).model(), seqnum, req@).1,
    {
        match req {
            PortalRequest::EventHistory(sub_id) => {
                let events = self.event_history.get_history();
                let mut tasks: Vec<PortalTask> = Vec::new();
                tasks.push(PortalTask::EventHistory(sub_id, events));
                proof {
                    assert(tasks_view(tasks@) =~= portal_step(
                        old(self).model(),
                        seqnum,
                        req@,
                    ).1);
                }
                tasks
            },
            PortalRequest::NewOrder(inv_id, order_req) => {
                self.process_portal_new_order(inv_id, seqnum, order_req)
            },
            PortalRequest::CancelOrder(inv_id, order_id) => {
                self.process_portal_cancel_order(inv_id, seqnum, order_id)
            },
        }
    }
}

} // verus!
