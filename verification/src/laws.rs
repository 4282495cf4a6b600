//! Laws of the library, proved once and for all: ordering of the queues,
//! uniqueness of request answers, idempotence of dead cancels, single login,
//! replay snapshots, and the correspondence of the event history with the
//! incremental events the portal publishes.

use vstd::prelude::*;
use crate::account::{valid_potential, AccountV};
use crate::account_manager::{apply_potential, apply_update};
use crate::account_types::{AccountUpdateV, PotentialOrderV};
use crate::common::{Cash, InvId, OrderId, Price, SeqNum, Size};
use crate::event::EventV;
use crate::order::{buy_better, sell_better};
use crate::orderbook::BookV;
use crate::portal::{
    apply_log, apply_logs, cancel_step, cancel_valid, login_next, login_ok, portal_step, PortalV,
};
use crate::portal_types::{PortalRequestV, PortalTaskV};

verus! {

/// Price-time priority of the buy queue: an order that pops earlier has the
/// higher price, or the same price and no later timestamp.
///
/// Matching consumes the queue from the front, so this is the order in which
/// resting buys meet an incoming sell.
pub proof fn lemma_buy_price_time_priority(b: BookV, i: int, j: int)
    requires
        b.wf(),
        0 <= i < j < b.buys.len(),
    ensures
        b.buys[i].price > b.buys[j].price || (b.buys[i].price == b.buys[j].price
            && b.buys[i].timestamp <= b.buys[j].timestamp),
{
    assert(!buy_better(b.buys[j], b.buys[i]));
}

/// Price-time priority of the sell queue: an order that pops earlier has the
/// lower price, or the same price and no later timestamp.
pub proof fn lemma_sell_price_time_priority(b: BookV, i: int, j: int)
    requires
        b.wf(),
        0 <= i < j < b.sells.len(),
    ensures
        b.sells[i].price < b.sells[j].price || (b.sells[i].price == b.sells[j].price
            && b.sells[i].timestamp <= b.sells[j].timestamp),
{
    assert(!sell_better(b.sells[j], b.sells[i]));
}

/// Folding engine logs produces market reports only, never an
/// acknowledgement or a rejection.
proof fn lemma_apply_logs_no_answers(p: PortalV, logs: Seq<crate::orderbook_types::OrderbookLogV>)
    ensures
        forall|i: int|
            0 <= i < apply_logs(p, logs).1.len() ==> !(#[trigger] apply_logs(
                p,
                logs,
            ).1[i]).is_request_answer(),
    decreases logs.len(),
{
    if logs.len() > 0 {
        let first = apply_log(p, logs[0]);
        let rest = apply_logs(first.0, logs.drop_first());
        lemma_apply_logs_no_answers(first.0, logs.drop_first());
        assert forall|i: int|
            0 <= i < apply_logs(p, logs).1.len() implies !(#[trigger] apply_logs(
            p,
            logs,
        ).1[i]).is_request_answer() by {
            if i < first.1.len() {
                assert(apply_logs(p, logs).1[i] == first.1[i]);
            } else {
                assert(apply_logs(p, logs).1[i] == rest.1[i - first.1.len()]);
            }
        }
    }
}

/// At-most-once answer: for one request the portal emits at most one of
/// acknowledgement, order rejection and cancel rejection — whatever the
/// request and whatever the state.
pub proof fn lemma_at_most_one_answer(p: PortalV, seqnum: SeqNum, req: PortalRequestV)
    ensures
        forall|i: int, j: int|
            0 <= i < j < portal_step(p, seqnum, req).1.len() && (#[trigger] portal_step(
                p,
                seqnum,
                req,
            ).1[i]).is_request_answer() ==> !(#[trigger] portal_step(
                p,
                seqnum,
                req,
            ).1[j]).is_request_answer(),
{
    let tasks = portal_step(p, seqnum, req).1;
    match req {
        PortalRequestV::EventHistory(_) => {},
        PortalRequestV::NewOrder(inv_id, order_req) => {
            let stepped = crate::portal::new_order_step(p, inv_id, seqnum, order_req);
            if crate::stock_manager::spec_valid_order(
                p.stocks,
                order_req.ticker,
                order_req.price,
                order_req.size,
            ) {
                let filled = crate::portal::fill_in_spec(p, order_req);
                let pot = crate::portal::potential_of(filled.1);
                if filled.0.accounts.contains_key(inv_id) && valid_potential(
                    filled.0.accounts[inv_id],
                    pot,
                ) {
                    let order_id = (filled.0.last_order_id + 1) as OrderId;
                    let p2 = PortalV {
                        accounts: apply_potential(filled.0.accounts, inv_id, pot),
                        binds: filled.0.binds.insert(
                            order_id,
                            crate::portal::record_of(inv_id, filled.1),
                        ),
                        last_order_id: order_id,
                        ..filled.0
                    };
                    if p2.books.contains_key(filled.1.ticker) {
                        let bs = crate::orderbook::book_step(
                            p2.books[filled.1.ticker],
                            crate::orderbook_types::OrderbookRequest::NewOrder(
                                crate::orderbook_types::NewOrderRequest {
                                    order_id,
                                    direction: filled.1.direction,
                                    size: filled.1.size,
                                    price: filled.1.price,
                                    timestamp: filled.1.timestamp,
                                    limit_or_market: filled.1.limit_or_market,
                                    time_in_force: filled.1.time_in_force,
                                },
                            ),
                        );
                        lemma_apply_logs_no_answers(
                            PortalV { books: p2.books.insert(filled.1.ticker, bs.1), ..p2 },
                            bs.0,
                        );
                    }
                }
            }
        },
        PortalRequestV::CancelOrder(inv_id, order_id) => {
            if cancel_valid(p, order_id, inv_id) {
                let p1 = PortalV {
                    restings: crate::order_info::gc_zero(p.restings, order_id),
                    ..p
                };
                let ticker = p.binds[order_id].ticker;
                if p1.books.contains_key(ticker) {
                    let bs = crate::orderbook::book_step(
                        p1.books[ticker],
                        crate::orderbook_types::OrderbookRequest::CancelOrder(
                            crate::orderbook_types::CancelOrderRequest { order_id },
                        ),
                    );
                    lemma_apply_logs_no_answers(
                        PortalV { books: p1.books.insert(ticker, bs.1), ..p1 },
                        bs.0,
                    );
                }
            }
        },
    }
}

/// Cancelling an order that is gone — no live resting entry, as after a full
/// fill, an earlier cancel, or for an id never issued — answers with a
/// cancel rejection and leaves the portal untouched.
pub proof fn lemma_cancel_dead_unchanged(p: PortalV, inv_id: InvId, seqnum: SeqNum, order_id: OrderId)
    requires
        !p.restings.contains_key(order_id),
    ensures
        cancel_step(p, inv_id, seqnum, order_id).0 == p,
        cancel_step(p, inv_id, seqnum, order_id).1 == seq![
            PortalTaskV::CancelReject(inv_id, seqnum, "Invalid cancel order request"@),
        ],
{
    assert(crate::order_info::gc_zero(p.restings, order_id) == p.restings);
    assert(cancel_step(p, inv_id, seqnum, order_id).0 =~= p);
}

/// Double login: once a login on an investor id has succeeded, any further
/// login on the same id is rejected, whatever password it brings.
pub proof fn lemma_second_login_fails(
    p: PortalV,
    inv_id: InvId,
    first_password: Seq<char>,
    second_password: Seq<char>,
)
    requires
        login_ok(p, inv_id, first_password),
    ensures
        !login_ok(login_next(p, inv_id, first_password), inv_id, second_password),
{
}

/// Subscription replay: a subscriber joining while the log holds its current
/// events is handed exactly those events, in order, and the portal does not
/// move.
pub proof fn lemma_subscription_replay(p: PortalV, seqnum: SeqNum, sub_id: u64)
    ensures
        portal_step(p, seqnum, PortalRequestV::EventHistory(sub_id)).0 == p,
        portal_step(p, seqnum, PortalRequestV::EventHistory(sub_id)).1 == seq![
            PortalTaskV::EventHistory(sub_id, p.history),
        ],
{
}

/// The incremental-event payloads of a task sequence, in order.
pub open spec fn incremental_events_of(tasks: Seq<PortalTaskV>) -> Seq<EventV>
    decreases tasks.len(),
{
    if tasks.len() == 0 {
        seq![]
    } else {
        let rest = incremental_events_of(tasks.drop_first());
        match tasks[0] {
            PortalTaskV::IncrementalEvent(ev) => seq![ev] + rest,
            _ => rest,
        }
    }
}

proof fn lemma_incremental_concat(a: Seq<PortalTaskV>, b: Seq<PortalTaskV>)
    ensures
        incremental_events_of(a + b) == incremental_events_of(a) + incremental_events_of(b),
    decreases a.len(),
{
    if a.len() == 0 {
        assert(a + b =~= b);
        assert(incremental_events_of(a) + incremental_events_of(b) =~= incremental_events_of(b));
    } else {
        lemma_incremental_concat(a.drop_first(), b);
        assert((a + b).drop_first() =~= a.drop_first() + b);
        match a[0] {
            PortalTaskV::IncrementalEvent(ev) => {
                assert(incremental_events_of(a + b) =~= incremental_events_of(a)
                    + incremental_events_of(b));
            },
            _ => {},
        }
    }
}

proof fn lemma_apply_logs_history(p: PortalV, logs: Seq<crate::orderbook_types::OrderbookLogV>)
    ensures
        apply_logs(p, logs).0.history == p.history + incremental_events_of(apply_logs(p, logs).1),
    decreases logs.len(),
{
    reveal_with_fuel(incremental_events_of, 3);
    if logs.len() == 0 {
        assert(p.history + incremental_events_of(apply_logs(p, logs).1) =~= p.history);
    } else {
        let first = apply_log(p, logs[0]);
        lemma_apply_logs_history(first.0, logs.drop_first());
        lemma_incremental_concat(first.1, apply_logs(first.0, logs.drop_first()).1);
        match logs[0] {
            crate::orderbook_types::OrderbookLogV::OrderLog(_) => {
                assert(incremental_events_of(first.1) =~= Seq::<EventV>::empty());
                assert(first.0.history == p.history);
                assert(apply_logs(p, logs).0.history =~= p.history + incremental_events_of(
                    apply_logs(p, logs).1,
                ));
            },
            crate::orderbook_types::OrderbookLogV::EventLog(ev) => {
                assert(incremental_events_of(first.1) =~= seq![ev]);
                assert(first.0.history =~= p.history + seq![ev]);
                assert(apply_logs(p, logs).0.history =~= p.history + incremental_events_of(
                    apply_logs(p, logs).1,
                ));
            },
        }
    }
}

/// Event-log monotonicity: a request only appends to the history, and what
/// it appends is exactly the incremental events it publishes, in order. A
/// subscriber that replays the history and then follows the incremental
/// events therefore sees every event once, in log order.
pub proof fn lemma_history_append_only(p: PortalV, seqnum: SeqNum, req: PortalRequestV)
    ensures
        portal_step(p, seqnum, req).0.history == p.history + incremental_events_of(
            portal_step(p, seqnum, req).1,
        ),
{
    reveal_with_fuel(incremental_events_of, 3);
    let stepped = portal_step(p, seqnum, req);
    match req {
        PortalRequestV::EventHistory(_) => {
            assert(stepped.0.history =~= p.history + incremental_events_of(stepped.1));
        },
        PortalRequestV::NewOrder(inv_id, order_req) => {
            if crate::stock_manager::spec_valid_order(
                p.stocks,
                order_req.ticker,
                order_req.price,
                order_req.size,
            ) {
                let filled = crate::portal::fill_in_spec(p, order_req);
                let pot = crate::portal::potential_of(filled.1);
                if filled.0.accounts.contains_key(inv_id) && valid_potential(
                    filled.0.accounts[inv_id],
                    pot,
                ) {
                    let order_id = (filled.0.last_order_id + 1) as OrderId;
                    let p2 = PortalV {
                        accounts: apply_potential(filled.0.accounts, inv_id, pot),
                        binds: filled.0.binds.insert(
                            order_id,
                            crate::portal::record_of(inv_id, filled.1),
                        ),
                        last_order_id: order_id,
                        ..filled.0
                    };
                    if p2.books.contains_key(filled.1.ticker) {
                        let bs = crate::orderbook::book_step(
                            p2.books[filled.1.ticker],
                            crate::orderbook_types::OrderbookRequest::NewOrder(
                                crate::orderbook_types::NewOrderRequest {
                                    order_id,
                                    direction: filled.1.direction,
                                    size: filled.1.size,
                                    price: filled.1.price,
                                    timestamp: filled.1.timestamp,
                                    limit_or_market: filled.1.limit_or_market,
                                    time_in_force: filled.1.time_in_force,
                                },
                            ),
                        );
                        let p3 = PortalV { books: p2.books.insert(filled.1.ticker, bs.1), ..p2 };
                        lemma_apply_logs_history(p3, bs.0);
                        assert(incremental_events_of(stepped.1) =~= incremental_events_of(
                            apply_logs(p3, bs.0).1,
                        )) by {
                            lemma_incremental_concat(
                                seq![PortalTaskV::OrderAck(inv_id, seqnum, order_id)],
                                apply_logs(p3, bs.0).1,
                            );
                            assert(seq![PortalTaskV::OrderAck(inv_id, seqnum, order_id)]
                                + apply_logs(p3, bs.0).1 =~= stepped.1);
                            assert(incremental_events_of(
                                seq![PortalTaskV::OrderAck(inv_id, seqnum, order_id)],
                            ) =~= Seq::<EventV>::empty());
                            assert(Seq::<EventV>::empty() + incremental_events_of(
                                apply_logs(p3, bs.0).1,
                            ) =~= incremental_events_of(apply_logs(p3, bs.0).1));
                        }
                    } else {
                        assert(stepped.0.history =~= p.history + incremental_events_of(
                            stepped.1,
                        ));
                    }
                } else {
                    assert(stepped.0.history =~= p.history + incremental_events_of(stepped.1));
                }
            } else {
                assert(stepped.0.history =~= p.history + incremental_events_of(stepped.1));
            }
        },
        PortalRequestV::CancelOrder(inv_id, order_id) => {
            if cancel_valid(p, order_id, inv_id) {
                let p1 = PortalV {
                    restings: crate::order_info::gc_zero(p.restings, order_id),
                    ..p
                };
                let ticker = p.binds[order_id].ticker;
                if p1.books.contains_key(ticker) {
                    let bs = crate::orderbook::book_step(
                        p1.books[ticker],
                        crate::orderbook_types::OrderbookRequest::CancelOrder(
                            crate::orderbook_types::CancelOrderRequest { order_id },
                        ),
                    );
                    lemma_apply_logs_history(
                        PortalV { books: p1.books.insert(ticker, bs.1), ..p1 },
                        bs.0,
                    );
                } else {
                    assert(stepped.0.history =~= p.history + incremental_events_of(stepped.1));
                }
            } else {
                assert(stepped.0.history =~= p.history + incremental_events_of(stepped.1));
            }
        },
    }
}

/// Full cancel refund, the cash half of conservation: reserving a buy's full
/// cost and later refunding it in one cash credit restores every account to
/// what it was.
pub proof fn lemma_reserve_then_refund_buy(
    m: Map<InvId, AccountV>,
    inv_id: InvId,
    price: Price,
    size: Size,
)
    requires
        m.contains_key(inv_id),
        valid_potential(m[inv_id], PotentialOrderV::PotentialBuy(price, size)),
    ensures
        apply_update(
            apply_potential(m, inv_id, PotentialOrderV::PotentialBuy(price, size)),
            AccountUpdateV::UpdCash(inv_id, (price * size) as Cash),
        ) == m,
{
    let reserved = apply_potential(m, inv_id, PotentialOrderV::PotentialBuy(price, size));
    let restored = apply_update(reserved, AccountUpdateV::UpdCash(inv_id, (price * size) as Cash));
    assert(restored[inv_id] =~= m[inv_id]);
    assert(restored =~= m);
}

/// Full cancel refund, the position half: reserving a sell's shares and
/// later crediting them back restores every account to what it was.
pub proof fn lemma_reserve_then_refund_sell(
    m: Map<InvId, AccountV>,
    inv_id: InvId,
    size: Size,
    ticker: Seq<char>,
)
    requires
        m.contains_key(inv_id),
        valid_potential(m[inv_id], PotentialOrderV::PotentialSell(size, ticker)),
    ensures
        apply_update(
            apply_potential(m, inv_id, PotentialOrderV::PotentialSell(size, ticker)),
            AccountUpdateV::AddPos(inv_id, ticker, size),
        ) == m,
{
    let reserved = apply_potential(m, inv_id, PotentialOrderV::PotentialSell(size, ticker));
    let restored = apply_update(reserved, AccountUpdateV::AddPos(inv_id, ticker, size));
    assert(restored[inv_id].positions =~= m[inv_id].positions);
    assert(restored[inv_id] =~= m[inv_id]);
    assert(restored =~= m);
}


/// The order an engine log speaks of.
pub open spec fn log_order_id(l: crate::orderbook_types::OrderbookLogV) -> OrderId {
    match l {
        crate::orderbook_types::OrderbookLogV::OrderLog(r) => r.order_id(),
        crate::orderbook_types::OrderbookLogV::EventLog(e) => e.order_id(),
    }
}

/// The queue `post` is `pre` with its first `d` entries consumed and the
/// head of what remains possibly reduced in size (its identity, price and
/// timestamp kept).
pub open spec fn consumed_from_front(
    pre: Seq<crate::order::SellOrder>,
    post: Seq<crate::order::SellOrder>,
    d: int,
) -> bool {
    &&& 0 <= d <= pre.len()
    &&& post.len() == pre.len() - d
    &&& (forall|k: int| 1 <= k < post.len() ==> #[trigger] post[k] == pre[d + k])
    &&& (post.len() > 0 ==> post[0].order_id == pre[d].order_id && post[0].price == pre[d].price
        && post[0].timestamp == pre[d].timestamp && post[0].size <= pre[d].size)
}

/// After matching an incoming buy, the sell queue that remains is a suffix
/// of the old one whose head may have shrunk: matching consumes the queue
/// strictly from the front. Together with the sortedness the book keeps
/// (see [`lemma_sell_price_time_priority`]) this is price-time priority:
/// a better-priced resting order, or an equally-priced earlier one, is
/// matched (or discarded as a tombstone) before any worse one is touched.
pub proof fn lemma_match_buy_consumes_front(
    ticker: Seq<char>,
    sells: Seq<crate::order::SellOrder>,
    deleted: Set<OrderId>,
    req: crate::orderbook_types::NewOrderRequest,
    left: Size,
)
    ensures
        exists|d: int|
            #[trigger] consumed_from_front(
                sells,
                crate::orderbook::match_buy(ticker, sells, deleted, req, left).sells,
                d,
            ),
    decreases sells.len(), left,
{
    let post = crate::orderbook::match_buy(ticker, sells, deleted, req, left).sells;
    if left == 0 || sells.len() == 0 {
        assert(consumed_from_front(sells, post, 0));
    } else {
        let best = sells[0];
        if deleted.contains(best.order_id) {
            lemma_match_buy_consumes_front(
                ticker,
                sells.drop_first(),
                deleted.remove(best.order_id),
                req,
                left,
            );
            let d0 = choose|d0: int|
                #[trigger] consumed_from_front(sells.drop_first(), post, d0);
            assert(consumed_from_front(sells, post, d0 + 1)) by {
                assert(forall|k: int|
                    1 <= k < post.len() ==> #[trigger] post[k] == sells.drop_first()[d0 + k]
                        && sells.drop_first()[d0 + k] == sells[d0 + 1 + k]);
                assert(post.len() > 0 ==> sells.drop_first()[d0] == sells[d0 + 1]);
            }
        } else if best.price > req.price {
            assert(consumed_from_front(sells, post, 0));
        } else if left < best.size {
            assert(post == sells.update(
                0,
                crate::order::SellOrder {
                    order_id: best.order_id,
                    size: (best.size - left) as Size,
                    price: best.price,
                    timestamp: best.timestamp,
                },
            ));
            assert(consumed_from_front(sells, post, 0));
        } else {
            lemma_match_buy_consumes_front(
                ticker,
                sells.drop_first(),
                deleted,
                req,
                (left - best.size) as Size,
            );
            let d0 = choose|d0: int|
                #[trigger] consumed_from_front(sells.drop_first(), post, d0);
            assert(consumed_from_front(sells, post, d0 + 1)) by {
                assert(forall|k: int|
                    1 <= k < post.len() ==> #[trigger] post[k] == sells.drop_first()[d0 + k]
                        && sells.drop_first()[d0 + k] == sells[d0 + 1 + k]);
                assert(post.len() > 0 ==> sells.drop_first()[d0] == sells[d0 + 1]);
            }
        }
    }
}

/// The log `l` speaks of the order `req_id` or of one resting in `sells`.
pub open spec fn log_from(
    l: crate::orderbook_types::OrderbookLogV,
    req_id: OrderId,
    sells: Seq<crate::order::SellOrder>,
) -> bool {
    log_order_id(l) == req_id || exists|k: int|
        0 <= k < sells.len() && (#[trigger] sells[k]).order_id == log_order_id(l)
}

/// Every log matching an incoming buy emits speaks of the incoming order or
/// of a sell that was resting when the request arrived: executions never
/// name an order the market has not seen.
pub proof fn lemma_match_buy_provenance(
    ticker: Seq<char>,
    sells: Seq<crate::order::SellOrder>,
    deleted: Set<OrderId>,
    req: crate::orderbook_types::NewOrderRequest,
    left: Size,
)
    ensures
        forall|i: int|
            0 <= i < crate::orderbook::match_buy(ticker, sells, deleted, req, left).logs.len()
                ==> #[trigger] log_from(
                crate::orderbook::match_buy(ticker, sells, deleted, req, left).logs[i],
                req.order_id,
                sells,
            ),
    decreases sells.len(), left,
{
    let m = crate::orderbook::match_buy(ticker, sells, deleted, req, left);
    if left == 0 || sells.len() == 0 {
    } else {
        let best = sells[0];
        if deleted.contains(best.order_id) {
            lemma_match_buy_provenance(
                ticker,
                sells.drop_first(),
                deleted.remove(best.order_id),
                req,
                left,
            );
            assert forall|i: int| 0 <= i < m.logs.len() implies #[trigger] log_from(
                m.logs[i],
                req.order_id,
                sells,
            ) by {
                let mr = crate::orderbook::match_buy(
                    ticker,
                    sells.drop_first(),
                    deleted.remove(best.order_id),
                    req,
                    left,
                );
                assert(m.logs == mr.logs);
                assert(log_from(mr.logs[i], req.order_id, sells.drop_first()));
                let id = log_order_id(m.logs[i]);
                if id != req.order_id {
                    let k = choose|k: int|
                        0 <= k < sells.drop_first().len() && (#[trigger] sells.drop_first()[k]).order_id
                            == id;
                    assert(sells[k + 1].order_id == id);
                }
            }
        } else if best.price > req.price {
        } else if left < best.size {
            assert forall|i: int| 0 <= i < m.logs.len() implies #[trigger] log_from(
                m.logs[i],
                req.order_id,
                sells,
            ) by {
                if log_order_id(m.logs[i]) == best.order_id {
                    assert(sells[0].order_id == best.order_id);
                }
            }
        } else {
            lemma_match_buy_provenance(
                ticker,
                sells.drop_first(),
                deleted,
                req,
                (left - best.size) as Size,
            );
            let m0 = crate::orderbook::match_buy(
                ticker,
                sells.drop_first(),
                deleted,
                req,
                (left - best.size) as Size,
            );
            assert forall|i: int| 0 <= i < m.logs.len() implies #[trigger] log_from(
                m.logs[i],
                req.order_id,
                sells,
            ) by {
                if i < 5 {
                    if log_order_id(m.logs[i]) == best.order_id {
                        assert(sells[0].order_id == best.order_id);
                    }
                } else {
                    assert(m.logs[i] == m0.logs[i - 5]);
                    assert(log_from(m0.logs[i - 5], req.order_id, sells.drop_first()));
                    let id = log_order_id(m.logs[i]);
                    if id != req.order_id {
                        let k = choose|k: int|
                            0 <= k < sells.drop_first().len() && (#[trigger] sells.drop_first()[k]).order_id
                                == id;
                        assert(sells[k + 1].order_id == id);
                    }
                }
            }
        }
    }
}


/// Mirror of [`consumed_from_front`] for the buy queue.
pub open spec fn consumed_from_front_buys(
    pre: Seq<crate::order::BuyOrder>,
    post: Seq<crate::order::BuyOrder>,
    d: int,
) -> bool {
    &&& 0 <= d <= pre.len()
    &&& post.len() == pre.len() - d
    &&& (forall|k: int| 1 <= k < post.len() ==> #[trigger] post[k] == pre[d + k])
    &&& (post.len() > 0 ==> post[0].order_id == pre[d].order_id && post[0].price == pre[d].price
        && post[0].timestamp == pre[d].timestamp && post[0].size <= pre[d].size)
}

/// Mirror of [`lemma_match_buy_consumes_front`] for an incoming sell.
pub proof fn lemma_match_sell_consumes_front(
    ticker: Seq<char>,
    buys: Seq<crate::order::BuyOrder>,
    deleted: Set<OrderId>,
    req: crate::orderbook_types::NewOrderRequest,
    left: Size,
)
    ensures
        exists|d: int|
            #[trigger] consumed_from_front_buys(
                buys,
                crate::orderbook::match_sell(ticker, buys, deleted, req, left).buys,
                d,
            ),
    decreases buys.len(), left,
{
    let post = crate::orderbook::match_sell(ticker, buys, deleted, req, left).buys;
    if left == 0 || buys.len() == 0 {
        assert(consumed_from_front_buys(buys, post, 0));
    } else {
        let best = buys[0];
        if deleted.contains(best.order_id) {
            lemma_match_sell_consumes_front(
                ticker,
                buys.drop_first(),
                deleted.remove(best.order_id),
                req,
                left,
            );
            let d0 = choose|d0: int|
                #[trigger] consumed_from_front_buys(buys.drop_first(), post, d0);
            assert(consumed_from_front_buys(buys, post, d0 + 1)) by {
                assert(forall|k: int|
                    1 <= k < post.len() ==> #[trigger] post[k] == buys.drop_first()[d0 + k]
                        && buys.drop_first()[d0 + k] == buys[d0 + 1 + k]);
                assert(post.len() > 0 ==> buys.drop_first()[d0] == buys[d0 + 1]);
            }
        } else if best.price < req.price {
            assert(consumed_from_front_buys(buys, post, 0));
        } else if left < best.size {
            assert(post == buys.update(
                0,
                crate::order::BuyOrder {
                    order_id: best.order_id,
                    size: (best.size - left) as Size,
                    price: best.price,
                    timestamp: best.timestamp,
                },
            ));
            assert(consumed_from_front_buys(buys, post, 0));
        } else {
            lemma_match_sell_consumes_front(
                ticker,
                buys.drop_first(),
                deleted,
                req,
                (left - best.size) as Size,
            );
            let d0 = choose|d0: int|
                #[trigger] consumed_from_front_buys(buys.drop_first(), post, d0);
            assert(consumed_from_front_buys(buys, post, d0 + 1)) by {
                assert(forall|k: int|
                    1 <= k < post.len() ==> #[trigger] post[k] == buys.drop_first()[d0 + k]
                        && buys.drop_first()[d0 + k] == buys[d0 + 1 + k]);
                assert(post.len() > 0 ==> buys.drop_first()[d0] == buys[d0 + 1]);
            }
        }
    }
}

/// No two orders of the queue share an id.
pub open spec fn sell_ids_unique(s: Seq<crate::order::SellOrder>) -> bool {
    forall|i: int, j: int| 0 <= i < j < s.len() ==> s[i].order_id != s[j].order_id
}

/// No two orders of the queue share an id.
pub open spec fn buy_ids_unique(s: Seq<crate::order::BuyOrder>) -> bool {
    forall|i: int, j: int| 0 <= i < j < s.len() ==> s[i].order_id != s[j].order_id
}

/// Ids are unique within each queue and across the two sides; the portal's
/// monotone order counter guarantees this.
pub open spec fn book_ids_unique(b: BookV) -> bool {
    &&& buy_ids_unique(b.buys)
    &&& sell_ids_unique(b.sells)
    &&& forall|i: int, j: int|
        0 <= i < b.buys.len() && 0 <= j < b.sells.len() ==> (#[trigger] b.buys[i]).order_id != (
        #[trigger] b.sells[j]).order_id
}

/// How matching a buy treats tombstones, with unique sell ids: it only ever
/// consumes them, a tombstone on an order still in the queue survives, and a
/// tombstone on anything but a resting sell survives.
proof fn lemma_match_buy_deleted(
    ticker: Seq<char>,
    sells: Seq<crate::order::SellOrder>,
    deleted: Set<OrderId>,
    req: crate::orderbook_types::NewOrderRequest,
    left: Size,
)
    requires
        sell_ids_unique(sells),
    ensures
        ({
            let m = crate::orderbook::match_buy(ticker, sells, deleted, req, left);
            &&& (forall|id: OrderId| m.deleted.contains(id) ==> deleted.contains(id))
            &&& (forall|k: int|
                0 <= k < m.sells.len() && deleted.contains((#[trigger] m.sells[k]).order_id)
                    ==> m.deleted.contains(m.sells[k].order_id))
            &&& (forall|id: OrderId|
                deleted.contains(id) && (forall|k: int|
                    0 <= k < sells.len() ==> (#[trigger] sells[k]).order_id != id)
                    ==> m.deleted.contains(id))
        }),
    decreases sells.len(), left,
{
    let m = crate::orderbook::match_buy(ticker, sells, deleted, req, left);
    if left == 0 || sells.len() == 0 {
    } else {
        let best = sells[0];
        if deleted.contains(best.order_id) {
            assert(sell_ids_unique(sells.drop_first())) by {
                assert(forall|i: int, j: int|
                    0 <= i < j < sells.drop_first().len() ==> #[trigger] sells.drop_first()[i]
                        == sells[i + 1] && #[trigger] sells.drop_first()[j] == sells[j + 1]);
            }
            lemma_match_buy_deleted(
                ticker,
                sells.drop_first(),
                deleted.remove(best.order_id),
                req,
                left,
            );
            lemma_match_buy_consumes_front(
                ticker,
                sells.drop_first(),
                deleted.remove(best.order_id),
                req,
                left,
            );
            let d0 = choose|d0: int|
                #[trigger] consumed_from_front(sells.drop_first(), m.sells, d0);
            assert forall|k: int|
                0 <= k < m.sells.len() && deleted.contains((#[trigger] m.sells[k]).order_id)
                    implies m.deleted.contains(m.sells[k].order_id) by {
                let id = m.sells[k].order_id;
                if k == 0 {
                    assert(id == sells.drop_first()[d0].order_id);
                    assert(sells.drop_first()[d0] == sells[d0 + 1]);
                } else {
                    assert(m.sells[k] == sells.drop_first()[d0 + k]);
                    assert(sells.drop_first()[d0 + k] == sells[d0 + k + 1]);
                }
                assert(id != best.order_id);
                assert(deleted.remove(best.order_id).contains(id));
            }
            assert forall|id: OrderId|
                deleted.contains(id) && (forall|k: int|
                    0 <= k < sells.len() ==> (#[trigger] sells[k]).order_id != id)
                    implies m.deleted.contains(id) by {
                assert(sells[0].order_id != id);
                assert(deleted.remove(best.order_id).contains(id));
                assert(forall|k: int|
                    0 <= k < sells.drop_first().len() ==> (#[trigger] sells.drop_first()[k]).order_id
                        != id) by {
                    assert(forall|k: int|
                        0 <= k < sells.drop_first().len() ==> #[trigger] sells.drop_first()[k]
                            == sells[k + 1]);
                }
            }
        } else if best.price > req.price {
        } else if left < best.size {
        } else {
            assert(sell_ids_unique(sells.drop_first())) by {
                assert(forall|i: int, j: int|
                    0 <= i < j < sells.drop_first().len() ==> #[trigger] sells.drop_first()[i]
                        == sells[i + 1] && #[trigger] sells.drop_first()[j] == sells[j + 1]);
            }
            lemma_match_buy_deleted(
                ticker,
                sells.drop_first(),
                deleted,
                req,
                (left - best.size) as Size,
            );
            assert forall|id: OrderId|
                deleted.contains(id) && (forall|k: int|
                    0 <= k < sells.len() ==> (#[trigger] sells[k]).order_id != id)
                    implies m.deleted.contains(id) by {
                assert(forall|k: int|
                    0 <= k < sells.drop_first().len() ==> (#[trigger] sells.drop_first()[k]).order_id
                        != id) by {
                    assert(forall|k: int|
                        0 <= k < sells.drop_first().len() ==> #[trigger] sells.drop_first()[k]
                            == sells[k + 1]);
                }
            }
        }
    }
}

/// Mirror of [`lemma_match_buy_deleted`] for an incoming sell.
proof fn lemma_match_sell_deleted(
    ticker: Seq<char>,
    buys: Seq<crate::order::BuyOrder>,
    deleted: Set<OrderId>,
    req: crate::orderbook_types::NewOrderRequest,
    left: Size,
)
    requires
        buy_ids_unique(buys),
    ensures
        ({
            let m = crate::orderbook::match_sell(ticker, buys, deleted, req, left);
            &&& (forall|id: OrderId| m.deleted.contains(id) ==> deleted.contains(id))
            &&& (forall|k: int|
                0 <= k < m.buys.len() && deleted.contains((#[trigger] m.buys[k]).order_id)
                    ==> m.deleted.contains(m.buys[k].order_id))
            &&& (forall|id: OrderId|
                deleted.contains(id) && (forall|k: int|
                    0 <= k < buys.len() ==> (#[trigger] buys[k]).order_id != id)
                    ==> m.deleted.contains(id))
        }),
    decreases buys.len(), left,
{
    let m = crate::orderbook::match_sell(ticker, buys, deleted, req, left);
    if left == 0 || buys.len() == 0 {
    } else {
        let best = buys[0];
        if deleted.contains(best.order_id) {
            assert(buy_ids_unique(buys.drop_first())) by {
                assert(forall|i: int, j: int|
                    0 <= i < j < buys.drop_first().len() ==> #[trigger] buys.drop_first()[i]
                        == buys[i + 1] && #[trigger] buys.drop_first()[j] == buys[j + 1]);
            }
            lemma_match_sell_deleted(
                ticker,
                buys.drop_first(),
                deleted.remove(best.order_id),
                req,
                left,
            );
            lemma_match_sell_consumes_front(
                ticker,
                buys.drop_first(),
                deleted.remove(best.order_id),
                req,
                left,
            );
            let d0 = choose|d0: int|
                #[trigger] consumed_from_front_buys(buys.drop_first(), m.buys, d0);
            assert forall|k: int|
                0 <= k < m.buys.len() && deleted.contains((#[trigger] m.buys[k]).order_id)
                    implies m.deleted.contains(m.buys[k].order_id) by {
                let id = m.buys[k].order_id;
                if k == 0 {
                    assert(id == buys.drop_first()[d0].order_id);
                    assert(buys.drop_first()[d0] == buys[d0 + 1]);
                } else {
                    assert(m.buys[k] == buys.drop_first()[d0 + k]);
                    assert(buys.drop_first()[d0 + k] == buys[d0 + k + 1]);
                }
                assert(id != best.order_id);
                assert(deleted.remove(best.order_id).contains(id));
            }
            assert forall|id: OrderId|
                deleted.contains(id) && (forall|k: int|
                    0 <= k < buys.len() ==> (#[trigger] buys[k]).order_id != id)
                    implies m.deleted.contains(id) by {
                assert(buys[0].order_id != id);
                assert(deleted.remove(best.order_id).contains(id));
                assert(forall|k: int|
                    0 <= k < buys.drop_first().len() ==> (#[trigger] buys.drop_first()[k]).order_id
                        != id) by {
                    assert(forall|k: int|
                        0 <= k < buys.drop_first().len() ==> #[trigger] buys.drop_first()[k]
                            == buys[k + 1]);
                }
            }
        } else if best.price < req.price {
        } else if left < best.size {
        } else {
            assert(buy_ids_unique(buys.drop_first())) by {
                assert(forall|i: int, j: int|
                    0 <= i < j < buys.drop_first().len() ==> #[trigger] buys.drop_first()[i]
                        == buys[i + 1] && #[trigger] buys.drop_first()[j] == buys[j + 1]);
            }
            lemma_match_sell_deleted(
                ticker,
                buys.drop_first(),
                deleted,
                req,
                (left - best.size) as Size,
            );
            assert forall|id: OrderId|
                deleted.contains(id) && (forall|k: int|
                    0 <= k < buys.len() ==> (#[trigger] buys[k]).order_id != id)
                    implies m.deleted.contains(id) by {
                assert(forall|k: int|
                    0 <= k < buys.drop_first().len() ==> (#[trigger] buys.drop_first()[k]).order_id
                        != id) by {
                    assert(forall|k: int|
                        0 <= k < buys.drop_first().len() ==> #[trigger] buys.drop_first()[k]
                            == buys[k + 1]);
                }
            }
        }
    }
}

/// When matching a buy leaves shares unfilled, every live sell that remains
/// is priced above the buyer's limit: the match stopped for price, not
/// priority.
proof fn lemma_match_buy_stop(
    ticker: Seq<char>,
    sells: Seq<crate::order::SellOrder>,
    deleted: Set<OrderId>,
    req: crate::orderbook_types::NewOrderRequest,
    left: Size,
)
    requires
        crate::orderbook::sells_sorted(sells),
    ensures
        ({
            let m = crate::orderbook::match_buy(ticker, sells, deleted, req, left);
            m.left > 0 ==> forall|k: int|
                0 <= k < m.sells.len() && !m.deleted.contains((#[trigger] m.sells[k]).order_id)
                    ==> m.sells[k].price > req.price
        }),
    decreases sells.len(), left,
{
    let m = crate::orderbook::match_buy(ticker, sells, deleted, req, left);
    if left == 0 || sells.len() == 0 {
    } else {
        let best = sells[0];
        if deleted.contains(best.order_id) {
            assert(crate::orderbook::sells_sorted(sells.drop_first())) by {
                assert(forall|i: int, j: int|
                    0 <= i < j < sells.drop_first().len() ==> #[trigger] sells.drop_first()[i]
                        == sells[i + 1] && #[trigger] sells.drop_first()[j] == sells[j + 1]);
            }
            lemma_match_buy_stop(
                ticker,
                sells.drop_first(),
                deleted.remove(best.order_id),
                req,
                left,
            );
        } else if best.price > req.price {
            assert forall|k: int|
                0 <= k < m.sells.len() && !m.deleted.contains((#[trigger] m.sells[k]).order_id)
                    implies m.sells[k].price > req.price by {
                if k > 0 {
                    assert(!crate::order::sell_better(sells[k], sells[0]));
                }
            }
        } else if left < best.size {
        } else {
            assert(crate::orderbook::sells_sorted(sells.drop_first())) by {
                assert(forall|i: int, j: int|
                    0 <= i < j < sells.drop_first().len() ==> #[trigger] sells.drop_first()[i]
                        == sells[i + 1] && #[trigger] sells.drop_first()[j] == sells[j + 1]);
            }
            lemma_match_buy_stop(
                ticker,
                sells.drop_first(),
                deleted,
                req,
                (left - best.size) as Size,
            );
        }
    }
}

/// Mirror of [`lemma_match_buy_stop`]: a sell that keeps unfilled shares
/// left every live buy priced under its limit.
proof fn lemma_match_sell_stop(
    ticker: Seq<char>,
    buys: Seq<crate::order::BuyOrder>,
    deleted: Set<OrderId>,
    req: crate::orderbook_types::NewOrderRequest,
    left: Size,
)
    requires
        crate::orderbook::buys_sorted(buys),
    ensures
        ({
            let m = crate::orderbook::match_sell(ticker, buys, deleted, req, left);
            m.left > 0 ==> forall|k: int|
                0 <= k < m.buys.len() && !m.deleted.contains((#[trigger] m.buys[k]).order_id)
                    ==> m.buys[k].price < req.price
        }),
    decreases buys.len(), left,
{
    let m = crate::orderbook::match_sell(ticker, buys, deleted, req, left);
    if left == 0 || buys.len() == 0 {
    } else {
        let best = buys[0];
        if deleted.contains(best.order_id) {
            assert(crate::orderbook::buys_sorted(buys.drop_first())) by {
                assert(forall|i: int, j: int|
                    0 <= i < j < buys.drop_first().len() ==> #[trigger] buys.drop_first()[i]
                        == buys[i + 1] && #[trigger] buys.drop_first()[j] == buys[j + 1]);
            }
            lemma_match_sell_stop(
                ticker,
                buys.drop_first(),
                deleted.remove(best.order_id),
                req,
                left,
            );
        } else if best.price < req.price {
            assert forall|k: int|
                0 <= k < m.buys.len() && !m.deleted.contains((#[trigger] m.buys[k]).order_id)
                    implies m.buys[k].price < req.price by {
                if k > 0 {
                    assert(!crate::order::buy_better(buys[k], buys[0]));
                }
            }
        } else if left < best.size {
        } else {
            assert(crate::orderbook::buys_sorted(buys.drop_first())) by {
                assert(forall|i: int, j: int|
                    0 <= i < j < buys.drop_first().len() ==> #[trigger] buys.drop_first()[i]
                        == buys[i + 1] && #[trigger] buys.drop_first()[j] == buys[j + 1]);
            }
            lemma_match_sell_stop(
                ticker,
                buys.drop_first(),
                deleted,
                req,
                (left - best.size) as Size,
            );
        }
    }
}

/// No live buy is priced at or above any live sell: the book is not crossed.
pub open spec fn uncrossed(b: BookV) -> bool {
    forall|i: int, j: int|
        0 <= i < b.buys.len() && 0 <= j < b.sells.len() && !b.deleted.contains(
            (#[trigger] b.buys[i]).order_id,
        ) && !b.deleted.contains((#[trigger] b.sells[j]).order_id) ==> b.buys[i].price
            < b.sells[j].price
}


/// No crossed book: one request on a well-formed book with unique order ids
/// never leaves a live buy at or above a live sell. Since the best live
/// prices the book quotes are prices of live orders, best_buy < best_sell
/// whenever both exist.
pub proof fn lemma_book_step_uncrossed(b: BookV, req: crate::orderbook_types::OrderbookRequest)
    requires
        b.wf(),
        book_ids_unique(b),
        uncrossed(b),
    ensures
        uncrossed(crate::orderbook::book_step(b, req).1),
{
    let b2 = crate::orderbook::book_step(b, req).1;
    match req {
        crate::orderbook_types::OrderbookRequest::CancelOrder(_) => {
            assert forall|i: int, j: int|
                0 <= i < b2.buys.len() && 0 <= j < b2.sells.len() && !b2.deleted.contains(
                    (#[trigger] b2.buys[i]).order_id,
                ) && !b2.deleted.contains((#[trigger] b2.sells[j]).order_id) implies b2.buys[i].price
                < b2.sells[j].price by {
                assert(!b.deleted.contains(b.buys[i].order_id));
                assert(!b.deleted.contains(b.sells[j].order_id));
            }
        },
        crate::orderbook_types::OrderbookRequest::NewOrder(r) => {
            if r.direction == crate::common::Direction::Buy {
                let m = crate::orderbook::match_buy(b.ticker, b.sells, b.deleted, r, r.size);
                lemma_match_buy_deleted(b.ticker, b.sells, b.deleted, r, r.size);
                lemma_match_buy_consumes_front(b.ticker, b.sells, b.deleted, r, r.size);
                lemma_match_buy_stop(b.ticker, b.sells, b.deleted, r, r.size);
                let d = choose|d: int| #[trigger] consumed_from_front(b.sells, m.sells, d);
                let rests = m.left > 0 && r.limit_or_market
                    == crate::common::LimitOrMarket::Limit && r.time_in_force
                    == crate::common::TimeInForce::Day;
                let o = crate::order::BuyOrder {
                    order_id: r.order_id,
                    size: m.left,
                    price: r.price,
                    timestamp: r.timestamp,
                };
                if rests {
                    crate::orderbook::lemma_buy_pos_bounds(b.buys, o);
                }
                let pos = crate::orderbook::buy_insert_pos(b.buys, o);
                assert forall|i: int, j: int|
                    0 <= i < b2.buys.len() && 0 <= j < b2.sells.len() && !b2.deleted.contains(
                        (#[trigger] b2.buys[i]).order_id,
                    ) && !b2.deleted.contains((#[trigger] b2.sells[j]).order_id) implies b2.buys[
                    i
                ].price < b2.sells[j].price by {
                    // the live sell was live before, at the same price
                    let sj = b2.sells[j];
                    let old_j = if j == 0 {
                        d
                    } else {
                        d + j
                    };
                    assert(sj.order_id == b.sells[old_j].order_id && sj.price == b.sells[
                        old_j
                    ].price);
                    assert(!b.deleted.contains(sj.order_id)) by {
                        if b.deleted.contains(sj.order_id) {
                            assert(m.deleted.contains(m.sells[j].order_id));
                        }
                    }
                    // the live buy is the fresh order or an old live buy
                    if rests && i == pos {
                        assert(b2.buys[i] == o);
                        assert(m.sells[j].price > r.price);
                    } else {
                        let old_i = if rests && i > pos {
                            i - 1
                        } else {
                            i
                        };
                        assert(b2.buys[i] == b.buys[old_i]);
                        assert(!b.deleted.contains(b.buys[old_i].order_id)) by {
                            if b.deleted.contains(b.buys[old_i].order_id) {
                                assert(forall|k: int|
                                    0 <= k < b.sells.len() ==> (#[trigger] b.sells[k]).order_id
                                        != b.buys[old_i].order_id);
                                assert(m.deleted.contains(b.buys[old_i].order_id));
                            }
                        }
                        assert(b.buys[old_i].price < b.sells[old_j].price);
                    }
                }
            } else {
                let m = crate::orderbook::match_sell(b.ticker, b.buys, b.deleted, r, r.size);
                lemma_match_sell_deleted(b.ticker, b.buys, b.deleted, r, r.size);
                lemma_match_sell_consumes_front(b.ticker, b.buys, b.deleted, r, r.size);
                lemma_match_sell_stop(b.ticker, b.buys, b.deleted, r, r.size);
                let d = choose|d: int| #[trigger] consumed_from_front_buys(b.buys, m.buys, d);
                let rests = m.left > 0 && r.limit_or_market
                    == crate::common::LimitOrMarket::Limit && r.time_in_force
                    == crate::common::TimeInForce::Day;
                let o = crate::order::SellOrder {
                    order_id: r.order_id,
                    size: m.left,
                    price: r.price,
                    timestamp: r.timestamp,
                };
                if rests {
                    crate::orderbook::lemma_sell_pos_bounds(b.sells, o);
                }
                let pos = crate::orderbook::sell_insert_pos(b.sells, o);
                assert forall|i: int, j: int|
                    0 <= i < b2.buys.len() && 0 <= j < b2.sells.len() && !b2.deleted.contains(
                        (#[trigger] b2.buys[i]).order_id,
                    ) && !b2.deleted.contains((#[trigger] b2.sells[j]).order_id) implies b2.buys[
                    i
                ].price < b2.sells[j].price by {
                    let bi = b2.buys[i];
                    let old_i = if i == 0 {
                        d
                    } else {
                        d + i
                    };
                    assert(bi.order_id == b.buys[old_i].order_id && bi.price == b.buys[
                        old_i
                    ].price);
                    assert(!b.deleted.contains(bi.order_id)) by {
                        if b.deleted.contains(bi.order_id) {
                            assert(m.deleted.contains(m.buys[i].order_id));
                        }
                    }
                    if rests && j == pos {
                        assert(b2.sells[j] == o);
                        assert(m.buys[i].price < r.price);
                    } else {
                        let old_j = if rests && j > pos {
                            j - 1
                        } else {
                            j
                        };
                        assert(b2.sells[j] == b.sells[old_j]);
                        assert(!b.deleted.contains(b.sells[old_j].order_id)) by {
                            if b.deleted.contains(b.sells[old_j].order_id) {
                                assert(forall|k: int|
                                    0 <= k < b.buys.len() ==> (#[trigger] b.buys[k]).order_id
                                        != b.sells[old_j].order_id);
                                assert(m.deleted.contains(b.sells[old_j].order_id));
                            }
                        }
                        assert(b.buys[old_i].price < b.sells[old_j].price);
                    }
                }
            }
        },
    }
}


/// Mirror of [`log_from`] for the buy queue.
pub open spec fn log_from_buys(
    l: crate::orderbook_types::OrderbookLogV,
    req_id: OrderId,
    buys: Seq<crate::order::BuyOrder>,
) -> bool {
    log_order_id(l) == req_id || exists|k: int|
        0 <= k < buys.len() && (#[trigger] buys[k]).order_id == log_order_id(l)
}

/// Mirror of [`lemma_match_buy_provenance`] for an incoming sell.
pub proof fn lemma_match_sell_provenance(
    ticker: Seq<char>,
    buys: Seq<crate::order::BuyOrder>,
    deleted: Set<OrderId>,
    req: crate::orderbook_types::NewOrderRequest,
    left: Size,
)
    ensures
        forall|i: int|
            0 <= i < crate::orderbook::match_sell(ticker, buys, deleted, req, left).logs.len()
                ==> #[trigger] log_from_buys(
                crate::orderbook::match_sell(ticker, buys, deleted, req, left).logs[i],
                req.order_id,
                buys,
            ),
    decreases buys.len(), left,
{
    let m = crate::orderbook::match_sell(ticker, buys, deleted, req, left);
    if left == 0 || buys.len() == 0 {
    } else {
        let best = buys[0];
        if deleted.contains(best.order_id) {
            lemma_match_sell_provenance(
                ticker,
                buys.drop_first(),
                deleted.remove(best.order_id),
                req,
                left,
            );
            assert forall|i: int| 0 <= i < m.logs.len() implies #[trigger] log_from_buys(
                m.logs[i],
                req.order_id,
                buys,
            ) by {
                let mr = crate::orderbook::match_sell(
                    ticker,
                    buys.drop_first(),
                    deleted.remove(best.order_id),
                    req,
                    left,
                );
                assert(m.logs == mr.logs);
                assert(log_from_buys(mr.logs[i], req.order_id, buys.drop_first()));
                let id = log_order_id(m.logs[i]);
                if id != req.order_id {
                    let k = choose|k: int|
                        0 <= k < buys.drop_first().len() && (#[trigger] buys.drop_first()[k]).order_id
                            == id;
                    assert(buys[k + 1].order_id == id);
                }
            }
        } else if best.price < req.price {
        } else if left < best.size {
            assert forall|i: int| 0 <= i < m.logs.len() implies #[trigger] log_from_buys(
                m.logs[i],
                req.order_id,
                buys,
            ) by {
                if log_order_id(m.logs[i]) == best.order_id {
                    assert(buys[0].order_id == best.order_id);
                }
            }
        } else {
            lemma_match_sell_provenance(
                ticker,
                buys.drop_first(),
                deleted,
                req,
                (left - best.size) as Size,
            );
            let m0 = crate::orderbook::match_sell(
                ticker,
                buys.drop_first(),
                deleted,
                req,
                (left - best.size) as Size,
            );
            assert forall|i: int| 0 <= i < m.logs.len() implies #[trigger] log_from_buys(
                m.logs[i],
                req.order_id,
                buys,
            ) by {
                if i < 5 {
                    if log_order_id(m.logs[i]) == best.order_id {
                        assert(buys[0].order_id == best.order_id);
                    }
                } else {
                    assert(m.logs[i] == m0.logs[i - 5]);
                    assert(log_from_buys(m0.logs[i - 5], req.order_id, buys.drop_first()));
                    let id = log_order_id(m.logs[i]);
                    if id != req.order_id {
                        let k = choose|k: int|
                            0 <= k < buys.drop_first().len() && (#[trigger] buys.drop_first()[k]).order_id
                                == id;
                        assert(buys[k + 1].order_id == id);
                    }
                }
            }
        }
    }
}

/// Provenance of the whole log stream of one request: every log a new order
/// triggers speaks of that order or of one resting on the book when the
/// request arrived, and both logs of a cancel speak of the cancelled order.
/// In particular every execution event names either the aggressor of the
/// same request or an order the log has already reported added.
pub proof fn lemma_book_step_provenance(b: BookV, req: crate::orderbook_types::OrderbookRequest, i: int)
    requires
        0 <= i < crate::orderbook::book_step(b, req).0.len(),
    ensures
        match req {
            crate::orderbook_types::OrderbookRequest::NewOrder(r) => {
                let id = log_order_id(crate::orderbook::book_step(b, req).0[i]);
                id == r.order_id || (exists|k: int|
                    0 <= k < b.buys.len() && (#[trigger] b.buys[k]).order_id == id) || (exists|
                    k: int,
                |
                    0 <= k < b.sells.len() && (#[trigger] b.sells[k]).order_id == id)
            },
            crate::orderbook_types::OrderbookRequest::CancelOrder(c) => log_order_id(
                crate::orderbook::book_step(b, req).0[i],
            ) == c.order_id,
        },
{
    let logs = crate::orderbook::book_step(b, req).0;
    match req {
        crate::orderbook_types::OrderbookRequest::NewOrder(r) => {
            if r.direction == crate::common::Direction::Buy {
                let m = crate::orderbook::match_buy(b.ticker, b.sells, b.deleted, r, r.size);
                lemma_match_buy_provenance(b.ticker, b.sells, b.deleted, r, r.size);
                if i < m.logs.len() {
                    assert(log_from(m.logs[i], r.order_id, b.sells));
                    assert(logs[i] == m.logs[i]);
                } else {
                    assert(log_order_id(logs[i]) == r.order_id);
                }
            } else {
                let m = crate::orderbook::match_sell(b.ticker, b.buys, b.deleted, r, r.size);
                lemma_match_sell_provenance(b.ticker, b.buys, b.deleted, r, r.size);
                if i < m.logs.len() {
                    assert(log_from_buys(m.logs[i], r.order_id, b.buys));
                    assert(logs[i] == m.logs[i]);
                } else {
                    assert(log_order_id(logs[i]) == r.order_id);
                }
            }
        },
        crate::orderbook_types::OrderbookRequest::CancelOrder(_) => {
        },
    }
}


/// One buy fill settles at the maker's price: on top of the reservation of
/// `limit_price` per share taken at acceptance, the fill credits back
/// `limit_price - fill_price` per share and delivers the shares, so the net
/// cash paid for the filled shares is exactly `fill_size * fill_price`.
pub proof fn lemma_buy_fill_settlement(
    m: Map<InvId, AccountV>,
    rec: crate::order_info::OrderRecordV,
    f: crate::orderbook_types::OrderFillResponse,
    resting: Option<Size>,
)
    requires
        m.contains_key(rec.inv_id),
        rec.direction == crate::common::Direction::Buy,
        f.fill_price <= rec.limit_price,
        m[rec.inv_id].cash + f.fill_size * (rec.limit_price - f.fill_price) <= u64::MAX,
        m[rec.inv_id].positions.contains_key(rec.ticker) ==> m[rec.inv_id].positions[rec.ticker]
            + f.fill_size <= u32::MAX,
    ensures
        ({
            let m2 = crate::portal::apply_updates(
                m,
                crate::portal::resp_updates(
                    crate::orderbook_types::OrderResponseV::OrderFill(f),
                    rec,
                    resting,
                ),
            );
            &&& m2[rec.inv_id].cash == m[rec.inv_id].cash + f.fill_size * (rec.limit_price
                - f.fill_price)
            &&& m2[rec.inv_id].positions[rec.ticker] == (if m[rec.inv_id].positions.contains_key(
                rec.ticker,
            ) {
                m[rec.inv_id].positions[rec.ticker] + f.fill_size
            } else {
                f.fill_size as int
            })
            &&& (forall|i: InvId| i != rec.inv_id && m.contains_key(i) ==> m2[i] == m[i])
        }),
{
    reveal_with_fuel(crate::portal::apply_updates, 3);
    let ups = crate::portal::resp_updates(
        crate::orderbook_types::OrderResponseV::OrderFill(f),
        rec,
        resting,
    );
    let m1 = apply_update(m, ups[0]);
    assert(m1[rec.inv_id].cash == m[rec.inv_id].cash + f.fill_size * (rec.limit_price
        - f.fill_price));
    assert(ups.drop_first()[0] == ups[1]);
    let m2 = apply_update(m1, ups[1]);
    assert(crate::portal::apply_updates(m1, ups.drop_first()) == apply_update(
        m1,
        ups.drop_first()[0],
    ));
}

/// One sell fill credits the proceeds at the maker's price: the seller's
/// cash grows by exactly `fill_size * fill_price` and nobody else moves.
pub proof fn lemma_sell_fill_settlement(
    m: Map<InvId, AccountV>,
    rec: crate::order_info::OrderRecordV,
    f: crate::orderbook_types::OrderFillResponse,
    resting: Option<Size>,
)
    requires
        m.contains_key(rec.inv_id),
        rec.direction == crate::common::Direction::Sell,
        m[rec.inv_id].cash + f.fill_size * f.fill_price <= u64::MAX,
    ensures
        ({
            let m2 = crate::portal::apply_updates(
                m,
                crate::portal::resp_updates(
                    crate::orderbook_types::OrderResponseV::OrderFill(f),
                    rec,
                    resting,
                ),
            );
            &&& m2[rec.inv_id].cash == m[rec.inv_id].cash + f.fill_size * f.fill_price
            &&& m2[rec.inv_id].positions == m[rec.inv_id].positions
            &&& (forall|i: InvId| i != rec.inv_id && m.contains_key(i) ==> m2[i] == m[i])
        }),
{
    reveal_with_fuel(crate::portal::apply_updates, 2);
}


/// `post` is `pre` with its first `d` entries dropped.
pub open spec fn sells_suffix(
    pre: Seq<crate::order::SellOrder>,
    post: Seq<crate::order::SellOrder>,
    d: int,
) -> bool {
    &&& 0 <= d <= pre.len()
    &&& post.len() == pre.len() - d
    &&& forall|k: int| 0 <= k < post.len() ==> #[trigger] post[k] == pre[d + k]
}

/// `post` is `pre` with its first `d` entries dropped.
pub open spec fn buys_suffix(
    pre: Seq<crate::order::BuyOrder>,
    post: Seq<crate::order::BuyOrder>,
    d: int,
) -> bool {
    &&& 0 <= d <= pre.len()
    &&& post.len() == pre.len() - d
    &&& forall|k: int| 0 <= k < post.len() ==> #[trigger] post[k] == pre[d + k]
}

/// Reading the best sell price discards only dead entries: what remains is
/// a suffix of the queue, tombstones only shrink, a tombstone on a
/// surviving entry survives, and a tombstone on anything but a resting sell
/// survives.
proof fn lemma_gc_sells_facts(sells: Seq<crate::order::SellOrder>, deleted: Set<OrderId>)
    requires
        sell_ids_unique(sells),
    ensures
        ({
            let g = crate::orderbook::gc_sells(sells, deleted);
            &&& exists|d: int| #[trigger] sells_suffix(sells, g.0, d)
            &&& (forall|id: OrderId| g.1.contains(id) ==> deleted.contains(id))
            &&& (forall|k: int|
                0 <= k < g.0.len() && deleted.contains((#[trigger] g.0[k]).order_id)
                    ==> g.1.contains(g.0[k].order_id))
            &&& (forall|id: OrderId|
                deleted.contains(id) && (forall|k: int|
                    0 <= k < sells.len() ==> (#[trigger] sells[k]).order_id != id) ==> g.1.contains(
                    id,
                ))
        }),
    decreases sells.len(),
{
    let g = crate::orderbook::gc_sells(sells, deleted);
    if sells.len() == 0 {
        assert(sells_suffix(sells, g.0, 0));
    } else if deleted.contains(sells[0].order_id) {
        assert(sell_ids_unique(sells.drop_first())) by {
            assert(forall|i: int, j: int|
                0 <= i < j < sells.drop_first().len() ==> #[trigger] sells.drop_first()[i]
                    == sells[i + 1] && #[trigger] sells.drop_first()[j] == sells[j + 1]);
        }
        lemma_gc_sells_facts(sells.drop_first(), deleted.remove(sells[0].order_id));
        let d0 = choose|d0: int| #[trigger] sells_suffix(sells.drop_first(), g.0, d0);
        assert(sells_suffix(sells, g.0, d0 + 1)) by {
            assert(forall|k: int|
                0 <= k < g.0.len() ==> #[trigger] g.0[k] == sells.drop_first()[d0 + k]
                    && sells.drop_first()[d0 + k] == sells[d0 + 1 + k]);
        }
        assert forall|k: int|
            0 <= k < g.0.len() && deleted.contains((#[trigger] g.0[k]).order_id) implies g.1.contains(
            g.0[k].order_id,
        ) by {
            assert(g.0[k] == sells[d0 + 1 + k]);
            assert(g.0[k].order_id != sells[0].order_id);
            assert(deleted.remove(sells[0].order_id).contains(g.0[k].order_id));
        }
        assert forall|id: OrderId|
            deleted.contains(id) && (forall|k: int|
                0 <= k < sells.len() ==> (#[trigger] sells[k]).order_id != id) implies g.1.contains(
            id,
        ) by {
            assert(sells[0].order_id != id);
            assert(deleted.remove(sells[0].order_id).contains(id));
            assert(forall|k: int|
                0 <= k < sells.drop_first().len() ==> (#[trigger] sells.drop_first()[k]).order_id
                    != id) by {
                assert(forall|k: int|
                    0 <= k < sells.drop_first().len() ==> #[trigger] sells.drop_first()[k]
                        == sells[k + 1]);
            }
        }
    } else {
        assert(sells_suffix(sells, g.0, 0));
    }
}

/// Mirror of [`lemma_gc_sells_facts`] for the buy queue.
proof fn lemma_gc_buys_facts(buys: Seq<crate::order::BuyOrder>, deleted: Set<OrderId>)
    requires
        buy_ids_unique(buys),
    ensures
        ({
            let g = crate::orderbook::gc_buys(buys, deleted);
            &&& exists|d: int| #[trigger] buys_suffix(buys, g.0, d)
            &&& (forall|id: OrderId| g.1.contains(id) ==> deleted.contains(id))
            &&& (forall|k: int|
                0 <= k < g.0.len() && deleted.contains((#[trigger] g.0[k]).order_id)
                    ==> g.1.contains(g.0[k].order_id))
            &&& (forall|id: OrderId|
                deleted.contains(id) && (forall|k: int|
                    0 <= k < buys.len() ==> (#[trigger] buys[k]).order_id != id) ==> g.1.contains(
                    id,
                ))
        }),
    decreases buys.len(),
{
    let g = crate::orderbook::gc_buys(buys, deleted);
    if buys.len() == 0 {
        assert(buys_suffix(buys, g.0, 0));
    } else if deleted.contains(buys[0].order_id) {
        assert(buy_ids_unique(buys.drop_first())) by {
            assert(forall|i: int, j: int|
                0 <= i < j < buys.drop_first().len() ==> #[trigger] buys.drop_first()[i]
                    == buys[i + 1] && #[trigger] buys.drop_first()[j] == buys[j + 1]);
        }
        lemma_gc_buys_facts(buys.drop_first(), deleted.remove(buys[0].order_id));
        let d0 = choose|d0: int| #[trigger] buys_suffix(buys.drop_first(), g.0, d0);
        assert(buys_suffix(buys, g.0, d0 + 1)) by {
            assert(forall|k: int|
                0 <= k < g.0.len() ==> #[trigger] g.0[k] == buys.drop_first()[d0 + k]
                    && buys.drop_first()[d0 + k] == buys[d0 + 1 + k]);
        }
        assert forall|k: int|
            0 <= k < g.0.len() && deleted.contains((#[trigger] g.0[k]).order_id) implies g.1.contains(
            g.0[k].order_id,
        ) by {
            assert(g.0[k] == buys[d0 + 1 + k]);
            assert(g.0[k].order_id != buys[0].order_id);
            assert(deleted.remove(buys[0].order_id).contains(g.0[k].order_id));
        }
        assert forall|id: OrderId|
            deleted.contains(id) && (forall|k: int|
                0 <= k < buys.len() ==> (#[trigger] buys[k]).order_id != id) implies g.1.contains(
            id,
        ) by {
            assert(buys[0].order_id != id);
            assert(deleted.remove(buys[0].order_id).contains(id));
            assert(forall|k: int|
                0 <= k < buys.drop_first().len() ==> (#[trigger] buys.drop_first()[k]).order_id
                    != id) by {
                assert(forall|k: int|
                    0 <= k < buys.drop_first().len() ==> #[trigger] buys.drop_first()[k]
                        == buys[k + 1]);
            }
        }
    } else {
        assert(buys_suffix(buys, g.0, 0));
    }
}


/// Consuming dead entries off the top of the sell queue keeps the book
/// well-formed, its ids unique, and the book uncrossed.
proof fn lemma_gc_sells_book(b: BookV)
    requires
        b.wf(),
        book_ids_unique(b),
        uncrossed(b),
    ensures
        ({
            let g = crate::orderbook::gc_sells(b.sells, b.deleted);
            let b2 = BookV { sells: g.0, deleted: g.1, ..b };
            b2.wf() && book_ids_unique(b2) && uncrossed(b2)
        }),
{
    let g = crate::orderbook::gc_sells(b.sells, b.deleted);
    let b2 = BookV { sells: g.0, deleted: g.1, ..b };
    lemma_gc_sells_facts(b.sells, b.deleted);
    let d = choose|d: int| #[trigger] sells_suffix(b.sells, g.0, d);
    assert(crate::orderbook::sells_sorted(b2.sells)) by {
        assert(forall|i: int, j: int|
            0 <= i < j < g.0.len() ==> #[trigger] g.0[i] == b.sells[d + i] && #[trigger] g.0[j]
                == b.sells[d + j]);
    }
    assert(sell_ids_unique(b2.sells)) by {
        assert(forall|i: int, j: int|
            0 <= i < j < g.0.len() ==> #[trigger] g.0[i] == b.sells[d + i] && #[trigger] g.0[j]
                == b.sells[d + j]);
    }
    assert(forall|i: int, j: int|
        0 <= i < b2.buys.len() && 0 <= j < b2.sells.len() ==> (#[trigger] b2.buys[i]).order_id != (
        #[trigger] b2.sells[j]).order_id) by {
        assert(forall|j: int| 0 <= j < g.0.len() ==> #[trigger] g.0[j] == b.sells[d + j]);
    }
    assert forall|i: int, j: int|
        0 <= i < b2.buys.len() && 0 <= j < b2.sells.len() && !b2.deleted.contains(
            (#[trigger] b2.buys[i]).order_id,
        ) && !b2.deleted.contains((#[trigger] b2.sells[j]).order_id) implies b2.buys[i].price
        < b2.sells[j].price by {
        assert(g.0[j] == b.sells[d + j]);
        assert(!b.deleted.contains(b.sells[d + j].order_id)) by {
            if b.deleted.contains(g.0[j].order_id) {
                assert(g.1.contains(g.0[j].order_id));
            }
        }
        assert(!b.deleted.contains(b.buys[i].order_id)) by {
            if b.deleted.contains(b.buys[i].order_id) {
                assert(forall|k: int|
                    0 <= k < b.sells.len() ==> (#[trigger] b.sells[k]).order_id
                        != b.buys[i].order_id);
                assert(g.1.contains(b.buys[i].order_id));
            }
        }
    }
}

/// Mirror of [`lemma_gc_sells_book`] for the buy queue.
proof fn lemma_gc_buys_book(b: BookV)
    requires
        b.wf(),
        book_ids_unique(b),
        uncrossed(b),
    ensures
        ({
            let g = crate::orderbook::gc_buys(b.buys, b.deleted);
            let b2 = BookV { buys: g.0, deleted: g.1, ..b };
            b2.wf() && book_ids_unique(b2) && uncrossed(b2)
        }),
{
    let g = crate::orderbook::gc_buys(b.buys, b.deleted);
    let b2 = BookV { buys: g.0, deleted: g.1, ..b };
    lemma_gc_buys_facts(b.buys, b.deleted);
    let d = choose|d: int| #[trigger] buys_suffix(b.buys, g.0, d);
    assert(crate::orderbook::buys_sorted(b2.buys)) by {
        assert(forall|i: int, j: int|
            0 <= i < j < g.0.len() ==> #[trigger] g.0[i] == b.buys[d + i] && #[trigger] g.0[j]
                == b.buys[d + j]);
    }
    assert(buy_ids_unique(b2.buys)) by {
        assert(forall|i: int, j: int|
            0 <= i < j < g.0.len() ==> #[trigger] g.0[i] == b.buys[d + i] && #[trigger] g.0[j]
                == b.buys[d + j]);
    }
    assert(forall|i: int, j: int|
        0 <= i < b2.buys.len() && 0 <= j < b2.sells.len() ==> (#[trigger] b2.buys[i]).order_id != (
        #[trigger] b2.sells[j]).order_id) by {
        assert(forall|i: int| 0 <= i < g.0.len() ==> #[trigger] g.0[i] == b.buys[d + i]);
    }
    assert forall|i: int, j: int|
        0 <= i < b2.buys.len() && 0 <= j < b2.sells.len() && !b2.deleted.contains(
            (#[trigger] b2.buys[i]).order_id,
        ) && !b2.deleted.contains((#[trigger] b2.sells[j]).order_id) implies b2.buys[i].price
        < b2.sells[j].price by {
        assert(g.0[i] == b.buys[d + i]);
        assert(!b.deleted.contains(b.buys[d + i].order_id)) by {
            if b.deleted.contains(g.0[i].order_id) {
                assert(g.1.contains(g.0[i].order_id));
            }
        }
        assert(!b.deleted.contains(b.sells[j].order_id)) by {
            if b.deleted.contains(b.sells[j].order_id) {
                assert(forall|k: int|
                    0 <= k < b.buys.len() ==> (#[trigger] b.buys[k]).order_id
                        != b.sells[j].order_id);
                assert(g.1.contains(b.sells[j].order_id));
            }
        }
    }
}

/// Folding engine logs moves accounts, records and history, never a book
/// nor the order counter.
proof fn lemma_apply_logs_books(p: PortalV, logs: Seq<crate::orderbook_types::OrderbookLogV>)
    ensures
        apply_logs(p, logs).0.books == p.books,
        apply_logs(p, logs).0.last_order_id == p.last_order_id,
    decreases logs.len(),
{
    if logs.len() > 0 {
        lemma_apply_logs_books(apply_log(p, logs[0]).0, logs.drop_first());
    }
}

/// Every book of the portal is well-formed with unique ids.
pub open spec fn books_ok(p: PortalV) -> bool {
    forall|t: Seq<char>| #[trigger]
        p.books.contains_key(t) ==> p.books[t].wf() && book_ids_unique(p.books[t])
}

/// No book of the portal is crossed.
pub open spec fn books_uncrossed(p: PortalV) -> bool {
    forall|t: Seq<char>| #[trigger] p.books.contains_key(t) ==> uncrossed(p.books[t])
}

/// No crossed book, at the portal: after every request, every ticker's book
/// still quotes its best live buy strictly under its best live sell.
pub proof fn lemma_portal_step_no_crossed_book(p: PortalV, seqnum: SeqNum, req: PortalRequestV)
    requires
        books_ok(p),
        books_uncrossed(p),
    ensures
        books_uncrossed(portal_step(p, seqnum, req).0),
{
    let stepped = portal_step(p, seqnum, req).0;
    match req {
        PortalRequestV::EventHistory(_) => {},
        PortalRequestV::NewOrder(inv_id, order_req) => {
            if crate::stock_manager::spec_valid_order(
                p.stocks,
                order_req.ticker,
                order_req.price,
                order_req.size,
            ) {
                let filled = crate::portal::fill_in_spec(p, order_req);
                let p1 = filled.0;
                assert(books_ok(p1) && books_uncrossed(p1)) by {
                    if order_req.limit_or_market == crate::common::LimitOrMarket::Market
                        && p.books.contains_key(order_req.ticker) {
                        if order_req.direction == crate::common::Direction::Buy {
                            lemma_gc_sells_book(p.books[order_req.ticker]);
                        } else {
                            lemma_gc_buys_book(p.books[order_req.ticker]);
                        }
                        assert forall|t: Seq<char>| #[trigger]
                            p1.books.contains_key(t) implies p1.books[t].wf() && book_ids_unique(
                            p1.books[t],
                        ) && uncrossed(p1.books[t]) by {
                            if t != order_req.ticker {
                                assert(p.books.contains_key(t));
                            }
                        }
                    }
                }
                let pot = crate::portal::potential_of(filled.1);
                if p1.accounts.contains_key(inv_id) && valid_potential(p1.accounts[inv_id], pot) {
                    let order_id = (p1.last_order_id + 1) as OrderId;
                    let p2 = PortalV {
                        accounts: apply_potential(p1.accounts, inv_id, pot),
                        binds: p1.binds.insert(
                            order_id,
                            crate::portal::record_of(inv_id, filled.1),
                        ),
                        last_order_id: order_id,
                        ..p1
                    };
                    if p2.books.contains_key(filled.1.ticker) {
                        let obreq = crate::orderbook_types::OrderbookRequest::NewOrder(
                            crate::orderbook_types::NewOrderRequest {
                                order_id,
                                direction: filled.1.direction,
                                size: filled.1.size,
                                price: filled.1.price,
                                timestamp: filled.1.timestamp,
                                limit_or_market: filled.1.limit_or_market,
                                time_in_force: filled.1.time_in_force,
                            },
                        );
                        let bs = crate::orderbook::book_step(p2.books[filled.1.ticker], obreq);
                        lemma_book_step_uncrossed(p2.books[filled.1.ticker], obreq);
                        let p3 = PortalV {
                            books: p2.books.insert(filled.1.ticker, bs.1),
                            ..p2
                        };
                        lemma_apply_logs_books(p3, bs.0);
                        assert forall|t: Seq<char>| #[trigger]
                            stepped.books.contains_key(t) implies uncrossed(stepped.books[t]) by {
                            if t != filled.1.ticker {
                                assert(p1.books.contains_key(t));
                            }
                        }
                    }
                }
            }
        },
        PortalRequestV::CancelOrder(inv_id, order_id) => {
            if cancel_valid(p, order_id, inv_id) {
                let p1 = PortalV {
                    restings: crate::order_info::gc_zero(p.restings, order_id),
                    ..p
                };
                let ticker = p.binds[order_id].ticker;
                if p1.books.contains_key(ticker) {
                    let obreq = crate::orderbook_types::OrderbookRequest::CancelOrder(
                        crate::orderbook_types::CancelOrderRequest { order_id },
                    );
                    let bs = crate::orderbook::book_step(p1.books[ticker], obreq);
                    lemma_book_step_uncrossed(p1.books[ticker], obreq);
                    let p2 = PortalV { books: p1.books.insert(ticker, bs.1), ..p1 };
                    lemma_apply_logs_books(p2, bs.0);
                    assert forall|t: Seq<char>| #[trigger]
                        stepped.books.contains_key(t) implies uncrossed(stepped.books[t]) by {
                        if t != ticker {
                            assert(p.books.contains_key(t));
                        }
                    }
                }
            }
        },
    }
}


/// The books the portal starts with are empty, so they are well-formed,
/// their ids are unique, and none is crossed: the hypotheses of
/// [`lemma_portal_step_no_crossed_book`] hold from the first request on.
pub proof fn lemma_loaded_books_ok(
    st: Map<Seq<char>, crate::stock_manager::StockRecord>,
    bk: Map<Seq<char>, BookV>,
    s: Seq<(crate::common::Ticker, crate::stock_manager::StockRecord)>,
)
    requires
        forall|t: Seq<char>| #[trigger]
            bk.contains_key(t) ==> bk[t].wf() && book_ids_unique(bk[t]) && uncrossed(bk[t]),
    ensures
        forall|t: Seq<char>| #[trigger]
            crate::portal::stocks_loaded(st, bk, s).1.contains_key(t)
                ==> crate::portal::stocks_loaded(st, bk, s).1[t].wf() && book_ids_unique(
                crate::portal::stocks_loaded(st, bk, s).1[t],
            ) && uncrossed(crate::portal::stocks_loaded(st, bk, s).1[t]),
    decreases s.len(),
{
    if s.len() > 0 {
        let empty_book = BookV {
            ticker: s[0].0@,
            buys: Seq::empty(),
            sells: Seq::empty(),
            deleted: Set::empty(),
        };
        let bk1 = bk.insert(s[0].0@, empty_book);
        assert forall|t: Seq<char>| #[trigger]
            bk1.contains_key(t) implies bk1[t].wf() && book_ids_unique(bk1[t]) && uncrossed(
            bk1[t],
        ) by {
            if t != s[0].0@ {
                assert(bk.contains_key(t));
            }
        }
        lemma_loaded_books_ok(st.insert(s[0].0@, s[0].1), bk1, s.drop_first());
        let rec = crate::portal::stocks_loaded(st.insert(s[0].0@, s[0].1), bk1, s.drop_first());
        assert(crate::portal::stocks_loaded(st, bk, s).1 == rec.1);
        assert forall|t: Seq<char>| #[trigger]
            crate::portal::stocks_loaded(st, bk, s).1.contains_key(t) implies crate::portal::stocks_loaded(
            st,
            bk,
            s,
        ).1[t].wf() && book_ids_unique(crate::portal::stocks_loaded(st, bk, s).1[t]) && uncrossed(
            crate::portal::stocks_loaded(st, bk, s).1[t],
        ) by {
            assert(rec.1.contains_key(t));
        }
    } else {
        assert(crate::portal::stocks_loaded(st, bk, s).1 == bk);
        assert forall|t: Seq<char>| #[trigger]
            crate::portal::stocks_loaded(st, bk, s).1.contains_key(t) implies crate::portal::stocks_loaded(
            st,
            bk,
            s,
        ).1[t].wf() && book_ids_unique(crate::portal::stocks_loaded(st, bk, s).1[t]) && uncrossed(
            crate::portal::stocks_loaded(st, bk, s).1[t],
        ) by {
            assert(bk.contains_key(t));
        }
    }
}


/// One request keeps the book well-formed with unique ids, provided a new
/// order brings a fresh id (the portal's monotone counter guarantees it),
/// and introduces no id beyond that fresh one.
pub proof fn lemma_book_step_preserves_ok(b: BookV, req: crate::orderbook_types::OrderbookRequest)
    requires
        b.wf(),
        book_ids_unique(b),
        (match req {
            crate::orderbook_types::OrderbookRequest::NewOrder(r) => {
                &&& (forall|k: int|
                    0 <= k < b.buys.len() ==> (#[trigger] b.buys[k]).order_id != r.order_id)
                &&& (forall|k: int|
                    0 <= k < b.sells.len() ==> (#[trigger] b.sells[k]).order_id != r.order_id)
            },
            crate::orderbook_types::OrderbookRequest::CancelOrder(_) => true,
        }),
    ensures
        ({
            let b2 = crate::orderbook::book_step(b, req).1;
            let fresh = match req {
                crate::orderbook_types::OrderbookRequest::NewOrder(r) => r.order_id,
                crate::orderbook_types::OrderbookRequest::CancelOrder(c) => c.order_id,
            };
            &&& b2.wf()
            &&& book_ids_unique(b2)
            &&& (forall|k: int|
                0 <= k < b2.buys.len() ==> (exists|j: int|
                    0 <= j < b.buys.len() && (#[trigger] b2.buys[k]).order_id
                        == b.buys[j].order_id) || b2.buys[k].order_id == fresh)
            &&& (forall|k: int|
                0 <= k < b2.sells.len() ==> (exists|j: int|
                    0 <= j < b.sells.len() && (#[trigger] b2.sells[k]).order_id
                        == b.sells[j].order_id) || b2.sells[k].order_id == fresh)
        }),
{
    let b2 = crate::orderbook::book_step(b, req).1;
    match req {
        crate::orderbook_types::OrderbookRequest::CancelOrder(_) => {},
        crate::orderbook_types::OrderbookRequest::NewOrder(r) => {
            if r.direction == crate::common::Direction::Buy {
                let m = crate::orderbook::match_buy(b.ticker, b.sells, b.deleted, r, r.size);
                lemma_match_buy_consumes_front(b.ticker, b.sells, b.deleted, r, r.size);
                let d = choose|d: int| #[trigger] consumed_from_front(b.sells, m.sells, d);
                // the surviving sell queue: a suffix of a sorted queue, the
                // head kept at its price and time
                assert(crate::orderbook::sells_sorted(m.sells)) by {
                    assert forall|i: int, j: int|
                        0 <= i < j < m.sells.len() implies !crate::order::sell_better(
                        m.sells[j],
                        m.sells[i],
                    ) by {
                        assert(m.sells[j] == b.sells[d + j]);
                        if i > 0 {
                            assert(m.sells[i] == b.sells[d + i]);
                        } else {
                            assert(m.sells[0].price == b.sells[d].price && m.sells[0].timestamp
                                == b.sells[d].timestamp);
                            assert(!crate::order::sell_better(b.sells[d + j], b.sells[d]));
                        }
                    }
                }
                assert(sell_ids_unique(m.sells)) by {
                    assert forall|i: int, j: int|
                        0 <= i < j < m.sells.len() implies m.sells[i].order_id
                        != m.sells[j].order_id by {
                        assert(m.sells[j] == b.sells[d + j]);
                        if i > 0 {
                            assert(m.sells[i] == b.sells[d + i]);
                        } else {
                            assert(m.sells[0].order_id == b.sells[d].order_id);
                        }
                    }
                }
                assert(forall|k: int|
                    0 <= k < m.sells.len() ==> (exists|j: int|
                        0 <= j < b.sells.len() && (#[trigger] m.sells[k]).order_id
                            == b.sells[j].order_id)) by {
                    assert forall|k: int| 0 <= k < m.sells.len() implies (exists|j: int|
                        0 <= j < b.sells.len() && (#[trigger] m.sells[k]).order_id
                            == b.sells[j].order_id) by {
                        if k == 0 {
                            assert(m.sells[0].order_id == b.sells[d].order_id);
                        } else {
                            assert(m.sells[k] == b.sells[d + k]);
                        }
                    }
                }
                let rests = m.left > 0 && r.limit_or_market
                    == crate::common::LimitOrMarket::Limit && r.time_in_force
                    == crate::common::TimeInForce::Day;
                if rests {
                    let o = crate::order::BuyOrder {
                        order_id: r.order_id,
                        size: m.left,
                        price: r.price,
                        timestamp: r.timestamp,
                    };
                    crate::orderbook::lemma_buy_pos_bounds(b.buys, o);
                    crate::orderbook::lemma_insert_buy_sorted(b.buys, o);
                    let pos = crate::orderbook::buy_insert_pos(b.buys, o);
                    assert(buy_ids_unique(b2.buys)) by {
                        assert forall|i: int, j: int|
                            0 <= i < j < b2.buys.len() implies b2.buys[i].order_id
                            != b2.buys[j].order_id by {
                            if i != pos && j != pos {
                                let oi = if i < pos { i } else { i - 1 };
                                let oj = if j < pos { j } else { j - 1 };
                                assert(b2.buys[i] == b.buys[oi] && b2.buys[j] == b.buys[oj]);
                            } else if i == pos {
                                assert(b2.buys[j] == b.buys[j - 1]);
                            } else {
                                assert(b2.buys[i] == b.buys[i]);
                            }
                        }
                    }
                    assert forall|k: int| 0 <= k < b2.buys.len() implies (exists|j: int|
                        0 <= j < b.buys.len() && (#[trigger] b2.buys[k]).order_id
                            == b.buys[j].order_id) || b2.buys[k].order_id == r.order_id by {
                        if k < pos {
                            assert(b2.buys[k] == b.buys[k]);
                        } else if k > pos {
                            assert(b2.buys[k] == b.buys[k - 1]);
                        }
                    }
                    assert(forall|i: int, j: int|
                        0 <= i < b2.buys.len() && 0 <= j < b2.sells.len() ==> (#[trigger] b2.buys[
                            i
                        ]).order_id != (#[trigger] b2.sells[j]).order_id) by {
                        assert forall|i: int, j: int|
                            0 <= i < b2.buys.len() && 0 <= j < b2.sells.len() implies b2.buys[
                            i
                        ].order_id != b2.sells[j].order_id by {
                            let sj = if j == 0 { d } else { d + j };
                            assert(b2.sells[j].order_id == b.sells[sj].order_id);
                            if i != pos {
                                let oi = if i < pos { i } else { i - 1 };
                                assert(b2.buys[i] == b.buys[oi]);
                            }
                        }
                    }
                } else {
                    assert(forall|i: int, j: int|
                        0 <= i < b2.buys.len() && 0 <= j < b2.sells.len() ==> (#[trigger] b2.buys[
                            i
                        ]).order_id != (#[trigger] b2.sells[j]).order_id) by {
                        assert forall|i: int, j: int|
                            0 <= i < b2.buys.len() && 0 <= j < b2.sells.len() implies b2.buys[
                            i
                        ].order_id != b2.sells[j].order_id by {
                            let sj = if j == 0 { d } else { d + j };
                            assert(b2.sells[j].order_id == b.sells[sj].order_id);
                        }
                    }
                }
            } else {
                let m = crate::orderbook::match_sell(b.ticker, b.buys, b.deleted, r, r.size);
                lemma_match_sell_consumes_front(b.ticker, b.buys, b.deleted, r, r.size);
                let d = choose|d: int| #[trigger] consumed_from_front_buys(b.buys, m.buys, d);
                assert(crate::orderbook::buys_sorted(m.buys)) by {
                    assert forall|i: int, j: int|
                        0 <= i < j < m.buys.len() implies !crate::order::buy_better(
                        m.buys[j],
                        m.buys[i],
                    ) by {
                        assert(m.buys[j] == b.buys[d + j]);
                        if i > 0 {
                            assert(m.buys[i] == b.buys[d + i]);
                        } else {
                            assert(m.buys[0].price == b.buys[d].price && m.buys[0].timestamp
                                == b.buys[d].timestamp);
                            assert(!crate::order::buy_better(b.buys[d + j], b.buys[d]));
                        }
                    }
                }
                assert(buy_ids_unique(m.buys)) by {
                    assert forall|i: int, j: int|
                        0 <= i < j < m.buys.len() implies m.buys[i].order_id
                        != m.buys[j].order_id by {
                        assert(m.buys[j] == b.buys[d + j]);
                        if i > 0 {
                            assert(m.buys[i] == b.buys[d + i]);
                        } else {
                            assert(m.buys[0].order_id == b.buys[d].order_id);
                        }
                    }
                }
                assert(forall|k: int|
                    0 <= k < m.buys.len() ==> (exists|j: int|
                        0 <= j < b.buys.len() && (#[trigger] m.buys[k]).order_id
                            == b.buys[j].order_id)) by {
                    assert forall|k: int| 0 <= k < m.buys.len() implies (exists|j: int|
                        0 <= j < b.buys.len() && (#[trigger] m.buys[k]).order_id
                            == b.buys[j].order_id) by {
                        if k == 0 {
                            assert(m.buys[0].order_id == b.buys[d].order_id);
                        } else {
                            assert(m.buys[k] == b.buys[d + k]);
                        }
                    }
                }
                let rests = m.left > 0 && r.limit_or_market
                    == crate::common::LimitOrMarket::Limit && r.time_in_force
                    == crate::common::TimeInForce::Day;
                if rests {
                    let o = crate::order::SellOrder {
                        order_id: r.order_id,
                        size: m.left,
                        price: r.price,
                        timestamp: r.timestamp,
                    };
                    crate::orderbook::lemma_sell_pos_bounds(b.sells, o);
                    crate::orderbook::lemma_insert_sell_sorted(b.sells, o);
                    let pos = crate::orderbook::sell_insert_pos(b.sells, o);
                    assert(sell_ids_unique(b2.sells)) by {
                        assert forall|i: int, j: int|
                            0 <= i < j < b2.sells.len() implies b2.sells[i].order_id
                            != b2.sells[j].order_id by {
                            if i != pos && j != pos {
                                let oi = if i < pos { i } else { i - 1 };
                                let oj = if j < pos { j } else { j - 1 };
                                assert(b2.sells[i] == b.sells[oi] && b2.sells[j] == b.sells[oj]);
                            } else if i == pos {
                                assert(b2.sells[j] == b.sells[j - 1]);
                            } else {
                                assert(b2.sells[i] == b.sells[i]);
                            }
                        }
                    }
                    assert forall|k: int| 0 <= k < b2.sells.len() implies (exists|j: int|
                        0 <= j < b.sells.len() && (#[trigger] b2.sells[k]).order_id
                            == b.sells[j].order_id) || b2.sells[k].order_id == r.order_id by {
                        if k < pos {
                            assert(b2.sells[k] == b.sells[k]);
                        } else if k > pos {
                            assert(b2.sells[k] == b.sells[k - 1]);
                        }
                    }
                    assert(forall|i: int, j: int|
                        0 <= i < b2.buys.len() && 0 <= j < b2.sells.len() ==> (#[trigger] b2.buys[
                            i
                        ]).order_id != (#[trigger] b2.sells[j]).order_id) by {
                        assert forall|i: int, j: int|
                            0 <= i < b2.buys.len() && 0 <= j < b2.sells.len() implies b2.buys[
                            i
                        ].order_id != b2.sells[j].order_id by {
                            let bi = if i == 0 { d } else { d + i };
                            assert(b2.buys[i].order_id == b.buys[bi].order_id);
                            if j != pos {
                                let oj = if j < pos { j } else { j - 1 };
                                assert(b2.sells[j] == b.sells[oj]);
                            }
                        }
                    }
                } else {
                    assert(forall|i: int, j: int|
                        0 <= i < b2.buys.len() && 0 <= j < b2.sells.len() ==> (#[trigger] b2.buys[
                            i
                        ]).order_id != (#[trigger] b2.sells[j]).order_id) by {
                        assert forall|i: int, j: int|
                            0 <= i < b2.buys.len() && 0 <= j < b2.sells.len() implies b2.buys[
                            i
                        ].order_id != b2.sells[j].order_id by {
                            let bi = if i == 0 { d } else { d + i };
                            assert(b2.buys[i].order_id == b.buys[bi].order_id);
                        }
                    }
                }
            }
        },
    }
}


/// Every id resting on any book was issued by the counter: none exceeds the
/// last order id.
pub open spec fn ids_bounded(p: PortalV) -> bool {
    forall|t: Seq<char>| #[trigger]
        p.books.contains_key(t) ==> (forall|k: int|
            0 <= k < p.books[t].buys.len() ==> (#[trigger] p.books[t].buys[k]).order_id
                <= p.last_order_id) && (forall|k: int|
            0 <= k < p.books[t].sells.len() ==> (#[trigger] p.books[t].sells[k]).order_id
                <= p.last_order_id)
}

/// The hypotheses of [`lemma_portal_step_no_crossed_book`] are themselves
/// preserved by every request: well-formed books with unique, counter-issued
/// ids stay that way. Together with [`lemma_loaded_books_ok`] (the books
/// start empty) this closes the induction: the no-crossed-book property
/// holds after every sequence of requests.
pub proof fn lemma_portal_step_preserves_books_ok(p: PortalV, seqnum: SeqNum, req: PortalRequestV)
    requires
        books_ok(p),
        ids_bounded(p),
        p.last_order_id < u64::MAX,
    ensures
        books_ok(portal_step(p, seqnum, req).0),
        ids_bounded(portal_step(p, seqnum, req).0),
{
    let stepped = portal_step(p, seqnum, req).0;
    match req {
        PortalRequestV::EventHistory(_) => {},
        PortalRequestV::NewOrder(inv_id, order_req) => {
            if crate::stock_manager::spec_valid_order(
                p.stocks,
                order_req.ticker,
                order_req.price,
                order_req.size,
            ) {
                let filled = crate::portal::fill_in_spec(p, order_req);
                let p1 = filled.0;
                assert(books_ok(p1) && ids_bounded(p1)) by {
                    if order_req.limit_or_market == crate::common::LimitOrMarket::Market
                        && p.books.contains_key(order_req.ticker) {
                        let b = p.books[order_req.ticker];
                        if order_req.direction == crate::common::Direction::Buy {
                            lemma_gc_sells_facts(b.sells, b.deleted);
                            let g = crate::orderbook::gc_sells(b.sells, b.deleted);
                            let d = choose|d: int| #[trigger] sells_suffix(b.sells, g.0, d);
                            assert(crate::orderbook::sells_sorted(g.0) && sell_ids_unique(g.0)
                                && (forall|k: int|
                                0 <= k < g.0.len() ==> (#[trigger] g.0[k]).order_id
                                    <= p.last_order_id)) by {
                                assert(forall|k: int|
                                    0 <= k < g.0.len() ==> #[trigger] g.0[k] == b.sells[d + k]);
                            }
                            assert(forall|i: int, j: int|
                                0 <= i < b.buys.len() && 0 <= j < g.0.len() ==> (
                                #[trigger] b.buys[i]).order_id != (#[trigger] g.0[j]).order_id)
                                by {
                                assert(forall|j: int|
                                    0 <= j < g.0.len() ==> #[trigger] g.0[j] == b.sells[d + j]);
                            }
                        } else {
                            lemma_gc_buys_facts(b.buys, b.deleted);
                            let g = crate::orderbook::gc_buys(b.buys, b.deleted);
                            let d = choose|d: int| #[trigger] buys_suffix(b.buys, g.0, d);
                            assert(crate::orderbook::buys_sorted(g.0) && buy_ids_unique(g.0) && (
                            forall|k: int|
                                0 <= k < g.0.len() ==> (#[trigger] g.0[k]).order_id
                                    <= p.last_order_id)) by {
                                assert(forall|k: int|
                                    0 <= k < g.0.len() ==> #[trigger] g.0[k] == b.buys[d + k]);
                            }
                            assert(forall|i: int, j: int|
                                0 <= i < g.0.len() && 0 <= j < b.sells.len() ==> (#[trigger] g.0[
                                    i
                                ]).order_id != (#[trigger] b.sells[j]).order_id) by {
                                assert(forall|i: int|
                                    0 <= i < g.0.len() ==> #[trigger] g.0[i] == b.buys[d + i]);
                            }
                        }
                        assert forall|t: Seq<char>| #[trigger]
                            p1.books.contains_key(t) implies p1.books[t].wf() && book_ids_unique(
                            p1.books[t],
                        ) && (forall|k: int|
                            0 <= k < p1.books[t].buys.len() ==> (#[trigger] p1.books[
                                t
                            ].buys[k]).order_id <= p1.last_order_id) && (forall|k: int|
                            0 <= k < p1.books[t].sells.len() ==> (#[trigger] p1.books[
                                t
                            ].sells[k]).order_id <= p1.last_order_id) by {
                            if t != order_req.ticker {
                                assert(p.books.contains_key(t));
                            }
                        }
                    }
                }
                let pot = crate::portal::potential_of(filled.1);
                if p1.accounts.contains_key(inv_id) && valid_potential(p1.accounts[inv_id], pot) {
                    let order_id = (p1.last_order_id + 1) as OrderId;
                    let p2 = PortalV {
                        accounts: apply_potential(p1.accounts, inv_id, pot),
                        binds: p1.binds.insert(
                            order_id,
                            crate::portal::record_of(inv_id, filled.1),
                        ),
                        last_order_id: order_id,
                        ..p1
                    };
                    if p2.books.contains_key(filled.1.ticker) {
                        let obreq = crate::orderbook_types::OrderbookRequest::NewOrder(
                            crate::orderbook_types::NewOrderRequest {
                                order_id,
                                direction: filled.1.direction,
                                size: filled.1.size,
                                price: filled.1.price,
                                timestamp: filled.1.timestamp,
                                limit_or_market: filled.1.limit_or_market,
                                time_in_force: filled.1.time_in_force,
                            },
                        );
                        let b = p2.books[filled.1.ticker];
                        assert(forall|k: int|
                            0 <= k < b.buys.len() ==> (#[trigger] b.buys[k]).order_id
                                != order_id);
                        assert(forall|k: int|
                            0 <= k < b.sells.len() ==> (#[trigger] b.sells[k]).order_id
                                != order_id);
                        lemma_book_step_preserves_ok(b, obreq);
                        let bs = crate::orderbook::book_step(b, obreq);
                        let p3 = PortalV {
                            books: p2.books.insert(filled.1.ticker, bs.1),
                            ..p2
                        };
                        lemma_apply_logs_books(p3, bs.0);
                        assert forall|t: Seq<char>| #[trigger]
                            stepped.books.contains_key(t) implies stepped.books[t].wf()
                            && book_ids_unique(stepped.books[t]) && (forall|k: int|
                            0 <= k < stepped.books[t].buys.len() ==> (#[trigger] stepped.books[
                                t
                            ].buys[k]).order_id <= stepped.last_order_id) && (forall|k: int|
                            0 <= k < stepped.books[t].sells.len() ==> (#[trigger] stepped.books[
                                t
                            ].sells[k]).order_id <= stepped.last_order_id) by {
                            if t == filled.1.ticker {
                                assert(stepped.books[t] == bs.1);
                                assert forall|k: int|
                                    0 <= k < bs.1.buys.len() implies (#[trigger] bs.1.buys[
                                    k
                                ]).order_id <= order_id by {
                                    if bs.1.buys[k].order_id != order_id {
                                        let j = choose|j: int|
                                            0 <= j < b.buys.len() && bs.1.buys[k].order_id
                                                == (#[trigger] b.buys[j]).order_id;
                                    }
                                }
                                assert forall|k: int|
                                    0 <= k < bs.1.sells.len() implies (#[trigger] bs.1.sells[
                                    k
                                ]).order_id <= order_id by {
                                    if bs.1.sells[k].order_id != order_id {
                                        let j = choose|j: int|
                                            0 <= j < b.sells.len() && bs.1.sells[k].order_id
                                                == (#[trigger] b.sells[j]).order_id;
                                    }
                                }
                            } else {
                                assert(p1.books.contains_key(t));
                                assert(stepped.books[t] == p1.books[t]);
                            }
                        }
                    }
                }
            }
        },
        PortalRequestV::CancelOrder(inv_id, order_id) => {
            if cancel_valid(p, order_id, inv_id) {
                let p1 = PortalV {
                    restings: crate::order_info::gc_zero(p.restings, order_id),
                    ..p
                };
                let ticker = p.binds[order_id].ticker;
                if p1.books.contains_key(ticker) {
                    let obreq = crate::orderbook_types::OrderbookRequest::CancelOrder(
                        crate::orderbook_types::CancelOrderRequest { order_id },
                    );
                    lemma_book_step_preserves_ok(p1.books[ticker], obreq);
                    let bs = crate::orderbook::book_step(p1.books[ticker], obreq);
                    let p2 = PortalV { books: p1.books.insert(ticker, bs.1), ..p1 };
                    lemma_apply_logs_books(p2, bs.0);
                    assert forall|t: Seq<char>| #[trigger]
                        stepped.books.contains_key(t) implies stepped.books[t].wf()
                        && book_ids_unique(stepped.books[t]) && (forall|k: int|
                        0 <= k < stepped.books[t].buys.len() ==> (#[trigger] stepped.books[
                            t
                        ].buys[k]).order_id <= stepped.last_order_id) && (forall|k: int|
                        0 <= k < stepped.books[t].sells.len() ==> (#[trigger] stepped.books[
                            t
                        ].sells[k]).order_id <= stepped.last_order_id) by {
                        if t != ticker {
                            assert(p.books.contains_key(t));
                        } else {
                            assert(stepped.books[t] == bs.1);
                            assert(bs.1.buys == p1.books[ticker].buys && bs.1.sells
                                == p1.books[ticker].sells);
                            assert(p.books.contains_key(t));
                        }
                    }
                }
            }
        },
    }
}


/// Full cancel refund, at the portal: cancelling a live buy credits its
/// owner exactly the resting shares times the limit price — the cash the
/// advance drawdown still holds for them — and touches nobody else's
/// account. With [`lemma_reserve_then_refund_buy`], a buy that rested whole
/// and is then cancelled leaves every account as it began.
pub proof fn lemma_cancel_refund(p: PortalV, inv_id: InvId, seqnum: SeqNum, order_id: OrderId)
    requires
        cancel_valid(p, order_id, inv_id),
        p.binds[order_id].direction == crate::common::Direction::Buy,
        p.books.contains_key(p.binds[order_id].ticker),
        p.accounts.contains_key(inv_id),
        p.restings[order_id] * p.binds[order_id].limit_price <= u64::MAX,
        p.accounts[inv_id].cash + p.restings[order_id] * p.binds[order_id].limit_price
            <= u64::MAX,
    ensures
        ({
            let stepped = cancel_step(p, inv_id, seqnum, order_id).0;
            &&& stepped.accounts[inv_id].cash == p.accounts[inv_id].cash + p.restings[order_id]
                * p.binds[order_id].limit_price
            &&& stepped.accounts[inv_id].positions == p.accounts[inv_id].positions
            &&& (forall|i: InvId|
                i != inv_id && p.accounts.contains_key(i) ==> stepped.accounts[i]
                    == p.accounts[i])
        }),
{
    reveal_with_fuel(apply_logs, 3);
    reveal_with_fuel(crate::portal::apply_updates, 2);
    let rec = p.binds[order_id];
    let r = p.restings[order_id];
    let p1 = PortalV { restings: crate::order_info::gc_zero(p.restings, order_id), ..p };
    assert(p1.restings == p.restings);
    let obreq = crate::orderbook_types::OrderbookRequest::CancelOrder(
        crate::orderbook_types::CancelOrderRequest { order_id },
    );
    let bs = crate::orderbook::book_step(p1.books[rec.ticker], obreq);
    assert(bs.0 == crate::orderbook::cancel_spec_logs(order_id));
    let p2 = PortalV { books: p1.books.insert(rec.ticker, bs.1), ..p1 };
    // the death log first: the live resting portion is refunded in cash
    let dead = crate::orderbook_types::OrderResponseV::OrderDead(
        crate::orderbook_types::OrderDeadResponse { order_id },
    );
    assert(bs.0[0] == crate::orderbook_types::OrderbookLogV::OrderLog(dead));
    let first = apply_log(p2, bs.0[0]);
    assert(crate::order_info::live_resting(p2.restings, order_id) == Some(r));
    assert(crate::portal::resp_updates_ok(dead, rec, Some(r)));
    let ups = crate::portal::resp_updates(dead, rec, Some(r));
    assert(ups[0] == AccountUpdateV::UpdCash(rec.inv_id, (r * rec.limit_price) as u64));
    assert(crate::account::update_ok(p2.accounts[inv_id], ups[0]));
    assert(first.0.accounts == apply_update(p2.accounts, ups[0])) by {
        assert(ups.drop_first() =~= Seq::<AccountUpdateV>::empty());
    }
    // the removal event second: records move, accounts do not
    let second = apply_log(first.0, bs.0[1]);
    assert(second.0.accounts == first.0.accounts);
    assert(bs.0.drop_first()[0] == bs.0[1]);
    assert(bs.0.drop_first().drop_first() =~= Seq::<crate::orderbook_types::OrderbookLogV>::empty());
    assert(cancel_step(p, inv_id, seqnum, order_id).0.accounts == second.0.accounts);
}

} // verus!
