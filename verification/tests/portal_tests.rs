//! End-to-end portal scenarios. Prices are in thousandths of the currency
//! unit: the AAPL tick (mpf) is 10, the lot is 10 shares, the close price is
//! 100.000, investor 1 starts with cash 10000.000 and 1000 shares.

use ses::account::Account;
use ses::common::{Direction, LimitOrMarket, TimeInForce};
use ses::event::{Event, OrderAdded, OrderExecuted, OrderRemoved};
use ses::orderbook_types::{OrderDeadResponse, OrderFillResponse, OrderResponse};
use ses::portal::Portal;
use ses::portal_types::{PortalNewOrderRequest, PortalRequest, PortalTask};
use ses::stock_manager::StockRecord;

fn make_portal() -> Portal {
    let stocks = vec![(
        "AAPL".to_string(),
        StockRecord {
            close_price: 100_000,
            lot_size: 10,
            mpf: 10,
            name: "Apple".to_string(),
        },
    )];
    let mut acc = Account::new(1, "A".to_string(), "pw1".to_string(), 10_000_000);
    acc.add_position("AAPL".to_string(), 1000);
    Portal::new(stocks, vec![acc])
}

fn order(
    direction: Direction,
    size: u32,
    price: u64,
    limit_or_market: LimitOrMarket,
    time_in_force: TimeInForce,
    timestamp: u64,
) -> PortalRequest {
    PortalRequest::NewOrder(
        1,
        PortalNewOrderRequest {
            ticker: "AAPL".to_string(),
            direction,
            size,
            price,
            limit_or_market,
            time_in_force,
            timestamp,
        },
    )
}

fn count_answers(tasks: &[PortalTask]) -> usize {
    tasks
        .iter()
        .filter(|t| {
            matches!(
                t,
                PortalTask::OrderAck(..) | PortalTask::OrderReject(..) | PortalTask::CancelReject(..)
            )
        })
        .count()
}

fn is_insufficient_reject(t: &PortalTask) -> bool {
    matches!(t, PortalTask::OrderReject(_, _, reason)
        if reason == "Invalid new order request: Insufficient cash or lot to complete the order")
}

#[test]
fn test_rest_then_fill() {
    let mut portal = make_portal();
    let tasks = portal.process_request(
        1,
        order(Direction::Buy, 100, 10_000, LimitOrMarket::Limit, TimeInForce::Day, 1),
    );
    assert_eq!(
        tasks,
        vec![
            PortalTask::OrderAck(1, 1, 1),
            PortalTask::IncrementalEvent(Event::OrderAdded(OrderAdded {
                order_id: 1,
                ticker: "AAPL".to_string(),
                direction: Direction::Buy,
                resting_size: 100,
                limit_price: 10_000,
            })),
        ]
    );

    let tasks = portal.process_request(
        2,
        order(Direction::Sell, 50, 9_000, LimitOrMarket::Limit, TimeInForce::Day, 2),
    );
    assert_eq!(
        tasks,
        vec![
            PortalTask::OrderAck(1, 2, 2),
            PortalTask::OrderResponse(
                1,
                OrderResponse::OrderFill(OrderFillResponse {
                    order_id: 1,
                    fill_size: 50,
                    fill_price: 10_000,
                })
            ),
            PortalTask::IncrementalEvent(Event::OrderExecuted(OrderExecuted {
                order_id: 1,
                ticker: "AAPL".to_string(),
                execution_size: 50,
                execution_price: 10_000,
            })),
            PortalTask::OrderResponse(
                1,
                OrderResponse::OrderFill(OrderFillResponse {
                    order_id: 2,
                    fill_size: 50,
                    fill_price: 10_000,
                })
            ),
            PortalTask::IncrementalEvent(Event::OrderExecuted(OrderExecuted {
                order_id: 2,
                ticker: "AAPL".to_string(),
                execution_size: 50,
                execution_price: 10_000,
            })),
            PortalTask::OrderResponse(
                1,
                OrderResponse::OrderDead(OrderDeadResponse { order_id: 2 })
            ),
        ]
    );
    assert_eq!(count_answers(&tasks), 1);

    // cash is now 10000.000 - 1000.000 (reserve) + 500.000 (sell proceeds)
    // = 9500.000: a buy of one more lot than that is refused, a buy of
    // exactly that much is accepted
    let tasks = portal.process_request(
        3,
        order(Direction::Buy, 960, 10_000, LimitOrMarket::Limit, TimeInForce::Day, 3),
    );
    assert_eq!(tasks.len(), 1);
    assert!(is_insufficient_reject(&tasks[0]));

    // position is back to 1000 shares: one more cannot be sold
    let tasks = portal.process_request(
        4,
        order(Direction::Sell, 1010, 20_000, LimitOrMarket::Limit, TimeInForce::Day, 4),
    );
    assert_eq!(tasks.len(), 1);
    assert!(is_insufficient_reject(&tasks[0]));

    let tasks = portal.process_request(
        5,
        order(Direction::Buy, 950, 10_000, LimitOrMarket::Limit, TimeInForce::Day, 5),
    );
    assert!(matches!(tasks[0], PortalTask::OrderAck(1, 5, 3)));

    let tasks = portal.process_request(
        6,
        order(Direction::Sell, 1000, 20_000, LimitOrMarket::Limit, TimeInForce::Day, 6),
    );
    assert!(matches!(tasks[0], PortalTask::OrderAck(1, 6, 4)));
}

#[test]
fn test_full_cancel_refund() {
    let mut portal = make_portal();
    let tasks = portal.process_request(
        1,
        order(Direction::Buy, 100, 10_000, LimitOrMarket::Limit, TimeInForce::Day, 1),
    );
    assert!(matches!(tasks[0], PortalTask::OrderAck(1, 1, 1)));

    let tasks = portal.process_request(2, PortalRequest::CancelOrder(1, 1));
    assert_eq!(
        tasks,
        vec![
            PortalTask::OrderResponse(
                1,
                OrderResponse::OrderDead(OrderDeadResponse { order_id: 1 })
            ),
            PortalTask::IncrementalEvent(Event::OrderRemoved(OrderRemoved { order_id: 1 })),
        ]
    );

    // the full 1000.000 reservation came back: the whole starting cash can
    // be committed again, and not a lot more
    let tasks = portal.process_request(
        3,
        order(Direction::Buy, 1010, 10_000, LimitOrMarket::Limit, TimeInForce::Day, 3),
    );
    assert!(is_insufficient_reject(&tasks[0]));
    let tasks = portal.process_request(
        4,
        order(Direction::Buy, 1000, 10_000, LimitOrMarket::Limit, TimeInForce::Day, 4),
    );
    assert!(matches!(tasks[0], PortalTask::OrderAck(1, 4, 2)));
}

#[test]
fn test_ioc_partial() {
    let mut portal = make_portal();
    let tasks = portal.process_request(
        1,
        order(Direction::Buy, 50, 10_000, LimitOrMarket::Limit, TimeInForce::Day, 1),
    );
    assert!(matches!(tasks[0], PortalTask::OrderAck(1, 1, 1)));

    let tasks = portal.process_request(
        2,
        order(Direction::Sell, 100, 6_000, LimitOrMarket::Limit, TimeInForce::IOC, 2),
    );
    assert_eq!(
        tasks,
        vec![
            PortalTask::OrderAck(1, 2, 2),
            PortalTask::OrderResponse(
                1,
                OrderResponse::OrderFill(OrderFillResponse {
                    order_id: 1,
                    fill_size: 50,
                    fill_price: 10_000,
                })
            ),
            PortalTask::IncrementalEvent(Event::OrderExecuted(OrderExecuted {
                order_id: 1,
                ticker: "AAPL".to_string(),
                execution_size: 50,
                execution_price: 10_000,
            })),
            PortalTask::OrderResponse(
                1,
                OrderResponse::OrderDead(OrderDeadResponse { order_id: 1 })
            ),
            PortalTask::OrderResponse(
                1,
                OrderResponse::OrderFill(OrderFillResponse {
                    order_id: 2,
                    fill_size: 50,
                    fill_price: 10_000,
                })
            ),
            PortalTask::IncrementalEvent(Event::OrderExecuted(OrderExecuted {
                order_id: 2,
                ticker: "AAPL".to_string(),
                execution_size: 50,
                execution_price: 10_000,
            })),
            PortalTask::OrderResponse(
                1,
                OrderResponse::OrderDead(OrderDeadResponse { order_id: 2 })
            ),
        ]
    );
    // no OrderAdded anywhere: the IOC remainder did not rest
    for t in &tasks {
        assert!(!matches!(
            t,
            PortalTask::IncrementalEvent(Event::OrderAdded(_))
        ));
    }
    assert_eq!(count_answers(&tasks), 1);
}

#[test]
fn test_market_order() {
    let mut portal = make_portal();
    let tasks = portal.process_request(
        1,
        order(Direction::Sell, 100, 10_000, LimitOrMarket::Limit, TimeInForce::Day, 1),
    );
    assert!(matches!(tasks[0], PortalTask::OrderAck(1, 1, 1)));

    // a market buy of 50 fills in the best sell price, 10.000
    let tasks = portal.process_request(
        2,
        order(Direction::Buy, 50, 0, LimitOrMarket::Market, TimeInForce::Day, 2),
    );
    assert_eq!(
        tasks,
        vec![
            PortalTask::OrderAck(1, 2, 2),
            PortalTask::OrderResponse(
                1,
                OrderResponse::OrderFill(OrderFillResponse {
                    order_id: 1,
                    fill_size: 50,
                    fill_price: 10_000,
                })
            ),
            PortalTask::IncrementalEvent(Event::OrderExecuted(OrderExecuted {
                order_id: 1,
                ticker: "AAPL".to_string(),
                execution_size: 50,
                execution_price: 10_000,
            })),
            PortalTask::OrderResponse(
                1,
                OrderResponse::OrderFill(OrderFillResponse {
                    order_id: 2,
                    fill_size: 50,
                    fill_price: 10_000,
                })
            ),
            PortalTask::IncrementalEvent(Event::OrderExecuted(OrderExecuted {
                order_id: 2,
                ticker: "AAPL".to_string(),
                execution_size: 50,
                execution_price: 10_000,
            })),
            PortalTask::OrderResponse(
                1,
                OrderResponse::OrderDead(OrderDeadResponse { order_id: 2 })
            ),
        ]
    );

    // 50 shares still rest on the sell side: a second market buy meets them
    let tasks = portal.process_request(
        3,
        order(Direction::Buy, 50, 0, LimitOrMarket::Market, TimeInForce::Day, 3),
    );
    assert!(tasks.contains(&PortalTask::OrderResponse(
        1,
        OrderResponse::OrderFill(OrderFillResponse {
            order_id: 1,
            fill_size: 50,
            fill_price: 10_000,
        })
    )));

    // with the sell side empty, a market buy falls back to the close price
    // (100.000), matches nothing, and dies without resting
    let tasks = portal.process_request(
        4,
        order(Direction::Buy, 10, 0, LimitOrMarket::Market, TimeInForce::Day, 4),
    );
    assert_eq!(
        tasks,
        vec![
            PortalTask::OrderAck(1, 4, 4),
            PortalTask::OrderResponse(
                1,
                OrderResponse::OrderDead(OrderDeadResponse { order_id: 4 })
            ),
        ]
    );
}

#[test]
fn test_tick_lot_rejection() {
    let mut portal = make_portal();
    // 10.005 is off the 0.010 tick and 15 is not a whole number of lots
    let tasks = portal.process_request(
        1,
        order(Direction::Buy, 15, 10_005, LimitOrMarket::Limit, TimeInForce::Day, 1),
    );
    assert_eq!(
        tasks,
        vec![PortalTask::OrderReject(
            1,
            1,
            "Invalid new order request: Invalid price or size".to_string()
        )]
    );

    // off-tick price alone is enough
    let tasks = portal.process_request(
        2,
        order(Direction::Buy, 10, 10_005, LimitOrMarket::Limit, TimeInForce::Day, 2),
    );
    assert_eq!(tasks.len(), 1);
    assert!(matches!(tasks[0], PortalTask::OrderReject(1, 2, _)));

    // zero size is refused even on a clean price
    let tasks = portal.process_request(
        3,
        order(Direction::Buy, 0, 10_000, LimitOrMarket::Limit, TimeInForce::Day, 3),
    );
    assert_eq!(tasks.len(), 1);
    assert!(matches!(tasks[0], PortalTask::OrderReject(1, 3, _)));

    // an unknown ticker is refused the same way
    let tasks = portal.process_request(
        4,
        PortalRequest::NewOrder(
            1,
            PortalNewOrderRequest {
                ticker: "MSFT".to_string(),
                direction: Direction::Buy,
                size: 10,
                price: 10_000,
                limit_or_market: LimitOrMarket::Limit,
                time_in_force: TimeInForce::Day,
                timestamp: 4,
            },
        ),
    );
    assert_eq!(tasks.len(), 1);
    assert!(matches!(tasks[0], PortalTask::OrderReject(1, 4, _)));
}

#[test]
fn test_cancel_dead_order() {
    let mut portal = make_portal();
    // an id never issued
    let tasks = portal.process_request(1, PortalRequest::CancelOrder(1, 42));
    assert_eq!(
        tasks,
        vec![PortalTask::CancelReject(
            1,
            1,
            "Invalid cancel order request".to_string()
        )]
    );

    // cancel a live order, then cancel it again
    portal.process_request(
        2,
        order(Direction::Buy, 100, 10_000, LimitOrMarket::Limit, TimeInForce::Day, 2),
    );
    let tasks = portal.process_request(3, PortalRequest::CancelOrder(1, 1));
    assert_eq!(count_answers(&tasks), 0);
    let snapshot = portal.process_request(4, PortalRequest::EventHistory(7));

    let tasks = portal.process_request(5, PortalRequest::CancelOrder(1, 1));
    assert_eq!(
        tasks,
        vec![PortalTask::CancelReject(
            1,
            5,
            "Invalid cancel order request".to_string()
        )]
    );
    // and the portal did not move: the history reads the same
    let snapshot2 = portal.process_request(6, PortalRequest::EventHistory(7));
    assert_eq!(snapshot, snapshot2);
}

#[test]
fn test_cancel_not_owner() {
    let stocks = vec![(
        "AAPL".to_string(),
        StockRecord {
            close_price: 100_000,
            lot_size: 10,
            mpf: 10,
            name: "Apple".to_string(),
        },
    )];
    let acc1 = Account::new(1, "A".to_string(), "pw1".to_string(), 10_000_000);
    let acc2 = Account::new(2, "B".to_string(), "pw2".to_string(), 10_000_000);
    let mut portal = Portal::new(stocks, vec![acc1, acc2]);

    portal.process_request(
        1,
        order(Direction::Buy, 100, 10_000, LimitOrMarket::Limit, TimeInForce::Day, 1),
    );
    // investor 2 may not cancel investor 1's order
    let tasks = portal.process_request(2, PortalRequest::CancelOrder(2, 1));
    assert_eq!(
        tasks,
        vec![PortalTask::CancelReject(
            2,
            2,
            "Invalid cancel order request".to_string()
        )]
    );
}

#[test]
fn test_double_login() {
    let mut portal = make_portal();
    assert!(portal.try_login(1, &"pw1".to_string()));
    // the second login on the same investor fails, with either password
    assert!(!portal.try_login(1, &"pw1".to_string()));
    assert!(!portal.try_login(1, &"wrong".to_string()));
}

#[test]
fn test_login_rejects() {
    let mut portal = make_portal();
    assert!(!portal.try_login(1, &"wrong".to_string()));
    assert!(!portal.try_login(9, &"pw1".to_string()));
    // a failed attempt does not burn the session: the right password works
    assert!(portal.try_login(1, &"pw1".to_string()));
}

#[test]
fn test_subscriber_replay() {
    let mut portal = make_portal();
    // three events: added, executed, executed (plus the taker's death)
    portal.process_request(
        1,
        order(Direction::Buy, 100, 10_000, LimitOrMarket::Limit, TimeInForce::Day, 1),
    );
    portal.process_request(
        2,
        order(Direction::Sell, 50, 10_000, LimitOrMarket::Limit, TimeInForce::Day, 2),
    );

    let tasks = portal.process_request(0, PortalRequest::EventHistory(1));
    assert_eq!(tasks.len(), 1);
    let events = match &tasks[0] {
        PortalTask::EventHistory(1, events) => events.clone(),
        other => panic!("unexpected task {:?}", other),
    };
    assert_eq!(
        events,
        vec![
            Event::OrderAdded(OrderAdded {
                order_id: 1,
                ticker: "AAPL".to_string(),
                direction: Direction::Buy,
                resting_size: 100,
                limit_price: 10_000,
            }),
            Event::OrderExecuted(OrderExecuted {
                order_id: 1,
                ticker: "AAPL".to_string(),
                execution_size: 50,
                execution_price: 10_000,
            }),
            Event::OrderExecuted(OrderExecuted {
                order_id: 2,
                ticker: "AAPL".to_string(),
                execution_size: 50,
                execution_price: 10_000,
            }),
        ]
    );

    // a further event fires and shows up as an incremental event, and a
    // later replay carries it at the end, in order
    let tasks = portal.process_request(3, PortalRequest::CancelOrder(1, 1));
    assert!(tasks.contains(&PortalTask::IncrementalEvent(Event::OrderRemoved(
        OrderRemoved { order_id: 1 }
    ))));
    let tasks = portal.process_request(0, PortalRequest::EventHistory(2));
    let events2 = match &tasks[0] {
        PortalTask::EventHistory(2, events) => events.clone(),
        other => panic!("unexpected task {:?}", other),
    };
    assert_eq!(events2.len(), 4);
    assert_eq!(&events2[..3], &events[..]);
    assert_eq!(
        events2[3],
        Event::OrderRemoved(OrderRemoved { order_id: 1 })
    );
}

#[test]
fn test_overflowing_order_rejected() {
    // a buy whose full cost does not even fit the cash domain can never be
    // affordable: it is refused as insufficient
    let mut portal = make_portal();
    let tasks = portal.process_request(
        1,
        order(
            Direction::Buy,
            1_000_000_000,
            1_000_000_000_000_000_000,
            LimitOrMarket::Limit,
            TimeInForce::Day,
            1,
        ),
    );
    assert_eq!(tasks.len(), 1);
    assert!(is_insufficient_reject(&tasks[0]));
}
