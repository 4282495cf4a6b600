//! The matching engine: top-of-book, matching, market and IOC behavior.

use ses::common::{Direction, LimitOrMarket, TimeInForce};
use ses::event::{Event, OrderAdded, OrderExecuted, OrderRemoved};
use ses::orderbook::OrderBook;
use ses::orderbook_types::{
    CancelOrderRequest, NewOrderRequest, OrderDeadResponse, OrderFillResponse, OrderbookLog,
    OrderResponse,
};

fn same_response_list(actual: Vec<OrderbookLog>, expected: Vec<OrderbookLog>) -> bool {
    if actual == expected {
        true
    } else {
        println!("Expected: {:?}", expected);
        println!("Actual: {:?}", actual);
        false
    }
}

#[test]
fn test_best_order() {
    // 101 buy 100 @ 10 t=1
    // 102 buy 100 @ 15 t=2
    // 103 sell 50 @ 5 t=3
    // 104 buy 80 @ 5 t=4
    // cancel 101
    // 105 sell 200 @ 5 t=5
    let mut order_book = OrderBook::new("AAPL".to_string());
    let req1 = NewOrderRequest {
        order_id: 101,
        direction: Direction::Buy,
        size: 100,
        price: 10,
        timestamp: 1,
        limit_or_market: LimitOrMarket::Limit,
        time_in_force: TimeInForce::Day,
    };
    let req2 = NewOrderRequest {
        order_id: 102,
        direction: Direction::Buy,
        size: 100,
        price: 15,
        timestamp: 2,
        limit_or_market: LimitOrMarket::Limit,
        time_in_force: TimeInForce::Day,
    };
    let req3 = NewOrderRequest {
        order_id: 103,
        direction: Direction::Sell,
        size: 50,
        price: 5,
        timestamp: 3,
        limit_or_market: LimitOrMarket::Limit,
        time_in_force: TimeInForce::Day,
    };
    let req4 = NewOrderRequest {
        order_id: 104,
        direction: Direction::Buy,
        size: 80,
        price: 5,
        timestamp: 4,
        limit_or_market: LimitOrMarket::Limit,
        time_in_force: TimeInForce::Day,
    };
    let req5 = CancelOrderRequest { order_id: 101 };
    let req6 = NewOrderRequest {
        order_id: 105,
        direction: Direction::Sell,
        size: 200,
        price: 5,
        timestamp: 5,
        limit_or_market: LimitOrMarket::Limit,
        time_in_force: TimeInForce::Day,
    };
    let _ = order_book.handle_new_order(req1);
    assert!(order_book.best_buy_price().unwrap() == 10);
    assert!(order_book.best_sell_price().is_none());
    let _ = order_book.handle_new_order(req2);
    assert!(order_book.best_buy_price().unwrap() == 15);
    assert!(order_book.best_sell_price().is_none());
    let _ = order_book.handle_new_order(req3);
    assert!(order_book.best_buy_price().unwrap() == 15);
    assert!(order_book.best_sell_price().is_none());

    let _ = order_book.handle_new_order(req4);
    assert!(order_book.best_buy_price().unwrap() == 15);
    assert!(order_book.best_sell_price().is_none());

    let _ = order_book.handle_cancel_order(req5);
    assert!(order_book.best_buy_price().unwrap() == 15);
    assert!(order_book.best_sell_price().is_none());

    let _ = order_book.handle_new_order(req6);
    assert!(order_book.best_buy_price().is_none());
    assert!(order_book.best_sell_price().unwrap() == 5);
}

#[test]
fn test_basic_matching() {
    // 101 buy 100 @ 10 t=1
    // 102 buy 100 @ 6 t=2
    // cancel 101
    // 103 sell 50 @ 5 t=3
    // 104 sell 100 @ 4 t=4
    // 105 buy 100 @ 7 t=5
    let mut order_book = OrderBook::new("AAPL".to_string());

    let req1 = NewOrderRequest {
        order_id: 101,
        direction: Direction::Buy,
        size: 100,
        price: 10,
        timestamp: 1,
        limit_or_market: LimitOrMarket::Limit,
        time_in_force: TimeInForce::Day,
    };
    let req2 = NewOrderRequest {
        order_id: 102,
        direction: Direction::Buy,
        size: 100,
        price: 6,
        timestamp: 2,
        limit_or_market: LimitOrMarket::Limit,
        time_in_force: TimeInForce::Day,
    };
    let req3 = CancelOrderRequest { order_id: 101 };
    let req4 = NewOrderRequest {
        order_id: 103,
        direction: Direction::Sell,
        size: 50,
        price: 5,
        timestamp: 3,
        limit_or_market: LimitOrMarket::Limit,
        time_in_force: TimeInForce::Day,
    };
    let req5 = NewOrderRequest {
        order_id: 104,
        direction: Direction::Sell,
        size: 100,
        price: 4,
        timestamp: 4,
        limit_or_market: LimitOrMarket::Limit,
        time_in_force: TimeInForce::Day,
    };
    let req6 = NewOrderRequest {
        order_id: 105,
        direction: Direction::Buy,
        size: 100,
        price: 7,
        timestamp: 5,
        limit_or_market: LimitOrMarket::Limit,
        time_in_force: TimeInForce::Day,
    };

    let resp1: Vec<OrderbookLog> = order_book.handle_new_order(req1);
    let expected_resp1 = vec![OrderbookLog::EventLog(Event::OrderAdded(OrderAdded {
        order_id: 101,
        ticker: "AAPL".to_string(),
        direction: Direction::Buy,
        resting_size: 100,
        limit_price: 10,
    }))];
    assert!(same_response_list(resp1, expected_resp1));

    let resp2: Vec<OrderbookLog> = order_book.handle_new_order(req2);
    let expected_resp2 = vec![OrderbookLog::EventLog(Event::OrderAdded(OrderAdded {
        order_id: 102,
        ticker: "AAPL".to_string(),
        direction: Direction::Buy,
        resting_size: 100,
        limit_price: 6,
    }))];
    assert!(same_response_list(resp2, expected_resp2));

    let resp3: Vec<OrderbookLog> = order_book.handle_cancel_order(req3);
    let expected_resp3 = vec![
        OrderbookLog::OrderLog(OrderResponse::OrderDead(OrderDeadResponse {
            order_id: 101,
        })),
        OrderbookLog::EventLog(Event::OrderRemoved(OrderRemoved { order_id: 101 })),
    ];
    assert!(same_response_list(resp3, expected_resp3));

    let resp4: Vec<OrderbookLog> = order_book.handle_new_order(req4);
    let expected_resp4 = vec![
        OrderbookLog::OrderLog(OrderResponse::OrderFill(OrderFillResponse {
            order_id: 102,
            fill_size: 50,
            fill_price: 6,
        })),
        OrderbookLog::EventLog(Event::OrderExecuted(OrderExecuted {
            order_id: 102,
            ticker: "AAPL".to_string(),
            execution_size: 50,
            execution_price: 6,
        })),
        OrderbookLog::OrderLog(OrderResponse::OrderFill(OrderFillResponse {
            order_id: 103,
            fill_size: 50,
            fill_price: 6,
        })),
        OrderbookLog::EventLog(Event::OrderExecuted(OrderExecuted {
            order_id: 103,
            ticker: "AAPL".to_string(),
            execution_size: 50,
            execution_price: 6,
        })),
        OrderbookLog::OrderLog(OrderResponse::OrderDead(OrderDeadResponse {
            order_id: 103,
        })),
    ];
    assert!(same_response_list(resp4, expected_resp4));

    let resp5: Vec<OrderbookLog> = order_book.handle_new_order(req5);
    let expected_resp5 = vec![
        OrderbookLog::OrderLog(OrderResponse::OrderFill(OrderFillResponse {
            order_id: 102,
            fill_size: 50,
            fill_price: 6,
        })),
        OrderbookLog::EventLog(Event::OrderExecuted(OrderExecuted {
            order_id: 102,
            ticker: "AAPL".to_string(),
            execution_size: 50,
            execution_price: 6,
        })),
        OrderbookLog::OrderLog(OrderResponse::OrderDead(OrderDeadResponse {
            order_id: 102,
        })),
        OrderbookLog::OrderLog(OrderResponse::OrderFill(OrderFillResponse {
            order_id: 104,
            fill_size: 50,
            fill_price: 6,
        })),
        OrderbookLog::EventLog(Event::OrderExecuted(OrderExecuted {
            order_id: 104,
            ticker: "AAPL".to_string(),
            execution_size: 50,
            execution_price: 6,
        })),
        OrderbookLog::EventLog(Event::OrderAdded(OrderAdded {
            order_id: 104,
            ticker: "AAPL".to_string(),
            direction: Direction::Sell,
            resting_size: 50,
            limit_price: 4,
        })),
    ];
    assert!(same_response_list(resp5, expected_resp5));

    let resp6: Vec<OrderbookLog> = order_book.handle_new_order(req6);
    let expected_resp6 = vec![
        OrderbookLog::OrderLog(OrderResponse::OrderFill(OrderFillResponse {
            order_id: 104,
            fill_size: 50,
            fill_price: 4,
        })),
        OrderbookLog::EventLog(Event::OrderExecuted(OrderExecuted {
            order_id: 104,
            ticker: "AAPL".to_string(),
            execution_size: 50,
            execution_price: 4,
        })),
        OrderbookLog::OrderLog(OrderResponse::OrderDead(OrderDeadResponse {
            order_id: 104,
        })),
        OrderbookLog::OrderLog(OrderResponse::OrderFill(OrderFillResponse {
            order_id: 105,
            fill_size: 50,
            fill_price: 4,
        })),
        OrderbookLog::EventLog(Event::OrderExecuted(OrderExecuted {
            order_id: 105,
            ticker: "AAPL".to_string(),
            execution_size: 50,
            execution_price: 4,
        })),
        OrderbookLog::EventLog(Event::OrderAdded(OrderAdded {
            order_id: 105,
            ticker: "AAPL".to_string(),
            direction: Direction::Buy,
            resting_size: 50,
            limit_price: 7,
        })),
    ];
    assert!(same_response_list(resp6, expected_resp6));
}

#[test]
fn test_market_sell_order() {
    // 101 buy 100 @ 10 t=1
    // 102 sell 50 @ market t=2
    // 103 sell 100 @ market t=3
    let mut order_book = OrderBook::new("AAPL".to_string());
    let req1 = NewOrderRequest {
        order_id: 101,
        direction: Direction::Buy,
        size: 100,
        price: 10,
        timestamp: 1,
        limit_or_market: LimitOrMarket::Limit,
        time_in_force: TimeInForce::Day,
    };
    let resp1: Vec<OrderbookLog> = order_book.handle_new_order(req1);
    let expected_resp1 = vec![OrderbookLog::EventLog(Event::OrderAdded(OrderAdded {
        order_id: 101,
        ticker: "AAPL".to_string(),
        direction: Direction::Buy,
        resting_size: 100,
        limit_price: 10,
    }))];
    assert!(same_response_list(resp1, expected_resp1));

    let req2 = NewOrderRequest {
        order_id: 102,
        direction: Direction::Sell,
        size: 50,
        price: order_book.best_buy_price().unwrap(),
        timestamp: 2,
        limit_or_market: LimitOrMarket::Market,
        time_in_force: TimeInForce::Day,
    };
    let resp2: Vec<OrderbookLog> = order_book.handle_new_order(req2);
    let expected_resp2 = vec![
        OrderbookLog::OrderLog(OrderResponse::OrderFill(OrderFillResponse {
            order_id: 101,
            fill_size: 50,
            fill_price: 10,
        })),
        OrderbookLog::EventLog(Event::OrderExecuted(OrderExecuted {
            order_id: 101,
            ticker: "AAPL".to_string(),
            execution_size: 50,
            execution_price: 10,
        })),
        OrderbookLog::OrderLog(OrderResponse::OrderFill(OrderFillResponse {
            order_id: 102,
            fill_size: 50,
            fill_price: 10,
        })),
        OrderbookLog::EventLog(Event::OrderExecuted(OrderExecuted {
            order_id: 102,
            ticker: "AAPL".to_string(),
            execution_size: 50,
            execution_price: 10,
        })),
        OrderbookLog::OrderLog(OrderResponse::OrderDead(OrderDeadResponse {
            order_id: 102,
        })),
    ];
    assert!(same_response_list(resp2, expected_resp2));

    let req3 = NewOrderRequest {
        order_id: 103,
        direction: Direction::Sell,
        size: 100,
        price: order_book.best_buy_price().unwrap(),
        timestamp: 3,
        limit_or_market: LimitOrMarket::Market,
        time_in_force: TimeInForce::Day,
    };
    let resp3: Vec<OrderbookLog> = order_book.handle_new_order(req3);
    let expected_resp3 = vec![
        OrderbookLog::OrderLog(OrderResponse::OrderFill(OrderFillResponse {
            order_id: 101,
            fill_size: 50,
            fill_price: 10,
        })),
        OrderbookLog::EventLog(Event::OrderExecuted(OrderExecuted {
            order_id: 101,
            ticker: "AAPL".to_string(),
            execution_size: 50,
            execution_price: 10,
        })),
        OrderbookLog::OrderLog(OrderResponse::OrderDead(OrderDeadResponse {
            order_id: 101,
        })),
        OrderbookLog::OrderLog(OrderResponse::OrderFill(OrderFillResponse {
            order_id: 103,
            fill_size: 50,
            fill_price: 10,
        })),
        OrderbookLog::EventLog(Event::OrderExecuted(OrderExecuted {
            order_id: 103,
            ticker: "AAPL".to_string(),
            execution_size: 50,
            execution_price: 10,
        })),
        OrderbookLog::OrderLog(OrderResponse::OrderDead(OrderDeadResponse {
            order_id: 103,
        })),
    ];
    assert!(same_response_list(resp3, expected_resp3));
}

#[test]
fn test_market_buy_order() {
    // 101 sell 100 @ 10 t=1
    // 102 buy 50 @ market t=2
    // 103 buy 100 @ market t=3
    let mut order_book = OrderBook::new("AAPL".to_string());
    let req1 = NewOrderRequest {
        order_id: 101,
        direction: Direction::Sell,
        size: 100,
        price: 10,
        timestamp: 1,
        limit_or_market: LimitOrMarket::Limit,
        time_in_force: TimeInForce::Day,
    };
    let resp1: Vec<OrderbookLog> = order_book.handle_new_order(req1);
    let expected_resp1 = vec![OrderbookLog::EventLog(Event::OrderAdded(OrderAdded {
        order_id: 101,
        ticker: "AAPL".to_string(),
        direction: Direction::Sell,
        resting_size: 100,
        limit_price: 10,
    }))];
    assert!(same_response_list(resp1, expected_resp1));

    let req2 = NewOrderRequest {
        order_id: 102,
        direction: Direction::Buy,
        size: 50,
        price: order_book.best_sell_price().unwrap(),
        timestamp: 2,
        limit_or_market: LimitOrMarket::Market,
        time_in_force: TimeInForce::Day,
    };
    let resp2: Vec<OrderbookLog> = order_book.handle_new_order(req2);
    let expected_resp2 = vec![
        OrderbookLog::OrderLog(OrderResponse::OrderFill(OrderFillResponse {
            order_id: 101,
            fill_size: 50,
            fill_price: 10,
        })),
        OrderbookLog::EventLog(Event::OrderExecuted(OrderExecuted {
            order_id: 101,
            ticker: "AAPL".to_string(),
            execution_size: 50,
            execution_price: 10,
        })),
        OrderbookLog::OrderLog(OrderResponse::OrderFill(OrderFillResponse {
            order_id: 102,
            fill_size: 50,
            fill_price: 10,
        })),
        OrderbookLog::EventLog(Event::OrderExecuted(OrderExecuted {
            order_id: 102,
            ticker: "AAPL".to_string(),
            execution_size: 50,
            execution_price: 10,
        })),
        OrderbookLog::OrderLog(OrderResponse::OrderDead(OrderDeadResponse {
            order_id: 102,
        })),
    ];
    assert!(same_response_list(resp2, expected_resp2));

    let req3 = NewOrderRequest {
        order_id: 103,
        direction: Direction::Buy,
        size: 100,
        price: order_book.best_sell_price().unwrap(),
        timestamp: 3,
        limit_or_market: LimitOrMarket::Market,
        time_in_force: TimeInForce::Day,
    };
    let resp3: Vec<OrderbookLog> = order_book.handle_new_order(req3);
    let expected_resp3 = vec![
        OrderbookLog::OrderLog(OrderResponse::OrderFill(OrderFillResponse {
            order_id: 101,
            fill_size: 50,
            fill_price: 10,
        })),
        OrderbookLog::EventLog(Event::OrderExecuted(OrderExecuted {
            order_id: 101,
            ticker: "AAPL".to_string(),
            execution_size: 50,
            execution_price: 10,
        })),
        OrderbookLog::OrderLog(OrderResponse::OrderDead(OrderDeadResponse {
            order_id: 101,
        })),
        OrderbookLog::OrderLog(OrderResponse::OrderFill(OrderFillResponse {
            order_id: 103,
            fill_size: 50,
            fill_price: 10,
        })),
        OrderbookLog::EventLog(Event::OrderExecuted(OrderExecuted {
            order_id: 103,
            ticker: "AAPL".to_string(),
            execution_size: 50,
            execution_price: 10,
        })),
        OrderbookLog::OrderLog(OrderResponse::OrderDead(OrderDeadResponse {
            order_id: 103,
        })),
    ];
    assert!(same_response_list(resp3, expected_resp3));
}

#[test]
fn test_ioc_order() {
    // 101 buy 50 @ 10 t=1
    // 102 sell 100 @ 15 t=2 IOC
    // 103 sell 100 @ 6 t=3 IOC
    let mut order_book = OrderBook::new("AAPL".to_string());
    let req1 = NewOrderRequest {
        order_id: 101,
        direction: Direction::Buy,
        size: 50,
        price: 10,
        timestamp: 1,
        limit_or_market: LimitOrMarket::Limit,
        time_in_force: TimeInForce::Day,
    };
    let resp1: Vec<OrderbookLog> = order_book.handle_new_order(req1);
    let expected_resp1 = vec![OrderbookLog::EventLog(Event::OrderAdded(OrderAdded {
        order_id: 101,
        ticker: "AAPL".to_string(),
        direction: Direction::Buy,
        resting_size: 50,
        limit_price: 10,
    }))];
    assert!(same_response_list(resp1, expected_resp1));

    let req2 = NewOrderRequest {
        order_id: 102,
        direction: Direction::Sell,
        size: 100,
        price: 15,
        timestamp: 2,
        limit_or_market: LimitOrMarket::Limit,
        time_in_force: TimeInForce::IOC,
    };
    let resp2: Vec<OrderbookLog> = order_book.handle_new_order(req2);
    let expected_resp2 = vec![OrderbookLog::OrderLog(OrderResponse::OrderDead(
        OrderDeadResponse { order_id: 102 },
    ))];
    assert!(same_response_list(resp2, expected_resp2));

    let req3 = NewOrderRequest {
        order_id: 103,
        direction: Direction::Sell,
        size: 100,
        price: 6,
        timestamp: 3,
        limit_or_market: LimitOrMarket::Limit,
        time_in_force: TimeInForce::IOC,
    };
    let resp3: Vec<OrderbookLog> = order_book.handle_new_order(req3);
    let expected_resp3 = vec![
        OrderbookLog::OrderLog(OrderResponse::OrderFill(OrderFillResponse {
            order_id: 101,
            fill_size: 50,
            fill_price: 10,
        })),
        OrderbookLog::EventLog(Event::OrderExecuted(OrderExecuted {
            order_id: 101,
            ticker: "AAPL".to_string(),
            execution_size: 50,
            execution_price: 10,
        })),
        OrderbookLog::OrderLog(OrderResponse::OrderDead(OrderDeadResponse {
            order_id: 101,
        })),
        OrderbookLog::OrderLog(OrderResponse::OrderFill(OrderFillResponse {
            order_id: 103,
            fill_size: 50,
            fill_price: 10,
        })),
        OrderbookLog::EventLog(Event::OrderExecuted(OrderExecuted {
            order_id: 103,
            ticker: "AAPL".to_string(),
            execution_size: 50,
            execution_price: 10,
        })),
        OrderbookLog::OrderLog(OrderResponse::OrderDead(OrderDeadResponse {
            order_id: 103,
        })),
    ];
    assert!(same_response_list(resp3, expected_resp3));
}

#[test]
fn test_no_crossed_book() {
    // a crossing order trades instead of resting: the book never quotes a
    // buy at or above a sell
    let mut order_book = OrderBook::new("AAPL".to_string());
    order_book.handle_new_order(NewOrderRequest {
        order_id: 1,
        direction: Direction::Buy,
        size: 100,
        price: 10,
        timestamp: 1,
        limit_or_market: LimitOrMarket::Limit,
        time_in_force: TimeInForce::Day,
    });
    order_book.handle_new_order(NewOrderRequest {
        order_id: 2,
        direction: Direction::Sell,
        size: 100,
        price: 15,
        timestamp: 2,
        limit_or_market: LimitOrMarket::Limit,
        time_in_force: TimeInForce::Day,
    });
    assert!(order_book.best_buy_price().unwrap() < order_book.best_sell_price().unwrap());

    // a sell under the best buy fills and rests only its remainder, above
    order_book.handle_new_order(NewOrderRequest {
        order_id: 3,
        direction: Direction::Sell,
        size: 150,
        price: 8,
        timestamp: 3,
        limit_or_market: LimitOrMarket::Limit,
        time_in_force: TimeInForce::Day,
    });
    assert!(order_book.best_buy_price().is_none());
    assert_eq!(order_book.best_sell_price().unwrap(), 8);

    order_book.handle_new_order(NewOrderRequest {
        order_id: 4,
        direction: Direction::Buy,
        size: 10,
        price: 7,
        timestamp: 4,
        limit_or_market: LimitOrMarket::Limit,
        time_in_force: TimeInForce::Day,
    });
    assert!(order_book.best_buy_price().unwrap() < order_book.best_sell_price().unwrap());
}

#[test]
fn test_partial_fill_keeps_priority() {
    // a partially filled maker keeps its place: the remainder still fills
    // before an equally priced later order
    let mut order_book = OrderBook::new("AAPL".to_string());
    order_book.handle_new_order(NewOrderRequest {
        order_id: 1,
        direction: Direction::Sell,
        size: 100,
        price: 10,
        timestamp: 1,
        limit_or_market: LimitOrMarket::Limit,
        time_in_force: TimeInForce::Day,
    });
    order_book.handle_new_order(NewOrderRequest {
        order_id: 2,
        direction: Direction::Sell,
        size: 100,
        price: 10,
        timestamp: 2,
        limit_or_market: LimitOrMarket::Limit,
        time_in_force: TimeInForce::Day,
    });
    let logs = order_book.handle_new_order(NewOrderRequest {
        order_id: 3,
        direction: Direction::Buy,
        size: 30,
        price: 10,
        timestamp: 3,
        limit_or_market: LimitOrMarket::Limit,
        time_in_force: TimeInForce::IOC,
    });
    assert!(logs.contains(&OrderbookLog::OrderLog(OrderResponse::OrderFill(
        OrderFillResponse {
            order_id: 1,
            fill_size: 30,
            fill_price: 10,
        }
    ))));

    let logs = order_book.handle_new_order(NewOrderRequest {
        order_id: 4,
        direction: Direction::Buy,
        size: 120,
        price: 10,
        timestamp: 4,
        limit_or_market: LimitOrMarket::Limit,
        time_in_force: TimeInForce::IOC,
    });
    // the 70 left on order 1 fill first, then 50 come off order 2
    let fills: Vec<(u64, u32)> = logs
        .iter()
        .filter_map(|l| match l {
            OrderbookLog::OrderLog(OrderResponse::OrderFill(f)) if f.order_id != 4 => {
                Some((f.order_id, f.fill_size))
            }
            _ => None,
        })
        .collect();
    assert_eq!(fills, vec![(1, 70), (2, 50)]);
}
