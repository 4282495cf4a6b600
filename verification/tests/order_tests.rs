//! Ordering of resting orders: priority comparisons, and the order in which
//! the book matches them.

use std::cmp::Ordering;
use ses::common::{Direction, LimitOrMarket, TimeInForce};
use ses::order::{BuyOrder, SellOrder};
use ses::orderbook::OrderBook;
use ses::orderbook_types::{NewOrderRequest, OrderbookLog, OrderResponse};

fn fill_order_ids(logs: &[OrderbookLog]) -> Vec<u64> {
    let mut ids = Vec::new();
    for log in logs {
        if let OrderbookLog::OrderLog(OrderResponse::OrderFill(f)) = log {
            ids.push(f.order_id);
        }
    }
    ids
}

#[test]
fn test_buyorder_ordering() {
    let buy_order1 = BuyOrder {
        order_id: 1,
        size: 100,
        price: 100,
        timestamp: 5,
    };
    let buy_order2 = BuyOrder {
        order_id: 2,
        size: 100,
        price: 100,
        timestamp: 6,
    };
    let buy_order3 = BuyOrder {
        order_id: 3,
        size: 100,
        price: 101,
        timestamp: 7,
    };
    let buy_order4 = BuyOrder {
        order_id: 4,
        size: 100,
        price: 99,
        timestamp: 8,
    };
    assert_eq!(buy_order1.cmp(&buy_order2), Ordering::Greater);
    assert_eq!(buy_order1.cmp(&buy_order3), Ordering::Less);
    assert_eq!(buy_order1.cmp(&buy_order4), Ordering::Greater);
    assert_eq!(buy_order2.cmp(&buy_order3), Ordering::Less);
    assert_eq!(buy_order2.cmp(&buy_order4), Ordering::Greater);
    assert_eq!(buy_order3.cmp(&buy_order4), Ordering::Greater);

    // rest the same four orders and match them all: the fills report them in
    // priority order
    let mut book = OrderBook::new("AAPL".to_string());
    for o in [&buy_order4, &buy_order3, &buy_order2, &buy_order1] {
        book.handle_new_order(NewOrderRequest {
            order_id: o.order_id,
            direction: Direction::Buy,
            size: o.size,
            price: o.price,
            timestamp: o.timestamp,
            limit_or_market: LimitOrMarket::Limit,
            time_in_force: TimeInForce::Day,
        });
    }
    let logs = book.handle_new_order(NewOrderRequest {
        order_id: 9,
        direction: Direction::Sell,
        size: 400,
        price: 1,
        timestamp: 9,
        limit_or_market: LimitOrMarket::Limit,
        time_in_force: TimeInForce::IOC,
    });
    let maker_ids: Vec<u64> = fill_order_ids(&logs)
        .into_iter()
        .filter(|id| *id != 9)
        .collect();
    assert_eq!(maker_ids, vec![3, 1, 2, 4]);
}

#[test]
fn test_sellorder_ordering() {
    let sell_order1 = SellOrder {
        order_id: 1,
        size: 100,
        price: 100,
        timestamp: 5,
    };
    let sell_order2 = SellOrder {
        order_id: 2,
        size: 100,
        price: 100,
        timestamp: 6,
    };
    let sell_order3 = SellOrder {
        order_id: 3,
        size: 100,
        price: 101,
        timestamp: 7,
    };
    let sell_order4 = SellOrder {
        order_id: 4,
        size: 100,
        price: 99,
        timestamp: 8,
    };
    assert_eq!(sell_order1.cmp(&sell_order2), Ordering::Greater);
    assert_eq!(sell_order1.cmp(&sell_order3), Ordering::Greater);
    assert_eq!(sell_order1.cmp(&sell_order4), Ordering::Less);
    assert_eq!(sell_order2.cmp(&sell_order3), Ordering::Greater);
    assert_eq!(sell_order2.cmp(&sell_order4), Ordering::Less);
    assert_eq!(sell_order3.cmp(&sell_order4), Ordering::Less);

    let mut book = OrderBook::new("AAPL".to_string());
    for o in [&sell_order4, &sell_order3, &sell_order2, &sell_order1] {
        book.handle_new_order(NewOrderRequest {
            order_id: o.order_id,
            direction: Direction::Sell,
            size: o.size,
            price: o.price,
            timestamp: o.timestamp,
            limit_or_market: LimitOrMarket::Limit,
            time_in_force: TimeInForce::Day,
        });
    }
    let logs = book.handle_new_order(NewOrderRequest {
        order_id: 9,
        direction: Direction::Buy,
        size: 400,
        price: 1000,
        timestamp: 9,
        limit_or_market: LimitOrMarket::Limit,
        time_in_force: TimeInForce::IOC,
    });
    let maker_ids: Vec<u64> = fill_order_ids(&logs)
        .into_iter()
        .filter(|id| *id != 9)
        .collect();
    assert_eq!(maker_ids, vec![4, 1, 2, 3]);
}
