//! Resting-size tracking and cancel validity in the order-info registry.

use ses::common::Direction;
use ses::event::{Event, OrderAdded, OrderExecuted, OrderRemoved};
use ses::order_info::{OrderInfo, OrderRecord};

fn make_order_record(inv_id: u64) -> OrderRecord {
    OrderRecord {
        inv_id,
        ticker: "AAPL".to_string(),
        direction: Direction::Buy,
        limit_price: 100,
        initial_size: 100,
    }
}

#[test]
fn test_added() {
    let mut order_info = OrderInfo::new();
    order_info.bind_order(1, make_order_record(1));
    order_info.update_by_event(Event::OrderAdded(OrderAdded {
        order_id: 1,
        ticker: "AAPL".to_string(),
        direction: Direction::Buy,
        resting_size: 100,
        limit_price: 100,
    }));
}

#[test]
fn test_executed() {
    let mut order_info = OrderInfo::new();
    order_info.bind_order(1, make_order_record(1));
    order_info.update_by_event(Event::OrderAdded(OrderAdded {
        order_id: 1,
        ticker: "AAPL".to_string(),
        direction: Direction::Buy,
        resting_size: 100,
        limit_price: 100,
    }));
    assert_eq!(order_info.valid_cancel_order(&1, &1), true);

    order_info.update_by_event(Event::OrderExecuted(OrderExecuted {
        order_id: 1,
        ticker: "AAPL".to_string(),
        execution_size: 100,
        execution_price: 100,
    }));
    assert_eq!(order_info.valid_cancel_order(&1, &1), false);
}

#[test]
fn test_removed() {
    let mut order_info = OrderInfo::new();
    order_info.bind_order(1, make_order_record(1));
    order_info.update_by_event(Event::OrderAdded(OrderAdded {
        order_id: 1,
        ticker: "AAPL".to_string(),
        direction: Direction::Buy,
        resting_size: 100,
        limit_price: 100,
    }));
    assert_eq!(order_info.valid_cancel_order(&1, &1), true);

    order_info.update_by_event(Event::OrderRemoved(OrderRemoved { order_id: 1 }));
    assert_eq!(order_info.valid_cancel_order(&1, &1), false);
}

#[test]
fn test_invalid() {
    let mut order_info = OrderInfo::new();
    order_info.bind_order(1, make_order_record(1));
    order_info.bind_order(2, make_order_record(2));

    // order not exist
    assert_eq!(order_info.valid_cancel_order(&4, &1), false);
    // inv not exist
    assert_eq!(order_info.valid_cancel_order(&1, &3), false);
    // not the owner
    assert_eq!(order_info.valid_cancel_order(&1, &2), false);

    order_info.update_by_event(Event::OrderAdded(OrderAdded {
        order_id: 1,
        ticker: "AAPL".to_string(),
        direction: Direction::Buy,
        resting_size: 100,
        limit_price: 100,
    }));
    order_info.update_by_event(Event::OrderExecuted(OrderExecuted {
        order_id: 1,
        ticker: "AAPL".to_string(),
        execution_size: 100,
        execution_price: 100,
    }));

    assert_eq!(order_info.valid_cancel_order(&1, &1), false);
}
