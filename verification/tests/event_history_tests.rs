//! The event log: append-only updates and snapshot replay.

use ses::common::Direction;
use ses::event::{Event, OrderAdded, OrderExecuted, OrderRemoved};
use ses::event_history::EventHistory;

fn same_event_list(actual: Vec<Event>, expected: Vec<Event>) -> bool {
    if actual == expected {
        true
    } else {
        println!("Expected: {:?}", expected);
        println!("Actual: {:?}", actual);
        false
    }
}

#[test]
fn test_event_history() {
    let mut event_history = EventHistory::new();
    let resps = vec![
        Event::OrderAdded(OrderAdded {
            order_id: 1,
            ticker: "AAPL".to_string(),
            direction: Direction::Buy,
            resting_size: 100,
            limit_price: 100,
        }),
        Event::OrderExecuted(OrderExecuted {
            order_id: 1,
            ticker: "AAPL".to_string(),
            execution_size: 100,
            execution_price: 100,
        }),
        Event::OrderRemoved(OrderRemoved { order_id: 1 }),
    ];
    event_history.update_by_event(resps[0].clone());
    event_history.update_by_event(resps[1].clone());
    event_history.update_by_event(resps[2].clone());
    let expected = vec![
        Event::OrderAdded(OrderAdded {
            order_id: 1,
            ticker: "AAPL".to_string(),
            direction: Direction::Buy,
            resting_size: 100,
            limit_price: 100,
        }),
        Event::OrderExecuted(OrderExecuted {
            order_id: 1,
            ticker: "AAPL".to_string(),
            execution_size: 100,
            execution_price: 100,
        }),
        Event::OrderRemoved(OrderRemoved { order_id: 1 }),
    ];
    let actual: Vec<Event> = event_history.get_history();
    assert!(same_event_list(actual, expected));
}
