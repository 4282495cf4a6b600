//! Parsing and wrapping between wire messages and portal types.

use ses::account::Account;
use ses::account_manager::AccountManager;
use ses::account_types::PotentialOrder;
use ses::common::Direction;
use ses::event::{Event, OrderAdded, OrderRemoved};
use ses::orderbook_types::{OrderDeadResponse, OrderFillResponse, OrderResponse};
use ses::portal_types::{PortalNewOrderRequest, PortalRequest};
use ses::wire::{
    parse_order_request, parse_seqnum, parse_subscribe_request, wrap_cancel_reject, wrap_event,
    wrap_order_ack, wrap_order_reject, wrap_order_response, RpcOrderRequest, RpcOrderRequestKind,
    RpcOrderResponseKind, RpcSubscribeResponseKind,
};

#[test]
fn test_parse_new_order() {
    let msg = RpcOrderRequest {
        request: Some(RpcOrderRequestKind::NewOrder {
            seqnum: 7,
            ticker: "AAPL".to_string(),
            direction: 1,
            size: 100,
            price: 10_000,
            limit_or_market: 0,
            time_in_force: 1,
        }),
    };
    assert_eq!(parse_seqnum(&msg), 7);
    let parsed = parse_order_request(5, msg, 99);
    match parsed {
        PortalRequest::NewOrder(inv_id, req) => {
            assert_eq!(inv_id, 5);
            let PortalNewOrderRequest {
                ticker,
                direction,
                size,
                price,
                limit_or_market,
                time_in_force,
                timestamp,
            } = req;
            assert_eq!(ticker, "AAPL");
            assert_eq!(direction, Direction::Sell);
            assert_eq!(size, 100);
            assert_eq!(price, 10_000);
            assert_eq!(limit_or_market, ses::common::LimitOrMarket::Limit);
            assert_eq!(time_in_force, ses::common::TimeInForce::IOC);
            assert_eq!(timestamp, 99);
        }
        other => panic!("unexpected request {:?}", other),
    }
}

#[test]
fn test_parse_cancel_order() {
    let msg = RpcOrderRequest {
        request: Some(RpcOrderRequestKind::CancelOrder {
            seqnum: 3,
            order_id: 12,
        }),
    };
    assert_eq!(parse_seqnum(&msg), 3);
    let parsed = parse_order_request(5, msg, 99);
    match parsed {
        PortalRequest::CancelOrder(inv_id, order_id) => {
            assert_eq!(inv_id, 5);
            assert_eq!(order_id, 12);
        }
        other => panic!("unexpected request {:?}", other),
    }
}

#[test]
fn test_parse_subscribe() {
    match parse_subscribe_request(4) {
        PortalRequest::EventHistory(sub_id) => assert_eq!(sub_id, 4),
        other => panic!("unexpected request {:?}", other),
    }
}

#[test]
fn test_wrap_responses() {
    let r = wrap_order_ack(2, 9);
    assert_eq!(
        r.response,
        Some(RpcOrderResponseKind::Ack {
            seqnum: 2,
            order_id: 9
        })
    );
    let r = wrap_order_reject(2, "no".to_string());
    assert_eq!(
        r.response,
        Some(RpcOrderResponseKind::Rej {
            seqnum: 2,
            reason: "no".to_string()
        })
    );
    let r = wrap_cancel_reject(3, "no".to_string());
    assert_eq!(
        r.response,
        Some(RpcOrderResponseKind::CancelRej {
            seqnum: 3,
            reason: "no".to_string()
        })
    );
    let r = wrap_order_response(OrderResponse::OrderFill(OrderFillResponse {
        order_id: 8,
        fill_size: 10,
        fill_price: 500,
    }));
    assert_eq!(
        r.response,
        Some(RpcOrderResponseKind::Fill {
            order_id: 8,
            price: 500,
            size: 10
        })
    );
    let r = wrap_order_response(OrderResponse::OrderDead(OrderDeadResponse { order_id: 8 }));
    assert_eq!(r.response, Some(RpcOrderResponseKind::Dead { order_id: 8 }));
}

#[test]
fn test_wrap_event() {
    let r = wrap_event(Event::OrderAdded(OrderAdded {
        order_id: 1,
        ticker: "AAPL".to_string(),
        direction: Direction::Buy,
        resting_size: 100,
        limit_price: 10_000,
    }));
    assert_eq!(
        r.response,
        Some(RpcSubscribeResponseKind::Added {
            order_id: 1,
            ticker: "AAPL".to_string(),
            direction: 0,
            limit_price: 10_000,
            size: 100,
        })
    );
    let r = wrap_event(Event::OrderRemoved(OrderRemoved { order_id: 1 }));
    assert_eq!(
        r.response,
        Some(RpcSubscribeResponseKind::Removed { order_id: 1 })
    );
}

#[test]
fn test_reserve_then_refund_cash() {
    // the concrete face of the cash refund law: reserving a buy's full cost
    // and crediting it back restores the account's spending power exactly
    let mut mgr = AccountManager::new();
    mgr.add_account(1, Account::new(1, "A".to_string(), "pw1".to_string(), 1_000));
    assert!(mgr.valid_potential_order(&1, &PotentialOrder::PotentialBuy(10, 100)));
    assert!(!mgr.valid_potential_order(&1, &PotentialOrder::PotentialBuy(10, 101)));

    mgr.update_by_potential_order(1, PotentialOrder::PotentialBuy(10, 50));
    assert!(mgr.valid_potential_order(&1, &PotentialOrder::PotentialBuy(10, 50)));
    assert!(!mgr.valid_potential_order(&1, &PotentialOrder::PotentialBuy(10, 51)));

    mgr.update(ses::account_types::AccountUpdate::UpdCash(1, 500));
    assert!(mgr.valid_potential_order(&1, &PotentialOrder::PotentialBuy(10, 100)));
    assert!(!mgr.valid_potential_order(&1, &PotentialOrder::PotentialBuy(10, 101)));
}

#[test]
fn test_reserve_then_refund_position() {
    let mut mgr = AccountManager::new();
    let mut acc = Account::new(1, "A".to_string(), "pw1".to_string(), 0);
    acc.add_position("AAPL".to_string(), 100);
    mgr.add_account(1, acc);
    let sell =
        |n: u32| PotentialOrder::PotentialSell(n, "AAPL".to_string());
    assert!(mgr.valid_potential_order(&1, &sell(100)));
    assert!(!mgr.valid_potential_order(&1, &sell(101)));

    mgr.update_by_potential_order(1, sell(40));
    assert!(mgr.valid_potential_order(&1, &sell(60)));
    assert!(!mgr.valid_potential_order(&1, &sell(61)));

    mgr.update(ses::account_types::AccountUpdate::AddPos(
        1,
        "AAPL".to_string(),
        40,
    ));
    assert!(mgr.valid_potential_order(&1, &sell(100)));
    assert!(!mgr.valid_potential_order(&1, &sell(101)));
}
