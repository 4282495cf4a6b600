//! Requests the orderbook accepts and the fused log stream it emits.

use vstd::prelude::*;
use crate::common::{Direction, LimitOrMarket, OrderId, Price, Size, TimeInForce, Timestamp};
use crate::event::{Event, EventV};

verus! {

/// A request routed to one ticker's orderbook.
#[derive(Debug, PartialEq, Eq, Structural, Clone, Copy)]
pub enum OrderbookRequest {
    NewOrder(NewOrderRequest),
    CancelOrder(CancelOrderRequest),
}

#[derive(Debug, PartialEq, Eq, Structural, Clone, Copy)]
pub struct NewOrderRequest {
    pub order_id: OrderId,
    pub direction: Direction,
    pub size: Size,
    pub price: Price,
    pub timestamp: Timestamp,
    pub limit_or_market: LimitOrMarket,
    pub time_in_force: TimeInForce,
}

#[derive(Debug, PartialEq, Eq, Structural, Clone, Copy)]
pub struct CancelOrderRequest {
    pub order_id: OrderId,
}

/// One element of the engine's output: a per-investor response or a market event.
#[derive(Debug, PartialEq)]
pub enum OrderbookLog {
    OrderLog(OrderResponse),
    EventLog(Event),
}

/// A response owed to the investor owning one order.
#[derive(Debug, PartialEq, Eq, Structural, Clone, Copy)]
pub enum OrderResponse {
    OrderFill(OrderFillResponse),
    OrderDead(OrderDeadResponse),
}

#[derive(Debug, PartialEq, Eq, Structural, Clone, Copy)]
pub struct OrderFillResponse {
    pub order_id: OrderId,
    pub fill_size: Size,
    pub fill_price: Price,
}

#[derive(Debug, PartialEq, Eq, Structural, Clone, Copy)]
pub struct OrderDeadResponse {
    pub order_id: OrderId,
}

/// View of an [`OrderResponse`]; both variants carry only integers.
#[derive(PartialEq, Eq, Structural)]
pub enum OrderResponseV {
    OrderFill(OrderFillResponse),
    OrderDead(OrderDeadResponse),
}

impl View for OrderResponse {
    type V = OrderResponseV;

    open spec fn view(&self) -> OrderResponseV {
        match self {
            OrderResponse::OrderFill(f) => OrderResponseV::OrderFill(*f),
            OrderResponse::OrderDead(d) => OrderResponseV::OrderDead(*d),
        }
    }
}

impl OrderResponseV {
    /// The order the response speaks of.
    pub open spec fn order_id(self) -> OrderId {
        match self {
            OrderResponseV::OrderFill(f) => f.order_id,
            OrderResponseV::OrderDead(d) => d.order_id,
        }
    }
}

/// View of an [`OrderbookLog`].
pub enum OrderbookLogV {
    OrderLog(OrderResponseV),
    EventLog(EventV),
}

impl View for OrderbookLog {
    type V = OrderbookLogV;

    open spec fn view(&self) -> OrderbookLogV {
        match self {
            OrderbookLog::OrderLog(r) => OrderbookLogV::OrderLog(r@),
            OrderbookLog::EventLog(e) => OrderbookLogV::EventLog(e@),
        }
    }
}

/// View of a sequence of logs, element by element.
pub open spec fn logs_view(s: Seq<OrderbookLog>) -> Seq<OrderbookLogV> {
    s.map_values(|l: OrderbookLog| l@)
}

} // verus!
