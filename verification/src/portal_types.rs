//! Requests the portal accepts and the downstream tasks it produces.

use vstd::prelude::*;
use crate::common::{
    Direction, InvId, LimitOrMarket, OrderId, Price, SeqNum, Size, SubId, TimeInForce, Timestamp,
};
use crate::event::{Event, EventV};
use crate::event_history::events_view;
use crate::orderbook_types::{OrderResponse, OrderResponseV};

verus! {

/// One request of an authenticated session or of a subscriber.
#[derive(Debug)]
pub enum PortalRequest {
    EventHistory(SubId),
    NewOrder(InvId, PortalNewOrderRequest),
    CancelOrder(InvId, OrderId),
}

#[derive(Debug)]
pub struct PortalNewOrderRequest {
    pub ticker: String,
    pub direction: Direction,
    pub size: Size,
    pub price: Price,
    pub limit_or_market: LimitOrMarket,
    pub time_in_force: TimeInForce,
    pub timestamp: Timestamp,
}

/// View of a [`PortalNewOrderRequest`].
pub struct PortalNewOrderRequestV {
    pub ticker: Seq<char>,
    pub direction: Direction,
    pub size: Size,
    pub price: Price,
    pub limit_or_market: LimitOrMarket,
    pub time_in_force: TimeInForce,
    pub timestamp: Timestamp,
}

impl View for PortalNewOrderRequest {
    type V = PortalNewOrderRequestV;

    open spec fn view(&self) -> PortalNewOrderRequestV {
        PortalNewOrderRequestV {
            ticker: self.ticker@,
            direction: self.direction,
            size: self.size,
            price: self.price,
            limit_or_market: self.limit_or_market,
            time_in_force: self.time_in_force,
            timestamp: self.timestamp,
        }
    }
}

/// View of a [`PortalRequest`].
pub enum PortalRequestV {
    EventHistory(SubId),
    NewOrder(InvId, PortalNewOrderRequestV),
    CancelOrder(InvId, OrderId),
}

impl View for PortalRequest {
    type V = PortalRequestV;

    open spec fn view(&self) -> PortalRequestV {
        match self {
            PortalRequest::EventHistory(s) => PortalRequestV::EventHistory(*s),
            PortalRequest::NewOrder(i, r) => PortalRequestV::NewOrder(*i, r@),
            PortalRequest::CancelOrder(i, o) => PortalRequestV::CancelOrder(*i, *o),
        }
    }
}

/// One unit of work the dispatch layer owes downstream.
#[derive(Debug, PartialEq)]
pub enum PortalTask {
    EventHistory(SubId, Vec<Event>),
    IncrementalEvent(Event),
    OrderAck(InvId, SeqNum, OrderId),
    OrderReject(InvId, SeqNum, String),
    CancelReject(InvId, SeqNum, String),
    OrderResponse(InvId, OrderResponse),
}

/// View of a [`PortalTask`].
pub enum PortalTaskV {
    EventHistory(SubId, Seq<EventV>),
    IncrementalEvent(EventV),
    OrderAck(InvId, SeqNum, OrderId),
    OrderReject(InvId, SeqNum, Seq<char>),
    CancelReject(InvId, SeqNum, Seq<char>),
    OrderResponse(InvId, OrderResponseV),
}

impl View for PortalTask {
    type V = PortalTaskV;

    open spec fn view(&self) -> PortalTaskV {
        match self {
            PortalTask::EventHistory(s, evs) => PortalTaskV::EventHistory(*s, events_view(evs@)),
            PortalTask::IncrementalEvent(e) => PortalTaskV::IncrementalEvent(e@),
            PortalTask::OrderAck(i, n, o) => PortalTaskV::OrderAck(*i, *n, *o),
            PortalTask::OrderReject(i, n, m) => PortalTaskV::OrderReject(*i, *n, m@),
            PortalTask::CancelReject(i, n, m) => PortalTaskV::CancelReject(*i, *n, m@),
            PortalTask::OrderResponse(i, r) => PortalTaskV::OrderResponse(*i, r@),
        }
    }
}

impl PortalTaskV {
    /// True of an acknowledgement or a rejection, the direct answers to a
    /// request; false of market reports.
    pub open spec fn is_request_answer(self) -> bool {
        match self {
            PortalTaskV::OrderAck(_, _, _) => true,
            PortalTaskV::OrderReject(_, _, _) => true,
            PortalTaskV::CancelReject(_, _, _) => true,
            _ => false,
        }
    }
}

/// View of a sequence of tasks, element by element.
pub open spec fn tasks_view(s: Seq<PortalTask>) -> Seq<PortalTaskV> {
    s.map_values(|t: PortalTask| t@)
}

} // verus!
