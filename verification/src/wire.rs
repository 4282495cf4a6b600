//! Wire messages and the parsing and wrapping between them and portal types.
//!
//! The enums carried on the wire use small integers: direction 0 = buy,
//! 1 = sell; limit-or-market 0 = limit, 1 = market; time-in-force 0 = day,
//! 1 = immediate-or-cancel.

use vstd::prelude::*;
use crate::account_types::AccountUpdate;
use crate::common::{Direction, InvId, LimitOrMarket, OrderId, Password, Price, SeqNum, Size,
    SubId, Ticker, TimeInForce, Timestamp};
use crate::event::{Event, EventV};
use crate::orderbook_types::{OrderDeadResponse, OrderFillResponse, OrderResponse, OrderResponseV};
use crate::portal_types::{PortalNewOrderRequest, PortalRequest, PortalRequestV,
    PortalNewOrderRequestV};

verus! {

/// One inbound message of the order stream.
#[derive(Debug, PartialEq)]
pub enum RpcOrderRequestKind {
    Login { seqnum: SeqNum, investor_id: InvId, password: Password },
    NewOrder {
        seqnum: SeqNum,
        ticker: Ticker,
        direction: i32,
        size: Size,
        price: Price,
        limit_or_market: i32,
        time_in_force: i32,
    },
    CancelOrder { seqnum: SeqNum, order_id: OrderId },
}

/// View of an [`RpcOrderRequestKind`].
pub enum RpcOrderRequestKindV {
    Login { seqnum: SeqNum, investor_id: InvId, password: Seq<char> },
    NewOrder {
        seqnum: SeqNum,
        ticker: Seq<char>,
        direction: i32,
        size: Size,
        price: Price,
        limit_or_market: i32,
        time_in_force: i32,
    },
    CancelOrder { seqnum: SeqNum, order_id: OrderId },
}

impl View for RpcOrderRequestKind {
    type V = RpcOrderRequestKindV;

    open spec fn view(&self) -> RpcOrderRequestKindV {
        match self {
            RpcOrderRequestKind::Login { seqnum, investor_id, password } => {
                RpcOrderRequestKindV::Login {
                    seqnum: *seqnum,
                    investor_id: *investor_id,
                    password: password@,
                }
            },
            RpcOrderRequestKind::NewOrder {
                seqnum,
                ticker,
                direction,
                size,
                price,
                limit_or_market,
                time_in_force,
            } => {
                RpcOrderRequestKindV::NewOrder {
                    seqnum: *seqnum,
                    ticker: ticker@,
                    direction: *direction,
                    size: *size,
                    price: *price,
                    limit_or_market: *limit_or_market,
                    time_in_force: *time_in_force,
                }
            },
            RpcOrderRequestKind::CancelOrder { seqnum, order_id } => {
                RpcOrderRequestKindV::CancelOrder { seqnum: *seqnum, order_id: *order_id }
            },
        }
    }
}

/// One frame of the order stream; `None` stands for an empty frame.
#[derive(Debug, PartialEq)]
pub struct RpcOrderRequest {
    pub request: Option<RpcOrderRequestKind>,
}

impl View for RpcOrderRequest {
    type V = Option<RpcOrderRequestKindV>;

    open spec fn view(&self) -> Option<RpcOrderRequestKindV> {
        match &self.request {
            Some(k) => Some(k@),
            None => None,
        }
    }
}

/// One outbound message of the order stream.
#[derive(Debug, PartialEq)]
pub enum RpcOrderResponseKind {
    LoginAck { seqnum: SeqNum },
    LoginRej { seqnum: SeqNum, reason: String },
    Ack { seqnum: SeqNum, order_id: OrderId },
    Rej { seqnum: SeqNum, reason: String },
    CancelRej { seqnum: SeqNum, reason: String },
    Fill { order_id: OrderId, price: Price, size: Size },
    Dead { order_id: OrderId },
}

/// View of an [`RpcOrderResponseKind`].
pub enum RpcOrderResponseKindV {
    LoginAck { seqnum: SeqNum },
    LoginRej { seqnum: SeqNum, reason: Seq<char> },
    Ack { seqnum: SeqNum, order_id: OrderId },
    Rej { seqnum: SeqNum, reason: Seq<char> },
    CancelRej { seqnum: SeqNum, reason: Seq<char> },
    Fill { order_id: OrderId, price: Price, size: Size },
    Dead { order_id: OrderId },
}

impl View for RpcOrderResponseKind {
    type V = RpcOrderResponseKindV;

    open spec fn view(&self) -> RpcOrderResponseKindV {
        match self {
            RpcOrderResponseKind::LoginAck { seqnum } => {
                RpcOrderResponseKindV::LoginAck { seqnum: *seqnum }
            },
            RpcOrderResponseKind::LoginRej { seqnum, reason } => {
                RpcOrderResponseKindV::LoginRej { seqnum: *seqnum, reason: reason@ }
            },
            RpcOrderResponseKind::Ack { seqnum, order_id } => {
                RpcOrderResponseKindV::Ack { seqnum: *seqnum, order_id: *order_id }
            },
            RpcOrderResponseKind::Rej { seqnum, reason } => {
                RpcOrderResponseKindV::Rej { seqnum: *seqnum, reason: reason@ }
            },
            RpcOrderResponseKind::CancelRej { seqnum, reason } => {
                RpcOrderResponseKindV::CancelRej { seqnum: *seqnum, reason: reason@ }
            },
            RpcOrderResponseKind::Fill { order_id, price, size } => {
                RpcOrderResponseKindV::Fill { order_id: *order_id, price: *price, size: *size }
            },
            RpcOrderResponseKind::Dead { order_id } => {
                RpcOrderResponseKindV::Dead { order_id: *order_id }
            },
        }
    }
}

/// One frame of the order stream going out.
#[derive(Debug, PartialEq)]
pub struct RpcOrderResponse {
    pub response: Option<RpcOrderResponseKind>,
}

impl View for RpcOrderResponse {
    type V = Option<RpcOrderResponseKindV>;

    open spec fn view(&self) -> Option<RpcOrderResponseKindV> {
        match &self.response {
            Some(k) => Some(k@),
            None => None,
        }
    }
}

/// One inbound frame of the subscribe stream; its presence alone matters.
#[derive(Debug, PartialEq)]
pub struct RpcSubscribeRequest {}

/// One outbound message of the subscribe stream.
#[derive(Debug, PartialEq)]
pub enum RpcSubscribeResponseKind {
    Added { order_id: OrderId, ticker: Ticker, direction: i32, limit_price: Price, size: Size },
    Executed { order_id: OrderId, ticker: Ticker, execution_price: Price, execution_size: Size },
    Removed { order_id: OrderId },
}

/// View of an [`RpcSubscribeResponseKind`].
pub enum RpcSubscribeResponseKindV {
    Added {
        order_id: OrderId,
        ticker: Seq<char>,
        direction: i32,
        limit_price: Price,
        size: Size,
    },
    Executed {
        order_id: OrderId,
        ticker: Seq<char>,
        execution_price: Price,
        execution_size: Size,
    },
    Removed { order_id: OrderId },
}

impl View for RpcSubscribeResponseKind {
    type V = RpcSubscribeResponseKindV;

    open spec fn view(&self) -> RpcSubscribeResponseKindV {
        match self {
            RpcSubscribeResponseKind::Added { order_id, ticker, direction, limit_price, size } => {
                RpcSubscribeResponseKindV::Added {
                    order_id: *order_id,
                    ticker: ticker@,
                    direction: *direction,
                    limit_price: *limit_price,
                    size: *size,
                }
            },
            RpcSubscribeResponseKind::Executed {
                order_id,
                ticker,
                execution_price,
                execution_size,
            } => {
                RpcSubscribeResponseKindV::Executed {
                    order_id: *order_id,
                    ticker: ticker@,
                    execution_price: *execution_price,
                    execution_size: *execution_size,
                }
            },
            RpcSubscribeResponseKind::Removed { order_id } => {
                RpcSubscribeResponseKindV::Removed { order_id: *order_id }
            },
        }
    }
}

/// One frame of the subscribe stream going out.
#[derive(Debug, PartialEq)]
pub struct RpcSubscribeResponse {
    pub response: Option<RpcSubscribeResponseKind>,
}

impl View for RpcSubscribeResponse {
    type V = Option<RpcSubscribeResponseKindV>;

    open spec fn view(&self) -> Option<RpcSubscribeResponseKindV> {
        match &self.response {
            Some(k) => Some(k@),
            None => None,
        }
    }
}

/// The account an update is addressed to.
pub fn get_inv_id(acc_upd: &AccountUpdate) -> (r: InvId)
    ensures
        r == acc_upd@.inv_id(),
{
    match acc_upd {
        AccountUpdate::UpdCash(inv_id, _) => *inv_id,
        AccountUpdate::AddPos(inv_id, _, _) => *inv_id,
        AccountUpdate::MinusPos(inv_id, _, _) => *inv_id,
    }
}

/// The order a response speaks of.
pub fn get_order_id(order_resp: &OrderResponse) -> (r: OrderId)
    ensures
        r == order_resp@.order_id(),
{
    match order_resp {
        OrderResponse::OrderFill(order_fill) => order_fill.order_id,
        OrderResponse::OrderDead(order_dead) => order_dead.order_id,
    }
}

/// A direction on the wire: 0 is a buy, 1 is a sell.
pub fn parse_direction(value: i32) -> (r: Direction)
    requires
        value == 0 || value == 1,
    ensures
        r == (if value == 0 {
            Direction::Buy
        } else {
            Direction::Sell
        }),
{
    if value == 0 {
        Direction::Buy
    } else {
        Direction::Sell
    }
}

/// The wire value of a direction.
pub fn wrap_direction(direction: Direction) -> (r: i32)
    ensures
        r == (if direction == Direction::Buy {
            0int
        } else {
            1int
        }),
{
    match direction {
        Direction::Buy => 0,
        Direction::Sell => 1,
    }
}

/// Limit-or-market on the wire: 0 is limit, 1 is market.
pub fn parse_limit_or_market(value: i32) -> (r: LimitOrMarket)
    requires
        value == 0 || value == 1,
    ensures
        r == (if value == 0 {
            LimitOrMarket::Limit
        } else {
            LimitOrMarket::Market
        }),
{
    if value == 0 {
        LimitOrMarket::Limit
    } else {
        LimitOrMarket::Market
    }
}

/// Time-in-force on the wire: 0 is day, 1 is immediate-or-cancel.
pub fn parse_time_in_force(value: i32) -> (r: TimeInForce)
    requires
        value == 0 || value == 1,
    ensures
        r == (if value == 0 {
            TimeInForce::Day
        } else {
            TimeInForce::IOC
        }),
{
    if value == 0 {
        TimeInForce::Day
    } else {
        TimeInForce::IOC
    }
}

/// A wire message holds a parsable request: some body, not a login, and
/// in-range enum values on a new order.
pub open spec fn parsable_order_request(m: Option<RpcOrderRequestKindV>) -> bool {
    match m {
        Some(RpcOrderRequestKindV::NewOrder { direction, limit_or_market, time_in_force, .. }) => {
            &&& (direction == 0 || direction == 1)
            &&& (limit_or_market == 0 || limit_or_market == 1)
            &&& (time_in_force == 0 || time_in_force == 1)
        },
        Some(RpcOrderRequestKindV::CancelOrder { .. }) => true,
        _ => false,
    }
}

/// The portal request a parsable wire message denotes, stamped with the
/// given receive time.
pub open spec fn parsed_order_request(
    inv_id: InvId,
    m: Option<RpcOrderRequestKindV>,
    timestamp: Timestamp,
) -> PortalRequestV
    recommends
        parsable_order_request(m),
{
    match m {
        Some(
            RpcOrderRequestKindV::NewOrder {
                seqnum,
                ticker,
                direction,
                size,
                price,
                limit_or_market,
                time_in_force,
            },
        ) => {
            PortalRequestV::NewOrder(
                inv_id,
                PortalNewOrderRequestV {
                    ticker,
                    direction: if direction == 0 {
                        Direction::Buy
                    } else {
                        Direction::Sell
                    },
                    size,
                    price,
                    limit_or_market: if limit_or_market == 0 {
                        LimitOrMarket::Limit
                    } else {
                        LimitOrMarket::Market
                    },
                    time_in_force: if time_in_force == 0 {
                        TimeInForce::Day
                    } else {
                        TimeInForce::IOC
                    },
                    timestamp,
                },
            )
        },
        Some(RpcOrderRequestKindV::CancelOrder { order_id, .. }) => {
            PortalRequestV::CancelOrder(inv_id, order_id)
        },
        _ => PortalRequestV::EventHistory(0),
    }
}

/// Turn one wire message of an authenticated investor into a portal request,
/// stamping new orders with the given receive time.
pub fn parse_order_request(inv_id: InvId, request: RpcOrderRequest, timestamp: Timestamp) -> (r:
    PortalRequest)
    requires
        parsable_order_request(request@),
    ensures
        r@ == parsed_order_request(inv_id, request@, timestamp),
{
    match request.request {
        Some(
            RpcOrderRequestKind::NewOrder {
                seqnum: _,
                ticker,
                direction,
                size,
                price,
                limit_or_market,
                time_in_force,
            },
        ) => {
            let req = PortalNewOrderRequest {
                ticker,
                direction: parse_direction(direction),
                size,
                price,
                limit_or_market: parse_limit_or_market(limit_or_market),
                time_in_force: parse_time_in_force(time_in_force),
                timestamp,
            };
            PortalRequest::NewOrder(inv_id, req)
        },
        Some(RpcOrderRequestKind::CancelOrder { seqnum: _, order_id }) => {
            PortalRequest::CancelOrder(inv_id, order_id)
        },
        _ => vstd::pervasive::unreached(),
    }
}

/// The sequence number a wire message carries.
pub open spec fn spec_seqnum(m: RpcOrderRequestKindV) -> SeqNum {
    match m {
        RpcOrderRequestKindV::Login { seqnum, .. } => seqnum,
        RpcOrderRequestKindV::NewOrder { seqnum, .. } => seqnum,
        RpcOrderRequestKindV::CancelOrder { seqnum, .. } => seqnum,
    }
}

/// Read the sequence number off a non-empty wire message.
pub fn parse_seqnum(request: &RpcOrderRequest) -> (r: SeqNum)
    requires
        request@ is Some,
    ensures
        r == spec_seqnum(request@->Some_0),
{
    match &request.request {
        Some(RpcOrderRequestKind::Login { seqnum, .. }) => *seqnum,
        Some(RpcOrderRequestKind::NewOrder { seqnum, .. }) => *seqnum,
        Some(RpcOrderRequestKind::CancelOrder { seqnum, .. }) => *seqnum,
        None => vstd::pervasive::unreached(),
    }
}

/// Wrap a fill for the order stream.
pub fn wrap_order_fill_response(response: OrderFillResponse) -> (r: RpcOrderResponse)
    ensures
        r@ == Some(
            RpcOrderResponseKindV::Fill {
                order_id: response.order_id,
                price: response.fill_price,
                size: response.fill_size,
            },
        ),
{
    RpcOrderResponse {
        response: Some(
            RpcOrderResponseKind::Fill {
                order_id: response.order_id,
                price: response.fill_price,
                size: response.fill_size,
            },
        ),
    }
}

/// Wrap a death notice for the order stream.
pub fn wrap_order_dead_response(response: OrderDeadResponse) -> (r: RpcOrderResponse)
    ensures
        r@ == Some(RpcOrderResponseKindV::Dead { order_id: response.order_id }),
{
    RpcOrderResponse {
        response: Some(RpcOrderResponseKind::Dead { order_id: response.order_id }),
    }
}

/// The wire mirror of an order response.
pub open spec fn wrapped_order_response(resp: OrderResponseV) -> Option<RpcOrderResponseKindV> {
    match resp {
        OrderResponseV::OrderFill(f) => Some(
            RpcOrderResponseKindV::Fill {
                order_id: f.order_id,
                price: f.fill_price,
                size: f.fill_size,
            },
        ),
        OrderResponseV::OrderDead(d) => Some(RpcOrderResponseKindV::Dead { order_id: d.order_id }),
    }
}

/// Wrap an order response for the order stream.
pub fn wrap_order_response(response: OrderResponse) -> (r: RpcOrderResponse)
    ensures
        r@ == wrapped_order_response(response@),
{
    match response {
        OrderResponse::OrderFill(order_fill) => wrap_order_fill_response(order_fill),
        OrderResponse::OrderDead(order_dead) => wrap_order_dead_response(order_dead),
    }
}

/// Wrap a new-order rejection.
pub fn wrap_order_reject(seqnum: SeqNum, reason: String) -> (r: RpcOrderResponse)
    ensures
        r@ == Some(RpcOrderResponseKindV::Rej { seqnum, reason: reason@ }),
{
    RpcOrderResponse { response: Some(RpcOrderResponseKind::Rej { seqnum, reason }) }
}

/// Wrap a cancel rejection.
pub fn wrap_cancel_reject(seqnum: SeqNum, reason: String) -> (r: RpcOrderResponse)
    ensures
        r@ == Some(RpcOrderResponseKindV::CancelRej { seqnum, reason: reason@ }),
{
    RpcOrderResponse { response: Some(RpcOrderResponseKind::CancelRej { seqnum, reason }) }
}

/// Wrap a new-order acknowledgement.
pub fn wrap_order_ack(seqnum: SeqNum, order_id: OrderId) -> (r: RpcOrderResponse)
    ensures
        r@ == Some(RpcOrderResponseKindV::Ack { seqnum, order_id }),
{
    RpcOrderResponse { response: Some(RpcOrderResponseKind::Ack { seqnum, order_id }) }
}

/// A subscriber's first message asks for the whole history.
pub fn parse_subscribe_request(sub_id: SubId) -> (r: PortalRequest)
    ensures
        r@ == PortalRequestV::EventHistory(sub_id),
{
    PortalRequest::EventHistory(sub_id)
}

/// The wire mirror of a market event.
pub open spec fn wrapped_event(ev: EventV) -> Option<RpcSubscribeResponseKindV> {
    match ev {
        EventV::OrderAdded(a) => Some(
            RpcSubscribeResponseKindV::Added {
                order_id: a.order_id,
                ticker: a.ticker,
                direction: if a.direction == Direction::Buy {
                    0int as i32
                } else {
                    1int as i32
                },
                limit_price: a.limit_price,
                size: a.resting_size,
            },
        ),
        EventV::OrderExecuted(e) => Some(
            RpcSubscribeResponseKindV::Executed {
                order_id: e.order_id,
                ticker: e.ticker,
                execution_price: e.execution_price,
                execution_size: e.execution_size,
            },
        ),
        EventV::OrderRemoved(d) => Some(
            RpcSubscribeResponseKindV::Removed { order_id: d.order_id },
        ),
    }
}

/// Wrap a market event for the subscribe stream.
pub fn wrap_event(event: Event) -> (r: RpcSubscribeResponse)
    ensures
        r@ == wrapped_event(event@),
{
    match event {
        Event::OrderAdded(added) => RpcSubscribeResponse {
            response: Some(
                RpcSubscribeResponseKind::Added {
                    order_id: added.order_id,
                    ticker: added.ticker,
                    direction: wrap_direction(added.direction),
                    limit_price: added.limit_price,
                    size: added.resting_size,
                },
            ),
        },
        Event::OrderExecuted(executed) => RpcSubscribeResponse {
            response: Some(
                RpcSubscribeResponseKind::Executed {
                    order_id: executed.order_id,
                    ticker: executed.ticker,
                    execution_price: executed.execution_price,
                    execution_size: executed.execution_size,
                },
            ),
        },
        Event::OrderRemoved(removed) => RpcSubscribeResponse {
            response: Some(RpcSubscribeResponseKind::Removed { order_id: removed.order_id }),
        },
    }
}

} // verus!
