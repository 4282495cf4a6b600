//! Market events published to subscribers, and their mathematical views.

use vstd::prelude::*;
use crate::common::{Direction, OrderId, Price, Size, Ticker};

verus! {

#[derive(Debug, PartialEq)]
pub enum Event {
    OrderAdded(OrderAdded),
    OrderExecuted(OrderExecuted),
    OrderRemoved(OrderRemoved),
}

#[derive(Debug, PartialEq)]
pub struct OrderAdded {
    pub order_id: OrderId,
    pub ticker: Ticker,
    pub direction: Direction,
    pub resting_size: Size,
    pub limit_price: Price,
}

#[derive(Debug, PartialEq)]
pub struct OrderExecuted {
    pub order_id: OrderId,
    pub ticker: Ticker,
    pub execution_size: Size,
    pub execution_price: Price,
}

#[derive(Debug, PartialEq, Eq, Structural, Clone, Copy)]
pub struct OrderRemoved {
    pub order_id: OrderId,
}

/// View of an [`Event`]: the ticker as a sequence of characters.
pub enum EventV {
    OrderAdded(OrderAddedV),
    OrderExecuted(OrderExecutedV),
    OrderRemoved(OrderRemoved),
}

pub struct OrderAddedV {
    pub order_id: OrderId,
    pub ticker: Seq<char>,
    pub direction: Direction,
    pub resting_size: Size,
    pub limit_price: Price,
}

pub struct OrderExecutedV {
    pub order_id: OrderId,
    pub ticker: Seq<char>,
    pub execution_size: Size,
    pub execution_price: Price,
}

impl View for OrderAdded {
    type V = OrderAddedV;

    open spec fn view(&self) -> OrderAddedV {
        OrderAddedV {
            order_id: self.order_id,
            ticker: self.ticker@,
            direction: self.direction,
            resting_size: self.resting_size,
            limit_price: self.limit_price,
        }
    }
}

impl View for OrderExecuted {
    type V = OrderExecutedV;

    open spec fn view(&self) -> OrderExecutedV {
        OrderExecutedV {
            order_id: self.order_id,
            ticker: self.ticker@,
            execution_size: self.execution_size,
            execution_price: self.execution_price,
        }
    }
}

impl View for Event {
    type V = EventV;

    open spec fn view(&self) -> EventV {
        match self {
            Event::OrderAdded(a) => EventV::OrderAdded(a@),
            Event::OrderExecuted(e) => EventV::OrderExecuted(e@),
            Event::OrderRemoved(r) => EventV::OrderRemoved(*r),
        }
    }
}

impl EventV {
    /// The order the event speaks of.
    pub open spec fn order_id(self) -> OrderId {
        match self {
            EventV::OrderAdded(a) => a.order_id,
            EventV::OrderExecuted(e) => e.order_id,
            EventV::OrderRemoved(r) => r.order_id,
        }
    }
}


impl Clone for OrderAdded {
    fn clone(&self) -> (r: Self)
        ensures
            r@ == self@,
    {
        OrderAdded {
            order_id: self.order_id,
            ticker: self.ticker.clone(),
            direction: self.direction,
            resting_size: self.resting_size,
            limit_price: self.limit_price,
        }
    }
}

impl Clone for OrderExecuted {
    fn clone(&self) -> (r: Self)
        ensures
            r@ == self@,
    {
        OrderExecuted {
            order_id: self.order_id,
            ticker: self.ticker.clone(),
            execution_size: self.execution_size,
            execution_price: self.execution_price,
        }
    }
}

impl Clone for Event {
    fn clone(&self) -> (r: Self)
        ensures
            r@ == self@,
    {
        match self {
            Event::OrderAdded(a) => Event::OrderAdded(a.clone()),
            Event::OrderExecuted(e) => Event::OrderExecuted(e.clone()),
            Event::OrderRemoved(d) => Event::OrderRemoved(*d),
        }
    }
}

} // verus!
