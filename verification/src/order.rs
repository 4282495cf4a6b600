//! Resting orders and their strict price-time priority.
//!
//! A buy order is better when its price is higher; a sell order is better
//! when its price is lower; on equal prices the earlier timestamp wins.

use vstd::prelude::*;
use core::cmp::Ordering;
use crate::common::{OrderId, Price, Size, Timestamp};

verus! {

#[derive(Debug, PartialEq, Eq, Structural, Clone, Copy)]
pub struct BuyOrder {
    pub order_id: OrderId,
    pub size: Size,
    pub price: Price,
    pub timestamp: Timestamp,
}

#[derive(Debug, PartialEq, Eq, Structural, Clone, Copy)]
pub struct SellOrder {
    pub order_id: OrderId,
    pub size: Size,
    pub price: Price,
    pub timestamp: Timestamp,
}

/// `a` matches strictly before `b` on the buy side.
pub open spec fn buy_better(a: BuyOrder, b: BuyOrder) -> bool {
    a.price > b.price || (a.price == b.price && a.timestamp < b.timestamp)
}

/// `a` matches strictly before `b` on the sell side.
pub open spec fn sell_better(a: SellOrder, b: SellOrder) -> bool {
    a.price < b.price || (a.price == b.price && a.timestamp < b.timestamp)
}

impl BuyOrder {
    /// Priority comparison: `Greater` means `self` matches before `other`.
    pub fn cmp(&self, other: &Self) -> (r: Ordering)
        ensures
            r == Ordering::Greater <==> buy_better(*self, *other),
            r == Ordering::Less <==> buy_better(*other, *self),
            r == Ordering::Equal <==> (self.price == other.price
                && self.timestamp == other.timestamp),
    {
        if self.price > other.price {
            Ordering::Greater
        } else if self.price < other.price {
            Ordering::Less
        } else if self.timestamp < other.timestamp {
            Ordering::Greater
        } else if self.timestamp > other.timestamp {
            Ordering::Less
        } else {
            Ordering::Equal
        }
    }
}

impl SellOrder {
    /// Priority comparison: `Greater` means `self` matches before `other`.
    pub fn cmp(&self, other: &Self) -> (r: Ordering)
        ensures
            r == Ordering::Greater <==> sell_better(*self, *other),
            r == Ordering::Less <==> sell_better(*other, *self),
            r == Ordering::Equal <==> (self.price == other.price
                && self.timestamp == other.timestamp),
    {
        if self.price < other.price {
            Ordering::Greater
        } else if self.price > other.price {
            Ordering::Less
        } else if self.timestamp < other.timestamp {
            Ordering::Greater
        } else if self.timestamp > other.timestamp {
            Ordering::Less
        } else {
            Ordering::Equal
        }
    }
}

} // verus!
