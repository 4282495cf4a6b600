//! Scalar aliases and the small enums shared by every component.

use vstd::prelude::*;

verus! {

/// Identifier of an order; the portal issues them from a monotone counter.
pub type OrderId = u64;

/// Number of shares.
pub type Size = u32;

/// Ticker symbol of a stock.
pub type Ticker = String;

/// Seconds since the epoch.
pub type Timestamp = u64;

/// A price, counted in integer price units.
pub type Price = u64;

/// Cash, counted in the same integer units as prices.
pub type Cash = u64;

/// Identifier of an investor.
pub type InvId = u64;

/// Display name of an account.
pub type AccountName = String;

/// Password of an account.
pub type Password = String;

/// Display name of a stock.
pub type StockName = String;

/// Client-chosen sequence number of a request.
pub type SeqNum = u64;

/// Identifier of a market-data subscriber.
pub type SubId = u64;

#[derive(Debug, PartialEq, Eq, Structural, Clone, Copy)]
pub enum LimitOrMarket {
    Limit,
    Market,
}

#[derive(Debug, PartialEq, Eq, Structural, Clone, Copy)]
pub enum TimeInForce {
    Day,
    IOC,
}

#[derive(Debug, PartialEq, Eq, Structural, Clone, Copy)]
pub enum Direction {
    Buy,
    Sell,
}

} // verus!
