//! Core of a stock-exchange matching service: a per-ticker matching engine
//! under price-time priority, account bookkeeping with pre-trade risk checks,
//! an append-only market-event history, and the portal that sequences them.
//!
//! Prices and cash are carried as unsigned integers counting fixed price
//! units, so tick checks and settlement arithmetic are exact.

pub mod account;
pub mod account_manager;
pub mod account_types;
pub mod common;
pub mod event;
pub mod event_history;
pub mod laws;
pub mod order;
pub mod order_info;
pub mod orderbook;
pub mod orderbook_manager;
pub mod orderbook_types;
pub mod portal;
pub mod portal_types;
pub mod session;
pub mod stock_manager;
pub mod ticker_map;
pub mod wire;
