//! Static per-ticker trading rules: close price, lot size and tick.

use vstd::prelude::*;
use crate::common::{Price, Size, StockName, Ticker};
use crate::ticker_map::TickerMap;

verus! {

/// Immutable record of one listed stock. `mpf` is the minimum price
/// fluctuation (the tick); valid prices are its multiples.
#[derive(Debug)]
pub struct StockRecord {
    pub close_price: Price,
    pub lot_size: Size,
    pub mpf: Price,
    pub name: StockName,
}

pub struct StockManager {
    bind: TickerMap<StockRecord>,
}

/// A price on the tick grid and a positive size in whole lots.
pub open spec fn spec_valid_order(
    stocks: Map<Seq<char>, StockRecord>,
    ticker: Seq<char>,
    price: Price,
    size: Size,
) -> bool {
    &&& stocks.contains_key(ticker)
    &&& price as int % stocks[ticker].mpf as int == 0
    &&& size as int % stocks[ticker].lot_size as int == 0
    &&& size > 0
}

impl StockManager {
    /// The listed stocks by ticker.
    pub closed spec fn stocks(self) -> Map<Seq<char>, StockRecord> {
        self.bind@
    }

    /// Every record has a positive lot size and a positive tick.
    pub open spec fn wf(self) -> bool {
        &&& self.inner_wf()
        &&& forall|t: Seq<char>| #[trigger]
            self.stocks().contains_key(t) ==> self.stocks()[t].lot_size > 0
                && self.stocks()[t].mpf > 0
    }

    /// The backing map keeps its keys unique.
    pub closed spec fn inner_wf(self) -> bool {
        self.bind.wf()
    }

    pub fn new() -> (r: Self)
        ensures
            r.wf(),
            r.stocks() == Map::<Seq<char>, StockRecord>::empty(),
    {
        StockManager { bind: TickerMap::new() }
    }

    /// Used at initialization only; the positivity of lot size and tick is
    /// the caller's to establish.
    pub fn bind_stock(&mut self, ticker: Ticker, stock_rec: StockRecord)
        requires
            old(self).wf(),
            stock_rec.lot_size > 0,
            stock_rec.mpf > 0,
        ensures
            final(self).wf(),
            final(self).stocks() == old(self).stocks().insert(ticker@, stock_rec),
    {
        self.bind.insert(ticker, stock_rec);
        proof {
            assert forall|t: Seq<char>| #[trigger] self.stocks().contains_key(t) implies self
                .stocks()[t].lot_size > 0 && self.stocks()[t].mpf > 0 by {
                if t != ticker@ {
                    assert(old(self).stocks().contains_key(t));
                }
            }
        }
    }

    fn check_valid_price(p: &Price, mpf: &Price) -> (r: bool)
        requires
            *mpf > 0,
        ensures
            r == (*p as int % *mpf as int == 0),
    {
        *p % *mpf == 0
    }

    fn check_valid_size(size: &Size, lot_size: &Size) -> (r: bool)
        requires
            *lot_size > 0,
        ensures
            r == (*size as int % *lot_size as int == 0 && *size > 0),
    {
        *size % *lot_size == 0 && *size > 0
    }

    /// Tick and lot compliance of a new order, false for an unknown ticker.
    pub fn check_valid_order(&self, ticker: &Ticker, price: &Price, size: &Size) -> (r: bool)
        requires
            self.wf(),
        ensures
            r == spec_valid_order(self.stocks(), ticker@, *price, *size),
    {
        match self.bind.get(ticker) {
            Some(stock_rec) => {
                proof {
                    assert(self.stocks().contains_key(ticker@));
                }
                Self::check_valid_price(price, &stock_rec.mpf) && Self::check_valid_size(
                    size,
                    &stock_rec.lot_size,
                )
            },
            None => false,
        }
    }

    /// The close price a market order falls back to when the opposite side
    /// of the book is empty.
    pub fn get_close_price(&self, ticker: &Ticker) -> (r: Option<Price>)
        requires
            self.wf(),
        ensures
            match r {
                Some(p) => self.stocks().contains_key(ticker@) && p == self.stocks()[
                    ticker@
                ].close_price,
                None => !self.stocks().contains_key(ticker@),
            },
    {
        match self.bind.get(ticker) {
            Some(stock_rec) => Some(stock_rec.close_price),
            None => None,
        }
    }
}

} // verus!
