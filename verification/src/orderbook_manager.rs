//! The orderbooks of all listed tickers, keyed by ticker.

use vstd::prelude::*;
use crate::common::{Price, Ticker};
use crate::orderbook::{book_step, gc_buys, gc_sells, BookV, OrderBook};
use crate::orderbook_types::{logs_view, OrderbookLog, OrderbookLogV, OrderbookRequest};
use crate::ticker_map::TickerMap;

verus! {

pub struct OrderbookManager {
    bind: TickerMap<OrderBook>,
}

impl OrderbookManager {
    /// The books by ticker.
    pub closed spec fn books(self) -> Map<Seq<char>, BookV> {
        self.bind@.map_values(|b: OrderBook| b.book())
    }

    /// Every book is well-formed and registered under its own ticker.
    pub closed spec fn wf(self) -> bool {
        &&& self.bind.wf()
        &&& forall|t: Seq<char>| #[trigger]
            self.bind@.contains_key(t) ==> self.bind@[t].book().wf()
                && self.bind@[t].book().ticker == t
    }

    pub fn new() -> (r: Self)
        ensures
            r.wf(),
            r.books() == Map::<Seq<char>, BookV>::empty(),
    {
        let r = OrderbookManager { bind: TickerMap::new() };
        proof {
            assert(r.books() =~= Map::<Seq<char>, BookV>::empty());
        }
        r
    }

    /// Open an empty book for a freshly listed ticker.
    pub fn add_orderbook(&mut self, ticker: Ticker)
        requires
            old(self).wf(),
        ensures
            final(self).wf(),
            final(self).books() == old(self).books().insert(
                ticker@,
                BookV {
                    ticker: ticker@,
                    buys: Seq::empty(),
                    sells: Seq::empty(),
                    deleted: Set::empty(),
                },
            ),
    {
        let book = OrderBook::new(ticker.clone());
        self.bind.insert(ticker, book);
        proof {
            assert(self.books() =~= old(self).books().insert(
                ticker@,
                BookV {
                    ticker: ticker@,
                    buys: Seq::empty(),
                    sells: Seq::empty(),
                    deleted: Set::empty(),
                },
            ));
        }
    }

    /// Route a request to the ticker's book; an unknown ticker yields no
    /// logs and changes nothing.
    pub fn handle_orderbook_request(&mut self, ticker: Ticker, req: OrderbookRequest) -> (logs:
        Vec<OrderbookLog>)
        requires
            old(self).wf(),
        ensures
            final(self).wf(),
            old(self).books().contains_key(ticker@) ==> {
                &&& logs_view(logs@) == book_step(old(self).books()[ticker@], req).0
                &&& final(self).books() == old(self).books().insert(
                    ticker@,
                    book_step(old(self).books()[ticker@], req).1,
                )
            },
            !old(self).books().contains_key(ticker@) ==> logs_view(logs@) == Seq::<
                OrderbookLogV,
            >::empty() && final(self).books() == old(self).books(),
    {
        let taken = self.bind.take(&ticker);
        match taken {
            Some(mut orderbook) => {
                let logs = orderbook.handle_request(req);
                self.bind.insert(ticker, orderbook);
                proof {
                    assert(self.books() =~= old(self).books().insert(
                        ticker@,
                        book_step(old(self).books()[ticker@], req).1,
                    ));
                    assert forall|t: Seq<char>| #[trigger]
                        self.bind@.contains_key(t) implies self.bind@[t].book().wf()
                        && self.bind@[t].book().ticker == t by {
                        if t != ticker@ {
                            assert(old(self).bind@.contains_key(t));
                        }
                    }
                }
                logs
            },
            None => {
                let logs: Vec<OrderbookLog> = Vec::new();
                proof {
                    assert(logs_view(logs@) =~= Seq::<OrderbookLogV>::empty());
                }
                logs
            },
        }
    }

    /// Best live buy price on the ticker's book, `None` for an unknown
    /// ticker or an empty side.
    pub fn best_buy_price(&mut self, ticker: &Ticker) -> (r: Option<Price>)
        requires
            old(self).wf(),
        ensures
            final(self).wf(),
            old(self).books().contains_key(ticker@) ==> ({
                let b = old(self).books()[ticker@];
                let g = gc_buys(b.buys, b.deleted);
                &&& final(self).books() == old(self).books().insert(
                    ticker@,
                    BookV { buys: g.0, deleted: g.1, ..b },
                )
                &&& r == (if g.0.len() > 0 {
                    Some(g.0[0].price)
                } else {
                    None::<Price>
                })
            }),
            !old(self).books().contains_key(ticker@) ==> r == None::<Price> && final(self).books()
                == old(self).books(),
    {
        let taken = self.bind.take(ticker);
        match taken {
            Some(mut orderbook) => {
                let r = orderbook.best_buy_price();
                self.bind.insert(ticker.clone(), orderbook);
                proof {
                    let b = old(self).books()[ticker@];
                    let g = gc_buys(b.buys, b.deleted);
                    assert(self.books() =~= old(self).books().insert(
                        ticker@,
                        BookV { buys: g.0, deleted: g.1, ..b },
                    ));
                    assert forall|t: Seq<char>| #[trigger]
                        self.bind@.contains_key(t) implies self.bind@[t].book().wf()
                        && self.bind@[t].book().ticker == t by {
                        if t != ticker@ {
                            assert(old(self).bind@.contains_key(t));
                        }
                    }
                }
                r
            },
            None => None,
        }
    }

    /// Best live sell price; the mirror of `best_buy_price`.
    pub fn best_sell_price(&mut self, ticker: &Ticker) -> (r: Option<Price>)
        requires
            old(self).wf(),
        ensures
            final(self).wf(),
            old(self).books().contains_key(ticker@) ==> ({
                let b = old(self).books()[ticker@];
                let g = gc_sells(b.sells, b.deleted);
                &&& final(self).books() == old(self).books().insert(
                    ticker@,
                    BookV { sells: g.0, deleted: g.1, ..b },
                )
                &&& r == (if g.0.len() > 0 {
                    Some(g.0[0].price)
                } else {
                    None::<Price>
                })
            }),
            !old(self).books().contains_key(ticker@) ==> r == None::<Price> && final(self).books()
                == old(self).books(),
    {
        let taken = self.bind.take(ticker);
        match taken {
            Some(mut orderbook) => {
                let r = orderbook.best_sell_price();
                self.bind.insert(ticker.clone(), orderbook);
                proof {
                    let b = old(self).books()[ticker@];
                    let g = gc_sells(b.sells, b.deleted);
                    assert(self.books() =~= old(self).books().insert(
                        ticker@,
                        BookV { sells: g.0, deleted: g.1, ..b },
                    ));
                    assert forall|t: Seq<char>| #[trigger]
                        self.bind@.contains_key(t) implies self.bind@[t].book().wf()
                        && self.bind@[t].book().ticker == t by {
                        if t != ticker@ {
                            assert(old(self).bind@.contains_key(t));
                        }
                    }
                }
                r
            },
            None => None,
        }
    }
}

} // verus!
