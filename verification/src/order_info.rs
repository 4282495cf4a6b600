//! Per-order records: the immutable properties bound at acceptance and the
//! mutable resting size driven by market events.

use vstd::prelude::*;
use std::collections::HashMap;
use crate::common::{Direction, InvId, OrderId, Price, Size, Ticker};
use crate::event::{Event, EventV};
use crate::portal_types::PortalNewOrderRequest;

verus! {

broadcast use vstd::std_specs::hash::group_hash_axioms;

/// Static properties of an order, immutable once it is accepted.
pub struct OrderRecord {
    pub inv_id: InvId,
    pub ticker: Ticker,
    pub direction: Direction,
    pub limit_price: Price,
    pub initial_size: Size,
}

/// View of an [`OrderRecord`].
pub struct OrderRecordV {
    pub inv_id: InvId,
    pub ticker: Seq<char>,
    pub direction: Direction,
    pub limit_price: Price,
    pub initial_size: Size,
}

impl View for OrderRecord {
    type V = OrderRecordV;

    open spec fn view(&self) -> OrderRecordV {
        OrderRecordV {
            inv_id: self.inv_id,
            ticker: self.ticker@,
            direction: self.direction,
            limit_price: self.limit_price,
            initial_size: self.initial_size,
        }
    }
}

/// Reading a resting size deletes an entry that has reached zero.
pub open spec fn gc_zero(m: Map<OrderId, Size>, id: OrderId) -> Map<OrderId, Size> {
    if m.contains_key(id) && m[id] == 0 {
        m.remove(id)
    } else {
        m
    }
}

/// The size a resting-size read reports: present and positive, or nothing.
pub open spec fn live_resting(m: Map<OrderId, Size>, id: OrderId) -> Option<Size> {
    if m.contains_key(id) && m[id] > 0 {
        Some(m[id])
    } else {
        None
    }
}

/// The resting map after one market event: an addition sets the size, an
/// execution subtracts from a live entry (and clears a spent one), a removal
/// deletes the entry. The engine never executes more than rests, so the
/// floor at zero is never reached through this portal.
pub open spec fn apply_event_to_resting(m: Map<OrderId, Size>, ev: EventV) -> Map<OrderId, Size> {
    match ev {
        EventV::OrderAdded(a) => m.insert(a.order_id, a.resting_size),
        EventV::OrderExecuted(e) => {
            if m.contains_key(e.order_id) {
                if m[e.order_id] > 0 {
                    if m[e.order_id] >= e.execution_size {
                        m.insert(e.order_id, (m[e.order_id] - e.execution_size) as Size)
                    } else {
                        m.insert(e.order_id, 0)
                    }
                } else {
                    m.remove(e.order_id)
                }
            } else {
                m
            }
        },
        EventV::OrderRemoved(r) => m.remove(r.order_id),
    }
}

pub struct OrderInfo {
    pub bind: HashMap<OrderId, OrderRecord>,
    pub resting: HashMap<OrderId, Size>,
}

impl OrderInfo {
    /// The bound records, as views.
    pub open spec fn binds(self) -> Map<OrderId, OrderRecordV> {
        self.bind@.map_values(|r: OrderRecord| r@)
    }

    /// The live resting sizes (entries at zero linger until read).
    pub open spec fn restings(self) -> Map<OrderId, Size> {
        self.resting@
    }

    pub fn new() -> (r: Self)
        ensures
            r.binds() == Map::<OrderId, OrderRecordV>::empty(),
            r.restings() == Map::<OrderId, Size>::empty(),
    {
        let r = OrderInfo { bind: HashMap::new(), resting: HashMap::new() };
        proof {
            assert(r.binds() =~= Map::<OrderId, OrderRecordV>::empty());
        }
        r
    }

    /// Current resting size of an order, if positive; an entry that has
    /// reached zero is deleted on the way.
    pub fn get_resting(&mut self, order_id: &OrderId) -> (r: Option<Size>)
        ensures
            r == live_resting(old(self).restings(), *order_id),
            final(self).restings() == gc_zero(old(self).restings(), *order_id),
            final(self).binds() == old(self).binds(),
    {
        let looked: Option<Size> = match self.resting.get(order_id) {
            Some(size) => Some(*size),
            None => None,
        };
        match looked {
            Some(size) => {
                if size == 0 {
                    self.resting.remove(order_id);
                    None
                } else {
                    Some(size)
                }
            },
            None => None,
        }
    }

    /// A cancel is valid iff the order rests with shares left and belongs to
    /// the asking investor.
    pub fn valid_cancel_order(&mut self, order_id: &OrderId, inv_id: &InvId) -> (r: bool)
        ensures
            r == (live_resting(old(self).restings(), *order_id).is_some() && old(
                self,
            ).binds().contains_key(*order_id) && old(self).binds()[*order_id].inv_id == *inv_id),
            final(self).restings() == gc_zero(old(self).restings(), *order_id),
            final(self).binds() == old(self).binds(),
    {
        let live = self.get_resting(order_id);
        match live {
            Some(_) => {
                match self.bind.get(order_id) {
                    Some(rec) => rec.inv_id == *inv_id,
                    None => false,
                }
            },
            None => false,
        }
    }

    /// Bind the immutable record of one order.
    pub fn bind_order(&mut self, order_id: OrderId, order_rec: OrderRecord)
        ensures
            final(self).binds() == old(self).binds().insert(order_id, order_rec@),
            final(self).restings() == old(self).restings(),
    {
        self.bind.insert(order_id, order_rec);
        proof {
            assert(self.binds() =~= old(self).binds().insert(order_id, order_rec@));
        }
    }

    /// Track one market event's effect on the resting sizes.
    pub fn update_by_event(&mut self, event: Event)
        ensures
            final(self).restings() == apply_event_to_resting(old(self).restings(), event@),
            final(self).binds() == old(self).binds(),
    {
        match event {
            Event::OrderAdded(order_added) => {
                self.resting.insert(order_added.order_id, order_added.resting_size);
            },
            Event::OrderExecuted(order_executed) => {
                let live = self.get_resting(&order_executed.order_id);
                match live {
                    Some(size) => {
                        let left: Size = if size >= order_executed.execution_size {
                            size - order_executed.execution_size
                        } else {
                            0
                        };
                        self.resting.insert(order_executed.order_id, left);
                    },
                    None => {},
                }
                proof {
                    assert(self.restings() =~= apply_event_to_resting(
                        old(self).restings(),
                        event@,
                    ));
                }
            },
            Event::OrderRemoved(order_removed) => {
                self.resting.remove(&order_removed.order_id);
            },
        }
    }

    /// The immutable record bound to an order id.
    pub fn get_order_record(&self, order_id: &OrderId) -> (r: Option<&OrderRecord>)
        ensures
            match r {
                Some(rec) => self.binds().contains_key(*order_id) && rec@ == self.binds()[
                    *order_id
                ],
                None => !self.binds().contains_key(*order_id),
            },
    {
        self.bind.get(order_id)
    }

    /// Bind the immutable record of a freshly accepted order. The resting
    /// entry appears only when the engine reports the order added.
    pub fn add_new_order(&mut self, order_id: &OrderId, inv_id: &InvId, req: &PortalNewOrderRequest)
        ensures
            final(self).binds() == old(self).binds().insert(
                *order_id,
                OrderRecordV {
                    inv_id: *inv_id,
                    ticker: req.ticker@,
                    direction: req.direction,
                    limit_price: req.price,
                    initial_size: req.size,
                },
            ),
            final(self).restings() == old(self).restings(),
    {
        self.bind_order(
            *order_id,
            OrderRecord {
                inv_id: *inv_id,
                ticker: req.ticker.clone(),
                direction: req.direction,
                limit_price: req.price,
                initial_size: req.size,
            },
        );
    }
}

} // verus!
