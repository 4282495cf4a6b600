//! Append-only log of market events, with a snapshot for subscriber replay.

use vstd::prelude::*;
use crate::event::{Event, EventV};

verus! {

/// View of a sequence of events, element by element.
pub open spec fn events_view(s: Seq<Event>) -> Seq<EventV> {
    s.map_values(|e: Event| e@)
}

pub struct EventHistory {
    pub events: Vec<Event>,
}

impl EventHistory {
    /// Everything that has happened on the market, oldest first.
    pub open spec fn history(self) -> Seq<EventV> {
        events_view(self.events@)
    }

    pub fn new() -> (r: Self)
        ensures
            r.history() == Seq::<EventV>::empty(),
    {
        let r = EventHistory { events: Vec::new() };
        proof {
            assert(r.history() =~= Seq::<EventV>::empty());
        }
        r
    }

    /// A copy of the whole log, for one subscriber's replay.
    pub fn get_history(&self) -> (r: Vec<Event>)
        ensures
            events_view(r@) == self.history(),
    {
        let r = self.events.clone();
        proof {
            assert forall|i: int| 0 <= i < r@.len() implies r@[i]@ == self.events@[i]@ by {
                assert(cloned::<Event>(self.events@[i], r@[i]));
            }
            assert(events_view(r@) =~= self.history());
        }
        r
    }

    fn add_event(&mut self, event: Event)
        ensures
            final(self).history() == old(self).history().push(event@),
    {
        self.events.push(event);
        proof {
            assert(self.history() =~= old(self).history().push(event@));
        }
    }

    /// Append the event; the log is never shortened or reordered.
    pub fn update_by_event(&mut self, event: Event)
        ensures
            final(self).history() == old(self).history().push(event@),
    {
        match event {
            Event::OrderAdded(order_added) => self.add_event(Event::OrderAdded(order_added)),
            Event::OrderExecuted(order_executed) => {
                self.add_event(Event::OrderExecuted(order_executed))
            },
            Event::OrderRemoved(order_removed) => {
                self.add_event(Event::OrderRemoved(order_removed))
            },
        }
    }
}

} // verus!
