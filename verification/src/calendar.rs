//! The calendar manager: the in-process cache of the last sync result,
//! serving capped read-back queries for the display layer. A manager is
//! owned by its caller and passed as an explicit handle; there is no
//! process-wide singleton.

use vstd::prelude::*;

use crate::token::{CalendarEvent, events_view};

verus! {

/// Holds the events of the most recent successful sync, in provider
/// order.
#[derive(Debug)]
pub struct CalendarManager {
    pub events: Vec<CalendarEvent>,
}

impl CalendarManager {
    /// An empty manager: nothing synced yet.
    pub fn new() -> (r: CalendarManager)
        ensures
            r.events@.len() == 0,
    {
        CalendarManager { events: Vec::new() }
    }

    /// Replace the cache with a fresh sync result.
    pub fn record_sync(&mut self, events: Vec<CalendarEvent>)
        ensures
            final(self).events@ == events@,
    {
        self.events = events;
    }

    /// The first `max_results` cached events, in order; all of them
    /// when fewer are cached.
    pub fn get_events(&self, max_results: usize) -> (r: Vec<CalendarEvent>)
        ensures
            events_view(r@) == if events_view(self.events@).len() <= max_results {
                events_view(self.events@)
            } else {
                events_view(self.events@).subrange(0, max_results as int)
            },
    {
        let mut out: Vec<CalendarEvent> = Vec::new();
        let mut i: usize = 0;
        while i < self.events.len() && i < max_results
            invariant
                i <= self.events@.len(),
                i <= max_results,
                out@.len() == i,
                forall|j: int| 0 <= j < i ==> #[trigger] out@[j]@ == self.events@[j]@,
            decreases self.events@.len() - i,
        {
            out.push(self.events[i].clone());
            i = i + 1;
        }
        proof {
            let full = events_view(self.events@);
            if full.len() <= max_results {
                assert(events_view(out@) =~= full);
            } else {
                assert(events_view(out@) =~= full.subrange(0, max_results as int));
            }
        }
        out
    }

    /// How many events the cache holds.
    pub fn count_events(&self) -> (r: usize)
        ensures
            r == self.events@.len(),
    {
        self.events.len()
    }
}

} // verus!
