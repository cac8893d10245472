//! How much work a plugin has missed because its queue was full.

use vstd::prelude::*;

verus! {

/// Missed work since the daemon started.
#[derive(Debug, Clone, Copy, PartialEq, Eq, Structural)]
pub struct DroppedCounts {
    pub events: u64,
    pub bus_deliveries: u64,
}

impl DroppedCounts {
    /// Nothing missed.
    pub fn none() -> (r: DroppedCounts)
        ensures
            r.events == 0,
            r.bus_deliveries == 0,
    {
        DroppedCounts { events: 0, bus_deliveries: 0 }
    }

    /// Counts an event that was missed.
    pub fn record_event_drop(&mut self)
        ensures
            final(self).bus_deliveries == old(self).bus_deliveries,
            final(self).events == if old(self).events == u64::MAX {
                0
            } else {
                (old(self).events + 1) as u64
            },
    {
        self.events = if self.events == u64::MAX {
            0
        } else {
            self.events + 1
        };
    }

    /// Counts a delivery that was missed.
    pub fn record_bus_delivery_drop(&mut self)
        ensures
            final(self).events == old(self).events,
            final(self).bus_deliveries == if old(self).bus_deliveries == u64::MAX {
                0
            } else {
                (old(self).bus_deliveries + 1) as u64
            },
    {
        self.bus_deliveries = if self.bus_deliveries == u64::MAX {
            0
        } else {
            self.bus_deliveries + 1
        };
    }
}

} // verus!
