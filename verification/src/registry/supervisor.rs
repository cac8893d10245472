//! What is known of the threads of plugins.

use vstd::prelude::*;

use crate::keyed::TextMap;
use crate::runner::plugin::queue::PushError;
use crate::runtime::dropped::DroppedCounts;
use crate::schedule::ScheduleView;

verus! {

/// What plugins' threads have reported: when their schedules fire next, and how
/// much work they have missed. Forwarding from the bus ends once it is told to.
#[derive(Debug)]
pub struct ThreadSupervisor {
    pub schedule_views: TextMap<ScheduleView>,
    pub drop_counters: TextMap<DroppedCounts>,
    pub bus_subscribers_end: bool,
}

impl ThreadSupervisor {
    pub open spec fn well_formed(self) -> bool {
        self.schedule_views.well_formed() && self.drop_counters.well_formed()
    }

    /// How much work a plugin has missed: nothing if it has no thread.
    pub open spec fn dropped(self, id: Seq<char>) -> DroppedCounts {
        if self.drop_counters.map().dom().contains(id) {
            self.drop_counters.map()[id]
        } else {
            DroppedCounts { events: 0, bus_deliveries: 0 }
        }
    }

    /// When the thread of a plugin has planned a schedule, if it has said so.
    pub open spec fn planned(self, id: Seq<char>, name: Seq<char>) -> Option<i128> {
        if self.schedule_views.map().dom().contains(id) {
            self.schedule_views.map()[id].time_of(name)
        } else {
            None
        }
    }

    /// Nothing reported.
    pub fn new() -> (r: ThreadSupervisor)
        ensures
            r.well_formed(),
            !r.bus_subscribers_end,
            forall|id: Seq<char>| #[trigger]
                r.dropped(id) == (DroppedCounts { events: 0, bus_deliveries: 0 }),
            forall|id: Seq<char>, name: Seq<char>| #[trigger] r.planned(id, name) is None,
    {
        ThreadSupervisor {
            schedule_views: TextMap::new(),
            drop_counters: TextMap::new(),
            bus_subscribers_end: false,
        }
    }

    /// Takes what a plugin's thread says of its schedules.
    pub fn register_schedule_view(&mut self, id: &str, view: ScheduleView)
        requires
            old(self).well_formed(),
        ensures
            final(self).well_formed(),
            final(self).drop_counters == old(self).drop_counters,
            final(self).bus_subscribers_end == old(self).bus_subscribers_end,
            forall|other: Seq<char>, name: Seq<char>| #[trigger]
                final(self).planned(other, name) == if other == id@ {
                    view.time_of(name)
                } else {
                    old(self).planned(other, name)
                },
    {
        self.schedule_views.insert(id.to_owned(), view);
    }

    /// Takes how much work a plugin's thread has missed.
    pub fn register_drop_counters(&mut self, id: &str, counters: DroppedCounts)
        requires
            old(self).well_formed(),
        ensures
            final(self).well_formed(),
            final(self).schedule_views == old(self).schedule_views,
            final(self).bus_subscribers_end == old(self).bus_subscribers_end,
            forall|other: Seq<char>| #[trigger]
                final(self).dropped(other) == if other == id@ {
                    counters
                } else {
                    old(self).dropped(other)
                },
    {
        self.drop_counters.insert(id.to_owned(), counters);
    }

    /// How much work a plugin has missed.
    pub fn dropped_counts(&self, id: &str) -> (r: DroppedCounts)
        requires
            self.well_formed(),
        ensures
            r == self.dropped(id@),
    {
        match self.drop_counters.get(id) {
            Some(counters) => *counters,
            None => DroppedCounts::none(),
        }
    }

    /// When the thread of a plugin has planned a schedule, if it has said so.
    pub fn published_schedule(&self, id: &str, name: &str) -> (r: Option<i128>)
        requires
            self.well_formed(),
        ensures
            r == self.planned(id@, name@),
    {
        match self.schedule_views.get(id) {
            Some(view) => view.published(name),
            None => None,
        }
    }

    /// Ends forwarding from the bus.
    pub fn shutdown_bus_subscribers(&mut self)
        ensures
            final(self).bus_subscribers_end,
            final(self).schedule_views == old(self).schedule_views,
            final(self).drop_counters == old(self).drop_counters,
    {
        self.bus_subscribers_end = true;
    }
}

/// Why a message did not reach a plugin.
#[derive(Debug, Clone, Copy, PartialEq, Eq, Structural)]
pub enum DeliverError {
    /// The plugin has no thread, or it has ended.
    NotRunning,
    /// The queue of the plugin turned it down.
    QueueFull,
}

/// What became of a message by what became of the work for it.
pub open spec fn delivery_outcome(pushed: Option<Result<(), PushError>>) -> Result<(), DeliverError> {
    match pushed {
        Some(Ok(_)) => Ok(()),
        Some(Err(PushError::Dropped)) => Err(DeliverError::QueueFull),
        Some(Err(PushError::Disconnected)) => Err(DeliverError::NotRunning),
        None => Err(DeliverError::NotRunning),
    }
}

/// What became of a message by what became of the work for it. Without a thread
/// there is nobody to do the work.
pub fn delivered(pushed: Option<Result<(), PushError>>) -> (r: Result<(), DeliverError>)
    ensures
        r == match pushed {
            Some(Ok(_)) => Ok::<(), DeliverError>(()),
            Some(Err(PushError::Dropped)) => Err(DeliverError::QueueFull),
            Some(Err(PushError::Disconnected)) => Err(DeliverError::NotRunning),
            None => Err(DeliverError::NotRunning),
        },
        r == delivery_outcome(pushed),
{
    match pushed {
        Some(Ok(_)) => Ok(()),
        Some(Err(PushError::Dropped)) => Err(DeliverError::QueueFull),
        Some(Err(PushError::Disconnected)) => Err(DeliverError::NotRunning),
        None => Err(DeliverError::NotRunning),
    }
}

/// What to do with a plugin's thread once all were told to stop.
#[derive(Debug, Clone, Copy, PartialEq, Eq, Structural)]
pub enum StopStep {
    /// It still runs and there is time left.
    Wait,
    /// It has ended.
    Join,
    /// It still runs and the time is over.
    Abandon,
}

/// What to do with a plugin's thread once all were told to stop.
pub open spec fn stop_decision(
    finished: bool,
    all_finished: bool,
    waited_ms: u64,
    grace_ms: u64,
) -> StopStep {
    if !all_finished && waited_ms < grace_ms {
        StopStep::Wait
    } else if finished {
        StopStep::Join
    } else {
        StopStep::Abandon
    }
}

/// What to do with a plugin's thread once all were told to stop. All threads share
/// the time: none is given up as long as there is some left.
pub fn stop_step(finished: bool, all_finished: bool, waited_ms: u64, grace_ms: u64) -> (r: StopStep)
    requires
        all_finished ==> finished,
    ensures
        r == if !all_finished && waited_ms < grace_ms {
            StopStep::Wait
        } else if finished {
            StopStep::Join
        } else {
            StopStep::Abandon
        },
        r == stop_decision(finished, all_finished, waited_ms, grace_ms),
{
    if !all_finished && waited_ms < grace_ms {
        StopStep::Wait
    } else if finished {
        StopStep::Join
    } else {
        StopStep::Abandon
    }
}

/// A message reached its plugin just if the queue took it. A queue that turned it down was full,
/// and a plugin without a thread, or with one that has ended, does not run.
pub proof fn law_messages_arrive_by_the_queue(pushed: Option<Result<(), PushError>>)
    ensures
        delivery_outcome(pushed) is Ok <==> pushed is Some && pushed->0 is Ok,
        delivery_outcome(pushed) == Err::<(), _>(DeliverError::QueueFull) <==> pushed == Some(
            Err::<(), _>(PushError::Dropped),
        ),
        pushed is None ==> delivery_outcome(pushed) == Err::<(), _>(DeliverError::NotRunning),
{
}

/// A thread is given up just if it still runs when the time is over. Before that, all are waited
/// for until all have ended, and one that has ended is never given up. Once waiting is over it
/// stays over.
pub proof fn law_no_thread_is_given_up_early(
    finished: bool,
    all_finished: bool,
    waited_ms: u64,
    later_ms: u64,
    grace_ms: u64,
)
    requires
        all_finished ==> finished,
        waited_ms <= later_ms,
    ensures
        stop_decision(finished, all_finished, waited_ms, grace_ms) == StopStep::Abandon <==> !finished
            && waited_ms >= grace_ms,
        stop_decision(finished, all_finished, waited_ms, grace_ms) == StopStep::Wait
            <==> !all_finished && waited_ms < grace_ms,
        stop_decision(finished, all_finished, waited_ms, grace_ms) != StopStep::Wait
            ==> stop_decision(finished, all_finished, later_ms, grace_ms) == stop_decision(
            finished,
            all_finished,
            waited_ms,
            grace_ms,
        ),
{
}

} // verus!
