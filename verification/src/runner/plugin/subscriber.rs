//! Forwarding events and deliveries to the queue of a plugin.

use std::sync::Arc;

use vstd::prelude::*;

use crate::event::{Delivery, DeliveryView, Event};
use crate::registry::BusPort;
use crate::runner::plugin::event_loop::RecvTimeoutError;
use crate::runner::plugin::queue::{
    law_a_full_lossy_queue_makes_room, law_a_lossy_queue_turns_nothing_down, pushed, Lossy,
    PushError, Reliable, SharedState, WorkPolicy,
};
use crate::runner::plugin::PluginWork;
use crate::runtime::buffer::{by_key, entries_of};
use crate::runtime::bus::{
    bus_permitted, check_bus_permission, law_topics_are_opened_by_the_last_entry, parse_bus,
    BusDirection, BusRuntimeEntry,
};
use crate::runtime::dropped::DroppedCounts;
use crate::text::{holds_text, views};

verus! {

/// What plugins name an event by.
pub open spec fn event_name(event: Event) -> Seq<char> {
    match event {
        Event::Journal { event, .. } => event@,
        Event::Status { .. } => "status"@,
    }
}

/// Whether a list of events asks for one: by its name, or for all.
pub open spec fn asks_for(events: Seq<Seq<char>>, event: Event) -> bool {
    events.contains("*"@) || events.contains(event_name(event))
}

/// Whether a list of events asks for one.
pub fn matches_event(events: &Vec<String>, event: &Event) -> (r: bool)
    ensures
        r == asks_for(views(events@), *event),
        r <==> exists|i: int|
            #![trigger events@[i]]
            0 <= i < events.len() && (events@[i]@ == "*"@ || match *event {
                Event::Journal { event: name, .. } => events@[i]@ == name@,
                Event::Status { .. } => events@[i]@ == "status"@,
            }),
{
    proof {
        lemma_entries_ask(events@, *event);
    }
    if holds_text(events, "*") {
        return true;
    }
    match event {
        Event::Journal { event, .. } => holds_text(events, event.as_str()),
        Event::Status { .. } => holds_text(events, "status"),
    }
}

proof fn lemma_entries_ask(events: Seq<String>, event: Event)
    ensures
        asks_for(views(events), event) <==> exists|i: int|
            #![trigger events[i]]
            0 <= i < events.len() && (events[i]@ == "*"@ || match event {
                Event::Journal { event: name, .. } => events[i]@ == name@,
                Event::Status { .. } => events[i]@ == "status"@,
            }),
{
    let texts = views(events);
    law_any_entry_of_the_list_asks_for_an_event(texts, event);
    if asks_for(texts, event) {
        let i = choose|i: int|
            #![trigger texts[i]]
            0 <= i < texts.len() && (texts[i] == "*"@ || match event {
                Event::Journal { event: name, .. } => texts[i] == name@,
                Event::Status { .. } => texts[i] == "status"@,
            });
        assert(events[i]@ == texts[i]);
    } else {
        assert forall|i: int| #![trigger events[i]] 0 <= i < events.len() implies !(events[i]@
            == "*"@ || match event {
            Event::Journal { event: name, .. } => events[i]@ == name@,
            Event::Status { .. } => events[i]@ == "status"@,
        }) by {
            assert(events[i]@ == texts[i]);
        }
    }
}

/// What became of something that was to be forwarded.
#[derive(Debug, Clone, Copy, PartialEq, Eq, Structural)]
pub enum Forwarded {
    /// It is none of the plugin's business.
    Skipped,
    /// It is in the queue.
    Sent,
    /// The queue turned it down.
    Dropped,
    /// The plugin is gone, and nothing more has to be forwarded.
    Ended,
}

/// A count that begins anew after the last number.
pub open spec fn counted(count: u64) -> u64 {
    if count == u64::MAX {
        0
    } else {
        (count + 1) as u64
    }
}

/// The counts after work was missed. Only events and deliveries count.
pub open spec fn missed(drops: DroppedCounts, work: PluginWork) -> DroppedCounts {
    match work {
        PluginWork::Event(_) => DroppedCounts { events: counted(drops.events), ..drops },
        PluginWork::Message(_) => DroppedCounts {
            bus_deliveries: counted(drops.bus_deliveries),
            ..drops
        },
        _ => drops,
    }
}

fn record_missed(drops: &mut DroppedCounts, work: &PluginWork)
    ensures
        *final(drops) == missed(*old(drops), *work),
{
    match work {
        PluginWork::Event(_) => {
            drops.record_event_drop();
        },
        PluginWork::Message(_) => {
            drops.record_bus_delivery_drop();
        },
        _ => {},
    }
}

/// What putting work into the queue of a plugin does and returns: work that gets
/// lost over it is counted, be it the new or an old one.
pub open spec fn forwarded<Q: WorkPolicy<PluginWork>>(
    before: SharedState<PluginWork, Q>,
    work: PluginWork,
    drops: DroppedCounts,
    after: SharedState<PluginWork, Q>,
    drops_after: DroppedCounts,
    r: Forwarded,
) -> bool {
    exists|push: Result<Option<PluginWork>, PushError>|
        {
            &&& #[trigger] pushed(before, work, after, push)
            &&& after.same_ends(before)
            &&& match push {
                Ok(None) => r == Forwarded::Sent && drops_after == drops,
                Ok(Some(evicted)) => r == Forwarded::Sent && drops_after == missed(drops, evicted),
                Err(PushError::Dropped) => r == Forwarded::Dropped && drops_after == missed(
                    drops,
                    work,
                ),
                Err(PushError::Disconnected) => r == Forwarded::Ended && drops_after == drops,
            }
        }
}

fn forward<Q: WorkPolicy<PluginWork>>(
    work: PluginWork,
    queue: &mut SharedState<PluginWork, Q>,
    drops: &mut DroppedCounts,
) -> (r: Forwarded)
    ensures
        forwarded(*old(queue), work, *old(drops), *final(queue), *final(drops), r),
{
    let is_event = match &work {
        PluginWork::Event(_) => true,
        _ => false,
    };
    let is_message = match &work {
        PluginWork::Message(_) => true,
        _ => false,
    };
    let ghost sent = work;
    let push = queue.add_work(work);
    assert(pushed(*old(queue), sent, *queue, push));
    match push {
        Ok(None) => Forwarded::Sent,
        Ok(Some(evicted)) => {
            record_missed(drops, &evicted);
            Forwarded::Sent
        },
        Err(PushError::Dropped) => {
            if is_event {
                drops.record_event_drop();
            } else if is_message {
                drops.record_bus_delivery_drop();
            }
            Forwarded::Dropped
        },
        Err(PushError::Disconnected) => Forwarded::Ended,
    }
}

/// Forwards an event to a plugin that asks for it.
pub fn forward_event<Q: WorkPolicy<PluginWork>>(
    events: &Vec<String>,
    event: Arc<Event>,
    queue: &mut SharedState<PluginWork, Q>,
    drops: &mut DroppedCounts,
) -> (r: Forwarded)
    ensures
        if asks_for(views(events@), *event) {
            forwarded(
                *old(queue),
                PluginWork::Event(event),
                *old(drops),
                *final(queue),
                *final(drops),
                r,
            )
        } else {
            r == Forwarded::Skipped && *final(queue) == *old(queue) && *final(drops) == *old(drops)
        },
        r != Forwarded::Skipped <==> exists|i: int|
            #![trigger events@[i]]
            0 <= i < events.len() && (events@[i]@ == "*"@ || match *event {
                Event::Journal { event: name, .. } => events@[i]@ == name@,
                Event::Status { .. } => events@[i]@ == "status"@,
            }),
{
    if !matches_event(events, &*event) {
        return Forwarded::Skipped;
    }
    forward(PluginWork::Event(event), queue, drops)
}

/// Whether a buffer lets a delivery through.
pub open spec fn lets_through(bus_json: Seq<char>, driver: Seq<char>, topic: Seq<char>) -> bool {
    bus_permitted(
        by_key::<BusRuntimeEntry>(entries_of::<BusRuntimeEntry>(bus_json)),
        driver,
        topic,
        BusDirection::Subscribe,
    )
}

/// Forwards a delivery to a plugin whose buffer lets it through at that moment.
pub fn forward_delivery<Q: WorkPolicy<PluginWork>>(
    bus_json: &str,
    delivery: Delivery,
    queue: &mut SharedState<PluginWork, Q>,
    drops: &mut DroppedCounts,
) -> (r: Forwarded)
    ensures
        if lets_through(bus_json@, delivery.driver_id@, delivery.topic@) {
            forwarded(
                *old(queue),
                PluginWork::Message(delivery),
                *old(drops),
                *final(queue),
                *final(drops),
                r,
            )
        } else {
            r == Forwarded::Skipped && *final(queue) == *old(queue) && *final(drops) == *old(drops)
        },
{
    let entries = parse_bus(bus_json);
    let still_granted = check_bus_permission(
        &entries,
        delivery.driver_id.as_str(),
        delivery.topic.as_str(),
        BusDirection::Subscribe,
    );
    if !still_granted {
        return Forwarded::Skipped;
    }
    forward(PluginWork::Message(delivery), queue, drops)
}

/// What the forwarding of deliveries does next.
#[derive(Debug)]
pub enum SubscriberStep {
    /// Forward the delivery.
    Forward(Delivery),
    /// Wait on.
    Wait,
    /// End.
    End,
}

/// What the forwarding of deliveries does next.
pub open spec fn forwarding_goes_on(
    shutdown: bool,
    received: Result<Delivery, RecvTimeoutError>,
) -> SubscriberStep {
    if shutdown {
        SubscriberStep::End
    } else {
        match received {
            Ok(delivery) => SubscriberStep::Forward(delivery),
            Err(RecvTimeoutError::Timeout) => SubscriberStep::Wait,
            Err(RecvTimeoutError::Disconnected) => SubscriberStep::End,
        }
    }
}

/// What the forwarding of deliveries does next. Once the daemon goes down it ends,
/// whatever is waiting.
pub fn subscriber_step(shutdown: bool, received: Result<Delivery, RecvTimeoutError>) -> (r:
    SubscriberStep)
    ensures
        r == if shutdown {
            SubscriberStep::End
        } else {
            match received {
                Ok(delivery) => SubscriberStep::Forward(delivery),
                Err(RecvTimeoutError::Timeout) => SubscriberStep::Wait,
                Err(RecvTimeoutError::Disconnected) => SubscriberStep::End,
            }
        },
        r == forwarding_goes_on(shutdown, received),
{
    if shutdown {
        return SubscriberStep::End;
    }
    match received {
        Ok(delivery) => SubscriberStep::Forward(delivery),
        Err(RecvTimeoutError::Timeout) => SubscriberStep::Wait,
        Err(RecvTimeoutError::Disconnected) => SubscriberStep::End,
    }
}

/// Whether this is what a plugin gets at once when it subscribes to a topic.
pub open spec fn delivers_retained(
    retained: Option<Seq<u8>>,
    plugin: Seq<char>,
    driver: Seq<char>,
    topic: Seq<char>,
    r: Option<DeliveryView>,
) -> bool {
    match retained {
        Some(payload) => r == Some(
            DeliveryView { plugin_id: plugin, driver_id: driver, topic, payload },
        ),
        None => r is None,
    }
}

/// What a plugin gets at once when it subscribes to a topic: the value that the
/// topic retains, if there is one.
pub fn initial_delivery<B: BusPort>(bus: &B, plugin_id: &str, driver_id: &str, topic: &str) -> (r:
    Option<Delivery>)
    ensures
        r is Some <==> bus.retained(driver_id@, topic@) is Some,
        r matches Some(delivery) ==> {
            &&& delivery.plugin_id@ == plugin_id@
            &&& delivery.driver_id@ == driver_id@
            &&& delivery.topic@ == topic@
            &&& bus.retained(driver_id@, topic@) == Some(delivery.payload@)
        },
        delivers_retained(
            bus.retained(driver_id@, topic@),
            plugin_id@,
            driver_id@,
            topic@,
            match r {
                Some(delivery) => Some(delivery@),
                None => None,
            },
        ),
{
    match bus.retained_for(driver_id, topic) {
        Some(payload) => Some(
            Delivery {
                plugin_id: plugin_id.to_owned(),
                driver_id: driver_id.to_owned(),
                topic: topic.to_owned(),
                payload,
            },
        ),
        None => None,
    }
}

/// A delivery reaches the queue of a plugin only if its connection is approved
/// when it comes: with an entry that is not approved, or with none, the queue
/// stays as it is.
pub proof fn law_deliveries_need_an_approval(
    bus_json: Seq<char>,
    driver: Seq<char>,
    topic: Seq<char>,
)
    requires
        ({
            let entries = by_key::<BusRuntimeEntry>(entries_of::<BusRuntimeEntry>(bus_json));
            !entries.dom().contains(driver) || !entries[driver].granted
        }),
    ensures
        !lets_through(bus_json, driver, topic),
{
}

/// No event is lost unnoticed: every one is in the queue or counted, and so is what
/// it drove out.
pub proof fn law_losses_are_counted<Q: WorkPolicy<PluginWork>>(
    before: SharedState<PluginWork, Q>,
    event: Arc<Event>,
    drops: DroppedCounts,
    after: SharedState<PluginWork, Q>,
    drops_after: DroppedCounts,
    r: Forwarded,
)
    requires
        forwarded(before, PluginWork::Event(event), drops, after, drops_after, r),
        before.receiver_alive,
        drops.events < u64::MAX,
        drops.bus_deliveries < u64::MAX,
        forall|work: PluginWork|
            #[trigger] before.policy.expendable(work) ==> work is Event || work is Message,
    ensures
        after.queue@.len() + drops_after.events + drops_after.bus_deliveries == before.queue@.len()
            + 1 + drops.events + drops.bus_deliveries,
{
    let push = choose|push: Result<Option<PluginWork>, PushError>|
        #[trigger] pushed(before, PluginWork::Event(event), after, push) && match push {
            Ok(None) => r == Forwarded::Sent && drops_after == drops,
            Ok(Some(evicted)) => r == Forwarded::Sent && drops_after == missed(drops, evicted),
            Err(PushError::Dropped) => r == Forwarded::Dropped && drops_after == missed(
                drops,
                PluginWork::Event(event),
            ),
            Err(PushError::Disconnected) => r == Forwarded::Ended && drops_after == drops,
        };
    match push {
        Ok(Some(evicted)) => {
            assert(before.policy.expendable(evicted));
        },
        _ => {},
    }
}

/// A list of events asks for an event just if one of its entries, at whatever place, is the
/// name of the journal entry, `status` for the present status, or `*`.
pub proof fn law_any_entry_of_the_list_asks_for_an_event(events: Seq<Seq<char>>, event: Event)
    ensures
        asks_for(events, event) <==> exists|i: int|
            #![trigger events[i]]
            0 <= i < events.len() && (events[i] == "*"@ || match event {
                Event::Journal { event: name, .. } => events[i] == name@,
                Event::Status { .. } => events[i] == "status"@,
            }),
{
    if events.contains("*"@) {
        let i = choose|i: int| 0 <= i < events.len() && events[i] == "*"@;
        assert(events[i] == "*"@);
    }
}

/// An event that a plugin asks for is never passed over. While somebody receives, a queue
/// that drops nothing has it behind all that waited. Once nobody does, the forwarding ends
/// and nothing changes.
pub proof fn law_asked_for_events_are_forwarded(
    before: SharedState<PluginWork, Reliable>,
    work: PluginWork,
    drops: DroppedCounts,
    after: SharedState<PluginWork, Reliable>,
    drops_after: DroppedCounts,
    r: Forwarded,
)
    requires
        forwarded(before, work, drops, after, drops_after, r),
    ensures
        r != Forwarded::Skipped,
        drops_after == drops,
        before.receiver_alive ==> r == Forwarded::Sent && after.queue@ == before.queue@.push(work),
        !before.receiver_alive ==> r == Forwarded::Ended && after.queue@ == before.queue@,
{
}

/// A lossy queue has forwarded work last. What it lost over that is counted by its kind:
/// an event among the events, a delivery among the deliveries, and nothing else is
/// counted. The counts begin anew after the last number.
pub proof fn law_lossy_queues_count_what_they_drop(
    before: SharedState<PluginWork, Lossy>,
    work: PluginWork,
    drops: DroppedCounts,
    after: SharedState<PluginWork, Lossy>,
    drops_after: DroppedCounts,
    r: Forwarded,
)
    requires
        forwarded(before, work, drops, after, drops_after, r),
    ensures
        !before.receiver_alive ==> r == Forwarded::Ended && after.queue@ == before.queue@
            && drops_after == drops,
        before.receiver_alive ==> {
            &&& r == Forwarded::Sent
            &&& after.queue@.len() > 0 && after.queue@.last() == work
            &&& before.queue@.len() < 64 || work is JobComplete ==> drops_after == drops
                && after.queue@ == before.queue@.push(work)
            &&& before.queue@.len() >= 64 && !(work is JobComplete) ==> forall|i: int|
                #![trigger before.queue@[i]]
                0 <= i < before.queue@.len() && (before.queue@[i] is Event
                    || before.queue@[i] is Message) && (forall|j: int|
                    0 <= j < i ==> !((#[trigger] before.queue@[j]) is Event) && !(
                    before.queue@[j] is Message)) ==> {
                    &&& after.queue@ == before.queue@.remove(i).push(work)
                    &&& before.queue@[i] is Event ==> drops_after.bus_deliveries
                        == drops.bus_deliveries && (drops.events < u64::MAX ==> drops_after.events
                        == drops.events + 1) && (drops.events == u64::MAX ==> drops_after.events
                        == 0)
                    &&& before.queue@[i] is Message ==> drops_after.events == drops.events && (
                    drops.bus_deliveries < u64::MAX ==> drops_after.bus_deliveries
                        == drops.bus_deliveries + 1) && (drops.bus_deliveries == u64::MAX
                        ==> drops_after.bus_deliveries == 0)
                }
        },
{
    let push = choose|push: Result<Option<PluginWork>, PushError>|
        #[trigger] pushed(before, work, after, push) && match push {
            Ok(None) => r == Forwarded::Sent && drops_after == drops,
            Ok(Some(evicted)) => r == Forwarded::Sent && drops_after == missed(drops, evicted),
            Err(PushError::Dropped) => r == Forwarded::Dropped && drops_after == missed(
                drops,
                work,
            ),
            Err(PushError::Disconnected) => r == Forwarded::Ended && drops_after == drops,
        };
    law_a_full_lossy_queue_makes_room(before, work, after, push);
    if before.receiver_alive {
        law_a_lossy_queue_turns_nothing_down(before, work, after, push);
    }
}

/// A delivery is let through just if the last entry for its driver is approved and names
/// its topic among those that the plugin subscribes to.
pub proof fn law_deliveries_follow_the_last_entry(
    bus_json: Seq<char>,
    driver: Seq<char>,
    topic: Seq<char>,
)
    ensures
        lets_through(bus_json, driver, topic) <==> exists|i: int, k: int|
            #![trigger entries_of::<BusRuntimeEntry>(bus_json)[i].subscribe[k]]
            {
                let entries = entries_of::<BusRuntimeEntry>(bus_json);
                &&& 0 <= i < entries.len()
                &&& entries[i].driver == driver
                &&& forall|j: int| i < j < entries.len() ==> (#[trigger] entries[j]).driver != driver
                &&& entries[i].granted
                &&& 0 <= k < entries[i].subscribe.len()
                &&& entries[i].subscribe[k] == topic
            },
{
    law_topics_are_opened_by_the_last_entry(bus_json, driver, topic);
}

/// Forwarding goes on until the daemon goes down or nobody can deliver any more. Until then a
/// delivery that came is forwarded as it is, and the rest is waiting.
pub proof fn law_forwarding_goes_on_until_the_end(
    shutdown: bool,
    received: Result<Delivery, RecvTimeoutError>,
)
    ensures
        forwarding_goes_on(shutdown, received) is End <==> shutdown || received == Err::<
            Delivery,
            _,
        >(RecvTimeoutError::Disconnected),
        !shutdown ==> (received matches Ok(delivery) ==> forwarding_goes_on(shutdown, received)
            == SubscriberStep::Forward(delivery)),
        !shutdown && received == Err::<Delivery, _>(RecvTimeoutError::Timeout)
            ==> forwarding_goes_on(shutdown, received) is Wait,
{
}

/// A plugin that subscribes to a topic gets at once what the topic retains, addressed to it, and
/// nothing if it retains nothing.
pub proof fn law_subscribers_get_the_retained_value(
    retained: Option<Seq<u8>>,
    plugin: Seq<char>,
    driver: Seq<char>,
    topic: Seq<char>,
    r: Option<DeliveryView>,
)
    requires
        delivers_retained(retained, plugin, driver, topic, r),
    ensures
        r is Some <==> retained is Some,
        r matches Some(delivery) ==> delivery.plugin_id == plugin && delivery.driver_id == driver
            && delivery.topic == topic && Some(delivery.payload) == retained,
{
}

} // verus!
