use std::sync::Arc;

use edlr_core::event::{Delivery, Event};
use edlr_core::registry::InMemoryBus;
use edlr_core::runner::plugin::event_loop::RecvTimeoutError;
use edlr_core::runner::plugin::queue::{channel, Received};
use edlr_core::runner::plugin::subscriber::{
    forward_delivery, forward_event, initial_delivery, matches_event, subscriber_step, Forwarded,
    SubscriberStep,
};
use edlr_core::runner::plugin::{PluginWork, PLUGIN_WORK_QUEUE_CAPACITY};
use edlr_core::runtime::bus::{bus_json_string, BusRuntimeEntry};
use edlr_core::runtime::dropped::DroppedCounts;

fn journal_event(name: &str) -> Arc<Event> {
    Arc::new(Event::Journal {
        timestamp: "2026-07-25T00:00:00Z".into(),
        event: name.into(),
        raw: serde_json::Value::Object(serde_json::Map::new()),
        replay: false,
    })
}

fn delivery(payload: &[u8]) -> Delivery {
    Delivery {
        plugin_id: "translator".into(),
        driver_id: "ed-state".into(),
        topic: "current-system".into(),
        payload: payload.to_vec(),
    }
}

fn buffer(granted: bool) -> String {
    bus_json_string(&vec![BusRuntimeEntry {
        driver: "ed-state".into(),
        granted,
        publish: vec![],
        subscribe: vec!["current-system".into()],
    }])
}

#[test]
fn slow_plugin_channel_stays_bounded_and_publishing_does_not_block() {
    let (mut shared, tx, _rx) = channel();
    let mut drops = DroppedCounts::none();
    let published = PLUGIN_WORK_QUEUE_CAPACITY * 50;
    for i in 0..published {
        forward_event(
            &vec!["*".to_string()],
            journal_event(&format!("Evt{i}")),
            &mut shared,
            &mut drops,
        );
    }
    let queued = tx.len(&shared);
    assert!(queued <= PLUGIN_WORK_QUEUE_CAPACITY);
    let dropped = drops.events;
    assert!(dropped > 0);
    assert_eq!(dropped as usize + queued, published);
}

#[test]
fn subscribing_to_a_retained_topic_delivers_the_current_value_once() {
    let mut bus = InMemoryBus::new();
    bus.retain("ed-state", "current-system", b"Sol".to_vec());

    let first = initial_delivery(&bus, "translator", "ed-state", "current-system").unwrap();
    assert_eq!(first.payload, b"Sol".to_vec());
    assert_eq!(first, delivery(b"Sol"));
    assert!(initial_delivery(&bus, "translator", "ed-state", "other").is_none());
}

#[test]
fn bus_subscriber_forwards_only_while_still_granted() {
    let (mut shared, _tx, rx) = channel();
    let mut drops = DroppedCounts::none();

    let outcome = forward_delivery(&buffer(true), delivery(b"Sol"), &mut shared, &mut drops);
    assert_eq!(outcome, Forwarded::Sent);
    match rx.recv(&mut shared) {
        Received::Work(PluginWork::Message(delivery)) => {
            assert_eq!(delivery.payload, b"Sol".to_vec())
        }
        other => panic!("expected a granted delivery to reach the plugin queue, got {other:?}"),
    }

    let outcome = forward_delivery(&buffer(false), delivery(b"Jameson"), &mut shared, &mut drops);
    assert_eq!(outcome, Forwarded::Skipped);
    assert!(matches!(rx.recv_timeout(&mut shared, true), Received::Timeout));
}

#[test]
fn forwarding_ends_once_the_daemon_goes_down() {
    assert!(matches!(subscriber_step(true, Ok(delivery(b"Sol"))), SubscriberStep::End));
    assert!(matches!(
        subscriber_step(false, Ok(delivery(b"Sol"))),
        SubscriberStep::Forward(_)
    ));
    assert!(matches!(
        subscriber_step(false, Err(RecvTimeoutError::Timeout)),
        SubscriberStep::Wait
    ));
    assert!(matches!(
        subscriber_step(false, Err(RecvTimeoutError::Disconnected)),
        SubscriberStep::End
    ));
}

#[test]
fn plugins_get_the_events_they_ask_for() {
    let asked = vec!["FSDJump".to_string()];
    assert!(matches_event(&asked, &journal_event("FSDJump")));
    assert!(!matches_event(&asked, &journal_event("Docked")));
    let status = Event::Status { raw: serde_json::Value::Null };
    assert!(!matches_event(&asked, &status));
    assert!(matches_event(&vec!["status".to_string()], &status));
    assert!(matches_event(&vec!["*".to_string()], &status));
}

#[test]
fn forwarding_to_a_plugin_that_is_gone_ends() {
    let (mut shared, _tx, rx) = channel();
    rx.close(&mut shared);
    let mut drops = DroppedCounts::none();
    let outcome = forward_event(
        &vec!["*".to_string()],
        journal_event("Evt"),
        &mut shared,
        &mut drops,
    );
    assert_eq!(outcome, Forwarded::Ended);
}
