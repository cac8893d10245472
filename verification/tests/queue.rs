use std::sync::Arc;

use edlr_core::event::Event;
use edlr_core::runner::plugin::queue::{
    admit_lossy, admit_reliable, channel, plugin_work_evictable, reliable_channel, Admit, Lossy,
    PushError, Received, SharedState, WorkReceiver,
};
use edlr_core::runner::plugin::{PluginWork, PLUGIN_WORK_QUEUE_CAPACITY};

fn journal_work(name: &str) -> PluginWork {
    PluginWork::Event(Arc::new(Event::Journal {
        timestamp: "2026-08-05T00:00:00Z".into(),
        event: name.into(),
        raw: serde_json::Value::Object(serde_json::Map::new()),
        replay: false,
    }))
}

fn event_name(work: &PluginWork) -> String {
    match work {
        PluginWork::Event(event) => match event.as_ref() {
            Event::Journal { event: name, .. } => name.clone(),
            other => panic!("expected a journal event, got {other:?}"),
        },
        other => panic!("expected PluginWork::Event, got {other:?}"),
    }
}

fn job_complete() -> PluginWork {
    PluginWork::JobComplete { generation: 0, job_id: 1, result_json: "{}".to_string() }
}

fn take(rx: &WorkReceiver, shared: &mut SharedState<PluginWork, Lossy>) -> PluginWork {
    match rx.recv_timeout(shared, false) {
        Received::Work(work) => work,
        other => panic!("expected work, got {other:?}"),
    }
}

fn drain(rx: &WorkReceiver, shared: &mut SharedState<PluginWork, Lossy>) -> Vec<PluginWork> {
    let mut all = Vec::new();
    while let Received::Work(work) = rx.recv_timeout(shared, true) {
        all.push(work);
    }
    all
}

#[test]
fn below_capacity_accepts() {
    let verdict = admit_lossy(PLUGIN_WORK_QUEUE_CAPACITY - 1, &PluginWork::Stop);
    assert_eq!(verdict, Admit::Accept);
}

#[test]
fn at_capacity_lossy_drops_oldest() {
    let verdict = admit_lossy(PLUGIN_WORK_QUEUE_CAPACITY, &PluginWork::Stop);
    assert_eq!(verdict, Admit::DropOldest);
}

#[test]
fn job_complete_is_accepted_even_at_capacity() {
    let verdict = admit_lossy(PLUGIN_WORK_QUEUE_CAPACITY, &job_complete());
    assert_eq!(verdict, Admit::Accept);
}

#[test]
fn reliable_accepts_everything_past_capacity() {
    let verdict = admit_reliable(PLUGIN_WORK_QUEUE_CAPACITY * 100, &journal_work("Evt"));
    assert_eq!(verdict, Admit::Accept);
}

#[test]
fn only_events_and_messages_are_evictable() {
    assert!(plugin_work_evictable(&journal_work("Evt")));
    assert!(!plugin_work_evictable(&PluginWork::Stop));
    assert!(!plugin_work_evictable(&job_complete()));
}

#[test]
fn len_and_len_probe_report_the_queue_depth() {
    let (mut shared, tx, _rx) = channel();
    tx.push(&mut shared, journal_work("a")).unwrap();
    tx.push(&mut shared, journal_work("b")).unwrap();
    assert_eq!(tx.len(&shared), 2);
    let probe = tx.len_probe();
    assert_eq!(probe.get(&shared), 2);
}

#[test]
fn push_then_recv_is_fifo() {
    let (mut shared, tx, rx) = channel();
    tx.push(&mut shared, journal_work("first")).unwrap();
    tx.push(&mut shared, journal_work("second")).unwrap();

    let first = take(&rx, &mut shared);
    let second = take(&rx, &mut shared);
    assert_eq!(event_name(&first), "first");
    assert_eq!(event_name(&second), "second");
}

#[test]
fn push_to_a_full_queue_evicts_the_oldest_and_keeps_the_newest() {
    let (mut shared, tx, rx) = channel();
    for i in 0..PLUGIN_WORK_QUEUE_CAPACITY {
        tx.push(&mut shared, journal_work(&format!("Evt{i}"))).unwrap();
    }

    let evicted = tx
        .push(&mut shared, journal_work("overflow"))
        .expect("a push to a full queue must be accepted")
        .expect("a full queue must evict its oldest work");
    assert_eq!(event_name(&evicted), "Evt0");

    let first = take(&rx, &mut shared);
    assert_eq!(event_name(&first), "Evt1");
    let rest = drain(&rx, &mut shared);
    assert_eq!(event_name(rest.last().unwrap()), "overflow");
}

#[test]
fn stop_pushed_to_a_full_queue_evicts_an_event_and_is_never_evicted_itself() {
    let (mut shared, tx, rx) = channel();
    for i in 0..PLUGIN_WORK_QUEUE_CAPACITY {
        tx.push(&mut shared, journal_work(&format!("Evt{i}"))).unwrap();
    }

    let evicted = tx.push(&mut shared, PluginWork::Stop).unwrap().unwrap();
    assert_eq!(event_name(&evicted), "Evt0");

    for i in 0..PLUGIN_WORK_QUEUE_CAPACITY {
        tx.push(&mut shared, journal_work(&format!("After{i}"))).unwrap();
    }
    let stop_still_queued = drain(&rx, &mut shared)
        .iter()
        .any(|work| matches!(work, PluginWork::Stop));
    assert!(stop_still_queued, "Stop must survive event pressure");
}

#[test]
fn a_reliable_channel_never_drops_past_capacity() {
    let (mut shared, tx, rx) = reliable_channel();
    let published = PLUGIN_WORK_QUEUE_CAPACITY * 3;
    for i in 0..published {
        let evicted = tx.push(&mut shared, journal_work(&format!("Evt{i}"))).unwrap();
        assert!(evicted.is_none(), "reliable queue must never evict");
    }
    let mut received = 0;
    while let Received::Work(_) = rx.recv_timeout(&mut shared, true) {
        received += 1;
    }
    assert_eq!(received, published);
}

#[test]
fn remaining_work_is_drained_before_disconnected() {
    let (mut shared, tx, rx) = channel();
    tx.push(&mut shared, journal_work("leftover")).unwrap();
    tx.push(&mut shared, PluginWork::Stop).unwrap();
    assert!(tx.close(&mut shared));

    assert_eq!(event_name(&take(&rx, &mut shared)), "leftover");
    assert!(matches!(
        rx.recv_timeout(&mut shared, false),
        Received::Work(PluginWork::Stop)
    ));
    assert!(matches!(
        rx.recv_timeout(&mut shared, true),
        Received::Disconnected
    ));
}

#[test]
fn push_after_receiver_drop_is_disconnected() {
    let (mut shared, tx, rx) = channel();
    rx.close(&mut shared);
    assert!(matches!(
        tx.push(&mut shared, PluginWork::Stop),
        Err(PushError::Disconnected)
    ));
}

#[test]
fn recv_on_an_empty_queue_times_out_while_senders_are_alive() {
    let (mut shared, tx, rx) = channel();
    assert!(matches!(rx.recv_timeout(&mut shared, true), Received::Timeout));
    tx.close(&mut shared);
}

#[test]
fn cloned_sender_keeps_the_channel_alive() {
    let (mut shared, tx, rx) = channel();
    let tx2 = tx.duplicate(&mut shared);
    assert!(!tx.close(&mut shared));

    assert!(matches!(rx.recv_timeout(&mut shared, true), Received::Timeout));

    assert!(tx2.close(&mut shared));
    assert!(matches!(
        rx.recv_timeout(&mut shared, true),
        Received::Disconnected
    ));
}

#[test]
fn a_receiver_waits_on_while_there_is_time_and_a_sender() {
    let (mut shared, _tx, rx) = channel();
    assert!(matches!(rx.recv_timeout(&mut shared, false), Received::Wait));
    assert!(matches!(rx.recv(&mut shared), Received::Wait));
}

#[test]
fn a_queue_full_of_completed_jobs_still_takes_work() {
    let (mut shared, tx, _rx) = channel();
    for _ in 0..PLUGIN_WORK_QUEUE_CAPACITY {
        tx.push(&mut shared, job_complete()).unwrap();
    }
    let evicted = tx.push(&mut shared, journal_work("late")).unwrap();
    assert!(evicted.is_none());
    assert_eq!(tx.len(&shared), PLUGIN_WORK_QUEUE_CAPACITY + 1);
}

#[test]
fn accepted_work_is_received_evicted_or_waiting() {
    let (mut shared, tx, rx) = channel();
    let sent = PLUGIN_WORK_QUEUE_CAPACITY + 3;
    let mut accounted: Vec<String> = Vec::new();
    for i in 0..sent {
        if let Some(evicted) = tx.push(&mut shared, journal_work(&format!("Evt{i}"))).unwrap() {
            accounted.push(event_name(&evicted));
        }
    }
    assert_eq!(accounted.len(), 3);
    accounted.push(event_name(&take(&rx, &mut shared)));
    let waiting = drain(&rx, &mut shared);
    assert_eq!(waiting.len(), PLUGIN_WORK_QUEUE_CAPACITY - 1);
    for work in &waiting {
        accounted.push(event_name(work));
    }
    let all: Vec<String> = (0..sent).map(|i| format!("Evt{i}")).collect();
    assert_eq!(accounted, all);
}
