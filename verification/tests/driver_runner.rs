use serde_json::Value;

use edlr_core::registry::entries::PluginState;
use edlr_core::runner::driver::{
    admit_driver_work, forward_sidecar_ready, reported_driver_state, send_disconnected,
    send_message, split_once, DriverCommand, DriverEvent, DriverLoop, DriverPolicy, DriverWork,
    Message, SinkError, DRIVER_MESSAGE_QUEUE_CAPACITY,
};
use edlr_core::runner::plugin::queue::{channel_for, Admit, Received};

fn message(from: &str) -> Message {
    Message { from: from.to_string(), topic: "t".to_string(), payload: Vec::new() }
}

fn plugin_message(from: &str) -> DriverWork {
    DriverWork::Message(message(from))
}

#[test]
fn plugin_messages_hit_the_capacity_limit() {
    assert_eq!(
        admit_driver_work(DRIVER_MESSAGE_QUEUE_CAPACITY - 1, &plugin_message("p")),
        Admit::Accept
    );
    assert_eq!(
        admit_driver_work(DRIVER_MESSAGE_QUEUE_CAPACITY, &plugin_message("p")),
        Admit::DropNewest
    );
}

#[test]
fn host_messages_and_completions_are_accepted_even_at_capacity() {
    assert_eq!(
        admit_driver_work(DRIVER_MESSAGE_QUEUE_CAPACITY, &plugin_message("host")),
        Admit::Accept
    );
    assert_eq!(
        admit_driver_work(
            DRIVER_MESSAGE_QUEUE_CAPACITY,
            &DriverWork::JobComplete { generation: 0, job_id: 1, result_json: "{}".to_string() }
        ),
        Admit::Accept
    );
    assert_eq!(
        admit_driver_work(DRIVER_MESSAGE_QUEUE_CAPACITY, &DriverWork::Disconnected),
        Admit::Accept
    );
}

#[test]
fn publish_through_the_queue_sink_returns_queue_full_when_full() {
    let (mut shared, _tx, _rx) = channel_for(DriverPolicy);
    for _ in 0..DRIVER_MESSAGE_QUEUE_CAPACITY {
        send_message(&mut shared, message("p")).expect("fits");
    }
    assert!(matches!(send_message(&mut shared, message("p")), Err(SinkError::Full)));

    send_message(&mut shared, message("host"))
        .expect("host notifications must not be rejected by a full queue");
}

#[test]
fn dropping_the_sink_delivers_a_disconnected_sentinel() {
    let (mut shared, _tx, rx) = channel_for(DriverPolicy);
    send_disconnected(&mut shared);
    match rx.recv_timeout(&mut shared, false) {
        Received::Work(DriverWork::Disconnected) => {}
        other => panic!("expected DriverWork::Disconnected, got {other:?}"),
    }
}

#[test]
fn forward_sidecar_ready_delivers_to_the_driver_queue_as_host() {
    let notice = forward_sidecar_ready("coeiroink/worker", 0, 50021)
        .expect("sidecar-ready must be queued");
    assert_eq!(notice.driver_id, "coeiroink");
    assert_eq!(notice.message.from, "host");
    assert_eq!(notice.message.topic, "sidecar-ready");
    let payload: Value = serde_json::from_slice(&notice.message.payload).unwrap();
    assert_eq!(payload["name"], "worker");
    assert_eq!(payload["index"], 0);
    assert_eq!(payload["port"], 50021);
}

#[test]
fn forward_sidecar_ready_drops_an_unrecognized_key() {
    assert!(
        forward_sidecar_ready("no-slash-here", 0, 50021).is_none(),
        "nothing must be delivered"
    );
}

#[test]
fn a_key_is_parted_at_its_first_slash() {
    assert_eq!(split_once("a/b/c"), Some(("a".to_string(), "b/c".to_string())));
    assert_eq!(split_once("a"), None);
}

#[test]
fn a_message_to_a_driver_that_is_gone_comes_back() {
    let (mut shared, _tx, rx) = channel_for(DriverPolicy);
    rx.close(&mut shared);
    assert!(matches!(send_message(&mut shared, message("p")), Err(SinkError::Closed)));
}

#[test]
fn a_driver_that_reports_nothing_is_disabled() {
    assert_eq!(reported_driver_state(Some(PluginState::Running)), PluginState::Running);
    assert_eq!(
        reported_driver_state(None),
        PluginState::Disabled {
            reason: "driver thread exited before reporting an init result".into()
        }
    );
}

#[test]
fn a_driver_that_fails_a_call_is_taken_out_of_service() {
    let mut thread = DriverLoop::start();
    assert!(matches!(thread.step(DriverEvent::Loaded(Ok(()))), DriverCommand::Init));
    thread.step(DriverEvent::Initialized(Ok(())));
    thread.step(DriverEvent::Reported(true));
    thread.step(DriverEvent::Received(Some(plugin_message("p"))));
    let command = thread.step(DriverEvent::Called(Err("trap".into())));
    let shown = format!("{command:?}");
    assert!(shown.contains("on-message call failed: trap"), "got {shown}");
}
