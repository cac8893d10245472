use std::sync::Arc;

use edlr_core::event::{Delivery, Event};
use edlr_core::manifest::{ScheduleRequest, ScheduleSpec};
use edlr_core::runner::plugin::event_loop::{
    call_kind_of, deadline_verdict, detail_of, event_params, job_completion_verdict, next_action,
    CallKind, CallOutcome, DeadlineVerdict, JobCompletionVerdict, LoadFailure, LoopAction,
    LoopCommand, LoopEvent, PluginLoop, RecvTimeoutError, CALL_DEADLINE_STRIKES,
};
use edlr_core::runner::plugin::PluginWork;
use edlr_core::schedule::Clock;

#[test]
fn matching_generation_delivers() {
    assert_eq!(job_completion_verdict(0, 0), JobCompletionVerdict::Deliver);
    assert_eq!(job_completion_verdict(3, 3), JobCompletionVerdict::Deliver);
}

#[test]
fn stale_generation_is_dropped() {
    assert_eq!(
        job_completion_verdict(0, 1),
        JobCompletionVerdict::DropStale
    );
}

#[test]
fn future_generation_is_also_dropped() {
    assert_eq!(
        job_completion_verdict(2, 1),
        JobCompletionVerdict::DropStale
    );
}

#[test]
fn below_the_limit_restarts() {
    let verdict = deadline_verdict(CALL_DEADLINE_STRIKES - 1);
    assert_eq!(verdict, DeadlineVerdict::Restart);
}

#[test]
fn at_the_limit_gives_up() {
    let verdict = deadline_verdict(CALL_DEADLINE_STRIKES);
    assert_eq!(verdict, DeadlineVerdict::GiveUp);
}

#[test]
fn above_the_limit_gives_up() {
    let verdict = deadline_verdict(CALL_DEADLINE_STRIKES + 1);
    assert_eq!(verdict, DeadlineVerdict::GiveUp);
}

fn journal_event(name: &str) -> PluginWork {
    PluginWork::Event(Arc::new(Event::Journal {
        timestamp: "2026-08-05T00:00:00Z".into(),
        event: name.into(),
        raw: serde_json::Value::Object(serde_json::Map::new()),
        replay: false,
    }))
}

#[test]
fn journal_events_report_on_event_with_the_event_name() {
    let work = journal_event("FSDJump");
    assert!(matches!(call_kind_of(&work), CallKind::OnEvent));
    assert_eq!(detail_of(&work), "FSDJump");
}

#[test]
fn status_events_fall_back_to_the_kind_as_detail() {
    let work = PluginWork::Event(Arc::new(Event::Status {
        raw: serde_json::Value::Object(serde_json::Map::new()),
    }));
    assert!(matches!(call_kind_of(&work), CallKind::OnEvent));
    assert_eq!(detail_of(&work), "status");
}

#[test]
fn bus_deliveries_report_on_message_with_driver_slash_topic() {
    let work = PluginWork::Message(Delivery {
        plugin_id: "p1".into(),
        driver_id: "coeiroink".into(),
        topic: "speak".into(),
        payload: Vec::new(),
    });
    assert!(matches!(call_kind_of(&work), CallKind::OnMessage));
    assert_eq!(detail_of(&work), "coeiroink/speak");
}

#[test]
fn job_completions_report_on_job_complete_with_the_job_id() {
    let work = PluginWork::JobComplete { generation: 0, job_id: 42, result_json: "{}".into() };
    assert!(matches!(call_kind_of(&work), CallKind::OnJobComplete));
    assert_eq!(detail_of(&work), "42");
}

#[test]
fn timeout_with_due_fires() {
    let action = next_action(Err(RecvTimeoutError::Timeout), Some("flush".to_string()));
    assert!(matches!(action, LoopAction::Fire(name) if name == "flush"));
}

#[test]
fn timeout_without_due_is_idle() {
    let action = next_action(Err(RecvTimeoutError::Timeout), None);
    assert!(matches!(action, LoopAction::Idle));
}

#[test]
fn ok_work_takes_priority_over_a_pending_due_schedule() {
    let action = next_action(Ok(journal_event("Test")), Some("flush".to_string()));
    assert!(matches!(action, LoopAction::Handle(PluginWork::Event(_))));
}

#[test]
fn disconnected_exits() {
    let action = next_action(Err(RecvTimeoutError::Disconnected), None);
    assert!(matches!(action, LoopAction::Exit));
}

#[test]
fn stop_work_is_routed_to_loop_action_stop() {
    let action = next_action(Ok(PluginWork::Stop), None);
    assert!(matches!(action, LoopAction::Stop));

    let action_with_due = next_action(Ok(PluginWork::Stop), Some("flush".to_string()));
    assert!(matches!(action_with_due, LoopAction::Stop));
}

fn at(mono: u64) -> Clock {
    Clock { wall: 0, mono }
}

fn flushing() -> Vec<ScheduleRequest> {
    vec![ScheduleRequest {
        name: "flush".into(),
        spec: ScheduleSpec::IntervalSeconds(60),
        catch_up: false,
    }]
}

fn started(schedules: &Vec<ScheduleRequest>) -> PluginLoop {
    PluginLoop::start(schedules, at(0), &Vec::new())
}

#[test]
fn a_plugin_without_schedules_waits_for_an_hour() {
    let mut thread = started(&Vec::new());
    let command = thread.step(LoopEvent::Round { stop: false, clock: at(0) });
    assert!(matches!(command, LoopCommand::Wait { timeout: 3_600_000_000_000 }));
}

#[test]
fn a_schedule_fires_when_its_time_has_come() {
    let mut thread = started(&flushing());
    let command = thread.step(LoopEvent::Round { stop: false, clock: at(0) });
    assert!(matches!(command, LoopCommand::Wait { timeout: 60_000_000_000 }));
    let later = at(60_000_000_000);
    let command = thread.step(LoopEvent::Received {
        recv: Err(RecvTimeoutError::Timeout),
        clock: later,
    });
    assert!(matches!(command, LoopCommand::Fire(name) if name == "flush"));
    let command = thread.step(LoopEvent::Called { outcome: CallOutcome::Completed, clock: later });
    assert!(matches!(command, LoopCommand::Again));
}

#[test]
fn the_order_to_stop_overtakes_a_round() {
    let mut thread = started(&flushing());
    let command = thread.step(LoopEvent::Round { stop: true, clock: at(0) });
    assert!(matches!(command, LoopCommand::OnStop));
    let command = thread.step(LoopEvent::Round { stop: false, clock: at(0) });
    assert!(matches!(command, LoopCommand::Exit));
}

#[test]
fn a_plugin_that_is_too_slow_is_restarted_and_then_given_up() {
    let mut thread = started(&Vec::new());
    for strike in 1..=CALL_DEADLINE_STRIKES {
        thread.step(LoopEvent::Round { stop: false, clock: at(0) });
        let command = thread.step(LoopEvent::Received {
            recv: Ok(journal_event("Test")),
            clock: at(0),
        });
        assert!(matches!(command, LoopCommand::Handle(_)));
        let command = thread.step(LoopEvent::Called {
            outcome: CallOutcome::DeadlineExceeded("too slow".into()),
            clock: at(0),
        });
        if strike < CALL_DEADLINE_STRIKES {
            assert!(matches!(command, LoopCommand::Reload));
            assert_eq!(thread.generation, strike as u64);
            let command = thread.step(LoopEvent::Reloaded(Ok(())));
            assert!(matches!(command, LoopCommand::Again));
        } else {
            assert!(
                matches!(command, LoopCommand::Disable { reason } if reason.starts_with("too slow on 3 consecutive calls;"))
            );
        }
    }
}

#[test]
fn a_plugin_that_does_not_come_up_again_is_given_up() {
    let mut thread = started(&Vec::new());
    thread.step(LoopEvent::Round { stop: false, clock: at(0) });
    thread.step(LoopEvent::Received { recv: Ok(journal_event("Test")), clock: at(0) });
    thread.step(LoopEvent::Called {
        outcome: CallOutcome::DeadlineExceeded("too slow".into()),
        clock: at(0),
    });
    let command = thread.step(LoopEvent::Reloaded(Err(LoadFailure::Init("boom".into()))));
    assert!(matches!(
        command,
        LoopCommand::Disable { reason }
            if reason == "too slow, and the plugin could not be restarted: init() failed: boom"
    ));
}

#[test]
fn a_job_of_an_earlier_instance_is_passed_over() {
    let mut thread = started(&Vec::new());
    thread.generation = 2;
    thread.step(LoopEvent::Round { stop: false, clock: at(0) });
    let stale = PluginWork::JobComplete { generation: 1, job_id: 7, result_json: "{}".into() };
    let command = thread.step(LoopEvent::Received { recv: Ok(stale), clock: at(0) });
    assert!(matches!(command, LoopCommand::Again));
}

#[test]
fn a_caught_up_fire_is_recorded() {
    let schedules = vec![ScheduleRequest {
        name: "flush".into(),
        spec: ScheduleSpec::IntervalSeconds(60),
        catch_up: true,
    }];
    let mut thread = started(&schedules);
    thread.step(LoopEvent::Round { stop: false, clock: at(0) });
    let later = at(60_000_000_000);
    thread.step(LoopEvent::Received { recv: Err(RecvTimeoutError::Timeout), clock: later });
    let command = thread.step(LoopEvent::Called { outcome: CallOutcome::Completed, clock: later });
    assert!(matches!(command, LoopCommand::RecordFire(name) if name == "flush"));
    let command = thread.step(LoopEvent::Recorded { clock: later });
    assert!(matches!(command, LoopCommand::Again));
}

#[test]
fn a_broken_plugin_is_given_up_at_once() {
    let mut thread = started(&Vec::new());
    thread.step(LoopEvent::Round { stop: false, clock: at(0) });
    thread.step(LoopEvent::Received { recv: Ok(journal_event("Test")), clock: at(0) });
    let command = thread.step(LoopEvent::Called {
        outcome: CallOutcome::Faulted("trap".into()),
        clock: at(0),
    });
    assert!(matches!(command, LoopCommand::Disable { reason } if reason == "trap"));
}

#[test]
fn events_are_handed_over_with_their_parts() {
    let mut raw = serde_json::Map::new();
    raw.insert("a".into(), serde_json::Value::from(1));
    let (kind, timestamp, name, text, replay) = event_params(&Event::Journal {
        timestamp: "t".into(),
        event: "FSDJump".into(),
        raw: serde_json::Value::Object(raw),
        replay: true,
    });
    assert_eq!(kind, "journal");
    assert_eq!(timestamp.as_deref(), Some("t"));
    assert_eq!(name.as_deref(), Some("FSDJump"));
    assert_eq!(text, "{\"a\":1}");
    assert!(replay);
}
