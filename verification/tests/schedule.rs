use std::str::FromStr;

use chrono::{DateTime, Local, TimeZone};

use edlr_core::manifest::{ScheduleRequest, ScheduleSpec};
use edlr_core::schedule::{
    catch_up_fire, clamp_cron_fire, cron_moment, normalize_cron, split_nanos, Clock, LastFire,
    NextFire, ScheduleState, ScheduleView, MIN_FIRE_INTERVAL,
};

const SECOND: i64 = 1_000_000_000;

fn req(name: &str, spec: ScheduleSpec) -> ScheduleRequest {
    ScheduleRequest { name: name.to_string(), spec, catch_up: false }
}

fn catch_up_req(name: &str, cron: &str) -> ScheduleRequest {
    ScheduleRequest {
        name: name.to_string(),
        spec: ScheduleSpec::Cron(cron.to_string()),
        catch_up: true,
    }
}

fn local(y: i32, mo: u32, d: u32, h: u32, mi: u32, s: u32) -> DateTime<Local> {
    Local.with_ymd_and_hms(y, mo, d, h, mi, s).unwrap()
}

fn nanos(at: DateTime<Local>) -> i64 {
    at.timestamp_nanos_opt().unwrap()
}

struct FakeClock {
    wall0: i64,
    mono0: u64,
}

impl FakeClock {
    fn new(wall0: DateTime<Local>) -> FakeClock {
        FakeClock { wall0: nanos(wall0), mono0: 86_400 * 1_000_000_000 }
    }

    fn at(&self, offset: i64) -> Clock {
        self.skewed(offset, offset)
    }

    fn skewed(&self, mono_offset: i64, wall_offset: i64) -> Clock {
        Clock {
            wall: self.wall0 + wall_offset,
            mono: (self.mono0 as i64 + mono_offset) as u64,
        }
    }
}

fn secs(n: i64) -> i64 {
    n * SECOND
}

#[test]
fn interval_fires_after_the_interval() {
    let c = FakeClock::new(local(2026, 7, 28, 0, 0, 0));
    let t0 = c.at(secs(0));
    let mut s = ScheduleState::new(&vec![req("flush", ScheduleSpec::IntervalSeconds(60))], t0);
    assert_eq!(s.take_due(t0), None);
    assert_eq!(s.until_next(t0), Some(60_000_000_000));
    assert_eq!(s.take_due(c.at(secs(60))), Some("flush".to_string()));
}

#[test]
fn missed_fires_are_coalesced_to_one() {
    let c = FakeClock::new(local(2026, 7, 28, 0, 0, 0));
    let mut s = ScheduleState::new(
        &vec![req("flush", ScheduleSpec::IntervalSeconds(60))],
        c.at(secs(0)),
    );

    let t_later = c.at(secs(600));
    assert_eq!(s.take_due(t_later), Some("flush".to_string()));
    assert_eq!(s.take_due(t_later), None);
    let remaining = s.until_next(t_later).expect("schedule should remain");
    assert!(remaining > 0);
}

#[test]
fn interval_below_minimum_is_clamped_to_five_seconds() {
    let c = FakeClock::new(local(2026, 7, 28, 0, 0, 0));
    let t0 = c.at(secs(0));
    let mut s = ScheduleState::new(&vec![req("tick", ScheduleSpec::IntervalSeconds(1))], t0);
    assert_eq!(s.until_next(t0), Some(5_000_000_000));
    assert_eq!(s.take_due(c.at(secs(4))), None);
    assert_eq!(s.take_due(c.at(secs(5))), Some("tick".to_string()));
}

#[test]
fn interval_ignores_a_backward_wall_clock_step() {
    let c = FakeClock::new(local(2026, 7, 28, 0, 0, 0));
    let mut s = ScheduleState::new(
        &vec![req("flush", ScheduleSpec::IntervalSeconds(60))],
        c.at(secs(0)),
    );

    let stepped_back = c.skewed(secs(60), -secs(3600));
    assert_eq!(s.take_due(stepped_back), Some("flush".to_string()));
}

#[test]
fn interval_ignores_a_forward_wall_clock_step() {
    let c = FakeClock::new(local(2026, 7, 28, 0, 0, 0));
    let mut s = ScheduleState::new(
        &vec![req("flush", ScheduleSpec::IntervalSeconds(60))],
        c.at(secs(0)),
    );

    let stepped_forward = c.skewed(secs(10), secs(3600));
    assert_eq!(s.take_due(stepped_forward), None);
    assert_eq!(s.until_next(stepped_forward), Some(50_000_000_000));
}

#[test]
fn cron_follows_a_forward_wall_clock_step() {
    let c = FakeClock::new(local(2026, 7, 28, 8, 59, 0));
    let mut s = ScheduleState::new(
        &vec![req("daily", ScheduleSpec::Cron("0 9 * * *".to_string()))],
        c.at(secs(0)),
    );

    let stepped = c.skewed(secs(1), secs(60));
    assert_eq!(s.take_due(stepped), Some("daily".to_string()));
}

#[test]
fn a_catch_up_schedule_fires_immediately_for_a_missed_instant() {
    let c = FakeClock::new(local(2026, 7, 28, 12, 0, 0));
    let last_fires = vec![LastFire {
        name: "daily".to_string(),
        at: nanos(local(2026, 7, 27, 9, 0, 0)),
    }];

    let mut s = ScheduleState::new_with_catch_up(
        &vec![catch_up_req("daily", "0 9 * * *")],
        c.at(secs(0)),
        &last_fires,
    );

    assert_eq!(s.take_due(c.at(secs(0))), Some("daily".to_string()));
    assert_eq!(s.take_due(c.at(secs(0))), None);
}

#[test]
fn many_missed_instants_are_coalesced_into_one_catch_up_fire() {
    let c = FakeClock::new(local(2026, 7, 28, 12, 0, 0));
    let last_fires = vec![LastFire {
        name: "daily".to_string(),
        at: nanos(local(2026, 4, 20, 9, 0, 0)),
    }];

    let mut s = ScheduleState::new_with_catch_up(
        &vec![catch_up_req("daily", "0 9 * * *")],
        c.at(secs(0)),
        &last_fires,
    );

    assert_eq!(s.take_due(c.at(secs(0))), Some("daily".to_string()));
    assert_eq!(s.take_due(c.at(secs(0))), None);
}

#[test]
fn a_catch_up_schedule_does_not_fire_when_nothing_was_missed() {
    let c = FakeClock::new(local(2026, 7, 28, 12, 0, 0));
    let last_fires = vec![LastFire {
        name: "daily".to_string(),
        at: nanos(local(2026, 7, 28, 9, 0, 0)),
    }];

    let mut s = ScheduleState::new_with_catch_up(
        &vec![catch_up_req("daily", "0 9 * * *")],
        c.at(secs(0)),
        &last_fires,
    );

    assert_eq!(s.take_due(c.at(secs(0))), None);
}

#[test]
fn a_catch_up_schedule_does_not_fire_without_a_recorded_last_fire() {
    let c = FakeClock::new(local(2026, 7, 28, 12, 0, 0));

    let mut s = ScheduleState::new_with_catch_up(
        &vec![catch_up_req("daily", "0 9 * * *")],
        c.at(secs(0)),
        &Vec::new(),
    );

    assert_eq!(s.take_due(c.at(secs(0))), None);
}

#[test]
fn a_schedule_without_catch_up_ignores_recorded_last_fires() {
    let c = FakeClock::new(local(2026, 7, 28, 12, 0, 0));
    let last_fires = vec![LastFire {
        name: "daily".to_string(),
        at: nanos(local(2026, 7, 27, 9, 0, 0)),
    }];

    let mut s = ScheduleState::new_with_catch_up(
        &vec![req("daily", ScheduleSpec::Cron("0 9 * * *".to_string()))],
        c.at(secs(0)),
        &last_fires,
    );

    assert_eq!(s.take_due(c.at(secs(0))), None);
}

#[test]
fn is_catch_up_reports_only_the_declared_schedules() {
    let c = FakeClock::new(local(2026, 7, 28, 12, 0, 0));
    let s = ScheduleState::new(
        &vec![
            catch_up_req("daily", "0 9 * * *"),
            req("flush", ScheduleSpec::IntervalSeconds(60)),
        ],
        c.at(secs(0)),
    );

    assert!(s.is_catch_up("daily"));
    assert!(!s.is_catch_up("flush"));
    assert!(!s.is_catch_up("nonexistent"));
}

#[test]
fn cron_fires_at_the_wall_clock_time() {
    let c = FakeClock::new(local(2026, 7, 28, 8, 59, 0));
    let t0 = c.at(secs(0));
    let mut s = ScheduleState::new(
        &vec![req("daily", ScheduleSpec::Cron("0 9 * * *".to_string()))],
        t0,
    );
    assert_eq!(s.until_next(t0), Some(60_000_000_000));
    assert_eq!(s.take_due(t0), None);
    assert_eq!(s.take_due(c.at(secs(60))), Some("daily".to_string()));
}

#[test]
fn two_schedules_fire_independently() {
    let c = FakeClock::new(local(2026, 7, 28, 8, 58, 0));
    let mut s = ScheduleState::new(
        &vec![
            req("flush", ScheduleSpec::IntervalSeconds(70)),
            req("daily", ScheduleSpec::Cron("0 9 * * *".to_string())),
        ],
        c.at(secs(0)),
    );

    let t1 = c.at(secs(70));
    assert_eq!(s.take_due(t1), Some("flush".to_string()));
    assert_eq!(s.take_due(t1), None);

    let t2 = c.at(secs(120));
    assert_eq!(s.take_due(t2), Some("daily".to_string()));
    assert_eq!(s.take_due(t2), None);
}

#[test]
fn take_due_returns_simultaneous_schedules_in_declaration_order() {
    let c = FakeClock::new(local(2026, 7, 28, 0, 0, 0));
    let mut s = ScheduleState::new(
        &vec![
            req("a", ScheduleSpec::IntervalSeconds(60)),
            req("b", ScheduleSpec::IntervalSeconds(60)),
        ],
        c.at(secs(0)),
    );
    let t1 = c.at(secs(60));
    assert_eq!(s.take_due(t1), Some("a".to_string()));
    assert_eq!(s.take_due(t1), Some("b".to_string()));
    assert_eq!(s.take_due(t1), None);
}

#[test]
fn next_times_reports_each_schedules_next_fire_in_declaration_order() {
    let wall0 = local(2026, 7, 28, 8, 58, 0);
    let c = FakeClock::new(wall0);
    let t0 = c.at(secs(0));
    let s = ScheduleState::new(
        &vec![
            req("flush", ScheduleSpec::IntervalSeconds(60)),
            req("daily", ScheduleSpec::Cron("0 9 * * *".to_string())),
        ],
        t0,
    );

    let next = s.next_times(t0);
    assert_eq!(next.len(), 2);
    assert_eq!(next[0].0, "flush");
    assert_eq!(next[0].1, (nanos(wall0) + secs(60)) as i128);
    assert_eq!(next[1].0, "daily");
    assert_eq!(next[1].1, nanos(local(2026, 7, 28, 9, 0, 0)) as i128);
}

#[test]
fn cron_gap_below_minimum_is_clamped_and_warns_once() {
    let now = nanos(local(2026, 7, 28, 0, 0, 0));
    let schedule = cron::Schedule::from_str("* * * * * * *").expect("valid cron");
    let mut clamp_warned = false;

    let next1 = ScheduleState::next_cron_fire(&schedule, now, &mut clamp_warned);
    assert_eq!(next1, now as i128 + MIN_FIRE_INTERVAL as i128);
    assert!(clamp_warned, "first clamp should mark clamp_warned");

    let next2 = ScheduleState::next_cron_fire(&schedule, now, &mut clamp_warned);
    assert_eq!(next2, next1);
    assert!(clamp_warned);
}

#[test]
fn an_unreadable_cron_expression_never_comes_due() {
    let c = FakeClock::new(local(2026, 7, 28, 0, 0, 0));
    let mut s = ScheduleState::new(
        &vec![req("broken", ScheduleSpec::Cron("not a cron".to_string()))],
        c.at(secs(0)),
    );
    assert_eq!(s.take_due(c.at(secs(86_400 * 365))), None);
    assert_eq!(s.next_times(c.at(0))[0].1, 32_472_144_000_000_000_000);
}

#[test]
fn a_cron_time_is_taken_unless_it_comes_too_soon() {
    assert_eq!(clamp_cron_fire(Some(7_000_000_000), 1_000_000_000, false), (7_000_000_000, false));
    assert_eq!(clamp_cron_fire(Some(2_000_000_000), 1_000_000_000, false), (6_000_000_000, true));
    assert_eq!(clamp_cron_fire(None, 1_000_000_000, true), (6_000_000_000, true));
}

#[test]
fn a_missed_time_is_due_at_once_and_a_coming_one_is_not() {
    let planned = NextFire::Wall(500);
    assert_eq!(catch_up_fire(planned, Some(90), 100), NextFire::Wall(100));
    assert_eq!(catch_up_fire(planned, Some(101), 100), planned);
    assert_eq!(catch_up_fire(planned, None, 100), planned);
}

#[test]
fn moments_before_the_epoch_split_downwards() {
    assert_eq!(split_nanos(1_500_000_000), (1, 500_000_000));
    assert_eq!(split_nanos(-1), (-1, 999_999_999));
    assert_eq!(split_nanos(-2_000_000_000), (-2, 0));
}

#[test]
fn five_columns_become_seven() {
    assert_eq!(normalize_cron("0 9 * * *"), "0 0 9 * * * *");
}

#[test]
fn a_view_knows_what_was_published_last() {
    let c = FakeClock::new(local(2026, 7, 28, 0, 0, 0));
    let t0 = c.at(0);
    let s = ScheduleState::new(&vec![req("flush", ScheduleSpec::IntervalSeconds(60))], t0);
    let mut view = ScheduleView::new();
    assert_eq!(view.published("flush"), None);
    view.publish(&s, t0);
    assert_eq!(view.published("flush"), Some(t0.wall as i128 + 60_000_000_000));
    assert_eq!(view.published("other"), None);
}

#[test]
fn cron_times_are_counted_in_nanoseconds() {
    assert_eq!(cron_moment(Some((2, 0))), Some(2_000_000_000));
    assert_eq!(cron_moment(Some((-1, 5))), Some(-999_999_995));
    assert_eq!(cron_moment(None), None);
}

#[test]
fn every_due_schedule_is_taken_once_and_in_order() {
    let c = FakeClock::new(local(2026, 7, 28, 8, 58, 0));
    let mut s = ScheduleState::new(
        &vec![
            req("late", ScheduleSpec::IntervalSeconds(3600)),
            req("daily", ScheduleSpec::Cron("0 9 * * *".to_string())),
            req("flush", ScheduleSpec::IntervalSeconds(60)),
        ],
        c.at(secs(0)),
    );
    let now = c.at(secs(180));
    let mut taken: Vec<String> = Vec::new();
    while let Some(name) = s.take_due(now) {
        taken.push(name);
    }
    assert_eq!(taken, vec!["daily".to_string(), "flush".to_string()]);
}

#[test]
fn a_cron_schedule_ignores_the_monotonic_clock() {
    let c = FakeClock::new(local(2026, 7, 28, 8, 58, 0));
    let mut s = ScheduleState::new(
        &vec![req("daily", ScheduleSpec::Cron("0 9 * * *".to_string()))],
        c.at(secs(0)),
    );
    assert_eq!(s.take_due(c.skewed(secs(7200), secs(60))), None);
    assert_eq!(s.take_due(c.skewed(secs(0), secs(120))), Some("daily".to_string()));
}
