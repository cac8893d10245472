//! When a plugin's schedules fire next.
//!
//! Nothing here reads a clock: the time comes in as a [`Clock`]. An interval
//! counts elapsed time and follows the monotonic reading; a cron expression
//! names times of day and follows the wall reading, in the local time zone.

use vstd::prelude::*;

use crate::manifest::{ScheduleRequest, ScheduleSpec};
use crate::text::{joined3, same_text};

use std::str::FromStr;

use chrono::TimeZone;

verus! {

/// The least time between two fires of one schedule, in nanoseconds.
pub const MIN_FIRE_INTERVAL: u64 = 5_000_000_000;

/// Where a schedule waits whose cron expression cannot be read: the first of
/// January 2999, in nanoseconds since the Unix epoch.
pub const FAR_FUTURE: i128 = 32_472_144_000_000_000_000;

/// The longest time that is added to a wall time for display, in nanoseconds:
/// what `chrono` can hold as a difference.
pub const MAX_WALL_SHIFT: u128 = 9_223_372_036_854_775_807_000_000;

/// The time, read from both clocks at once.
#[derive(Debug, Clone, Copy, PartialEq, Eq, Structural)]
pub struct Clock {
    /// Nanoseconds since the Unix epoch.
    pub wall: i64,
    /// Nanoseconds since some moment that stays fixed while the process runs.
    pub mono: u64,
}

impl Clock {
    pub open spec fn wall_at_spec(self, mono: int) -> int {
        if self.mono <= mono && mono - self.mono <= MAX_WALL_SHIFT {
            self.wall + (mono - self.mono)
        } else {
            self.wall as int
        }
    }

    /// The wall time of a moment on the monotonic clock, for display: the
    /// present one if the moment is past.
    pub fn wall_at(&self, mono: u128) -> (r: i128)
        requires
            mono <= u64::MAX as u128 * 2_000_000_000,
        ensures
            r == self.wall_at_spec(mono as int),
    {
        if (self.mono as u128) <= mono && mono - (self.mono as u128) <= MAX_WALL_SHIFT {
            self.wall as i128 + (mono - self.mono as u128) as i128
        } else {
            self.wall as i128
        }
    }
}

/// `cron::Schedule`: a cron expression that has been read.
#[verifier::external_type_specification]
#[verifier::external_body]
pub struct ExSchedule(cron::Schedule);

/// Whether `cron` reads a text as an expression.
pub uninterp spec fn cron_accepts(expression: Seq<char>) -> bool;

/// The expression that a schedule was read from.
pub uninterp spec fn cron_source(schedule: cron::Schedule) -> Seq<char>;

/// Whether `cron` gives a time as the first of an expression after a moment, on some
/// machine. The moment is in nanoseconds since the Unix epoch, the time in seconds
/// and nanoseconds; there may be none.
pub uninterp spec fn cron_gives(source: Seq<char>, after: int, time: Option<(i64, u32)>) -> bool;

/// `cron::Schedule::from_str`: the schedule that an expression stands for, if
/// it can be read. The schedule keeps the expression as its source.
#[verifier::external_body]
fn cron_schedule(expression: &str) -> (r: Option<cron::Schedule>)
    ensures
        r is Some <==> cron_accepts(expression@),
        r is Some ==> cron_source(r->0) == expression@,
{
    cron::Schedule::from_str(expression).ok()
}

/// `cron::Schedule::after`, its first item: the next time of a schedule after
/// a moment, in the machine's time zone. Both times are seconds since the Unix
/// epoch and nanoseconds. The time is one that the schedule's expression gives after
/// that moment. Which one it is rests on the machine's time zone; it falls on a whole
/// second.
#[verifier::external_body]
fn cron_time_after(schedule: &cron::Schedule, secs: i64, nanos: u32) -> (r: Option<(i64, u32)>)
    requires
        -9_223_372_037 <= secs <= 9_223_372_036,
        nanos < 1_000_000_000,
    ensures
        cron_gives(cron_source(*schedule), secs * 1_000_000_000 + nanos, r),
        r is Some ==> (r->0).1 == 0,
{
    let after = chrono::Local.timestamp_opt(secs, nanos).single()?;
    let next = schedule.after(&after).next()?;
    Some((next.timestamp(), next.timestamp_subsec_nanos()))
}

/// A moment as whole seconds since the Unix epoch and the nanoseconds past
/// them.
pub fn split_nanos(at: i64) -> (r: (i64, u32))
    ensures
        at == r.0 * 1_000_000_000 + r.1,
        r.1 < 1_000_000_000,
        -9_223_372_037 <= r.0 <= 9_223_372_036,
{
    if at >= 0 {
        let secs: i64 = at / 1_000_000_000;
        let nanos: i64 = at % 1_000_000_000;
        (secs, nanos as u32)
    } else {
        let back: i128 = -(at as i128);
        let secs: i128 = (back + 999_999_999) / 1_000_000_000;
        let nanos: i128 = secs * 1_000_000_000 - back;
        (-(secs as i64), nanos as u32)
    }
}

/// A time in seconds and nanoseconds, in nanoseconds.
pub open spec fn moment_of(time: Option<(i64, u32)>) -> Option<i128> {
    match time {
        Some((secs, nanos)) => Some((secs * 1_000_000_000 + nanos) as i128),
        None => None,
    }
}

/// Whether an expression gives a time as its first after a moment, on some machine.
/// Both are in nanoseconds since the Unix epoch.
pub open spec fn may_follow(source: Seq<char>, after: int, next: Option<i128>) -> bool {
    exists|time: Option<(i64, u32)>| #[trigger]
        cron_gives(source, after, time) && next == moment_of(time)
}

/// The next time of a schedule after a moment, in nanoseconds since the Unix
/// epoch, as the machine's time zone has it.
fn cron_next(schedule: &cron::Schedule, after: i64) -> (r: Option<i128>)
    ensures
        may_follow(cron_source(*schedule), after as int, r),
        r matches Some(at) ==> NextFire::Wall(at).in_range(),
{
    let (secs, nanos) = split_nanos(after);
    cron_moment(cron_time_after(schedule, secs, nanos))
}

/// A time in seconds since the Unix epoch and nanoseconds, in nanoseconds.
pub fn cron_moment(time: Option<(i64, u32)>) -> (r: Option<i128>)
    ensures
        r == moment_of(time),
        r matches Some(at) ==> at == (time->0).0 * 1_000_000_000 + (time->0).1,
{
    match time {
        Some((secs, nanos)) => Some(secs as i128 * 1_000_000_000 + nanos as i128),
        None => None,
    }
}

/// When a cron schedule fires that has `candidate` as its next time: there, but
/// not before the least interval is over. The flag says that a fire was put
/// off.
pub open spec fn clamped(candidate: Option<i128>, now: i64, warned: bool) -> (int, bool) {
    let earliest = now + MIN_FIRE_INTERVAL;
    match candidate {
        Some(at) => if at < earliest {
            (earliest, true)
        } else {
            (at as int, warned)
        },
        None => (earliest, warned),
    }
}

/// When a cron schedule fires whose next time is `candidate`.
pub fn clamp_cron_fire(candidate: Option<i128>, now: i64, warned: bool) -> (r: (i128, bool))
    ensures
        (r.0 as int, r.1) == clamped(candidate, now, warned),
{
    let earliest: i128 = now as i128 + MIN_FIRE_INTERVAL as i128;
    match candidate {
        Some(at) => if at < earliest {
            (earliest, true)
        } else {
            (at, warned)
        },
        None => (earliest, warned),
    }
}

/// How a schedule fires.
#[derive(Debug)]
pub enum Fire {
    /// Every so many nanoseconds.
    Interval(u128),
    /// At the times of a cron schedule. The flag is set once a fire was put off
    /// to keep the least interval.
    Cron { schedule: cron::Schedule, clamp_warned: bool },
    /// By a cron expression that cannot be read.
    Unreadable,
}

/// When a schedule fires next: on the monotonic clock or by the wall.
#[derive(Debug, Clone, Copy, PartialEq, Eq, Structural)]
pub enum NextFire {
    Mono(u128),
    Wall(i128),
}

impl NextFire {
    /// Whether the time is reached.
    pub open spec fn due(self, clock: Clock) -> bool {
        match self {
            NextFire::Mono(at) => at <= clock.mono,
            NextFire::Wall(at) => at <= clock.wall,
        }
    }

    /// The time that is left, nothing if it is over.
    pub open spec fn left(self, clock: Clock) -> nat {
        match self {
            NextFire::Mono(at) => if at <= clock.mono {
                0
            } else {
                (at - clock.mono) as nat
            },
            NextFire::Wall(at) => if at <= clock.wall {
                0
            } else {
                (at - clock.wall) as nat
            },
        }
    }

    /// The wall time of the fire.
    pub open spec fn wall_time(self, clock: Clock) -> int {
        match self {
            NextFire::Mono(at) => clock.wall_at_spec(at as int),
            NextFire::Wall(at) => at as int,
        }
    }

    /// The times that can be computed with.
    pub open spec fn in_range(self) -> bool {
        match self {
            NextFire::Mono(at) => at <= u64::MAX as u128 * 2_000_000_000,
            NextFire::Wall(at) => -(u64::MAX as i128) * 1_000_000_000 <= at <= u64::MAX as i128
                * 1_000_000_000,
        }
    }

    fn remaining(&self, clock: &Clock) -> (r: u128)
        requires
            self.in_range(),
        ensures
            r == self.left(*clock),
    {
        match self {
            NextFire::Mono(at) => if *at <= clock.mono as u128 {
                0
            } else {
                *at - clock.mono as u128
            },
            NextFire::Wall(at) => if *at <= clock.wall as i128 {
                0
            } else {
                (*at - clock.wall as i128) as u128
            },
        }
    }

    fn is_due(&self, clock: &Clock) -> (r: bool)
        ensures
            r == self.due(*clock),
    {
        match self {
            NextFire::Mono(at) => *at <= clock.mono as u128,
            NextFire::Wall(at) => *at <= clock.wall as i128,
        }
    }

    fn wall(&self, clock: &Clock) -> (r: i128)
        requires
            self.in_range(),
        ensures
            r == self.wall_time(*clock),
    {
        match self {
            NextFire::Mono(at) => clock.wall_at(*at),
            NextFire::Wall(at) => *at,
        }
    }
}

/// When a schedule fires whose first time after its last fire is known: at once
/// if that time has passed, and as planned if not.
pub open spec fn caught_up(next: NextFire, first_after_last: Option<i128>, now: i64) -> NextFire {
    if first_after_last is Some && first_after_last->0 <= now {
        NextFire::Wall(now as i128)
    } else {
        next
    }
}

/// When a schedule fires that may have missed a time since its last fire.
pub fn catch_up_fire(next: NextFire, first_after_last: Option<i128>, now: i64) -> (r: NextFire)
    ensures
        r == caught_up(next, first_after_last, now),
{
    match first_after_last {
        Some(at) => if at <= now as i128 {
            NextFire::Wall(now as i128)
        } else {
            next
        },
        None => next,
    }
}

/// One schedule of a plugin.
#[derive(Debug)]
pub struct Entry {
    pub name: String,
    pub fire: Fire,
    pub next: NextFire,
    pub catch_up: bool,
}

impl Fire {
    /// An interval is never below the least one.
    pub open spec fn well_formed(self) -> bool {
        match self {
            Fire::Interval(interval) => MIN_FIRE_INTERVAL <= interval <= u64::MAX as u128
                * 1_000_000_000,
            _ => true,
        }
    }

    /// Whether a time is on the clock that the rule goes by: the monotonic one for an
    /// interval, and the wall for all else.
    pub open spec fn counts_on(self, next: NextFire) -> bool {
        self is Interval <==> next is Mono
    }

    /// Whether two schedules fire by the same rule.
    pub open spec fn same_rule(self, other: Fire) -> bool {
        match (self, other) {
            (Fire::Interval(a), Fire::Interval(b)) => a == b,
            (Fire::Cron { schedule: a, .. }, Fire::Cron { schedule: b, .. }) => a == b,
            (Fire::Unreadable, Fire::Unreadable) => true,
            _ => false,
        }
    }
}

impl Entry {
    pub open spec fn well_formed(self) -> bool {
        self.fire.well_formed() && self.next.in_range() && self.fire.counts_on(self.next)
    }
}

/// Whether a fire leads from `next` to `later`, given the time it happens at.
///
/// An interval goes on in whole steps to the first one in the future, however
/// many it passed. A cron schedule goes on to its next time, at least the least
/// interval away.
pub open spec fn fires_on(
    fire: Fire,
    next: NextFire,
    clock: Clock,
    fire_later: Fire,
    later: NextFire,
) -> bool {
    &&& fire.same_rule(fire_later)
    &&& match (fire, next) {
        (Fire::Interval(interval), NextFire::Mono(at)) => {
            &&& later matches NextFire::Mono(then)
            &&& first_step_after(at as int, interval as int, clock.mono as int, then as int)
        },
        (Fire::Cron { schedule, clamp_warned }, NextFire::Wall(_)) => cron_fire(
            cron_source(schedule),
            clock.wall,
            clamp_warned,
            later,
            fire_later->clamp_warned,
        ),
        (Fire::Unreadable, NextFire::Wall(_)) => later == NextFire::Wall(
            (clock.wall + MIN_FIRE_INTERVAL) as i128,
        ),
        _ => false,
    }
}

/// Whether `then` is the first of `at`, `at + step`, `at + 2 * step`, ... that
/// is past `now`.
pub open spec fn first_step_after(at: int, step: int, now: int, then: int) -> bool {
    &&& then > now
    &&& exists|k: int| #![trigger k * step] k >= 0 && then == at + k * step
    &&& then == at || then - step <= now
}

/// Whether a schedule by an expression fires at `later`: at the first time that the
/// expression gives after now, put off to keep the least interval.
pub open spec fn cron_fire(
    source: Seq<char>,
    now: i64,
    warned: bool,
    later: NextFire,
    warned_later: bool,
) -> bool {
    &&& later matches NextFire::Wall(at)
    &&& exists|candidate: Option<i128>| #[trigger]
        may_follow(source, now as int, candidate) && (at as int, warned_later) == clamped(
            candidate,
            now,
            warned,
        )
}

/// The last recorded fire of a schedule, in nanoseconds since the Unix epoch.
#[derive(Debug, PartialEq, Eq)]
pub struct LastFire {
    pub name: String,
    pub at: i64,
}

/// The seven-column form of a five-column expression: at second zero of the
/// times it names, in every year.
pub fn normalize_cron(expression: &str) -> (r: String)
    ensures
        r@ == "0 "@ + expression@ + " *"@,
{
    joined3("0 ", expression, " *")
}

/// What a schedule is before it ever fired.
pub open spec fn fresh(req: ScheduleRequest, clock: Clock, entry: Entry) -> bool {
    &&& entry.name@ == req.name@
    &&& entry.catch_up == req.catch_up
    &&& match req.spec {
        ScheduleSpec::IntervalSeconds(secs) => {
            let interval = effective_interval(secs as nat);
            entry.fire == Fire::Interval(interval as u128) && entry.next == NextFire::Mono(
                (clock.mono + interval) as u128,
            )
        },
        ScheduleSpec::Cron(expression) => if cron_accepts("0 "@ + expression@ + " *"@) {
            &&& entry.fire matches Fire::Cron { schedule, clamp_warned }
            &&& cron_source(schedule) == "0 "@ + expression@ + " *"@
            &&& cron_fire(
                "0 "@ + expression@ + " *"@,
                clock.wall,
                false,
                entry.next,
                clamp_warned,
            )
        } else {
            entry.fire == Fire::Unreadable && entry.next == NextFire::Wall(FAR_FUTURE)
        },
    }
}

/// The nanoseconds between two fires of an interval schedule.
pub open spec fn effective_interval(secs: nat) -> nat {
    if secs * 1_000_000_000 < MIN_FIRE_INTERVAL {
        MIN_FIRE_INTERVAL as nat
    } else {
        secs * 1_000_000_000
    }
}

/// The first recorded fire under a name.
pub open spec fn recorded(last_fires: Seq<LastFire>, name: Seq<char>) -> Option<i64>
    decreases last_fires.len(),
{
    if last_fires.len() == 0 {
        None
    } else if last_fires[0].name@ == name {
        Some(last_fires[0].at)
    } else {
        recorded(last_fires.drop_first(), name)
    }
}

fn last_fire_of(last_fires: &Vec<LastFire>, name: &str) -> (r: Option<i64>)
    ensures
        r == recorded(last_fires@, name@),
{
    let mut i: usize = 0;
    assert(last_fires@.skip(0) =~= last_fires@);
    while i < last_fires.len()
        invariant
            i <= last_fires.len(),
            recorded(last_fires@, name@) == recorded(last_fires@.skip(i as int), name@),
        decreases last_fires.len() - i,
    {
        assert(last_fires@.skip(i as int).drop_first() =~= last_fires@.skip(i + 1));
        if same_text(last_fires[i].name.as_str(), name) {
            return Some(last_fires[i].at);
        }
        i = i + 1;
    }
    None
}

/// The schedules of one plugin and when each fires next.
#[derive(Debug)]
pub struct ScheduleState {
    pub entries: Vec<Entry>,
}

impl ScheduleState {
    pub open spec fn well_formed(self) -> bool {
        forall|i: int| 0 <= i < self.entries.len() ==> (#[trigger] self.entries@[i]).well_formed()
    }

    /// Whether the schedule at an index has reached its time.
    pub open spec fn due(self, i: int, clock: Clock) -> bool {
        self.entries@[i].next.due(clock)
    }

    /// The schedules of a plugin that starts now.
    pub fn new(schedules: &Vec<ScheduleRequest>, clock: Clock) -> (r: ScheduleState)
        ensures
            r.well_formed(),
            r.entries.len() == schedules.len(),
            forall|i: int|
                0 <= i < schedules.len() ==> fresh(schedules@[i], clock, #[trigger] r.entries@[i]),
    {
        let none: Vec<LastFire> = Vec::new();
        let r = ScheduleState::new_with_catch_up(schedules, clock, &none);
        assert forall|i: int| 0 <= i < schedules.len() implies fresh(
            schedules@[i],
            clock,
            #[trigger] r.entries@[i],
        ) by {
            assert(starts(
                schedules@[i],
                clock,
                recorded(none@, schedules@[i].name@),
                r.entries@[i],
            ));
        }
        r
    }

    /// The schedules of a plugin that starts now, of which some fired before.
    ///
    /// A schedule that asks to catch up, and has a recorded fire, is due at once
    /// if one of its cron times has passed since. However many have passed, it
    /// is due once.
    pub fn new_with_catch_up(
        schedules: &Vec<ScheduleRequest>,
        clock: Clock,
        last_fires: &Vec<LastFire>,
    ) -> (r: ScheduleState)
        ensures
            r.well_formed(),
            r.entries.len() == schedules.len(),
            forall|i: int|
                0 <= i < schedules.len() ==> #[trigger] starts(
                    schedules@[i],
                    clock,
                    recorded(last_fires@, schedules@[i].name@),
                    r.entries@[i],
                ),
    {
        let mut entries: Vec<Entry> = Vec::new();
        let mut i: usize = 0;
        while i < schedules.len()
            invariant
                i <= schedules.len(),
                entries.len() == i,
                forall|j: int| 0 <= j < i ==> (#[trigger] entries@[j]).well_formed(),
                forall|j: int|
                    0 <= j < i ==> #[trigger] starts(
                        schedules@[j],
                        clock,
                        recorded(last_fires@, schedules@[j].name@),
                        entries@[j],
                    ),
            decreases schedules.len() - i,
        {
            let req = &schedules[i];
            let mut entry = ScheduleState::build_entry(req, clock);
            let ghost planned = entry;
            assert(fresh(*req, clock, planned));
            if req.catch_up {
                match last_fire_of(last_fires, req.name.as_str()) {
                    Some(last) => ScheduleState::apply_catch_up(&mut entry, last, clock),
                    None => {},
                }
            }
            assert(starts_from(
                planned,
                clock,
                if req.catch_up {
                    recorded(last_fires@, req.name@)
                } else {
                    None
                },
                entry,
            ));
            entries.push(entry);
            i = i + 1;
        }
        ScheduleState { entries }
    }

    /// Makes a cron schedule due that missed a time since its last fire.
    fn apply_catch_up(entry: &mut Entry, last_fire: i64, clock: Clock)
        requires
            old(entry).well_formed(),
        ensures
            final(entry).well_formed(),
            starts_from(*old(entry), clock, Some(last_fire), *final(entry)),
    {
        let first = match &entry.fire {
            Fire::Cron { schedule, clamp_warned: _ } => cron_next(schedule, last_fire),
            _ => None,
        };
        entry.next = catch_up_fire(entry.next, first, clock.wall);
        assert(entry.fire is Cron ==> catches_up_from(
            cron_source(old(entry).fire->schedule),
            last_fire,
            *old(entry),
            clock,
            *entry,
        ));
    }

    fn build_entry(req: &ScheduleRequest, clock: Clock) -> (r: Entry)
        ensures
            r.well_formed(),
            fresh(*req, clock, r),
    {
        match &req.spec {
            ScheduleSpec::IntervalSeconds(secs) => {
                let asked: u128 = *secs as u128 * 1_000_000_000;
                let effective: u128 = if asked < MIN_FIRE_INTERVAL as u128 {
                    MIN_FIRE_INTERVAL as u128
                } else {
                    asked
                };
                Entry {
                    name: req.name.clone(),
                    fire: Fire::Interval(effective),
                    next: NextFire::Mono(clock.mono as u128 + effective),
                    catch_up: req.catch_up,
                }
            },
            ScheduleSpec::Cron(expression) => {
                let normalized = normalize_cron(expression.as_str());
                match cron_schedule(normalized.as_str()) {
                    Some(schedule) => {
                        let mut clamp_warned = false;
                        let next = ScheduleState::next_cron_fire(
                            &schedule,
                            clock.wall,
                            &mut clamp_warned,
                        );
                        Entry {
                            name: req.name.clone(),
                            fire: Fire::Cron { schedule, clamp_warned },
                            next: NextFire::Wall(next),
                            catch_up: req.catch_up,
                        }
                    },
                    None => Entry {
                        name: req.name.clone(),
                        fire: Fire::Unreadable,
                        next: NextFire::Wall(FAR_FUTURE),
                        catch_up: req.catch_up,
                    },
                }
            },
        }
    }

    /// The next fire of a cron schedule: its next time, put off to keep the
    /// least interval. The flag is set when a fire is put off and stays set.
    pub fn next_cron_fire(schedule: &cron::Schedule, now: i64, clamp_warned: &mut bool) -> (r: i128)
        ensures
            cron_fire(
                cron_source(*schedule),
                now,
                *old(clamp_warned),
                NextFire::Wall(r),
                *final(clamp_warned),
            ),
            r >= now + MIN_FIRE_INTERVAL,
            NextFire::Wall(r).in_range(),
    {
        let candidate = cron_next(schedule, now);
        let (next, warned) = clamp_cron_fire(candidate, now, *clamp_warned);
        assert(may_follow(cron_source(*schedule), now as int, candidate));
        *clamp_warned = warned;
        next
    }

    /// Every schedule's name and the wall time of its next fire, in declaration
    /// order.
    pub fn next_times(&self, clock: Clock) -> (r: Vec<(String, i128)>)
        requires
            self.well_formed(),
        ensures
            r.len() == self.entries.len(),
            forall|i: int|
                0 <= i < r.len() ==> (#[trigger] r@[i]).0@ == self.entries@[i].name@ && r@[i].1
                    == self.entries@[i].next.wall_time(clock),
    {
        let mut times: Vec<(String, i128)> = Vec::new();
        let mut i: usize = 0;
        while i < self.entries.len()
            invariant
                self.well_formed(),
                i <= self.entries.len(),
                times.len() == i,
                forall|j: int|
                    0 <= j < i ==> (#[trigger] times@[j]).0@ == self.entries@[j].name@ && times@[j].1
                        == self.entries@[j].next.wall_time(clock),
            decreases self.entries.len() - i,
        {
            let entry = &self.entries[i];
            times.push((entry.name.clone(), entry.next.wall(&clock)));
            i = i + 1;
        }
        times
    }

    /// Whether a schedule of that name asks to catch up.
    pub fn is_catch_up(&self, name: &str) -> (r: bool)
        ensures
            r == exists|i: int| #![trigger self.entries@[i]]
                0 <= i < self.entries.len() && self.entries@[i].name@ == name@
                    && self.entries@[i].catch_up,
    {
        let mut i: usize = 0;
        while i < self.entries.len()
            invariant
                i <= self.entries.len(),
                forall|j: int|
                    0 <= j < i ==> !((#[trigger] self.entries@[j]).name@ == name@
                        && self.entries@[j].catch_up),
            decreases self.entries.len() - i,
        {
            let entry = &self.entries[i];
            if same_text(entry.name.as_str(), name) && entry.catch_up {
                assert(self.entries@[i as int] == *entry);
                return true;
            }
            i = i + 1;
        }
        false
    }

    /// The nanoseconds until the first schedule fires, none if there is no
    /// schedule, zero if one is due.
    pub fn until_next(&self, clock: Clock) -> (r: Option<u128>)
        requires
            self.well_formed(),
        ensures
            r is None <==> self.entries.len() == 0,
            r matches Some(left) ==> {
                &&& forall|i: int|
                    0 <= i < self.entries.len() ==> left <= (#[trigger] self.entries@[i]).next.left(
                        clock,
                    )
                &&& exists|i: int| #![trigger self.entries@[i]]
                    0 <= i < self.entries.len() && left == self.entries@[i].next.left(clock)
            },
    {
        if self.entries.len() == 0 {
            return None;
        }
        let mut least: u128 = self.entries[0].next.remaining(&clock);
        let ghost mut at: int = 0;
        let mut i: usize = 1;
        while i < self.entries.len()
            invariant
                self.well_formed(),
                1 <= i <= self.entries.len(),
                0 <= at < i,
                least == self.entries@[at].next.left(clock),
                forall|j: int| 0 <= j < i ==> least <= (#[trigger] self.entries@[j]).next.left(clock),
            decreases self.entries.len() - i,
        {
            let left: u128 = self.entries[i].next.remaining(&clock);
            if left < least {
                least = left;
                proof {
                    at = i as int;
                }
            }
            i = i + 1;
        }
        assert(least == self.entries@[at].next.left(clock));
        Some(least)
    }

    /// Takes the first schedule in declaration order that is due, and moves it
    /// on to its next fire in the future.
    ///
    /// However many fires it missed, it is not due any more at that time.
    pub fn take_due(&mut self, clock: Clock) -> (r: Option<String>)
        requires
            old(self).well_formed(),
        ensures
            final(self).well_formed(),
            due_taken(*old(self), clock, *final(self), r),
    {
        let mut i: usize = 0;
        while i < self.entries.len()
            invariant
                *self == *old(self),
                self.well_formed(),
                i <= self.entries.len(),
                forall|j: int| 0 <= j < i ==> !old(self).due(j, clock),
            decreases self.entries.len() - i,
        {
            if self.entries[i].next.is_due(&clock) {
                assert(old(self).due(i as int, clock));
                let name = self.entries[i].name.clone();
                let entry = &mut self.entries[i];
                let next = ScheduleState::advance_to_future(&mut entry.fire, entry.next, clock);
                entry.next = next;
                proof {
                    assert(took(*old(self), clock, *self, i as int));
                }
                return Some(name);
            }
            i = i + 1;
        }
        None
    }

    fn advance_to_future(fire: &mut Fire, next: NextFire, clock: Clock) -> (r: NextFire)
        requires
            old(fire).well_formed(),
            old(fire).counts_on(next),
            next.in_range(),
        ensures
            final(fire).well_formed(),
            r.in_range(),
            final(fire).counts_on(r),
            fires_on(*old(fire), next, clock, *final(fire), r),
            !r.due(clock),
    {
        match fire {
            Fire::Interval(interval) => match next {
                NextFire::Mono(at) => {
                    let mut then: u128 = at;
                    let step: u128 = *interval;
                    let ghost mut steps: int = 0;
                    assert(at + 0 * step == at);
                    while then <= clock.mono as u128
                        invariant
                            MIN_FIRE_INTERVAL <= step <= u64::MAX as u128 * 1_000_000_000,
                            at <= u64::MAX as u128 * 2_000_000_000,
                            then <= u64::MAX as u128 * 2_000_000_000,
                            steps >= 0,
                            then == at + steps * step,
                            then == at || then - step <= clock.mono,
                        decreases clock.mono + step - then,
                    {
                        assert(at + (steps + 1) * step == then + step) by (nonlinear_arith)
                            requires
                                then == at + steps * step,
                        ;
                        then = then + step;
                        proof {
                            steps = steps + 1;
                        }
                    }
                    NextFire::Mono(then)
                },
                NextFire::Wall(_) => next,
            },
            Fire::Cron { schedule, clamp_warned } => NextFire::Wall(
                ScheduleState::next_cron_fire(schedule, clock.wall, clamp_warned),
            ),
            Fire::Unreadable => NextFire::Wall(clock.wall as i128 + MIN_FIRE_INTERVAL as i128),
        }
    }
}

/// Whether a planned schedule by an expression catches up on its last fire: it is due
/// at once if the first time that the expression gives after that fire has passed, and
/// stays as planned if not.
pub open spec fn catches_up_from(
    source: Seq<char>,
    last: i64,
    planned: Entry,
    clock: Clock,
    entry: Entry,
) -> bool {
    exists|first: Option<i128>| #[trigger]
        may_follow(source, last as int, first) && entry == (Entry {
            next: caught_up(planned.next, first, clock.wall),
            ..planned
        })
}

/// What becomes of a planned schedule when the plugin starts, given the fire that it
/// has to catch up on, if any.
pub open spec fn starts_from(
    planned: Entry,
    clock: Clock,
    last_fire: Option<i64>,
    entry: Entry,
) -> bool {
    match (planned.fire, last_fire) {
        (Fire::Cron { schedule, .. }, Some(last)) => catches_up_from(
            cron_source(schedule),
            last,
            planned,
            clock,
            entry,
        ),
        _ => entry == planned,
    }
}

/// What a schedule is when the plugin starts, given its recorded fire, which counts
/// only for a schedule that asks to catch up.
pub open spec fn starts(
    req: ScheduleRequest,
    clock: Clock,
    last_fire: Option<i64>,
    entry: Entry,
) -> bool {
    exists|planned: Entry| #[trigger]
        fresh(req, clock, planned) && starts_from(
            planned,
            clock,
            if req.catch_up {
                last_fire
            } else {
                None
            },
            entry,
        )
}

/// Whether taking the schedule at index `i` leads from one state to another: it
/// is the first that is due, it moves on to the future, and no other changes.
pub open spec fn took(before: ScheduleState, clock: Clock, after: ScheduleState, i: int) -> bool {
    &&& 0 <= i < before.entries.len()
    &&& after.entries.len() == before.entries.len()
    &&& before.due(i, clock)
    &&& forall|j: int| 0 <= j < i ==> !before.due(j, clock)
    &&& forall|j: int|
        0 <= j < before.entries.len() && j != i ==> #[trigger] after.entries@[j]
            == before.entries@[j]
    &&& after.entries@[i].name == before.entries@[i].name
    &&& after.entries@[i].catch_up == before.entries@[i].catch_up
    &&& fires_on(
        before.entries@[i].fire,
        before.entries@[i].next,
        clock,
        after.entries@[i].fire,
        after.entries@[i].next,
    )
    &&& !after.due(i, clock)
}

/// What taking a due schedule does and returns: nothing if none is due, and the
/// name of the first one if some are.
pub open spec fn due_taken(
    before: ScheduleState,
    clock: Clock,
    after: ScheduleState,
    r: Option<String>,
) -> bool {
    match r {
        Some(name) => exists|i: int| #[trigger] took(before, clock, after, i) && name@
            == before.entries@[i].name@,
        None => after == before && forall|i: int|
            0 <= i < before.entries.len() ==> !before.due(i, clock),
    }
}

/// A schedule on the monotonic clock is due, and has the same time left,
/// whatever the wall says.
pub proof fn law_interval_ignores_the_wall(next: NextFire, one: Clock, other: Clock)
    requires
        next is Mono,
        one.mono == other.mono,
    ensures
        next.due(one) == next.due(other),
        next.left(one) == next.left(other),
{
}

/// A fire takes one schedule out of those that are due and no other, so that
/// each fires at most once for one reading of the clocks.
pub proof fn law_a_fire_is_taken_once(
    before: ScheduleState,
    clock: Clock,
    after: ScheduleState,
    i: int,
)
    requires
        took(before, clock, after, i),
    ensures
        forall|j: int|
            0 <= j < before.entries.len() ==> after.due(j, clock) == (before.due(j, clock) && j != i),
{
    assert forall|j: int| 0 <= j < before.entries.len() implies after.due(j, clock) == (before.due(
        j,
        clock,
    ) && j != i) by {
        if j != i {
            assert(after.entries@[j] == before.entries@[j]);
        }
    }
}

/// Two fires of one schedule are at least the least interval apart: the fire
/// that follows one at `clock` is that far from it by the wall, or that far
/// from the time at which the fire was due on the monotonic clock.
pub proof fn law_fires_keep_the_least_interval(
    before: ScheduleState,
    clock: Clock,
    after: ScheduleState,
    i: int,
)
    requires
        before.well_formed(),
        took(before, clock, after, i),
    ensures
        match (before.entries@[i].next, after.entries@[i].next) {
            (NextFire::Mono(at), NextFire::Mono(then)) => then >= at + MIN_FIRE_INTERVAL,
            (NextFire::Wall(_), NextFire::Wall(then)) => then >= clock.wall + MIN_FIRE_INTERVAL,
            _ => false,
        },
{
    let entry = before.entries@[i];
    assert(entry.well_formed());
    match (entry.fire, entry.next) {
        (Fire::Interval(interval), NextFire::Mono(at)) => {
            let then = after.entries@[i].next->Mono_0;
            let k = choose|k: int| #![trigger k * (interval as int)]
                k >= 0 && then == at + k * (interval as int);
            assert(k >= 1) by (nonlinear_arith)
                requires
                    k >= 0,
                    then == at + k * (interval as int),
                    then > at,
            ;
            assert(k * (interval as int) >= interval) by (nonlinear_arith)
                requires
                    k >= 1,
                    interval >= 0,
            ;
        },
        _ => {},
    }
}

/// A schedule that missed a time while the plugin was down, and asks to catch
/// up, is due when the plugin starts, and is not due again once it was taken.
pub proof fn law_catching_up_fires_once(
    next: NextFire,
    first_after_last: i128,
    clock: Clock,
    fire: Fire,
    fire_later: Fire,
    later: NextFire,
)
    requires
        first_after_last <= clock.wall,
        fire is Cron,
        fires_on(fire, caught_up(next, Some(first_after_last), clock.wall), clock, fire_later, later),
    ensures
        caught_up(next, Some(first_after_last), clock.wall).due(clock),
        !later.due(clock),
{
}

/// Whether a time is now if the first time that an expression gives after the last
/// fire has passed, and at least the least interval away if not.
pub open spec fn due_if_missed(
    source: Seq<char>,
    last: i64,
    clock: Clock,
    next: NextFire,
) -> bool {
    exists|first: Option<i128>|
        {
            &&& #[trigger] may_follow(source, last as int, first)
            &&& if first is Some && first->0 <= clock.wall {
                next == NextFire::Wall(clock.wall as i128)
            } else {
                next matches NextFire::Wall(at) && at >= clock.wall + MIN_FIRE_INTERVAL
            }
        }
}

/// A cron schedule is due when the plugin starts if and only if it asks to catch up,
/// has fired before, and has missed the first time of its expression since. However
/// many it missed, it is due once, and one that is not due is at least the least
/// interval away.
pub proof fn law_missed_times_make_a_schedule_due(
    req: ScheduleRequest,
    expression: String,
    clock: Clock,
    last_fire: Option<i64>,
    entry: Entry,
)
    requires
        starts(req, clock, last_fire, entry),
        req.spec == ScheduleSpec::Cron(expression),
        cron_accepts("0 "@ + expression@ + " *"@),
    ensures
        if req.catch_up && last_fire is Some {
            due_if_missed("0 "@ + expression@ + " *"@, last_fire->0, clock, entry.next)
        } else {
            entry.next matches NextFire::Wall(at) && at >= clock.wall + MIN_FIRE_INTERVAL
        },
{
    let source = "0 "@ + expression@ + " *"@;
    let seen: Option<i64> = if req.catch_up {
        last_fire
    } else {
        None
    };
    let planned = choose|planned: Entry| #[trigger]
        fresh(req, clock, planned) && starts_from(planned, clock, seen, entry);
    assert(planned.next matches NextFire::Wall(at) && at >= clock.wall + MIN_FIRE_INTERVAL);
    if seen is Some {
        let last = seen->0;
        assert(catches_up_from(source, last, planned, clock, entry));
        let first = choose|first: Option<i128>| #[trigger]
            may_follow(source, last as int, first) && entry == (Entry {
                next: caught_up(planned.next, first, clock.wall),
                ..planned
            });
        assert(may_follow(source, last as int, first));
    }
}

/// The names of the schedules that are due, in declaration order.
pub open spec fn due_names(entries: Seq<Entry>, clock: Clock) -> Seq<Seq<char>>
    decreases entries.len(),
{
    if entries.len() == 0 {
        seq![]
    } else {
        let before = due_names(entries.drop_last(), clock);
        if entries.last().next.due(clock) {
            before.push(entries.last().name@)
        } else {
            before
        }
    }
}

proof fn lemma_nothing_due(entries: Seq<Entry>, clock: Clock)
    requires
        forall|j: int| 0 <= j < entries.len() ==> !(#[trigger] entries[j]).next.due(clock),
    ensures
        due_names(entries, clock) == Seq::<Seq<char>>::empty(),
    decreases entries.len(),
{
    if entries.len() > 0 {
        assert(!entries[entries.len() - 1].next.due(clock));
        assert forall|j: int| 0 <= j < entries.drop_last().len() implies !(
        #[trigger] entries.drop_last()[j]).next.due(clock) by {
            assert(!entries[j].next.due(clock));
        }
        lemma_nothing_due(entries.drop_last(), clock);
    }
}

proof fn lemma_one_less_due(before: Seq<Entry>, clock: Clock, after: Seq<Entry>, i: int)
    requires
        0 <= i < before.len(),
        after.len() == before.len(),
        before[i].next.due(clock),
        !after[i].next.due(clock),
        forall|j: int| 0 <= j < i ==> !(#[trigger] before[j]).next.due(clock),
        forall|j: int| 0 <= j < before.len() && j != i ==> #[trigger] after[j] == before[j],
    ensures
        due_names(before, clock) == seq![before[i].name@] + due_names(after, clock),
    decreases before.len(),
{
    let first = before.drop_last();
    let first_after = after.drop_last();
    if i == before.len() - 1 {
        assert forall|j: int| 0 <= j < first.len() implies !(#[trigger] first[j]).next.due(clock) by {
            assert(!before[j].next.due(clock));
        }
        assert forall|j: int| 0 <= j < first_after.len() implies !(
        #[trigger] first_after[j]).next.due(clock) by {
            assert(after[j] == before[j]);
            assert(!before[j].next.due(clock));
        }
        lemma_nothing_due(first, clock);
        lemma_nothing_due(first_after, clock);
    } else {
        assert forall|j: int| 0 <= j < i implies !(#[trigger] first[j]).next.due(clock) by {
            assert(!before[j].next.due(clock));
        }
        assert forall|j: int| 0 <= j < first.len() && j != i implies #[trigger] first_after[j]
            == first[j] by {
            assert(after[j] == before[j]);
        }
        lemma_one_less_due(first, clock, first_after, i);
        assert(after[before.len() - 1] == before[before.len() - 1]);
    }
    assert(due_names(before, clock) =~= seq![before[i].name@] + due_names(after, clock));
}

/// Whether due schedules are taken one after the other until none is: `states` are the
/// states from the first to the last, and `names` what was taken between them.
pub open spec fn all_taken(states: Seq<ScheduleState>, clock: Clock, names: Seq<String>) -> bool {
    &&& states.len() == names.len() + 1
    &&& forall|k: int|
        0 <= k < names.len() ==> due_taken(
            #[trigger] states[k],
            clock,
            states[k + 1],
            Some(names[k]),
        )
    &&& due_taken(states.last(), clock, states.last(), None)
}

/// Taking due schedules until none is left gives the name of each that was due once,
/// in declaration order.
pub proof fn law_each_due_schedule_is_taken_once(
    states: Seq<ScheduleState>,
    clock: Clock,
    names: Seq<String>,
)
    requires
        all_taken(states, clock, names),
    ensures
        names.map_values(|name: String| name@) == due_names(states[0].entries@, clock),
    decreases names.len(),
{
    let said = names.map_values(|name: String| name@);
    let before = states[0];
    if names.len() == 0 {
        assert forall|j: int| 0 <= j < before.entries@.len() implies !(
        #[trigger] before.entries@[j]).next.due(clock) by {
            assert(!before.due(j, clock));
        }
        lemma_nothing_due(before.entries@, clock);
        assert(said =~= Seq::<Seq<char>>::empty());
    } else {
        let after = states[1];
        assert(due_taken(states[0], clock, after, Some(names[0])));
        let i = choose|i: int| #[trigger] took(before, clock, after, i) && names[0]@
            == before.entries@[i].name@;
        assert forall|j: int| 0 <= j < i implies !(#[trigger] before.entries@[j]).next.due(clock) by {
            assert(!before.due(j, clock));
        }
        lemma_one_less_due(before.entries@, clock, after.entries@, i);
        let later = states.drop_first();
        let rest = names.drop_first();
        assert forall|k: int| 0 <= k < rest.len() implies due_taken(
            #[trigger] later[k],
            clock,
            later[k + 1],
            Some(rest[k]),
        ) by {
            assert(due_taken(states[k + 1], clock, states[k + 1 + 1], Some(names[k + 1])));
        }
        law_each_due_schedule_is_taken_once(later, clock, rest);
        assert(said =~= seq![names[0]@] + rest.map_values(|name: String| name@));
    }
}

/// Schedules by intervals are taken alike whatever the wall says.
pub proof fn law_intervals_are_taken_by_the_monotonic_clock(
    before: ScheduleState,
    one: Clock,
    other: Clock,
    after: ScheduleState,
    r: Option<String>,
)
    requires
        before.well_formed(),
        forall|i: int|
            0 <= i < before.entries.len() ==> (#[trigger] before.entries@[i]).fire is Interval,
        one.mono == other.mono,
    ensures
        due_taken(before, one, after, r) == due_taken(before, other, after, r),
{
    lemma_taken_alike(before, one, other, after, r);
    lemma_taken_alike(before, other, one, after, r);
}

/// Schedules by cron expressions are taken alike whatever the monotonic clock says.
pub proof fn law_cron_schedules_are_taken_by_the_wall(
    before: ScheduleState,
    one: Clock,
    other: Clock,
    after: ScheduleState,
    r: Option<String>,
)
    requires
        before.well_formed(),
        forall|i: int|
            0 <= i < before.entries.len() ==> !((#[trigger] before.entries@[i]).fire is Interval),
        one.wall == other.wall,
    ensures
        due_taken(before, one, after, r) == due_taken(before, other, after, r),
{
    lemma_taken_alike(before, one, other, after, r);
    lemma_taken_alike(before, other, one, after, r);
}

proof fn lemma_taken_alike(
    before: ScheduleState,
    one: Clock,
    other: Clock,
    after: ScheduleState,
    r: Option<String>,
)
    requires
        before.well_formed(),
        forall|i: int|
            0 <= i < before.entries.len() ==> if (#[trigger] before.entries@[i]).fire is Interval {
                one.mono == other.mono
            } else {
                one.wall == other.wall
            },
    ensures
        due_taken(before, one, after, r) ==> due_taken(before, other, after, r),
{
    assert forall|i: int| 0 <= i < before.entries.len() implies before.due(i, one) == before.due(
        i,
        other,
    ) by {
        assert(before.entries@[i].well_formed());
    }
    if due_taken(before, one, after, r) && r is Some {
        let i = choose|i: int| #[trigger] took(before, one, after, i) && r->0@
            == before.entries@[i].name@;
        assert(before.entries@[i].well_formed());
        assert(took(before, other, after, i));
    }
}

/// What the runner of a plugin last made known of its schedules.
#[derive(Debug)]
pub struct ScheduleView {
    pub times: Vec<(String, i128)>,
}

impl ScheduleView {
    /// Nothing made known yet.
    pub fn new() -> (r: ScheduleView)
        ensures
            r.times.len() == 0,
    {
        ScheduleView { times: Vec::new() }
    }

    /// Makes known when each schedule fires next, in place of what was known.
    pub fn publish(&mut self, state: &ScheduleState, clock: Clock)
        requires
            state.well_formed(),
        ensures
            final(self).times.len() == state.entries.len(),
            forall|i: int|
                0 <= i < final(self).times.len() ==> (#[trigger] final(self).times@[i]).0@
                    == state.entries@[i].name@ && final(self).times@[i].1
                    == state.entries@[i].next.wall_time(clock),
    {
        self.times = state.next_times(clock);
    }

    /// The last time made known under a name, if there is one.
    pub open spec fn time_of(self, name: Seq<char>) -> Option<i128> {
        last_time(self.times@, name)
    }

    /// The wall time of the next fire of a schedule, as last made known.
    pub fn published(&self, name: &str) -> (r: Option<i128>)
        ensures
            r == self.time_of(name@),
    {
        let mut found: Option<i128> = None;
        let mut i: usize = 0;
        while i < self.times.len()
            invariant
                i <= self.times.len(),
                found == last_time(self.times@.take(i as int), name@),
            decreases self.times.len() - i,
        {
            assert(self.times@.take(i + 1).drop_last() =~= self.times@.take(i as int));
            if same_text(self.times[i].0.as_str(), name) {
                found = Some(self.times[i].1);
            }
            i = i + 1;
        }
        assert(self.times@.take(self.times.len() as int) =~= self.times@);
        found
    }
}

/// The last entry of a list under a name.
pub open spec fn last_time(times: Seq<(String, i128)>, name: Seq<char>) -> Option<i128>
    decreases times.len(),
{
    if times.len() == 0 {
        None
    } else if times.last().0@ == name {
        Some(times.last().1)
    } else {
        last_time(times.drop_last(), name)
    }
}

/// A schedule by an interval of at least five seconds first fires just as many seconds
/// after the start as it declares, and one by a shorter interval after five. Whether it
/// fired before does not count.
pub proof fn law_an_interval_starts_with_its_declared_seconds(
    req: ScheduleRequest,
    secs: u64,
    clock: Clock,
    last_fire: Option<i64>,
    entry: Entry,
)
    requires
        starts(req, clock, last_fire, entry),
        req.spec == ScheduleSpec::IntervalSeconds(secs),
    ensures
        entry.name@ == req.name@,
        entry.catch_up == req.catch_up,
        secs >= 5 ==> {
            &&& entry.fire matches Fire::Interval(every)
            &&& every == secs * 1_000_000_000
            &&& entry.next matches NextFire::Mono(at)
            &&& at == clock.mono + secs * 1_000_000_000
        },
        secs < 5 ==> {
            &&& entry.fire matches Fire::Interval(every)
            &&& every == 5_000_000_000
            &&& entry.next matches NextFire::Mono(at)
            &&& at == clock.mono + 5_000_000_000
        },
{
}

/// Two fires of a schedule that was declared with at least five seconds are a whole
/// number of those seconds apart, however late the first of them was: the second is
/// the first such moment that is still to come.
pub proof fn law_fires_of_an_interval_are_whole_intervals_apart(
    req: ScheduleRequest,
    secs: u64,
    start: Clock,
    last_fire: Option<i64>,
    entry: Entry,
    before: ScheduleState,
    clock: Clock,
    after: ScheduleState,
    i: int,
)
    requires
        starts(req, start, last_fire, entry),
        req.spec == ScheduleSpec::IntervalSeconds(secs),
        secs >= 5,
        took(before, clock, after, i),
        before.entries@[i].fire == entry.fire,
        before.entries@[i].next is Mono,
    ensures
        after.entries@[i].fire == entry.fire,
        ({
            let every = secs * 1_000_000_000;
            let at = before.entries@[i].next->Mono_0;
            &&& after.entries@[i].next matches NextFire::Mono(then)
            &&& exists|n: int| #![trigger n * every] n >= 1 && then == at + n * every
            &&& clock.mono < then <= clock.mono + every
        }),
{
    let every = secs * 1_000_000_000;
    let at = before.entries@[i].next->Mono_0;
    let then = after.entries@[i].next->Mono_0;
    assert(entry.fire == Fire::Interval(every as u128));
    assert(fires_on(
        before.entries@[i].fire,
        before.entries@[i].next,
        clock,
        after.entries@[i].fire,
        after.entries@[i].next,
    ));
    let n = choose|n: int| #![trigger n * every] n >= 0 && then == at + n * every;
    assert(at <= clock.mono);
    assert(n >= 1) by (nonlinear_arith)
        requires
            n >= 0,
            then == at + n * every,
            then > at,
    ;
    assert(then == at + n * every);
}

/// The time that is left of a schedule is just what has to pass until it is due: after
/// that time it is, and after any less it is not.
pub proof fn law_what_is_left_passes_until_due(next: NextFire, clock: Clock, later: Clock)
    requires
        later.mono - clock.mono == later.wall - clock.wall,
        later.mono >= clock.mono,
    ensures
        next.due(later) <==> later.mono - clock.mono >= next.left(clock),
{
}

/// A schedule on the monotonic clock is due from its moment on, and one by the wall
/// from its time on.
pub proof fn law_schedules_are_due_from_their_time_on(next: NextFire, clock: Clock)
    ensures
        next matches NextFire::Mono(at) ==> (next.due(clock) <==> clock.mono >= at),
        next matches NextFire::Wall(at) ==> (next.due(clock) <==> clock.wall >= at),
{
}

/// The wall time that is shown for a schedule stays the same while both clocks go on
/// together, until it is due. A moment that is now is shown as now.
pub proof fn law_shown_times_do_not_move(next: NextFire, clock: Clock, later: Clock)
    requires
        later.mono - clock.mono == later.wall - clock.wall,
        later.mono >= clock.mono,
        next matches NextFire::Mono(at) ==> later.mono <= at <= clock.mono
            + 9_223_372_036_854_775_807_000_000,
    ensures
        next.wall_time(later) == next.wall_time(clock),
        next matches NextFire::Mono(at) ==> (at == clock.mono ==> next.wall_time(clock)
            == clock.wall),
        next matches NextFire::Wall(at) ==> next.wall_time(clock) == at,
{
}

/// A moment that is past is shown as now.
pub proof fn law_past_moments_are_shown_as_now(at: u128, clock: Clock)
    requires
        at <= clock.mono,
    ensures
        NextFire::Mono(at).wall_time(clock) == clock.wall,
{
}

/// A schedule by an expression that has not fired before is planned for a time that
/// the expression gives after now, or five seconds from now if that is later or the
/// expression gives none. One by an expression that cannot be read waits until the year
/// 2999.
pub proof fn law_a_cron_schedule_starts_with_a_time_of_its_expression(
    req: ScheduleRequest,
    expression: String,
    clock: Clock,
    entry: Entry,
)
    requires
        starts(req, clock, None, entry),
        req.spec == ScheduleSpec::Cron(expression),
    ensures
        entry.name@ == req.name@,
        entry.catch_up == req.catch_up,
        entry.next is Wall,
        cron_accepts("0 "@ + expression@ + " *"@) ==> {
            &&& entry.fire is Cron
            &&& cron_source(entry.fire->schedule) == "0 "@ + expression@ + " *"@
            &&& exists|time: Option<(i64, u32)>|
                {
                    &&& #[trigger] cron_gives(
                        "0 "@ + expression@ + " *"@,
                        clock.wall as int,
                        time,
                    )
                    &&& entry.next->Wall_0 >= clock.wall + 5_000_000_000
                    &&& time is Some ==> entry.next->Wall_0 >= (time->0).0 * 1_000_000_000
                        + (time->0).1
                    &&& entry.next->Wall_0 == clock.wall + 5_000_000_000 || time is Some
                        && entry.next->Wall_0 == (time->0).0 * 1_000_000_000 + (time->0).1
                }
        },
        !cron_accepts("0 "@ + expression@ + " *"@) ==> entry.fire is Unreadable
            && entry.next->Wall_0 == 32_472_144_000_000_000_000,
{
    let source = "0 "@ + expression@ + " *"@;
    let planned = choose|planned: Entry| #[trigger]
        fresh(req, clock, planned) && starts_from(planned, clock, None, entry);
    assert(entry == planned);
    if cron_accepts(source) {
        lemma_cron_fire_is_a_given_time(
            source,
            clock.wall,
            false,
            entry.next,
            entry.fire->clamp_warned,
        );
    }
}

proof fn lemma_cron_fire_is_a_given_time(
    source: Seq<char>,
    now: i64,
    warned: bool,
    later: NextFire,
    warned_later: bool,
)
    requires
        cron_fire(source, now, warned, later, warned_later),
    ensures
        later is Wall,
        exists|time: Option<(i64, u32)>|
            {
                &&& #[trigger] cron_gives(source, now as int, time)
                &&& later->Wall_0 >= now + 5_000_000_000
                &&& time is Some ==> later->Wall_0 >= (time->0).0 * 1_000_000_000 + (time->0).1
                &&& later->Wall_0 == now + 5_000_000_000 || time is Some && later->Wall_0
                    == (time->0).0 * 1_000_000_000 + (time->0).1
                &&& warned_later <==> warned || time is Some && (time->0).0 * 1_000_000_000
                    + (time->0).1 < now + 5_000_000_000
            },
{
    let at = later->Wall_0;
    let candidate = choose|candidate: Option<i128>| #[trigger]
        may_follow(source, now as int, candidate) && (at as int, warned_later) == clamped(
            candidate,
            now,
            warned,
        );
    let time = choose|time: Option<(i64, u32)>| #[trigger]
        cron_gives(source, now as int, time) && candidate == moment_of(time);
    assert(cron_gives(source, now as int, time));
}

/// After a fire a schedule by an expression goes on to a time that the expression gives
/// after now, or to five seconds from now if that is later or the expression gives none.
/// It is said once that a fire was put off.
pub proof fn law_a_cron_schedule_goes_on_to_a_time_of_its_expression(
    before: ScheduleState,
    clock: Clock,
    after: ScheduleState,
    i: int,
)
    requires
        took(before, clock, after, i),
        before.entries@[i].fire is Cron,
        before.entries@[i].next is Wall,
    ensures
        after.entries@[i].fire is Cron,
        after.entries@[i].fire->schedule == before.entries@[i].fire->schedule,
        ({
            let source = cron_source(before.entries@[i].fire->schedule);
            let warned = before.entries@[i].fire->clamp_warned;
            let warned_later = after.entries@[i].fire->clamp_warned;
            &&& after.entries@[i].next matches NextFire::Wall(at)
            &&& exists|time: Option<(i64, u32)>|
                {
                    &&& #[trigger] cron_gives(source, clock.wall as int, time)
                    &&& at >= clock.wall + 5_000_000_000
                    &&& time is Some ==> at >= (time->0).0 * 1_000_000_000 + (time->0).1
                    &&& at == clock.wall + 5_000_000_000 || time is Some && at == (time->0).0
                        * 1_000_000_000 + (time->0).1
                    &&& warned_later <==> warned || time is Some && (time->0).0 * 1_000_000_000
                        + (time->0).1 < clock.wall + 5_000_000_000
                }
        }),
{
    lemma_cron_fire_is_a_given_time(
        cron_source(before.entries@[i].fire->schedule),
        clock.wall,
        before.entries@[i].fire->clamp_warned,
        after.entries@[i].next,
        after.entries@[i].fire->clamp_warned,
    );
}

/// A schedule that asks to catch up on a fire is due at once just if the first time that
/// its expression gives after that fire is not after now, and else planned for later.
pub proof fn law_a_missed_time_of_the_expression_is_due_now(
    req: ScheduleRequest,
    expression: String,
    clock: Clock,
    last: i64,
    entry: Entry,
)
    requires
        starts(req, clock, Some(last), entry),
        req.spec == ScheduleSpec::Cron(expression),
        req.catch_up,
        cron_accepts("0 "@ + expression@ + " *"@),
    ensures
        exists|time: Option<(i64, u32)>|
            {
                &&& #[trigger] cron_gives("0 "@ + expression@ + " *"@, last as int, time)
                &&& entry.next matches NextFire::Wall(at)
                &&& time is Some && (time->0).0 * 1_000_000_000 + (time->0).1 <= clock.wall
                    ==> at == clock.wall
                &&& !(time is Some && (time->0).0 * 1_000_000_000 + (time->0).1 <= clock.wall)
                    ==> at >= clock.wall + 5_000_000_000
            },
{
    let source = "0 "@ + expression@ + " *"@;
    law_missed_times_make_a_schedule_due(req, expression, clock, Some(last), entry);
    let first = choose|first: Option<i128>|
        {
            &&& #[trigger] may_follow(source, last as int, first)
            &&& if first is Some && first->0 <= clock.wall {
                entry.next == NextFire::Wall(clock.wall as i128)
            } else {
                entry.next matches NextFire::Wall(at) && at >= clock.wall + MIN_FIRE_INTERVAL
            }
        };
    let time = choose|time: Option<(i64, u32)>| #[trigger]
        cron_gives(source, last as int, time) && first == moment_of(time);
    assert(cron_gives(source, last as int, time));
}

/// A recorded fire does not count for a schedule that does not ask to catch up.
pub proof fn law_nothing_is_caught_up_unasked(
    req: ScheduleRequest,
    clock: Clock,
    last_fire: Option<i64>,
    entry: Entry,
)
    requires
        !req.catch_up,
    ensures
        starts(req, clock, last_fire, entry) <==> starts(req, clock, None, entry),
{
    let planned = choose|planned: Entry| #[trigger]
        fresh(req, clock, planned) && starts_from(planned, clock, None, entry);
    if starts(req, clock, None, entry) {
        assert(fresh(req, clock, planned));
        assert(starts(req, clock, last_fire, entry));
    }
    if starts(req, clock, last_fire, entry) {
        let planned = choose|planned: Entry| #[trigger]
            fresh(req, clock, planned) && starts_from(planned, clock, None, entry);
        assert(fresh(req, clock, planned));
    }
}

/// Taking a due schedule gives the name of the first in declaration order whose time has
/// come, whose time is to come afterwards, and leaves all others alone. It gives none
/// just if the time of none has come.
pub proof fn law_the_first_due_schedule_is_taken(
    before: ScheduleState,
    clock: Clock,
    after: ScheduleState,
    r: Option<String>,
)
    requires
        due_taken(before, clock, after, r),
    ensures
        r is None <==> forall|j: int|
            0 <= j < before.entries.len() ==> match (#[trigger] before.entries@[j]).next {
                NextFire::Mono(at) => at > clock.mono,
                NextFire::Wall(at) => at > clock.wall,
            },
        r is None ==> after == before,
        r matches Some(name) ==> exists|i: int| #![trigger before.entries@[i]]
            {
                &&& 0 <= i < before.entries.len() == after.entries.len()
                &&& name@ == before.entries@[i].name@
                &&& match before.entries@[i].next {
                    NextFire::Mono(at) => at <= clock.mono,
                    NextFire::Wall(at) => at <= clock.wall,
                }
                &&& forall|j: int|
                    0 <= j < i ==> match (#[trigger] before.entries@[j]).next {
                        NextFire::Mono(at) => at > clock.mono,
                        NextFire::Wall(at) => at > clock.wall,
                    }
                &&& forall|j: int|
                    0 <= j < before.entries.len() && j != i ==> #[trigger] after.entries@[j]
                        == before.entries@[j]
                &&& after.entries@[i].name == before.entries@[i].name
                &&& after.entries@[i].catch_up == before.entries@[i].catch_up
                &&& match after.entries@[i].next {
                    NextFire::Mono(at) => at > clock.mono,
                    NextFire::Wall(at) => at > clock.wall,
                }
            },
{
    match r {
        Some(name) => {
            let i = choose|i: int| #[trigger] took(before, clock, after, i) && name@
                == before.entries@[i].name@;
            assert(before.due(i, clock) && !after.due(i, clock));
            assert forall|j: int| 0 <= j < i implies match (#[trigger] before.entries@[j]).next {
                NextFire::Mono(at) => at > clock.mono,
                NextFire::Wall(at) => at > clock.wall,
            } by {
                assert(!before.due(j, clock));
            }
            assert(before.entries@[i].next.due(clock));
        },
        None => {
            assert forall|j: int| 0 <= j < before.entries.len() implies match (
            #[trigger] before.entries@[j]).next {
                NextFire::Mono(at) => at > clock.mono,
                NextFire::Wall(at) => at > clock.wall,
            } by {
                assert(!before.due(j, clock));
            }
        },
    }
}

/// The fire that counts for a schedule is one that was recorded under its name, and
/// none before it was. Nothing counts just if nothing was.
pub proof fn law_the_first_recorded_fire_counts(last_fires: Seq<LastFire>, name: Seq<char>)
    ensures
        recorded(last_fires, name) is None <==> forall|i: int|
            0 <= i < last_fires.len() ==> (#[trigger] last_fires[i]).name@ != name,
        recorded(last_fires, name) matches Some(at) ==> exists|i: int| #![trigger last_fires[i]]
            {
                &&& 0 <= i < last_fires.len()
                &&& last_fires[i].name@ == name
                &&& last_fires[i].at == at
                &&& forall|j: int| 0 <= j < i ==> (#[trigger] last_fires[j]).name@ != name
            },
    decreases last_fires.len(),
{
    if last_fires.len() > 0 {
        let rest = last_fires.drop_first();
        law_the_first_recorded_fire_counts(rest, name);
        if last_fires[0].name@ != name {
            match recorded(rest, name) {
                Some(at) => {
                    let i = choose|i: int| #![trigger rest[i]]
                        {
                            &&& 0 <= i < rest.len()
                            &&& rest[i].name@ == name
                            &&& rest[i].at == at
                            &&& forall|j: int| 0 <= j < i ==> (#[trigger] rest[j]).name@ != name
                        };
                    assert(last_fires[i + 1] == rest[i]);
                    assert forall|j: int| 0 <= j < i + 1 implies (#[trigger] last_fires[j]).name@
                        != name by {
                        if j > 0 {
                            assert(rest[j - 1] == last_fires[j]);
                        }
                    }
                },
                None => {
                    assert forall|i: int| 0 <= i < last_fires.len() implies (
                    #[trigger] last_fires[i]).name@ != name by {
                        if i > 0 {
                            assert(rest[i - 1] == last_fires[i]);
                        }
                    }
                },
            }
        } else {
            assert(last_fires[0].name@ == name);
        }
    }
}

/// The time that is known of a schedule is the last that was made known under its
/// name. Nothing is known just if nothing was.
pub proof fn law_the_last_time_made_known_counts(times: Seq<(String, i128)>, name: Seq<char>)
    ensures
        last_time(times, name) is None <==> forall|i: int|
            0 <= i < times.len() ==> (#[trigger] times[i]).0@ != name,
        last_time(times, name) matches Some(at) ==> exists|i: int| #![trigger times[i]]
            {
                &&& 0 <= i < times.len()
                &&& times[i].0@ == name
                &&& times[i].1 == at
                &&& forall|j: int| i < j < times.len() ==> (#[trigger] times[j]).0@ != name
            },
    decreases times.len(),
{
    if times.len() > 0 {
        let rest = times.drop_last();
        law_the_last_time_made_known_counts(rest, name);
        if times.last().0@ == name {
            assert(times[times.len() - 1].0@ == name);
        } else {
            match last_time(rest, name) {
                Some(at) => {
                    let i = choose|i: int| #![trigger rest[i]]
                        {
                            &&& 0 <= i < rest.len()
                            &&& rest[i].0@ == name
                            &&& rest[i].1 == at
                            &&& forall|j: int|
                                i < j < rest.len() ==> (#[trigger] rest[j]).0@ != name
                        };
                    assert(times[i] == rest[i]);
                    assert forall|j: int| i < j < times.len() implies (#[trigger] times[j]).0@
                        != name by {
                        if j < rest.len() {
                            assert(rest[j] == times[j]);
                        }
                    }
                },
                None => {
                    assert forall|i: int| 0 <= i < times.len() implies (#[trigger] times[i]).0@
                        != name by {
                        if i < rest.len() {
                            assert(rest[i] == times[i]);
                        }
                    }
                },
            }
        }
    }
}

} // verus!
