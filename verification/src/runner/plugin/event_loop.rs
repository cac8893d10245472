//! What the thread of a plugin does next.
//!
//! The thread waits for work, calls the plugin, and fires the schedules that
//! have come due. It does not decide anything itself: [`PluginLoop::step`] takes
//! what has happened and says what to do.

use vstd::prelude::*;

use crate::event::Event;
use crate::json::{json_print, json_text, json_tree};
use crate::manifest::ScheduleRequest;
use crate::runner::plugin::PluginWork;
use crate::schedule::{
    due_taken, recorded, starts, took, Clock, LastFire, NextFire, ScheduleState,
};
use crate::text::{decimal, decimal_text, joined, joined3};

verus! {

/// How long a plugin without schedules waits for work at a time, in
/// nanoseconds.
pub const SCHEDULE_LESS_FALLBACK_TIMEOUT: u128 = 3_600_000_000_000;

/// After how many calls in a row that ran out of time a plugin is given up.
pub const CALL_DEADLINE_STRIKES: u32 = 3;

/// What to do with a plugin whose calls run out of time.
#[derive(Debug, Clone, Copy, PartialEq, Eq, Structural)]
pub enum DeadlineVerdict {
    Restart,
    GiveUp,
}

/// What to do after so many calls in a row that ran out of time.
pub open spec fn verdict_after(strikes: u32) -> DeadlineVerdict {
    if strikes >= CALL_DEADLINE_STRIKES {
        DeadlineVerdict::GiveUp
    } else {
        DeadlineVerdict::Restart
    }
}

/// What to do after so many calls in a row that ran out of time.
pub fn deadline_verdict(strikes: u32) -> (r: DeadlineVerdict)
    ensures
        r == if strikes >= CALL_DEADLINE_STRIKES {
            DeadlineVerdict::GiveUp
        } else {
            DeadlineVerdict::Restart
        },
        r == verdict_after(strikes),
{
    if strikes >= CALL_DEADLINE_STRIKES {
        DeadlineVerdict::GiveUp
    } else {
        DeadlineVerdict::Restart
    }
}

/// What to do with a completed job.
#[derive(Debug, Clone, Copy, PartialEq, Eq, Structural)]
pub enum JobCompletionVerdict {
    Deliver,
    DropStale,
}

/// What to do with a completed job of a generation.
pub open spec fn verdict_on_job(job_generation: u64, current_generation: u64) -> JobCompletionVerdict {
    if job_generation == current_generation {
        JobCompletionVerdict::Deliver
    } else {
        JobCompletionVerdict::DropStale
    }
}

/// A completed job is for the instance that submitted it and no other.
pub fn job_completion_verdict(job_generation: u64, current_generation: u64) -> (r:
    JobCompletionVerdict)
    ensures
        r == if job_generation == current_generation {
            JobCompletionVerdict::Deliver
        } else {
            JobCompletionVerdict::DropStale
        },
        r == verdict_on_job(job_generation, current_generation),
{
    if job_generation == current_generation {
        JobCompletionVerdict::Deliver
    } else {
        JobCompletionVerdict::DropStale
    }
}

/// Why no work was received.
#[derive(Debug, Clone, Copy, PartialEq, Eq, Structural)]
pub enum RecvTimeoutError {
    Timeout,
    Disconnected,
}

/// What the thread does with what it received.
#[derive(Debug)]
pub enum LoopAction {
    /// Call the plugin with the work.
    Handle(PluginWork),
    /// Call the plugin for the schedule of that name.
    Fire(String),
    /// Wait again.
    Idle,
    /// End: nobody can send work any more.
    Exit,
    /// Let the plugin finish, then end.
    Stop,
}

/// Work comes before a schedule that is due, and the order to stop is no work
/// for the plugin.
pub open spec fn chosen_action(
    recv: Result<PluginWork, RecvTimeoutError>,
    due: Option<String>,
) -> LoopAction {
    match recv {
        Ok(PluginWork::Stop) => LoopAction::Stop,
        Ok(work) => LoopAction::Handle(work),
        Err(RecvTimeoutError::Timeout) => match due {
            Some(name) => LoopAction::Fire(name),
            None => LoopAction::Idle,
        },
        Err(RecvTimeoutError::Disconnected) => LoopAction::Exit,
    }
}

/// What to do with what was received, given a schedule that is due.
pub fn next_action(recv: Result<PluginWork, RecvTimeoutError>, due: Option<String>) -> (r:
    LoopAction)
    ensures
        r == chosen_action(recv, due),
{
    match recv {
        Ok(PluginWork::Stop) => LoopAction::Stop,
        Ok(work) => LoopAction::Handle(work),
        Err(RecvTimeoutError::Timeout) => match due {
            Some(name) => LoopAction::Fire(name),
            None => LoopAction::Idle,
        },
        Err(RecvTimeoutError::Disconnected) => LoopAction::Exit,
    }
}

/// Which of its functions a plugin is called at.
#[derive(Debug, Clone, Copy, PartialEq, Eq, Structural)]
pub enum CallKind {
    OnEvent,
    OnMessage,
    OnJobComplete,
    OnSchedule,
}

/// The function that work is handed to.
pub open spec fn function_for(work: PluginWork) -> CallKind {
    match work {
        PluginWork::Event(_) => CallKind::OnEvent,
        PluginWork::Message(_) => CallKind::OnMessage,
        _ => CallKind::OnJobComplete,
    }
}

/// The function that work is handed to.
pub fn call_kind_of(work: &PluginWork) -> (r: CallKind)
    requires
        !(work is Stop),
    ensures
        r == match *work {
            PluginWork::Event(_) => CallKind::OnEvent,
            PluginWork::Message(_) => CallKind::OnMessage,
            _ => CallKind::OnJobComplete,
        },
        r == function_for(*work),
{
    match work {
        PluginWork::Event(_) => CallKind::OnEvent,
        PluginWork::Message(_) => CallKind::OnMessage,
        _ => CallKind::OnJobComplete,
    }
}

/// What work is about, for a reader of measurements.
pub open spec fn detail(work: PluginWork) -> Seq<char> {
    match work {
        PluginWork::Event(event) => match *event {
            Event::Journal { event, .. } => event@,
            Event::Status { .. } => "status"@,
        },
        PluginWork::Message(delivery) => delivery.driver_id@ + "/"@ + delivery.topic@,
        PluginWork::JobComplete { job_id, .. } => decimal(job_id as nat),
        PluginWork::Stop => ""@,
    }
}

/// What work is about: the name of a journal entry, the driver and topic of a
/// delivery, or the number of a job.
pub fn detail_of(work: &PluginWork) -> (r: String)
    requires
        !(work is Stop),
    ensures
        r@ == detail(*work),
{
    match work {
        PluginWork::Event(event) => match &**event {
            Event::Journal { event: name, .. } => name.clone(),
            Event::Status { .. } => "status".to_owned(),
        },
        PluginWork::Message(delivery) => joined3(
            delivery.driver_id.as_str(),
            "/",
            delivery.topic.as_str(),
        ),
        PluginWork::JobComplete { job_id, .. } => decimal_text(*job_id),
        PluginWork::Stop => "".to_owned(),
    }
}

/// Whether this is what a plugin is told of an event: its kind, its time, its name, its
/// content as JSON, and whether it is old.
pub open spec fn tells_event(
    event: Event,
    kind: Seq<char>,
    time: Option<String>,
    name: Option<String>,
    content: Seq<char>,
    old_entry: bool,
) -> bool {
    match event {
        Event::Journal { timestamp, event: entry, raw, replay } => {
            &&& kind == "journal"@
            &&& time == Some(timestamp)
            &&& name == Some(entry)
            &&& content == json_text(json_tree(raw))
            &&& old_entry == replay
        },
        Event::Status { raw } => {
            &&& kind == "status"@
            &&& time is None
            &&& name is None
            &&& content == json_text(json_tree(raw))
            &&& !old_entry
        },
    }
}

/// What a plugin is told of an event: its kind, its time, its name, its content
/// as JSON, and whether it is read again from an old journal. Only a journal
/// entry has a time and a name, and only it can be old.
pub fn event_params(event: &Event) -> (r: (
    &'static str,
    Option<String>,
    Option<String>,
    String,
    bool,
))
    ensures
        match *event {
            Event::Journal { timestamp, event: name, raw, replay } => {
                &&& r.0@ == "journal"@
                &&& r.1 == Some(timestamp)
                &&& r.2 == Some(name)
                &&& r.3@ == json_text(json_tree(raw))
                &&& r.4 == replay
            },
            Event::Status { raw } => {
                &&& r.0@ == "status"@
                &&& r.1 is None
                &&& r.2 is None
                &&& r.3@ == json_text(json_tree(raw))
                &&& !r.4
            },
        },
        tells_event(*event, r.0@, r.1, r.2, r.3@, r.4),
{
    match event {
        Event::Journal { timestamp, event: name, raw, replay } => (
            "journal",
            Some(timestamp.clone()),
            Some(name.clone()),
            json_print(raw),
            *replay,
        ),
        Event::Status { raw } => ("status", None, None, json_print(raw), false),
    }
}

/// How a call of the plugin ended. A text says what went wrong.
#[derive(Debug)]
pub enum CallOutcome {
    Completed,
    /// The call ran out of time.
    DeadlineExceeded(String),
    /// The plugin is broken.
    Faulted(String),
}

/// Why a plugin did not come up.
#[derive(Debug)]
pub enum LoadFailure {
    /// Its code could not be loaded.
    Load(String),
    /// Its own start failed.
    Init(String),
}

impl LoadFailure {
    pub open spec fn text(self) -> Seq<char> {
        match self {
            LoadFailure::Load(e) => "failed to load plugin component: "@ + e@,
            LoadFailure::Init(e) => "init() failed: "@ + e@,
        }
    }

    /// The failure in words.
    pub fn reason(&self) -> (r: String)
        ensures
            r@ == self.text(),
    {
        match self {
            LoadFailure::Load(e) => joined("failed to load plugin component: ", e.as_str()),
            LoadFailure::Init(e) => joined("init() failed: ", e.as_str()),
        }
    }
}

/// What has happened to the thread of a plugin.
#[derive(Debug)]
pub enum LoopEvent {
    /// A round begins. The flag says that the daemon is going down.
    Round { stop: bool, clock: Clock },
    /// The wait is over.
    Received { recv: Result<PluginWork, RecvTimeoutError>, clock: Clock },
    /// The call of the plugin has ended.
    Called { outcome: CallOutcome, clock: Clock },
    /// The fire has been recorded.
    Recorded { clock: Clock },
    /// The plugin has been loaded anew, or could not be.
    Reloaded(Result<(), LoadFailure>),
}

/// What the thread of a plugin has to do.
#[derive(Debug)]
pub enum LoopCommand {
    /// Make known when the schedules fire, and wait for work for at most so many
    /// nanoseconds.
    Wait { timeout: u128 },
    /// Call the plugin with the work.
    Handle(PluginWork),
    /// Call the plugin for a schedule.
    Fire(String),
    /// Record that a schedule has fired.
    RecordFire(String),
    /// Load the plugin anew.
    Reload,
    /// Begin another round.
    Again,
    /// Give the plugin up, for the reason, and end.
    Disable { reason: String },
    /// Let the plugin finish, and end.
    OnStop,
    /// End.
    Exit,
}

/// Where the thread of a plugin stands.
#[derive(Debug)]
pub enum LoopPhase {
    /// Before a round.
    Idle,
    /// Waiting for work.
    Waiting,
    /// In a call with work.
    Working,
    /// In a call for a schedule.
    Firing { name: String },
    /// Recording a fire.
    Recording,
    /// Loading the plugin anew after a call that ran out of time.
    Reloading { error: String },
    /// At its end.
    Done,
}

/// The state of a plugin's thread.
#[derive(Debug)]
pub struct PluginLoop {
    pub schedule: ScheduleState,
    /// How many calls in a row have run out of time.
    pub strikes: u32,
    /// How often the plugin has been loaded anew.
    pub generation: u64,
    pub phase: LoopPhase,
}

/// The generation after one.
pub open spec fn next_generation(generation: u64) -> u64 {
    if generation == u64::MAX {
        0
    } else {
        (generation + 1) as u64
    }
}

/// The reason for giving up a plugin whose calls keep running out of time.
pub open spec fn too_slow(error: Seq<char>, strikes: nat) -> Seq<char> {
    error + " on "@ + decimal(strikes)
        + " consecutive calls; the plugin is persistently too slow (a blocked host call, or work that does not fit the deadline)"@
}

/// The reason for giving up a plugin that did not come up again.
pub open spec fn no_restart(error: Seq<char>, failure: Seq<char>) -> Seq<char> {
    error + ", and the plugin could not be restarted: "@ + failure
}

impl PluginLoop {
    /// A plugin that is still running has fewer strikes than it takes to give it
    /// up.
    pub open spec fn well_formed(self) -> bool {
        self.schedule.well_formed() && (self.phase is Done || self.strikes < CALL_DEADLINE_STRIKES)
    }

    /// The thread of a plugin that has come up.
    pub fn start(schedules: &Vec<ScheduleRequest>, clock: Clock, last_fires: &Vec<LastFire>) -> (r:
        PluginLoop)
        ensures
            r.well_formed(),
            r.phase is Idle,
            r.strikes == 0,
            r.generation == 0,
            r.schedule.entries.len() == schedules.len(),
            forall|i: int|
                0 <= i < schedules.len() ==> #[trigger] starts(
                    schedules@[i],
                    clock,
                    recorded(last_fires@, schedules@[i].name@),
                    r.schedule.entries@[i],
                ),
    {
        PluginLoop {
            schedule: ScheduleState::new_with_catch_up(schedules, clock, last_fires),
            strikes: 0,
            generation: 0,
            phase: LoopPhase::Idle,
        }
    }

    /// What is done next with the schedules: the first that is due fires, and if
    /// none is the round is over.
    pub open spec fn chases(self, clock: Clock, after: PluginLoop, command: LoopCommand) -> bool {
        exists|due: Option<String>|
            {
                &&& #[trigger] due_taken(self.schedule, clock, after.schedule, due)
                &&& after.generation == self.generation
                &&& match due {
                    Some(name) => {
                        &&& command matches LoopCommand::Fire(fired)
                        &&& fired@ == name@
                        &&& after.phase matches LoopPhase::Firing { name: firing }
                        &&& firing@ == name@
                    },
                    None => command == LoopCommand::Again && after.phase is Idle,
                }
            }
    }

    /// What follows from an event.
    pub open spec fn steps(self, event: LoopEvent, after: PluginLoop, command: LoopCommand) -> bool {
        match (self.phase, event) {
            (LoopPhase::Idle, LoopEvent::Round { stop, clock }) => {
                &&& self.stays(after)
                &&& if stop {
                    command == LoopCommand::OnStop && after.phase is Done
                } else {
                    &&& after.phase is Waiting
                    &&& command matches LoopCommand::Wait { timeout }
                    &&& waits_for(self.schedule, clock, timeout)
                }
            },
            (LoopPhase::Waiting, LoopEvent::Received { recv, clock }) => self.heard(
                recv,
                clock,
                after,
                command,
            ),
            (LoopPhase::Working, LoopEvent::Called { outcome, clock }) => self.called(
                outcome,
                clock,
                None,
                after,
                command,
            ),
            (LoopPhase::Firing { name }, LoopEvent::Called { outcome, clock }) => self.called(
                outcome,
                clock,
                Some(name@),
                after,
                command,
            ),
            (LoopPhase::Recording, LoopEvent::Recorded { clock }) => after.strikes == 0
                && self.chases(clock, after, command),
            (LoopPhase::Reloading { .. }, LoopEvent::Reloaded(Ok(_))) => {
                &&& command == LoopCommand::Again && after.phase is Idle
                &&& self.stays(after)
            },
            (LoopPhase::Reloading { error }, LoopEvent::Reloaded(Err(failure))) => {
                &&& command matches LoopCommand::Disable { reason }
                &&& reason@ == no_restart(error@, failure.text())
                &&& after.phase is Done
                &&& after.schedule == self.schedule && after.generation == self.generation
            },
            _ => command == LoopCommand::Exit && after.phase is Done && after.schedule
                == self.schedule,
        }
    }

    /// Whether another state differs in nothing but where the thread stands.
    pub open spec fn stays(self, after: PluginLoop) -> bool {
        after.schedule == self.schedule && after.strikes == self.strikes && after.generation
            == self.generation
    }

    /// What follows from the end of a wait.
    pub open spec fn heard(
        self,
        recv: Result<PluginWork, RecvTimeoutError>,
        clock: Clock,
        after: PluginLoop,
        command: LoopCommand,
    ) -> bool {
        match recv {
            Ok(PluginWork::Stop) => {
                &&& command == LoopCommand::OnStop && after.phase is Done
                &&& self.stays(after)
            },
            Ok(work) => if work is JobComplete && work->generation != self.generation {
                after.strikes == 0 && self.chases(clock, after, command)
            } else {
                &&& command == LoopCommand::Handle(work) && after.phase is Working
                &&& self.stays(after)
            },
            Err(RecvTimeoutError::Timeout) => after.strikes == self.strikes && self.chases(
                clock,
                after,
                command,
            ),
            Err(RecvTimeoutError::Disconnected) => {
                &&& command == LoopCommand::Exit && after.phase is Done
                &&& self.stays(after)
            },
        }
    }

    /// What follows from a call of the plugin that has ended: a call for the
    /// schedule `fired`, or one with work.
    pub open spec fn called(
        self,
        outcome: CallOutcome,
        clock: Clock,
        fired: Option<Seq<char>>,
        after: PluginLoop,
        command: LoopCommand,
    ) -> bool {
        match outcome {
            CallOutcome::Completed => {
                &&& after.strikes == 0
                &&& if fired is Some && catches_up(self.schedule, fired->0) {
                    &&& command matches LoopCommand::RecordFire(name)
                    &&& name@ == fired->0
                    &&& after.phase is Recording
                    &&& after.schedule == self.schedule && after.generation == self.generation
                } else {
                    self.chases(clock, after, command)
                }
            },
            CallOutcome::DeadlineExceeded(error) => {
                &&& after.schedule == self.schedule
                &&& after.strikes == self.strikes + 1
                &&& if self.strikes + 1 >= CALL_DEADLINE_STRIKES {
                    &&& command matches LoopCommand::Disable { reason }
                    &&& reason@ == too_slow(error@, (self.strikes + 1) as nat)
                    &&& after.phase is Done
                    &&& after.generation == self.generation
                } else {
                    &&& command == LoopCommand::Reload
                    &&& after.phase == (LoopPhase::Reloading { error })
                    &&& after.generation == next_generation(self.generation)
                }
            },
            CallOutcome::Faulted(error) => {
                &&& command == (LoopCommand::Disable { reason: error })
                &&& after.phase is Done
                &&& after.schedule == self.schedule && after.generation == self.generation
            },
        }
    }

    /// Takes what has happened and says what to do.
    pub fn step(&mut self, event: LoopEvent) -> (r: LoopCommand)
        requires
            old(self).well_formed(),
        ensures
            final(self).well_formed(),
            old(self).steps(event, *final(self), r),
    {
        let mut phase = LoopPhase::Done;
        std::mem::swap(&mut self.phase, &mut phase);
        match (phase, event) {
            (LoopPhase::Idle, LoopEvent::Round { stop, clock }) => if stop {
                LoopCommand::OnStop
            } else {
                self.phase = LoopPhase::Waiting;
                let timeout: u128 = match self.schedule.until_next(clock) {
                    Some(left) => left,
                    None => SCHEDULE_LESS_FALLBACK_TIMEOUT,
                };
                LoopCommand::Wait { timeout }
            },
            (LoopPhase::Waiting, LoopEvent::Received { recv, clock }) => self.received(recv, clock),
            (LoopPhase::Working, LoopEvent::Called { outcome, clock }) => self.call_ended(
                outcome,
                clock,
                None,
            ),
            (LoopPhase::Firing { name }, LoopEvent::Called { outcome, clock }) => self.call_ended(
                outcome,
                clock,
                Some(name),
            ),
            (LoopPhase::Recording, LoopEvent::Recorded { clock }) => {
                self.strikes = 0;
                self.fire_all_due(clock)
            },
            (LoopPhase::Reloading { error }, LoopEvent::Reloaded(result)) => match result {
                Ok(_) => {
                    self.phase = LoopPhase::Idle;
                    LoopCommand::Again
                },
                Err(failure) => LoopCommand::Disable {
                    reason: joined3(
                        error.as_str(),
                        ", and the plugin could not be restarted: ",
                        failure.reason().as_str(),
                    ),
                },
            },
            _ => LoopCommand::Exit,
        }
    }

    /// Fires the next schedule that is due, if there is one.
    fn fire_all_due(&mut self, clock: Clock) -> (r: LoopCommand)
        requires
            old(self).schedule.well_formed(),
            old(self).strikes < CALL_DEADLINE_STRIKES,
        ensures
            final(self).well_formed(),
            final(self).strikes == old(self).strikes,
            old(self).chases(clock, *final(self), r),
    {
        let due = self.schedule.take_due(clock);
        assert(due_taken(old(self).schedule, clock, self.schedule, due));
        match due {
            Some(name) => {
                self.phase = LoopPhase::Firing { name: name.clone() };
                LoopCommand::Fire(name)
            },
            None => {
                self.phase = LoopPhase::Idle;
                LoopCommand::Again
            },
        }
    }

    fn received(&mut self, recv: Result<PluginWork, RecvTimeoutError>, clock: Clock) -> (r:
        LoopCommand)
        requires
            old(self).schedule.well_formed(),
            old(self).strikes < CALL_DEADLINE_STRIKES,
            old(self).phase is Done,
        ensures
            final(self).well_formed(),
            old(self).heard(recv, clock, *final(self), r),
    {
        let due = match &recv {
            Err(RecvTimeoutError::Timeout) => self.schedule.take_due(clock),
            _ => None,
        };
        match next_action(recv, due) {
            LoopAction::Handle(work) => {
                let stale = match &work {
                    PluginWork::JobComplete { generation, .. } => job_completion_verdict(
                        *generation,
                        self.generation,
                    ) == JobCompletionVerdict::DropStale,
                    _ => false,
                };
                if stale {
                    self.strikes = 0;
                    self.fire_all_due(clock)
                } else {
                    self.phase = LoopPhase::Working;
                    LoopCommand::Handle(work)
                }
            },
            LoopAction::Fire(name) => {
                self.phase = LoopPhase::Firing { name: name.clone() };
                assert(due_taken(old(self).schedule, clock, self.schedule, Some(name)));
                LoopCommand::Fire(name)
            },
            LoopAction::Idle => {
                self.phase = LoopPhase::Idle;
                assert(due_taken(old(self).schedule, clock, self.schedule, None));
                LoopCommand::Again
            },
            LoopAction::Exit => LoopCommand::Exit,
            LoopAction::Stop => LoopCommand::OnStop,
        }
    }

    fn call_ended(&mut self, outcome: CallOutcome, clock: Clock, fired: Option<String>) -> (r:
        LoopCommand)
        requires
            old(self).schedule.well_formed(),
            old(self).strikes < CALL_DEADLINE_STRIKES,
            old(self).phase is Done,
        ensures
            final(self).well_formed(),
            old(self).called(
                outcome,
                clock,
                match fired {
                    Some(name) => Some(name@),
                    None => None,
                },
                *final(self),
                r,
            ),
    {
        match outcome {
            CallOutcome::Completed => {
                self.strikes = 0;
                match fired {
                    Some(name) => if self.schedule.is_catch_up(name.as_str()) {
                        self.phase = LoopPhase::Recording;
                        LoopCommand::RecordFire(name)
                    } else {
                        self.fire_all_due(clock)
                    },
                    None => self.fire_all_due(clock),
                }
            },
            CallOutcome::DeadlineExceeded(error) => {
                self.strikes = self.strikes + 1;
                match deadline_verdict(self.strikes) {
                    DeadlineVerdict::GiveUp => {
                        let count = decimal_text(self.strikes as u64);
                        LoopCommand::Disable {
                            reason: joined(
                                joined3(error.as_str(), " on ", count.as_str()).as_str(),
                                " consecutive calls; the plugin is persistently too slow (a blocked host call, or work that does not fit the deadline)",
                            ),
                        }
                    },
                    DeadlineVerdict::Restart => {
                        self.generation = if self.generation == u64::MAX {
                            0
                        } else {
                            self.generation + 1
                        };
                        self.phase = LoopPhase::Reloading { error };
                        LoopCommand::Reload
                    },
                }
            },
            CallOutcome::Faulted(error) => LoopCommand::Disable { reason: error },
        }
    }
}

/// Whether a schedule of that name asks to catch up.
pub open spec fn catches_up(schedule: ScheduleState, name: Seq<char>) -> bool {
    exists|i: int| #![trigger schedule.entries@[i]]
        0 <= i < schedule.entries.len() && schedule.entries@[i].name@ == name
            && schedule.entries@[i].catch_up
}

/// Whether a wait is as long as the first schedule has left, or the fallback if
/// there is none.
pub open spec fn waits_for(schedule: ScheduleState, clock: Clock, timeout: u128) -> bool {
    if schedule.entries.len() == 0 {
        timeout == SCHEDULE_LESS_FALLBACK_TIMEOUT
    } else {
        &&& forall|i: int|
            0 <= i < schedule.entries.len() ==> timeout <= (#[trigger] schedule.entries@[i]).next.left(
                clock,
            )
        &&& exists|i: int| #![trigger schedule.entries@[i]]
            0 <= i < schedule.entries.len() && timeout == schedule.entries@[i].next.left(clock)
    }
}

/// The order to go down is obeyed at the start of a round, before any work that
/// waits is looked at.
pub proof fn law_stop_overtakes_waiting_work(
    before: PluginLoop,
    clock: Clock,
    after: PluginLoop,
    command: LoopCommand,
)
    requires
        before.phase is Idle,
        before.steps((LoopEvent::Round { stop: true, clock }), after, command),
    ensures
        command is OnStop,
        after.phase is Done,
{
}

/// A plugin is given up only when it is broken, when its calls ran out of time
/// too often in a row, or when it did not come up again after such a call.
pub proof fn law_a_plugin_is_given_up_for_a_cause(
    before: PluginLoop,
    event: LoopEvent,
    after: PluginLoop,
    command: LoopCommand,
)
    requires
        before.steps(event, after, command),
        command is Disable,
    ensures
        match event {
            LoopEvent::Called { outcome: CallOutcome::Faulted(_), .. } => true,
            LoopEvent::Called { outcome: CallOutcome::DeadlineExceeded(_), .. } => before.strikes + 1
                >= CALL_DEADLINE_STRIKES,
            LoopEvent::Reloaded(result) => result is Err,
            _ => false,
        },
{
}

/// One call that ends well wipes out the strikes before it, and a plugin
/// without strikes is loaded anew after a call that ran out of time, not given
/// up.
pub proof fn law_only_strikes_in_a_row_count(
    before: PluginLoop,
    outcome: CallOutcome,
    clock: Clock,
    after: PluginLoop,
    command: LoopCommand,
)
    requires
        before.phase is Working || before.phase is Firing,
        before.steps((LoopEvent::Called { outcome, clock }), after, command),
    ensures
        outcome is Completed ==> after.strikes == 0,
        outcome is DeadlineExceeded && before.strikes == 0 ==> command is Reload,
{
}

/// A completed job only ever reaches the instance that submitted it: one that
/// is handed on bears the present generation, and loading the plugin anew
/// changes the generation.
pub proof fn law_a_completed_job_reaches_its_own_instance(
    before: PluginLoop,
    event: LoopEvent,
    after: PluginLoop,
    command: LoopCommand,
)
    requires
        before.steps(event, after, command),
    ensures
        command matches LoopCommand::Handle(PluginWork::JobComplete { generation, .. })
            ==> generation == before.generation,
        command is Reload ==> after.generation != before.generation,
{
}

/// Work goes before schedules, and a schedule that is due meanwhile is not lost:
/// it is still due after the call, when the schedules are looked at again.
pub proof fn law_work_goes_before_schedules(
    before: PluginLoop,
    recv: Result<PluginWork, RecvTimeoutError>,
    clock: Clock,
    after: PluginLoop,
    command: LoopCommand,
)
    requires
        before.phase is Waiting,
        before.steps((LoopEvent::Received { recv, clock }), after, command),
        recv is Ok,
        command is Handle || command is OnStop,
    ensures
        after.schedule == before.schedule,
{
}

/// A round ends only when no schedule is due.
pub proof fn law_a_round_leaves_nothing_due(
    before: PluginLoop,
    clock: Clock,
    after: PluginLoop,
    command: LoopCommand,
    i: int,
)
    requires
        before.chases(clock, after, command),
        command is Again,
        0 <= i < after.schedule.entries.len(),
    ensures
        !after.schedule.due(i, clock),
{
}

/// A thread at its end stays there.
pub proof fn law_the_end_is_final(
    before: PluginLoop,
    event: LoopEvent,
    after: PluginLoop,
    command: LoopCommand,
)
    requires
        before.phase is Done,
        before.steps(event, after, command),
    ensures
        after.phase is Done,
        command is Exit,
{
}

/// Work that a waiting thread receives is handed to the plugin as it is: every
/// event, every delivery, and every completed job of the instance that runs, and of
/// no other. Nothing else changes meanwhile. The order to stop is no such work.
pub proof fn law_received_work_is_handed_over(
    before: PluginLoop,
    work: PluginWork,
    clock: Clock,
    after: PluginLoop,
    command: LoopCommand,
)
    requires
        before.phase is Waiting,
        before.steps((LoopEvent::Received { recv: Ok(work), clock }), after, command),
    ensures
        work is Event ==> command == LoopCommand::Handle(work),
        work is Message ==> command == LoopCommand::Handle(work),
        work matches PluginWork::JobComplete { generation, .. } ==> {
            &&& generation == before.generation ==> command == LoopCommand::Handle(work)
            &&& generation != before.generation ==> command is Fire || command is Again
        },
        work is Stop ==> command is OnStop && after.phase is Done,
        command is Handle ==> {
            &&& after.phase is Working
            &&& after.schedule == before.schedule
            &&& after.strikes == before.strikes
            &&& after.generation == before.generation
        },
{
}

/// A waiting thread that receives nothing goes on with the schedules if it only
/// waited long enough, and ends if nobody can send it anything.
pub proof fn law_a_wait_ends_in_time_or_for_good(
    before: PluginLoop,
    error: RecvTimeoutError,
    clock: Clock,
    after: PluginLoop,
    command: LoopCommand,
)
    requires
        before.phase is Waiting,
        before.steps((LoopEvent::Received { recv: Err(error), clock }), after, command),
    ensures
        error is Timeout ==> command is Fire || command is Again,
        error is Timeout ==> after.strikes == before.strikes,
        error is Disconnected ==> command is Exit && after.phase is Done,
        after.generation == before.generation,
{
}

/// A round that is not the last waits for just as long as no schedule comes: not
/// past the first that does, and an hour if there is no schedule at all.
pub proof fn law_a_wait_is_over_when_a_schedule_comes(
    before: PluginLoop,
    clock: Clock,
    after: PluginLoop,
    command: LoopCommand,
)
    requires
        before.phase is Idle,
        before.steps((LoopEvent::Round { stop: false, clock }), after, command),
    ensures
        after.phase is Waiting,
        after.schedule == before.schedule,
        after.strikes == before.strikes,
        after.generation == before.generation,
        command is Wait,
        before.schedule.entries.len() == 0 ==> command->timeout == 3_600_000_000_000,
        forall|i: int|
            0 <= i < before.schedule.entries.len() ==> match (
            #[trigger] before.schedule.entries@[i]).next {
                NextFire::Mono(at) => command->timeout == 0 || clock.mono + command->timeout <= at,
                NextFire::Wall(at) => command->timeout == 0 || clock.wall + command->timeout <= at,
            },
        before.schedule.entries.len() > 0 ==> exists|i: int| #![trigger before.schedule.entries@[i]]
            0 <= i < before.schedule.entries.len() && match before.schedule.entries@[i].next {
                NextFire::Mono(at) => at <= clock.mono + command->timeout,
                NextFire::Wall(at) => at <= clock.wall + command->timeout,
            },
{
    let timeout = command->timeout;
    assert(waits_for(before.schedule, clock, timeout));
    if before.schedule.entries.len() > 0 {
        let i = choose|i: int| #![trigger before.schedule.entries@[i]]
            0 <= i < before.schedule.entries.len() && timeout
                == before.schedule.entries@[i].next.left(clock);
        assert(before.schedule.entries@[i].next.left(clock) == timeout);
    }
}

/// A schedule that is fired has come by the clock that its time is on, and none
/// before it in declaration order has. A round that begins anew finds none that has.
pub proof fn law_the_first_that_has_come_is_fired(
    before: PluginLoop,
    event: LoopEvent,
    clock: Clock,
    after: PluginLoop,
    command: LoopCommand,
)
    requires
        before.steps(event, after, command),
        event matches LoopEvent::Received { clock: at, .. } ==> at == clock,
        event matches LoopEvent::Called { clock: at, .. } ==> at == clock,
        event matches LoopEvent::Recorded { clock: at } ==> at == clock,
        !(event is Reloaded),
    ensures
        command matches LoopCommand::Fire(name) ==> exists|i: int|
            #![trigger before.schedule.entries@[i]]
            {
                &&& 0 <= i < before.schedule.entries.len()
                &&& before.schedule.entries@[i].name@ == name@
                &&& match before.schedule.entries@[i].next {
                    NextFire::Mono(at) => at <= clock.mono,
                    NextFire::Wall(at) => at <= clock.wall,
                }
                &&& forall|j: int|
                    0 <= j < i ==> match (#[trigger] before.schedule.entries@[j]).next {
                        NextFire::Mono(at) => at > clock.mono,
                        NextFire::Wall(at) => at > clock.wall,
                    }
            },
        command matches LoopCommand::Fire(name) ==> after.phase is Firing && after.phase->name@
            == name@,
        command is Again ==> after.phase is Idle && after.schedule == before.schedule,
        command is Again ==> forall|j: int|
            0 <= j < before.schedule.entries.len() ==> match (
            #[trigger] before.schedule.entries@[j]).next {
                NextFire::Mono(at) => at > clock.mono,
                NextFire::Wall(at) => at > clock.wall,
            },
{
    if command is Fire || command is Again {
        assert(before.chases(clock, after, command));
        let due = choose|due: Option<String>|
            {
                &&& #[trigger] due_taken(before.schedule, clock, after.schedule, due)
                &&& after.generation == before.generation
                &&& match due {
                    Some(name) => {
                        &&& command matches LoopCommand::Fire(fired)
                        &&& fired@ == name@
                        &&& after.phase matches LoopPhase::Firing { name: firing }
                        &&& firing@ == name@
                    },
                    None => command == LoopCommand::Again && after.phase is Idle,
                }
            };
        match due {
            Some(name) => {
                let i = choose|i: int| #[trigger]
                    took(before.schedule, clock, after.schedule, i) && name@
                        == before.schedule.entries@[i].name@;
                assert forall|j: int| 0 <= j < i implies match (
                #[trigger] before.schedule.entries@[j]).next {
                    NextFire::Mono(at) => at > clock.mono,
                    NextFire::Wall(at) => at > clock.wall,
                } by {
                    assert(!before.schedule.due(j, clock));
                }
            },
            None => {
                assert forall|j: int| 0 <= j < before.schedule.entries.len() implies match (
                #[trigger] before.schedule.entries@[j]).next {
                    NextFire::Mono(at) => at > clock.mono,
                    NextFire::Wall(at) => at > clock.wall,
                } by {
                    assert(!before.schedule.due(j, clock));
                }
            },
        }
    }
}

/// A call that ends well leaves no strikes. The fire of a schedule is recorded just if
/// a schedule of that name asks to catch up, and all else goes on with the schedules.
pub proof fn law_a_call_that_ends_well_is_followed_up(
    before: PluginLoop,
    clock: Clock,
    after: PluginLoop,
    command: LoopCommand,
)
    requires
        before.phase is Working || before.phase is Firing,
        before.steps(
            (LoopEvent::Called { outcome: CallOutcome::Completed, clock }),
            after,
            command,
        ),
    ensures
        after.strikes == 0,
        after.generation == before.generation,
        before.phase is Working ==> command is Fire || command is Again,
        before.phase is Firing ==> command is RecordFire || command is Fire || command is Again,
        before.phase is Firing ==> (command is RecordFire <==> exists|i: int|
            #![trigger before.schedule.entries@[i]]
            0 <= i < before.schedule.entries.len() && before.schedule.entries@[i].catch_up
                && before.schedule.entries@[i].name@ == before.phase->name@),
        command matches LoopCommand::RecordFire(name) ==> {
            &&& name@ == before.phase->name@
            &&& after.phase is Recording
            &&& after.schedule == before.schedule
        },
{
    if before.phase is Firing {
        assert(catches_up(before.schedule, before.phase->name@) <==> exists|i: int|
            #![trigger before.schedule.entries@[i]]
            0 <= i < before.schedule.entries.len() && before.schedule.entries@[i].catch_up
                && before.schedule.entries@[i].name@ == before.phase->name@);
    }
}

/// Recording a fire goes on with the schedules.
pub proof fn law_a_recorded_fire_is_followed_up(
    before: PluginLoop,
    clock: Clock,
    after: PluginLoop,
    command: LoopCommand,
)
    requires
        before.phase is Recording,
        before.steps((LoopEvent::Recorded { clock }), after, command),
    ensures
        command is Fire || command is Again,
        after.strikes == 0,
        after.generation == before.generation,
{
}

/// The first and the second call in a row that run out of time have the plugin loaded
/// anew, the third has it given up. A plugin that is broken is given up at once, for the
/// reason it gives.
pub proof fn law_slow_calls_are_counted_to_three(
    before: PluginLoop,
    outcome: CallOutcome,
    clock: Clock,
    after: PluginLoop,
    command: LoopCommand,
)
    requires
        before.phase is Working || before.phase is Firing,
        before.steps((LoopEvent::Called { outcome, clock }), after, command),
    ensures
        outcome is DeadlineExceeded ==> after.strikes == before.strikes + 1,
        outcome is DeadlineExceeded && before.strikes < 2 ==> {
            &&& command is Reload
            &&& after.phase is Reloading
            &&& after.phase->error == outcome->DeadlineExceeded_0
            &&& after.generation != before.generation
        },
        outcome is DeadlineExceeded && before.strikes >= 2 ==> {
            &&& command is Disable
            &&& after.phase is Done
            &&& outcome->DeadlineExceeded_0@.is_prefix_of(command->reason@)
        },
        outcome matches CallOutcome::Faulted(error) ==> command == (LoopCommand::Disable {
            reason: error,
        }) && after.phase is Done,
        !(outcome is Completed) ==> after.schedule == before.schedule,
{
    if outcome is DeadlineExceeded && before.strikes >= 2 {
        let error = outcome->DeadlineExceeded_0@;
        assert(error =~= command->reason@.take(error.len() as int));
    }
}

/// A plugin that came up anew goes on as before. One that did not is given up, and the
/// reason names both the call that was too slow and what went wrong then.
pub proof fn law_a_reload_goes_on_or_gives_up(
    before: PluginLoop,
    result: Result<(), LoadFailure>,
    after: PluginLoop,
    command: LoopCommand,
)
    requires
        before.phase is Reloading,
        before.steps((LoopEvent::Reloaded(result)), after, command),
    ensures
        result is Ok ==> {
            &&& command is Again
            &&& after.phase is Idle
            &&& after.schedule == before.schedule
            &&& after.strikes == before.strikes
            &&& after.generation == before.generation
        },
        result matches Err(failure) ==> {
            &&& command is Disable
            &&& after.phase is Done
            &&& before.phase->error@.is_prefix_of(command->reason@)
            &&& match failure {
                LoadFailure::Load(why) => why@.is_suffix_of(command->reason@),
                LoadFailure::Init(why) => why@.is_suffix_of(command->reason@),
            }
        },
{
    if let Err(failure) = result {
        let reason = command->reason@;
        let error = before.phase->error@;
        assert(error =~= reason.take(error.len() as int));
        match failure {
            LoadFailure::Load(why) => {
                assert(why@ =~= reason.skip(reason.len() - why@.len()));
            },
            LoadFailure::Init(why) => {
                assert(why@ =~= reason.skip(reason.len() - why@.len()));
            },
        }
    }
}

/// A plugin is started again after one or two calls in a row that ran out of time, and given
/// up from the third on. A completed job is delivered to the generation that submitted it, and
/// to no other.
pub proof fn law_three_strikes_and_one_generation(strikes: u32, job: u64, current: u64)
    ensures
        strikes < 3 ==> verdict_after(strikes) == DeadlineVerdict::Restart,
        strikes >= 3 ==> verdict_after(strikes) == DeadlineVerdict::GiveUp,
        job == current ==> verdict_on_job(job, current) == JobCompletionVerdict::Deliver,
        job != current ==> verdict_on_job(job, current) == JobCompletionVerdict::DropStale,
{
}

/// What was received decides what to do, and a schedule that is due only matters when nothing
/// came in time.
pub proof fn law_a_due_schedule_waits_for_work(
    recv: Result<PluginWork, RecvTimeoutError>,
    due: Option<String>,
)
    ensures
        recv matches Ok(work) ==> (work is Stop ==> chosen_action(recv, due) is Stop) && (!(
        work is Stop) ==> chosen_action(recv, due) == LoopAction::Handle(work)),
        recv == Err::<PluginWork, _>(RecvTimeoutError::Timeout) ==> (due matches Some(name)
            ==> chosen_action(recv, due) == LoopAction::Fire(name)) && (due is None
            ==> chosen_action(recv, due) is Idle),
        recv == Err::<PluginWork, _>(RecvTimeoutError::Disconnected) ==> chosen_action(
            recv,
            due,
        ) is Exit,
{
}

/// Events, deliveries and completed jobs are each handed to the function for them.
pub proof fn law_work_goes_to_its_own_function(work: PluginWork)
    ensures
        work is Event ==> function_for(work) == CallKind::OnEvent,
        work is Message ==> function_for(work) == CallKind::OnMessage,
        work is JobComplete ==> function_for(work) == CallKind::OnJobComplete,
{
}

/// Measurements name what work was about: a journal entry by its name, the status as such, a
/// delivery by its driver and its topic, and a job by its number.
pub proof fn law_measurements_name_the_work(work: PluginWork)
    ensures
        work matches PluginWork::Event(event) ==> (*event matches Event::Journal { event: name, .. }
            ==> detail(work) == name@) && (*event is Status ==> detail(work) == "status"@),
        work matches PluginWork::Message(delivery) ==> detail(work) == delivery.driver_id@ + "/"@
            + delivery.topic@,
        work matches PluginWork::JobComplete { job_id, .. } ==> detail(work) == decimal(
            job_id as nat,
        ),
{
}

/// A plugin is told all of a journal entry, and of the status that it is one and what it says.
pub proof fn law_a_plugin_is_told_all_of_an_event(
    event: Event,
    kind: Seq<char>,
    time: Option<String>,
    name: Option<String>,
    content: Seq<char>,
    old_entry: bool,
)
    requires
        tells_event(event, kind, time, name, content, old_entry),
    ensures
        event matches Event::Journal { timestamp, event: entry, raw, replay } ==> kind
            == "journal"@ && time == Some(timestamp) && name == Some(entry) && content == json_text(
            json_tree(raw),
        ) && old_entry == replay,
        event matches Event::Status { raw } ==> kind == "status"@ && time is None && name is None
            && content == json_text(json_tree(raw)) && !old_entry,
{
}

/// A plugin that did not come up is given up with the reason: that its code did not load, or
/// that its own start failed, and the error.
pub proof fn law_a_failed_load_is_put_into_words(failure: LoadFailure)
    ensures
        failure matches LoadFailure::Load(e) ==> failure.text()
            == "failed to load plugin component: "@ + e@,
        failure matches LoadFailure::Init(e) ==> failure.text() == "init() failed: "@ + e@,
{
}

} // verus!
