//! Running drivers.

use vstd::prelude::*;

use crate::capability::{GrantKind, GrantStorage, GrantTarget};
use crate::json::{
    json_object, json_print, json_string, json_text, json_u64, map_insert, map_new, no_members,
    JsonTree,
};
use crate::manifest::DriverManifest;
use crate::registry::driver::{DriverEntry, DriverState};
use crate::runner::bootstrap::{
    buffers_say, build_initial_buffers, law_initial_hosts_are_approved, usable_roots,
    usable_sidecars, InitialBuffers,
};
use crate::runner::plugin::queue::{pushed, Admit, PushError, SharedState, WorkPolicy};
use crate::runtime::buffer::{all_redacted, entries_of};
use crate::runtime::capabilities::hosts_of;
use crate::runtime::fs::FsRuntimeEntry;
use crate::runtime::sidecar::{local_hosts, SidecarRuntimeEntry};
use crate::settings::{ConfigStorage, Storage};
use crate::text::{joined, joined3, same_text};

verus! {

/// How much work waits for a driver before plugins' messages are turned down.
pub const DRIVER_MESSAGE_QUEUE_CAPACITY: usize = 64;

/// A message to a driver.
#[derive(Debug, PartialEq, Eq)]
pub struct Message {
    pub from: String,
    pub topic: String,
    pub payload: Vec<u8>,
}

/// What a driver's thread has to do. Messages and completed jobs share one queue,
/// so that a driver is only ever in one call.
#[derive(Debug)]
pub enum DriverWork {
    Message(Message),
    /// A job that the driver submitted has ended. The generation tells the
    /// instance that submitted it.
    JobComplete { generation: u64, job_id: u64, result_json: String },
    /// Nothing more will come.
    Disconnected,
}

/// The sender of messages that come from the daemon itself.
pub open spec fn host_sender() -> Seq<char> {
    "host"@
}

/// Whether work comes from a plugin.
pub open spec fn from_plugin(work: DriverWork) -> bool {
    work matches DriverWork::Message(message) && message.from@ != host_sender()
}

/// What a driver's queue does: it turns messages of plugins down at its capacity,
/// and takes everything else.
pub open spec fn driver_verdict(len: nat, work: DriverWork) -> Admit {
    if len >= DRIVER_MESSAGE_QUEUE_CAPACITY && from_plugin(work) {
        Admit::DropNewest
    } else {
        Admit::Accept
    }
}

/// The verdict of a driver's queue.
pub fn admit_driver_work(queue_len: usize, work: &DriverWork) -> (r: Admit)
    ensures
        r == driver_verdict(queue_len as nat, *work),
{
    match work {
        DriverWork::Message(message) => if same_text(message.from.as_str(), "host") {
            Admit::Accept
        } else if queue_len >= DRIVER_MESSAGE_QUEUE_CAPACITY {
            Admit::DropNewest
        } else {
            Admit::Accept
        },
        _ => Admit::Accept,
    }
}

/// The policy of a driver's queue. It never drops what is waiting.
#[derive(Debug, Clone, Copy)]
pub struct DriverPolicy;

impl WorkPolicy<DriverWork> for DriverPolicy {
    open spec fn verdict(&self, len: nat, work: DriverWork) -> Admit {
        driver_verdict(len, work)
    }

    open spec fn expendable(&self, work: DriverWork) -> bool {
        false
    }

    fn judge(&self, queue_len: usize, work: &DriverWork) -> Admit {
        admit_driver_work(queue_len, work)
    }

    fn evictable(&self, work: &DriverWork) -> bool {
        false
    }
}

/// Why a driver does not take a message.
#[derive(Debug, Clone, Copy, PartialEq, Eq, Structural)]
pub enum SinkError {
    /// Its queue is full.
    Full,
    /// It is gone.
    Closed,
}

/// What sending a message to a driver does and returns. Nothing is ever lost
/// silently: a message that does not fit is handed back as an error.
pub open spec fn message_sent(
    before: SharedState<DriverWork, DriverPolicy>,
    message: Message,
    after: SharedState<DriverWork, DriverPolicy>,
    r: Result<(), SinkError>,
) -> bool {
    let queue = before.queue@;
    if !before.receiver_alive {
        r == Err::<(), _>(SinkError::Closed) && after.queue@ == queue
    } else if queue.len() >= DRIVER_MESSAGE_QUEUE_CAPACITY && message.from@ != host_sender() {
        r == Err::<(), _>(SinkError::Full) && after.queue@ == queue
    } else {
        r is Ok && after.queue@ == queue.push(DriverWork::Message(message))
    }
}

/// Sends a message to a driver.
pub fn send_message(queue: &mut SharedState<DriverWork, DriverPolicy>, message: Message) -> (r:
    Result<(), SinkError>)
    ensures
        message_sent(*old(queue), message, *final(queue), r),
        final(queue).same_ends(*old(queue)),
{
    match queue.add_work(DriverWork::Message(message)) {
        Ok(_) => Ok(()),
        Err(PushError::Dropped) => Err(SinkError::Full),
        Err(PushError::Disconnected) => Err(SinkError::Closed),
    }
}

/// Tells a driver that nothing more will come.
pub fn send_disconnected(queue: &mut SharedState<DriverWork, DriverPolicy>)
    ensures
        final(queue).same_ends(*old(queue)),
        final(queue).queue@ == if old(queue).receiver_alive {
            old(queue).queue@.push(DriverWork::Disconnected)
        } else {
            old(queue).queue@
        },
{
    let _pushed = queue.add_work(DriverWork::Disconnected);
}

/// Whether a text is parted at its first slash.
pub open spec fn parted(key: Seq<char>, before: Seq<char>, after: Seq<char>) -> bool {
    key == before + seq!['/'] + after && !before.contains('/')
}

/// What stands before and after the first slash of a text, if it has one.
pub fn split_once(key: &str) -> (r: Option<(String, String)>)
    ensures
        r is Some <==> key@.contains('/'),
        r matches Some((before, after)) ==> parted(key@, before@, after@),
{
    let len: usize = key.unicode_len();
    let mut i: usize = 0;
    while i < len
        invariant
            i <= len,
            len == key@.len(),
            forall|j: int| 0 <= j < i ==> key@[j] != '/',
        decreases len - i,
    {
        if key.get_char(i) == '/' {
            let before = key.substring_char(0, i).to_owned();
            let after = key.substring_char(i + 1, len).to_owned();
            assert(key@[i as int] == '/');
            assert(key@ =~= before@ + seq!['/'] + after@);
            return Some((before, after));
        }
        i = i + 1;
    }
    None
}

/// What a driver is told of a sidecar that is ready.
#[derive(Debug, PartialEq, Eq)]
pub struct ReadyNotice {
    pub driver_id: String,
    pub message: Message,
}

/// What a ready sidecar is described by.
pub open spec fn ready_tree(name: Seq<char>, index: u32, port: u16) -> JsonTree {
    JsonTree::Object(
        no_members().insert("name"@, JsonTree::Text(name)).insert(
            "index"@,
            JsonTree::Int(index as int),
        ).insert("port"@, JsonTree::Int(port as int)),
    )
}

/// Whether a notice says that the sidecar of a name under a key is ready.
pub open spec fn tells_ready(
    notice: ReadyNotice,
    key: Seq<char>,
    name: Seq<char>,
    index: u32,
    port: u16,
) -> bool {
    &&& parted(key, notice.driver_id@, name)
    &&& notice.message.from@ == host_sender()
    &&& notice.message.topic@ == "sidecar-ready"@
    &&& notice.message.payload@ == vstd::utf8::encode_utf8(
        json_text(ready_tree(name, index, port)),
    )
}

/// Whether a notice says that the sidecar under a key is ready.
pub open spec fn tells_of_key(notice: ReadyNotice, key: Seq<char>, index: u32, port: u16) -> bool {
    exists|name: Seq<char>| tells_ready(notice, key, name, index, port)
}

/// What the owner of a sidecar is told when it is ready: a message of the daemon
/// to the driver that its key names. A key that names no driver is passed over.
pub fn forward_sidecar_ready(key: &str, index: u32, port: u16) -> (r: Option<ReadyNotice>)
    ensures
        r is Some <==> key@.contains('/'),
        r matches Some(notice) ==> tells_of_key(notice, key@, index, port),
{
    let (driver_id, name) = match split_once(key) {
        Some(parts) => parts,
        None => {
            return None;
        },
    };
    let mut members = map_new();
    map_insert(&mut members, "name", json_string(name.as_str()));
    map_insert(&mut members, "index", json_u64(index as u64));
    map_insert(&mut members, "port", json_u64(port as u64));
    let text = json_print(&json_object(members));
    assert(text@ == json_text(ready_tree(name@, index, port)));
    let payload = text.as_str().as_bytes_vec();
    let notice = ReadyNotice {
        driver_id,
        message: Message { from: "host".to_owned(), topic: "sidecar-ready".to_owned(), payload },
    };
    assert(tells_ready(notice, key@, name@, index, port));
    Some(notice)
}

/// Whether a driver is registered in a state: what its thread has reported, or that it has
/// ended without a report.
pub open spec fn driver_registered_in(report: Option<DriverState>, state: DriverState) -> bool {
    match report {
        Some(reported) => state == reported,
        None => state matches DriverState::Disabled { reason } && reason@
            == "driver thread exited before reporting an init result"@,
    }
}

/// The state that a driver is registered in: what its thread has reported, or that
/// it has ended without a report.
pub fn reported_driver_state(report: Option<DriverState>) -> (r: DriverState)
    ensures
        match report {
            Some(state) => r == state,
            None => r matches DriverState::Disabled { reason } && reason@
                == "driver thread exited before reporting an init result"@,
        },
        driver_registered_in(report, r),
{
    match report {
        Some(state) => state,
        None => DriverState::Disabled {
            reason: "driver thread exited before reporting an init result".to_owned(),
        },
    }
}

/// Whether an entry is as a driver starts.
pub open spec fn driver_starts_as<St: Storage, G: GrantStorage, C: ConfigStorage>(
    settings: St,
    grants: G,
    configs: C,
    manifest: DriverManifest,
    entry: DriverEntry,
) -> bool {
    &&& entry.manifest@ == manifest@
    &&& buffers_say(
        settings,
        grants,
        configs,
        manifest@.settings_manifest(),
        (InitialBuffers {
            settings_json: entry.settings_json,
            capabilities_json: entry.capabilities_json,
            sidecars_json: entry.sidecars_json,
            filesystem_json: entry.filesystem_json,
        }),
    )
    &&& entry.bus_json@.len() == 0
}

/// The entry of a driver that starts. It runs until its thread says otherwise.
pub fn initial_driver_entry<St: Storage, G: GrantStorage, C: ConfigStorage>(
    manifest: &DriverManifest,
    settings: &St,
    grants: &G,
    configs: &C,
    layout: Option<serde_json::Value>,
) -> (r: DriverEntry)
    ensures
        driver_starts_as(*settings, *grants, *configs, *manifest, r),
        r.state is Running,
        r.layout == layout,
{
    let buffers = build_initial_buffers(manifest, settings, grants, configs);
    let bus_json = String::new();
    DriverEntry {
        manifest: manifest.clone(),
        state: DriverState::Running,
        settings_json: buffers.settings_json,
        capabilities_json: buffers.capabilities_json,
        sidecars_json: buffers.sidecars_json,
        filesystem_json: buffers.filesystem_json,
        bus_json,
        layout,
    }
}

/// What has happened to the thread of a driver. A text says what went wrong.
#[derive(Debug)]
pub enum DriverEvent {
    /// The driver's code was loaded, or could not be.
    Loaded(Result<(), String>),
    /// The driver's own start has ended.
    Initialized(Result<(), String>),
    /// The report of the start was taken, or nobody waits for it any more.
    Reported(bool),
    /// Work has come, or nobody can send any.
    Received(Option<DriverWork>),
    /// The call of the driver has ended.
    Called(Result<(), String>),
}

/// What the thread of a driver has to do.
#[derive(Debug)]
pub enum DriverCommand {
    /// Let the driver start.
    Init,
    /// Report that the driver did not load, and end.
    ReportUnloaded { reason: String },
    /// Take the driver out of service, report that, and end.
    ReportFailed { reason: String },
    /// Report that the driver runs.
    ReportRunning,
    /// Wait for work.
    Receive,
    /// Call the driver with a message.
    OnMessage(Message),
    /// Call the driver with a completed job.
    OnJobComplete { job_id: u64, result_json: String },
    /// Take the driver out of service, and end.
    Disable { reason: String },
    /// End.
    Exit,
}

/// Where the thread of a driver stands.
#[derive(Debug, Clone, Copy, PartialEq, Eq, Structural)]
pub enum DriverPhase {
    Loading,
    Initializing,
    Reporting,
    Waiting,
    InMessage,
    InJob,
    Done,
}

/// The state of a driver's thread.
#[derive(Debug)]
pub struct DriverLoop {
    pub phase: DriverPhase,
    pub generation: u64,
}

/// The reason for giving up a driver whose call failed.
pub open spec fn call_failed(call: Seq<char>, error: Seq<char>) -> Seq<char> {
    call + " call failed: "@ + error
}

impl DriverLoop {
    /// What follows from an event.
    pub open spec fn steps(self, event: DriverEvent, after: DriverPhase, command: DriverCommand) -> bool {
        match (self.phase, event) {
            (DriverPhase::Loading, DriverEvent::Loaded(Ok(_))) => command == DriverCommand::Init
                && after == DriverPhase::Initializing,
            (DriverPhase::Loading, DriverEvent::Loaded(Err(e))) => {
                &&& command matches DriverCommand::ReportUnloaded { reason }
                &&& reason@ == "failed to load driver component: "@ + e@
                &&& after == DriverPhase::Done
            },
            (DriverPhase::Initializing, DriverEvent::Initialized(Ok(_))) => command
                == DriverCommand::ReportRunning && after == DriverPhase::Reporting,
            (DriverPhase::Initializing, DriverEvent::Initialized(Err(e))) => {
                &&& command matches DriverCommand::ReportFailed { reason }
                &&& reason@ == "init() failed: "@ + e@
                &&& after == DriverPhase::Done
            },
            (DriverPhase::Reporting, DriverEvent::Reported(true)) => command
                == DriverCommand::Receive && after == DriverPhase::Waiting,
            (DriverPhase::Waiting, DriverEvent::Received(Some(DriverWork::Message(message)))) =>
            command == DriverCommand::OnMessage(message) && after == DriverPhase::InMessage,
            (
                DriverPhase::Waiting,
                DriverEvent::Received(
                    Some(DriverWork::JobComplete { generation, job_id, result_json }),
                ),
            ) => if generation == self.generation {
                command == (DriverCommand::OnJobComplete { job_id, result_json }) && after
                    == DriverPhase::InJob
            } else {
                command == DriverCommand::Receive && after == DriverPhase::Waiting
            },
            (DriverPhase::InMessage, DriverEvent::Called(Err(e))) => {
                &&& command matches DriverCommand::Disable { reason }
                &&& reason@ == call_failed("on-message"@, e@)
                &&& after == DriverPhase::Done
            },
            (DriverPhase::InJob, DriverEvent::Called(Err(e))) => {
                &&& command matches DriverCommand::Disable { reason }
                &&& reason@ == call_failed("on-job-complete"@, e@)
                &&& after == DriverPhase::Done
            },
            (DriverPhase::InMessage, DriverEvent::Called(Ok(_))) => command
                == DriverCommand::Receive && after == DriverPhase::Waiting,
            (DriverPhase::InJob, DriverEvent::Called(Ok(_))) => command == DriverCommand::Receive
                && after == DriverPhase::Waiting,
            _ => command == DriverCommand::Exit && after == DriverPhase::Done,
        }
    }

    /// The thread of a driver that is being loaded.
    pub fn start() -> (r: DriverLoop)
        ensures
            r.phase == DriverPhase::Loading,
            r.generation == 0,
    {
        DriverLoop { phase: DriverPhase::Loading, generation: 0 }
    }

    /// Takes what has happened and says what to do.
    pub fn step(&mut self, event: DriverEvent) -> (r: DriverCommand)
        ensures
            final(self).generation == old(self).generation,
            old(self).steps(event, final(self).phase, r),
    {
        let phase = self.phase;
        self.phase = DriverPhase::Done;
        match (phase, event) {
            (DriverPhase::Loading, DriverEvent::Loaded(Ok(_))) => {
                self.phase = DriverPhase::Initializing;
                DriverCommand::Init
            },
            (DriverPhase::Loading, DriverEvent::Loaded(Err(e))) => DriverCommand::ReportUnloaded {
                reason: joined("failed to load driver component: ", e.as_str()),
            },
            (DriverPhase::Initializing, DriverEvent::Initialized(Ok(_))) => {
                self.phase = DriverPhase::Reporting;
                DriverCommand::ReportRunning
            },
            (DriverPhase::Initializing, DriverEvent::Initialized(Err(e))) =>
            DriverCommand::ReportFailed { reason: joined("init() failed: ", e.as_str()) },
            (DriverPhase::Reporting, DriverEvent::Reported(true)) => {
                self.phase = DriverPhase::Waiting;
                DriverCommand::Receive
            },
            (DriverPhase::Waiting, DriverEvent::Received(Some(work))) => match work {
                DriverWork::Message(message) => {
                    self.phase = DriverPhase::InMessage;
                    DriverCommand::OnMessage(message)
                },
                DriverWork::JobComplete { generation, job_id, result_json } => if generation
                    == self.generation {
                    self.phase = DriverPhase::InJob;
                    DriverCommand::OnJobComplete { job_id, result_json }
                } else {
                    self.phase = DriverPhase::Waiting;
                    DriverCommand::Receive
                },
                DriverWork::Disconnected => DriverCommand::Exit,
            },
            (DriverPhase::InMessage, DriverEvent::Called(Err(e))) => DriverCommand::Disable {
                reason: joined3("on-message", " call failed: ", e.as_str()),
            },
            (DriverPhase::InJob, DriverEvent::Called(Err(e))) => DriverCommand::Disable {
                reason: joined3("on-job-complete", " call failed: ", e.as_str()),
            },
            (DriverPhase::InMessage, DriverEvent::Called(Ok(_))) => {
                self.phase = DriverPhase::Waiting;
                DriverCommand::Receive
            },
            (DriverPhase::InJob, DriverEvent::Called(Ok(_))) => {
                self.phase = DriverPhase::Waiting;
                DriverCommand::Receive
            },
            _ => DriverCommand::Exit,
        }
    }
}

/// A message of the daemon reaches every driver that is still there, however full
/// its queue is.
pub proof fn law_host_messages_always_fit(
    before: SharedState<DriverWork, DriverPolicy>,
    message: Message,
    after: SharedState<DriverWork, DriverPolicy>,
    r: Result<(), SinkError>,
)
    requires
        message_sent(before, message, after, r),
        message.from@ == host_sender(),
        before.receiver_alive,
    ensures
        r is Ok,
        after.queue@ == before.queue@.push(DriverWork::Message(message)),
{
}

/// What a driver has not taken, its sender knows of.
pub proof fn law_no_message_is_lost_silently(
    before: SharedState<DriverWork, DriverPolicy>,
    message: Message,
    after: SharedState<DriverWork, DriverPolicy>,
    r: Result<(), SinkError>,
)
    requires
        message_sent(before, message, after, r),
    ensures
        r is Ok ==> after.queue@ == before.queue@.push(DriverWork::Message(message)),
        r is Err ==> after.queue@ == before.queue@,
{
}

/// A driver is called only once it has started and said so, and never again after
/// a call that failed.
pub proof fn law_a_driver_is_called_while_it_runs(
    driver: DriverLoop,
    event: DriverEvent,
    after: DriverPhase,
    command: DriverCommand,
)
    requires
        driver.steps(event, after, command),
    ensures
        command is OnMessage || command is OnJobComplete ==> driver.phase == DriverPhase::Waiting,
        command is Disable || command is ReportFailed || command is ReportUnloaded ==> after
            == DriverPhase::Done,
        driver.phase == DriverPhase::Done ==> command == DriverCommand::Exit && after
            == DriverPhase::Done,
{
}

/// Work that waits for a driver is handed to it as it came. A completed job is handed over
/// just if its generation is the driver's, and is passed over otherwise. Once nothing more
/// will come, the thread ends.
pub proof fn law_received_work_reaches_the_driver(
    driver: DriverLoop,
    work: Option<DriverWork>,
    after: DriverPhase,
    command: DriverCommand,
)
    requires
        driver.phase == DriverPhase::Waiting,
        driver.steps(DriverEvent::Received(work), after, command),
    ensures
        work matches Some(DriverWork::Message(message)) ==> command == DriverCommand::OnMessage(
            message,
        ) && after == DriverPhase::InMessage,
        work matches Some(DriverWork::JobComplete { generation, job_id, result_json }) ==> {
            &&& generation == driver.generation ==> after == DriverPhase::InJob && command == (
            DriverCommand::OnJobComplete { job_id, result_json })
            &&& generation != driver.generation ==> after == DriverPhase::Waiting && command
                == DriverCommand::Receive
        },
        work is None || work->0 is Disconnected ==> command == DriverCommand::Exit && after
            == DriverPhase::Done,
{
}

/// A driver that was loaded starts, one that has started is reported, and once the report is
/// taken work is waited for, as after each call that ended well.
pub proof fn law_a_driver_goes_on_while_all_is_well(
    driver: DriverLoop,
    event: DriverEvent,
    after: DriverPhase,
    command: DriverCommand,
)
    requires
        driver.steps(event, after, command),
    ensures
        driver.phase == DriverPhase::Loading && (event matches DriverEvent::Loaded(r) && r is Ok)
            ==> command == DriverCommand::Init && after == DriverPhase::Initializing,
        driver.phase == DriverPhase::Initializing && (event matches DriverEvent::Initialized(r)
            && r is Ok) ==> command == DriverCommand::ReportRunning && after
            == DriverPhase::Reporting,
        driver.phase == DriverPhase::Reporting && event == DriverEvent::Reported(true) ==> command
            == DriverCommand::Receive && after == DriverPhase::Waiting,
        driver.phase == DriverPhase::Reporting && event == DriverEvent::Reported(false)
            ==> command == DriverCommand::Exit && after == DriverPhase::Done,
        (driver.phase == DriverPhase::InMessage || driver.phase == DriverPhase::InJob) && (
        event matches DriverEvent::Called(r) && r is Ok) ==> command == DriverCommand::Receive
            && after == DriverPhase::Waiting,
{
}

/// A driver whose loading, start or call failed is given up, with what went wrong in words.
pub proof fn law_a_driver_is_given_up_with_the_cause(
    driver: DriverLoop,
    event: DriverEvent,
    after: DriverPhase,
    command: DriverCommand,
    error: String,
)
    requires
        driver.steps(event, after, command),
    ensures
        driver.phase == DriverPhase::Loading && event == DriverEvent::Loaded(Err(error)) ==> after
            == DriverPhase::Done && (command matches DriverCommand::ReportUnloaded { reason }
            && reason@ == "failed to load driver component: "@ + error@),
        driver.phase == DriverPhase::Initializing && event == DriverEvent::Initialized(Err(error))
            ==> after == DriverPhase::Done && (command matches DriverCommand::ReportFailed { reason }
            && reason@ == "init() failed: "@ + error@),
        driver.phase == DriverPhase::InMessage && event == DriverEvent::Called(Err(error))
            ==> after == DriverPhase::Done && (command matches DriverCommand::Disable { reason }
            && reason@ == "on-message"@ + " call failed: "@ + error@),
        driver.phase == DriverPhase::InJob && event == DriverEvent::Called(Err(error)) ==> after
            == DriverPhase::Done && (command matches DriverCommand::Disable { reason } && reason@
            == "on-job-complete"@ + " call failed: "@ + error@),
{
}

/// A driver takes a message behind all that waits, unless it is gone, or a plugin sends it
/// when 64 or more are waiting. The messages of the daemon, from `host`, know no such limit.
pub proof fn law_a_driver_takes_messages_up_to_its_limit(
    before: SharedState<DriverWork, DriverPolicy>,
    message: Message,
    after: SharedState<DriverWork, DriverPolicy>,
    r: Result<(), SinkError>,
)
    requires
        message_sent(before, message, after, r),
    ensures
        !before.receiver_alive ==> r == Err::<(), _>(SinkError::Closed),
        before.receiver_alive && message.from@ != "host"@ && before.queue@.len() >= 64 ==> r
            == Err::<(), _>(SinkError::Full),
        before.receiver_alive && (message.from@ == "host"@ || before.queue@.len() < 64) ==> r is Ok
            && after.queue@ == before.queue@.push(DriverWork::Message(message)),
        r is Err ==> after.queue@ == before.queue@,
{
}

/// The queue of a driver takes completed jobs and the word that nothing more will come
/// however much waits, and drops nothing of what waits for them.
pub proof fn law_a_driver_queue_drops_nothing_that_waits(
    before: SharedState<DriverWork, DriverPolicy>,
    work: DriverWork,
    after: SharedState<DriverWork, DriverPolicy>,
    r: Result<Option<DriverWork>, PushError>,
)
    requires
        pushed(before, work, after, r),
        before.receiver_alive,
        !(work is Message),
    ensures
        r == Ok::<Option<DriverWork>, PushError>(None),
        after.queue@ == before.queue@.push(work),
{
}

/// There is one way to part a text at its first slash.
pub proof fn law_a_text_is_parted_in_one_way(
    key: Seq<char>,
    before: Seq<char>,
    after: Seq<char>,
    other_before: Seq<char>,
    other_after: Seq<char>,
)
    requires
        parted(key, before, after),
        parted(key, other_before, other_after),
    ensures
        before == other_before,
        after == other_after,
        key.len() == before.len() + 1 + after.len(),
        key[before.len() as int] == '/',
        forall|i: int| 0 <= i < before.len() ==> #[trigger] key[i] != '/' && key[i] == before[i],
        forall|i: int| 0 <= i < after.len() ==> #[trigger] after[i] == key[before.len() + 1 + i],
{
    assert forall|i: int| 0 <= i < before.len() implies #[trigger] key[i] != '/' && key[i]
        == before[i] by {
        assert(before.contains(before[i]));
    }
    assert(key[before.len() as int] == '/');
    assert(key[other_before.len() as int] == '/');
    if other_before.len() < before.len() {
        assert(key[other_before.len() as int] != '/');
    }
    if before.len() < other_before.len() {
        assert(other_before.contains(other_before[before.len() as int]));
        assert(key[before.len() as int] == other_before[before.len() as int]);
    }
    assert forall|i: int| 0 <= i < after.len() implies #[trigger] after[i] == key[before.len() + 1
        + i] by {}
    let again = other_before + seq!['/'] + other_after;
    assert(key == again);
    assert(key.len() == before.len() + 1 + after.len());
    assert(again.len() == other_before.len() + 1 + other_after.len());
    assert(other_before.len() == before.len());
    assert forall|i: int| 0 <= i < before.len() implies #[trigger] before[i] == other_before[i] by {
        assert(key[i] == before[i] && again[i] == other_before[i]);
    }
    assert(before =~= other_before);
    assert forall|i: int| 0 <= i < after.len() implies #[trigger] after[i] == other_after[i] by {
        assert(key[before.len() + 1 + i] == after[i]);
        assert(again[before.len() + 1 + i] == other_after[i]);
    }
    assert(after =~= other_after);
}

/// The notice of a ready sidecar goes to the driver that stands before the first slash of its
/// key, and names the sidecar that stands behind it, its number and its port.
pub proof fn law_a_ready_notice_names_the_sidecar(
    driver: Seq<char>,
    name: Seq<char>,
    notice: ReadyNotice,
    index: u32,
    port: u16,
)
    requires
        !driver.contains('/'),
        tells_of_key(notice, driver + seq!['/'] + name, index, port),
    ensures
        notice.driver_id@ == driver,
        notice.message.from@ == "host"@,
        notice.message.topic@ == "sidecar-ready"@,
        exists|members: Map<Seq<char>, JsonTree>| #[trigger]
            notice_members(notice, members) && members.dom() =~= set!["name"@, "index"@, "port"@]
                && members["name"@] == JsonTree::Text(name) && members["index"@] == JsonTree::Int(
                index as int,
            ) && members["port"@] == JsonTree::Int(port as int),
{
    let key = driver + seq!['/'] + name;
    let told = choose|told: Seq<char>| tells_ready(notice, key, told, index, port);
    assert(parted(key, driver, name));
    law_a_text_is_parted_in_one_way(key, driver, name, notice.driver_id@, told);
    let members = ready_tree(name, index, port)->Object_0;
    reveal_strlit("name");
    reveal_strlit("index");
    reveal_strlit("port");
    assert("name"@.len() == 4 && "port"@.len() == 4 && "index"@.len() == 5);
    assert("name"@[0] != "port"@[0]);
    assert(notice_members(notice, members));
}

/// Whether the payload of a notice is an object with these members.
pub open spec fn notice_members(notice: ReadyNotice, members: Map<Seq<char>, JsonTree>) -> bool {
    notice.message.payload@ == vstd::utf8::encode_utf8(json_text(JsonTree::Object(members)))
}

/// A driver is registered as its thread has reported it, and as disabled if the thread ended
/// without a report.
pub proof fn law_a_driver_is_registered_as_reported(report: Option<DriverState>, state: DriverState)
    requires
        driver_registered_in(report, state),
    ensures
        report matches Some(reported) ==> state == reported,
        report is None ==> (state matches DriverState::Disabled { reason } && reason@
            == "driver thread exited before reporting an init result"@),
{
}

/// A driver starts with its own declaration, without connections, and with the buffers for what
/// is stored under its id.
pub proof fn law_a_driver_starts_without_connections<
    St: Storage,
    G: GrantStorage,
    C: ConfigStorage,
>(
    settings: St,
    grants: G,
    configs: C,
    manifest: DriverManifest,
    entry: DriverEntry,
    host: Seq<char>,
)
    requires
        driver_starts_as(settings, grants, configs, manifest, entry),
    ensures
        entry.manifest@ == manifest@,
        entry.bus_json@.len() == 0,
        entry.settings_json@ == json_text(
            JsonTree::Object(settings.in_effect(manifest@.settings_manifest())),
        ),
        entries_of::<SidecarRuntimeEntry>(entry.sidecars_json@) == all_redacted::<
            SidecarRuntimeEntry,
        >(usable_sidecars(grants, configs, manifest@.settings_manifest())),
        entries_of::<FsRuntimeEntry>(entry.filesystem_json@) == all_redacted::<FsRuntimeEntry>(
            usable_roots(grants, configs, manifest@.settings_manifest()),
        ),
        hosts_of(entry.capabilities_json@).contains(host) <==> {
            ||| grants.approval(
                manifest@.settings_manifest(),
                (GrantTarget { kind: GrantKind::Capabilities, name: seq![] }),
            ).granted && manifest@.settings_manifest().capability_hosts().contains(host)
            ||| local_hosts(
                usable_sidecars(grants, configs, manifest@.settings_manifest()),
            ).contains(host)
        },
{
    law_initial_hosts_are_approved(
        settings,
        grants,
        configs,
        manifest@.settings_manifest(),
        (InitialBuffers {
            settings_json: entry.settings_json,
            capabilities_json: entry.capabilities_json,
            sidecars_json: entry.sidecars_json,
            filesystem_json: entry.filesystem_json,
        }),
        host,
    );
}

} // verus!
