//! The registries of plugins and drivers.

use vstd::prelude::*;

use crate::text::{copied_texts, same_text, views};

pub mod bus;
pub mod driver;
pub mod entries;
pub mod filesystem;
pub mod grants;
pub mod plugin;
pub mod select_options;
pub mod settings;
pub mod sidecar;
pub mod subject;
pub mod supervisor;

verus! {

/// What a sidecar's instances are started with: one instance for each port.
#[derive(Debug, PartialEq, Eq)]
pub struct ProcessSpec {
    pub command: String,
    pub args: Vec<String>,
    pub ports: Vec<u16>,
}

pub struct ProcessSpecView {
    pub command: Seq<char>,
    pub args: Seq<Seq<char>>,
    pub ports: Seq<u16>,
}

impl View for ProcessSpec {
    type V = ProcessSpecView;

    open spec fn view(&self) -> ProcessSpecView {
        ProcessSpecView {
            command: self.command@,
            args: views(self.args@),
            ports: self.ports@,
        }
    }
}

impl Clone for ProcessSpec {
    fn clone(&self) -> (r: Self)
        ensures
            r@ == self@,
    {
        let ports = self.ports.clone();
        assert(ports@ =~= self.ports@);
        ProcessSpec { command: self.command.clone(), args: copied_texts(&self.args), ports }
    }
}

/// One instance of a sidecar.
#[derive(Debug, Clone, Copy, PartialEq, Eq)]
pub struct InstanceStatus {
    pub index: u32,
    pub port: u16,
    pub running: bool,
    pub exit_code: Option<i32>,
}

/// Why a process could not be started.
#[derive(Debug, PartialEq, Eq)]
pub struct ProcessError {
    pub message: String,
}

/// What was asked of processes.
pub enum ProcessRequest {
    /// To run under a key.
    Start { key: Seq<char>, spec: ProcessSpecView },
    /// To end under a key.
    Stop { key: Seq<char> },
    /// To end altogether.
    StopAll,
}

/// The processes that run at present.
pub trait Processes {
    /// What was asked so far, in order.
    spec fn asked(&self) -> Seq<ProcessRequest>;

    /// Whether these may be the instances under a key that is run with a spec. They
    /// come and go by themselves, so more than one answer may be right.
    spec fn shows(
        &self,
        key: Seq<char>,
        spec: ProcessSpecView,
        instances: Seq<InstanceStatus>,
    ) -> bool;

    /// Whether a request to run may be answered so: with the instances, or with
    /// the words for why there are none.
    spec fn answers_start(
        &self,
        key: Seq<char>,
        spec: ProcessSpecView,
        answer: Result<Seq<InstanceStatus>, Seq<char>>,
    ) -> bool;
}

/// An answer to a request to run.
pub open spec fn start_answer(r: Result<Vec<InstanceStatus>, ProcessError>) -> Result<
    Seq<InstanceStatus>,
    Seq<char>,
> {
    match r {
        Ok(instances) => Ok(instances@),
        Err(e) => Err(e.message@),
    }
}

/// What runs processes.
pub trait ProcessControl: Processes + Sized {
    fn ensure_started(&mut self, key: &str, spec: &ProcessSpec) -> (r: Result<
        Vec<InstanceStatus>,
        ProcessError,
    >)
        ensures
            final(self).asked() == old(self).asked().push(
                ProcessRequest::Start { key: key@, spec: spec@ },
            ),
            r is Ok ==> final(self).shows(key@, spec@, r->Ok_0@),
            old(self).answers_start(key@, spec@, start_answer(r)),
    ;

    fn status(&self, key: &str, spec: &ProcessSpec) -> (r: Vec<InstanceStatus>)
        ensures
            self.shows(key@, spec@, r@),
    ;

    fn stop(&mut self, key: &str)
        ensures
            final(self).asked() == old(self).asked().push(ProcessRequest::Stop { key: key@ }),
    ;

    fn stop_all(&mut self)
        ensures
            final(self).asked() == old(self).asked().push(ProcessRequest::StopAll),
    ;
}

/// The retained values of the bus.
pub trait Retained {
    /// The value that a topic of a driver retains, if there is one.
    spec fn retained(&self, driver: Seq<char>, topic: Seq<char>) -> Option<Seq<u8>>;
}

/// The bus between plugins and drivers, as far as it is read here.
pub trait BusPort: Retained + Sized {
    fn retained_for(&self, driver_id: &str, topic: &str) -> (r: Option<Vec<u8>>)
        ensures
            r is Some <==> self.retained(driver_id@, topic@) is Some,
            r is Some ==> self.retained(driver_id@, topic@) == Some(r->0@),
    ;
}

/// The instances under a key.
#[derive(Debug)]
pub struct KnownInstances {
    pub key: String,
    pub instances: Vec<InstanceStatus>,
}

/// The instances that are known last under a key, if there are any.
pub open spec fn last_known(known: Seq<KnownInstances>, key: Seq<char>) -> Option<
    Seq<InstanceStatus>,
>
    decreases known.len(),
{
    if known.len() == 0 {
        None
    } else if known.last().key@ == key {
        Some(known.last().instances@)
    } else {
        last_known(known.drop_last(), key)
    }
}

/// An instance for each port.
pub open spec fn one_per_port(ports: Seq<u16>, running: bool) -> Seq<InstanceStatus> {
    Seq::new(
        ports.len(),
        |i: int| InstanceStatus { index: i as u32, port: ports[i], running, exit_code: None },
    )
}

fn instances_for(ports: &Vec<u16>, running: bool) -> (r: Vec<InstanceStatus>)
    ensures
        r@ == one_per_port(ports@, running),
{
    let mut instances: Vec<InstanceStatus> = Vec::new();
    let mut i: usize = 0;
    while i < ports.len()
        invariant
            i <= ports.len(),
            instances@ == one_per_port(ports@, running).take(i as int),
        decreases ports.len() - i,
    {
        instances.push(
            InstanceStatus { index: i as u32, port: ports[i], running, exit_code: None },
        );
        assert(instances@ =~= one_per_port(ports@, running).take(i + 1));
        i = i + 1;
    }
    assert(one_per_port(ports@, running).take(ports.len() as int) =~= one_per_port(ports@, running));
    instances
}

/// The instances once they have ended.
pub open spec fn all_ended(instances: Seq<InstanceStatus>) -> Seq<InstanceStatus> {
    instances.map_values(
        |instance: InstanceStatus|
            InstanceStatus {
                index: instance.index,
                port: instance.port,
                running: false,
                exit_code: instance.exit_code,
            },
    )
}

fn ended(instances: &Vec<InstanceStatus>) -> (r: Vec<InstanceStatus>)
    ensures
        r@ == all_ended(instances@),
{
    let mut r: Vec<InstanceStatus> = Vec::new();
    let mut i: usize = 0;
    while i < instances.len()
        invariant
            i <= instances.len(),
            r@ == all_ended(instances@).take(i as int),
        decreases instances.len() - i,
    {
        let instance = instances[i];
        r.push(
            InstanceStatus {
                index: instance.index,
                port: instance.port,
                running: false,
                exit_code: instance.exit_code,
            },
        );
        assert(r@ =~= all_ended(instances@).take(i + 1));
        i = i + 1;
    }
    assert(all_ended(instances@).take(instances.len() as int) =~= all_ended(instances@));
    r
}

/// A request that was made of [`InMemoryProcesses`].
#[derive(Debug)]
pub enum ProcessCall {
    Start { key: String, spec: ProcessSpec },
    Stop { key: String },
    StopAll,
}

impl View for ProcessCall {
    type V = ProcessRequest;

    open spec fn view(&self) -> ProcessRequest {
        match self {
            ProcessCall::Start { key, spec } => ProcessRequest::Start { key: key@, spec: spec@ },
            ProcessCall::Stop { key } => ProcessRequest::Stop { key: key@ },
            ProcessCall::StopAll => ProcessRequest::StopAll,
        }
    }
}

/// Processes that are only kept account of: what was asked, and which instances
/// would run.
#[derive(Debug)]
pub struct InMemoryProcesses {
    pub calls: Vec<ProcessCall>,
    pub known: Vec<KnownInstances>,
}

impl InMemoryProcesses {
    /// The instances under a key that is run with a spec.
    pub open spec fn instances(&self, key: Seq<char>, spec: ProcessSpecView) -> Seq<
        InstanceStatus,
    > {
        match last_known(self.known@, key) {
            Some(instances) => instances,
            None => one_per_port(spec.ports, false),
        }
    }

    /// No requests and no instances.
    pub fn new() -> (r: InMemoryProcesses)
        ensures
            r.asked().len() == 0,
            r.known.len() == 0,
    {
        InMemoryProcesses { calls: Vec::new(), known: Vec::new() }
    }

    /// Has these instances under a key from now on.
    pub fn set_response(&mut self, key: &str, instances: Vec<InstanceStatus>)
        ensures
            final(self).asked() == old(self).asked(),
            forall|k: Seq<char>| #[trigger]
                last_known(final(self).known@, k) == if k == key@ {
                    Some(instances@)
                } else {
                    last_known(old(self).known@, k)
                },
    {
        let ghost before = self.known@;
        self.known.push(KnownInstances { key: key.to_owned(), instances });
        assert(self.known@.drop_last() =~= before);
    }

    fn known_for(&self, key: &str) -> (r: Option<&Vec<InstanceStatus>>)
        ensures
            r is Some <==> last_known(self.known@, key@) is Some,
            r is Some ==> last_known(self.known@, key@) == Some(r->0@),
    {
        let mut i: usize = self.known.len();
        assert(self.known@.take(i as int) =~= self.known@);
        while i > 0
            invariant
                i <= self.known.len(),
                last_known(self.known@, key@) == last_known(self.known@.take(i as int), key@),
            decreases i,
        {
            assert(self.known@.take(i as int).drop_last() =~= self.known@.take(i - 1));
            if same_text(self.known[i - 1].key.as_str(), key) {
                return Some(&self.known[i - 1].instances);
            }
            i = i - 1;
        }
        None
    }

    /// The keys under which processes were asked to end, in order.
    pub fn stopped_keys(&self) -> (r: Vec<String>)
        ensures
            views(r@) == stopped(self.asked()),
    {
        let mut keys: Vec<String> = Vec::new();
        let mut i: usize = 0;
        assert(views(keys@) =~= stopped(self.asked().take(0)));
        while i < self.calls.len()
            invariant
                i <= self.calls.len(),
                views(keys@) == stopped(self.asked().take(i as int)),
            decreases self.calls.len() - i,
        {
            let ghost taken = self.asked().take(i + 1);
            let ghost start = keys@;
            assert(taken.drop_last() =~= self.asked().take(i as int));
            assert(taken.last() == self.calls@[i as int]@);
            if let ProcessCall::Stop { key } = &self.calls[i] {
                keys.push(key.clone());
                assert(views(keys@) =~= views(start).push(key@));
            }
            i = i + 1;
        }
        assert(self.asked().take(self.calls.len() as int) =~= self.asked());
        keys
    }
}

/// The keys under which processes were asked to end, in order.
pub open spec fn stopped(asked: Seq<ProcessRequest>) -> Seq<Seq<char>>
    decreases asked.len(),
{
    if asked.len() == 0 {
        seq![]
    } else {
        let before = stopped(asked.drop_last());
        match asked.last() {
            ProcessRequest::Stop { key } => before.push(key),
            _ => before,
        }
    }
}

impl Processes for InMemoryProcesses {
    open spec fn asked(&self) -> Seq<ProcessRequest> {
        views(self.calls@)
    }

    open spec fn shows(
        &self,
        key: Seq<char>,
        spec: ProcessSpecView,
        instances: Seq<InstanceStatus>,
    ) -> bool {
        instances == self.instances(key, spec)
    }

    open spec fn answers_start(
        &self,
        key: Seq<char>,
        spec: ProcessSpecView,
        answer: Result<Seq<InstanceStatus>, Seq<char>>,
    ) -> bool {
        answer == Ok::<_, Seq<char>>(one_per_port(spec.ports, true))
    }
}

impl ProcessControl for InMemoryProcesses {
    fn ensure_started(&mut self, key: &str, spec: &ProcessSpec) -> (r: Result<
        Vec<InstanceStatus>,
        ProcessError,
    >)
        ensures
            r is Ok,
            final(self).instances(key@, spec@) == one_per_port(spec@.ports, true),
    {
        let ghost before = self.calls@;
        self.calls.push(ProcessCall::Start { key: key.to_owned(), spec: spec.clone() });
        assert(views(self.calls@) =~= views(before).push(self.calls@.last()@));
        self.set_response(key, instances_for(&spec.ports, true));
        Ok(self.status(key, spec))
    }

    fn status(&self, key: &str, spec: &ProcessSpec) -> (r: Vec<InstanceStatus>) {
        match self.known_for(key) {
            Some(instances) => {
                let copy = instances.clone();
                assert(copy@ =~= instances@);
                copy
            },
            None => instances_for(&spec.ports, false),
        }
    }

    fn stop(&mut self, key: &str)
        ensures
            forall|spec: ProcessSpecView| #[trigger]
                final(self).instances(key@, spec) == all_ended(old(self).instances(key@, spec)),
    {
        let ghost before = self.calls@;
        let ended = match self.known_for(key) {
            Some(instances) => Some(ended(instances)),
            None => None,
        };
        match ended {
            Some(instances) => {
                self.set_response(key, instances);
            },
            None => {},
        }
        self.calls.push(ProcessCall::Stop { key: key.to_owned() });
        assert(views(self.calls@) =~= views(before).push(self.calls@.last()@));
        assert forall|spec: ProcessSpecView| #[trigger] self.instances(key@, spec) == all_ended(
            old(self).instances(key@, spec),
        ) by {
            if last_known(old(self).known@, key@) is None {
                assert(one_per_port(spec.ports, false) =~= all_ended(
                    one_per_port(spec.ports, false),
                ));
            }
        }
    }

    fn stop_all(&mut self) {
        let ghost before = self.calls@;
        let mut i: usize = 0;
        while i < self.known.len()
            invariant
                self.calls@ == before,
                i <= self.known.len(),
            decreases self.known.len() - i,
        {
            let instances = ended(&self.known[i].instances);
            self.known[i].instances = instances;
            i = i + 1;
        }
        self.calls.push(ProcessCall::StopAll);
        assert(views(self.calls@) =~= views(before).push(self.calls@.last()@));
    }
}

/// The value that a topic retains.
#[derive(Debug)]
pub struct RetainedValue {
    pub driver: String,
    pub topic: String,
    pub payload: Vec<u8>,
}

/// The value that was retained last for a topic of a driver.
pub open spec fn last_retained(
    values: Seq<RetainedValue>,
    driver: Seq<char>,
    topic: Seq<char>,
) -> Option<Seq<u8>>
    decreases values.len(),
{
    if values.len() == 0 {
        None
    } else if values.last().driver@ == driver && values.last().topic@ == topic {
        Some(values.last().payload@)
    } else {
        last_retained(values.drop_last(), driver, topic)
    }
}

/// Retained values that are kept in memory.
#[derive(Debug)]
pub struct InMemoryBus {
    pub values: Vec<RetainedValue>,
}

impl InMemoryBus {
    /// Nothing retained.
    pub fn new() -> (r: InMemoryBus)
        ensures
            r.values.len() == 0,
    {
        InMemoryBus { values: Vec::new() }
    }

    /// Retains a value for a topic of a driver from now on.
    pub fn retain(&mut self, driver: &str, topic: &str, payload: Vec<u8>)
        ensures
            final(self).retained(driver@, topic@) == Some(payload@),
            forall|d: Seq<char>, t: Seq<char>|
                d != driver@ || t != topic@ ==> #[trigger] final(self).retained(d, t)
                    == old(self).retained(d, t),
    {
        let ghost before = self.values@;
        self.values.push(
            RetainedValue { driver: driver.to_owned(), topic: topic.to_owned(), payload },
        );
        assert(self.values@.drop_last() =~= before);
    }
}

impl Retained for InMemoryBus {
    open spec fn retained(&self, driver: Seq<char>, topic: Seq<char>) -> Option<Seq<u8>> {
        last_retained(self.values@, driver, topic)
    }
}

impl BusPort for InMemoryBus {
    fn retained_for(&self, driver_id: &str, topic: &str) -> (r: Option<Vec<u8>>) {
        let mut i: usize = self.values.len();
        assert(self.values@.take(i as int) =~= self.values@);
        while i > 0
            invariant
                i <= self.values.len(),
                last_retained(self.values@, driver_id@, topic@) == last_retained(
                    self.values@.take(i as int),
                    driver_id@,
                    topic@,
                ),
            decreases i,
        {
            assert(self.values@.take(i as int).drop_last() =~= self.values@.take(i - 1));
            let value = &self.values[i - 1];
            if same_text(value.driver.as_str(), driver_id) && same_text(
                value.topic.as_str(),
                topic,
            ) {
                let payload = value.payload.clone();
                assert(payload@ =~= value.payload@);
                return Some(payload);
            }
            i = i - 1;
        }
        None
    }
}

/// Of the instances that are known under a key the last count.
pub proof fn law_the_last_known_instances_count(known: Seq<KnownInstances>, key: Seq<char>, i: int)
    requires
        -1 <= i < known.len(),
        forall|j: int| i < j < known.len() ==> (#[trigger] known[j]).key@ != key,
        i >= 0 ==> known[i].key@ == key,
    ensures
        i >= 0 ==> last_known(known, key) == Some(known[i].instances@),
        i < 0 ==> last_known(known, key) is None,
    decreases known.len(),
{
    if known.len() > 0 {
        let last = known.len() - 1;
        if i < last {
            assert(known[last].key@ != key);
            let rest = known.drop_last();
            assert forall|j: int| i < j < rest.len() implies (#[trigger] rest[j]).key@ != key by {
                assert(rest[j] == known[j]);
            }
            law_the_last_known_instances_count(rest, key, i);
        }
    }
}

/// Every port has an instance of its own, in order, without an exit code. Ended instances are
/// the same but that they do not run.
pub proof fn law_every_port_has_an_instance(ports: Seq<u16>, running: bool, i: int)
    requires
        0 <= i < ports.len() <= u32::MAX,
    ensures
        one_per_port(ports, running).len() == ports.len(),
        one_per_port(ports, running)[i].index == i,
        one_per_port(ports, running)[i].port == ports[i],
        one_per_port(ports, running)[i].running == running,
        one_per_port(ports, running)[i].exit_code is None,
        all_ended(one_per_port(ports, running)) == one_per_port(ports, false),
{
    assert(all_ended(one_per_port(ports, running)) =~= one_per_port(ports, false));
}

/// A request to end a process adds its key to those that were asked to end, and no other
/// request does.
pub proof fn law_stops_are_listed_in_order(asked: Seq<ProcessRequest>, request: ProcessRequest)
    ensures
        stopped(seq![]).len() == 0,
        request matches ProcessRequest::Stop { key } ==> stopped(asked.push(request)) == stopped(
            asked,
        ).push(key),
        !(request is Stop) ==> stopped(asked.push(request)) == stopped(asked),
{
    assert(asked.push(request).drop_last() =~= asked);
}

/// Of the values that were retained for a topic of a driver the last counts.
pub proof fn law_the_last_retained_value_counts(
    values: Seq<RetainedValue>,
    driver: Seq<char>,
    topic: Seq<char>,
    i: int,
)
    requires
        -1 <= i < values.len(),
        forall|j: int| #![trigger values[j]]
            i < j < values.len() ==> values[j].driver@ != driver || values[j].topic@ != topic,
        i >= 0 ==> values[i].driver@ == driver && values[i].topic@ == topic,
    ensures
        i >= 0 ==> last_retained(values, driver, topic) == Some(values[i].payload@),
        i < 0 ==> last_retained(values, driver, topic) is None,
    decreases values.len(),
{
    if values.len() > 0 {
        let last = values.len() - 1;
        if i < last {
            assert(values[last].driver@ != driver || values[last].topic@ != topic);
            let rest = values.drop_last();
            assert forall|j: int| #![trigger rest[j]]
                i < j < rest.len() implies rest[j].driver@ != driver || rest[j].topic@ != topic by {
                assert(rest[j] == values[j]);
            }
            law_the_last_retained_value_counts(rest, driver, topic, i);
        }
    }
}

/// What is known under a key are its instances, and of what nothing is known every port has one
/// that does not run.
pub proof fn law_unknown_processes_do_not_run(
    processes: InMemoryProcesses,
    key: Seq<char>,
    spec: ProcessSpecView,
)
    ensures
        last_known(processes.known@, key) matches Some(instances) ==> processes.instances(key, spec)
            == instances,
        last_known(processes.known@, key) is None ==> processes.instances(key, spec).len()
            == spec.ports.len() && forall|i: int|
            0 <= i < spec.ports.len() ==> !(#[trigger] processes.instances(key, spec)[i]).running,
{
}

} // verus!
