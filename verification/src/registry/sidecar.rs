//! Sidecars: approval, start and stop.

use vstd::prelude::*;

use crate::capability::{
    capabilities, grant_stored, target, Approvals, GrantKind, GrantState, GrantStorage, GrantTarget,
    GrantsError,
};
use crate::json::json_text;
use crate::manifest::{Manifest, ManifestView, SidecarRequest, SidecarRequestView};
use crate::registry::entries::{
    lemma_at_place, lemma_place, lemma_same_places, others_kept, place_of, PluginState, SubjectEntry,
    SubjectRegistry,
};
use crate::registry::filesystem::outcome;
use crate::registry::subject::{RegistryError, RegistryErrorView, RegistrySubject};
use crate::registry::{
    start_answer, InstanceStatus, ProcessControl, ProcessRequest, ProcessSpec, ProcessSpecView,
    Processes,
};
use crate::rpc::info::{SidecarInfo, SidecarInfoView};
use crate::runtime::buffer::{all_redacted, buffer_text, entries_of, BufferEntry};
use crate::runtime::capabilities::{capabilities_json_string, hosts_of, hosts_tree};
use crate::runtime::sidecar::{
    implicit_http_hosts, local_host, local_hosts, sidecars_json_string, SidecarRuntimeEntry,
    SidecarRuntimeEntryView,
};
use crate::settings::{
    assign_ports, sidecar_config_stored, ConfigStorage, Configurations, SidecarConfig,
    SidecarConfigView, Storage,
};
use crate::text::{copied_texts, decimal, joined, joined3, views};

verus! {

/// The name of a sidecar among all processes.
pub open spec fn process_key(id: Seq<char>, name: Seq<char>) -> Seq<char> {
    id + "/"@ + name
}

/// The name of a sidecar among all processes: its owner's id and its own name.
pub fn sidecar_key(id: &str, name: &str) -> (r: String)
    ensures
        r@ == process_key(id@, name@),
{
    joined3(id, "/", name)
}

/// Whether a sidecar may start, and if not why.
#[derive(Debug, Clone, Copy, PartialEq, Eq, Structural)]
pub enum SidecarStartDecision {
    /// Its owner is disabled.
    Disabled,
    /// It is not approved.
    NotGranted,
    /// It has no executable.
    NoExecutable,
    /// It may start.
    Proceed,
}

/// Whether a sidecar may start: the first reason against it, in order.
pub open spec fn start_decision(
    disabled: bool,
    granted: bool,
    command_configured: bool,
) -> SidecarStartDecision {
    if disabled {
        SidecarStartDecision::Disabled
    } else if !granted {
        SidecarStartDecision::NotGranted
    } else if !command_configured {
        SidecarStartDecision::NoExecutable
    } else {
        SidecarStartDecision::Proceed
    }
}

/// Whether a sidecar may start.
pub fn sidecar_start_decision(disabled: bool, granted: bool, command_configured: bool) -> (r:
    SidecarStartDecision)
    ensures
        r == start_decision(disabled, granted, command_configured),
{
    if disabled {
        SidecarStartDecision::Disabled
    } else if !granted {
        SidecarStartDecision::NotGranted
    } else if !command_configured {
        SidecarStartDecision::NoExecutable
    } else {
        SidecarStartDecision::Proceed
    }
}

/// Whether the approval of a sidecar may change.
#[derive(Debug, Clone, Copy, PartialEq, Eq, Structural)]
pub enum GrantSidecarDecision {
    /// It has no executable, so there is nothing to approve.
    NoExecutable,
    /// It may change.
    Proceed,
}

/// Whether the approval of a sidecar may change: it may always be taken back,
/// and be given once there is an executable.
pub fn grant_sidecar_decision(granted: bool, command_configured: bool) -> (r: GrantSidecarDecision)
    ensures
        r == if granted && !command_configured {
            GrantSidecarDecision::NoExecutable
        } else {
            GrantSidecarDecision::Proceed
        },
{
    if granted && !command_configured {
        GrantSidecarDecision::NoExecutable
    } else {
        GrantSidecarDecision::Proceed
    }
}

/// The sidecars to stop when the approval of one changes: that one, if the
/// approval is taken back.
pub open spec fn grant_stops(name: Seq<char>, granted: bool) -> Seq<Seq<char>> {
    if granted {
        seq![]
    } else {
        seq![name]
    }
}

/// The sidecars to stop when the approval of one changes.
pub fn sidecar_grant_stop_names(name: &str, granted: bool) -> (r: Vec<String>)
    ensures
        views(r@) == grant_stops(name@, granted),
{
    let mut names: Vec<String> = Vec::new();
    if !granted {
        names.push(name.to_owned());
    }
    assert(views(names@) =~= grant_stops(name@, granted));
    names
}

/// The hosts that an owner may talk to: those it asked for if that is approved,
/// and the ports of its approved sidecars in any case.
pub open spec fn effective(
    granted: bool,
    base_hosts: Seq<Seq<char>>,
    local: Seq<Seq<char>>,
) -> Seq<Seq<char>> {
    if granted {
        base_hosts + local
    } else {
        local
    }
}

/// The hosts that an owner may talk to.
pub fn merged_effective_hosts(
    granted: bool,
    base_hosts: Vec<String>,
    sidecar_entries: &Vec<SidecarRuntimeEntry>,
) -> (r: Vec<String>)
    ensures
        views(r@) == effective(granted, views(base_hosts@), local_hosts(views(sidecar_entries@))),
{
    let mut local = implicit_http_hosts(sidecar_entries);
    if granted {
        let mut hosts = base_hosts;
        let ghost implicit = local@;
        hosts.append(&mut local);
        assert(views(hosts@) =~= views(base_hosts@) + views(implicit));
        hosts
    } else {
        local
    }
}

/// What is done to a sidecar.
#[derive(Debug, Clone, Copy, PartialEq, Eq, Structural)]
pub enum SidecarAction {
    Start,
    Stop,
    Restart,
}

/// How a sidecar is run.
pub open spec fn sidecar_config<C: Configurations>(
    configs: C,
    m: ManifestView,
    request: SidecarRequestView,
) -> SidecarConfigView {
    match configs.sidecar_of(m, request.name) {
        Some(config) => config,
        None => request.default_config(),
    }
}

/// What the instances of a sidecar are started with.
pub open spec fn process_spec(config: SidecarConfigView) -> ProcessSpecView {
    ProcessSpecView { command: config.command, args: config.args, ports: config.ports() }
}

/// Whether this is what is said of a sidecar: how it was asked for, how it is run,
/// whether it is approved, and the instances that run.
pub open spec fn sidecar_said<G: Approvals, C: Configurations, P: Processes>(
    grants: G,
    configs: C,
    processes: P,
    m: ManifestView,
    request: SidecarRequestView,
    info: SidecarInfoView,
) -> bool {
    &&& info.request == request
    &&& info.config == sidecar_config(configs, m, request)
    &&& info.grant == grants.approval(m, target(GrantKind::Sidecar, request.name))
    &&& processes.shows(
        process_key(m.id, request.name),
        process_spec(info.config),
        info.instances,
    )
}

/// Whether this is what is said of the sidecars of a declaration, in its order.
pub open spec fn sidecars_said<G: Approvals, C: Configurations, P: Processes>(
    grants: G,
    configs: C,
    processes: P,
    m: ManifestView,
    infos: Seq<SidecarInfoView>,
) -> bool {
    &&& infos.len() == m.sidecars.len()
    &&& forall|i: int|
        0 <= i < infos.len() ==> sidecar_said(
            grants,
            configs,
            processes,
            m,
            m.sidecars[i],
            #[trigger] infos[i],
        )
}

/// Whether this is what a request for the sidecars of an owner returns.
pub open spec fn sidecars_shown<
    M: RegistrySubject,
    St: Storage,
    G: GrantStorage,
    C: ConfigStorage,
    P: ProcessControl,
>(
    registry: SubjectRegistry<M, St, G, C, P>,
    id: Seq<char>,
    r: Result<Seq<SidecarInfoView>, RegistryErrorView>,
) -> bool {
    match r {
        Ok(infos) => registry.has(id) && sidecars_said(
            registry.grants,
            registry.configs,
            registry.processes,
            registry.subject(id),
            infos,
        ),
        Err(e) => !registry.has(id) && e == M::unknown(id),
    }
}

/// What the owner of a sidecar may use of it.
pub open spec fn sidecar_entry(info: SidecarInfoView) -> SidecarRuntimeEntryView {
    SidecarRuntimeEntryView {
        name: info.request.name,
        granted: info.grant.granted,
        command: info.config.command,
        args: info.config.args,
        ports: info.config.ports(),
    }
}

/// What the owner of sidecars may use of them.
pub open spec fn sidecar_entries(infos: Seq<SidecarInfoView>) -> Seq<SidecarRuntimeEntryView> {
    infos.map_values(|info: SidecarInfoView| sidecar_entry(info))
}

/// Whether a buffer says what is said of sidecars.
pub open spec fn sidecar_buffer(infos: Seq<SidecarInfoView>, raw: Seq<char>) -> bool {
    let shown = all_redacted::<SidecarRuntimeEntry>(sidecar_entries(infos));
    &&& raw == buffer_text::<SidecarRuntimeEntry>(shown)
    &&& entries_of::<SidecarRuntimeEntry>(raw) == shown
}

/// Whether a buffer names these hosts.
pub open spec fn host_buffer(hosts: Seq<Seq<char>>, raw: Seq<char>) -> bool {
    &&& raw == json_text(hosts_tree(hosts))
    &&& hosts_of(raw) == hosts
}

/// The requests to end sidecars of an owner.
pub open spec fn stop_requests(id: Seq<char>, names: Seq<Seq<char>>) -> Seq<ProcessRequest> {
    names.map_values(|name: Seq<char>| ProcessRequest::Stop { key: process_key(id, name) })
}

/// Whether two entries differ in the buffers for sidecars and hosts at most.
pub open spec fn same_but_sidecars<M>(before: SubjectEntry<M>, after: SubjectEntry<M>) -> bool {
    after == (SubjectEntry {
        sidecars_json: after.sidecars_json,
        capabilities_json: after.capabilities_json,
        ..before
    })
}

/// What it means to end sidecars of an id, to rewrite its buffers for sidecars
/// and hosts, and to return what is said of its sidecars.
pub open spec fn sidecars_refreshed<
    M: RegistrySubject,
    St: Storage,
    G: GrantStorage,
    C: ConfigStorage,
    P: ProcessControl,
>(
    before: SubjectRegistry<M, St, G, C, P>,
    id: Seq<char>,
    stops: Seq<Seq<char>>,
    after: SubjectRegistry<M, St, G, C, P>,
    infos: Seq<SidecarInfoView>,
) -> bool {
    let at = place_of(before.table.entries@, id);
    let m = before.subject(id);
    &&& after.processes.asked() == before.processes.asked() + stop_requests(m.id, stops)
    &&& others_kept(before.table.entries@, after.table.entries@, at)
    &&& same_but_sidecars(before.table.entries@[at], after.table.entries@[at])
    &&& sidecars_said(after.grants, after.configs, after.processes, m, infos)
    &&& sidecar_buffer(infos, after.table.entries@[at].sidecars_json@)
    &&& host_buffer(
        effective(
            after.grants.approval(m, capabilities()).granted,
            m.capability_hosts(),
            local_hosts(sidecar_entries(infos)),
        ),
        after.table.entries@[at].capabilities_json@,
    )
}

/// What configuring a sidecar does and returns: it is ended, and what it may use
/// changes.
pub open spec fn sidecar_config_set<
    M: RegistrySubject,
    St: Storage,
    G: GrantStorage,
    C: ConfigStorage,
    P: ProcessControl,
>(
    before: SubjectRegistry<M, St, G, C, P>,
    id: Seq<char>,
    name: Seq<char>,
    config: SidecarConfigView,
    after: SubjectRegistry<M, St, G, C, P>,
    r: Result<Seq<SidecarInfoView>, RegistryErrorView>,
) -> bool {
    if !before.has(id) {
        r == Err::<Seq<SidecarInfoView>, _>(M::unknown(id)) && after == before
    } else {
        &&& after.settings == before.settings
        &&& after.grants == before.grants
        &&& sidecar_config_stored(
            before.configs,
            before.subject(id),
            name,
            config,
            after.configs,
            match r {
                Ok(_) => None,
                Err(e) => Some(e->SidecarConfig_0),
            },
        )
        &&& match r {
            Ok(infos) => sidecars_refreshed(before, id, seq![name], after, infos),
            Err(e) => e is SidecarConfig && after.table == before.table && after.processes
                == before.processes,
        }
    }
}

/// The words for a sidecar that cannot be approved for want of an executable.
pub open spec fn no_executable_to_grant(name: Seq<char>) -> Seq<char> {
    "sidecar "@ + name + " has no executable configured; cannot grant"@
}

/// Whether somebody has chosen an executable for a sidecar.
pub open spec fn command_chosen<C: Configurations>(
    configs: C,
    m: ManifestView,
    name: Seq<char>,
) -> bool {
    configs.sidecar_of(m, name) is Some && configs.sidecar_of(m, name)->0.command.len() > 0
}

/// What changing the approval of a sidecar does and returns: it may always be
/// taken back, which ends the sidecar, and be given once there is an executable.
pub open spec fn sidecar_grant_set<
    M: RegistrySubject,
    St: Storage,
    G: GrantStorage,
    C: ConfigStorage,
    P: ProcessControl,
>(
    before: SubjectRegistry<M, St, G, C, P>,
    id: Seq<char>,
    name: Seq<char>,
    granted: bool,
    after: SubjectRegistry<M, St, G, C, P>,
    r: Result<Seq<SidecarInfoView>, RegistryErrorView>,
) -> bool {
    let m = before.subject(id);
    if !before.has(id) {
        r == Err::<Seq<SidecarInfoView>, _>(M::unknown(id)) && after == before
    } else if !m.declares_sidecar(name) {
        r == Err::<Seq<SidecarInfoView>, _>(RegistryErrorView::UnknownSidecar(name)) && after
            == before
    } else if granted && !command_chosen(before.configs, m, name) {
        r == Err::<Seq<SidecarInfoView>, _>(
            RegistryErrorView::Sidecar(no_executable_to_grant(name)),
        ) && after == before
    } else {
        &&& after.settings == before.settings
        &&& after.configs == before.configs
        &&& exists|stored: Result<GrantState, GrantsError>|
            {
                &&& #[trigger] grant_stored(
                    before.grants,
                    m,
                    target(GrantKind::Sidecar, name),
                    granted,
                    after.grants,
                    stored,
                )
                &&& match stored {
                    Ok(_) => r is Ok && sidecars_refreshed(
                        before,
                        id,
                        grant_stops(name, granted),
                        after,
                        r->Ok_0,
                    ),
                    Err(e) => r == Err::<Seq<SidecarInfoView>, _>(
                        RegistryErrorView::Grants(e.message@),
                    ) && after.table == before.table && after.processes == before.processes,
                }
            }
    }
}

/// Why a sidecar does not start, in words.
pub open spec fn refusal(
    decision: SidecarStartDecision,
    noun: Seq<char>,
    id: Seq<char>,
    name: Seq<char>,
) -> Seq<char> {
    match decision {
        SidecarStartDecision::Disabled => noun + " "@ + id + " is disabled"@,
        SidecarStartDecision::NotGranted => "sidecar "@ + name + " is not granted"@,
        _ => "sidecar "@ + name + " has no executable configured"@,
    }
}

/// Whether starting a process is refused as what runs processes answered: not at
/// all if it started, and else in the words of the answer. Before that, what was
/// asked of processes is `asked`, and unless something was `ended` first they are
/// as they were.
pub open spec fn start_refused<P: ProcessControl>(
    before: P,
    ended: bool,
    asked: Seq<ProcessRequest>,
    key: Seq<char>,
    spec: ProcessSpecView,
    refused: Option<RegistryErrorView>,
) -> bool {
    exists|at: P, answer: Result<Seq<InstanceStatus>, Seq<char>>|
        {
            &&& #[trigger] at.answers_start(key, spec, answer)
            &&& at.asked() == asked
            &&& !ended ==> at == before
            &&& refused == match answer {
                Ok(_) => None,
                Err(message) => Some(RegistryErrorView::Sidecar(message)),
            }
        }
}

/// What starting or restarting a sidecar does: a restart ends it first, unless
/// its owner is disabled, and it starts if nothing is against it.
pub open spec fn sidecar_started<
    M: RegistrySubject,
    St: Storage,
    G: GrantStorage,
    C: ConfigStorage,
    P: ProcessControl,
>(
    before: SubjectRegistry<M, St, G, C, P>,
    id: Seq<char>,
    request: SidecarRequestView,
    action: SidecarAction,
    after: SubjectRegistry<M, St, G, C, P>,
    refused: Option<RegistryErrorView>,
) -> bool {
    let m = before.subject(id);
    let disabled = before.entry(id).state is Disabled;
    let config = sidecar_config(before.configs, m, request);
    let decision = start_decision(
        disabled,
        before.grants.approval(m, target(GrantKind::Sidecar, request.name)).granted,
        config.command.len() > 0,
    );
    let key = process_key(m.id, request.name);
    let restarts = action == SidecarAction::Restart && !disabled;
    let ended = if restarts {
        before.processes.asked().push(ProcessRequest::Stop { key })
    } else {
        before.processes.asked()
    };
    if decision == SidecarStartDecision::Proceed {
        &&& after.processes.asked() == ended.push(
            ProcessRequest::Start { key, spec: process_spec(config) },
        )
        &&& start_refused(
            before.processes,
            restarts,
            ended,
            key,
            process_spec(config),
            refused,
        )
    } else {
        &&& after.processes.asked() == ended
        &&& refused == Some(
            RegistryErrorView::Sidecar(refusal(decision, M::noun(), id, request.name)),
        )
    }
}

/// What controlling a sidecar does and returns. It may always be ended.
pub open spec fn sidecar_controlled<
    M: RegistrySubject,
    St: Storage,
    G: GrantStorage,
    C: ConfigStorage,
    P: ProcessControl,
>(
    before: SubjectRegistry<M, St, G, C, P>,
    id: Seq<char>,
    name: Seq<char>,
    action: SidecarAction,
    after: SubjectRegistry<M, St, G, C, P>,
    r: Result<Seq<SidecarInfoView>, RegistryErrorView>,
) -> bool {
    let m = before.subject(id);
    let request = m.sidecars[choose|i: int| m.first_sidecar(name, i)];
    if !before.has(id) {
        r == Err::<Seq<SidecarInfoView>, _>(M::unknown(id)) && after == before
    } else if !m.declares_sidecar(name) {
        r == Err::<Seq<SidecarInfoView>, _>(RegistryErrorView::UnknownSidecar(name)) && after
            == before
    } else {
        &&& after.table == before.table
        &&& after.settings == before.settings
        &&& after.grants == before.grants
        &&& after.configs == before.configs
        &&& r matches Ok(infos) ==> sidecars_said(
            after.grants,
            after.configs,
            after.processes,
            m,
            infos,
        )
        &&& if action == SidecarAction::Stop {
            &&& after.processes.asked() == before.processes.asked().push(
                ProcessRequest::Stop { key: process_key(m.id, name) },
            )
            &&& r is Ok
        } else {
            sidecar_started(
                before,
                id,
                request,
                action,
                after,
                match r {
                    Ok(_) => None,
                    Err(e) => Some(e),
                },
            )
        }
    }
}

impl<
    M: RegistrySubject,
    St: Storage,
    G: GrantStorage,
    C: ConfigStorage,
    P: ProcessControl,
> SubjectRegistry<M, St, G, C, P> {
    fn effective_sidecar_config(&self, manifest: &Manifest, request: &SidecarRequest) -> (r:
        SidecarConfig)
        ensures
            r@ == sidecar_config(self.configs, manifest@, request@),
    {
        match self.configs.sidecar_config(manifest, request.name.as_str()) {
            Some(config) => config,
            None => SidecarConfig::from_request(request),
        }
    }

    fn sidecar_info_and_entry(
        &self,
        id: &str,
        request: &SidecarRequest,
        config: SidecarConfig,
        grant: GrantState,
    ) -> (r: (SidecarInfo, SidecarRuntimeEntry))
        ensures
            r.0@.request == request@,
            r.0@.config == config@,
            r.0@.grant == grant,
            self.processes.shows(
                process_key(id@, request@.name),
                process_spec(config@),
                r.0@.instances,
            ),
            r.1@ == sidecar_entry(r.0@),
    {
        let ports = assign_ports(&config);
        let spec = ProcessSpec {
            command: config.command.clone(),
            args: copied_texts(&config.args),
            ports: assign_ports(&config),
        };
        assert(spec@ == process_spec(config@));
        let key = sidecar_key(id, request.name.as_str());
        let instances = self.processes.status(key.as_str(), &spec);
        let entry = SidecarRuntimeEntry {
            name: request.name.clone(),
            granted: grant.granted,
            command: config.command.clone(),
            args: copied_texts(&config.args),
            ports,
        };
        let info = SidecarInfo { request: request.clone(), config, grant, instances };
        (info, entry)
    }

    fn sidecar_infos_and_entries(&self, subject: &M) -> (r: (
        Vec<SidecarInfo>,
        Vec<SidecarRuntimeEntry>,
    ))
        ensures
            sidecars_said(
                self.grants,
                self.configs,
                self.processes,
                subject.projected(),
                views(r.0@),
            ),
            views(r.1@) == sidecar_entries(views(r.0@)),
    {
        let manifest = subject.as_settings_manifest();
        let requests = subject.sidecars();
        let ghost m = subject.projected();
        let mut infos: Vec<SidecarInfo> = Vec::new();
        let mut entries: Vec<SidecarRuntimeEntry> = Vec::new();
        let mut i: usize = 0;
        while i < requests.len()
            invariant
                i <= requests.len(),
                manifest@ == m,
                m == subject.projected(),
                views(requests@) == m.sidecars,
                infos.len() == i,
                entries.len() == i,
                forall|j: int|
                    0 <= j < i ==> sidecar_said(
                        self.grants,
                        self.configs,
                        self.processes,
                        m,
                        m.sidecars[j],
                        (#[trigger] infos@[j])@,
                    ),
                forall|j: int|
                    0 <= j < i ==> (#[trigger] entries@[j])@ == sidecar_entry(infos@[j]@),
            decreases requests.len() - i,
        {
            let request = &requests[i];
            assert(m.sidecars[i as int] == requests@[i as int]@);
            let config = self.effective_sidecar_config(&manifest, request);
            let grant = self.grants.sidecar_state(&manifest, request.name.as_str());
            let (info, entry) = self.sidecar_info_and_entry(subject.id(), request, config, grant);
            infos.push(info);
            entries.push(entry);
            i = i + 1;
        }
        assert forall|j: int| 0 <= j < infos.len() implies sidecar_said(
            self.grants,
            self.configs,
            self.processes,
            m,
            m.sidecars[j],
            #[trigger] views(infos@)[j],
        ) by {
            assert(views(infos@)[j] == infos@[j]@);
        }
        assert(views(entries@) =~= sidecar_entries(views(infos@)));
        (infos, entries)
    }

    /// What is said of the sidecars of a declaration, in its order.
    pub fn build_sidecar_infos(&self, subject: &M) -> (r: Vec<SidecarInfo>)
        ensures
            sidecars_said(
                self.grants,
                self.configs,
                self.processes,
                subject.projected(),
                views(r@),
            ),
    {
        self.sidecar_infos_and_entries(subject).0
    }

    /// What is said of the sidecars of a plugin or driver.
    pub fn sidecars(&self, id: &str) -> (r: Result<Vec<SidecarInfo>, RegistryError>)
        ensures
            sidecars_shown(*self, id@, outcome(r)),
    {
        let at = self.table.find(id);
        if at == self.table.entries.len() {
            return Err(M::unknown_registry_error(id));
        }
        Ok(self.build_sidecar_infos(&self.table.entries[at].manifest))
    }

    /// Ends sidecars of an owner.
    pub fn stop_named(&mut self, id: &str, names: &Vec<String>)
        ensures
            final(self).table == old(self).table,
            final(self).settings == old(self).settings,
            final(self).grants == old(self).grants,
            final(self).configs == old(self).configs,
            final(self).processes.asked() == old(self).processes.asked() + stop_requests(
                id@,
                views(names@),
            ),
    {
        let ghost start = self.processes.asked();
        let ghost stops = stop_requests(id@, views(names@));
        let mut i: usize = 0;
        assert(start + stops.take(0) =~= start);
        while i < names.len()
            invariant
                i <= names.len(),
                self.table == old(self).table,
                self.settings == old(self).settings,
                self.grants == old(self).grants,
                self.configs == old(self).configs,
                stops == stop_requests(id@, views(names@)),
                self.processes.asked() == start + stops.take(i as int),
            decreases names.len() - i,
        {
            let key = sidecar_key(id, names[i].as_str());
            self.processes.stop(key.as_str());
            assert(stops[i as int] == ProcessRequest::Stop { key: key@ });
            assert(start + stops.take(i + 1) =~= (start + stops.take(i as int)).push(
                stops[i as int],
            ));
            i = i + 1;
        }
        assert(stops.take(stops.len() as int) =~= stops);
    }

    fn refresh_sidecar_runtime(&mut self, at: usize, stop_names: &Vec<String>) -> (r: Vec<
        SidecarInfo,
    >)
        requires
            at < old(self).table.entries.len(),
        ensures
            final(self).settings == old(self).settings,
            final(self).grants == old(self).grants,
            final(self).configs == old(self).configs,
            ({
                let m = old(self).table.entries@[at as int].manifest.projected();
                let entry = final(self).table.entries@[at as int];
                &&& final(self).processes.asked() == old(self).processes.asked() + stop_requests(
                    m.id,
                    views(stop_names@),
                )
                &&& others_kept(old(self).table.entries@, final(self).table.entries@, at as int)
                &&& same_but_sidecars(old(self).table.entries@[at as int], entry)
                &&& sidecars_said(
                    final(self).grants,
                    final(self).configs,
                    final(self).processes,
                    m,
                    views(r@),
                )
                &&& sidecar_buffer(views(r@), entry.sidecars_json@)
                &&& host_buffer(
                    effective(
                        final(self).grants.approval(m, capabilities()).granted,
                        m.capability_hosts(),
                        local_hosts(sidecar_entries(views(r@))),
                    ),
                    entry.capabilities_json@,
                )
            }),
    {
        let manifest = self.table.entries[at].manifest.as_settings_manifest();
        self.stop_named(manifest.id.as_str(), stop_names);
        let (infos, entries) = self.sidecar_infos_and_entries(&self.table.entries[at].manifest);
        let granted = self.grants.state(&manifest).granted;
        let hosts = merged_effective_hosts(granted, manifest.capability_hosts(), &entries);
        self.table.entries[at].sidecars_json = sidecars_json_string(&entries);
        self.table.entries[at].capabilities_json = capabilities_json_string(&hosts);
        infos
    }

    /// Configures a sidecar: it is ended, and the buffers for sidecars and hosts
    /// are rewritten.
    pub fn set_sidecar_config(&mut self, id: &str, name: &str, config: &SidecarConfig) -> (r:
        Result<Vec<SidecarInfo>, RegistryError>)
        ensures
            sidecar_config_set(*old(self), id@, name@, config@, *final(self), outcome(r)),
    {
        let at = self.table.find(id);
        if at == self.table.entries.len() {
            return Err(M::unknown_registry_error(id));
        }
        let manifest = self.table.entries[at].manifest.as_settings_manifest();
        match self.configs.update_sidecar(&manifest, name, config) {
            Ok(_) => {
                let mut stop_names: Vec<String> = Vec::new();
                stop_names.push(name.to_owned());
                assert(views(stop_names@) =~= seq![name@]);
                Ok(self.refresh_sidecar_runtime(at, &stop_names))
            },
            Err(e) => Err(RegistryError::SidecarConfig(e)),
        }
    }

    /// Changes the approval of a sidecar, ends it if the approval is taken back,
    /// and rewrites the buffers for sidecars and hosts.
    pub fn set_sidecar_grant(&mut self, id: &str, name: &str, granted: bool) -> (r: Result<
        Vec<SidecarInfo>,
        RegistryError,
    >)
        ensures
            sidecar_grant_set(*old(self), id@, name@, granted, *final(self), outcome(r)),
    {
        let at = self.table.find(id);
        if at == self.table.entries.len() {
            return Err(M::unknown_registry_error(id));
        }
        let manifest = self.table.entries[at].manifest.as_settings_manifest();
        if manifest.sidecar(name).is_none() {
            return Err(RegistryError::UnknownSidecar(name.to_owned()));
        }
        let command_configured = granted && match self.configs.sidecar_config(&manifest, name) {
            Some(config) => !config.command.as_str().is_empty(),
            None => false,
        };
        if grant_sidecar_decision(granted, command_configured)
            == GrantSidecarDecision::NoExecutable {
            return Err(
                RegistryError::Sidecar(
                    joined3("sidecar ", name, " has no executable configured; cannot grant"),
                ),
            );
        }
        let stored = self.grants.set_sidecar(&manifest, name, granted);
        assert(grant_stored(
            old(self).grants,
            manifest@,
            target(GrantKind::Sidecar, name@),
            granted,
            self.grants,
            stored,
        ));
        match stored {
            Ok(_) => {
                let stop_names = sidecar_grant_stop_names(name, granted);
                Ok(self.refresh_sidecar_runtime(at, &stop_names))
            },
            Err(e) => Err(RegistryError::Grants(e)),
        }
    }

    /// Starts, ends or restarts a sidecar.
    pub fn control_sidecar(&mut self, id: &str, name: &str, action: SidecarAction) -> (r: Result<
        Vec<SidecarInfo>,
        RegistryError,
    >)
        ensures
            sidecar_controlled(*old(self), id@, name@, action, *final(self), outcome(r)),
    {
        let at = self.table.find(id);
        if at == self.table.entries.len() {
            return Err(M::unknown_registry_error(id));
        }
        let manifest = self.table.entries[at].manifest.as_settings_manifest();
        let request = match manifest.sidecar(name) {
            Some(request) => request,
            None => {
                return Err(RegistryError::UnknownSidecar(name.to_owned()));
            },
        };
        proof {
            let m = manifest@;
            let i = choose|i: int| m.first_sidecar(name@, i);
            let k = choose|k: int| m.first_sidecar(name@, k) && request@ == m.sidecars[k];
            assert(m.first_sidecar(name@, k) && request@ == m.sidecars[k]);
            assert(m.first_sidecar(name@, i));
            assert(i == k) by {
                if i < k {
                    assert(m.sidecars[i].name != name@);
                } else if k < i {
                    assert(m.sidecars[k].name != name@);
                }
            }
        }
        match action {
            SidecarAction::Stop => {
                let key = sidecar_key(manifest.id.as_str(), name);
                self.processes.stop(key.as_str());
            },
            SidecarAction::Start | SidecarAction::Restart => {
                match self.start_or_restart_sidecar(at, action, &manifest, request) {
                    Ok(_) => {},
                    Err(e) => {
                        return Err(e);
                    },
                }
            },
        }
        Ok(self.build_sidecar_infos(&self.table.entries[at].manifest))
    }

    fn start_or_restart_sidecar(
        &mut self,
        at: usize,
        action: SidecarAction,
        manifest: &Manifest,
        request: &SidecarRequest,
    ) -> (r: Result<(), RegistryError>)
        requires
            at < old(self).table.entries.len(),
            at == place_of(old(self).table.entries@, manifest@.id),
            manifest@ == old(self).table.entries@[at as int].manifest.projected(),
            action != SidecarAction::Stop,
        ensures
            final(self).table == old(self).table,
            final(self).settings == old(self).settings,
            final(self).grants == old(self).grants,
            final(self).configs == old(self).configs,
            sidecar_started(
                *old(self),
                manifest@.id,
                request@,
                action,
                *final(self),
                match r {
                    Ok(_) => None,
                    Err(e) => Some(e@),
                },
            ),
    {
        let name = request.name.as_str();
        let key = sidecar_key(manifest.id.as_str(), name);
        let disabled = match &self.table.entries[at].state {
            PluginState::Running => false,
            PluginState::Disabled { reason: _ } => true,
        };
        if action == SidecarAction::Restart && !disabled {
            self.processes.stop(key.as_str());
        }
        let grant = self.grants.sidecar_state(manifest, name);
        let config = self.effective_sidecar_config(manifest, request);
        let has_command = !config.command.as_str().is_empty();
        match sidecar_start_decision(disabled, grant.granted, has_command) {
            SidecarStartDecision::Disabled => {
                let who = joined3(M::subject_noun(), " ", manifest.id.as_str());
                return Err(RegistryError::Sidecar(joined(who.as_str(), " is disabled")));
            },
            SidecarStartDecision::NotGranted => {
                return Err(RegistryError::Sidecar(joined3("sidecar ", name, " is not granted")));
            },
            SidecarStartDecision::NoExecutable => {
                return Err(
                    RegistryError::Sidecar(
                        joined3("sidecar ", name, " has no executable configured"),
                    ),
                );
            },
            SidecarStartDecision::Proceed => {},
        }
        let spec = ProcessSpec {
            command: config.command.clone(),
            args: copied_texts(&config.args),
            ports: assign_ports(&config),
        };
        assert(spec@ == process_spec(config@));
        let ghost at = self.processes;
        let answer = self.processes.ensure_started(key.as_str(), &spec);
        assert(at.answers_start(key@, spec@, start_answer(answer)));
        match answer {
            Ok(_) => Ok(()),
            Err(e) => Err(RegistryError::Sidecar(e.message)),
        }
    }

    /// Ends all sidecars of all owners.
    pub fn stop_all(&mut self)
        ensures
            final(self).table == old(self).table,
            final(self).settings == old(self).settings,
            final(self).grants == old(self).grants,
            final(self).configs == old(self).configs,
            final(self).processes.asked() == old(self).processes.asked().push(
                ProcessRequest::StopAll,
            ),
    {
        self.processes.stop_all();
    }
}

/// No process starts but for an enabled owner, with an approval and an
/// executable.
pub proof fn law_nothing_starts_without_leave<
    M: RegistrySubject,
    St: Storage,
    G: GrantStorage,
    C: ConfigStorage,
    P: ProcessControl,
>(
    before: SubjectRegistry<M, St, G, C, P>,
    id: Seq<char>,
    name: Seq<char>,
    action: SidecarAction,
    after: SubjectRegistry<M, St, G, C, P>,
    r: Result<Seq<SidecarInfoView>, RegistryErrorView>,
    i: int,
)
    requires
        sidecar_controlled(before, id, name, action, after, r),
        before.processes.asked().len() <= i < after.processes.asked().len(),
        after.processes.asked()[i] is Start,
    ensures
        before.has(id),
        before.subject(id).declares_sidecar(name),
        before.entry(id).state is Running,
        before.grants.approval(before.subject(id), target(GrantKind::Sidecar, name)).granted,
        after.processes.asked()[i]->spec.command.len() > 0,
{
    let m = before.subject(id);
    if before.has(id) && m.declares_sidecar(name) {
        lemma_first_sidecar(m, name);
    }
}

proof fn lemma_first_sidecar(m: ManifestView, name: Seq<char>)
    requires
        m.declares_sidecar(name),
    ensures
        m.first_sidecar(name, choose|i: int| m.first_sidecar(name, i)),
{
    let some = choose|i: int| 0 <= i < m.sidecars.len() && #[trigger] m.sidecars[i].name == name;
    lemma_first_sidecar_up_to(m, name, some);
}

proof fn lemma_first_sidecar_up_to(m: ManifestView, name: Seq<char>, i: int)
    requires
        0 <= i < m.sidecars.len(),
        m.sidecars[i].name == name,
    ensures
        exists|k: int| m.first_sidecar(name, k),
    decreases i,
{
    if exists|j: int| 0 <= j < i && (#[trigger] m.sidecars[j]).name == name {
        let j = choose|j: int| 0 <= j < i && (#[trigger] m.sidecars[j]).name == name;
        lemma_first_sidecar_up_to(m, name, j);
    } else {
        assert(m.first_sidecar(name, i));
    }
}

/// Taking the approval of a sidecar back ends it, and leaves its owner nothing to
/// use of it: no command, no arguments and no ports.
pub proof fn law_a_revoked_sidecar_is_ended_and_withheld<
    M: RegistrySubject,
    St: Storage,
    G: GrantStorage,
    C: ConfigStorage,
    P: ProcessControl,
>(
    before: SubjectRegistry<M, St, G, C, P>,
    id: Seq<char>,
    name: Seq<char>,
    after: SubjectRegistry<M, St, G, C, P>,
    infos: Seq<SidecarInfoView>,
    i: int,
)
    requires
        sidecar_grant_set(before, id, name, false, after, Ok(infos)),
        0 <= i < entries_of::<SidecarRuntimeEntry>(after.entry(id).sidecars_json@).len(),
        entries_of::<SidecarRuntimeEntry>(after.entry(id).sidecars_json@)[i].name == name,
    ensures
        after.processes.asked() == before.processes.asked().push(
            ProcessRequest::Stop { key: process_key(id, name) },
        ),
        ({
            let entry = entries_of::<SidecarRuntimeEntry>(after.entry(id).sidecars_json@)[i];
            !entry.granted && entry.command.len() == 0 && entry.args.len() == 0
                && entry.ports.len() == 0
        }),
{
    lemma_at_place(before.table.entries@, id);
    let at = place_of(before.table.entries@, id);
    assert forall|j: int| 0 <= j < before.table.entries.len() implies (
    #[trigger] after.table.entries@[j]).manifest == before.table.entries@[j].manifest by {
        if j != at {
            assert(after.table.entries@[j] == before.table.entries@[j]);
        }
    }
    lemma_same_places(before.table.entries@, after.table.entries@, id);
    assert(before.processes.asked() + stop_requests(id, seq![name])
        =~= before.processes.asked().push(ProcessRequest::Stop { key: process_key(id, name) }));
    let shown = entries_of::<SidecarRuntimeEntry>(after.entry(id).sidecars_json@);
    assert(shown[i] == <SidecarRuntimeEntry as BufferEntry>::redacted(sidecar_entry(infos[i])));
    assert(infos[i].request.name == name);
    assert(infos[i].grant == after.grants.approval(
        before.subject(id),
        target(GrantKind::Sidecar, name),
    ));
}

/// Controlling a declared sidecar asks this of processes, after all that was asked
/// before. Stop ends it. Start starts it, and Restart ends it before that, but both only
/// for an owner that is enabled. It starts with the command, the arguments and the ports
/// that somebody has configured, and only if it is approved and there is a command.
pub proof fn law_control_asks_processes_to_stop_and_start<
    M: RegistrySubject,
    St: Storage,
    G: GrantStorage,
    C: ConfigStorage,
    P: ProcessControl,
>(
    before: SubjectRegistry<M, St, G, C, P>,
    id: Seq<char>,
    name: Seq<char>,
    action: SidecarAction,
    after: SubjectRegistry<M, St, G, C, P>,
    r: Result<Seq<SidecarInfoView>, RegistryErrorView>,
    at: int,
    k: int,
)
    requires
        0 <= at < before.table.entries.len(),
        before.table.entries@[at].manifest.projected().id == id,
        forall|j: int|
            0 <= j < at ==> (#[trigger] before.table.entries@[j]).manifest.projected().id != id,
        0 <= k < before.table.entries@[at].manifest.projected().sidecars.len(),
        before.table.entries@[at].manifest.projected().sidecars[k].name == name,
        forall|j: int|
            0 <= j < k ==> (
            #[trigger] before.table.entries@[at].manifest.projected().sidecars[j]).name != name,
        sidecar_controlled(before, id, name, action, after, r),
    ensures
        after.table == before.table,
        after.settings == before.settings,
        after.grants == before.grants,
        after.configs == before.configs,
        ({
            let m = before.table.entries@[at].manifest.projected();
            let disabled = before.table.entries@[at].state is Disabled;
            let approved = before.grants.approval(
                m,
                (GrantTarget { kind: GrantKind::Sidecar, name }),
            ).granted;
            let config = before.configs.sidecar_of(m, name);
            let able = approved && config is Some && config->0.command.len() > 0;
            let stop = ProcessRequest::Stop { key: id + "/"@ + name };
            let asked = before.processes.asked();
            let after_asked = after.processes.asked();
            let first = if action == SidecarAction::Restart {
                asked.push(stop)
            } else {
                asked
            };
            &&& action == SidecarAction::Stop ==> after_asked == asked.push(stop) && r is Ok
            &&& action != SidecarAction::Stop && disabled ==> after_asked == asked && r is Err
            &&& action != SidecarAction::Stop && !disabled && !able ==> after_asked == first
                && r is Err
            &&& action != SidecarAction::Stop && !disabled && able ==> {
                let start = after_asked.last();
                &&& after_asked == first.push(start)
                &&& start is Start
                &&& start->Start_key == id + "/"@ + name
                &&& start->spec.command == config->0.command
                &&& start->spec.args == config->0.args
                &&& start->spec.ports.len() <= config->0.replicas
                &&& start->spec.ports.len() == config->0.replicas || config->0.port
                    + start->spec.ports.len() == 65536
                &&& forall|i: int|
                    0 <= i < start->spec.ports.len() ==> #[trigger] start->spec.ports[i]
                        == config->0.port + i
            }
        }),
{
    let entries = before.table.entries@;
    lemma_place(entries, id, at);
    let m = entries[at].manifest.projected();
    assert(m.declares_sidecar(name));
    assert(m.first_sidecar(name, k));
    lemma_first_sidecar(m, name);
    let i = choose|i: int| m.first_sidecar(name, i);
    assert(i == k) by {
        if i < k {
            assert(m.sidecars[i].name != name);
        } else if k < i {
            assert(m.sidecars[k].name != name);
        }
    }
}

/// What is said of sidecars follows their declaration one by one: the request as it was
/// declared, what somebody has configured or else the declared arguments and port without
/// a command, the approval, and what runs under the owner's id and the sidecar's name.
pub proof fn law_every_declared_sidecar_is_told_of<
    G: Approvals,
    C: Configurations,
    P: Processes,
>(
    grants: G,
    configs: C,
    processes: P,
    m: ManifestView,
    infos: Seq<SidecarInfoView>,
    i: int,
)
    requires
        sidecars_said(grants, configs, processes, m, infos),
        0 <= i < m.sidecars.len(),
    ensures
        infos.len() == m.sidecars.len(),
        infos[i].request == m.sidecars[i],
        infos[i].grant == grants.approval(
            m,
            (GrantTarget { kind: GrantKind::Sidecar, name: m.sidecars[i].name }),
        ),
        configs.sidecar_of(m, m.sidecars[i].name) matches Some(config) ==> infos[i].config
            == config,
        configs.sidecar_of(m, m.sidecars[i].name) is None ==> {
            &&& infos[i].config.command.len() == 0
            &&& infos[i].config.args == m.sidecars[i].args
            &&& infos[i].config.port == m.sidecars[i].port
            &&& infos[i].config.replicas == 1
        },
        exists|spec: ProcessSpecView| #[trigger]
            processes.shows(m.id + "/"@ + m.sidecars[i].name, spec, infos[i].instances)
                && spec.command == infos[i].config.command && spec.args == infos[i].config.args,
{
    assert(sidecar_said(grants, configs, processes, m, m.sidecars[i], infos[i]));
    let spec = process_spec(infos[i].config);
    assert(processes.shows(m.id + "/"@ + m.sidecars[i].name, spec, infos[i].instances));
}

/// After its configuration changed, a sidecar is ended and runs by the new configuration
/// from then on, and no other configuration changes. A configuration that the store
/// refuses changes nothing and asks nothing of processes.
pub proof fn law_a_new_configuration_ends_the_sidecar<
    M: RegistrySubject,
    St: Storage,
    G: GrantStorage,
    C: ConfigStorage,
    P: ProcessControl,
>(
    before: SubjectRegistry<M, St, G, C, P>,
    id: Seq<char>,
    name: Seq<char>,
    config: SidecarConfigView,
    after: SubjectRegistry<M, St, G, C, P>,
    r: Result<Seq<SidecarInfoView>, RegistryErrorView>,
    at: int,
)
    requires
        0 <= at < before.table.entries.len(),
        before.table.entries@[at].manifest.projected().id == id,
        forall|j: int|
            0 <= j < at ==> (#[trigger] before.table.entries@[j]).manifest.projected().id != id,
        sidecar_config_set(before, id, name, config, after, r),
    ensures
        after.settings == before.settings,
        after.grants == before.grants,
        r is Ok ==> {
            let m = before.table.entries@[at].manifest.projected();
            &&& after.configs.sidecar_of(m, name) == Some(config)
            &&& after.processes.asked() == before.processes.asked().push(
                ProcessRequest::Stop { key: id + "/"@ + name },
            )
            &&& sidecars_said(after.grants, after.configs, after.processes, m, r->Ok_0)
        },
        r is Err ==> after.table == before.table && after.processes == before.processes,
        forall|other: ManifestView, n: Seq<char>|
            r is Err || other.id != id || n != name ==> #[trigger] after.configs.sidecar_of(other, n)
                == before.configs.sidecar_of(other, n),
        forall|other: ManifestView, n: Seq<char>| #[trigger]
            after.configs.root_of(other, n) == before.configs.root_of(other, n),
        after.table.entries.len() == before.table.entries.len(),
        forall|j: int|
            0 <= j < before.table.entries.len() && j != at ==> #[trigger] after.table.entries@[j]
                == before.table.entries@[j],
        after.table.entries@[at].manifest == before.table.entries@[at].manifest,
        after.table.entries@[at].state == before.table.entries@[at].state,
        after.table.entries@[at].settings_json == before.table.entries@[at].settings_json,
        after.table.entries@[at].filesystem_json == before.table.entries@[at].filesystem_json,
        after.table.entries@[at].bus_json == before.table.entries@[at].bus_json,
{
    lemma_place(before.table.entries@, id, at);
    assert(stop_requests(id, seq![name]) =~= seq![
        ProcessRequest::Stop { key: id + "/"@ + name },
    ]);
    assert(before.processes.asked() + stop_requests(id, seq![name])
        =~= before.processes.asked().push(ProcessRequest::Stop { key: id + "/"@ + name }));
}

/// Changing the approval of a sidecar answers so. One that is not declared is unknown. To
/// approve one takes a command that somebody has configured. To take an approval back takes
/// nothing, ends the sidecar, and leaves it not approved. No other approval changes, and
/// nothing is ended by an approval.
pub proof fn law_approving_a_sidecar_takes_a_command<
    M: RegistrySubject,
    St: Storage,
    G: GrantStorage,
    C: ConfigStorage,
    P: ProcessControl,
>(
    before: SubjectRegistry<M, St, G, C, P>,
    id: Seq<char>,
    name: Seq<char>,
    granted: bool,
    after: SubjectRegistry<M, St, G, C, P>,
    r: Result<Seq<SidecarInfoView>, RegistryErrorView>,
    at: int,
)
    requires
        0 <= at < before.table.entries.len(),
        before.table.entries@[at].manifest.projected().id == id,
        forall|j: int|
            0 <= j < at ==> (#[trigger] before.table.entries@[j]).manifest.projected().id != id,
        sidecar_grant_set(before, id, name, granted, after, r),
    ensures
        after.settings == before.settings,
        after.configs == before.configs,
        ({
            let m = before.table.entries@[at].manifest.projected();
            let on = GrantTarget { kind: GrantKind::Sidecar, name };
            let declared = exists|k: int| #![trigger m.sidecars[k]]
                0 <= k < m.sidecars.len() && m.sidecars[k].name == name;
            let config = before.configs.sidecar_of(m, name);
            &&& !declared ==> r == Err::<Seq<SidecarInfoView>, _>(
                RegistryErrorView::UnknownSidecar(name),
            )
            &&& granted && !(config is Some && config->0.command.len() > 0) ==> r is Err
            &&& r is Err ==> after.table == before.table && after.processes == before.processes
            &&& r is Err ==> forall|other: ManifestView, t: GrantTarget| #[trigger]
                after.grants.approval(other, t) == before.grants.approval(other, t)
            &&& r is Ok ==> forall|other: ManifestView, t: GrantTarget|
                other.id != id || t != on ==> #[trigger] after.grants.approval(other, t)
                    == before.grants.approval(other, t)
            &&& r is Ok && granted ==> after.processes.asked() == before.processes.asked()
            &&& r is Ok && !granted ==> after.processes.asked() == before.processes.asked().push(
                ProcessRequest::Stop { key: id + "/"@ + name },
            )
            &&& r is Ok && !granted ==> !after.grants.approval(m, on).granted
            &&& r is Ok ==> sidecars_said(
                after.grants,
                after.configs,
                after.processes,
                m,
                r->Ok_0,
            )
        }),
{
    lemma_place(before.table.entries@, id, at);
    let m = before.table.entries@[at].manifest.projected();
    assert(m.declares_sidecar(name) <==> exists|k: int| #![trigger m.sidecars[k]]
        0 <= k < m.sidecars.len() && m.sidecars[k].name == name);
    assert(stop_requests(id, seq![name]) =~= seq![
        ProcessRequest::Stop { key: id + "/"@ + name },
    ]);
    assert(before.processes.asked() + stop_requests(id, seq![name])
        =~= before.processes.asked().push(ProcessRequest::Stop { key: id + "/"@ + name }));
    assert(before.processes.asked() + stop_requests(id, seq![]) =~= before.processes.asked());
}

/// After the sidecars of an owner were looked at anew, its buffer lists each in order:
/// what is approved with the command, the arguments and the ports that it runs with, and
/// what is not with nothing but its name. Its hosts are those that it asked for, if that
/// is approved, and the ports of its approved sidecars on this machine, and no other.
pub proof fn law_refreshed_buffers_disclose_what_is_approved<
    M: RegistrySubject,
    St: Storage,
    G: GrantStorage,
    C: ConfigStorage,
    P: ProcessControl,
>(
    before: SubjectRegistry<M, St, G, C, P>,
    id: Seq<char>,
    stops: Seq<Seq<char>>,
    after: SubjectRegistry<M, St, G, C, P>,
    infos: Seq<SidecarInfoView>,
    at: int,
    i: int,
    host: Seq<char>,
)
    requires
        0 <= at < before.table.entries.len(),
        before.table.entries@[at].manifest.projected().id == id,
        forall|j: int|
            0 <= j < at ==> (#[trigger] before.table.entries@[j]).manifest.projected().id != id,
        sidecars_refreshed(before, id, stops, after, infos),
        0 <= i < infos.len(),
    ensures
        ({
            let listed = entries_of::<SidecarRuntimeEntry>(
                after.table.entries@[at].sidecars_json@,
            );
            &&& listed.len() == infos.len()
            &&& listed[i].name == infos[i].request.name
            &&& listed[i].granted == infos[i].grant.granted
            &&& infos[i].grant.granted ==> {
                &&& listed[i].command == infos[i].config.command
                &&& listed[i].args == infos[i].config.args
                &&& forall|p: int|
                    0 <= p < listed[i].ports.len() ==> #[trigger] listed[i].ports[p]
                        == infos[i].config.port + p
                &&& listed[i].ports.len() == infos[i].config.replicas || infos[i].config.port
                    + listed[i].ports.len() == 65536
            }
            &&& !infos[i].grant.granted ==> {
                &&& listed[i].command.len() == 0
                &&& listed[i].args.len() == 0
                &&& listed[i].ports.len() == 0
            }
        }),
        ({
            let m = before.table.entries@[at].manifest.projected();
            let hosts = hosts_of(after.table.entries@[at].capabilities_json@);
            let approved = after.grants.approval(
                m,
                (GrantTarget { kind: GrantKind::Capabilities, name: seq![] }),
            ).granted;
            hosts.contains(host) <==> {
                ||| approved && m.capability_hosts().contains(host)
                ||| exists|k: int, p: u16|
                    #![trigger infos[k], decimal(p as nat)]
                    0 <= k < infos.len() && infos[k].grant.granted && infos[k].config.ports().contains(p)
                        && host == "http://127.0.0.1:"@ + decimal(p as nat)
            }
        }),
{
    lemma_place(before.table.entries@, id, at);
    let m = before.table.entries@[at].manifest.projected();
    let shown = all_redacted::<SidecarRuntimeEntry>(sidecar_entries(infos));
    assert(shown[i] == <SidecarRuntimeEntry as BufferEntry>::redacted(sidecar_entry(infos[i])));
    let local = local_hosts(sidecar_entries(infos));
    lemma_local_hosts_are_ports(sidecar_entries(infos), host);
    let approved = after.grants.approval(m, capabilities()).granted;
    let hosts = effective(approved, m.capability_hosts(), local);
    lemma_either_part_holds(m.capability_hosts(), local, host);
    assert(hosts.contains(host) <==> approved && m.capability_hosts().contains(host)
        || local.contains(host));
    if local.contains(host) {
        let (k, p) = choose|k: int, p: u16|
            #![trigger sidecar_entries(infos)[k], local_host(p)]
            0 <= k < sidecar_entries(infos).len() && sidecar_entries(infos)[k].granted
                && sidecar_entries(infos)[k].ports.contains(p) && host == local_host(p);
        assert(sidecar_entries(infos)[k] == sidecar_entry(infos[k]));
        assert(infos[k].grant.granted);
        assert(host == local_host(p));
    }
    if exists|k: int, p: u16|
        #![trigger infos[k], decimal(p as nat)]
        0 <= k < infos.len() && infos[k].grant.granted && infos[k].config.ports().contains(p) && host
            == "http://127.0.0.1:"@ + decimal(p as nat) {
        let (k, p) = choose|k: int, p: u16|
            #![trigger infos[k], decimal(p as nat)]
            0 <= k < infos.len() && infos[k].grant.granted && infos[k].config.ports().contains(p)
                && host == "http://127.0.0.1:"@ + decimal(p as nat);
        assert(sidecar_entries(infos)[k] == sidecar_entry(infos[k]));
        assert(host == local_host(p));
    }
}

pub proof fn lemma_either_part_holds(
    first: Seq<Seq<char>>,
    second: Seq<Seq<char>>,
    item: Seq<char>,
)
    ensures
        (first + second).contains(item) <==> first.contains(item) || second.contains(item),
{
    let both = first + second;
    if first.contains(item) {
        let i = choose|i: int| 0 <= i < first.len() && first[i] == item;
        assert(both[i] == item);
    }
    if second.contains(item) {
        let i = choose|i: int| 0 <= i < second.len() && second[i] == item;
        assert(both[first.len() + i] == item);
    }
    if both.contains(item) {
        let i = choose|i: int| 0 <= i < both.len() && both[i] == item;
        if i < first.len() {
            assert(first[i] == item);
        } else {
            assert(second[i - first.len()] == item);
        }
    }
}

proof fn lemma_local_hosts_are_ports(entries: Seq<SidecarRuntimeEntryView>, host: Seq<char>)
    ensures
        local_hosts(entries).contains(host) <==> exists|k: int, p: u16|
            #![trigger entries[k], local_host(p)]
            0 <= k < entries.len() && entries[k].granted && entries[k].ports.contains(p) && host
                == local_host(p),
    decreases entries.len(),
{
    if entries.len() > 0 {
        let rest = entries.drop_last();
        let last = entries.last();
        lemma_local_hosts_are_ports(rest, host);
        let own = if last.granted {
            last.ports.map_values(|port: u16| local_host(port))
        } else {
            seq![]
        };
        lemma_either_part_holds(local_hosts(rest), own, host);
        if local_hosts(rest).contains(host) {
            let (k, p) = choose|k: int, p: u16|
                #![trigger rest[k], local_host(p)]
                0 <= k < rest.len() && rest[k].granted && rest[k].ports.contains(p) && host
                    == local_host(p);
            assert(entries[k] == rest[k]);
            assert(host == local_host(p));
        }
        if own.contains(host) {
            let j = choose|j: int| 0 <= j < own.len() && own[j] == host;
            let p = last.ports[j];
            assert(entries[entries.len() - 1] == last);
            assert(last.ports.contains(p));
            assert(host == local_host(p));
        }
        if exists|k: int, p: u16|
            #![trigger entries[k], local_host(p)]
            0 <= k < entries.len() && entries[k].granted && entries[k].ports.contains(p) && host
                == local_host(p) {
            let (k, p) = choose|k: int, p: u16|
                #![trigger entries[k], local_host(p)]
                0 <= k < entries.len() && entries[k].granted && entries[k].ports.contains(p)
                    && host == local_host(p);
            if k < rest.len() {
                assert(rest[k] == entries[k]);
                assert(host == local_host(p));
            } else {
                let j = choose|j: int| 0 <= j < last.ports.len() && last.ports[j] == p;
                assert(own[j] == host);
            }
        }
    }
}

/// A start or restart is refused with its cause, the first of these: the owner is disabled, the
/// sidecar is not approved, or it has no executable. If none holds it is up to what runs
/// processes, whose words are handed on: the returned answer.
pub proof fn law_a_start_is_refused_with_its_cause<
    M: RegistrySubject,
    St: Storage,
    G: GrantStorage,
    C: ConfigStorage,
    P: ProcessControl,
>(
    before: SubjectRegistry<M, St, G, C, P>,
    id: Seq<char>,
    name: Seq<char>,
    action: SidecarAction,
    after: SubjectRegistry<M, St, G, C, P>,
    r: Result<Seq<SidecarInfoView>, RegistryErrorView>,
    at: int,
    k: int,
) -> (answer: Result<Seq<InstanceStatus>, Seq<char>>)
    requires
        0 <= at < before.table.entries.len(),
        before.table.entries@[at].manifest.projected().id == id,
        forall|j: int|
            0 <= j < at ==> (#[trigger] before.table.entries@[j]).manifest.projected().id != id,
        0 <= k < before.table.entries@[at].manifest.projected().sidecars.len(),
        before.table.entries@[at].manifest.projected().sidecars[k].name == name,
        forall|j: int|
            0 <= j < k ==> (
            #[trigger] before.table.entries@[at].manifest.projected().sidecars[j]).name != name,
        action != SidecarAction::Stop,
        sidecar_controlled(before, id, name, action, after, r),
    ensures
        ({
            let m = before.table.entries@[at].manifest.projected();
            let disabled = before.table.entries@[at].state is Disabled;
            let approved = before.grants.approval(
                m,
                (GrantTarget { kind: GrantKind::Sidecar, name }),
            ).granted;
            let config = before.configs.sidecar_of(m, name);
            let able = config is Some && config->0.command.len() > 0;
            &&& disabled ==> r == Err::<Seq<SidecarInfoView>, _>(
                RegistryErrorView::Sidecar(M::noun() + " "@ + id + " is disabled"@),
            )
            &&& !disabled && !approved ==> r == Err::<Seq<SidecarInfoView>, _>(
                RegistryErrorView::Sidecar("sidecar "@ + name + " is not granted"@),
            )
            &&& !disabled && approved && !able ==> r == Err::<Seq<SidecarInfoView>, _>(
                RegistryErrorView::Sidecar("sidecar "@ + name + " has no executable configured"@),
            )
            &&& !disabled && approved && able ==> {
                &&& answer is Ok <==> r is Ok
                &&& answer matches Err(message) ==> r == Err::<Seq<SidecarInfoView>, _>(
                    RegistryErrorView::Sidecar(message),
                )
                &&& r matches Ok(infos) ==> sidecars_said(
                    after.grants,
                    after.configs,
                    after.processes,
                    m,
                    infos,
                )
                &&& action == SidecarAction::Start ==> exists|spec: ProcessSpecView| #[trigger]
                    before.processes.answers_start(id + "/"@ + name, spec, answer) && spec.command
                        == config->0.command && spec.args == config->0.args
            }
        }),
{
    let entries = before.table.entries@;
    lemma_place(entries, id, at);
    let m = entries[at].manifest.projected();
    assert(m.declares_sidecar(name));
    assert(m.first_sidecar(name, k));
    lemma_first_sidecar(m, name);
    let i = choose|i: int| m.first_sidecar(name, i);
    assert(i == k) by {
        if i < k {
            assert(m.sidecars[i].name != name);
        } else if k < i {
            assert(m.sidecars[k].name != name);
        }
    }
    let config = sidecar_config(before.configs, m, m.sidecars[k]);
    let key = process_key(m.id, name);
    let spec = process_spec(config);
    let refused = match r {
        Ok(_) => None,
        Err(e) => Some(e),
    };
    let restarts = action == SidecarAction::Restart;
    let ended = if restarts {
        before.processes.asked().push(ProcessRequest::Stop { key })
    } else {
        before.processes.asked()
    };
    let (found, answer) = choose|found: P, answer: Result<Seq<InstanceStatus>, Seq<char>>|
        {
            &&& #[trigger] found.answers_start(key, spec, answer)
            &&& found.asked() == ended
            &&& !restarts ==> found == before.processes
            &&& refused == match answer {
                Ok(_) => None,
                Err(message) => Some(RegistryErrorView::Sidecar(message)),
            }
        };
    answer
}

/// Nothing is controlled for an id that is not registered: the id is named in the answer.
pub proof fn law_sidecars_of_an_unknown_owner_are_not_controlled<
    M: RegistrySubject,
    St: Storage,
    G: GrantStorage,
    C: ConfigStorage,
    P: ProcessControl,
>(
    before: SubjectRegistry<M, St, G, C, P>,
    id: Seq<char>,
    name: Seq<char>,
    action: SidecarAction,
    after: SubjectRegistry<M, St, G, C, P>,
    r: Result<Seq<SidecarInfoView>, RegistryErrorView>,
)
    requires
        forall|j: int|
            0 <= j < before.table.entries.len() ==> (
            #[trigger] before.table.entries@[j]).manifest.projected().id != id,
        sidecar_controlled(before, id, name, action, after, r),
    ensures
        r == Err::<Seq<SidecarInfoView>, _>(M::unknown(id)),
        after == before,
{
    lemma_place(before.table.entries@, id, before.table.entries.len() as int);
}

/// Nothing is configured for an id that is not registered: the id is named in the answer.
pub proof fn law_sidecars_of_an_unknown_owner_are_not_configured<
    M: RegistrySubject,
    St: Storage,
    G: GrantStorage,
    C: ConfigStorage,
    P: ProcessControl,
>(
    before: SubjectRegistry<M, St, G, C, P>,
    id: Seq<char>,
    name: Seq<char>,
    config: SidecarConfigView,
    after: SubjectRegistry<M, St, G, C, P>,
    r: Result<Seq<SidecarInfoView>, RegistryErrorView>,
)
    requires
        forall|j: int|
            0 <= j < before.table.entries.len() ==> (
            #[trigger] before.table.entries@[j]).manifest.projected().id != id,
        sidecar_config_set(before, id, name, config, after, r),
    ensures
        r == Err::<Seq<SidecarInfoView>, _>(M::unknown(id)),
        after == before,
{
    lemma_place(before.table.entries@, id, before.table.entries.len() as int);
}

/// Nothing is approved for an id that is not registered: the id is named in the answer.
pub proof fn law_sidecars_of_an_unknown_owner_are_not_approved<
    M: RegistrySubject,
    St: Storage,
    G: GrantStorage,
    C: ConfigStorage,
    P: ProcessControl,
>(
    before: SubjectRegistry<M, St, G, C, P>,
    id: Seq<char>,
    name: Seq<char>,
    granted: bool,
    after: SubjectRegistry<M, St, G, C, P>,
    r: Result<Seq<SidecarInfoView>, RegistryErrorView>,
)
    requires
        forall|j: int|
            0 <= j < before.table.entries.len() ==> (
            #[trigger] before.table.entries@[j]).manifest.projected().id != id,
        sidecar_grant_set(before, id, name, granted, after, r),
    ensures
        r == Err::<Seq<SidecarInfoView>, _>(M::unknown(id)),
        after == before,
{
    lemma_place(before.table.entries@, id, before.table.entries.len() as int);
}

/// Nothing is shown for an id that is not registered: the id is named in the answer.
pub proof fn law_sidecars_of_an_unknown_owner_are_not_shown<
    M: RegistrySubject,
    St: Storage,
    G: GrantStorage,
    C: ConfigStorage,
    P: ProcessControl,
>(
    before: SubjectRegistry<M, St, G, C, P>,
    id: Seq<char>,
    r: Result<Seq<SidecarInfoView>, RegistryErrorView>,
)
    requires
        forall|j: int|
            0 <= j < before.table.entries.len() ==> (
            #[trigger] before.table.entries@[j]).manifest.projected().id != id,
        sidecars_shown(before, id, r),
    ensures
        r == Err::<Seq<SidecarInfoView>, _>(M::unknown(id)),
{
    lemma_place(before.table.entries@, id, before.table.entries.len() as int);
}

/// A sidecar that its owner does not declare is not controlled: it is named in the answer.
pub proof fn law_undeclared_sidecars_are_not_controlled<
    M: RegistrySubject,
    St: Storage,
    G: GrantStorage,
    C: ConfigStorage,
    P: ProcessControl,
>(
    before: SubjectRegistry<M, St, G, C, P>,
    id: Seq<char>,
    name: Seq<char>,
    action: SidecarAction,
    after: SubjectRegistry<M, St, G, C, P>,
    r: Result<Seq<SidecarInfoView>, RegistryErrorView>,
    at: int,
)
    requires
        0 <= at < before.table.entries.len(),
        before.table.entries@[at].manifest.projected().id == id,
        forall|j: int|
            0 <= j < at ==> (#[trigger] before.table.entries@[j]).manifest.projected().id != id,
        forall|j: int| #![trigger before.table.entries@[at].manifest.projected().sidecars[j]]
            0 <= j < before.table.entries@[at].manifest.projected().sidecars.len()
                ==> before.table.entries@[at].manifest.projected().sidecars[j].name != name,
        sidecar_controlled(before, id, name, action, after, r),
    ensures
        r == Err::<Seq<SidecarInfoView>, _>(RegistryErrorView::UnknownSidecar(name)),
        after == before,
{
    lemma_place(before.table.entries@, id, at);
}

} // verus!
