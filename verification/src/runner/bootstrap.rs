//! What plugins and drivers start with.

use vstd::prelude::*;

use crate::capability::{
    capabilities, target, Approvals, GrantKind, GrantStorage, GrantTarget,
};
use crate::json::{json_object, json_print, json_text, JsonTree};
use crate::manifest::{
    FilesystemMode, FilesystemRequestView, Manifest, ManifestView, SidecarRequestView,
};
use crate::registry::bus::{bus_buffer_says, bus_entries};
use crate::registry::filesystem::{filesystem_infos, fs_entry, root_config};
use crate::registry::sidecar::{
    effective, host_buffer, lemma_either_part_holds, merged_effective_hosts, sidecar_config,
    sidecar_entries, sidecars_said,
};
use crate::registry::subject::RegistrySubject;
use crate::registry::Processes;
use crate::rpc::info::{FilesystemInfoView, SidecarInfoView};
use crate::runtime::buffer::{all_redacted, buffer_text, entries_of, BufferEntry};
use crate::runtime::bus::{bus_json_string, BusRuntimeEntry};
use crate::runtime::capabilities::{capabilities_json_string, hosts_of};
use crate::runtime::fs::{filesystem_json_string, FsRuntimeEntry, FsRuntimeEntryView};
use crate::runtime::sidecar::{
    local_hosts, sidecars_json_string, SidecarRuntimeEntry, SidecarRuntimeEntryView,
};
use crate::settings::{
    assign_ports, ConfigStorage, Configurations, EffectiveSettings, SidecarConfig, Storage,
};
use crate::text::{copied_texts, views};

verus! {

/// The buffers that a plugin or driver starts with.
#[derive(Debug)]
pub struct InitialBuffers {
    pub settings_json: String,
    pub capabilities_json: String,
    pub sidecars_json: String,
    pub filesystem_json: String,
}

/// What the owner of sidecars may use of them.
pub open spec fn usable_sidecars<G: Approvals, C: Configurations>(
    grants: G,
    configs: C,
    m: ManifestView,
) -> Seq<SidecarRuntimeEntryView> {
    m.sidecars.map_values(
        |request: SidecarRequestView|
            SidecarRuntimeEntryView {
                name: request.name,
                granted: grants.approval(m, target(GrantKind::Sidecar, request.name)).granted,
                command: sidecar_config(configs, m, request).command,
                args: sidecar_config(configs, m, request).args,
                ports: sidecar_config(configs, m, request).ports(),
            },
    )
}

/// What the owner of filesystem roots may use of them.
pub open spec fn usable_roots<G: Approvals, C: Configurations>(
    grants: G,
    configs: C,
    m: ManifestView,
) -> Seq<FsRuntimeEntryView> {
    m.filesystem.map_values(
        |request: FilesystemRequestView|
            FsRuntimeEntryView {
                name: request.name,
                granted: grants.approval(m, target(GrantKind::Filesystem, request.name)).granted,
                mode: request.mode.name(),
                path: root_config(configs, m, request.name).path,
            },
    )
}

/// What the buffers of a plugin or driver say at its start.
pub open spec fn buffers_say<St: EffectiveSettings, G: Approvals, C: Configurations>(
    settings: St,
    grants: G,
    configs: C,
    m: ManifestView,
    buffers: InitialBuffers,
) -> bool {
    let sidecars = usable_sidecars(grants, configs, m);
    let roots = usable_roots(grants, configs, m);
    let shown_sidecars = all_redacted::<SidecarRuntimeEntry>(sidecars);
    let shown_roots = all_redacted::<FsRuntimeEntry>(roots);
    &&& buffers.settings_json@ == json_text(JsonTree::Object(settings.in_effect(m)))
    &&& buffers.sidecars_json@ == buffer_text::<SidecarRuntimeEntry>(shown_sidecars)
    &&& entries_of::<SidecarRuntimeEntry>(buffers.sidecars_json@) == shown_sidecars
    &&& buffers.filesystem_json@ == buffer_text::<FsRuntimeEntry>(shown_roots)
    &&& entries_of::<FsRuntimeEntry>(buffers.filesystem_json@) == shown_roots
    &&& host_buffer(
        effective(
            grants.approval(m, capabilities()).granted,
            m.capability_hosts(),
            local_hosts(sidecars),
        ),
        buffers.capabilities_json@,
    )
}

fn initial_sidecars<M: RegistrySubject, G: GrantStorage, C: ConfigStorage>(
    subject: &M,
    manifest: &Manifest,
    grants: &G,
    configs: &C,
) -> (r: Vec<SidecarRuntimeEntry>)
    requires
        manifest@ == subject.projected(),
    ensures
        views(r@) == usable_sidecars(*grants, *configs, manifest@),
{
    let requests = subject.sidecars();
    let ghost all = usable_sidecars(*grants, *configs, manifest@);
    let mut entries: Vec<SidecarRuntimeEntry> = Vec::new();
    let mut i: usize = 0;
    while i < requests.len()
        invariant
            i <= requests.len(),
            views(requests@) == manifest@.sidecars,
            all == usable_sidecars(*grants, *configs, manifest@),
            entries.len() == i,
            forall|j: int| 0 <= j < i ==> (#[trigger] entries@[j])@ == all[j],
        decreases requests.len() - i,
    {
        let request = &requests[i];
        assert(manifest@.sidecars[i as int] == request@);
        let config = match configs.sidecar_config(manifest, request.name.as_str()) {
            Some(config) => config,
            None => SidecarConfig::from_request(request),
        };
        let granted = grants.sidecar_state(manifest, request.name.as_str()).granted;
        entries.push(
            SidecarRuntimeEntry {
                name: request.name.clone(),
                granted,
                command: config.command.clone(),
                args: copied_texts(&config.args),
                ports: assign_ports(&config),
            },
        );
        i = i + 1;
    }
    assert(views(entries@) =~= all);
    entries
}

fn initial_roots<M: RegistrySubject, G: GrantStorage, C: ConfigStorage>(
    subject: &M,
    manifest: &Manifest,
    grants: &G,
    configs: &C,
) -> (r: Vec<FsRuntimeEntry>)
    requires
        manifest@ == subject.projected(),
    ensures
        views(r@) == usable_roots(*grants, *configs, manifest@),
{
    let requests = subject.filesystem();
    let ghost all = usable_roots(*grants, *configs, manifest@);
    let mut entries: Vec<FsRuntimeEntry> = Vec::new();
    let mut i: usize = 0;
    while i < requests.len()
        invariant
            i <= requests.len(),
            views(requests@) == manifest@.filesystem,
            all == usable_roots(*grants, *configs, manifest@),
            entries.len() == i,
            forall|j: int| 0 <= j < i ==> (#[trigger] entries@[j])@ == all[j],
        decreases requests.len() - i,
    {
        let request = &requests[i];
        assert(manifest@.filesystem[i as int] == request@);
        let path = match configs.filesystem_config(manifest, request.name.as_str()) {
            Some(config) => config.path,
            None => {
                let none = String::new();
                assert(none@ =~= seq![]);
                none
            },
        };
        let granted = grants.filesystem_state(manifest, request.name.as_str()).granted;
        entries.push(
            FsRuntimeEntry {
                name: request.name.clone(),
                granted,
                mode: request.mode.as_str().to_owned(),
                path,
            },
        );
        i = i + 1;
    }
    assert(views(entries@) =~= all);
    entries
}

/// The buffers that a plugin or driver starts with.
pub fn build_initial_buffers<
    M: RegistrySubject,
    St: Storage,
    G: GrantStorage,
    C: ConfigStorage,
>(subject: &M, settings: &St, grants: &G, configs: &C) -> (r: InitialBuffers)
    ensures
        buffers_say(*settings, *grants, *configs, subject.projected(), r),
{
    let manifest = subject.as_settings_manifest();
    let settings_json = json_print(&json_object(settings.effective(&manifest)));
    let sidecars = initial_sidecars(subject, &manifest, grants, configs);
    let roots = initial_roots(subject, &manifest, grants, configs);
    let hosts = merged_effective_hosts(
        grants.state(&manifest).granted,
        manifest.capability_hosts(),
        &sidecars,
    );
    InitialBuffers {
        settings_json,
        capabilities_json: capabilities_json_string(&hosts),
        sidecars_json: sidecars_json_string(&sidecars),
        filesystem_json: filesystem_json_string(&roots),
    }
}

/// The buffer for bus connections that a plugin starts with.
pub fn initial_bus_json<G: GrantStorage>(manifest: &Manifest, grants: &G) -> (r: String)
    ensures
        bus_buffer_says(bus_entries(*grants, manifest@), r@),
{
    let ghost all = bus_entries(*grants, manifest@);
    let mut entries: Vec<BusRuntimeEntry> = Vec::new();
    let mut i: usize = 0;
    while i < manifest.bus.len()
        invariant
            i <= manifest.bus.len(),
            all == bus_entries(*grants, manifest@),
            entries.len() == i,
            forall|j: int| 0 <= j < i ==> (#[trigger] entries@[j])@ == all[j],
        decreases manifest.bus.len() - i,
    {
        let request = &manifest.bus[i];
        assert(manifest@.bus[i as int] == request@);
        entries.push(
            BusRuntimeEntry {
                driver: request.driver.clone(),
                granted: grants.bus_state(manifest, request.driver.as_str()).granted,
                publish: copied_texts(&request.publish),
                subscribe: copied_texts(&request.subscribe),
            },
        );
        i = i + 1;
    }
    assert(views(entries@) =~= all);
    bus_json_string(&entries)
}

/// The buffers at the start say the same as those that are rewritten when an
/// approval or a configuration changes.
pub proof fn law_start_and_refresh_agree<G: Approvals, C: Configurations, P: Processes>(
    grants: G,
    configs: C,
    processes: P,
    m: ManifestView,
    infos: Seq<SidecarInfoView>,
)
    requires
        sidecars_said(grants, configs, processes, m, infos),
    ensures
        usable_sidecars(grants, configs, m) == sidecar_entries(infos),
        usable_roots(grants, configs, m) == filesystem_infos(grants, configs, m).map_values(
            |info: FilesystemInfoView| fs_entry(info),
        ),
{
    assert(usable_sidecars(grants, configs, m) =~= sidecar_entries(infos));
    assert(usable_roots(grants, configs, m) =~= filesystem_infos(grants, configs, m).map_values(
        |info: FilesystemInfoView| fs_entry(info),
    ));
}

/// At its start the buffers of an owner list its sidecars and roots one by one, with what only
/// an approval discloses just if they are approved, and hold the settings in effect.
pub proof fn law_initial_buffers_disclose_what_is_approved<
    St: EffectiveSettings,
    G: Approvals,
    C: Configurations,
>(settings: St, grants: G, configs: C, m: ManifestView, buffers: InitialBuffers, i: int, k: int)
    requires
        buffers_say(settings, grants, configs, m, buffers),
    ensures
        buffers.settings_json@ == json_text(JsonTree::Object(settings.in_effect(m))),
        entries_of::<SidecarRuntimeEntry>(buffers.sidecars_json@).len() == m.sidecars.len(),
        entries_of::<FsRuntimeEntry>(buffers.filesystem_json@).len() == m.filesystem.len(),
        0 <= i < m.sidecars.len() ==> {
            let listed = entries_of::<SidecarRuntimeEntry>(buffers.sidecars_json@)[i];
            let name = m.sidecars[i].name;
            let approved = grants.approval(
                m,
                (GrantTarget { kind: GrantKind::Sidecar, name }),
            ).granted;
            let config = configs.sidecar_of(m, name);
            &&& listed.name == name
            &&& listed.granted == approved
            &&& !approved ==> listed.command.len() == 0 && listed.args.len() == 0
                && listed.ports.len() == 0
            &&& approved && config is Some ==> {
                &&& listed.command == config->0.command
                &&& listed.args == config->0.args
                &&& forall|p: int|
                    0 <= p < listed.ports.len() ==> #[trigger] listed.ports[p] == config->0.port + p
                &&& listed.ports.len() == config->0.replicas || config->0.port + listed.ports.len()
                    == 65536
            }
            &&& approved && config is None ==> listed.command.len() == 0 && listed.args
                == m.sidecars[i].args && listed.ports == seq![m.sidecars[i].port]
        },
        0 <= k < m.filesystem.len() ==> {
            let listed = entries_of::<FsRuntimeEntry>(buffers.filesystem_json@)[k];
            let name = m.filesystem[k].name;
            let approved = grants.approval(
                m,
                (GrantTarget { kind: GrantKind::Filesystem, name }),
            ).granted;
            let config = configs.root_of(m, name);
            &&& listed.name == name
            &&& listed.granted == approved
            &&& listed.mode == match m.filesystem[k].mode {
                FilesystemMode::Read => "read"@,
                FilesystemMode::ReadWrite => "read-write"@,
            }
            &&& approved && config is Some ==> listed.path == config->0.path
            &&& !approved || config is None ==> listed.path.len() == 0
        },
{
    let sidecars = usable_sidecars(grants, configs, m);
    let roots = usable_roots(grants, configs, m);
    let shown_sidecars = all_redacted::<SidecarRuntimeEntry>(sidecars);
    let shown_roots = all_redacted::<FsRuntimeEntry>(roots);
    if 0 <= i < m.sidecars.len() {
        assert(shown_sidecars[i] == <SidecarRuntimeEntry as BufferEntry>::redacted(sidecars[i]));
        let config = sidecar_config(configs, m, m.sidecars[i]);
        if configs.sidecar_of(m, m.sidecars[i].name) is None {
            assert(config.ports() =~= seq![m.sidecars[i].port]);
        }
    }
    if 0 <= k < m.filesystem.len() {
        assert(shown_roots[k] == <FsRuntimeEntry as BufferEntry>::redacted(roots[k]));
    }
}

/// At its start an owner may talk to the hosts that it asked for, if they are approved, and to
/// the ports of its approved sidecars, and to no other host.
pub proof fn law_initial_hosts_are_approved<
    St: EffectiveSettings,
    G: Approvals,
    C: Configurations,
>(settings: St, grants: G, configs: C, m: ManifestView, buffers: InitialBuffers, host: Seq<char>)
    requires
        buffers_say(settings, grants, configs, m, buffers),
    ensures
        hosts_of(buffers.capabilities_json@).contains(host) <==> {
            ||| grants.approval(
                m,
                (GrantTarget { kind: GrantKind::Capabilities, name: seq![] }),
            ).granted && m.capability_hosts().contains(host)
            ||| local_hosts(usable_sidecars(grants, configs, m)).contains(host)
        },
{
    lemma_either_part_holds(
        m.capability_hosts(),
        local_hosts(usable_sidecars(grants, configs, m)),
        host,
    );
}

} // verus!
