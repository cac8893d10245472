//! The registry of drivers.

use vstd::prelude::*;

use crate::capability::{capabilities, GrantKind, GrantState, GrantStorage, GrantTarget};
use crate::json::{json_members, json_tree, JsonTree};
use crate::manifest::{DriverManifest, DriverManifestView};
use crate::registry::bus::{DriverDirectory, Drivers};
use crate::registry::entries::{
    lemma_at_place, lemma_place, others_kept, place_of, PluginState, PluginStateView, SubjectEntry,
    SubjectRegistry,
};
use crate::registry::filesystem::{
    filesystem_config_set, filesystem_grant_set, filesystem_infos, outcome,
};
use crate::registry::grants::{answer, capabilities_set};
use crate::registry::plugin::{copied_layout, declared_names, layout_tree, sidecar_names};
use crate::registry::select_options::{resolve, resolved_fields};
use crate::registry::settings::{settings_set, values_outcome};
use crate::registry::sidecar::{
    sidecar_config_set, sidecar_controlled, sidecar_grant_set, sidecars_said, sidecars_shown, stop_requests,
    SidecarAction,
};
use crate::registry::subject::{
    DriverRegistryError, RegistryError, RegistryErrorView, RegistrySubject,
};
use crate::registry::{BusPort, ProcessControl, ProcessRequest, Retained};
use crate::rpc::info::{FilesystemInfo, SidecarInfo};
use crate::settings::{ConfigStorage, FilesystemConfig, SidecarConfig, Storage};
use crate::text::{same_text, views};

verus! {

/// Whether a driver runs.
pub type DriverState = PluginState;

/// The entry of a driver.
pub type DriverEntry = SubjectEntry<DriverManifest>;

/// A driver as responses show it.
#[derive(Debug)]
pub struct DriverInfo {
    pub manifest: DriverManifest,
    pub state: DriverState,
    pub values: serde_json::Map<String, serde_json::Value>,
    pub grant_state: GrantState,
    pub sidecars: Vec<SidecarInfo>,
    pub filesystem: Vec<FilesystemInfo>,
    pub layout: Option<serde_json::Value>,
}

/// A declaration with the choices of its settings as the bus has them.
pub open spec fn resolved_driver<B: Retained>(bus: B, m: DriverManifestView) -> DriverManifestView {
    DriverManifestView { settings: resolved_fields(bus, m.settings), ..m }
}

/// Whether a response shows a driver as it is.
pub open spec fn shows_driver<
    St: Storage,
    G: GrantStorage,
    C: ConfigStorage,
    P: ProcessControl,
    B: Retained,
>(
    subjects: SubjectRegistry<DriverManifest, St, G, C, P>,
    bus: B,
    entry: DriverEntry,
    info: DriverInfo,
) -> bool {
    let driver = resolved_driver(bus, entry.manifest@);
    let m = driver.settings_manifest();
    &&& info.manifest@ == driver
    &&& info.state@ == entry.state@
    &&& json_members(info.values) == subjects.settings.in_effect(m)
    &&& info.grant_state == subjects.grants.approval(m, capabilities())
    &&& sidecars_said(
        subjects.grants,
        subjects.configs,
        subjects.processes,
        m,
        views(info.sidecars@),
    )
    &&& views(info.filesystem@) == filesystem_infos(subjects.grants, subjects.configs, m)
    &&& layout_tree(info.layout) == layout_tree(entry.layout)
}

/// The registry of drivers.
#[derive(Debug)]
pub struct DriverRegistry<St, G, C, P> {
    pub subjects: SubjectRegistry<DriverManifest, St, G, C, P>,
    pub drivers_dir: String,
}

impl<St: Storage, G: GrantStorage, C: ConfigStorage, P: ProcessControl> Drivers for DriverRegistry<
    St,
    G,
    C,
    P,
> {
    open spec fn declared(&self, id: Seq<char>) -> Option<DriverManifestView> {
        if self.subjects.has(id) {
            Some(self.subjects.entry(id).manifest@)
        } else {
            None
        }
    }
}

impl<
    St: Storage,
    G: GrantStorage,
    C: ConfigStorage,
    P: ProcessControl,
> DriverDirectory for DriverRegistry<St, G, C, P> {
    fn manifest_of(&self, id: &str) -> (r: Option<DriverManifest>) {
        let at = self.subjects.table.find(id);
        if at == self.subjects.table.entries.len() {
            None
        } else {
            Some(self.subjects.table.entries[at].manifest.clone())
        }
    }
}

impl<St: Storage, G: GrantStorage, C: ConfigStorage, P: ProcessControl> DriverRegistry<
    St,
    G,
    C,
    P,
> {
    /// A registry without drivers.
    pub fn new(settings: St, grants: G, configs: C, processes: P, drivers_dir: String) -> (r: Self)
        ensures
            r.subjects.table.entries.len() == 0,
            r.subjects.settings == settings,
            r.subjects.grants == grants,
            r.subjects.configs == configs,
            r.subjects.processes == processes,
            r.drivers_dir == drivers_dir,
    {
        DriverRegistry {
            subjects: SubjectRegistry::new(settings, grants, configs, processes),
            drivers_dir,
        }
    }

    /// Adds a driver.
    pub fn push(&mut self, entry: DriverEntry)
        ensures
            final(self).drivers_dir == old(self).drivers_dir,
            final(self).subjects.table.entries@ == old(self).subjects.table.entries@.push(entry),
            final(self).subjects.settings == old(self).subjects.settings,
            final(self).subjects.grants == old(self).subjects.grants,
            final(self).subjects.configs == old(self).subjects.configs,
            final(self).subjects.processes == old(self).subjects.processes,
    {
        self.subjects.table.push(entry);
    }

    /// The declarations of all drivers at present. Drivers are found among them as
    /// in the registry.
    pub fn installed(&self) -> (r: InstalledDrivers)
        ensures
            views(r.manifests@) == self.subjects.table.entries@.map_values(
                |entry: DriverEntry| entry.manifest@,
            ),
            forall|id: Seq<char>| #[trigger] r.declared(id) == self.declared(id),
    {
        let entries = &self.subjects.table.entries;
        let mut manifests: Vec<DriverManifest> = Vec::new();
        let mut i: usize = 0;
        while i < entries.len()
            invariant
                i <= entries.len(),
                *entries == self.subjects.table.entries,
                manifests.len() == i,
                forall|j: int| 0 <= j < i ==> (#[trigger] manifests@[j])@ == entries@[j].manifest@,
            decreases entries.len() - i,
        {
            manifests.push(entries[i].manifest.clone());
            i = i + 1;
        }
        let r = InstalledDrivers { manifests };
        assert(views(r.manifests@) =~= entries@.map_values(|entry: DriverEntry| entry.manifest@));
        assert forall|id: Seq<char>| #[trigger] r.declared(id) == self.declared(id) by {
            lemma_found_alike(entries@, id);
        }
        r
    }

    /// Where drivers are installed.
    pub fn drivers_dir(&self) -> (r: &str)
        ensures
            r@ == self.drivers_dir@,
    {
        self.drivers_dir.as_str()
    }

    /// All drivers as responses show them, in order.
    pub fn list<B: BusPort>(&self, bus: &B) -> (r: Vec<DriverInfo>)
        ensures
            r.len() == self.subjects.table.entries.len(),
            forall|i: int|
                0 <= i < r.len() ==> shows_driver(
                    self.subjects,
                    *bus,
                    self.subjects.table.entries@[i],
                    #[trigger] r@[i],
                ),
    {
        let entries = &self.subjects.table.entries;
        let mut infos: Vec<DriverInfo> = Vec::new();
        let mut i: usize = 0;
        while i < entries.len()
            invariant
                i <= entries.len(),
                *entries == self.subjects.table.entries,
                infos.len() == i,
                forall|j: int|
                    0 <= j < i ==> shows_driver(
                        self.subjects,
                        *bus,
                        entries@[j],
                        #[trigger] infos@[j],
                    ),
            decreases entries.len() - i,
        {
            let info = self.driver_info(&entries[i], bus);
            infos.push(info);
            i = i + 1;
        }
        infos
    }

    fn driver_info<B: BusPort>(&self, entry: &DriverEntry, bus: &B) -> (r: DriverInfo)
        ensures
            shows_driver(self.subjects, *bus, *entry, r),
    {
        let mut manifest = entry.manifest.clone();
        resolve(&mut manifest.settings, bus);
        assert(manifest@ == resolved_driver(*bus, entry.manifest@));
        let projected = manifest.as_settings_manifest();
        let values = self.subjects.settings.effective(&projected);
        let grant_state = self.subjects.grants.state(&projected);
        let sidecars = self.subjects.build_sidecar_infos(&manifest);
        let filesystem = self.subjects.build_filesystem_infos(&manifest);
        DriverInfo {
            manifest,
            state: entry.state.clone(),
            values,
            grant_state,
            sidecars,
            filesystem,
            layout: copied_layout(&entry.layout),
        }
    }

    /// The value that a topic of a driver retains, if there is one.
    pub fn bus_retained<B: BusPort>(&self, bus: &B, driver: &str, topic: &str) -> (r: Option<
        Vec<u8>,
    >)
        ensures
            r is Some <==> bus.retained(driver@, topic@) is Some,
            r is Some ==> bus.retained(driver@, topic@) == Some(r->0@),
    {
        bus.retained_for(driver, topic)
    }

    /// The settings in effect for a driver.
    pub fn values(&self, id: &str) -> (r: Result<
        serde_json::Map<String, serde_json::Value>,
        DriverRegistryError,
    >)
        ensures
            values_outcome(r) == if self.subjects.has(id@) {
                Ok::<_, RegistryErrorView>(
                    self.subjects.settings.in_effect(self.subjects.subject(id@)),
                )
            } else {
                Err(RegistryErrorView::UnknownDriver(id@))
            },
    {
        self.subjects.effective(id)
    }

    /// Stores settings of a driver, and returns what is in effect.
    pub fn set_values(
        &mut self,
        id: &str,
        values: &serde_json::Map<String, serde_json::Value>,
    ) -> (r: Result<serde_json::Map<String, serde_json::Value>, DriverRegistryError>)
        ensures
            final(self).drivers_dir == old(self).drivers_dir,
            settings_set(
                old(self).subjects,
                id@,
                json_members(*values),
                final(self).subjects,
                values_outcome(r),
            ),
    {
        self.subjects.update_and_effective(id, values)
    }

    /// Changes the approval of the capabilities of a driver.
    pub fn set_capabilities(&mut self, id: &str, granted: bool) -> (r: Result<
        GrantState,
        DriverRegistryError,
    >)
        ensures
            final(self).drivers_dir == old(self).drivers_dir,
            capabilities_set(old(self).subjects, id@, granted, final(self).subjects, answer(r)),
    {
        self.subjects.set_capabilities(id, granted)
    }

    /// What is said of the sidecars of a driver.
    pub fn sidecars(&self, id: &str) -> (r: Result<Vec<SidecarInfo>, RegistryError>)
        ensures
            sidecars_shown(self.subjects, id@, outcome(r)),
    {
        self.subjects.sidecars(id)
    }

    /// Configures a sidecar.
    pub fn set_sidecar_config(&mut self, id: &str, name: &str, config: &SidecarConfig) -> (r:
        Result<Vec<SidecarInfo>, RegistryError>)
        ensures
            final(self).drivers_dir == old(self).drivers_dir,
            sidecar_config_set(
                old(self).subjects,
                id@,
                name@,
                config@,
                final(self).subjects,
                outcome(r),
            ),
    {
        self.subjects.set_sidecar_config(id, name, config)
    }

    /// Changes the approval of a sidecar.
    pub fn set_sidecar_grant(&mut self, id: &str, name: &str, granted: bool) -> (r: Result<
        Vec<SidecarInfo>,
        RegistryError,
    >)
        ensures
            final(self).drivers_dir == old(self).drivers_dir,
            sidecar_grant_set(
                old(self).subjects,
                id@,
                name@,
                granted,
                final(self).subjects,
                outcome(r),
            ),
    {
        self.subjects.set_sidecar_grant(id, name, granted)
    }

    /// Starts, ends or restarts a sidecar.
    pub fn control_sidecar(&mut self, id: &str, name: &str, action: SidecarAction) -> (r: Result<
        Vec<SidecarInfo>,
        RegistryError,
    >)
        ensures
            final(self).drivers_dir == old(self).drivers_dir,
            sidecar_controlled(
                old(self).subjects,
                id@,
                name@,
                action,
                final(self).subjects,
                outcome(r),
            ),
    {
        self.subjects.control_sidecar(id, name, action)
    }

    /// Chooses the directory of a filesystem root.
    pub fn set_filesystem_config(&mut self, id: &str, name: &str, config: &FilesystemConfig) -> (r:
        Result<Vec<FilesystemInfo>, RegistryError>)
        ensures
            final(self).drivers_dir == old(self).drivers_dir,
            filesystem_config_set(
                old(self).subjects,
                id@,
                name@,
                config@,
                final(self).subjects,
                outcome(r),
            ),
    {
        self.subjects.set_filesystem_config(id, name, config)
    }

    /// Changes the approval of a filesystem root.
    pub fn set_filesystem_grant(&mut self, id: &str, name: &str, granted: bool) -> (r: Result<
        Vec<FilesystemInfo>,
        RegistryError,
    >)
        ensures
            final(self).drivers_dir == old(self).drivers_dir,
            filesystem_grant_set(
                old(self).subjects,
                id@,
                name@,
                granted,
                final(self).subjects,
                outcome(r),
            ),
    {
        self.subjects.set_filesystem_grant(id, name, granted)
    }

    /// Takes a driver out of service, and ends all its sidecars. This holds of a
    /// driver too that is not registered yet: it may have started some.
    pub fn set_disabled(&mut self, manifest: &DriverManifest, reason: String)
        ensures
            final(self).drivers_dir == old(self).drivers_dir,
            driver_taken_out(old(self).subjects, manifest@, reason@, final(self).subjects),
    {
        let at = self.subjects.table.find(manifest.id.as_str());
        if at < self.subjects.table.entries.len() {
            self.subjects.table.entries[at].state = PluginState::Disabled { reason };
        }
        let names = sidecar_names(&manifest.sidecars);
        self.subjects.stop_named(manifest.id.as_str(), &names);
    }
}

/// The first of some declarations that has an id.
pub open spec fn first_declared(
    manifests: Seq<DriverManifestView>,
    id: Seq<char>,
) -> Option<DriverManifestView>
    decreases manifests.len(),
{
    if manifests.len() == 0 {
        None
    } else if manifests[0].id == id {
        Some(manifests[0])
    } else {
        first_declared(manifests.drop_first(), id)
    }
}

/// The declarations of drivers at some moment.
#[derive(Debug)]
pub struct InstalledDrivers {
    pub manifests: Vec<DriverManifest>,
}

impl Drivers for InstalledDrivers {
    open spec fn declared(&self, id: Seq<char>) -> Option<DriverManifestView> {
        first_declared(views(self.manifests@), id)
    }
}

impl DriverDirectory for InstalledDrivers {
    fn manifest_of(&self, id: &str) -> (r: Option<DriverManifest>) {
        let ghost all = views(self.manifests@);
        let mut i: usize = 0;
        assert(all.skip(0) =~= all);
        while i < self.manifests.len()
            invariant
                i <= self.manifests.len(),
                all == views(self.manifests@),
                first_declared(all, id@) == first_declared(all.skip(i as int), id@),
            decreases self.manifests.len() - i,
        {
            assert(all.skip(i as int)[0] == self.manifests@[i as int]@);
            if same_text(self.manifests[i].id.as_str(), id) {
                return Some(self.manifests[i].clone());
            }
            assert(all.skip(i as int).drop_first() =~= all.skip(i + 1));
            i = i + 1;
        }
        None
    }
}

/// Declarations that were taken from a registry are found as in the registry.
pub proof fn lemma_found_alike(entries: Seq<DriverEntry>, id: Seq<char>)
    ensures
        first_declared(entries.map_values(|entry: DriverEntry| entry.manifest@), id) == if place_of(
            entries,
            id,
        ) < entries.len() {
            Some(entries[place_of(entries, id)].manifest@)
        } else {
            None
        },
    decreases entries.len(),
{
    let all = entries.map_values(|entry: DriverEntry| entry.manifest@);
    if entries.len() > 0 {
        assert(all[0] == entries[0].manifest@);
        if entries[0].manifest@.id != id {
            lemma_found_alike(entries.drop_first(), id);
            assert(entries.drop_first().map_values(|entry: DriverEntry| entry.manifest@)
                =~= all.drop_first());
            lemma_at_place(entries.drop_first(), id);
        }
    }
}

/// What taking a driver out of service does: it is disabled for that reason if it
/// is registered, and all its sidecars end.
pub open spec fn driver_taken_out<St: Storage, G: GrantStorage, C: ConfigStorage, P: ProcessControl>(
    before: SubjectRegistry<DriverManifest, St, G, C, P>,
    driver: DriverManifestView,
    reason: Seq<char>,
    after: SubjectRegistry<DriverManifest, St, G, C, P>,
) -> bool {
    let at = place_of(before.table.entries@, driver.id);
    let entry = after.table.entries@[at];
    &&& after.settings == before.settings
    &&& after.grants == before.grants
    &&& after.configs == before.configs
    &&& after.processes.asked() == before.processes.asked() + stop_requests(
        driver.id,
        declared_names(driver.sidecars),
    )
    &&& others_kept(before.table.entries@, after.table.entries@, at)
    &&& before.has(driver.id) ==> {
        &&& entry == (SubjectEntry { state: entry.state, ..before.table.entries@[at] })
        &&& entry.state@ == (PluginStateView::Disabled { reason })
    }
}

/// Of the drivers under one id the first counts, and an id that none has is unknown.
pub proof fn law_the_first_driver_counts(manifests: Seq<DriverManifestView>, id: Seq<char>, i: int)
    requires
        0 <= i <= manifests.len(),
        forall|j: int| 0 <= j < i ==> (#[trigger] manifests[j]).id != id,
        i < manifests.len() ==> manifests[i].id == id,
    ensures
        i < manifests.len() ==> first_declared(manifests, id) == Some(manifests[i]),
        i == manifests.len() ==> first_declared(manifests, id) is None,
    decreases i,
{
    if i > 0 {
        let rest = manifests.drop_first();
        assert forall|j: int| 0 <= j < i - 1 implies (#[trigger] rest[j]).id != id by {
            assert(rest[j] == manifests[j + 1]);
        }
        assert(manifests[0].id != id);
        law_the_first_driver_counts(rest, id, i - 1);
    }
}

/// A driver that is taken out of service is disabled for the given reason, and each of its
/// sidecars is ended, in order, after all that was asked before. Nothing else changes.
pub proof fn law_a_driver_taken_out_ends_its_sidecars<
    St: Storage,
    G: GrantStorage,
    C: ConfigStorage,
    P: ProcessControl,
>(
    before: SubjectRegistry<DriverManifest, St, G, C, P>,
    driver: DriverManifestView,
    reason: Seq<char>,
    after: SubjectRegistry<DriverManifest, St, G, C, P>,
    at: int,
)
    requires
        driver_taken_out(before, driver, reason, after),
        0 <= at < before.table.entries.len(),
        before.table.entries@[at].manifest@.id == driver.id,
        forall|j: int|
            0 <= j < at ==> (#[trigger] before.table.entries@[j]).manifest@.id != driver.id,
    ensures
        after.settings == before.settings,
        after.grants == before.grants,
        after.configs == before.configs,
        after.processes.asked().len() == before.processes.asked().len() + driver.sidecars.len(),
        forall|i: int|
            0 <= i < before.processes.asked().len() ==> #[trigger] after.processes.asked()[i]
                == before.processes.asked()[i],
        forall|i: int| #![trigger driver.sidecars[i]]
            0 <= i < driver.sidecars.len() ==> after.processes.asked()[before.processes.asked().len()
                + i] == (ProcessRequest::Stop { key: driver.id + "/"@ + driver.sidecars[i].name }),
        after.table.entries.len() == before.table.entries.len(),
        after.table.entries@[at].manifest == before.table.entries@[at].manifest,
        after.table.entries@[at].state@ == (PluginStateView::Disabled { reason }),
        forall|j: int|
            0 <= j < before.table.entries.len() && j != at ==> #[trigger] after.table.entries@[j]
                == before.table.entries@[j],
{
    assert forall|j: int| 0 <= j < at implies (
    #[trigger] before.table.entries@[j]).manifest.projected().id != driver.id by {
        assert(before.table.entries@[j].manifest@.id != driver.id);
    }
    lemma_place(before.table.entries@, driver.id, at);
    let names = declared_names(driver.sidecars);
    assert(stop_requests(driver.id, names).len() == driver.sidecars.len());
    assert forall|i: int| #![trigger driver.sidecars[i]]
        0 <= i < driver.sidecars.len() implies after.processes.asked()[before.processes.asked().len()
        + i] == (ProcessRequest::Stop { key: driver.id + "/"@ + driver.sidecars[i].name }) by {
        assert(names[i] == driver.sidecars[i].name);
    }
}

/// A response shows a driver with its state, its settings in effect, the approval of its
/// capabilities, and its layout or null.
pub proof fn law_a_driver_is_shown_as_it_is<
    St: Storage,
    G: GrantStorage,
    C: ConfigStorage,
    P: ProcessControl,
    B: Retained,
>(
    subjects: SubjectRegistry<DriverManifest, St, G, C, P>,
    bus: B,
    entry: DriverEntry,
    info: DriverInfo,
)
    requires
        shows_driver(subjects, bus, entry, info),
    ensures
        info.manifest@.id == entry.manifest@.id,
        info.manifest@.name == entry.manifest@.name,
        info.manifest@.version == entry.manifest@.version,
        info.manifest@.description == entry.manifest@.description,
        info.manifest@.topics == entry.manifest@.topics,
        info.manifest@.capabilities == entry.manifest@.capabilities,
        info.manifest@.sidecars == entry.manifest@.sidecars,
        info.manifest@.filesystem == entry.manifest@.filesystem,
        info.manifest@.settings == resolved_fields(bus, entry.manifest@.settings),
        info.state@ == entry.state@,
        json_members(info.values) == subjects.settings.in_effect(info.manifest@.settings_manifest()),
        info.grant_state == subjects.grants.approval(
            info.manifest@.settings_manifest(),
            (GrantTarget { kind: GrantKind::Capabilities, name: seq![] }),
        ),
        sidecars_said(
            subjects.grants,
            subjects.configs,
            subjects.processes,
            info.manifest@.settings_manifest(),
            views(info.sidecars@),
        ),
        views(info.filesystem@) == filesystem_infos(
            subjects.grants,
            subjects.configs,
            info.manifest@.settings_manifest(),
        ),
        entry.layout is None ==> layout_tree(info.layout) == JsonTree::Null,
        entry.layout matches Some(layout) ==> layout_tree(info.layout) == json_tree(layout),
{
}

} // verus!
