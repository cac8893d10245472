//! The registry of plugins.

use vstd::prelude::*;

use crate::capability::{capabilities, GrantKind, GrantState, GrantStorage, GrantTarget};
use crate::event::Delivery;
use crate::json::{json_clone, json_members, json_tree, JsonTree};
use crate::manifest::{
    CapabilityRequest, DashboardWidgetView, Manifest, ManifestView, ScheduleRequest, ScheduleRequestView, ScheduleSpec,
    ScheduleSpecView, SidecarRequest, SidecarRequestView,
};
use crate::registry::bus::{bus_grant_set, bus_infos, DriverDirectory};
use crate::registry::entries::{
    lemma_at_place, lemma_place, place_of, PluginEntry, PluginState, PluginStateView, SubjectEntry,
    SubjectRegistry,
};
use crate::registry::filesystem::{
    filesystem_config_set, filesystem_grant_set, filesystem_infos, outcome,
};
use crate::registry::grants::{
    all_widgets, answer, asset_served, capabilities_set, dashboard_grant_set, dashboard_infos,
    widget_leave, DashboardAsset, PluginWidget, WidgetFile, WidgetFileView, WidgetFiles,
};
use crate::registry::select_options::{resolve, resolved_fields};
use crate::registry::settings::{settings_set, values_outcome};
use crate::registry::sidecar::{
    sidecar_config_set, sidecar_controlled, sidecar_grant_set, sidecars_said, sidecars_shown, stop_requests,
    SidecarAction,
};
use crate::registry::subject::{RegistryError, RegistryErrorView, RegistrySubject};
use crate::registry::supervisor::{delivered, DeliverError, ThreadSupervisor};
use crate::registry::{BusPort, ProcessControl, ProcessRequest, Retained};
use crate::rpc::info::{
    BusInfo, DashboardInfo, FilesystemInfo, ScheduleInfo, ScheduleInfoView, SidecarInfo,
};
use crate::runner::plugin::queue::{pushed, PushError, SharedState, WorkPolicy};
use crate::runner::plugin::PluginWork;
use crate::runtime::capabilities::hosts_of;
use crate::runtime::dropped::DroppedCounts;
use crate::schedule::{fresh, Clock, Entry, ScheduleState};
use crate::settings::{
    secrets_set, split_secrets, without_secrets, ConfigStorage, FilesystemConfig, SidecarConfig,
    Storage,
};
use crate::text::{same_text, views};

verus! {

/// The driver that a message comes from which a widget sends.
pub open spec fn dashboard_sender() -> Seq<char> {
    "dashboard"@
}

/// A plugin as responses show it.
#[derive(Debug)]
pub struct PluginInfo {
    pub manifest: Manifest,
    pub state: PluginState,
    pub values: serde_json::Map<String, serde_json::Value>,
    pub secrets_set: Vec<String>,
    pub capability_requests: Vec<CapabilityRequest>,
    pub grant_state: GrantState,
    pub sidecars: Vec<SidecarInfo>,
    pub filesystem: Vec<FilesystemInfo>,
    pub dashboard: Vec<DashboardInfo>,
    pub schedules: Vec<ScheduleInfo>,
    pub dropped: DroppedCounts,
    pub layout: Option<serde_json::Value>,
}

/// What the layout of a plugin or driver holds: null if there is none.
pub open spec fn layout_tree(layout: Option<serde_json::Value>) -> JsonTree {
    match layout {
        Some(layout) => json_tree(layout),
        None => JsonTree::Null,
    }
}

/// A copy of a layout.
pub fn copied_layout(layout: &Option<serde_json::Value>) -> (r: Option<serde_json::Value>)
    ensures
        r is Some <==> layout is Some,
        layout_tree(r) == layout_tree(*layout),
{
    match layout {
        Some(layout) => Some(json_clone(layout)),
        None => None,
    }
}

/// When the first schedule of a name fires.
pub open spec fn spec_named(schedules: Seq<ScheduleRequestView>, name: Seq<char>) -> ScheduleSpecView
    decreases schedules.len(),
{
    if schedules.len() <= 1 || schedules[0].name == name {
        schedules[0].spec
    } else {
        spec_named(schedules.drop_first(), name)
    }
}

/// What is said of the schedules of a plugin, in its order: the time that its
/// thread has planned, and where it has said nothing the time that a fresh start
/// would plan.
pub open spec fn schedules_said(
    supervisor: ThreadSupervisor,
    id: Seq<char>,
    schedules: Seq<ScheduleRequest>,
    clock: Clock,
    infos: Seq<ScheduleInfoView>,
) -> bool {
    &&& infos.len() == schedules.len()
    &&& forall|i: int| #![trigger infos[i]]
        0 <= i < infos.len() ==> {
            &&& infos[i].name == schedules[i].name@
            &&& infos[i].spec == spec_named(views(schedules), schedules[i].name@)
            &&& match supervisor.planned(id, schedules[i].name@) {
                Some(at) => infos[i].next == at,
                None => exists|entry: Entry| #[trigger]
                    fresh(schedules[i], clock, entry) && infos[i].next == entry.next.wall_time(
                        clock,
                    ),
            }
        }
}

/// A declaration with the choices of its settings as the bus has them.
pub open spec fn resolved_manifest<B: Retained>(bus: B, m: ManifestView) -> ManifestView {
    ManifestView { settings: resolved_fields(bus, m.settings), ..m }
}

/// Whether a response shows a plugin as it is.
pub open spec fn shows_plugin<
    St: Storage,
    G: GrantStorage,
    C: ConfigStorage,
    P: ProcessControl,
    B: Retained,
>(
    subjects: SubjectRegistry<Manifest, St, G, C, P>,
    supervisor: ThreadSupervisor,
    bus: B,
    files: WidgetFiles,
    clock: Clock,
    entry: PluginEntry,
    info: PluginInfo,
) -> bool {
    let m = resolved_manifest(bus, entry.manifest@);
    let values = subjects.settings.in_effect(m);
    &&& info.manifest@ == m
    &&& info.state@ == entry.state@
    &&& json_members(info.values) == without_secrets(m.settings, values)
    &&& views(info.secrets_set@) == secrets_set(m.settings, values)
    &&& views(info.capability_requests@) == m.capabilities
    &&& info.grant_state == subjects.grants.approval(m, capabilities())
    &&& sidecars_said(
        subjects.grants,
        subjects.configs,
        subjects.processes,
        m,
        views(info.sidecars@),
    )
    &&& views(info.filesystem@) == filesystem_infos(subjects.grants, subjects.configs, m)
    &&& views(info.dashboard@) == dashboard_infos(subjects.grants, files, m)
    &&& schedules_said(
        supervisor,
        m.id,
        info.manifest.schedules@,
        clock,
        views(info.schedules@),
    )
    &&& info.dropped == supervisor.dropped(m.id)
    &&& layout_tree(info.layout) == layout_tree(entry.layout)
}

/// The registry of plugins.
#[derive(Debug)]
pub struct Registry<St, G, C, P> {
    pub subjects: SubjectRegistry<Manifest, St, G, C, P>,
    pub supervisor: ThreadSupervisor,
    pub plugins_dir: String,
}

/// What a widget's action does and returns. The message goes to the plugin's
/// queue only if the widget is approved.
pub open spec fn acted<
    St: Storage,
    G: GrantStorage,
    C: ConfigStorage,
    P: ProcessControl,
    Q: WorkPolicy<PluginWork>,
>(
    subjects: SubjectRegistry<Manifest, St, G, C, P>,
    plugin: Seq<char>,
    widget: Seq<char>,
    name: Seq<char>,
    before: SharedState<PluginWork, Q>,
    after: SharedState<PluginWork, Q>,
    r: Result<(), RegistryErrorView>,
) -> bool {
    match widget_leave(subjects, plugin, widget) {
        Err(e) => r == Err::<(), _>(e) && after == before,
        Ok(_) => exists|message: Delivery, push: Result<Option<PluginWork>, PushError>|
            {
                &&& #[trigger] pushed(before, PluginWork::Message(message), after, push)
                &&& after.same_ends(before)
                &&& message.plugin_id@ == plugin
                &&& message.driver_id@ == dashboard_sender()
                &&& message.topic@ == name
                &&& message.payload@.len() == 0
                &&& r == match push {
                    Ok(_) => Ok::<(), RegistryErrorView>(()),
                    Err(PushError::Dropped) => Err(RegistryErrorView::ActionQueueFull(plugin)),
                    Err(PushError::Disconnected) => Err(RegistryErrorView::PluginNotRunning(plugin)),
                }
            },
    }
}

impl<St: Storage, G: GrantStorage, C: ConfigStorage, P: ProcessControl> Registry<St, G, C, P> {
    pub open spec fn well_formed(self) -> bool {
        self.supervisor.well_formed()
    }

    /// Whether only what is stored for plugins differs.
    pub open spec fn same_threads(self, other: Registry<St, G, C, P>) -> bool {
        self.supervisor == other.supervisor && self.plugins_dir == other.plugins_dir
    }

    /// A registry without plugins.
    pub fn new(settings: St, grants: G, configs: C, processes: P, plugins_dir: String) -> (r: Self)
        ensures
            r.well_formed(),
            r.subjects.table.entries.len() == 0,
            r.subjects.settings == settings,
            r.subjects.grants == grants,
            r.subjects.configs == configs,
            r.subjects.processes == processes,
            r.plugins_dir == plugins_dir,
    {
        Registry {
            subjects: SubjectRegistry::new(settings, grants, configs, processes),
            supervisor: ThreadSupervisor::new(),
            plugins_dir,
        }
    }

    /// Adds a plugin.
    pub fn push(&mut self, entry: PluginEntry)
        ensures
            final(self).same_threads(*old(self)),
            final(self).subjects.table.entries@ == old(self).subjects.table.entries@.push(entry),
            final(self).subjects.settings == old(self).subjects.settings,
            final(self).subjects.grants == old(self).subjects.grants,
            final(self).subjects.configs == old(self).subjects.configs,
            final(self).subjects.processes == old(self).subjects.processes,
    {
        self.subjects.table.push(entry);
    }

    /// Where plugins are installed.
    pub fn plugins_dir(&self) -> (r: &str)
        ensures
            r@ == self.plugins_dir@,
    {
        self.plugins_dir.as_str()
    }

    /// The declarations and states of all plugins, in order.
    pub fn snapshot(&self) -> (r: Vec<(Manifest, PluginState)>)
        ensures
            r.len() == self.subjects.table.entries.len(),
            forall|i: int|
                0 <= i < r.len() ==> (#[trigger] r@[i]).0@
                    == self.subjects.table.entries@[i].manifest@ && r@[i].1@
                    == self.subjects.table.entries@[i].state@,
    {
        let entries = &self.subjects.table.entries;
        let mut all: Vec<(Manifest, PluginState)> = Vec::new();
        let mut i: usize = 0;
        while i < entries.len()
            invariant
                i <= entries.len(),
                all.len() == i,
                forall|j: int|
                    0 <= j < i ==> (#[trigger] all@[j]).0@ == entries@[j].manifest@ && all@[j].1@
                        == entries@[j].state@,
            decreases entries.len() - i,
        {
            all.push((entries[i].manifest.clone(), entries[i].state.clone()));
            i = i + 1;
        }
        all
    }

    fn build_schedule_infos(&self, manifest: &Manifest, clock: Clock) -> (r: Vec<ScheduleInfo>)
        requires
            self.well_formed(),
        ensures
            schedules_said(
                self.supervisor,
                manifest@.id,
                manifest.schedules@,
                clock,
                views(r@),
            ),
    {
        let state = ScheduleState::new(&manifest.schedules, clock);
        let times = state.next_times(clock);
        let mut infos: Vec<ScheduleInfo> = Vec::new();
        let mut i: usize = 0;
        while i < manifest.schedules.len()
            invariant
                i <= manifest.schedules.len(),
                self.well_formed(),
                times.len() == manifest.schedules.len(),
                state.entries.len() == manifest.schedules.len(),
                forall|j: int|
                    0 <= j < times.len() ==> (#[trigger] times@[j]).1
                        == state.entries@[j].next.wall_time(clock),
                forall|j: int|
                    0 <= j < manifest.schedules.len() ==> fresh(
                        manifest.schedules@[j],
                        clock,
                        #[trigger] state.entries@[j],
                    ),
                infos.len() == i,
                forall|j: int|
                    0 <= j < i ==> {
                        &&& (#[trigger] infos@[j])@.name == manifest.schedules@[j].name@
                        &&& infos@[j]@.spec == spec_named(
                            manifest@.schedules,
                            manifest.schedules@[j].name@,
                        )
                        &&& infos@[j]@.next == match self.supervisor.planned(
                            manifest@.id,
                            manifest.schedules@[j].name@,
                        ) {
                            Some(at) => at as int,
                            None => state.entries@[j].next.wall_time(clock),
                        }
                    },
            decreases manifest.schedules.len() - i,
        {
            let name = &manifest.schedules[i].name;
            let estimated = times[i].1;
            let next = match self.supervisor.published_schedule(
                manifest.id.as_str(),
                name.as_str(),
            ) {
                Some(at) => at,
                None => estimated,
            };
            let spec = first_spec(&manifest.schedules, name.as_str());
            infos.push(ScheduleInfo { name: name.clone(), spec, next });
            i = i + 1;
        }
        assert(views(manifest.schedules@) == manifest@.schedules);
        assert forall|j: int| #![trigger views(infos@)[j]] 0 <= j < infos.len() implies {
            &&& views(infos@)[j].name == manifest.schedules@[j].name@
            &&& views(infos@)[j].spec == spec_named(
                manifest@.schedules,
                manifest.schedules@[j].name@,
            )
            &&& match self.supervisor.planned(manifest@.id, manifest.schedules@[j].name@) {
                Some(at) => views(infos@)[j].next == at,
                None => exists|entry: Entry| #[trigger]
                    fresh(manifest.schedules@[j], clock, entry) && views(infos@)[j].next
                        == entry.next.wall_time(clock),
            }
        } by {
            assert(views(infos@)[j] == infos@[j]@);
            assert(fresh(manifest.schedules@[j], clock, state.entries@[j]));
        }
        infos
    }

    /// All plugins as responses show them, in order.
    pub fn list<B: BusPort>(&self, bus: &B, files: &WidgetFiles, clock: Clock) -> (r: Vec<
        PluginInfo,
    >)
        requires
            self.well_formed(),
        ensures
            r.len() == self.subjects.table.entries.len(),
            forall|i: int|
                0 <= i < r.len() ==> shows_plugin(
                    self.subjects,
                    self.supervisor,
                    *bus,
                    *files,
                    clock,
                    self.subjects.table.entries@[i],
                    #[trigger] r@[i],
                ),
    {
        let entries = &self.subjects.table.entries;
        let mut infos: Vec<PluginInfo> = Vec::new();
        let mut i: usize = 0;
        while i < entries.len()
            invariant
                i <= entries.len(),
                *entries == self.subjects.table.entries,
                self.well_formed(),
                infos.len() == i,
                forall|j: int|
                    0 <= j < i ==> shows_plugin(
                        self.subjects,
                        self.supervisor,
                        *bus,
                        *files,
                        clock,
                        entries@[j],
                        #[trigger] infos@[j],
                    ),
            decreases entries.len() - i,
        {
            let info = self.plugin_info(&entries[i], bus, files, clock);
            infos.push(info);
            i = i + 1;
        }
        infos
    }

    fn plugin_info<B: BusPort>(
        &self,
        entry: &PluginEntry,
        bus: &B,
        files: &WidgetFiles,
        clock: Clock,
    ) -> (r: PluginInfo)
        requires
            self.well_formed(),
        ensures
            shows_plugin(self.subjects, self.supervisor, *bus, *files, clock, *entry, r),
    {
        let mut manifest = entry.manifest.clone();
        resolve(&mut manifest.settings, bus);
        assert(manifest@ == resolved_manifest(*bus, entry.manifest@));
        let effective = self.subjects.settings.effective(&manifest);
        let (values, secrets_set) = split_secrets(&manifest, effective);
        let grant_state = self.subjects.grants.state(&manifest);
        let capability_requests = manifest.capabilities.clone();
        assert(views(capability_requests@) =~= views(manifest.capabilities@));
        let sidecars = self.subjects.build_sidecar_infos(&manifest);
        let filesystem = self.subjects.build_filesystem_infos(&manifest);
        let dashboard = self.subjects.build_dashboard_infos(&manifest, files);
        let schedules = self.build_schedule_infos(&manifest, clock);
        let dropped = self.supervisor.dropped_counts(manifest.id.as_str());
        PluginInfo {
            manifest,
            state: entry.state.clone(),
            values,
            secrets_set,
            capability_requests,
            grant_state,
            sidecars,
            filesystem,
            dashboard,
            schedules,
            dropped,
            layout: copied_layout(&entry.layout),
        }
    }

    /// The events that a plugin asked for.
    pub fn events_of(&self, id: &str) -> (r: Result<Vec<String>, RegistryError>)
        ensures
            outcome(r) == if self.subjects.has(id@) {
                Ok::<_, RegistryErrorView>(self.subjects.subject(id@).events)
            } else {
                Err(RegistryErrorView::UnknownPlugin(id@))
            },
    {
        self.subjects.events_of(id)
    }

    /// The files that widgets name, in order.
    pub fn widget_files(&self) -> (r: Vec<WidgetFile>)
        ensures
            views(r@) == declared_files(self.subjects.table.entries@),
    {
        let entries = &self.subjects.table.entries;
        let mut files: Vec<WidgetFile> = Vec::new();
        let mut i: usize = 0;
        assert(views(files@) =~= declared_files(entries@.take(0)));
        while i < entries.len()
            invariant
                i <= entries.len(),
                views(files@) == declared_files(entries@.take(i as int)),
            decreases entries.len() - i,
        {
            let manifest = &entries[i].manifest;
            let ghost start = views(files@);
            let ghost added = entry_files(manifest@);
            assert(start + added.take(0) =~= start);
            let mut w: usize = 0;
            while w < manifest.dashboard.len()
                invariant
                    w <= manifest.dashboard.len(),
                    added == entry_files(manifest@),
                    views(files@) == start + added.take(w as int),
                decreases manifest.dashboard.len() - w,
            {
                let ghost before = files@;
                files.push(
                    WidgetFile {
                        plugin: manifest.id.clone(),
                        entry: manifest.dashboard[w].entry.clone(),
                    },
                );
                assert(manifest@.dashboard[w as int] == manifest.dashboard@[w as int]@);
                assert(views(files@) =~= views(before).push(added[w as int]));
                assert(start + added.take(w + 1) =~= (start + added.take(w as int)).push(
                    added[w as int],
                ));
                w = w + 1;
            }
            assert(added.take(added.len() as int) =~= added);
            proof {
                let taken = entries@.take(i + 1);
                assert(taken.drop_last() =~= entries@.take(i as int));
                assert(taken.last().manifest == *manifest);
            }
            i = i + 1;
        }
        assert(entries@.take(entries.len() as int) =~= entries@);
        files
    }

    /// What is said of the widgets of a plugin.
    pub fn dashboard(&self, id: &str, files: &WidgetFiles) -> (r: Result<
        Vec<DashboardInfo>,
        RegistryError,
    >)
        ensures
            outcome(r) == if self.subjects.has(id@) {
                Ok::<_, RegistryErrorView>(
                    dashboard_infos(self.subjects.grants, *files, self.subjects.subject(id@)),
                )
            } else {
                Err(RegistryErrorView::UnknownPlugin(id@))
            },
    {
        self.subjects.dashboard(id, files)
    }

    /// Changes the approval of a widget.
    pub fn set_dashboard_grant(
        &mut self,
        id: &str,
        widget: &str,
        granted: bool,
        files: &WidgetFiles,
    ) -> (r: Result<Vec<DashboardInfo>, RegistryError>)
        ensures
            final(self).same_threads(*old(self)),
            dashboard_grant_set(
                old(self).subjects,
                id@,
                widget@,
                granted,
                *files,
                final(self).subjects,
                outcome(r),
            ),
    {
        self.subjects.set_dashboard_grant(id, widget, granted, files)
    }

    /// The widgets of all plugins, in order.
    pub fn dashboard_widgets_for_ui(&self, files: &WidgetFiles) -> (r: Vec<PluginWidget>)
        ensures
            views(r@) == all_widgets(
                self.subjects.grants,
                *files,
                self.subjects.table.entries@,
            ),
    {
        self.subjects.dashboard_widgets_for_ui(files)
    }

    /// The file that answers a request for a widget's file.
    pub fn dashboard_asset_path(&self, plugin: &str, widget: &str, rel_path: &str) -> (r: Result<
        DashboardAsset,
        RegistryError,
    >)
        ensures
            asset_served(self.subjects, plugin@, widget@, rel_path@, answer(r)),
    {
        self.subjects.dashboard_asset_path(plugin, widget, rel_path)
    }

    /// Sends the action of a widget to its plugin, whose queue is given if it has
    /// a thread.
    pub fn dashboard_action<Q: WorkPolicy<PluginWork>>(
        &self,
        plugin: &str,
        widget: &str,
        name: &str,
        queue: Option<&mut SharedState<PluginWork, Q>>,
    ) -> (r: Result<(), RegistryError>)
        ensures
            queue matches Some(queue) ==> acted(
                self.subjects,
                plugin@,
                widget@,
                name@,
                *queue,
                *final(queue),
                answer(r),
            ),
            queue is None ==> answer(r) == match widget_leave(self.subjects, plugin@, widget@) {
                Err(e) => Err::<(), _>(e),
                Ok(_) => Err(RegistryErrorView::PluginNotRunning(plugin@)),
            },
    {
        match self.subjects.ensure_dashboard_granted(plugin, widget) {
            Ok(_) => {},
            Err(e) => {
                return Err(e);
            },
        }
        let message = Delivery {
            plugin_id: plugin.to_owned(),
            driver_id: "dashboard".to_owned(),
            topic: name.to_owned(),
            payload: Vec::new(),
        };
        let outcome = match queue {
            Some(queue) => {
                let push = queue.add_work(PluginWork::Message(message));
                match push {
                    Ok(_) => delivered(Some(Ok(()))),
                    Err(e) => delivered(Some(Err(e))),
                }
            },
            None => delivered(None),
        };
        match outcome {
            Ok(_) => Ok(()),
            Err(DeliverError::NotRunning) => Err(RegistryError::PluginNotRunning(plugin.to_owned())),
            Err(DeliverError::QueueFull) => Err(RegistryError::ActionQueueFull(plugin.to_owned())),
        }
    }

    /// The capabilities that a plugin asked for, and whether they are approved.
    pub fn capabilities(&self, id: &str) -> (r: Result<
        (Vec<CapabilityRequest>, GrantState),
        RegistryError,
    >)
        ensures
            match r {
                Ok((requests, state)) => {
                    &&& self.subjects.has(id@)
                    &&& views(requests@) == self.subjects.subject(id@).capabilities
                    &&& state == self.subjects.grants.approval(
                        self.subjects.subject(id@),
                        capabilities(),
                    )
                },
                Err(e) => !self.subjects.has(id@) && e@ == RegistryErrorView::UnknownPlugin(id@),
            },
    {
        self.subjects.capabilities(id)
    }

    /// The settings of a plugin, without its secrets.
    pub fn values(&self, id: &str) -> (r: Result<
        serde_json::Map<String, serde_json::Value>,
        RegistryError,
    >)
        ensures
            values_outcome(r) == if self.subjects.has(id@) {
                Ok::<_, RegistryErrorView>(
                    without_secrets(
                        self.subjects.subject(id@).settings,
                        self.subjects.settings.in_effect(self.subjects.subject(id@)),
                    ),
                )
            } else {
                Err(RegistryErrorView::UnknownPlugin(id@))
            },
    {
        let effective = match self.subjects.effective(id) {
            Ok(effective) => effective,
            Err(e) => {
                return Err(e);
            },
        };
        let at = self.subjects.table.find(id);
        let (visible, _secrets_set) = split_secrets(
            &self.subjects.table.entries[at].manifest,
            effective,
        );
        Ok(visible)
    }

    /// Stores settings of a plugin, and returns what is in effect without its
    /// secrets.
    pub fn set_values(
        &mut self,
        id: &str,
        values: &serde_json::Map<String, serde_json::Value>,
    ) -> (r: Result<serde_json::Map<String, serde_json::Value>, RegistryError>)
        ensures
            final(self).same_threads(*old(self)),
            values_set(
                old(self).subjects,
                id@,
                json_members(*values),
                final(self).subjects,
                values_outcome(r),
            ),
    {
        let at = self.subjects.table.find(id);
        if at == self.subjects.table.entries.len() {
            assert(settings_set(
                old(self).subjects,
                id@,
                json_members(*values),
                self.subjects,
                Err::<Map<Seq<char>, JsonTree>, _>(RegistryErrorView::UnknownPlugin(id@)),
            ));
            return Err(RegistryError::UnknownPlugin(id.to_owned()));
        }
        let manifest = self.subjects.table.entries[at].manifest.clone();
        match self.subjects.update_and_effective(id, values) {
            Ok(effective) => {
                let ghost full = json_members(effective);
                let (visible, _secrets_set) = split_secrets(&manifest, effective);
                assert(settings_set(
                    old(self).subjects,
                    id@,
                    json_members(*values),
                    self.subjects,
                    Ok(full),
                ));
                Ok(visible)
            },
            Err(e) => {
                assert(settings_set(
                    old(self).subjects,
                    id@,
                    json_members(*values),
                    self.subjects,
                    Err::<Map<Seq<char>, JsonTree>, _>(e@),
                ));
                Err(e)
            },
        }
    }

    /// Changes the approval of the capabilities of a plugin.
    pub fn set_capabilities(&mut self, id: &str, granted: bool) -> (r: Result<
        GrantState,
        RegistryError,
    >)
        ensures
            final(self).same_threads(*old(self)),
            capabilities_set(old(self).subjects, id@, granted, final(self).subjects, answer(r)),
    {
        self.subjects.set_capabilities(id, granted)
    }

    /// The hosts that a plugin may talk to.
    pub fn effective_hosts(&self, id: &str) -> (r: Result<Vec<String>, RegistryError>)
        ensures
            outcome(r) == if self.subjects.has(id@) {
                Ok::<_, RegistryErrorView>(hosts_of(self.subjects.entry(id@).capabilities_json@))
            } else {
                Err(RegistryErrorView::UnknownPlugin(id@))
            },
    {
        self.subjects.effective_hosts(id)
    }

    /// What is said of the sidecars of a plugin.
    pub fn sidecars(&self, id: &str) -> (r: Result<Vec<SidecarInfo>, RegistryError>)
        ensures
            sidecars_shown(self.subjects, id@, outcome(r)),
    {
        self.subjects.sidecars(id)
    }

    /// What is said of the filesystem roots of a plugin.
    pub fn filesystem(&self, id: &str) -> (r: Result<Vec<FilesystemInfo>, RegistryError>)
        ensures
            outcome(r) == if self.subjects.has(id@) {
                Ok::<_, RegistryErrorView>(
                    filesystem_infos(
                        self.subjects.grants,
                        self.subjects.configs,
                        self.subjects.subject(id@),
                    ),
                )
            } else {
                Err(RegistryErrorView::UnknownPlugin(id@))
            },
    {
        self.subjects.filesystem(id)
    }

    /// The buffer for the filesystem roots of a plugin.
    pub fn filesystem_buffer(&self, id: &str) -> (r: Result<String, RegistryError>)
        ensures
            match r {
                Ok(raw) => self.subjects.has(id@) && raw@ == self.subjects.entry(
                    id@,
                ).filesystem_json@,
                Err(e) => !self.subjects.has(id@) && e@ == RegistryErrorView::UnknownPlugin(id@),
            },
    {
        self.subjects.filesystem_buffer(id)
    }

    /// The buffer for the bus connections of a plugin.
    pub fn bus_buffer(&self, id: &str) -> (r: Result<String, RegistryError>)
        ensures
            match r {
                Ok(raw) => self.subjects.has(id@) && raw@ == self.subjects.entry(id@).bus_json@,
                Err(e) => !self.subjects.has(id@) && e@ == RegistryErrorView::UnknownPlugin(id@),
            },
    {
        self.subjects.bus_buffer(id)
    }

    /// Chooses the directory of a filesystem root.
    pub fn set_filesystem_config(&mut self, id: &str, name: &str, config: &FilesystemConfig) -> (r:
        Result<Vec<FilesystemInfo>, RegistryError>)
        ensures
            final(self).same_threads(*old(self)),
            filesystem_config_set(
                old(self).subjects,
                id@,
                name@,
                config@,
                final(self).subjects,
                outcome(r),
            ),
    {
        self.subjects.set_filesystem_config(id, name, config)
    }

    /// Changes the approval of a filesystem root.
    pub fn set_filesystem_grant(&mut self, id: &str, name: &str, granted: bool) -> (r: Result<
        Vec<FilesystemInfo>,
        RegistryError,
    >)
        ensures
            final(self).same_threads(*old(self)),
            filesystem_grant_set(
                old(self).subjects,
                id@,
                name@,
                granted,
                final(self).subjects,
                outcome(r),
            ),
    {
        self.subjects.set_filesystem_grant(id, name, granted)
    }

    /// What is said of the bus connections of a plugin.
    pub fn bus<D: DriverDirectory>(&self, id: &str, drivers: &D) -> (r: Result<
        Vec<BusInfo>,
        RegistryError,
    >)
        ensures
            outcome(r) == if self.subjects.has(id@) {
                Ok::<_, RegistryErrorView>(
                    bus_infos(self.subjects.grants, *drivers, self.subjects.subject(id@)),
                )
            } else {
                Err(RegistryErrorView::UnknownPlugin(id@))
            },
    {
        self.subjects.bus(id, drivers)
    }

    /// Changes the approval of a bus connection.
    pub fn set_bus_grant(&mut self, id: &str, driver: &str, granted: bool) -> (r: Result<
        GrantState,
        RegistryError,
    >)
        ensures
            final(self).same_threads(*old(self)),
            bus_grant_set(
                old(self).subjects,
                id@,
                driver@,
                granted,
                final(self).subjects,
                answer(r),
            ),
    {
        self.subjects.set_bus_grant(id, driver, granted)
    }

    /// Configures a sidecar.
    pub fn set_sidecar_config(&mut self, id: &str, name: &str, config: &SidecarConfig) -> (r:
        Result<Vec<SidecarInfo>, RegistryError>)
        ensures
            final(self).same_threads(*old(self)),
            sidecar_config_set(
                old(self).subjects,
                id@,
                name@,
                config@,
                final(self).subjects,
                outcome(r),
            ),
    {
        self.subjects.set_sidecar_config(id, name, config)
    }

    /// Changes the approval of a sidecar.
    pub fn set_sidecar_grant(&mut self, id: &str, name: &str, granted: bool) -> (r: Result<
        Vec<SidecarInfo>,
        RegistryError,
    >)
        ensures
            final(self).same_threads(*old(self)),
            sidecar_grant_set(
                old(self).subjects,
                id@,
                name@,
                granted,
                final(self).subjects,
                outcome(r),
            ),
    {
        self.subjects.set_sidecar_grant(id, name, granted)
    }

    /// Starts, ends or restarts a sidecar.
    pub fn control_sidecar(&mut self, id: &str, name: &str, action: SidecarAction) -> (r: Result<
        Vec<SidecarInfo>,
        RegistryError,
    >)
        ensures
            final(self).same_threads(*old(self)),
            sidecar_controlled(
                old(self).subjects,
                id@,
                name@,
                action,
                final(self).subjects,
                outcome(r),
            ),
    {
        self.subjects.control_sidecar(id, name, action)
    }

    /// Ends all sidecars of all plugins.
    pub fn stop_all_sidecars(&mut self)
        ensures
            final(self).same_threads(*old(self)),
            final(self).subjects.table == old(self).subjects.table,
            final(self).subjects.settings == old(self).subjects.settings,
            final(self).subjects.grants == old(self).subjects.grants,
            final(self).subjects.configs == old(self).subjects.configs,
            final(self).subjects.processes.asked() == old(self).subjects.processes.asked().push(
                ProcessRequest::StopAll,
            ),
    {
        self.subjects.stop_all();
    }

    /// Ends forwarding from the bus to plugins.
    pub fn shutdown_bus_subscribers(&mut self)
        requires
            old(self).well_formed(),
        ensures
            final(self).well_formed(),
            final(self).subjects == old(self).subjects,
            final(self).supervisor.bus_subscribers_end,
            final(self).supervisor.schedule_views == old(self).supervisor.schedule_views,
            final(self).supervisor.drop_counters == old(self).supervisor.drop_counters,
            final(self).plugins_dir == old(self).plugins_dir,
    {
        self.supervisor.shutdown_bus_subscribers();
    }

    /// The buffer for the settings of a plugin, if it is registered.
    pub fn entry_settings(&self, id: &str) -> (r: Option<String>)
        ensures
            r is Some <==> self.subjects.has(id@),
            r is Some ==> r->0@ == self.subjects.entry(id@).settings_json@,
    {
        let at = self.subjects.table.find(id);
        if at == self.subjects.table.entries.len() {
            None
        } else {
            Some(self.subjects.table.entries[at].settings_json.clone())
        }
    }

    /// Takes a plugin out of service, and ends all its sidecars. Nothing happens
    /// for an id that is not registered.
    pub fn set_disabled(&mut self, id: &str, reason: String)
        ensures
            final(self).same_threads(*old(self)),
            !old(self).subjects.has(id@) ==> *final(self) == *old(self),
            old(self).subjects.has(id@) ==> taken_out(
                old(self).subjects,
                id@,
                reason@,
                final(self).subjects,
            ),
    {
        let at = self.subjects.table.find(id);
        if at == self.subjects.table.entries.len() {
            return;
        }
        self.subjects.table.entries[at].state = PluginState::Disabled { reason };
        let names = sidecar_names(&self.subjects.table.entries[at].manifest.sidecars);
        self.subjects.stop_named(id, &names);
    }
}

/// The files that the widgets of a plugin name.
pub open spec fn entry_files(m: ManifestView) -> Seq<WidgetFileView> {
    m.dashboard.map_values(
        |widget: DashboardWidgetView| WidgetFileView { plugin: m.id, entry: widget.entry },
    )
}

/// The files that the widgets of all plugins name, in order.
pub open spec fn declared_files(entries: Seq<PluginEntry>) -> Seq<WidgetFileView>
    decreases entries.len(),
{
    if entries.len() == 0 {
        seq![]
    } else {
        declared_files(entries.drop_last()) + entry_files(entries.last().manifest@)
    }
}

fn first_spec(schedules: &Vec<ScheduleRequest>, name: &str) -> (r: ScheduleSpec)
    requires
        schedules.len() > 0,
    ensures
        r@ == spec_named(views(schedules@), name@),
{
    let mut i: usize = 0;
    let ghost all = views(schedules@);
    assert(all.skip(0) =~= all);
    while i + 1 < schedules.len()
        invariant
            i < schedules.len(),
            all == views(schedules@),
            spec_named(all, name@) == spec_named(all.skip(i as int), name@),
        decreases schedules.len() - i,
    {
        assert(all.skip(i as int)[0] == schedules@[i as int]@);
        if same_text(schedules[i].name.as_str(), name) {
            return schedules[i].spec.clone();
        }
        assert(all.skip(i as int).drop_first() =~= all.skip(i + 1));
        i = i + 1;
    }
    assert(all.skip(i as int)[0] == schedules@[i as int]@);
    schedules[i].spec.clone()
}

/// The names of declared sidecars, in order.
pub open spec fn declared_names(sidecars: Seq<SidecarRequestView>) -> Seq<Seq<char>> {
    sidecars.map_values(|request: SidecarRequestView| request.name)
}

/// The names of declared sidecars, in order.
pub fn sidecar_names(sidecars: &Vec<SidecarRequest>) -> (r: Vec<String>)
    ensures
        views(r@) == declared_names(views(sidecars@)),
{
    let mut names: Vec<String> = Vec::new();
    let mut i: usize = 0;
    while i < sidecars.len()
        invariant
            i <= sidecars.len(),
            names.len() == i,
            forall|j: int| 0 <= j < i ==> (#[trigger] names@[j])@ == sidecars@[j].name@,
        decreases sidecars.len() - i,
    {
        names.push(sidecars[i].name.clone());
        i = i + 1;
    }
    assert(views(names@) =~= declared_names(views(sidecars@)));
    names
}

/// What taking a plugin out of service does: it is disabled for that reason, and
/// all its sidecars end.
pub open spec fn taken_out<St: Storage, G: GrantStorage, C: ConfigStorage, P: ProcessControl>(
    before: SubjectRegistry<Manifest, St, G, C, P>,
    id: Seq<char>,
    reason: Seq<char>,
    after: SubjectRegistry<Manifest, St, G, C, P>,
) -> bool {
    let at = place_of(before.table.entries@, id);
    let entry = after.table.entries@[at];
    &&& after.settings == before.settings
    &&& after.grants == before.grants
    &&& after.configs == before.configs
    &&& after.processes.asked() == before.processes.asked() + stop_requests(
        id,
        declared_names(before.subject(id).sidecars),
    )
    &&& crate::registry::entries::others_kept(
        before.table.entries@,
        after.table.entries@,
        at,
    )
    &&& entry == (SubjectEntry { state: entry.state, ..before.table.entries@[at] })
    &&& entry.state@ == (PluginStateView::Disabled { reason })
}

/// What storing settings of a plugin does and returns: secrets are stored, and
/// not returned.
pub open spec fn values_set<St: Storage, G: GrantStorage, C: ConfigStorage, P: ProcessControl>(
    before: SubjectRegistry<Manifest, St, G, C, P>,
    id: Seq<char>,
    values: Map<Seq<char>, JsonTree>,
    after: SubjectRegistry<Manifest, St, G, C, P>,
    r: Result<Map<Seq<char>, JsonTree>, RegistryErrorView>,
) -> bool {
    exists|stored: Result<Map<Seq<char>, JsonTree>, RegistryErrorView>|
        {
            &&& #[trigger] settings_set(before, id, values, after, stored)
            &&& match stored {
                Ok(effective) => r == Ok::<_, RegistryErrorView>(
                    without_secrets(before.subject(id).settings, effective),
                ),
                Err(e) => r == Err::<Map<Seq<char>, JsonTree>, _>(e),
            }
        }
}

/// No response shows a secret: neither a list of plugins, nor their settings, nor
/// the answer to settings that were stored.
pub proof fn law_secrets_are_not_shown(
    m: ManifestView,
    values: Map<Seq<char>, JsonTree>,
    i: int,
)
    requires
        0 <= i < m.settings.len(),
        m.settings[i] is Secret,
    ensures
        !without_secrets(m.settings, values).dom().contains(m.settings[i]->Secret_key),
{
    assert(crate::settings::is_secret(m.settings, m.settings[i]->Secret_key));
}

/// A plugin that was taken out of service starts no sidecar any more, whoever asks
/// for it.
pub proof fn law_disabled_plugins_start_nothing<
    St: Storage,
    G: GrantStorage,
    C: ConfigStorage,
    P: ProcessControl,
>(
    before: SubjectRegistry<Manifest, St, G, C, P>,
    id: Seq<char>,
    reason: Seq<char>,
    disabled: SubjectRegistry<Manifest, St, G, C, P>,
    name: Seq<char>,
    action: SidecarAction,
    after: SubjectRegistry<Manifest, St, G, C, P>,
    r: Result<Seq<crate::rpc::info::SidecarInfoView>, RegistryErrorView>,
    i: int,
)
    requires
        before.has(id),
        taken_out(before, id, reason, disabled),
        sidecar_controlled(disabled, id, name, action, after, r),
        disabled.processes.asked().len() <= i < after.processes.asked().len(),
    ensures
        !(after.processes.asked()[i] is Start),
{
    lemma_at_place(before.table.entries@, id);
    let at = place_of(before.table.entries@, id);
    assert forall|j: int| 0 <= j < before.table.entries.len() implies (
    #[trigger] disabled.table.entries@[j]).manifest == before.table.entries@[j].manifest by {
        if j != at {
            assert(disabled.table.entries@[j] == before.table.entries@[j]);
        }
    }
    crate::registry::entries::lemma_same_places(
        before.table.entries@,
        disabled.table.entries@,
        id,
    );
    assert(disabled.entry(id).state is Disabled);
    if after.processes.asked()[i] is Start {
        crate::registry::sidecar::law_nothing_starts_without_leave(
            disabled,
            id,
            name,
            action,
            after,
            r,
            i,
        );
    }
}

/// Of the schedules under one name the first one's times count.
pub proof fn law_the_first_schedule_of_a_name_counts(
    schedules: Seq<ScheduleRequestView>,
    name: Seq<char>,
    i: int,
)
    requires
        0 <= i < schedules.len(),
        schedules[i].name == name,
        forall|j: int| 0 <= j < i ==> (#[trigger] schedules[j]).name != name,
    ensures
        spec_named(schedules, name) == schedules[i].spec,
    decreases i,
{
    if i > 0 {
        let rest = schedules.drop_first();
        assert(schedules[0].name != name);
        assert forall|j: int| 0 <= j < i - 1 implies (#[trigger] rest[j]).name != name by {
            assert(rest[j] == schedules[j + 1]);
        }
        assert(rest[i - 1] == schedules[i]);
        law_the_first_schedule_of_a_name_counts(rest, name, i - 1);
    }
}

/// Every schedule of a plugin is told of in order, by its name, with the time that its thread
/// has planned if it has said so.
pub proof fn law_every_schedule_is_told_of(
    supervisor: ThreadSupervisor,
    id: Seq<char>,
    schedules: Seq<ScheduleRequest>,
    clock: Clock,
    infos: Seq<ScheduleInfoView>,
    i: int,
)
    requires
        schedules_said(supervisor, id, schedules, clock, infos),
        0 <= i < schedules.len(),
    ensures
        infos.len() == schedules.len(),
        infos[i].name == schedules[i].name@,
        supervisor.planned(id, schedules[i].name@) matches Some(at) ==> infos[i].next == at,
        (forall|j: int| 0 <= j < i ==> (#[trigger] schedules[j]).name@ != schedules[i].name@)
            ==> infos[i].spec == schedules[i].spec@,
{
    assert(infos[i].name == schedules[i].name@);
    if forall|j: int| 0 <= j < i ==> (#[trigger] schedules[j]).name@ != schedules[i].name@ {
        let all = views(schedules);
        assert forall|j: int| 0 <= j < i implies (#[trigger] all[j]).name != schedules[i].name@ by {
            assert(all[j] == schedules[j]@);
        }
        law_the_first_schedule_of_a_name_counts(all, schedules[i].name@, i);
    }
}

/// A plugin that is taken out of service is disabled for the given reason, and each of its
/// sidecars is ended, in order, after all that was asked before. Nothing else changes.
pub proof fn law_a_plugin_taken_out_ends_its_sidecars<
    St: Storage,
    G: GrantStorage,
    C: ConfigStorage,
    P: ProcessControl,
>(
    before: SubjectRegistry<Manifest, St, G, C, P>,
    id: Seq<char>,
    reason: Seq<char>,
    after: SubjectRegistry<Manifest, St, G, C, P>,
    at: int,
)
    requires
        0 <= at < before.table.entries.len(),
        before.table.entries@[at].manifest@.id == id,
        forall|j: int|
            0 <= j < at ==> (#[trigger] before.table.entries@[j]).manifest@.id != id,
        taken_out(before, id, reason, after),
    ensures
        after.settings == before.settings,
        after.grants == before.grants,
        after.configs == before.configs,
        ({
            let sidecars = before.table.entries@[at].manifest@.sidecars;
            let asked = before.processes.asked();
            &&& after.processes.asked().len() == asked.len() + sidecars.len()
            &&& forall|i: int|
                0 <= i < asked.len() ==> #[trigger] after.processes.asked()[i] == asked[i]
            &&& forall|i: int| #![trigger sidecars[i]]
                0 <= i < sidecars.len() ==> after.processes.asked()[asked.len() + i] == (
                ProcessRequest::Stop { key: id + "/"@ + sidecars[i].name })
        }),
        after.table.entries.len() == before.table.entries.len(),
        after.table.entries@[at].manifest == before.table.entries@[at].manifest,
        after.table.entries@[at].settings_json == before.table.entries@[at].settings_json,
        after.table.entries@[at].state@ == (PluginStateView::Disabled { reason }),
        forall|j: int|
            0 <= j < before.table.entries.len() && j != at ==> #[trigger] after.table.entries@[j]
                == before.table.entries@[j],
{
    assert forall|j: int| 0 <= j < at implies (
    #[trigger] before.table.entries@[j]).manifest.projected().id != id by {
        assert(before.table.entries@[j].manifest@.id != id);
    }
    lemma_place(before.table.entries@, id, at);
    let sidecars = before.table.entries@[at].manifest@.sidecars;
    let names = declared_names(sidecars);
    let asked = before.processes.asked();
    assert(stop_requests(id, names).len() == sidecars.len());
    assert forall|i: int| #![trigger sidecars[i]]
        0 <= i < sidecars.len() implies after.processes.asked()[asked.len() + i] == (
    ProcessRequest::Stop { key: id + "/"@ + sidecars[i].name }) by {
        assert(names[i] == sidecars[i].name);
    }
}

/// The answer to settings that were stored holds what is then in effect under every key that
/// is not a secret's, and nothing under a secret's key.
pub proof fn law_stored_settings_are_answered_without_secrets<
    St: Storage,
    G: GrantStorage,
    C: ConfigStorage,
    P: ProcessControl,
>(
    before: SubjectRegistry<Manifest, St, G, C, P>,
    id: Seq<char>,
    values: Map<Seq<char>, JsonTree>,
    after: SubjectRegistry<Manifest, St, G, C, P>,
    r: Result<Map<Seq<char>, JsonTree>, RegistryErrorView>,
    at: int,
    key: Seq<char>,
)
    requires
        0 <= at < before.table.entries.len(),
        before.table.entries@[at].manifest@.id == id,
        forall|j: int|
            0 <= j < at ==> (#[trigger] before.table.entries@[j]).manifest@.id != id,
        values_set(before, id, values, after, r),
    ensures
        r is Ok ==> {
            let m = before.table.entries@[at].manifest@;
            let secret = exists|i: int| #![trigger m.settings[i]]
                0 <= i < m.settings.len() && m.settings[i] is Secret && m.settings[i]->Secret_key
                    == key;
            &&& r->Ok_0.dom().contains(key) <==> after.settings.in_effect(m).dom().contains(key)
                && !secret
            &&& r->Ok_0.dom().contains(key) ==> r->Ok_0[key] == after.settings.in_effect(m)[key]
            &&& after.settings.in_effect(m) == before.settings.once_stored(m, values)
        },
        r is Err ==> after.table == before.table,
{
    assert forall|j: int| 0 <= j < at implies (
    #[trigger] before.table.entries@[j]).manifest.projected().id != id by {
        assert(before.table.entries@[j].manifest@.id != id);
    }
    lemma_place(before.table.entries@, id, at);
    let stored = choose|stored: Result<Map<Seq<char>, JsonTree>, RegistryErrorView>|
        {
            &&& #[trigger] settings_set(before, id, values, after, stored)
            &&& match stored {
                Ok(effective) => r == Ok::<_, RegistryErrorView>(
                    without_secrets(before.subject(id).settings, effective),
                ),
                Err(e) => r == Err::<Map<Seq<char>, JsonTree>, _>(e),
            }
        };
    assert(settings_set(before, id, values, after, stored));
}

/// A widget that may act has a message in the queue of its plugin, behind all that waits: from
/// the dashboard, on the topic of the action, and without content. If the plugin is gone, or
/// the widget may not act, the queue stays as it is.
pub proof fn law_actions_reach_the_queue<
    St: Storage,
    G: GrantStorage,
    C: ConfigStorage,
    P: ProcessControl,
    Q: WorkPolicy<PluginWork>,
>(
    subjects: SubjectRegistry<Manifest, St, G, C, P>,
    plugin: Seq<char>,
    widget: Seq<char>,
    name: Seq<char>,
    before: SharedState<PluginWork, Q>,
    after: SharedState<PluginWork, Q>,
    r: Result<(), RegistryErrorView>,
)
    requires
        acted(subjects, plugin, widget, name, before, after, r),
    ensures
        r is Ok ==> {
            &&& widget_leave(subjects, plugin, widget) is Ok
            &&& before.receiver_alive
            &&& after.queue@.len() > 0
            &&& after.queue@.last() matches PluginWork::Message(message) && {
                &&& message.plugin_id@ == plugin
                &&& message.driver_id@ == "dashboard"@
                &&& message.topic@ == name
                &&& message.payload@.len() == 0
            }
        },
        r is Err ==> after.queue@ == before.queue@,
        after.senders == before.senders,
        after.receiver_alive == before.receiver_alive,
        after.policy == before.policy,
        widget_leave(subjects, plugin, widget) matches Err(e) ==> r == Err::<(), _>(e),
        widget_leave(subjects, plugin, widget) is Ok && !before.receiver_alive ==> r == Err::<
            (),
            _,
        >(RegistryErrorView::PluginNotRunning(plugin)),
        widget_leave(subjects, plugin, widget) is Ok && before.receiver_alive && r is Err ==> r
            == Err::<(), _>(RegistryErrorView::ActionQueueFull(plugin)),
{
}

/// The files that widgets name are those of every widget of every plugin, in order: a further
/// plugin adds its own at the end.
pub proof fn law_every_widget_names_its_file(entries: Seq<PluginEntry>, entry: PluginEntry, i: int)
    requires
        0 <= i < entry.manifest@.dashboard.len(),
    ensures
        declared_files(seq![]).len() == 0,
        ({
            let before = declared_files(entries);
            let after = declared_files(entries.push(entry));
            &&& after.len() == before.len() + entry.manifest@.dashboard.len()
            &&& forall|k: int| 0 <= k < before.len() ==> #[trigger] after[k] == before[k]
            &&& after[before.len() + i].plugin == entry.manifest@.id
            &&& after[before.len() + i].entry == entry.manifest@.dashboard[i].entry
        }),
{
    assert(entries.push(entry).drop_last() =~= entries);
}

/// A response shows a plugin with its state, the approval of its capabilities, what its thread
/// has missed, its layout or null, and its values under every key but those of secrets.
pub proof fn law_a_plugin_is_shown_as_it_is<
    St: Storage,
    G: GrantStorage,
    C: ConfigStorage,
    P: ProcessControl,
    B: Retained,
>(
    subjects: SubjectRegistry<Manifest, St, G, C, P>,
    supervisor: ThreadSupervisor,
    bus: B,
    files: WidgetFiles,
    clock: Clock,
    entry: PluginEntry,
    info: PluginInfo,
    key: Seq<char>,
)
    requires
        shows_plugin(subjects, supervisor, bus, files, clock, entry, info),
    ensures
        info.manifest@.id == entry.manifest@.id,
        info.manifest@.name == entry.manifest@.name,
        info.manifest@.version == entry.manifest@.version,
        info.manifest@.description == entry.manifest@.description,
        info.manifest@.sidecars == entry.manifest@.sidecars,
        info.manifest@.filesystem == entry.manifest@.filesystem,
        info.manifest@.bus == entry.manifest@.bus,
        info.manifest@.dashboard == entry.manifest@.dashboard,
        info.manifest@.schedules == entry.manifest@.schedules,
        info.manifest@.settings == resolved_fields(bus, entry.manifest@.settings),
        info.state@ == entry.state@,
        views(info.capability_requests@) == entry.manifest@.capabilities,
        info.grant_state == subjects.grants.approval(
            info.manifest@,
            (GrantTarget { kind: GrantKind::Capabilities, name: seq![] }),
        ),
        info.dropped == supervisor.dropped(entry.manifest@.id),
        sidecars_said(
            subjects.grants,
            subjects.configs,
            subjects.processes,
            info.manifest@,
            views(info.sidecars@),
        ),
        views(info.filesystem@) == filesystem_infos(
            subjects.grants,
            subjects.configs,
            info.manifest@,
        ),
        views(info.dashboard@) == dashboard_infos(subjects.grants, files, info.manifest@),
        schedules_said(
            supervisor,
            entry.manifest@.id,
            info.manifest.schedules@,
            clock,
            views(info.schedules@),
        ),
        views(info.secrets_set@) == secrets_set(
            info.manifest@.settings,
            subjects.settings.in_effect(info.manifest@),
        ),
        entry.layout is None ==> layout_tree(info.layout) == JsonTree::Null,
        entry.layout matches Some(layout) ==> layout_tree(info.layout) == json_tree(layout),
        ({
            let m = info.manifest@;
            let values = subjects.settings.in_effect(m);
            let secret = exists|i: int| #![trigger m.settings[i]]
                0 <= i < m.settings.len() && m.settings[i] is Secret && m.settings[i]->Secret_key
                    == key;
            &&& json_members(info.values).dom().contains(key) <==> values.dom().contains(key)
                && !secret
            &&& json_members(info.values).dom().contains(key) ==> json_members(info.values)[key]
                == values[key]
        }),
{
}

} // verus!
