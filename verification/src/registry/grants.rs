//! Approvals of capabilities and of dashboard widgets.

use vstd::prelude::*;

use crate::capability::{
    capabilities, grant_stored, target, Approvals, GrantKind, GrantState, GrantStorage, GrantTarget,
    GrantsError,
};
use crate::keyed::in_key_order;
use crate::manifest::{CapabilityRequest, DashboardWidgetView, Manifest, ManifestView};
use crate::path::{
    all_normal, at_root, ends_at_root, is_portable, law_names_lead_down, leads_away, leads_down,
    may_split, part_views, parts, path_parts, segments, PathPartView,
};
use crate::registry::entries::{
    lemma_at_place, lemma_place, lemma_same_places, others_kept, place_of, PluginEntry,
    PluginState, PluginStateView, SubjectEntry, SubjectRegistry,
};
use crate::registry::filesystem::outcome;
use crate::registry::sidecar::{
    effective, host_buffer, lemma_either_part_holds, merged_effective_hosts,
};
use crate::registry::subject::{RegistryError, RegistryErrorView, RegistrySubject};
use crate::registry::ProcessControl;
use crate::rpc::info::{DashboardInfo, DashboardInfoView};
use crate::runtime::buffer::{by_key, entries_of};
use crate::runtime::capabilities::{capabilities_json_string, hosts_of, parse_capability_hosts};
use crate::runtime::sidecar::{
    local_hosts, parse_sidecars, SidecarRuntimeEntry, SidecarRuntimeEntryView,
};
use crate::settings::{ConfigStorage, Storage};
use crate::text::{copied_texts, same_text, views};

verus! {

/// The sidecars that a buffer lists, in the order of their names.
pub open spec fn listed_sidecars(raw: Seq<char>) -> Seq<SidecarRuntimeEntryView> {
    in_key_order(by_key::<SidecarRuntimeEntry>(entries_of::<SidecarRuntimeEntry>(raw)))
}

/// Whether two entries differ in the buffer for hosts at most.
pub open spec fn same_but_hosts<M>(before: SubjectEntry<M>, after: SubjectEntry<M>) -> bool {
    after == (SubjectEntry { capabilities_json: after.capabilities_json, ..before })
}

/// What changing the approval of the capabilities does and returns: the hosts
/// that were asked for are open if it is given, and the ports of approved
/// sidecars in any case.
pub open spec fn capabilities_set<
    M: RegistrySubject,
    St: Storage,
    G: GrantStorage,
    C: ConfigStorage,
    P: ProcessControl,
>(
    before: SubjectRegistry<M, St, G, C, P>,
    id: Seq<char>,
    granted: bool,
    after: SubjectRegistry<M, St, G, C, P>,
    r: Result<GrantState, RegistryErrorView>,
) -> bool {
    let m = before.subject(id);
    let at = place_of(before.table.entries@, id);
    if !before.has(id) {
        r == Err::<GrantState, _>(M::unknown(id)) && after == before
    } else {
        &&& after.settings == before.settings
        &&& after.configs == before.configs
        &&& after.processes == before.processes
        &&& exists|stored: Result<GrantState, GrantsError>|
            {
                &&& #[trigger] grant_stored(
                    before.grants,
                    m,
                    capabilities(),
                    granted,
                    after.grants,
                    stored,
                )
                &&& match stored {
                    Ok(state) => {
                        &&& r == Ok::<_, RegistryErrorView>(state)
                        &&& others_kept(before.table.entries@, after.table.entries@, at)
                        &&& same_but_hosts(before.table.entries@[at], after.table.entries@[at])
                        &&& host_buffer(
                            effective(
                                state.granted,
                                m.capability_hosts(),
                                local_hosts(listed_sidecars(before.entry(id).sidecars_json@)),
                            ),
                            after.table.entries@[at].capabilities_json@,
                        )
                    },
                    Err(e) => r == Err::<GrantState, _>(RegistryErrorView::Grants(e.message@))
                        && after.table == before.table,
                }
            }
    }
}

/// The view of a result that is a plain value or an error.
pub open spec fn answer<T, E: View>(r: Result<T, E>) -> Result<T, E::V> {
    match r {
        Ok(value) => Ok(value),
        Err(e) => Err(e@),
    }
}

impl<
    M: RegistrySubject,
    St: Storage,
    G: GrantStorage,
    C: ConfigStorage,
    P: ProcessControl,
> SubjectRegistry<M, St, G, C, P> {
    /// Changes the approval of the capabilities of a plugin or driver, and
    /// rewrites the buffer for hosts.
    pub fn set_capabilities(&mut self, id: &str, granted: bool) -> (r: Result<GrantState, M::Error>)
        ensures
            capabilities_set(*old(self), id@, granted, *final(self), answer(r)),
    {
        let at = self.table.find(id);
        if at == self.table.entries.len() {
            return Err(M::unknown_error(id));
        }
        let manifest = self.table.entries[at].manifest.as_settings_manifest();
        let stored = self.grants.set(&manifest, granted);
        let ghost seen = stored;
        let answer = match stored {
            Ok(state) => {
                let sidecars = parse_sidecars(self.table.entries[at].sidecars_json.as_str());
                let entries = sidecars.into_values();
                assert(views(entries@) =~= listed_sidecars(old(self).entry(id@).sidecars_json@));
                let hosts = merged_effective_hosts(
                    state.granted,
                    manifest.capability_hosts(),
                    &entries,
                );
                self.table.entries[at].capabilities_json = capabilities_json_string(&hosts);
                assert(host_buffer(
                    effective(
                        state.granted,
                        old(self).subject(id@).capability_hosts(),
                        local_hosts(listed_sidecars(old(self).entry(id@).sidecars_json@)),
                    ),
                    self.table.entries@[at as int].capabilities_json@,
                ));
                Ok(state)
            },
            Err(e) => Err(M::grants_error(e)),
        };
        assert(grant_stored(
            old(self).grants,
            manifest@,
            capabilities(),
            granted,
            self.grants,
            seen,
        ));
        answer
    }

    /// The hosts that a plugin or driver may talk to.
    pub fn effective_hosts(&self, id: &str) -> (r: Result<Vec<String>, M::Error>)
        ensures
            outcome(r) == if self.has(id@) {
                Ok::<_, RegistryErrorView>(hosts_of(self.entry(id@).capabilities_json@))
            } else {
                Err(M::unknown(id@))
            },
    {
        let at = self.table.find(id);
        if at == self.table.entries.len() {
            return Err(M::unknown_error(id));
        }
        Ok(parse_capability_hosts(self.table.entries[at].capabilities_json.as_str()))
    }
}

/// A widget's file.
#[derive(Debug, PartialEq, Eq)]
pub struct WidgetFile {
    pub plugin: String,
    pub entry: String,
}

pub struct WidgetFileView {
    pub plugin: Seq<char>,
    pub entry: Seq<char>,
}

impl View for WidgetFile {
    type V = WidgetFileView;

    open spec fn view(&self) -> WidgetFileView {
        WidgetFileView { plugin: self.plugin@, entry: self.entry@ }
    }
}

/// The files of widgets that are there.
#[derive(Debug)]
pub struct WidgetFiles {
    pub present: Vec<WidgetFile>,
}

impl WidgetFiles {
    /// Whether the file of a widget is there.
    pub open spec fn holds(self, plugin: Seq<char>, entry: Seq<char>) -> bool {
        exists|i: int| #![trigger self.present@[i]]
            0 <= i < self.present.len() && self.present@[i].plugin@ == plugin
                && self.present@[i].entry@ == entry
    }

    /// Whether the file of a widget is there.
    pub fn has(&self, plugin: &str, entry: &str) -> (r: bool)
        ensures
            r == self.holds(plugin@, entry@),
    {
        let mut i: usize = 0;
        while i < self.present.len()
            invariant
                i <= self.present.len(),
                forall|j: int|
                    0 <= j < i ==> !((#[trigger] self.present@[j]).plugin@ == plugin@
                        && self.present@[j].entry@ == entry@),
            decreases self.present.len() - i,
        {
            let file = &self.present[i];
            if same_text(file.plugin.as_str(), plugin) && same_text(file.entry.as_str(), entry) {
                return true;
            }
            i = i + 1;
        }
        false
    }
}

/// What is said of the widgets of a declaration, in its order.
pub open spec fn dashboard_infos<G: Approvals>(
    grants: G,
    files: WidgetFiles,
    m: ManifestView,
) -> Seq<DashboardInfoView> {
    m.dashboard.map_values(
        |widget: DashboardWidgetView|
            DashboardInfoView {
                request: widget,
                grant: grants.approval(m, target(GrantKind::Dashboard, widget.id)),
                resolved: files.holds(m.id, widget.entry),
            },
    )
}

/// What changing the approval of a widget does and returns.
pub open spec fn dashboard_grant_set<
    St: Storage,
    G: GrantStorage,
    C: ConfigStorage,
    P: ProcessControl,
>(
    before: SubjectRegistry<Manifest, St, G, C, P>,
    id: Seq<char>,
    widget: Seq<char>,
    granted: bool,
    files: WidgetFiles,
    after: SubjectRegistry<Manifest, St, G, C, P>,
    r: Result<Seq<DashboardInfoView>, RegistryErrorView>,
) -> bool {
    let m = before.subject(id);
    if !before.has(id) {
        r == Err::<Seq<DashboardInfoView>, _>(RegistryErrorView::UnknownPlugin(id)) && after
            == before
    } else if !m.declares_widget(widget) {
        r == Err::<Seq<DashboardInfoView>, _>(RegistryErrorView::UnknownDashboard(widget)) && after
            == before
    } else {
        &&& after.table == before.table
        &&& after.settings == before.settings
        &&& after.configs == before.configs
        &&& after.processes == before.processes
        &&& exists|stored: Result<GrantState, GrantsError>|
            {
                &&& #[trigger] grant_stored(
                    before.grants,
                    m,
                    target(GrantKind::Dashboard, widget),
                    granted,
                    after.grants,
                    stored,
                )
                &&& r == match stored {
                    Ok(_) => Ok(dashboard_infos(after.grants, files, m)),
                    Err(e) => Err(RegistryErrorView::Grants(e.message@)),
                }
            }
    }
}

/// A widget with the plugin that offers it.
#[derive(Debug)]
pub struct PluginWidget {
    pub plugin: String,
    pub plugin_name: String,
    pub state: PluginState,
    pub info: DashboardInfo,
}

pub struct PluginWidgetView {
    pub plugin: Seq<char>,
    pub plugin_name: Seq<char>,
    pub state: PluginStateView,
    pub info: DashboardInfoView,
}

impl View for PluginWidget {
    type V = PluginWidgetView;

    open spec fn view(&self) -> PluginWidgetView {
        PluginWidgetView {
            plugin: self.plugin@,
            plugin_name: self.plugin_name@,
            state: self.state@,
            info: self.info@,
        }
    }
}

/// The widgets of one plugin.
pub open spec fn entry_widgets<G: Approvals>(
    grants: G,
    files: WidgetFiles,
    entry: PluginEntry,
) -> Seq<PluginWidgetView> {
    dashboard_infos(grants, files, entry.manifest@).map_values(
        |info: DashboardInfoView|
            PluginWidgetView {
                plugin: entry.manifest@.id,
                plugin_name: entry.manifest@.name,
                state: entry.state@,
                info,
            },
    )
}

/// The widgets of all plugins, in order.
pub open spec fn all_widgets<G: Approvals>(
    grants: G,
    files: WidgetFiles,
    entries: Seq<PluginEntry>,
) -> Seq<PluginWidgetView>
    decreases entries.len(),
{
    if entries.len() == 0 {
        seq![]
    } else {
        all_widgets(grants, files, entries.drop_last()) + entry_widgets(
            grants,
            files,
            entries.last(),
        )
    }
}

/// A file that a widget is served from: its entry, or a path next to it.
#[derive(Debug, PartialEq, Eq)]
pub struct DashboardAsset {
    pub plugin: String,
    pub entry: String,
    pub beside: Option<String>,
}

/// The answer to a request for a file of a widget that may be served: its entry,
/// or a path next to it. A path that leads anywhere but further down is turned
/// down, and so is every path if nothing can stand next to the entry.
pub open spec fn file_served(
    plugin: Seq<char>,
    widget: Seq<char>,
    entry: Seq<char>,
    rel_path: Seq<char>,
    r: Result<DashboardAsset, RegistryErrorView>,
) -> bool {
    if rel_path.len() == 0 {
        r matches Ok(asset) && asset.plugin@ == plugin && asset.entry@ == entry
            && asset.beside is None
    } else {
        exists|above: Seq<PathPartView>, down: Seq<PathPartView>|
            {
                &&& #[trigger] may_split(entry, above)
                &&& #[trigger] may_split(rel_path, down)
                &&& if leads_down(down) && !ends_at_root(above) {
                    r matches Ok(asset) && asset.plugin@ == plugin && asset.entry@ == entry
                        && asset.beside is Some && asset.beside->0@ == rel_path
                } else {
                    r == Err::<DashboardAsset, _>(RegistryErrorView::UnknownDashboard(widget))
                }
            }
    }
}

/// What a request for a file of a widget is answered.
pub open spec fn asset_served<
    St: Storage,
    G: GrantStorage,
    C: ConfigStorage,
    P: ProcessControl,
>(
    registry: SubjectRegistry<Manifest, St, G, C, P>,
    plugin: Seq<char>,
    widget: Seq<char>,
    rel_path: Seq<char>,
    r: Result<DashboardAsset, RegistryErrorView>,
) -> bool {
    let m = registry.subject(plugin);
    if !registry.has(plugin) {
        r == Err::<DashboardAsset, _>(RegistryErrorView::UnknownPlugin(plugin))
    } else if !m.declares_widget(widget) {
        r == Err::<DashboardAsset, _>(RegistryErrorView::UnknownDashboard(widget))
    } else if !registry.grants.approval(m, target(GrantKind::Dashboard, widget)).granted {
        r == Err::<DashboardAsset, _>(RegistryErrorView::DashboardNotGranted(widget))
    } else {
        exists|i: int| #[trigger]
            m.first_widget(widget, i) && file_served(
                m.id,
                widget,
                m.dashboard[i].entry,
                rel_path,
                r,
            )
    }
}

impl<
    St: Storage,
    G: GrantStorage,
    C: ConfigStorage,
    P: ProcessControl,
> SubjectRegistry<Manifest, St, G, C, P> {
    /// What is said of the widgets of a declaration, in its order.
    pub fn build_dashboard_infos(&self, manifest: &Manifest, files: &WidgetFiles) -> (r: Vec<
        DashboardInfo,
    >)
        ensures
            views(r@) == dashboard_infos(self.grants, *files, manifest@),
    {
        let ghost all = dashboard_infos(self.grants, *files, manifest@);
        let mut infos: Vec<DashboardInfo> = Vec::new();
        let mut i: usize = 0;
        while i < manifest.dashboard.len()
            invariant
                i <= manifest.dashboard.len(),
                all == dashboard_infos(self.grants, *files, manifest@),
                infos.len() == i,
                forall|j: int| 0 <= j < i ==> (#[trigger] infos@[j])@ == all[j],
            decreases manifest.dashboard.len() - i,
        {
            let widget = &manifest.dashboard[i];
            assert(manifest@.dashboard[i as int] == widget@);
            let grant = self.grants.dashboard_state(manifest, widget.id.as_str());
            let resolved = files.has(manifest.id.as_str(), widget.entry.as_str());
            infos.push(DashboardInfo { request: widget.clone(), grant, resolved });
            i = i + 1;
        }
        assert(views(infos@) =~= all);
        infos
    }

    /// The events that a plugin asked for.
    pub fn events_of(&self, id: &str) -> (r: Result<Vec<String>, RegistryError>)
        ensures
            outcome(r) == if self.has(id@) {
                Ok::<_, RegistryErrorView>(self.subject(id@).events)
            } else {
                Err(RegistryErrorView::UnknownPlugin(id@))
            },
    {
        let at = self.table.find(id);
        if at == self.table.entries.len() {
            return Err(RegistryError::UnknownPlugin(id.to_owned()));
        }
        Ok(copied_texts(&self.table.entries[at].manifest.events))
    }

    /// What is said of the widgets of a plugin.
    pub fn dashboard(&self, id: &str, files: &WidgetFiles) -> (r: Result<
        Vec<DashboardInfo>,
        RegistryError,
    >)
        ensures
            outcome(r) == if self.has(id@) {
                Ok::<_, RegistryErrorView>(
                    dashboard_infos(self.grants, *files, self.subject(id@)),
                )
            } else {
                Err(RegistryErrorView::UnknownPlugin(id@))
            },
    {
        let at = self.table.find(id);
        if at == self.table.entries.len() {
            return Err(RegistryError::UnknownPlugin(id.to_owned()));
        }
        Ok(self.build_dashboard_infos(&self.table.entries[at].manifest, files))
    }

    /// Changes the approval of a widget.
    pub fn set_dashboard_grant(
        &mut self,
        id: &str,
        widget: &str,
        granted: bool,
        files: &WidgetFiles,
    ) -> (r: Result<Vec<DashboardInfo>, RegistryError>)
        ensures
            dashboard_grant_set(
                *old(self),
                id@,
                widget@,
                granted,
                *files,
                *final(self),
                outcome(r),
            ),
    {
        let at = self.table.find(id);
        if at == self.table.entries.len() {
            return Err(RegistryError::UnknownPlugin(id.to_owned()));
        }
        let manifest = self.table.entries[at].manifest.clone();
        if manifest.dashboard_widget(widget).is_none() {
            return Err(RegistryError::UnknownDashboard(widget.to_owned()));
        }
        let stored = self.grants.set_dashboard(&manifest, widget, granted);
        assert(grant_stored(
            old(self).grants,
            manifest@,
            target(GrantKind::Dashboard, widget@),
            granted,
            self.grants,
            stored,
        ));
        match stored {
            Ok(_) => Ok(self.build_dashboard_infos(&manifest, files)),
            Err(e) => Err(RegistryError::Grants(e)),
        }
    }

    /// The widgets of all plugins, in order.
    pub fn dashboard_widgets_for_ui(&self, files: &WidgetFiles) -> (r: Vec<PluginWidget>)
        ensures
            views(r@) == all_widgets(self.grants, *files, self.table.entries@),
    {
        let mut widgets: Vec<PluginWidget> = Vec::new();
        let mut i: usize = 0;
        let ghost entries = self.table.entries@;
        assert(views(widgets@) =~= all_widgets(self.grants, *files, entries.take(0)));
        while i < self.table.entries.len()
            invariant
                i <= self.table.entries.len(),
                entries == self.table.entries@,
                views(widgets@) == all_widgets(self.grants, *files, entries.take(i as int)),
            decreases self.table.entries.len() - i,
        {
            let entry = &self.table.entries[i];
            let ghost start = views(widgets@);
            let ghost added = entry_widgets(self.grants, *files, *entry);
            let ghost said = dashboard_infos(self.grants, *files, entry.manifest@);
            let mut infos = self.build_dashboard_infos(&entry.manifest, files);
            assert(start + added.take(0) =~= start);
            let mut k: usize = 0;
            let count = infos.len();
            assert(said.skip(0) =~= said);
            while infos.len() > 0
                invariant
                    k + infos.len() == count,
                    count == said.len(),
                    count == added.len(),
                    added == entry_widgets(self.grants, *files, *entry),
                    said == dashboard_infos(self.grants, *files, entry.manifest@),
                    views(infos@) == said.skip(k as int),
                    views(widgets@) == start + added.take(k as int),
                decreases infos.len(),
            {
                let ghost left = infos@;
                let info = infos.remove(0);
                assert(info@ == views(left)[0]);
                assert(info@ == said[k as int]);
                assert(views(infos@) =~= views(left).skip(1));
                assert(said.skip(k as int).skip(1) =~= said.skip(k + 1));
                let ghost shown = widgets@;
                widgets.push(
                    PluginWidget {
                        plugin: entry.manifest.id.clone(),
                        plugin_name: entry.manifest.name.clone(),
                        state: entry.state.clone(),
                        info,
                    },
                );
                assert(views(widgets@) =~= views(shown).push(added[k as int]));
                assert(start + added.take(k + 1) =~= (start + added.take(k as int)).push(
                    added[k as int],
                ));
                k = k + 1;
            }
            assert(added.take(added.len() as int) =~= added);
            proof {
                let taken = entries.take(i + 1);
                assert(taken.drop_last() =~= entries.take(i as int));
                assert(taken.last() == *entry);
            }
            i = i + 1;
        }
        assert(entries.take(entries.len() as int) =~= entries);
        widgets
    }

    /// The file that answers a request for a widget's file.
    pub fn dashboard_asset_path(&self, plugin: &str, widget: &str, rel_path: &str) -> (r: Result<
        DashboardAsset,
        RegistryError,
    >)
        ensures
            asset_served(*self, plugin@, widget@, rel_path@, answer(r)),
    {
        let at = self.table.find(plugin);
        if at == self.table.entries.len() {
            return Err(RegistryError::UnknownPlugin(plugin.to_owned()));
        }
        let manifest = &self.table.entries[at].manifest;
        let declared = match manifest.dashboard_widget(widget) {
            Some(declared) => declared,
            None => {
                return Err(RegistryError::UnknownDashboard(widget.to_owned()));
            },
        };
        if !self.grants.dashboard_state(manifest, widget).granted {
            return Err(RegistryError::DashboardNotGranted(widget.to_owned()));
        }
        if rel_path.is_empty() {
            return Ok(
                DashboardAsset {
                    plugin: manifest.id.clone(),
                    entry: declared.entry.clone(),
                    beside: None,
                },
            );
        }
        let above = path_parts(declared.entry.as_str());
        let down = path_parts(rel_path);
        assert(may_split(declared.entry@, part_views(above@)));
        assert(may_split(rel_path@, part_views(down@)));
        if at_root(&above) || !all_normal(&down) {
            return Err(RegistryError::UnknownDashboard(widget.to_owned()));
        }
        Ok(
            DashboardAsset {
                plugin: manifest.id.clone(),
                entry: declared.entry.clone(),
                beside: Some(rel_path.to_owned()),
            },
        )
    }

    /// Whether a widget may act for its plugin.
    pub fn ensure_dashboard_granted(&self, plugin: &str, widget: &str) -> (r: Result<
        (),
        RegistryError,
    >)
        ensures
            answer(r) == widget_leave(*self, plugin@, widget@),
    {
        let at = self.table.find(plugin);
        if at == self.table.entries.len() {
            return Err(RegistryError::UnknownPlugin(plugin.to_owned()));
        }
        let manifest = &self.table.entries[at].manifest;
        if manifest.dashboard_widget(widget).is_none() {
            return Err(RegistryError::UnknownDashboard(widget.to_owned()));
        }
        if !self.grants.dashboard_state(manifest, widget).granted {
            return Err(RegistryError::DashboardNotGranted(widget.to_owned()));
        }
        Ok(())
    }

    /// The capabilities that a plugin asked for, and whether they are approved.
    pub fn capabilities(&self, id: &str) -> (r: Result<
        (Vec<CapabilityRequest>, GrantState),
        RegistryError,
    >)
        ensures
            match r {
                Ok((requests, state)) => {
                    &&& self.has(id@)
                    &&& views(requests@) == self.subject(id@).capabilities
                    &&& state == self.grants.approval(self.subject(id@), capabilities())
                },
                Err(e) => !self.has(id@) && e@ == RegistryErrorView::UnknownPlugin(id@),
            },
    {
        let at = self.table.find(id);
        if at == self.table.entries.len() {
            return Err(RegistryError::UnknownPlugin(id.to_owned()));
        }
        let manifest = &self.table.entries[at].manifest;
        let state = self.grants.state(manifest);
        let requests = manifest.capabilities.clone();
        assert(views(requests@) =~= views(manifest.capabilities@));
        Ok((requests, state))
    }
}

/// Whether a widget may act for its plugin: it is declared and approved.
pub open spec fn widget_leave<St: Storage, G: GrantStorage, C: ConfigStorage, P: ProcessControl>(
    registry: SubjectRegistry<Manifest, St, G, C, P>,
    plugin: Seq<char>,
    widget: Seq<char>,
) -> Result<(), RegistryErrorView> {
    let m = registry.subject(plugin);
    if !registry.has(plugin) {
        Err(RegistryErrorView::UnknownPlugin(plugin))
    } else if !m.declares_widget(widget) {
        Err(RegistryErrorView::UnknownDashboard(widget))
    } else if !registry.grants.approval(m, target(GrantKind::Dashboard, widget)).granted {
        Err(RegistryErrorView::DashboardNotGranted(widget))
    } else {
        Ok(())
    }
}

/// What is read after the capabilities were approved or not is what approving them
/// returned, and it is what was asked for as far as the store goes along.
pub proof fn law_approvals_are_read_back<
    M: RegistrySubject,
    St: Storage,
    G: GrantStorage,
    C: ConfigStorage,
    P: ProcessControl,
>(
    before: SubjectRegistry<M, St, G, C, P>,
    id: Seq<char>,
    granted: bool,
    after: SubjectRegistry<M, St, G, C, P>,
    state: GrantState,
)
    requires
        capabilities_set(before, id, granted, after, Ok(state)),
    ensures
        after.has(id),
        after.grants.approval(after.subject(id), capabilities()) == state,
        state == before.grants.once_judged(before.subject(id), capabilities(), granted),
{
    lemma_after_capabilities(before, id, granted, after, state);
}

/// Without an approval a plugin or driver may talk to the ports of its approved
/// sidecars and to nothing else.
pub proof fn law_revoked_capabilities_leave_sidecars_only<
    M: RegistrySubject,
    St: Storage,
    G: GrantStorage,
    C: ConfigStorage,
    P: ProcessControl,
>(
    before: SubjectRegistry<M, St, G, C, P>,
    id: Seq<char>,
    after: SubjectRegistry<M, St, G, C, P>,
    state: GrantState,
)
    requires
        capabilities_set(before, id, false, after, Ok(state)),
    ensures
        !state.granted,
        hosts_of(after.entry(id).capabilities_json@) == local_hosts(
            listed_sidecars(before.entry(id).sidecars_json@),
        ),
{
    lemma_after_capabilities(before, id, false, after, state);
}

/// With an approval a plugin or driver may talk to every host that it asked for.
pub proof fn law_approved_capabilities_open_every_host<
    M: RegistrySubject,
    St: Storage,
    G: GrantStorage,
    C: ConfigStorage,
    P: ProcessControl,
>(
    before: SubjectRegistry<M, St, G, C, P>,
    id: Seq<char>,
    after: SubjectRegistry<M, St, G, C, P>,
    state: GrantState,
    i: int,
)
    requires
        capabilities_set(before, id, true, after, Ok(state)),
        state.granted,
        0 <= i < before.subject(id).capability_hosts().len(),
    ensures
        hosts_of(after.entry(id).capabilities_json@).contains(
            before.subject(id).capability_hosts()[i],
        ),
{
    lemma_after_capabilities(before, id, true, after, state);
    let hosts = before.subject(id).capability_hosts();
    let local = local_hosts(listed_sidecars(before.entry(id).sidecars_json@));
    assert((hosts + local)[i] == hosts[i]);
}

proof fn lemma_after_capabilities<
    M: RegistrySubject,
    St: Storage,
    G: GrantStorage,
    C: ConfigStorage,
    P: ProcessControl,
>(
    before: SubjectRegistry<M, St, G, C, P>,
    id: Seq<char>,
    granted: bool,
    after: SubjectRegistry<M, St, G, C, P>,
    state: GrantState,
)
    requires
        capabilities_set(before, id, granted, after, Ok(state)),
    ensures
        !granted ==> !state.granted,
        after.has(id),
        after.subject(id) == before.subject(id),
        hosts_of(after.entry(id).capabilities_json@) == effective(
            state.granted,
            before.subject(id).capability_hosts(),
            local_hosts(listed_sidecars(before.entry(id).sidecars_json@)),
        ),
{
    lemma_at_place(before.table.entries@, id);
    let at = place_of(before.table.entries@, id);
    assert forall|j: int| 0 <= j < before.table.entries.len() implies (
    #[trigger] after.table.entries@[j]).manifest == before.table.entries@[j].manifest by {
        if j != at {
            assert(after.table.entries@[j] == before.table.entries@[j]);
        }
    }
    lemma_same_places(before.table.entries@, after.table.entries@, id);
}

/// No file is served by a path that starts at the root or leads up.
pub proof fn law_no_way_out_of_a_widget<
    St: Storage,
    G: GrantStorage,
    C: ConfigStorage,
    P: ProcessControl,
>(
    registry: SubjectRegistry<Manifest, St, G, C, P>,
    plugin: Seq<char>,
    widget: Seq<char>,
    rel_path: Seq<char>,
    r: Result<DashboardAsset, RegistryErrorView>,
)
    requires
        asset_served(registry, plugin, widget, rel_path, r),
        leads_away(rel_path),
    ensures
        r is Err,
{
    if rel_path.len() == 0 {
        let only = segments(rel_path);
        assert(only[0].len() == 0);
    }
}

/// No file of a widget is served that is not approved.
pub proof fn law_unapproved_widgets_are_not_served<
    St: Storage,
    G: GrantStorage,
    C: ConfigStorage,
    P: ProcessControl,
>(
    registry: SubjectRegistry<Manifest, St, G, C, P>,
    plugin: Seq<char>,
    widget: Seq<char>,
    rel_path: Seq<char>,
    r: Result<DashboardAsset, RegistryErrorView>,
)
    requires
        asset_served(registry, plugin, widget, rel_path, r),
        !registry.grants.approval(
            registry.subject(plugin),
            target(GrantKind::Dashboard, widget),
        ).granted,
    ensures
        r is Err,
{
}

/// After the capabilities were approved or not, the owner may talk to the hosts that it asked
/// for, if they are approved, and then to the ports of its approved sidecars, and to no other
/// host. Nothing else of it changes, no other approval does, and what the store refuses
/// changes nothing.
pub proof fn law_hosts_follow_the_approval<
    M: RegistrySubject,
    St: Storage,
    G: GrantStorage,
    C: ConfigStorage,
    P: ProcessControl,
>(
    before: SubjectRegistry<M, St, G, C, P>,
    id: Seq<char>,
    granted: bool,
    after: SubjectRegistry<M, St, G, C, P>,
    r: Result<GrantState, RegistryErrorView>,
    at: int,
    host: Seq<char>,
)
    requires
        0 <= at < before.table.entries.len(),
        before.table.entries@[at].manifest.projected().id == id,
        forall|j: int|
            0 <= j < at ==> (#[trigger] before.table.entries@[j]).manifest.projected().id != id,
        capabilities_set(before, id, granted, after, r),
    ensures
        after.settings == before.settings,
        after.configs == before.configs,
        after.processes == before.processes,
        r is Ok || r->Err_0 is Grants,
        ({
            let m = before.table.entries@[at].manifest.projected();
            let on = GrantTarget { kind: GrantKind::Capabilities, name: seq![] };
            let local = local_hosts(
                listed_sidecars(before.table.entries@[at].sidecars_json@),
            );
            &&& r is Ok ==> {
                let hosts = hosts_of(after.table.entries@[at].capabilities_json@);
                &&& r->Ok_0 == after.grants.approval(m, on)
                &&& !granted ==> !r->Ok_0.granted
                &&& hosts.contains(host) <==> r->Ok_0.granted && m.capability_hosts().contains(host)
                    || local.contains(host)
                &&& forall|other: ManifestView, t: GrantTarget|
                    other.id != id || t != on ==> #[trigger] after.grants.approval(other, t)
                        == before.grants.approval(other, t)
                &&& after.table.entries.len() == before.table.entries.len()
                &&& forall|j: int|
                    0 <= j < before.table.entries.len() && j != at
                        ==> #[trigger] after.table.entries@[j] == before.table.entries@[j]
                &&& after.table.entries@[at].manifest == before.table.entries@[at].manifest
                &&& after.table.entries@[at].state == before.table.entries@[at].state
                &&& after.table.entries@[at].settings_json
                    == before.table.entries@[at].settings_json
                &&& after.table.entries@[at].sidecars_json
                    == before.table.entries@[at].sidecars_json
                &&& after.table.entries@[at].filesystem_json
                    == before.table.entries@[at].filesystem_json
                &&& after.table.entries@[at].bus_json == before.table.entries@[at].bus_json
            }
            &&& r is Err ==> after.table == before.table && forall|
                other: ManifestView,
                t: GrantTarget,
            | #[trigger]
                after.grants.approval(other, t) == before.grants.approval(other, t)
        }),
{
    lemma_place(before.table.entries@, id, at);
    let m = before.table.entries@[at].manifest.projected();
    let local = local_hosts(listed_sidecars(before.table.entries@[at].sidecars_json@));
    lemma_either_part_holds(m.capability_hosts(), local, host);
}

/// What is said of widgets follows their declaration one by one: the request as it was
/// declared, the approval, and whether its file is there.
pub proof fn law_every_declared_widget_is_told_of<G: Approvals>(
    grants: G,
    files: WidgetFiles,
    m: ManifestView,
    i: int,
)
    requires
        0 <= i < m.dashboard.len(),
    ensures
        dashboard_infos(grants, files, m).len() == m.dashboard.len(),
        dashboard_infos(grants, files, m)[i].request == m.dashboard[i],
        dashboard_infos(grants, files, m)[i].grant == grants.approval(
            m,
            (GrantTarget { kind: GrantKind::Dashboard, name: m.dashboard[i].id }),
        ),
        dashboard_infos(grants, files, m)[i].resolved <==> exists|k: int|
            #![trigger files.present@[k]]
            0 <= k < files.present.len() && files.present@[k].plugin@ == m.id
                && files.present@[k].entry@ == m.dashboard[i].entry,
{
}

/// The widgets of all plugins are those of each plugin after another: a further plugin adds
/// its own at the end, with its id, its name and its state.
pub proof fn law_widgets_come_plugin_by_plugin<G: Approvals>(
    grants: G,
    files: WidgetFiles,
    entries: Seq<PluginEntry>,
    entry: PluginEntry,
    i: int,
)
    requires
        0 <= i < entry.manifest@.dashboard.len(),
    ensures
        all_widgets(grants, files, seq![]).len() == 0,
        ({
            let before = all_widgets(grants, files, entries);
            let after = all_widgets(grants, files, entries.push(entry));
            let widget = after[before.len() + i];
            &&& after.len() == before.len() + entry.manifest@.dashboard.len()
            &&& forall|k: int| 0 <= k < before.len() ==> #[trigger] after[k] == before[k]
            &&& widget.plugin == entry.manifest@.id
            &&& widget.plugin_name == entry.manifest@.name
            &&& widget.state == entry.state@
            &&& widget.info == dashboard_infos(grants, files, entry.manifest@)[i]
        }),
{
    assert(entries.push(entry).drop_last() =~= entries);
}

/// Changing the approval of a widget answers so. One that is not declared is unknown. What is
/// taken back is not approved any more, and nothing but approvals changes, and of these no
/// other.
pub proof fn law_approving_a_widget_changes_its_approval_only<
    St: Storage,
    G: GrantStorage,
    C: ConfigStorage,
    P: ProcessControl,
>(
    before: SubjectRegistry<Manifest, St, G, C, P>,
    id: Seq<char>,
    widget: Seq<char>,
    granted: bool,
    files: WidgetFiles,
    after: SubjectRegistry<Manifest, St, G, C, P>,
    r: Result<Seq<DashboardInfoView>, RegistryErrorView>,
    at: int,
)
    requires
        0 <= at < before.table.entries.len(),
        before.table.entries@[at].manifest@.id == id,
        forall|j: int|
            0 <= j < at ==> (#[trigger] before.table.entries@[j]).manifest@.id != id,
        dashboard_grant_set(before, id, widget, granted, files, after, r),
    ensures
        after.table == before.table,
        after.settings == before.settings,
        after.configs == before.configs,
        after.processes == before.processes,
        ({
            let m = before.table.entries@[at].manifest@;
            let on = GrantTarget { kind: GrantKind::Dashboard, name: widget };
            let declared = exists|k: int| #![trigger m.dashboard[k]]
                0 <= k < m.dashboard.len() && m.dashboard[k].id == widget;
            &&& !declared ==> r == Err::<Seq<DashboardInfoView>, _>(
                RegistryErrorView::UnknownDashboard(widget),
            )
            &&& declared ==> r is Ok || r->Err_0 is Grants
            &&& r is Ok ==> r->Ok_0 == dashboard_infos(after.grants, files, m)
            &&& r is Ok && !granted ==> !after.grants.approval(m, on).granted
            &&& forall|other: ManifestView, t: GrantTarget|
                r is Err || other.id != id || t != on ==> #[trigger] after.grants.approval(other, t)
                    == before.grants.approval(other, t)
        }),
{
    assert forall|j: int| 0 <= j < at implies (
    #[trigger] before.table.entries@[j]).manifest.projected().id != id by {
        assert(before.table.entries@[j].manifest@.id != id);
    }
    lemma_place(before.table.entries@, id, at);
    let m = before.table.entries@[at].manifest@;
    assert(m.declares_widget(widget) <==> exists|k: int| #![trigger m.dashboard[k]]
        0 <= k < m.dashboard.len() && m.dashboard[k].id == widget);
}

/// A widget may act for its plugin just if it is declared and approved, and each reason why
/// it may not has its own answer.
pub proof fn law_widgets_act_with_an_approval<
    St: Storage,
    G: GrantStorage,
    C: ConfigStorage,
    P: ProcessControl,
>(
    before: SubjectRegistry<Manifest, St, G, C, P>,
    id: Seq<char>,
    widget: Seq<char>,
    at: int,
)
    requires
        0 <= at < before.table.entries.len(),
        before.table.entries@[at].manifest@.id == id,
        forall|j: int|
            0 <= j < at ==> (#[trigger] before.table.entries@[j]).manifest@.id != id,
    ensures
        ({
            let m = before.table.entries@[at].manifest@;
            let declared = exists|k: int| #![trigger m.dashboard[k]]
                0 <= k < m.dashboard.len() && m.dashboard[k].id == widget;
            let approved = before.grants.approval(
                m,
                (GrantTarget { kind: GrantKind::Dashboard, name: widget }),
            ).granted;
            let r = widget_leave(before, id, widget);
            &&& r is Ok <==> declared && approved
            &&& !declared ==> r == Err::<(), _>(RegistryErrorView::UnknownDashboard(widget))
            &&& declared && !approved ==> r == Err::<(), _>(
                RegistryErrorView::DashboardNotGranted(widget),
            )
        }),
{
    assert forall|j: int| 0 <= j < at implies (
    #[trigger] before.table.entries@[j]).manifest.projected().id != id by {
        assert(before.table.entries@[j].manifest@.id != id);
    }
    lemma_place(before.table.entries@, id, at);
    let m = before.table.entries@[at].manifest@;
    assert(m.declares_widget(widget) <==> exists|k: int| #![trigger m.dashboard[k]]
        0 <= k < m.dashboard.len() && m.dashboard[k].id == widget);
}

/// A request for a file of a declared and approved widget is answered with the entry of the
/// first widget of that id if no path is given, and with the path beside it if all segments
/// of the path are names. The entry and the path mean the same on all systems here.
pub proof fn law_files_beside_a_widget_are_served<
    St: Storage,
    G: GrantStorage,
    C: ConfigStorage,
    P: ProcessControl,
>(
    before: SubjectRegistry<Manifest, St, G, C, P>,
    id: Seq<char>,
    widget: Seq<char>,
    rel_path: Seq<char>,
    r: Result<DashboardAsset, RegistryErrorView>,
    at: int,
    k: int,
)
    requires
        0 <= at < before.table.entries.len(),
        before.table.entries@[at].manifest@.id == id,
        forall|j: int|
            0 <= j < at ==> (#[trigger] before.table.entries@[j]).manifest@.id != id,
        asset_served(before, id, widget, rel_path, r),
        0 <= k < before.table.entries@[at].manifest@.dashboard.len(),
        before.table.entries@[at].manifest@.dashboard[k].id == widget,
        forall|j: int|
            0 <= j < k ==> (
            #[trigger] before.table.entries@[at].manifest@.dashboard[j]).id != widget,
        before.grants.approval(
            before.table.entries@[at].manifest@,
            (GrantTarget { kind: GrantKind::Dashboard, name: widget }),
        ).granted,
    ensures
        r matches Ok(asset) ==> {
            &&& asset.plugin@ == id
            &&& asset.entry@ == before.table.entries@[at].manifest@.dashboard[k].entry
            &&& asset.beside is None <==> rel_path.len() == 0
            &&& asset.beside is Some ==> asset.beside->0@ == rel_path
        },
        rel_path.len() == 0 ==> r is Ok,
        ({
            let entry = before.table.entries@[at].manifest@.dashboard[k].entry;
            &&& is_portable(rel_path) && is_portable(entry) && entry.len() > 0 && entry[0] != '/'
                && rel_path.len() > 0 && rel_path[0] != '/' && (forall|i: int|
                #![trigger segments(rel_path)[i]]
                0 <= i < segments(rel_path).len() ==> segments(rel_path)[i].len() > 0 && segments(
                    rel_path,
                )[i] != seq!['.'] && segments(rel_path)[i] != seq!['.', '.']) && (forall|i: int|
                #![trigger segments(entry)[i]]
                0 <= i < segments(entry).len() ==> segments(entry)[i].len() > 0 && segments(
                    entry,
                )[i] != seq!['.'] && segments(entry)[i] != seq!['.', '.']) ==> r is Ok
        }),
        r matches Err(e) ==> e == RegistryErrorView::UnknownDashboard(widget),
{
    assert forall|j: int| 0 <= j < at implies (
    #[trigger] before.table.entries@[j]).manifest.projected().id != id by {
        assert(before.table.entries@[j].manifest@.id != id);
    }
    lemma_place(before.table.entries@, id, at);
    let m = before.table.entries@[at].manifest@;
    assert(m.first_widget(widget, k));
    assert(m.declares_widget(widget));
    let i = choose|i: int| #[trigger]
        m.first_widget(widget, i) && file_served(m.id, widget, m.dashboard[i].entry, rel_path, r);
    if i < k {
        assert(m.dashboard[i].id != widget);
    } else if k < i {
        assert(m.dashboard[k].id != widget);
    }
    let entry = m.dashboard[k].entry;
    if is_portable(rel_path) && is_portable(entry) && entry.len() > 0 && entry[0] != '/'
        && rel_path.len() > 0 && rel_path[0] != '/' && (forall|i: int|
        #![trigger segments(rel_path)[i]]
        0 <= i < segments(rel_path).len() ==> segments(rel_path)[i].len() > 0 && segments(
            rel_path,
        )[i] != seq!['.'] && segments(rel_path)[i] != seq!['.', '.']) && (forall|i: int|
        #![trigger segments(entry)[i]]
        0 <= i < segments(entry).len() ==> segments(entry)[i].len() > 0 && segments(entry)[i]
            != seq!['.'] && segments(entry)[i] != seq!['.', '.']) {
        law_names_lead_down(rel_path);
        law_names_lead_down(entry);
        if parts(entry).len() > 0 {
            let last = parts(entry).len() - 1;
            assert(parts(entry)[last] is Normal);
        }
    }
}

/// Nothing is approved for an id that is not registered: the id is named in the answer.
pub proof fn law_capabilities_of_an_unknown_owner_are_not_approved<
    M: RegistrySubject,
    St: Storage,
    G: GrantStorage,
    C: ConfigStorage,
    P: ProcessControl,
>(
    before: SubjectRegistry<M, St, G, C, P>,
    id: Seq<char>,
    granted: bool,
    after: SubjectRegistry<M, St, G, C, P>,
    r: Result<GrantState, RegistryErrorView>,
)
    requires
        forall|j: int|
            0 <= j < before.table.entries.len() ==> (
            #[trigger] before.table.entries@[j]).manifest.projected().id != id,
        capabilities_set(before, id, granted, after, r),
    ensures
        r == Err::<GrantState, _>(M::unknown(id)),
        after == before,
{
    lemma_place(before.table.entries@, id, before.table.entries.len() as int);
}

/// Nothing is approved for an id that is not registered: the id is named in the answer.
pub proof fn law_widgets_of_an_unknown_plugin_are_not_approved<
    St: Storage,
    G: GrantStorage,
    C: ConfigStorage,
    P: ProcessControl,
>(
    before: SubjectRegistry<Manifest, St, G, C, P>,
    id: Seq<char>,
    widget: Seq<char>,
    granted: bool,
    files: WidgetFiles,
    after: SubjectRegistry<Manifest, St, G, C, P>,
    r: Result<Seq<DashboardInfoView>, RegistryErrorView>,
)
    requires
        forall|j: int|
            0 <= j < before.table.entries.len() ==> (
            #[trigger] before.table.entries@[j]).manifest@.id != id,
        dashboard_grant_set(before, id, widget, granted, files, after, r),
    ensures
        r == Err::<Seq<DashboardInfoView>, _>(RegistryErrorView::UnknownPlugin(id)),
        after == before,
{
    assert forall|j: int| 0 <= j < before.table.entries.len() implies (
    #[trigger] before.table.entries@[j]).manifest.projected().id != id by {
        assert(before.table.entries@[j].manifest@.id != id);
    }
    lemma_place(before.table.entries@, id, before.table.entries.len() as int);
}

/// No file is served for an id that is not registered: the id is named in the answer.
pub proof fn law_files_of_an_unknown_plugin_are_not_served<
    St: Storage,
    G: GrantStorage,
    C: ConfigStorage,
    P: ProcessControl,
>(
    before: SubjectRegistry<Manifest, St, G, C, P>,
    id: Seq<char>,
    widget: Seq<char>,
    rel_path: Seq<char>,
    r: Result<DashboardAsset, RegistryErrorView>,
)
    requires
        forall|j: int|
            0 <= j < before.table.entries.len() ==> (
            #[trigger] before.table.entries@[j]).manifest@.id != id,
        asset_served(before, id, widget, rel_path, r),
    ensures
        r == Err::<DashboardAsset, _>(RegistryErrorView::UnknownPlugin(id)),
{
    assert forall|j: int| 0 <= j < before.table.entries.len() implies (
    #[trigger] before.table.entries@[j]).manifest.projected().id != id by {
        assert(before.table.entries@[j].manifest@.id != id);
    }
    lemma_place(before.table.entries@, id, before.table.entries.len() as int);
}

/// A file of a widget that is not declared, or not approved, is not served, and each of the two
/// has its own answer. No widget of an id that is not registered may act.
pub proof fn law_withheld_widgets_have_their_own_answers<
    St: Storage,
    G: GrantStorage,
    C: ConfigStorage,
    P: ProcessControl,
>(
    registry: SubjectRegistry<Manifest, St, G, C, P>,
    plugin: Seq<char>,
    widget: Seq<char>,
    rel_path: Seq<char>,
    r: Result<DashboardAsset, RegistryErrorView>,
)
    requires
        asset_served(registry, plugin, widget, rel_path, r),
    ensures
        ({
            let m = registry.subject(plugin);
            let declared = exists|k: int| #![trigger m.dashboard[k]]
                0 <= k < m.dashboard.len() && m.dashboard[k].id == widget;
            let approved = registry.grants.approval(
                m,
                (GrantTarget { kind: GrantKind::Dashboard, name: widget }),
            ).granted;
            &&& registry.has(plugin) && !declared ==> r == Err::<DashboardAsset, _>(
                RegistryErrorView::UnknownDashboard(widget),
            )
            &&& registry.has(plugin) && declared && !approved ==> r == Err::<DashboardAsset, _>(
                RegistryErrorView::DashboardNotGranted(widget),
            )
            &&& !registry.has(plugin) ==> widget_leave(registry, plugin, widget) == Err::<(), _>(
                RegistryErrorView::UnknownPlugin(plugin),
            )
        }),
{
    let m = registry.subject(plugin);
    assert(m.declares_widget(widget) <==> exists|k: int| #![trigger m.dashboard[k]]
        0 <= k < m.dashboard.len() && m.dashboard[k].id == widget);
}

} // verus!
