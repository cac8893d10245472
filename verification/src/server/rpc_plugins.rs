//! Requests about plugins and their widgets.

use vstd::prelude::*;

use crate::capability::{capabilities, GrantKind, GrantState, GrantStorage, GrantTarget};
use crate::json::{
    json_array, json_members, json_object, json_string, json_tree, json_trees, map_insert, map_new,
    no_members, JsonTree,
};
use crate::manifest::Manifest;
use crate::path::{may_split, PathPartView};
use crate::registry::bus::{bus_grant_set, bus_infos, DriverDirectory, Drivers};
use crate::registry::entries::{PluginEntry, SubjectRegistry};
use crate::registry::filesystem::{filesystem_infos, outcome};
use crate::registry::grants::{
    all_widgets, answer, capabilities_set, dashboard_grant_set, widget_leave, PluginWidgetView,
    WidgetFiles,
};
use crate::registry::plugin::{acted, shows_plugin, values_set, PluginInfo, Registry};
use crate::registry::settings::values_outcome;
use crate::registry::sidecar::{sidecars_said, sidecars_shown};
use crate::registry::subject::{RegistryErrorView, RegistrySubject};
use crate::registry::{BusPort, ProcessControl};
use crate::rpc::info::{BusInfo, BusInfoView, DashboardInfoView, SidecarInfoView};
use crate::rpc::params::{object_param, param_bool, param_object, param_str, text_param, truth_param};
use crate::rpc::render::{
    bus_result_json, capabilities_result_json, capabilities_tree, connections_tree,
    dashboard_result_json, roots_tree, sidecars_tree, single, single_json, times_written,
    widgets_tree,
};
use crate::runner::plugin::queue::{SharedState, WorkPolicy};
use crate::runner::plugin::PluginWork;
use crate::server::assets::{entry_file, served_name};
use crate::server::context::RpcContext;
use crate::server::entries::{
    plugin_entry_json, plugin_tree, widget_entry_json, widget_entry_tree,
};
use crate::server::request::replied;
use crate::server::rpc_subjects::{
    approving, approving_params, named, named_params, roots_answer, roots_result, sidecars_answer,
    sidecars_result,
};
use crate::settings::{without_secrets, ConfigStorage, Storage};
use crate::text::views;

verus! {

/// What is said of the connections of an id: nothing if it is not registered.
pub open spec fn connections_of<
    St: Storage,
    G: GrantStorage,
    C: ConfigStorage,
    P: ProcessControl,
    D: Drivers,
>(
    subjects: SubjectRegistry<Manifest, St, G, C, P>,
    drivers: D,
    id: Seq<char>,
) -> Seq<BusInfoView> {
    if subjects.has(id) {
        bus_infos(subjects.grants, drivers, subjects.subject(id))
    } else {
        seq![]
    }
}

/// Whether a list shows a plugin as it is.
pub open spec fn plugin_shown<
    St: Storage,
    G: GrantStorage,
    C: ConfigStorage,
    P: ProcessControl,
    B: BusPort,
    D: DriverDirectory,
>(
    registry: Registry<St, G, C, P>,
    context: RpcContext<B, D>,
    entry: PluginEntry,
    tree: JsonTree,
) -> bool {
    exists|info: PluginInfo, nexts: Seq<Option<Seq<char>>>|
        {
            &&& shows_plugin(
                registry.subjects,
                registry.supervisor,
                *context.bus,
                *context.files,
                context.clock,
                entry,
                info,
            )
            &&& times_written(views(info.schedules@), nexts)
            &&& tree == #[trigger] plugin_tree(
                info,
                connections_of(registry.subjects, *context.drivers, info.manifest@.id),
                nexts,
            )
        }
}

/// The answer that lists plugins.
pub open spec fn plugins_tree(dir: Seq<char>, plugins: Seq<JsonTree>) -> JsonTree {
    JsonTree::Object(
        no_members().insert("pluginsDir"@, JsonTree::Text(dir)).insert(
            "plugins"@,
            JsonTree::Array(plugins),
        ),
    )
}

/// Whether an answer lists all plugins as they are, in order.
pub open spec fn plugins_listed<
    St: Storage,
    G: GrantStorage,
    C: ConfigStorage,
    P: ProcessControl,
    B: BusPort,
    D: DriverDirectory,
>(
    registry: Registry<St, G, C, P>,
    context: RpcContext<B, D>,
    r: Result<JsonTree, Seq<char>>,
) -> bool {
    exists|shown: Seq<JsonTree>|
        {
            &&& shown.len() == registry.subjects.table.entries.len()
            &&& forall|i: int|
                0 <= i < shown.len() ==> plugin_shown(
                    registry,
                    context,
                    registry.subjects.table.entries@[i],
                    #[trigger] shown[i],
                )
            &&& r == Ok::<_, Seq<char>>(#[trigger] plugins_tree(registry.plugins_dir@, shown))
        }
}

/// Lists all plugins.
pub fn list<
    St: Storage,
    G: GrantStorage,
    C: ConfigStorage,
    P: ProcessControl,
    B: BusPort,
    D: DriverDirectory,
>(registry: &Registry<St, G, C, P>, context: &RpcContext<B, D>) -> (r: Result<
    serde_json::Value,
    String,
>)
    requires
        registry.well_formed(),
    ensures
        plugins_listed(*registry, *context, replied(r)),
{
    let infos = registry.list(context.bus, context.files, context.clock);
    let ghost entries = registry.subjects.table.entries@;
    let mut items: Vec<serde_json::Value> = Vec::new();
    let mut i: usize = 0;
    while i < infos.len()
        invariant
            i <= infos.len(),
            entries == registry.subjects.table.entries@,
            infos.len() == entries.len(),
            forall|j: int|
                0 <= j < infos.len() ==> shows_plugin(
                    registry.subjects,
                    registry.supervisor,
                    *context.bus,
                    *context.files,
                    context.clock,
                    entries[j],
                    #[trigger] infos@[j],
                ),
            items.len() == i,
            forall|j: int|
                0 <= j < i ==> plugin_shown(
                    *registry,
                    *context,
                    entries[j],
                    json_tree(#[trigger] items@[j]),
                ),
        decreases infos.len() - i,
    {
        let info = &infos[i];
        let bus: Vec<BusInfo> = match registry.bus(info.manifest.id.as_str(), context.drivers) {
            Ok(bus) => bus,
            Err(_) => Vec::new(),
        };
        let ghost connections = connections_of(
            registry.subjects,
            *context.drivers,
            info.manifest@.id,
        );
        assert(views(bus@) =~= connections);
        let item = plugin_entry_json(info, &bus);
        assert(plugin_shown(*registry, *context, entries[i as int], json_tree(item)));
        items.push(item);
        i = i + 1;
    }
    let ghost shown = json_trees(items@);
    assert forall|j: int| 0 <= j < shown.len() implies plugin_shown(
        *registry,
        *context,
        entries[j],
        #[trigger] shown[j],
    ) by {
        assert(shown[j] == json_tree(items@[j]));
    }
    let mut members = map_new();
    map_insert(&mut members, "pluginsDir", json_string(registry.plugins_dir()));
    map_insert(&mut members, "plugins", json_array(items));
    let value = json_object(members);
    assert(json_tree(value) == plugins_tree(registry.plugins_dir@, shown));
    Ok(value)
}

/// The answer that lists the connections of a plugin.
pub open spec fn connections_answer<
    St: Storage,
    G: GrantStorage,
    C: ConfigStorage,
    P: ProcessControl,
    D: Drivers,
>(
    subjects: SubjectRegistry<Manifest, St, G, C, P>,
    drivers: D,
    id: Seq<char>,
) -> Result<JsonTree, Seq<char>> {
    if subjects.has(id) {
        Ok(
            single(
                "bus"@,
                connections_tree(bus_infos(subjects.grants, drivers, subjects.subject(id))),
            ),
        )
    } else {
        Err(RegistryErrorView::UnknownPlugin(id).text())
    }
}

/// What approving a connection or not does and is answered: all connections of the
/// plugin as they are then.
pub open spec fn connection_judged<
    St: Storage,
    G: GrantStorage,
    C: ConfigStorage,
    P: ProcessControl,
    D: Drivers,
>(
    before: SubjectRegistry<Manifest, St, G, C, P>,
    drivers: D,
    id: Seq<char>,
    driver: Seq<char>,
    granted: bool,
    after: SubjectRegistry<Manifest, St, G, C, P>,
    r: Result<JsonTree, Seq<char>>,
) -> bool {
    exists|said: Result<GrantState, RegistryErrorView>| #[trigger]
        bus_grant_set(before, id, driver, granted, after, said) && r == match said {
            Ok(_) => connections_answer(after, drivers, id),
            Err(e) => Err(e.text()),
        }
}

/// What a request to approve a connection or not does and is answered.
pub open spec fn bus_grant_reply<
    St: Storage,
    G: GrantStorage,
    C: ConfigStorage,
    P: ProcessControl,
    D: Drivers,
>(
    before: SubjectRegistry<Manifest, St, G, C, P>,
    drivers: D,
    params: JsonTree,
    after: SubjectRegistry<Manifest, St, G, C, P>,
    r: Result<JsonTree, Seq<char>>,
) -> bool {
    match approving(params, "plugin"@, "driver"@) {
        Err(e) => after == before && r == Err::<JsonTree, _>(e),
        Ok((id, driver, granted)) => connection_judged(
            before,
            drivers,
            id,
            driver,
            granted,
            after,
            r,
        ),
    }
}

/// Approves a connection or not on request.
pub fn set_bus_grant<
    St: Storage,
    G: GrantStorage,
    C: ConfigStorage,
    P: ProcessControl,
    D: DriverDirectory,
>(registry: &mut Registry<St, G, C, P>, drivers: &D, params: &serde_json::Value) -> (r: Result<
    serde_json::Value,
    String,
>)
    ensures
        final(registry).same_threads(*old(registry)),
        bus_grant_reply(
            old(registry).subjects,
            *drivers,
            json_tree(*params),
            final(registry).subjects,
            replied(r),
        ),
{
    let (id, driver, granted) = match approving_params(params, "plugin", "driver") {
        Ok(asked) => asked,
        Err(e) => {
            return Err(e);
        },
    };
    let said = registry.set_bus_grant(id, driver, granted);
    let ghost seen = answer(said);
    let reply = match said {
        Ok(_) => match registry.bus(id, drivers) {
            Ok(bus) => Ok(bus_result_json(&bus)),
            Err(e) => Err(e.message()),
        },
        Err(e) => Err(e.message()),
    };
    assert(bus_grant_set(
        old(registry).subjects,
        id@,
        driver@,
        granted,
        registry.subjects,
        seen,
    ));
    assert(connection_judged(
        old(registry).subjects,
        *drivers,
        id@,
        driver@,
        granted,
        registry.subjects,
        replied(reply),
    ));
    reply
}

/// The answer that lists the widgets of a plugin, or says what went wrong.
pub open spec fn widgets_answer(said: Result<Seq<DashboardInfoView>, RegistryErrorView>) -> Result<
    JsonTree,
    Seq<char>,
> {
    match said {
        Ok(infos) => Ok(single("dashboard"@, widgets_tree(infos))),
        Err(e) => Err(e.text()),
    }
}

/// What approving a widget or not does and is answered.
pub open spec fn widget_judged<St: Storage, G: GrantStorage, C: ConfigStorage, P: ProcessControl>(
    before: SubjectRegistry<Manifest, St, G, C, P>,
    files: WidgetFiles,
    id: Seq<char>,
    widget: Seq<char>,
    granted: bool,
    after: SubjectRegistry<Manifest, St, G, C, P>,
    r: Result<JsonTree, Seq<char>>,
) -> bool {
    exists|said: Result<Seq<DashboardInfoView>, RegistryErrorView>| #[trigger]
        dashboard_grant_set(before, id, widget, granted, files, after, said) && r
            == widgets_answer(said)
}

/// What a request to approve a widget or not does and is answered.
pub open spec fn dashboard_grant_reply<
    St: Storage,
    G: GrantStorage,
    C: ConfigStorage,
    P: ProcessControl,
>(
    before: SubjectRegistry<Manifest, St, G, C, P>,
    files: WidgetFiles,
    params: JsonTree,
    after: SubjectRegistry<Manifest, St, G, C, P>,
    r: Result<JsonTree, Seq<char>>,
) -> bool {
    match approving(params, "plugin"@, "widget"@) {
        Err(e) => after == before && r == Err::<JsonTree, _>(e),
        Ok((id, widget, granted)) => widget_judged(before, files, id, widget, granted, after, r),
    }
}

/// Approves a widget or not on request.
pub fn set_dashboard_grant<St: Storage, G: GrantStorage, C: ConfigStorage, P: ProcessControl>(
    registry: &mut Registry<St, G, C, P>,
    files: &WidgetFiles,
    params: &serde_json::Value,
) -> (r: Result<serde_json::Value, String>)
    ensures
        final(registry).same_threads(*old(registry)),
        dashboard_grant_reply(
            old(registry).subjects,
            *files,
            json_tree(*params),
            final(registry).subjects,
            replied(r),
        ),
{
    let (id, widget, granted) = match approving_params(params, "plugin", "widget") {
        Ok(asked) => asked,
        Err(e) => {
            return Err(e);
        },
    };
    let said = registry.set_dashboard_grant(id, widget, granted, files);
    let ghost seen = outcome(said);
    let reply = match said {
        Ok(dashboard) => Ok(dashboard_result_json(&dashboard)),
        Err(e) => Err(e.message()),
    };
    assert(dashboard_grant_set(
        old(registry).subjects,
        id@,
        widget@,
        granted,
        *files,
        registry.subjects,
        seen,
    ));
    assert(widget_judged(
        old(registry).subjects,
        *files,
        id@,
        widget@,
        granted,
        registry.subjects,
        replied(reply),
    ));
    reply
}

/// What a widget's action is answered.
pub open spec fn action_answer(said: Result<(), RegistryErrorView>) -> Result<JsonTree, Seq<char>> {
    match said {
        Ok(_) => Ok(JsonTree::Object(no_members())),
        Err(e) => Err(e.text()),
    }
}

/// What a widget's action does to the plugin's queue, and is answered.
pub open spec fn widget_acted<
    St: Storage,
    G: GrantStorage,
    C: ConfigStorage,
    P: ProcessControl,
    Q: WorkPolicy<PluginWork>,
>(
    subjects: SubjectRegistry<Manifest, St, G, C, P>,
    plugin: Seq<char>,
    widget: Seq<char>,
    name: Seq<char>,
    before: SharedState<PluginWork, Q>,
    after: SharedState<PluginWork, Q>,
    r: Result<JsonTree, Seq<char>>,
) -> bool {
    exists|said: Result<(), RegistryErrorView>| #[trigger]
        acted(subjects, plugin, widget, name, before, after, said) && r == action_answer(said)
}

/// Whose widget acts, which one, and how.
pub open spec fn acting(params: JsonTree) -> Result<(Seq<char>, Seq<char>, Seq<char>), Seq<char>> {
    match named(params, "plugin"@, "widget"@) {
        Err(e) => Err(e),
        Ok((plugin, widget)) => match text_param(params, "name"@) {
            Err(e) => Err(e),
            Ok(name) => Ok((plugin, widget, name)),
        },
    }
}

/// What a widget's action does to the queue of its plugin, and is answered.
pub open spec fn action_reply<
    St: Storage,
    G: GrantStorage,
    C: ConfigStorage,
    P: ProcessControl,
    Q: WorkPolicy<PluginWork>,
>(
    subjects: SubjectRegistry<Manifest, St, G, C, P>,
    params: JsonTree,
    before: SharedState<PluginWork, Q>,
    after: SharedState<PluginWork, Q>,
    r: Result<JsonTree, Seq<char>>,
) -> bool {
    match acting(params) {
        Err(e) => after == before && r == Err::<JsonTree, _>(e),
        Ok((plugin, widget, name)) => widget_acted(
            subjects,
            plugin,
            widget,
            name,
            before,
            after,
            r,
        ),
    }
}

/// What a widget's action is answered if its plugin has no thread.
pub open spec fn idle_action_reply<
    St: Storage,
    G: GrantStorage,
    C: ConfigStorage,
    P: ProcessControl,
>(subjects: SubjectRegistry<Manifest, St, G, C, P>, params: JsonTree) -> Result<
    JsonTree,
    Seq<char>,
> {
    match acting(params) {
        Err(e) => Err(e),
        Ok((plugin, widget, _)) => match widget_leave(subjects, plugin, widget) {
            Err(e) => Err(e.text()),
            Ok(_) => Err(RegistryErrorView::PluginNotRunning(plugin).text()),
        },
    }
}

/// Sends a widget's action to its plugin, whose queue is given if it has a thread.
pub fn dashboard_action<
    St: Storage,
    G: GrantStorage,
    C: ConfigStorage,
    P: ProcessControl,
    Q: WorkPolicy<PluginWork>,
>(
    registry: &Registry<St, G, C, P>,
    queue: Option<&mut SharedState<PluginWork, Q>>,
    params: &serde_json::Value,
) -> (r: Result<serde_json::Value, String>)
    ensures
        queue matches Some(queue) ==> action_reply(
            registry.subjects,
            json_tree(*params),
            *queue,
            *final(queue),
            replied(r),
        ),
        queue is None ==> replied(r) == idle_action_reply(registry.subjects, json_tree(*params)),
{
    let (plugin, widget) = match named_params(params, "plugin", "widget") {
        Ok(pair) => pair,
        Err(e) => {
            return Err(e);
        },
    };
    let name = match param_str(params, "name") {
        Ok(name) => name,
        Err(e) => {
            return Err(e);
        },
    };
    match queue {
        Some(queue) => {
            let ghost before = *queue;
            let said = registry.dashboard_action(plugin, widget, name, Some(&mut *queue));
            let ghost seen = answer(said);
            let reply = match said {
                Ok(_) => Ok(json_object(map_new())),
                Err(e) => Err(e.message()),
            };
            assert(acted(
                registry.subjects,
                plugin@,
                widget@,
                name@,
                before,
                *queue,
                seen,
            ));
            assert(widget_acted(
                registry.subjects,
                plugin@,
                widget@,
                name@,
                before,
                *queue,
                replied(reply),
            ));
            reply
        },
        None => {
            match registry.dashboard_action::<Q>(plugin, widget, name, None) {
                Ok(_) => Ok(json_object(map_new())),
                Err(e) => Err(e.message()),
            }
        },
    }
}

/// The widgets that are approved.
pub open spec fn approved(widgets: Seq<PluginWidgetView>) -> Seq<PluginWidgetView>
    decreases widgets.len(),
{
    if widgets.len() == 0 {
        seq![]
    } else {
        let before = approved(widgets.drop_last());
        if widgets.last().info.grant.granted {
            before.push(widgets.last())
        } else {
            before
        }
    }
}

/// The events that an id asked for: none if it is not registered.
pub open spec fn events_asked<St: Storage, G: GrantStorage, C: ConfigStorage, P: ProcessControl>(
    subjects: SubjectRegistry<Manifest, St, G, C, P>,
    id: Seq<char>,
) -> Seq<Seq<char>> {
    if subjects.has(id) {
        subjects.subject(id).events
    } else {
        seq![]
    }
}

/// Whether a list shows a widget as it is. Its address ends in the name of its
/// entry.
pub open spec fn widget_shown<St: Storage, G: GrantStorage, C: ConfigStorage, P: ProcessControl>(
    subjects: SubjectRegistry<Manifest, St, G, C, P>,
    widget: PluginWidgetView,
    tree: JsonTree,
) -> bool {
    exists|parts: Seq<PathPartView>|
        {
            &&& #[trigger] may_split(widget.info.request.entry, parts)
            &&& tree == widget_entry_tree(
                widget,
                events_asked(subjects, widget.plugin),
                served_name(parts),
            )
        }
}

/// The answer that lists widgets.
pub open spec fn widget_list_tree(widgets: Seq<JsonTree>) -> JsonTree {
    single("widgets"@, JsonTree::Array(widgets))
}

/// Whether an answer lists all approved widgets as they are, in order, and no
/// others.
pub open spec fn widgets_listed<St: Storage, G: GrantStorage, C: ConfigStorage, P: ProcessControl>(
    subjects: SubjectRegistry<Manifest, St, G, C, P>,
    files: WidgetFiles,
    r: Result<JsonTree, Seq<char>>,
) -> bool {
    let widgets = approved(all_widgets(subjects.grants, files, subjects.table.entries@));
    exists|shown: Seq<JsonTree>|
        {
            &&& shown.len() == widgets.len()
            &&& forall|i: int|
                0 <= i < shown.len() ==> widget_shown(subjects, widgets[i], #[trigger] shown[i])
            &&& r == Ok::<_, Seq<char>>(#[trigger] widget_list_tree(shown))
        }
}

/// Lists the approved widgets of all plugins.
pub fn dashboard_list<St: Storage, G: GrantStorage, C: ConfigStorage, P: ProcessControl>(
    registry: &Registry<St, G, C, P>,
    files: &WidgetFiles,
) -> (r: Result<serde_json::Value, String>)
    ensures
        widgets_listed(registry.subjects, *files, replied(r)),
{
    let widgets = registry.dashboard_widgets_for_ui(files);
    let ghost all = views(widgets@);
    let mut items: Vec<serde_json::Value> = Vec::new();
    let mut i: usize = 0;
    assert(approved(all.take(0)) =~= seq![]);
    while i < widgets.len()
        invariant
            i <= widgets.len(),
            all == views(widgets@),
            items.len() == approved(all.take(i as int)).len(),
            forall|j: int|
                0 <= j < items.len() ==> widget_shown(
                    registry.subjects,
                    approved(all.take(i as int))[j],
                    json_tree(#[trigger] items@[j]),
                ),
        decreases widgets.len() - i,
    {
        let widget = &widgets[i];
        let ghost before = approved(all.take(i as int));
        let ghost taken = all.take(i + 1);
        proof {
            assert(taken.drop_last() =~= all.take(i as int));
            assert(taken.last() == widget@);
        }
        if widget.info.grant.granted {
            let file = entry_file(widget.info.request.entry.as_str());
            let events: Vec<String> = match registry.events_of(widget.plugin.as_str()) {
                Ok(events) => events,
                Err(_) => Vec::new(),
            };
            assert(views(events@) =~= events_asked(registry.subjects, widget.plugin@));
            let item = widget_entry_json(widget, &events, file.as_str());
            assert(widget_shown(registry.subjects, widget@, json_tree(item))) by {
                let entry = widget.info.request.entry@;
                let parts = choose|parts: Seq<PathPartView>| #[trigger]
                    may_split(entry, parts) && file@ == served_name(parts);
                assert(may_split(widget@.info.request.entry, parts));
            }
            let ghost shown = items@;
            items.push(item);
            assert forall|j: int| 0 <= j < items.len() implies widget_shown(
                registry.subjects,
                approved(taken)[j],
                json_tree(#[trigger] items@[j]),
            ) by {
                if j < shown.len() {
                    assert(items@[j] == shown[j]);
                }
            }
        }
        i = i + 1;
    }
    assert(all.take(widgets.len() as int) =~= all);
    let ghost shown = json_trees(items@);
    assert forall|j: int| 0 <= j < shown.len() implies widget_shown(
        registry.subjects,
        approved(all)[j],
        #[trigger] shown[j],
    ) by {
        assert(shown[j] == json_tree(items@[j]));
    }
    let value = single_json("widgets", json_array(items));
    assert(json_tree(value) == widget_list_tree(shown));
    Ok(value)
}

/// Only approved widgets are listed.
pub proof fn law_unapproved_widgets_are_not_listed(widgets: Seq<PluginWidgetView>, i: int)
    requires
        0 <= i < approved(widgets).len(),
    ensures
        approved(widgets)[i].info.grant.granted,
        widgets.contains(approved(widgets)[i]),
    decreases widgets.len(),
{
    let before = approved(widgets.drop_last());
    if i < before.len() {
        law_unapproved_widgets_are_not_listed(widgets.drop_last(), i);
        let j = choose|j: int|
            0 <= j < widgets.drop_last().len() && widgets.drop_last()[j] == before[i];
        assert(widgets[j] == approved(widgets)[i]);
    } else {
        assert(widgets[widgets.len() - 1] == approved(widgets)[i]);
    }
}

/// What a request for the settings of a plugin is answered: all but its secrets.
pub open spec fn settings_reply<St: Storage, G: GrantStorage, C: ConfigStorage, P: ProcessControl>(
    subjects: SubjectRegistry<Manifest, St, G, C, P>,
    params: JsonTree,
) -> Result<JsonTree, Seq<char>> {
    match text_param(params, "plugin"@) {
        Err(e) => Err(e),
        Ok(id) => if subjects.has(id) {
            Ok(
                JsonTree::Object(
                    without_secrets(
                        subjects.subject(id).settings,
                        subjects.settings.in_effect(subjects.subject(id)),
                    ),
                ),
            )
        } else {
            Err(RegistryErrorView::UnknownPlugin(id).text())
        },
    }
}

/// Shows the settings of a plugin.
pub fn get_settings<St: Storage, G: GrantStorage, C: ConfigStorage, P: ProcessControl>(
    registry: &Registry<St, G, C, P>,
    params: &serde_json::Value,
) -> (r: Result<serde_json::Value, String>)
    ensures
        replied(r) == settings_reply(registry.subjects, json_tree(*params)),
{
    match param_str(params, "plugin") {
        Ok(id) => match registry.values(id) {
            Ok(values) => Ok(json_object(values)),
            Err(e) => Err(e.message()),
        },
        Err(e) => Err(e),
    }
}

/// The answer with settings, or what went wrong.
pub open spec fn values_answer(said: Result<Map<Seq<char>, JsonTree>, RegistryErrorView>) -> Result<
    JsonTree,
    Seq<char>,
> {
    match said {
        Ok(values) => Ok(JsonTree::Object(values)),
        Err(e) => Err(e.text()),
    }
}

/// What storing settings of a plugin does and is answered.
pub open spec fn values_changed<St: Storage, G: GrantStorage, C: ConfigStorage, P: ProcessControl>(
    before: SubjectRegistry<Manifest, St, G, C, P>,
    id: Seq<char>,
    values: Map<Seq<char>, JsonTree>,
    after: SubjectRegistry<Manifest, St, G, C, P>,
    r: Result<JsonTree, Seq<char>>,
) -> bool {
    exists|said: Result<Map<Seq<char>, JsonTree>, RegistryErrorView>| #[trigger]
        values_set(before, id, values, after, said) && r == values_answer(said)
}

/// Whose settings are to be stored, and which.
pub open spec fn storing(params: JsonTree, owner: Seq<char>) -> Result<
    (Seq<char>, Map<Seq<char>, JsonTree>),
    Seq<char>,
> {
    match text_param(params, owner) {
        Err(e) => Err(e),
        Ok(id) => match object_param(params, "values"@) {
            Err(e) => Err(e),
            Ok(values) => Ok((id, values)),
        },
    }
}

/// What a request to store settings of a plugin does and is answered.
pub open spec fn set_settings_reply<
    St: Storage,
    G: GrantStorage,
    C: ConfigStorage,
    P: ProcessControl,
>(
    before: SubjectRegistry<Manifest, St, G, C, P>,
    params: JsonTree,
    after: SubjectRegistry<Manifest, St, G, C, P>,
    r: Result<JsonTree, Seq<char>>,
) -> bool {
    match storing(params, "plugin"@) {
        Err(e) => after == before && r == Err::<JsonTree, _>(e),
        Ok((id, values)) => values_changed(before, id, values, after, r),
    }
}

/// Stores settings of a plugin on request.
pub fn set_settings<St: Storage, G: GrantStorage, C: ConfigStorage, P: ProcessControl>(
    registry: &mut Registry<St, G, C, P>,
    params: &serde_json::Value,
) -> (r: Result<serde_json::Value, String>)
    ensures
        final(registry).same_threads(*old(registry)),
        set_settings_reply(
            old(registry).subjects,
            json_tree(*params),
            final(registry).subjects,
            replied(r),
        ),
{
    let id = match param_str(params, "plugin") {
        Ok(id) => id,
        Err(e) => {
            return Err(e);
        },
    };
    let values = match param_object(params, "values") {
        Ok(values) => values,
        Err(e) => {
            return Err(e);
        },
    };
    let said = registry.set_values(id, values);
    let ghost seen = values_outcome(said);
    let reply = match said {
        Ok(updated) => Ok(json_object(updated)),
        Err(e) => Err(e.message()),
    };
    assert(values_set(
        old(registry).subjects,
        id@,
        json_members(*values),
        registry.subjects,
        seen,
    ));
    assert(values_changed(
        old(registry).subjects,
        id@,
        json_members(*values),
        registry.subjects,
        replied(reply),
    ));
    reply
}

/// What a request for the capabilities of a plugin is answered.
pub open spec fn capabilities_reply<
    St: Storage,
    G: GrantStorage,
    C: ConfigStorage,
    P: ProcessControl,
>(subjects: SubjectRegistry<Manifest, St, G, C, P>, params: JsonTree) -> Result<
    JsonTree,
    Seq<char>,
> {
    match text_param(params, "plugin"@) {
        Err(e) => Err(e),
        Ok(id) => capabilities_answer(
            subjects,
            id,
            subjects.grants.approval(subjects.subject(id), capabilities()),
        ),
    }
}

/// The answer with the capabilities that a plugin or driver asked for.
pub open spec fn capabilities_answer<
    M: RegistrySubject,
    St: Storage,
    G: GrantStorage,
    C: ConfigStorage,
    P: ProcessControl,
>(subjects: SubjectRegistry<M, St, G, C, P>, id: Seq<char>, state: GrantState) -> Result<
    JsonTree,
    Seq<char>,
> {
    if subjects.has(id) {
        Ok(capabilities_tree(subjects.subject(id).capabilities, state))
    } else {
        Err(M::unknown(id).text())
    }
}

/// Shows the capabilities of a plugin.
pub fn get_capabilities<St: Storage, G: GrantStorage, C: ConfigStorage, P: ProcessControl>(
    registry: &Registry<St, G, C, P>,
    params: &serde_json::Value,
) -> (r: Result<serde_json::Value, String>)
    ensures
        replied(r) == capabilities_reply(registry.subjects, json_tree(*params)),
{
    match param_str(params, "plugin") {
        Ok(id) => match registry.capabilities(id) {
            Ok((requests, state)) => Ok(capabilities_result_json(&requests, &state)),
            Err(e) => Err(e.message()),
        },
        Err(e) => Err(e),
    }
}

/// What approving capabilities or not does and is answered.
pub open spec fn capabilities_judged<
    M: RegistrySubject,
    St: Storage,
    G: GrantStorage,
    C: ConfigStorage,
    P: ProcessControl,
>(
    before: SubjectRegistry<M, St, G, C, P>,
    id: Seq<char>,
    granted: bool,
    after: SubjectRegistry<M, St, G, C, P>,
    r: Result<JsonTree, Seq<char>>,
) -> bool {
    exists|said: Result<GrantState, RegistryErrorView>| #[trigger]
        capabilities_set(before, id, granted, after, said) && r == match said {
            Ok(state) => capabilities_answer(after, id, state),
            Err(e) => Err(e.text()),
        }
}

/// Whose capabilities are to be approved or not.
pub open spec fn judging(params: JsonTree, owner: Seq<char>) -> Result<
    (Seq<char>, bool),
    Seq<char>,
> {
    match text_param(params, owner) {
        Err(e) => Err(e),
        Ok(id) => match truth_param(params, "granted"@) {
            Err(e) => Err(e),
            Ok(granted) => Ok((id, granted)),
        },
    }
}

/// What a request to approve capabilities or not does and is answered.
pub open spec fn set_capabilities_reply<
    M: RegistrySubject,
    St: Storage,
    G: GrantStorage,
    C: ConfigStorage,
    P: ProcessControl,
>(
    before: SubjectRegistry<M, St, G, C, P>,
    owner: Seq<char>,
    params: JsonTree,
    after: SubjectRegistry<M, St, G, C, P>,
    r: Result<JsonTree, Seq<char>>,
) -> bool {
    match judging(params, owner) {
        Err(e) => after == before && r == Err::<JsonTree, _>(e),
        Ok((id, granted)) => capabilities_judged(before, id, granted, after, r),
    }
}

/// Approves the capabilities of a plugin or not on request.
pub fn set_capabilities<St: Storage, G: GrantStorage, C: ConfigStorage, P: ProcessControl>(
    registry: &mut Registry<St, G, C, P>,
    params: &serde_json::Value,
) -> (r: Result<serde_json::Value, String>)
    ensures
        final(registry).same_threads(*old(registry)),
        set_capabilities_reply(
            old(registry).subjects,
            "plugin"@,
            json_tree(*params),
            final(registry).subjects,
            replied(r),
        ),
{
    let id = match param_str(params, "plugin") {
        Ok(id) => id,
        Err(e) => {
            return Err(e);
        },
    };
    let granted = match param_bool(params, "granted") {
        Ok(granted) => granted,
        Err(e) => {
            return Err(e);
        },
    };
    let said = registry.set_capabilities(id, granted);
    let ghost seen = answer(said);
    let reply = match said {
        Ok(state) => match registry.capabilities(id) {
            Ok((requests, _)) => Ok(capabilities_result_json(&requests, &state)),
            Err(e) => Err(e.message()),
        },
        Err(e) => Err(e.message()),
    };
    assert(capabilities_set(old(registry).subjects, id@, granted, registry.subjects, seen));
    assert(capabilities_judged(
        old(registry).subjects,
        id@,
        granted,
        registry.subjects,
        replied(reply),
    ));
    reply
}

/// Whether this is the answer that shows the sidecars of a plugin.
pub open spec fn sidecars_answered<
    St: Storage,
    G: GrantStorage,
    C: ConfigStorage,
    P: ProcessControl,
>(
    subjects: SubjectRegistry<Manifest, St, G, C, P>,
    id: Seq<char>,
    r: Result<JsonTree, Seq<char>>,
) -> bool {
    exists|said: Result<Seq<SidecarInfoView>, RegistryErrorView>| #[trigger]
        sidecars_shown(subjects, id, said) && r == sidecars_answer(said)
}

/// What a request for the sidecars of a plugin is answered.
pub open spec fn sidecars_reply<St: Storage, G: GrantStorage, C: ConfigStorage, P: ProcessControl>(
    subjects: SubjectRegistry<Manifest, St, G, C, P>,
    params: JsonTree,
    r: Result<JsonTree, Seq<char>>,
) -> bool {
    match text_param(params, "plugin"@) {
        Err(e) => r == Err::<JsonTree, _>(e),
        Ok(id) => sidecars_answered(subjects, id, r),
    }
}

/// Shows the sidecars of a plugin.
pub fn get_sidecars<St: Storage, G: GrantStorage, C: ConfigStorage, P: ProcessControl>(
    registry: &Registry<St, G, C, P>,
    params: &serde_json::Value,
) -> (r: Result<serde_json::Value, String>)
    ensures
        sidecars_reply(registry.subjects, json_tree(*params), replied(r)),
{
    match param_str(params, "plugin") {
        Ok(id) => {
            let said = registry.sidecars(id);
            assert(sidecars_shown(registry.subjects, id@, outcome(said)));
            sidecars_result(said)
        },
        Err(e) => Err(e),
    }
}

/// What a request for the filesystem roots of a plugin is answered.
pub open spec fn roots_reply<St: Storage, G: GrantStorage, C: ConfigStorage, P: ProcessControl>(
    subjects: SubjectRegistry<Manifest, St, G, C, P>,
    params: JsonTree,
) -> Result<JsonTree, Seq<char>> {
    match text_param(params, "plugin"@) {
        Err(e) => Err(e),
        Ok(id) => roots_answer(
            if subjects.has(id) {
                Ok(filesystem_infos(subjects.grants, subjects.configs, subjects.subject(id)))
            } else {
                Err(RegistryErrorView::UnknownPlugin(id))
            },
        ),
    }
}

/// Shows the filesystem roots of a plugin.
pub fn get_filesystem<St: Storage, G: GrantStorage, C: ConfigStorage, P: ProcessControl>(
    registry: &Registry<St, G, C, P>,
    params: &serde_json::Value,
) -> (r: Result<serde_json::Value, String>)
    ensures
        replied(r) == roots_reply(registry.subjects, json_tree(*params)),
{
    match param_str(params, "plugin") {
        Ok(id) => roots_result(registry.filesystem(id)),
        Err(e) => Err(e),
    }
}

/// A list of plugins holds no secret: under `values` stand settings that are none.
pub proof fn law_lists_hold_no_secret(
    info: PluginInfo,
    bus: Seq<BusInfoView>,
    nexts: Seq<Option<Seq<char>>>,
    effective: Map<Seq<char>, JsonTree>,
    i: int,
)
    requires
        json_members(info.values) == without_secrets(info.manifest@.settings, effective),
        0 <= i < info.manifest@.settings.len(),
        info.manifest@.settings[i] is Secret,
    ensures
        crate::json::member(plugin_tree(info, bus, nexts), "values"@) matches Some(
            JsonTree::Object(values),
        ) && !values.dom().contains(info.manifest@.settings[i]->Secret_key),
{
    reveal_strlit("values");
    reveal_strlit("capabilities");
    reveal_strlit("layout");
    reveal_strlit("sidecars");
    reveal_strlit("filesystem");
    reveal_strlit("bus");
    reveal_strlit("dashboard");
    reveal_strlit("schedules");
    reveal_strlit("dropped");
    reveal_strlit("secretsSet");
    reveal_strlit("state");
    reveal_strlit("reason");
    assert("values"@.len() == 6 && "values"@[0] == 'v');
    assert("layout"@[0] == 'l' && "reason"@[0] == 'r');
    crate::registry::plugin::law_secrets_are_not_shown(info.manifest@, effective, i);
}

/// A request to approve a connection or not is turned down, and changes nothing, if it
/// lacks its plugin, its driver or the approval. Else it is carried out for these, and
/// answered with all connections or with what went wrong.
pub proof fn law_a_request_to_approve_a_connection_is_carried_out<
    St: Storage,
    G: GrantStorage,
    C: ConfigStorage,
    P: ProcessControl,
    D: Drivers,
>(
    before: SubjectRegistry<Manifest, St, G, C, P>,
    drivers: D,
    members: Map<Seq<char>, JsonTree>,
    after: SubjectRegistry<Manifest, St, G, C, P>,
    r: Result<JsonTree, Seq<char>>,
) -> (said: Result<GrantState, RegistryErrorView>)
    requires
        bus_grant_reply(before, drivers, JsonTree::Object(members), after, r),
    ensures
        !(members.dom().contains("plugin"@) && members["plugin"@] is Text) ==> after == before && r == Err::<JsonTree, _>(
            "params."@ + "plugin"@ + " must be a string"@,
        ),
        members.dom().contains("plugin"@) && members["plugin"@] is Text && !(members.dom().contains("driver"@) && members["driver"@] is Text) ==> after == before && r == Err::<JsonTree, _>(
            "params."@ + "driver"@ + " must be a string"@,
        ),
        members.dom().contains("plugin"@) && members["plugin"@] is Text && members.dom().contains("driver"@) && members["driver"@] is Text && !(members.dom().contains("granted"@) && members["granted"@] is Bool) ==> after == before && r == Err::<JsonTree, _>(
            "params."@ + "granted"@ + " must be a bool"@,
        ),
        members.dom().contains("plugin"@) && members["plugin"@] is Text && members.dom().contains("driver"@) && members["driver"@] is Text && members.dom().contains("granted"@) && members["granted"@] is Bool ==> bus_grant_set(before, members["plugin"@]->Text_0, members["driver"@]->Text_0, members["granted"@]->Bool_0, after, said) && match said {
            Ok(_) => if after.has(members["plugin"@]->Text_0) {
                r == Ok::<_, Seq<char>>(
                    single(
                        "bus"@,
                        connections_tree(bus_infos(after.grants, drivers, after.subject(members["plugin"@]->Text_0))),
                    ),
                )
            } else {
                r == Err::<JsonTree, _>("unknown plugin: "@ + members["plugin"@]->Text_0)
            },
            Err(e) => r == Err::<JsonTree, _>(e.text()),
        },
{
    choose|said: Result<GrantState, RegistryErrorView>| #[trigger]
        bus_grant_set(before, members["plugin"@]->Text_0, members["driver"@]->Text_0, members["granted"@]->Bool_0, after, said) && match said {
            Ok(_) => if after.has(members["plugin"@]->Text_0) {
                r == Ok::<_, Seq<char>>(
                    single(
                        "bus"@,
                        connections_tree(bus_infos(after.grants, drivers, after.subject(members["plugin"@]->Text_0))),
                    ),
                )
            } else {
                r == Err::<JsonTree, _>("unknown plugin: "@ + members["plugin"@]->Text_0)
            },
            Err(e) => r == Err::<JsonTree, _>(e.text()),
        }
}

/// A request to approve a widget or not is turned down, and changes nothing, if it lacks
/// its plugin, its name or the approval. Else it is carried out for these, and answered
/// with all widgets or with what went wrong.
pub proof fn law_a_request_to_approve_a_widget_is_carried_out<
    St: Storage,
    G: GrantStorage,
    C: ConfigStorage,
    P: ProcessControl,
>(
    before: SubjectRegistry<Manifest, St, G, C, P>,
    files: WidgetFiles,
    members: Map<Seq<char>, JsonTree>,
    after: SubjectRegistry<Manifest, St, G, C, P>,
    r: Result<JsonTree, Seq<char>>,
) -> (said: Result<Seq<DashboardInfoView>, RegistryErrorView>)
    requires
        dashboard_grant_reply(before, files, JsonTree::Object(members), after, r),
    ensures
        !(members.dom().contains("plugin"@) && members["plugin"@] is Text) ==> after == before && r == Err::<JsonTree, _>(
            "params."@ + "plugin"@ + " must be a string"@,
        ),
        members.dom().contains("plugin"@) && members["plugin"@] is Text && !(members.dom().contains("widget"@) && members["widget"@] is Text) ==> after == before && r == Err::<JsonTree, _>(
            "params."@ + "widget"@ + " must be a string"@,
        ),
        members.dom().contains("plugin"@) && members["plugin"@] is Text && members.dom().contains("widget"@) && members["widget"@] is Text && !(members.dom().contains("granted"@) && members["granted"@] is Bool) ==> after == before && r == Err::<JsonTree, _>(
            "params."@ + "granted"@ + " must be a bool"@,
        ),
        members.dom().contains("plugin"@) && members["plugin"@] is Text && members.dom().contains("widget"@) && members["widget"@] is Text && members.dom().contains("granted"@) && members["granted"@] is Bool ==> dashboard_grant_set(before, members["plugin"@]->Text_0, members["widget"@]->Text_0, members["granted"@]->Bool_0, files, after, said) && match said {
            Ok(infos) => r == Ok::<_, Seq<char>>(single("dashboard"@, widgets_tree(infos))),
            Err(e) => r == Err::<JsonTree, _>(e.text()),
        },
{
    choose|said: Result<Seq<DashboardInfoView>, RegistryErrorView>| #[trigger]
        dashboard_grant_set(before, members["plugin"@]->Text_0, members["widget"@]->Text_0, members["granted"@]->Bool_0, files, after, said) && match said {
            Ok(infos) => r == Ok::<_, Seq<char>>(single("dashboard"@, widgets_tree(infos))),
            Err(e) => r == Err::<JsonTree, _>(e.text()),
        }
}

/// A request to approve capabilities or not is turned down, and changes nothing, if it
/// lacks its owner or the approval. Else it is carried out for these, and answered with the
/// capabilities as they are then or with what went wrong.
pub proof fn law_a_request_to_approve_capabilities_is_carried_out<
    M: RegistrySubject,
    St: Storage,
    G: GrantStorage,
    C: ConfigStorage,
    P: ProcessControl,
>(
    before: SubjectRegistry<M, St, G, C, P>,
    owner: Seq<char>,
    members: Map<Seq<char>, JsonTree>,
    after: SubjectRegistry<M, St, G, C, P>,
    r: Result<JsonTree, Seq<char>>,
) -> (said: Result<GrantState, RegistryErrorView>)
    requires
        set_capabilities_reply(before, owner, JsonTree::Object(members), after, r),
    ensures
        !(members.dom().contains(owner) && members[owner] is Text) ==> after == before && r == Err::<JsonTree, _>(
            "params."@ + owner + " must be a string"@,
        ),
        members.dom().contains(owner) && members[owner] is Text && !(members.dom().contains("granted"@) && members["granted"@] is Bool) ==> after == before && r == Err::<JsonTree, _>(
            "params."@ + "granted"@ + " must be a bool"@,
        ),
        members.dom().contains(owner) && members[owner] is Text && members.dom().contains("granted"@) && members["granted"@] is Bool ==> capabilities_set(before, members[owner]->Text_0, members["granted"@]->Bool_0, after, said) && match said {
            Ok(state) => if after.has(members[owner]->Text_0) {
                r == Ok::<_, Seq<char>>(
                    capabilities_tree(after.subject(members[owner]->Text_0).capabilities, state),
                )
            } else {
                r == Err::<JsonTree, _>(M::unknown(members[owner]->Text_0).text())
            },
            Err(e) => r == Err::<JsonTree, _>(e.text()),
        },
{
    choose|said: Result<GrantState, RegistryErrorView>| #[trigger]
        capabilities_set(before, members[owner]->Text_0, members["granted"@]->Bool_0, after, said) && match said {
            Ok(state) => if after.has(members[owner]->Text_0) {
                r == Ok::<_, Seq<char>>(
                    capabilities_tree(after.subject(members[owner]->Text_0).capabilities, state),
                )
            } else {
                r == Err::<JsonTree, _>(M::unknown(members[owner]->Text_0).text())
            },
            Err(e) => r == Err::<JsonTree, _>(e.text()),
        }
}

/// A request to store settings of a plugin is turned down, and changes nothing, if it lacks
/// its plugin or the values. Else it is carried out for these, and answered with what may
/// be shown of the settings or with what went wrong.
pub proof fn law_a_request_to_store_settings_is_carried_out<
    St: Storage,
    G: GrantStorage,
    C: ConfigStorage,
    P: ProcessControl,
>(
    before: SubjectRegistry<Manifest, St, G, C, P>,
    members: Map<Seq<char>, JsonTree>,
    after: SubjectRegistry<Manifest, St, G, C, P>,
    r: Result<JsonTree, Seq<char>>,
) -> (said: Result<Map<Seq<char>, JsonTree>, RegistryErrorView>)
    requires
        set_settings_reply(before, JsonTree::Object(members), after, r),
    ensures
        !(members.dom().contains("plugin"@) && members["plugin"@] is Text) ==> after == before && r == Err::<JsonTree, _>(
            "params."@ + "plugin"@ + " must be a string"@,
        ),
        members.dom().contains("plugin"@) && members["plugin"@] is Text && !(members.dom().contains("values"@) && members["values"@] is Object) ==> after == before && r == Err::<JsonTree, _>(
            "params."@ + "values"@ + " must be an object"@,
        ),
        members.dom().contains("plugin"@) && members["plugin"@] is Text && members.dom().contains("values"@) && members["values"@] is Object ==> values_set(before, members["plugin"@]->Text_0, members["values"@]->Object_0, after, said) && match said {
            Ok(values) => r == Ok::<_, Seq<char>>(JsonTree::Object(values)),
            Err(e) => r == Err::<JsonTree, _>(e.text()),
        },
{
    choose|said: Result<Map<Seq<char>, JsonTree>, RegistryErrorView>| #[trigger]
        values_set(before, members["plugin"@]->Text_0, members["values"@]->Object_0, after, said) && match said {
            Ok(values) => r == Ok::<_, Seq<char>>(JsonTree::Object(values)),
            Err(e) => r == Err::<JsonTree, _>(e.text()),
        }
}

/// A request for the settings of a plugin is answered with every value in effect under a key
/// that is no secret's, if the plugin is registered.
pub proof fn law_a_request_for_settings_is_answered_without_secrets<
    St: Storage,
    G: GrantStorage,
    C: ConfigStorage,
    P: ProcessControl,
>(
    subjects: SubjectRegistry<Manifest, St, G, C, P>,
    members: Map<Seq<char>, JsonTree>,
    key: Seq<char>,
)
    ensures
        ({
            let r = settings_reply(subjects, JsonTree::Object(members));
            &&& !(members.dom().contains("plugin"@) && members["plugin"@] is Text) ==> r == Err::<
                JsonTree,
                _,
            >("params."@ + "plugin"@ + " must be a string"@)
            &&& members.dom().contains("plugin"@) ==> (members["plugin"@] matches JsonTree::Text(id)
                ==> {
                let m = subjects.subject(id);
                let secret = exists|i: int| #![trigger m.settings[i]]
                    0 <= i < m.settings.len() && m.settings[i] is Secret && m.settings[i]->Secret_key
                        == key;
                &&& !subjects.has(id) ==> r == Err::<JsonTree, _>("unknown plugin: "@ + id)
                &&& subjects.has(id) ==> (r matches Ok(JsonTree::Object(shown)) && (
                shown.dom().contains(key) <==> subjects.settings.in_effect(m).dom().contains(key)
                    && !secret) && (shown.dom().contains(key) ==> shown[key]
                    == subjects.settings.in_effect(m)[key]))
            })
        }),
{
}

/// A request for the capabilities of a plugin is answered with what it asked for and whether
/// that is approved, if the plugin is registered.
pub proof fn law_a_request_for_capabilities_is_answered<
    St: Storage,
    G: GrantStorage,
    C: ConfigStorage,
    P: ProcessControl,
>(
    subjects: SubjectRegistry<Manifest, St, G, C, P>,
    members: Map<Seq<char>, JsonTree>,
    id: Seq<char>,
)
    requires
        members.dom().contains("plugin"@),
        members["plugin"@] == JsonTree::Text(id),
    ensures
        subjects.has(id) ==> capabilities_reply(subjects, JsonTree::Object(members)) == Ok::<
            _,
            Seq<char>,
        >(
            capabilities_tree(
                subjects.subject(id).capabilities,
                subjects.grants.approval(
                    subjects.subject(id),
                    (GrantTarget { kind: GrantKind::Capabilities, name: seq![] }),
                ),
            ),
        ),
        !subjects.has(id) ==> capabilities_reply(subjects, JsonTree::Object(members)) is Err,
{
}

/// A request for the roots of a plugin is answered with all of them, if it is registered.
pub proof fn law_a_request_for_roots_is_answered<
    St: Storage,
    G: GrantStorage,
    C: ConfigStorage,
    P: ProcessControl,
>(
    subjects: SubjectRegistry<Manifest, St, G, C, P>,
    members: Map<Seq<char>, JsonTree>,
    id: Seq<char>,
)
    requires
        members.dom().contains("plugin"@),
        members["plugin"@] == JsonTree::Text(id),
    ensures
        subjects.has(id) ==> roots_reply(subjects, JsonTree::Object(members)) == Ok::<_, Seq<char>>(
            single(
                "roots"@,
                roots_tree(
                    filesystem_infos(subjects.grants, subjects.configs, subjects.subject(id)),
                ),
            ),
        ),
        !subjects.has(id) ==> roots_reply(subjects, JsonTree::Object(members)) == Err::<
            JsonTree,
            _,
        >("unknown plugin: "@ + id),
{
}

/// A request for the sidecars of a plugin is answered with all of them as they are, if it is
/// registered: the returned ones.
pub proof fn law_a_request_for_sidecars_is_answered<
    St: Storage,
    G: GrantStorage,
    C: ConfigStorage,
    P: ProcessControl,
>(
    subjects: SubjectRegistry<Manifest, St, G, C, P>,
    members: Map<Seq<char>, JsonTree>,
    r: Result<JsonTree, Seq<char>>,
    id: Seq<char>,
) -> (infos: Seq<SidecarInfoView>)
    requires
        sidecars_reply(subjects, JsonTree::Object(members), r),
        members.dom().contains("plugin"@),
        members["plugin"@] == JsonTree::Text(id),
    ensures
        subjects.has(id) ==> r == Ok::<_, Seq<char>>(single("sidecars"@, sidecars_tree(infos)))
            && sidecars_said(
            subjects.grants,
            subjects.configs,
            subjects.processes,
            subjects.subject(id),
            infos,
        ),
        !subjects.has(id) ==> r == Err::<JsonTree, _>("unknown plugin: "@ + id),
{
    let said = choose|said: Result<Seq<SidecarInfoView>, RegistryErrorView>| #[trigger]
        sidecars_shown(subjects, id, said) && r == sidecars_answer(said);
    match said {
        Ok(infos) => infos,
        Err(_) => seq![],
    }
}

/// A further widget is among the approved ones, at their end, just if it is approved.
pub proof fn law_approved_widgets_are_listed_in_order(
    widgets: Seq<PluginWidgetView>,
    widget: PluginWidgetView,
)
    ensures
        approved(seq![]).len() == 0,
        widget.info.grant.granted ==> approved(widgets.push(widget)) == approved(widgets).push(widget),
        !widget.info.grant.granted ==> approved(widgets.push(widget)) == approved(widgets),
{
    assert(widgets.push(widget).drop_last() =~= widgets);
}

/// An action of a widget is turned down, and leaves the queue as it is, if the request lacks
/// the plugin, the widget or the name of the action. Else it is carried out for these, and
/// answered with an empty object or with what went wrong.
pub proof fn law_a_request_to_act_is_carried_out<
    St: Storage,
    G: GrantStorage,
    C: ConfigStorage,
    P: ProcessControl,
    Q: WorkPolicy<PluginWork>,
>(
    subjects: SubjectRegistry<Manifest, St, G, C, P>,
    members: Map<Seq<char>, JsonTree>,
    before: SharedState<PluginWork, Q>,
    after: SharedState<PluginWork, Q>,
    r: Result<JsonTree, Seq<char>>,
) -> (said: Result<(), RegistryErrorView>)
    requires
        action_reply(subjects, JsonTree::Object(members), before, after, r),
    ensures
        ({
            let plugin = members.dom().contains("plugin"@) && members["plugin"@] is Text;
            let widget = members.dom().contains("widget"@) && members["widget"@] is Text;
            let name = members.dom().contains("name"@) && members["name"@] is Text;
            &&& !plugin ==> after == before && r == Err::<JsonTree, _>(
                "params."@ + "plugin"@ + " must be a string"@,
            )
            &&& plugin && !widget ==> after == before && r == Err::<JsonTree, _>(
                "params."@ + "widget"@ + " must be a string"@,
            )
            &&& plugin && widget && !name ==> after == before && r == Err::<JsonTree, _>(
                "params."@ + "name"@ + " must be a string"@,
            )
            &&& plugin && widget && name ==> acted(
                subjects,
                members["plugin"@]->Text_0,
                members["widget"@]->Text_0,
                members["name"@]->Text_0,
                before,
                after,
                said,
            ) && match said {
                Ok(_) => r matches Ok(JsonTree::Object(none)) && none.dom() =~= Set::empty(),
                Err(e) => r == Err::<JsonTree, _>(e.text()),
            }
        }),
{
    choose|said: Result<(), RegistryErrorView>| #[trigger]
        acted(
            subjects,
            members["plugin"@]->Text_0,
            members["widget"@]->Text_0,
            members["name"@]->Text_0,
            before,
            after,
            said,
        ) && r == action_answer(said)
}

/// The list of plugins names the directory that they are in.
pub proof fn law_the_list_of_plugins_names_their_directory(dir: Seq<char>, plugins: Seq<JsonTree>)
    ensures
        plugins_tree(dir, plugins) matches JsonTree::Object(members) && {
            &&& members.dom() =~= set![
                "pluginsDir"@,
                "plugins"@,
            ]
            &&& members["pluginsDir"@] == JsonTree::Text(dir)
            &&& members["plugins"@] == JsonTree::Array(plugins)
        },
{
    reveal_strlit("pluginsDir");
    reveal_strlit("plugins");
    assert("plugins"@.len() == 7);
    assert("pluginsDir"@.len() == 10);
}

/// An action of a widget whose plugin has no thread is turned down: for what the request lacks,
/// for the reason why the widget may not act, or because the plugin does not run.
pub proof fn law_without_a_thread_nothing_acts<
    St: Storage,
    G: GrantStorage,
    C: ConfigStorage,
    P: ProcessControl,
>(subjects: SubjectRegistry<Manifest, St, G, C, P>, members: Map<Seq<char>, JsonTree>)
    ensures
        ({
            let r = idle_action_reply(subjects, JsonTree::Object(members));
            let whole = members.dom().contains("plugin"@) && members["plugin"@] is Text
                && members.dom().contains("widget"@) && members["widget"@] is Text
                && members.dom().contains("name"@) && members["name"@] is Text;
            let plugin = members["plugin"@]->Text_0;
            let widget = members["widget"@]->Text_0;
            &&& r is Err
            &&& whole ==> match widget_leave(subjects, plugin, widget) {
                Ok(_) => r == Err::<JsonTree, _>("plugin is not running: "@ + plugin),
                Err(e) => r == Err::<JsonTree, _>(e.text()),
            }
        }),
{
}

/// The list of plugins shows each registered plugin in order, and nothing else: the returned
/// trees.
pub proof fn law_all_plugins_are_listed_in_order<
    St: Storage,
    G: GrantStorage,
    C: ConfigStorage,
    P: ProcessControl,
    B: BusPort,
    D: DriverDirectory,
>(registry: Registry<St, G, C, P>, context: RpcContext<B, D>, r: Result<JsonTree, Seq<char>>) -> (shown:
    Seq<JsonTree>)
    requires
        plugins_listed(registry, context, r),
    ensures
        r == Ok::<_, Seq<char>>(plugins_tree(registry.plugins_dir@, shown)),
        shown.len() == registry.subjects.table.entries.len(),
        forall|i: int|
            0 <= i < shown.len() ==> plugin_shown(
                registry,
                context,
                registry.subjects.table.entries@[i],
                #[trigger] shown[i],
            ),
{
    choose|shown: Seq<JsonTree>|
        {
            &&& shown.len() == registry.subjects.table.entries.len()
            &&& forall|i: int|
                0 <= i < shown.len() ==> plugin_shown(
                    registry,
                    context,
                    registry.subjects.table.entries@[i],
                    #[trigger] shown[i],
                )
            &&& r == Ok::<_, Seq<char>>(#[trigger] plugins_tree(registry.plugins_dir@, shown))
        }
}

/// A request for what is known of a plugin is turned down if it does not name the plugin.
pub proof fn law_a_plugin_has_to_be_named<
    St: Storage,
    G: GrantStorage,
    C: ConfigStorage,
    P: ProcessControl,
>(
    subjects: SubjectRegistry<Manifest, St, G, C, P>,
    members: Map<Seq<char>, JsonTree>,
    r: Result<JsonTree, Seq<char>>,
)
    requires
        sidecars_reply(subjects, JsonTree::Object(members), r),
        !(members.dom().contains("plugin"@) && members["plugin"@] is Text),
    ensures
        ({
            let refused = Err::<JsonTree, _>("params."@ + "plugin"@ + " must be a string"@);
            &&& r == refused
            &&& roots_reply(subjects, JsonTree::Object(members)) == refused
            &&& capabilities_reply(subjects, JsonTree::Object(members)) == refused
            &&& settings_reply(subjects, JsonTree::Object(members)) == refused
        }),
{
}

} // verus!
