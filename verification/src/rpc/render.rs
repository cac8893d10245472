//! Responses as JSON.

use chrono::TimeZone;

use vstd::prelude::*;

use crate::capability::GrantState;
use crate::json::{
    json_array, json_bool, json_i64, json_null, json_object, json_string, json_strings, json_tree,
    json_trees, json_u64, map_insert, map_new, no_members, optional_text_tree, texts_tree, JsonTree,
};
use crate::manifest::{CapabilityRequest, CapabilityRequestView, FilesystemMode, WidgetSize};
use crate::registry::InstanceStatus;
use crate::rpc::info::{
    BusInfo, BusInfoView, DashboardInfo, DashboardInfoView, FilesystemInfo, FilesystemInfoView,
    ScheduleInfo, ScheduleInfoView, SidecarInfo, SidecarInfoView,
};
use crate::runtime::dropped::DroppedCounts;
use crate::settings::{SidecarConfig, SidecarConfigView};
use crate::text::views;

verus! {

/// A capability that was asked for.
pub open spec fn capability_tree(request: CapabilityRequestView) -> JsonTree {
    match request {
        CapabilityRequestView::Http { hosts, reason } => JsonTree::Object(
            no_members().insert("kind"@, JsonTree::Text("http"@)).insert(
                "hosts"@,
                texts_tree(hosts),
            ).insert("reason"@, JsonTree::Text(reason)),
        ),
    }
}

/// Capabilities and their approval.
pub open spec fn capabilities_tree(
    requests: Seq<CapabilityRequestView>,
    state: GrantState,
) -> JsonTree {
    JsonTree::Object(
        no_members().insert(
            "requests"@,
            JsonTree::Array(
                requests.map_values(|request: CapabilityRequestView| capability_tree(request)),
            ),
        ).insert("granted"@, JsonTree::Bool(state.granted)).insert(
            "staleGrant"@,
            JsonTree::Bool(state.stale),
        ),
    )
}

fn capability_json(request: &CapabilityRequest) -> (r: serde_json::Value)
    ensures
        json_tree(r) == capability_tree(request@),
{
    match request {
        CapabilityRequest::Http { hosts, reason } => {
            let mut members = map_new();
            map_insert(&mut members, "kind", json_string("http"));
            map_insert(&mut members, "hosts", json_strings(hosts));
            map_insert(&mut members, "reason", json_string(reason.as_str()));
            json_object(members)
        },
    }
}

/// Capabilities and their approval as JSON.
pub fn capabilities_result_json(requests: &Vec<CapabilityRequest>, grant_state: &GrantState) -> (r:
    serde_json::Value)
    ensures
        json_tree(r) == capabilities_tree(views(requests@), *grant_state),
{
    let mut items: Vec<serde_json::Value> = Vec::new();
    let mut i: usize = 0;
    while i < requests.len()
        invariant
            i <= requests.len(),
            items.len() == i,
            forall|j: int|
                0 <= j < i ==> json_tree(#[trigger] items@[j]) == capability_tree(requests@[j]@),
        decreases requests.len() - i,
    {
        items.push(capability_json(&requests[i]));
        i = i + 1;
    }
    assert(json_trees(items@) =~= views(requests@).map_values(
        |request: CapabilityRequestView| capability_tree(request),
    ));
    let mut members = map_new();
    map_insert(&mut members, "requests", json_array(items));
    map_insert(&mut members, "granted", json_bool(grant_state.granted));
    map_insert(&mut members, "staleGrant", json_bool(grant_state.stale));
    json_object(members)
}

/// A widget.
pub open spec fn widget_tree(info: DashboardInfoView) -> JsonTree {
    JsonTree::Object(
        no_members().insert("id"@, JsonTree::Text(info.request.id)).insert(
            "title"@,
            JsonTree::Text(info.request.title),
        ).insert("entry"@, JsonTree::Text(info.request.entry)).insert(
            "size"@,
            JsonTree::Text(info.request.size.name()),
        ).insert("granted"@, JsonTree::Bool(info.grant.granted)).insert(
            "staleGrant"@,
            JsonTree::Bool(info.grant.stale),
        ).insert("resolved"@, JsonTree::Bool(info.resolved)),
    )
}

/// A list of widgets.
pub open spec fn widgets_tree(dashboard: Seq<DashboardInfoView>) -> JsonTree {
    JsonTree::Array(dashboard.map_values(|info: DashboardInfoView| widget_tree(info)))
}

/// An object with one member.
pub open spec fn single(key: Seq<char>, value: JsonTree) -> JsonTree {
    JsonTree::Object(no_members().insert(key, value))
}

/// An object with one member as JSON.
pub fn single_json(key: &str, value: serde_json::Value) -> (r: serde_json::Value)
    ensures
        json_tree(r) == single(key@, json_tree(value)),
{
    let mut members = map_new();
    map_insert(&mut members, key, value);
    json_object(members)
}

fn widget_json(info: &DashboardInfo) -> (r: serde_json::Value)
    ensures
        json_tree(r) == widget_tree(info@),
{
    let mut members = map_new();
    map_insert(&mut members, "id", json_string(info.request.id.as_str()));
    map_insert(&mut members, "title", json_string(info.request.title.as_str()));
    map_insert(&mut members, "entry", json_string(info.request.entry.as_str()));
    map_insert(&mut members, "size", json_string(info.request.size.as_str()));
    map_insert(&mut members, "granted", json_bool(info.grant.granted));
    map_insert(&mut members, "staleGrant", json_bool(info.grant.stale));
    map_insert(&mut members, "resolved", json_bool(info.resolved));
    json_object(members)
}

/// A list of widgets as JSON.
pub fn dashboard_items_json(dashboard: &Vec<DashboardInfo>) -> (r: serde_json::Value)
    ensures
        json_tree(r) == widgets_tree(views(dashboard@)),
{
    let mut items: Vec<serde_json::Value> = Vec::new();
    let mut i: usize = 0;
    while i < dashboard.len()
        invariant
            i <= dashboard.len(),
            items.len() == i,
            forall|j: int|
                0 <= j < i ==> json_tree(#[trigger] items@[j]) == widget_tree(dashboard@[j]@),
        decreases dashboard.len() - i,
    {
        items.push(widget_json(&dashboard[i]));
        i = i + 1;
    }
    assert(json_trees(items@) =~= views(dashboard@).map_values(
        |info: DashboardInfoView| widget_tree(info),
    ));
    json_array(items)
}

/// The response with the widgets of a plugin.
pub fn dashboard_result_json(dashboard: &Vec<DashboardInfo>) -> (r: serde_json::Value)
    ensures
        json_tree(r) == single("dashboard"@, widgets_tree(views(dashboard@))),
{
    single_json("dashboard", dashboard_items_json(dashboard))
}

/// A bus connection.
pub open spec fn connection_tree(info: BusInfoView) -> JsonTree {
    JsonTree::Object(
        no_members().insert("driver"@, JsonTree::Text(info.request.driver)).insert(
            "publish"@,
            texts_tree(info.request.publish),
        ).insert("subscribe"@, texts_tree(info.request.subscribe)).insert(
            "reason"@,
            JsonTree::Text(info.request.reason),
        ).insert("granted"@, JsonTree::Bool(info.grant.granted)).insert(
            "staleGrant"@,
            JsonTree::Bool(info.grant.stale),
        ).insert("resolved"@, JsonTree::Bool(info.resolved)),
    )
}

/// A list of bus connections.
pub open spec fn connections_tree(bus: Seq<BusInfoView>) -> JsonTree {
    JsonTree::Array(bus.map_values(|info: BusInfoView| connection_tree(info)))
}

fn connection_json(info: &BusInfo) -> (r: serde_json::Value)
    ensures
        json_tree(r) == connection_tree(info@),
{
    let mut members = map_new();
    map_insert(&mut members, "driver", json_string(info.request.driver.as_str()));
    map_insert(&mut members, "publish", json_strings(&info.request.publish));
    map_insert(&mut members, "subscribe", json_strings(&info.request.subscribe));
    map_insert(&mut members, "reason", json_string(info.request.reason.as_str()));
    map_insert(&mut members, "granted", json_bool(info.grant.granted));
    map_insert(&mut members, "staleGrant", json_bool(info.grant.stale));
    map_insert(&mut members, "resolved", json_bool(info.resolved));
    json_object(members)
}

/// A list of bus connections as JSON.
pub fn bus_items_json(bus: &Vec<BusInfo>) -> (r: serde_json::Value)
    ensures
        json_tree(r) == connections_tree(views(bus@)),
{
    let mut items: Vec<serde_json::Value> = Vec::new();
    let mut i: usize = 0;
    while i < bus.len()
        invariant
            i <= bus.len(),
            items.len() == i,
            forall|j: int|
                0 <= j < i ==> json_tree(#[trigger] items@[j]) == connection_tree(bus@[j]@),
        decreases bus.len() - i,
    {
        items.push(connection_json(&bus[i]));
        i = i + 1;
    }
    assert(json_trees(items@) =~= views(bus@).map_values(
        |info: BusInfoView| connection_tree(info),
    ));
    json_array(items)
}

/// The response with the bus connections of a plugin.
pub fn bus_result_json(bus: &Vec<BusInfo>) -> (r: serde_json::Value)
    ensures
        json_tree(r) == single("bus"@, connections_tree(views(bus@))),
{
    single_json("bus", bus_items_json(bus))
}

/// How much work was missed.
pub open spec fn dropped_tree(dropped: DroppedCounts) -> JsonTree {
    JsonTree::Object(
        no_members().insert("events"@, JsonTree::Int(dropped.events as int)).insert(
            "busDeliveries"@,
            JsonTree::Int(dropped.bus_deliveries as int),
        ),
    )
}

/// How much work was missed as JSON.
pub fn dropped_result_json(dropped: &DroppedCounts) -> (r: serde_json::Value)
    ensures
        json_tree(r) == dropped_tree(*dropped),
{
    let mut members = map_new();
    map_insert(&mut members, "events", json_u64(dropped.events));
    map_insert(&mut members, "busDeliveries", json_u64(dropped.bus_deliveries));
    json_object(members)
}

/// Whether the calendar reaches a second, counted from the Unix epoch: the years from
/// -262143 to 262142.
pub open spec fn in_calendar(secs: int) -> bool {
    -8_334_601_228_800 <= secs <= 8_210_266_876_799
}

/// The text that `chrono` writes for a moment in the notation of RFC 3339. The moment
/// is in nanoseconds since the Unix epoch, and `offset` is how far the local time is
/// ahead of UTC, in seconds.
pub uninterp spec fn rfc3339_text(at: int, offset: int) -> Seq<char>;

/// Whether a text is what is written for a moment in some time zone. No time zone
/// is a day or more away from UTC.
pub open spec fn locally_written(at: int, text: Seq<char>) -> bool {
    exists|offset: int| -86_400 < offset < 86_400 && text == #[trigger] rfc3339_text(at, offset)
}

/// `chrono::Local::timestamp_opt` and `chrono::DateTime::to_rfc3339`: a moment,
/// in seconds since the Unix epoch and nanoseconds, in the notation of RFC 3339
/// and in the machine's time zone. There is a text for every moment that the
/// calendar of `chrono` reaches. The text is made of the moment and of the offset from
/// UTC, less than a day, which rests on the time zone and is left open.
#[verifier::external_body]
fn local_rfc3339(secs: i64, nanos: u32) -> (r: Option<String>)
    requires
        nanos < 1_000_000_000,
    ensures
        r is Some <==> in_calendar(secs as int),
        r is Some ==> exists|offset: int|
            -86_400 < offset < 86_400 && r->0@ == #[trigger] rfc3339_text(
                secs * 1_000_000_000 + nanos,
                offset,
            ),
{
    let moment = chrono::Local.timestamp_opt(secs, nanos).earliest()?;
    Some(moment.to_rfc3339())
}

/// A moment, in nanoseconds since the Unix epoch, as whole seconds and the
/// nanoseconds past them, if the calendar reaches it.
pub fn calendar_moment(at: i128) -> (r: Option<(i64, u32)>)
    ensures
        r is Some <==> in_calendar(at as int / 1_000_000_000),
        r matches Some((secs, nanos)) ==> at == secs * 1_000_000_000 + nanos && nanos
            < 1_000_000_000,
{
    if at < -8_334_601_228_800_000_000_000 || at >= 8_210_266_876_800_000_000_000 {
        return None;
    }
    if at >= 0 {
        let secs: i128 = at / 1_000_000_000;
        let nanos: i128 = at % 1_000_000_000;
        Some((secs as i64, nanos as u32))
    } else {
        let back: i128 = -at;
        let secs: i128 = (back + 999_999_999) / 1_000_000_000;
        let nanos: i128 = secs * 1_000_000_000 - back;
        Some(((-secs) as i64, nanos as u32))
    }
}

/// A moment, in nanoseconds since the Unix epoch, as responses write it down.
fn written_moment(at: i128) -> (r: Option<String>)
    ensures
        r is Some <==> in_calendar(at as int / 1_000_000_000),
        r is Some ==> locally_written(at as int, r->0@),
{
    match calendar_moment(at) {
        Some((secs, nanos)) => local_rfc3339(secs, nanos),
        None => None,
    }
}

/// A schedule whose next time is written as `next`.
pub open spec fn schedule_tree(info: ScheduleInfoView, next: Option<Seq<char>>) -> JsonTree {
    JsonTree::Object(
        no_members().insert("name"@, JsonTree::Text(info.name)).insert(
            "spec"@,
            JsonTree::Text(info.spec.display()),
        ).insert("next"@, optional_text_tree(next)),
    )
}

/// A list of schedules whose next times are written as `nexts`.
pub open spec fn schedules_tree(
    schedules: Seq<ScheduleInfoView>,
    nexts: Seq<Option<Seq<char>>>,
) -> JsonTree {
    JsonTree::Array(
        Seq::new(schedules.len(), |i: int| schedule_tree(schedules[i], nexts[i])),
    )
}

/// Whether times are written down for the schedules whose next fire the calendar
/// reaches, and for no others, and each is what is written for that fire.
pub open spec fn times_written(
    schedules: Seq<ScheduleInfoView>,
    nexts: Seq<Option<Seq<char>>>,
) -> bool {
    &&& nexts.len() == schedules.len()
    &&& forall|i: int|
        0 <= i < nexts.len() ==> time_written(schedules[i].next as int, #[trigger] nexts[i])
}

/// Whether a moment is written down if the calendar reaches it, and only then.
pub open spec fn time_written(at: int, text: Option<Seq<char>>) -> bool {
    &&& text is Some <==> in_calendar(at / 1_000_000_000)
    &&& text is Some ==> locally_written(at, text->0)
}

/// The views of texts of which some are absent.
pub open spec fn optional_views(texts: Seq<Option<String>>) -> Seq<Option<Seq<char>>> {
    texts.map_values(
        |text: Option<String>|
            match text {
                Some(text) => Some(text@),
                None => None,
            },
    )
}

/// A list of schedules as JSON, whose next times are written as `nexts`.
pub fn schedules_json(schedules: &Vec<ScheduleInfo>, nexts: &Vec<Option<String>>) -> (r:
    serde_json::Value)
    requires
        nexts.len() == schedules.len(),
    ensures
        json_tree(r) == schedules_tree(views(schedules@), optional_views(nexts@)),
{
    let mut items: Vec<serde_json::Value> = Vec::new();
    let mut i: usize = 0;
    while i < schedules.len()
        invariant
            i <= schedules.len(),
            nexts.len() == schedules.len(),
            items.len() == i,
            forall|j: int|
                0 <= j < i ==> json_tree(#[trigger] items@[j]) == schedule_tree(
                    schedules@[j]@,
                    optional_views(nexts@)[j],
                ),
        decreases schedules.len() - i,
    {
        let info = &schedules[i];
        let next = match &nexts[i] {
            Some(next) => json_string(next.as_str()),
            None => json_null(),
        };
        let mut members = map_new();
        map_insert(&mut members, "name", json_string(info.name.as_str()));
        map_insert(&mut members, "spec", json_string(info.spec.display_string().as_str()));
        map_insert(&mut members, "next", next);
        items.push(json_object(members));
        i = i + 1;
    }
    assert(schedules_tree(views(schedules@), optional_views(nexts@))->Array_0 =~= json_trees(
        items@,
    ));
    json_array(items)
}

/// A list of schedules as JSON, whose next times are in the machine's time zone.
pub fn schedule_items_json(schedules: &Vec<ScheduleInfo>) -> (r: serde_json::Value)
    ensures
        exists|nexts: Seq<Option<Seq<char>>>|
            times_written(views(schedules@), nexts) && json_tree(r) == #[trigger] schedules_tree(
                views(schedules@),
                nexts,
            ),
{
    let mut nexts: Vec<Option<String>> = Vec::new();
    let mut i: usize = 0;
    while i < schedules.len()
        invariant
            i <= schedules.len(),
            nexts.len() == i,
            forall|j: int|
                0 <= j < i ==> time_written(
                    schedules@[j].next as int,
                    #[trigger] optional_views(nexts@)[j],
                ),
        decreases schedules.len() - i,
    {
        let ghost before = nexts@;
        nexts.push(written_moment(schedules[i].next));
        assert(optional_views(nexts@).drop_last() =~= optional_views(before));
        assert forall|j: int| 0 <= j < i implies time_written(
            schedules@[j].next as int,
            #[trigger] optional_views(nexts@)[j],
        ) by {
            assert(optional_views(nexts@)[j] == optional_views(before)[j]);
        }
        i = i + 1;
    }
    assert(times_written(views(schedules@), optional_views(nexts@)));
    schedules_json(schedules, &nexts)
}

/// The response with the schedules of a plugin.
pub fn schedules_result_json(schedules: &Vec<ScheduleInfo>) -> (r: serde_json::Value)
    ensures
        exists|nexts: Seq<Option<Seq<char>>>|
            times_written(views(schedules@), nexts) && json_tree(r) == single(
                "schedules"@,
                #[trigger] schedules_tree(views(schedules@), nexts),
            ),
{
    single_json("schedules", schedule_items_json(schedules))
}

/// The configuration of a sidecar.
pub open spec fn sidecar_config_tree(config: SidecarConfigView) -> JsonTree {
    JsonTree::Object(
        no_members().insert("command"@, JsonTree::Text(config.command)).insert(
            "args"@,
            texts_tree(config.args),
        ).insert("port"@, JsonTree::Int(config.port as int)).insert(
            "replicas"@,
            JsonTree::Int(config.replicas as int),
        ),
    )
}

/// An instance of a sidecar.
pub open spec fn instance_tree(instance: InstanceStatus) -> JsonTree {
    JsonTree::Object(
        no_members().insert("index"@, JsonTree::Int(instance.index as int)).insert(
            "port"@,
            JsonTree::Int(instance.port as int),
        ).insert(
            "state"@,
            JsonTree::Text(
                if instance.running {
                    "running"@
                } else {
                    "exited"@
                },
            ),
        ).insert(
            "exitCode"@,
            match instance.exit_code {
                Some(code) => JsonTree::Int(code as int),
                None => JsonTree::Null,
            },
        ),
    )
}

/// Instances of a sidecar.
pub open spec fn instances_tree(instances: Seq<InstanceStatus>) -> JsonTree {
    JsonTree::Array(instances.map_values(|instance: InstanceStatus| instance_tree(instance)))
}

/// A sidecar.
pub open spec fn sidecar_tree(info: SidecarInfoView) -> JsonTree {
    JsonTree::Object(
        no_members().insert("name"@, JsonTree::Text(info.request.name)).insert(
            "reason"@,
            JsonTree::Text(info.request.reason),
        ).insert("args"@, texts_tree(info.request.args)).insert(
            "port"@,
            JsonTree::Int(info.request.port as int),
        ).insert("scalable"@, JsonTree::Bool(info.request.scalable)).insert(
            "granted"@,
            JsonTree::Bool(info.grant.granted),
        ).insert("staleGrant"@, JsonTree::Bool(info.grant.stale)).insert(
            "config"@,
            sidecar_config_tree(info.config),
        ).insert("instances"@, instances_tree(info.instances)),
    )
}

/// A list of sidecars.
pub open spec fn sidecars_tree(sidecars: Seq<SidecarInfoView>) -> JsonTree {
    JsonTree::Array(sidecars.map_values(|info: SidecarInfoView| sidecar_tree(info)))
}

fn sidecar_config_json(config: &SidecarConfig) -> (r: serde_json::Value)
    ensures
        json_tree(r) == sidecar_config_tree(config@),
{
    let mut members = map_new();
    map_insert(&mut members, "command", json_string(config.command.as_str()));
    map_insert(&mut members, "args", json_strings(&config.args));
    map_insert(&mut members, "port", json_u64(config.port as u64));
    map_insert(&mut members, "replicas", json_u64(config.replicas as u64));
    json_object(members)
}

fn instance_json(instance: &InstanceStatus) -> (r: serde_json::Value)
    ensures
        json_tree(r) == instance_tree(*instance),
{
    let state = if instance.running {
        json_string("running")
    } else {
        json_string("exited")
    };
    let code = match instance.exit_code {
        Some(code) => json_i64(code as i64),
        None => json_null(),
    };
    let mut members = map_new();
    map_insert(&mut members, "index", json_u64(instance.index as u64));
    map_insert(&mut members, "port", json_u64(instance.port as u64));
    map_insert(&mut members, "state", state);
    map_insert(&mut members, "exitCode", code);
    json_object(members)
}

fn instances_json(instances: &Vec<InstanceStatus>) -> (r: serde_json::Value)
    ensures
        json_tree(r) == instances_tree(instances@),
{
    let mut items: Vec<serde_json::Value> = Vec::new();
    let mut i: usize = 0;
    while i < instances.len()
        invariant
            i <= instances.len(),
            items.len() == i,
            forall|j: int|
                0 <= j < i ==> json_tree(#[trigger] items@[j]) == instance_tree(instances@[j]),
        decreases instances.len() - i,
    {
        items.push(instance_json(&instances[i]));
        i = i + 1;
    }
    assert(json_trees(items@) =~= instances@.map_values(
        |instance: InstanceStatus| instance_tree(instance),
    ));
    json_array(items)
}

fn sidecar_json(info: &SidecarInfo) -> (r: serde_json::Value)
    ensures
        json_tree(r) == sidecar_tree(info@),
{
    let mut members = map_new();
    map_insert(&mut members, "name", json_string(info.request.name.as_str()));
    map_insert(&mut members, "reason", json_string(info.request.reason.as_str()));
    map_insert(&mut members, "args", json_strings(&info.request.args));
    map_insert(&mut members, "port", json_u64(info.request.port as u64));
    map_insert(&mut members, "scalable", json_bool(info.request.scalable));
    map_insert(&mut members, "granted", json_bool(info.grant.granted));
    map_insert(&mut members, "staleGrant", json_bool(info.grant.stale));
    map_insert(&mut members, "config", sidecar_config_json(&info.config));
    map_insert(&mut members, "instances", instances_json(&info.instances));
    json_object(members)
}

/// A list of sidecars as JSON.
pub fn sidecar_items_json(sidecars: &Vec<SidecarInfo>) -> (r: serde_json::Value)
    ensures
        json_tree(r) == sidecars_tree(views(sidecars@)),
{
    let mut items: Vec<serde_json::Value> = Vec::new();
    let mut i: usize = 0;
    while i < sidecars.len()
        invariant
            i <= sidecars.len(),
            items.len() == i,
            forall|j: int|
                0 <= j < i ==> json_tree(#[trigger] items@[j]) == sidecar_tree(sidecars@[j]@),
        decreases sidecars.len() - i,
    {
        items.push(sidecar_json(&sidecars[i]));
        i = i + 1;
    }
    assert(json_trees(items@) =~= views(sidecars@).map_values(
        |info: SidecarInfoView| sidecar_tree(info),
    ));
    json_array(items)
}

/// The response with the sidecars of a plugin or driver.
pub fn sidecars_result_json(sidecars: &Vec<SidecarInfo>) -> (r: serde_json::Value)
    ensures
        json_tree(r) == single("sidecars"@, sidecars_tree(views(sidecars@))),
{
    single_json("sidecars", sidecar_items_json(sidecars))
}

/// A filesystem root.
pub open spec fn root_tree(info: FilesystemInfoView) -> JsonTree {
    JsonTree::Object(
        no_members().insert("name"@, JsonTree::Text(info.request.name)).insert(
            "reason"@,
            JsonTree::Text(info.request.reason),
        ).insert("mode"@, JsonTree::Text(info.request.mode.name())).insert(
            "granted"@,
            JsonTree::Bool(info.grant.granted),
        ).insert("staleGrant"@, JsonTree::Bool(info.grant.stale)).insert(
            "config"@,
            single("path"@, JsonTree::Text(info.config.path)),
        ),
    )
}

/// A list of filesystem roots.
pub open spec fn roots_tree(roots: Seq<FilesystemInfoView>) -> JsonTree {
    JsonTree::Array(roots.map_values(|info: FilesystemInfoView| root_tree(info)))
}

fn root_json(info: &FilesystemInfo) -> (r: serde_json::Value)
    ensures
        json_tree(r) == root_tree(info@),
{
    let config = single_json("path", json_string(info.config.path.as_str()));
    let mut members = map_new();
    map_insert(&mut members, "name", json_string(info.request.name.as_str()));
    map_insert(&mut members, "reason", json_string(info.request.reason.as_str()));
    map_insert(&mut members, "mode", json_string(info.request.mode.as_str()));
    map_insert(&mut members, "granted", json_bool(info.grant.granted));
    map_insert(&mut members, "staleGrant", json_bool(info.grant.stale));
    map_insert(&mut members, "config", config);
    json_object(members)
}

/// A list of filesystem roots as JSON.
pub fn filesystem_items_json(roots: &Vec<FilesystemInfo>) -> (r: serde_json::Value)
    ensures
        json_tree(r) == roots_tree(views(roots@)),
{
    let mut items: Vec<serde_json::Value> = Vec::new();
    let mut i: usize = 0;
    while i < roots.len()
        invariant
            i <= roots.len(),
            items.len() == i,
            forall|j: int|
                0 <= j < i ==> json_tree(#[trigger] items@[j]) == root_tree(roots@[j]@),
        decreases roots.len() - i,
    {
        items.push(root_json(&roots[i]));
        i = i + 1;
    }
    assert(json_trees(items@) =~= views(roots@).map_values(
        |info: FilesystemInfoView| root_tree(info),
    ));
    json_array(items)
}

/// The response with the filesystem roots of a plugin or driver.
pub fn filesystem_result_json(roots: &Vec<FilesystemInfo>) -> (r: serde_json::Value)
    ensures
        json_tree(r) == single("roots"@, roots_tree(views(roots@))),
{
    single_json("roots", filesystem_items_json(roots))
}

/// A capability that was asked for is shown with its kind, its hosts and its reason.
pub proof fn law_a_capability_is_shown_with_its_hosts(hosts: Seq<Seq<char>>, reason: Seq<char>)
    ensures
        capability_tree((CapabilityRequestView::Http { hosts, reason })) matches JsonTree::Object(members) && {
            &&& members.dom() =~= set![
                "kind"@,
                "hosts"@,
                "reason"@,
            ]
            &&& members["kind"@] == JsonTree::Text("http"@)
            &&& members["hosts"@] == texts_tree(hosts)
            &&& members["reason"@] == JsonTree::Text(reason)
        },
{
    reveal_strlit("kind");
    reveal_strlit("hosts");
    reveal_strlit("reason");
    assert("kind"@.len() == 4);
    assert("hosts"@.len() == 5);
    assert("reason"@.len() == 6);
}

/// Capabilities are shown with what was asked for, whether it is approved, and whether the
/// approval is stale.
pub proof fn law_capabilities_are_shown_with_their_approval(requests: Seq<CapabilityRequestView>, state: GrantState)
    ensures
        capabilities_tree(requests, state) matches JsonTree::Object(members) && {
            &&& members["granted"@] == JsonTree::Bool(state.granted)
            &&& members["staleGrant"@] == JsonTree::Bool(state.stale)
            &&& members["requests"@] matches JsonTree::Array(items) && items.len() == requests.len()
                && forall|i: int|
                0 <= i < items.len() ==> #[trigger] items[i] == capability_tree(requests[i])
        },
{
    reveal_strlit("granted");
    reveal_strlit("staleGrant");
    reveal_strlit("requests");
    assert("granted"@.len() == 7);
    assert("requests"@.len() == 8);
    assert("staleGrant"@.len() == 10);
}

/// A widget is shown with what was declared of it, its approval, and whether its file is
/// there.
pub proof fn law_a_widget_is_shown_as_it_is(info: DashboardInfoView)
    ensures
        widget_tree(info) matches JsonTree::Object(members) && {
            &&& members.dom() =~= set![
                "id"@,
                "title"@,
                "entry"@,
                "size"@,
                "granted"@,
                "staleGrant"@,
                "resolved"@,
            ]
            &&& members["id"@] == JsonTree::Text(info.request.id)
            &&& members["title"@] == JsonTree::Text(info.request.title)
            &&& members["entry"@] == JsonTree::Text(info.request.entry)
            &&& members["size"@] == JsonTree::Text(match info.request.size {
                    WidgetSize::Small => "small"@,
                    WidgetSize::Medium => "medium"@,
                    WidgetSize::Large => "large"@,
                })
            &&& members["granted"@] == JsonTree::Bool(info.grant.granted)
            &&& members["staleGrant"@] == JsonTree::Bool(info.grant.stale)
            &&& members["resolved"@] == JsonTree::Bool(info.resolved)
        },
{
    reveal_strlit("id");
    reveal_strlit("title");
    reveal_strlit("entry");
    reveal_strlit("size");
    reveal_strlit("granted");
    reveal_strlit("staleGrant");
    reveal_strlit("resolved");
    assert("id"@.len() == 2);
    assert("size"@.len() == 4);
    assert("title"@.len() == 5);
    assert("entry"@.len() == 5);
    assert("title"@[0] == 't');
    assert("entry"@[0] == 'e');
    assert("granted"@.len() == 7);
    assert("resolved"@.len() == 8);
    assert("staleGrant"@.len() == 10);
}

/// A connection is shown with what was declared of it, its approval, and whether what it
/// needs is there.
pub proof fn law_a_connection_is_shown_as_it_is(info: BusInfoView)
    ensures
        connection_tree(info) matches JsonTree::Object(members) && {
            &&& members.dom() =~= set![
                "driver"@,
                "publish"@,
                "subscribe"@,
                "reason"@,
                "granted"@,
                "staleGrant"@,
                "resolved"@,
            ]
            &&& members["driver"@] == JsonTree::Text(info.request.driver)
            &&& members["publish"@] == texts_tree(info.request.publish)
            &&& members["subscribe"@] == texts_tree(info.request.subscribe)
            &&& members["reason"@] == JsonTree::Text(info.request.reason)
            &&& members["granted"@] == JsonTree::Bool(info.grant.granted)
            &&& members["staleGrant"@] == JsonTree::Bool(info.grant.stale)
            &&& members["resolved"@] == JsonTree::Bool(info.resolved)
        },
{
    reveal_strlit("driver");
    reveal_strlit("publish");
    reveal_strlit("subscribe");
    reveal_strlit("reason");
    reveal_strlit("granted");
    reveal_strlit("staleGrant");
    reveal_strlit("resolved");
    assert("driver"@.len() == 6);
    assert("reason"@.len() == 6);
    assert("driver"@[0] == 'd');
    assert("reason"@[0] == 'r');
    assert("publish"@.len() == 7);
    assert("granted"@.len() == 7);
    assert("publish"@[0] == 'p');
    assert("granted"@[0] == 'g');
    assert("resolved"@.len() == 8);
    assert("subscribe"@.len() == 9);
    assert("staleGrant"@.len() == 10);
}

/// Missed work is shown by its kind.
pub proof fn law_missed_work_is_shown_by_its_kind(dropped: DroppedCounts)
    ensures
        dropped_tree(dropped) matches JsonTree::Object(members) && {
            &&& members.dom() =~= set![
                "events"@,
                "busDeliveries"@,
            ]
            &&& members["events"@] == JsonTree::Int(dropped.events as int)
            &&& members["busDeliveries"@] == JsonTree::Int(dropped.bus_deliveries as int)
        },
{
    reveal_strlit("events");
    reveal_strlit("busDeliveries");
    assert("events"@.len() == 6);
    assert("busDeliveries"@.len() == 13);
}

/// A schedule is shown with its name, when it fires in words, and its next time if there is
/// one.
pub proof fn law_a_schedule_is_shown_with_its_next_time(info: ScheduleInfoView, next: Option<Seq<char>>)
    ensures
        schedule_tree(info, next) matches JsonTree::Object(members) && {
            &&& members.dom() =~= set![
                "name"@,
                "spec"@,
                "next"@,
            ]
            &&& members["name"@] == JsonTree::Text(info.name)
            &&& members["spec"@] == JsonTree::Text(info.spec.display())
            &&& members["next"@] == match next {
                Some(text) => JsonTree::Text(text),
                None => JsonTree::Null,
            }
        },
{
    reveal_strlit("name");
    reveal_strlit("spec");
    reveal_strlit("next");
    assert("name"@.len() == 4);
    assert("spec"@.len() == 4);
    assert("next"@.len() == 4);
    assert("name"@[1] == 'a');
    assert("spec"@[1] == 'p');
    assert("next"@[1] == 'e');
}

/// The configuration of a sidecar is shown with its command, its arguments, its port and
/// its instances.
pub proof fn law_a_configuration_is_shown_as_it_is(config: SidecarConfigView)
    ensures
        sidecar_config_tree(config) matches JsonTree::Object(members) && {
            &&& members.dom() =~= set![
                "command"@,
                "args"@,
                "port"@,
                "replicas"@,
            ]
            &&& members["command"@] == JsonTree::Text(config.command)
            &&& members["args"@] == texts_tree(config.args)
            &&& members["port"@] == JsonTree::Int(config.port as int)
            &&& members["replicas"@] == JsonTree::Int(config.replicas as int)
        },
{
    reveal_strlit("command");
    reveal_strlit("args");
    reveal_strlit("port");
    reveal_strlit("replicas");
    assert("args"@.len() == 4);
    assert("port"@.len() == 4);
    assert("args"@[0] == 'a');
    assert("port"@[0] == 'p');
    assert("command"@.len() == 7);
    assert("replicas"@.len() == 8);
}

/// An instance is shown with its number, its port, whether it runs, and its exit code if it
/// has one.
pub proof fn law_an_instance_is_shown_with_its_state(instance: InstanceStatus)
    ensures
        instance_tree(instance) matches JsonTree::Object(members) && {
            &&& members.dom() =~= set![
                "index"@,
                "port"@,
                "state"@,
                "exitCode"@,
            ]
            &&& members["index"@] == JsonTree::Int(instance.index as int)
            &&& members["port"@] == JsonTree::Int(instance.port as int)
            &&& members["state"@] == JsonTree::Text(
                if instance.running {
                    "running"@
                } else {
                    "exited"@
                },
            )
            &&& members["exitCode"@] == match instance.exit_code {
                Some(code) => JsonTree::Int(code as int),
                None => JsonTree::Null,
            }
        },
{
    reveal_strlit("index");
    reveal_strlit("port");
    reveal_strlit("state");
    reveal_strlit("exitCode");
    assert("port"@.len() == 4);
    assert("index"@.len() == 5);
    assert("state"@.len() == 5);
    assert("index"@[0] == 'i');
    assert("state"@[0] == 's');
    assert("exitCode"@.len() == 8);
}

/// A sidecar is shown with what was declared of it, its approval, how it is run, and its
/// instances.
pub proof fn law_a_sidecar_is_shown_as_it_is(info: SidecarInfoView)
    ensures
        sidecar_tree(info) matches JsonTree::Object(members) && {
            &&& members.dom() =~= set![
                "name"@,
                "reason"@,
                "args"@,
                "port"@,
                "scalable"@,
                "granted"@,
                "staleGrant"@,
                "config"@,
                "instances"@,
            ]
            &&& members["name"@] == JsonTree::Text(info.request.name)
            &&& members["reason"@] == JsonTree::Text(info.request.reason)
            &&& members["args"@] == texts_tree(info.request.args)
            &&& members["port"@] == JsonTree::Int(info.request.port as int)
            &&& members["scalable"@] == JsonTree::Bool(info.request.scalable)
            &&& members["granted"@] == JsonTree::Bool(info.grant.granted)
            &&& members["staleGrant"@] == JsonTree::Bool(info.grant.stale)
            &&& members["config"@] == sidecar_config_tree(info.config)
            &&& members["instances"@] == instances_tree(info.instances)
        },
{
    reveal_strlit("name");
    reveal_strlit("reason");
    reveal_strlit("args");
    reveal_strlit("port");
    reveal_strlit("scalable");
    reveal_strlit("granted");
    reveal_strlit("staleGrant");
    reveal_strlit("config");
    reveal_strlit("instances");
    assert("name"@.len() == 4);
    assert("args"@.len() == 4);
    assert("port"@.len() == 4);
    assert("name"@[0] == 'n');
    assert("args"@[0] == 'a');
    assert("port"@[0] == 'p');
    assert("reason"@.len() == 6);
    assert("config"@.len() == 6);
    assert("reason"@[0] == 'r');
    assert("config"@[0] == 'c');
    assert("granted"@.len() == 7);
    assert("scalable"@.len() == 8);
    assert("instances"@.len() == 9);
    assert("staleGrant"@.len() == 10);
}

/// A filesystem root is shown with what was declared of it, its approval, and its
/// directory.
pub proof fn law_a_root_is_shown_as_it_is(info: FilesystemInfoView)
    ensures
        root_tree(info) matches JsonTree::Object(members) && {
            &&& members["name"@] == JsonTree::Text(info.request.name)
            &&& members["reason"@] == JsonTree::Text(info.request.reason)
            &&& members["mode"@] == JsonTree::Text(match info.request.mode {
                    FilesystemMode::Read => "read"@,
                    FilesystemMode::ReadWrite => "read-write"@,
                })
            &&& members["granted"@] == JsonTree::Bool(info.grant.granted)
            &&& members["staleGrant"@] == JsonTree::Bool(info.grant.stale)
            &&& members["config"@] matches JsonTree::Object(config) && config.dom() =~= set!["path"@]
                && config["path"@] == JsonTree::Text(info.config.path)
        },
{
    reveal_strlit("name");
    reveal_strlit("reason");
    reveal_strlit("mode");
    reveal_strlit("granted");
    reveal_strlit("staleGrant");
    reveal_strlit("config");
    assert("name"@.len() == 4);
    assert("mode"@.len() == 4);
    assert("name"@[0] == 'n');
    assert("mode"@[0] == 'm');
    assert("reason"@.len() == 6);
    assert("config"@.len() == 6);
    assert("reason"@[0] == 'r');
    assert("config"@[0] == 'c');
    assert("granted"@.len() == 7);
    assert("staleGrant"@.len() == 10);
}

/// Widgets are shown one by one, in their order.
pub proof fn law_all_widgets_are_shown_in_order(dashboard: Seq<DashboardInfoView>, i: int)
    requires
        0 <= i < dashboard.len(),
    ensures
        widgets_tree(dashboard) matches JsonTree::Array(items) && items.len() == dashboard.len() && items[i] == widget_tree(dashboard[i]),
{
}

/// Connections are shown one by one, in their order.
pub proof fn law_all_connections_are_shown_in_order(bus: Seq<BusInfoView>, i: int)
    requires
        0 <= i < bus.len(),
    ensures
        connections_tree(bus) matches JsonTree::Array(items) && items.len() == bus.len() && items[i] == connection_tree(bus[i]),
{
}

/// Schedules are shown one by one, in their order.
pub proof fn law_all_schedules_are_shown_in_order(schedules: Seq<ScheduleInfoView>, nexts: Seq<Option<Seq<char>>>, i: int)
    requires
        0 <= i < schedules.len(),
    ensures
        schedules_tree(schedules, nexts) matches JsonTree::Array(items) && items.len() == schedules.len() && items[i] == schedule_tree(schedules[i], nexts[i]),
{
}

/// Instances are shown one by one, in their order.
pub proof fn law_all_instances_are_shown_in_order(instances: Seq<InstanceStatus>, i: int)
    requires
        0 <= i < instances.len(),
    ensures
        instances_tree(instances) matches JsonTree::Array(items) && items.len() == instances.len() && items[i] == instance_tree(instances[i]),
{
}

/// Sidecars are shown one by one, in their order.
pub proof fn law_all_sidecars_are_shown_in_order(sidecars: Seq<SidecarInfoView>, i: int)
    requires
        0 <= i < sidecars.len(),
    ensures
        sidecars_tree(sidecars) matches JsonTree::Array(items) && items.len() == sidecars.len() && items[i] == sidecar_tree(sidecars[i]),
{
}

/// Filesystem roots are shown one by one, in their order.
pub proof fn law_all_roots_are_shown_in_order(roots: Seq<FilesystemInfoView>, i: int)
    requires
        0 <= i < roots.len(),
    ensures
        roots_tree(roots) matches JsonTree::Array(items) && items.len() == roots.len() && items[i] == root_tree(roots[i]),
{
}

/// A moment is written down just if its second lies in the years from -262143 to 262142, and
/// what is written is the moment in a time zone less than a day away from UTC.
pub proof fn law_moments_in_the_calendar_are_written(at: int, text: Option<Seq<char>>)
    requires
        time_written(at, text),
    ensures
        text is Some <==> -8_334_601_228_800 <= at / 1_000_000_000 <= 8_210_266_876_799,
        text matches Some(text) ==> exists|offset: int|
            -86_400 < offset < 86_400 && text == #[trigger] rfc3339_text(at, offset),
{
}

} // verus!
