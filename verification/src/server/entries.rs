//! Plugins, drivers and widgets as lists show them.

use vstd::prelude::*;

use crate::json::{
    json_array, json_bool, json_clone, json_members, json_null, json_object, json_string,
    json_strings, json_tree, json_trees, map_clone, map_insert, map_new, no_members, texts_tree,
    JsonTree,
};
use crate::manifest::{
    OptionsFrom, OptionsFromView, SelectOption, SelectOptionView, SettingField, SettingFieldView,
    TopicSpec, TopicSpecView, WidgetSize,
};
use crate::registry::driver::DriverInfo;
use crate::registry::entries::{PluginState, PluginStateView};
use crate::registry::grants::{PluginWidget, PluginWidgetView};
use crate::registry::plugin::{layout_tree, PluginInfo};
use crate::rpc::info::{BusInfo, BusInfoView};
use crate::rpc::render::{
    bus_items_json, capabilities_result_json, capabilities_tree, connections_tree,
    dashboard_items_json, dropped_result_json, dropped_tree, filesystem_items_json, roots_tree,
    schedule_items_json, schedules_tree, sidecar_items_json, sidecars_tree, times_written,
    widgets_tree,
};
use crate::text::{joined, joined3, views};

verus! {

/// A choice.
pub open spec fn option_tree(option: SelectOptionView) -> JsonTree {
    JsonTree::Object(
        no_members().insert("value"@, JsonTree::Text(option.value)).insert(
            "label"@,
            JsonTree::Text(option.label),
        ),
    )
}

/// Choices that may be absent.
pub open spec fn options_tree(options: Option<Seq<SelectOptionView>>) -> JsonTree {
    match options {
        Some(options) => JsonTree::Array(
            options.map_values(|option: SelectOptionView| option_tree(option)),
        ),
        None => JsonTree::Null,
    }
}

/// Where choices come from.
pub open spec fn source_tree(source: Option<OptionsFromView>) -> JsonTree {
    match source {
        Some(source) => JsonTree::Object(
            no_members().insert("driver"@, JsonTree::Text(source.driver)).insert(
                "topic"@,
                JsonTree::Text(source.topic),
            ),
        ),
        None => JsonTree::Null,
    }
}

/// A declared setting.
pub open spec fn setting_tree(field: SettingFieldView) -> JsonTree {
    match field {
        SettingFieldView::String { key, label, default } => JsonTree::Object(
            no_members().insert("type"@, JsonTree::Text("string"@)).insert(
                "key"@,
                JsonTree::Text(key),
            ).insert("label"@, JsonTree::Text(label)).insert("default"@, JsonTree::Text(default)),
        ),
        SettingFieldView::Select { key, label, default, options, options_from } => JsonTree::Object(
            no_members().insert("type"@, JsonTree::Text("select"@)).insert(
                "key"@,
                JsonTree::Text(key),
            ).insert("label"@, JsonTree::Text(label)).insert(
                "default"@,
                JsonTree::Text(default),
            ).insert("options"@, options_tree(options)).insert(
                "options_from"@,
                source_tree(options_from),
            ),
        ),
        SettingFieldView::Secret { key, label } => JsonTree::Object(
            no_members().insert("type"@, JsonTree::Text("secret"@)).insert(
                "key"@,
                JsonTree::Text(key),
            ).insert("label"@, JsonTree::Text(label)),
        ),
    }
}

/// Declared settings.
pub open spec fn settings_tree(settings: Seq<SettingFieldView>) -> JsonTree {
    JsonTree::Array(settings.map_values(|field: SettingFieldView| setting_tree(field)))
}

fn options_json(options: &Option<Vec<SelectOption>>) -> (r: serde_json::Value)
    ensures
        json_tree(r) == options_tree(crate::manifest::options_view(*options)),
{
    let options = match options {
        Some(options) => options,
        None => {
            return json_null();
        },
    };
    let mut items: Vec<serde_json::Value> = Vec::new();
    let mut i: usize = 0;
    while i < options.len()
        invariant
            i <= options.len(),
            items.len() == i,
            forall|j: int|
                0 <= j < i ==> json_tree(#[trigger] items@[j]) == option_tree(options@[j]@),
        decreases options.len() - i,
    {
        let mut members = map_new();
        map_insert(&mut members, "value", json_string(options[i].value.as_str()));
        map_insert(&mut members, "label", json_string(options[i].label.as_str()));
        items.push(json_object(members));
        i = i + 1;
    }
    assert(json_trees(items@) =~= views(options@).map_values(
        |option: SelectOptionView| option_tree(option),
    ));
    json_array(items)
}

fn source_json(source: &Option<OptionsFrom>) -> (r: serde_json::Value)
    ensures
        json_tree(r) == source_tree(
            match source {
                Some(source) => Some(source@),
                None => None,
            },
        ),
{
    match source {
        Some(source) => {
            let mut members = map_new();
            map_insert(&mut members, "driver", json_string(source.driver.as_str()));
            map_insert(&mut members, "topic", json_string(source.topic.as_str()));
            json_object(members)
        },
        None => json_null(),
    }
}

fn setting_json(field: &SettingField) -> (r: serde_json::Value)
    ensures
        json_tree(r) == setting_tree(field@),
{
    let mut members = map_new();
    match field {
        SettingField::String { key, label, default } => {
            map_insert(&mut members, "type", json_string("string"));
            map_insert(&mut members, "key", json_string(key.as_str()));
            map_insert(&mut members, "label", json_string(label.as_str()));
            map_insert(&mut members, "default", json_string(default.as_str()));
        },
        SettingField::Select { key, label, default, options, options_from } => {
            map_insert(&mut members, "type", json_string("select"));
            map_insert(&mut members, "key", json_string(key.as_str()));
            map_insert(&mut members, "label", json_string(label.as_str()));
            map_insert(&mut members, "default", json_string(default.as_str()));
            map_insert(&mut members, "options", options_json(options));
            map_insert(&mut members, "options_from", source_json(options_from));
        },
        SettingField::Secret { key, label } => {
            map_insert(&mut members, "type", json_string("secret"));
            map_insert(&mut members, "key", json_string(key.as_str()));
            map_insert(&mut members, "label", json_string(label.as_str()));
        },
    }
    json_object(members)
}

/// Declared settings as JSON.
pub fn settings_json(settings: &Vec<SettingField>) -> (r: serde_json::Value)
    ensures
        json_tree(r) == settings_tree(views(settings@)),
{
    let mut items: Vec<serde_json::Value> = Vec::new();
    let mut i: usize = 0;
    while i < settings.len()
        invariant
            i <= settings.len(),
            items.len() == i,
            forall|j: int|
                0 <= j < i ==> json_tree(#[trigger] items@[j]) == setting_tree(settings@[j]@),
        decreases settings.len() - i,
    {
        items.push(setting_json(&settings[i]));
        i = i + 1;
    }
    assert(json_trees(items@) =~= views(settings@).map_values(
        |field: SettingFieldView| setting_tree(field),
    ));
    json_array(items)
}

/// What a list says of a state: the reason only where there is one.
pub open spec fn with_state(
    members: Map<Seq<char>, JsonTree>,
    state: PluginStateView,
) -> JsonTree {
    match state {
        PluginStateView::Running => JsonTree::Object(
            members.insert("state"@, JsonTree::Text("running"@)),
        ),
        PluginStateView::Disabled { reason } => JsonTree::Object(
            members.insert("state"@, JsonTree::Text("disabled"@)).insert(
                "reason"@,
                JsonTree::Text(reason),
            ),
        ),
    }
}

fn add_state(members: &mut serde_json::Map<String, serde_json::Value>, state: &PluginState)
    ensures
        JsonTree::Object(json_members(*final(members))) == with_state(
            json_members(*old(members)),
            state@,
        ),
{
    match state {
        PluginState::Running => {
            map_insert(members, "state", json_string("running"));
        },
        PluginState::Disabled { reason } => {
            map_insert(members, "state", json_string("disabled"));
            map_insert(members, "reason", json_string(reason.as_str()));
        },
    }
}

fn layout_json(layout: &Option<serde_json::Value>) -> (r: serde_json::Value)
    ensures
        json_tree(r) == layout_tree(*layout),
{
    match layout {
        Some(layout) => json_clone(layout),
        None => json_null(),
    }
}

/// What a list of plugins says of one.
pub open spec fn plugin_tree(
    info: PluginInfo,
    bus: Seq<BusInfoView>,
    nexts: Seq<Option<Seq<char>>>,
) -> JsonTree {
    let m = info.manifest@;
    with_state(
        no_members().insert("id"@, JsonTree::Text(m.id)).insert(
            "name"@,
            JsonTree::Text(m.name),
        ).insert("version"@, JsonTree::Text(m.version)).insert(
            "description"@,
            JsonTree::Text(m.description),
        ).insert("settings"@, settings_tree(m.settings)).insert(
            "values"@,
            JsonTree::Object(json_members(info.values)),
        ).insert(
            "capabilities"@,
            capabilities_tree(views(info.capability_requests@), info.grant_state),
        ).insert("layout"@, layout_tree(info.layout)).insert(
            "sidecars"@,
            sidecars_tree(views(info.sidecars@)),
        ).insert("filesystem"@, roots_tree(views(info.filesystem@))).insert(
            "bus"@,
            connections_tree(bus),
        ).insert("dashboard"@, widgets_tree(views(info.dashboard@))).insert(
            "schedules"@,
            schedules_tree(views(info.schedules@), nexts),
        ).insert("dropped"@, dropped_tree(info.dropped)).insert(
            "secretsSet"@,
            texts_tree(views(info.secrets_set@)),
        ),
        info.state@,
    )
}

/// What a list of plugins says of one, as JSON.
pub fn plugin_entry_json(info: &PluginInfo, bus: &Vec<BusInfo>) -> (r: serde_json::Value)
    ensures
        exists|nexts: Seq<Option<Seq<char>>>|
            times_written(views(info.schedules@), nexts) && json_tree(r) == #[trigger] plugin_tree(
                *info,
                views(bus@),
                nexts,
            ),
{
    let m = &info.manifest;
    let capabilities = capabilities_result_json(&info.capability_requests, &info.grant_state);
    let schedules = schedule_items_json(&info.schedules);
    let ghost nexts = choose|nexts: Seq<Option<Seq<char>>>|
        times_written(views(info.schedules@), nexts) && json_tree(schedules)
            == #[trigger] schedules_tree(
            views(info.schedules@),
            nexts,
        );
    let mut members = map_new();
    map_insert(&mut members, "id", json_string(m.id.as_str()));
    map_insert(&mut members, "name", json_string(m.name.as_str()));
    map_insert(&mut members, "version", json_string(m.version.as_str()));
    map_insert(&mut members, "description", json_string(m.description.as_str()));
    map_insert(&mut members, "settings", settings_json(&m.settings));
    map_insert(&mut members, "values", json_object(map_clone(&info.values)));
    map_insert(&mut members, "capabilities", capabilities);
    map_insert(&mut members, "layout", layout_json(&info.layout));
    map_insert(&mut members, "sidecars", sidecar_items_json(&info.sidecars));
    map_insert(&mut members, "filesystem", filesystem_items_json(&info.filesystem));
    map_insert(&mut members, "bus", bus_items_json(bus));
    map_insert(&mut members, "dashboard", dashboard_items_json(&info.dashboard));
    map_insert(&mut members, "schedules", schedules);
    map_insert(&mut members, "dropped", dropped_result_json(&info.dropped));
    map_insert(&mut members, "secretsSet", json_strings(&info.secrets_set));
    add_state(&mut members, &info.state);
    let r = json_object(members);
    assert(json_tree(r) == plugin_tree(*info, views(bus@), nexts));
    r
}

/// What a widget's host page asks for.
pub open spec fn widget_url(plugin: Seq<char>, widget: Seq<char>, file: Seq<char>) -> Seq<char> {
    "/plugin-ui/"@ + plugin + ("/"@ + widget + "/"@) + file
}

/// What a list of widgets says of one.
pub open spec fn widget_entry_tree(
    widget: PluginWidgetView,
    events: Seq<Seq<char>>,
    file: Seq<char>,
) -> JsonTree {
    JsonTree::Object(
        no_members().insert("plugin"@, JsonTree::Text(widget.plugin)).insert(
            "pluginName"@,
            JsonTree::Text(widget.plugin_name),
        ).insert("widget"@, JsonTree::Text(widget.info.request.id)).insert(
            "title"@,
            JsonTree::Text(widget.info.request.title),
        ).insert(
            "url"@,
            JsonTree::Text(widget_url(widget.plugin, widget.info.request.id, file)),
        ).insert("size"@, JsonTree::Text(widget.info.request.size.name())).insert(
            "events"@,
            texts_tree(events),
        ).insert("resolved"@, JsonTree::Bool(widget.info.resolved)).insert(
            "state"@,
            JsonTree::Text(
                match widget.state {
                    PluginStateView::Running => "running"@,
                    PluginStateView::Disabled { .. } => "disabled"@,
                },
            ),
        ),
    )
}

/// What a list of widgets says of one, as JSON.
pub fn widget_entry_json(widget: &PluginWidget, events: &Vec<String>, file: &str) -> (r:
    serde_json::Value)
    ensures
        json_tree(r) == widget_entry_tree(widget@, views(events@), file@),
{
    let request = &widget.info.request;
    let under = joined3("/", request.id.as_str(), "/");
    let head = joined3("/plugin-ui/", widget.plugin.as_str(), under.as_str());
    let url = joined(head.as_str(), file);
    assert(url@ == widget_url(widget.plugin@, request.id@, file@));
    let state = match &widget.state {
        PluginState::Running => "running",
        PluginState::Disabled { .. } => "disabled",
    };
    let mut members = map_new();
    map_insert(&mut members, "plugin", json_string(widget.plugin.as_str()));
    map_insert(&mut members, "pluginName", json_string(widget.plugin_name.as_str()));
    map_insert(&mut members, "widget", json_string(request.id.as_str()));
    map_insert(&mut members, "title", json_string(request.title.as_str()));
    map_insert(&mut members, "url", json_string(url.as_str()));
    map_insert(&mut members, "size", json_string(request.size.as_str()));
    map_insert(&mut members, "events", json_strings(events));
    map_insert(&mut members, "resolved", json_bool(widget.info.resolved));
    map_insert(&mut members, "state", json_string(state));
    json_object(members)
}

/// A topic of a driver.
pub open spec fn topic_tree(topic: TopicSpecView) -> JsonTree {
    JsonTree::Object(
        no_members().insert("name"@, JsonTree::Text(topic.name)).insert(
            "retain"@,
            JsonTree::Bool(topic.retain),
        ).insert("description"@, JsonTree::Text(topic.description)),
    )
}

/// The topics of a driver.
pub open spec fn topics_tree(topics: Seq<TopicSpecView>) -> JsonTree {
    JsonTree::Array(topics.map_values(|topic: TopicSpecView| topic_tree(topic)))
}

fn topics_json(topics: &Vec<TopicSpec>) -> (r: serde_json::Value)
    ensures
        json_tree(r) == topics_tree(views(topics@)),
{
    let mut items: Vec<serde_json::Value> = Vec::new();
    let mut i: usize = 0;
    while i < topics.len()
        invariant
            i <= topics.len(),
            items.len() == i,
            forall|j: int| 0 <= j < i ==> json_tree(#[trigger] items@[j]) == topic_tree(topics@[j]@),
        decreases topics.len() - i,
    {
        let mut members = map_new();
        map_insert(&mut members, "name", json_string(topics[i].name.as_str()));
        map_insert(&mut members, "retain", json_bool(topics[i].retain));
        map_insert(&mut members, "description", json_string(topics[i].description.as_str()));
        items.push(json_object(members));
        i = i + 1;
    }
    assert(json_trees(items@) =~= views(topics@).map_values(
        |topic: TopicSpecView| topic_tree(topic),
    ));
    json_array(items)
}

/// What a list of drivers says of one.
pub open spec fn driver_tree(info: DriverInfo) -> JsonTree {
    let m = info.manifest@;
    with_state(
        no_members().insert("id"@, JsonTree::Text(m.id)).insert(
            "name"@,
            JsonTree::Text(m.name),
        ).insert("version"@, JsonTree::Text(m.version)).insert(
            "description"@,
            JsonTree::Text(m.description),
        ).insert("topics"@, topics_tree(m.topics)).insert(
            "settings"@,
            settings_tree(m.settings),
        ).insert("values"@, JsonTree::Object(json_members(info.values))).insert(
            "capabilities"@,
            capabilities_tree(m.capabilities, info.grant_state),
        ).insert("sidecars"@, sidecars_tree(views(info.sidecars@))).insert(
            "filesystem"@,
            roots_tree(views(info.filesystem@)),
        ).insert("layout"@, layout_tree(info.layout)),
        info.state@,
    )
}

/// What a list of drivers says of one, as JSON.
pub fn driver_entry_json(info: &DriverInfo) -> (r: serde_json::Value)
    ensures
        json_tree(r) == driver_tree(*info),
{
    let m = &info.manifest;
    let capabilities = capabilities_result_json(&m.capabilities, &info.grant_state);
    let mut members = map_new();
    map_insert(&mut members, "id", json_string(m.id.as_str()));
    map_insert(&mut members, "name", json_string(m.name.as_str()));
    map_insert(&mut members, "version", json_string(m.version.as_str()));
    map_insert(&mut members, "description", json_string(m.description.as_str()));
    map_insert(&mut members, "topics", topics_json(&m.topics));
    map_insert(&mut members, "settings", settings_json(&m.settings));
    map_insert(&mut members, "values", json_object(map_clone(&info.values)));
    map_insert(&mut members, "capabilities", capabilities);
    map_insert(&mut members, "sidecars", sidecar_items_json(&info.sidecars));
    map_insert(&mut members, "filesystem", filesystem_items_json(&info.filesystem));
    map_insert(&mut members, "layout", layout_json(&info.layout));
    add_state(&mut members, &info.state);
    json_object(members)
}

/// A choice is shown with its value and its label.
pub proof fn law_a_choice_is_shown_with_its_label(option: SelectOptionView)
    ensures
        option_tree(option) matches JsonTree::Object(members) && {
            &&& members.dom() =~= set![
                "value"@,
                "label"@,
            ]
            &&& members["value"@] == JsonTree::Text(option.value)
            &&& members["label"@] == JsonTree::Text(option.label)
        },
{
    reveal_strlit("value");
    reveal_strlit("label");
    assert("value"@.len() == 5);
    assert("label"@.len() == 5);
    assert("value"@[0] == 'v');
    assert("label"@[0] == 'l');
}

/// Choices are shown one by one if there are any, and as null if they are not known.
pub proof fn law_choices_are_shown_in_order(options: Option<Seq<SelectOptionView>>, i: int)
    ensures
        options is None ==> options_tree(options) == JsonTree::Null,
        options matches Some(options) ==> (options_tree(Some(options)) matches JsonTree::Array(items)
            && items.len() == options.len() && (0 <= i < items.len() ==> items[i] == option_tree(
            options[i],
        ))),
{
}

/// Where choices come from is shown by the driver and the topic.
pub proof fn law_the_source_of_choices_is_shown(source: OptionsFromView)
    ensures
        source_tree(Some(source)) matches JsonTree::Object(members) && {
            &&& members.dom() =~= set![
                "driver"@,
                "topic"@,
            ]
            &&& members["driver"@] == JsonTree::Text(source.driver)
            &&& members["topic"@] == JsonTree::Text(source.topic)
        },
{
    reveal_strlit("driver");
    reveal_strlit("topic");
    assert("topic"@.len() == 5);
    assert("driver"@.len() == 6);
}

/// A setting that is a text is shown as it was declared.
pub proof fn law_a_text_setting_is_shown_as_declared(key: Seq<char>, label: Seq<char>, default: Seq<char>)
    ensures
        setting_tree((SettingFieldView::String { key, label, default })) matches JsonTree::Object(members) && {
            &&& members.dom() =~= set![
                "type"@,
                "key"@,
                "label"@,
                "default"@,
            ]
            &&& members["type"@] == JsonTree::Text("string"@)
            &&& members["key"@] == JsonTree::Text(key)
            &&& members["label"@] == JsonTree::Text(label)
            &&& members["default"@] == JsonTree::Text(default)
        },
{
    reveal_strlit("type");
    reveal_strlit("key");
    reveal_strlit("label");
    reveal_strlit("default");
    assert("key"@.len() == 3);
    assert("type"@.len() == 4);
    assert("label"@.len() == 5);
    assert("default"@.len() == 7);
}

/// A setting that is a choice is shown as it was declared, with its choices and where they
/// come from.
pub proof fn law_a_choice_setting_is_shown_as_declared(key: Seq<char>, label: Seq<char>, default: Seq<char>, options: Option<Seq<SelectOptionView>>, options_from: Option<OptionsFromView>)
    ensures
        setting_tree((SettingFieldView::Select { key, label, default, options, options_from })) matches JsonTree::Object(members) && {
            &&& members.dom() =~= set![
                "type"@,
                "key"@,
                "label"@,
                "default"@,
                "options"@,
                "options_from"@,
            ]
            &&& members["type"@] == JsonTree::Text("select"@)
            &&& members["key"@] == JsonTree::Text(key)
            &&& members["label"@] == JsonTree::Text(label)
            &&& members["default"@] == JsonTree::Text(default)
            &&& members["options"@] == options_tree(options)
            &&& members["options_from"@] == source_tree(options_from)
        },
{
    reveal_strlit("type");
    reveal_strlit("key");
    reveal_strlit("label");
    reveal_strlit("default");
    reveal_strlit("options");
    reveal_strlit("options_from");
    assert("key"@.len() == 3);
    assert("type"@.len() == 4);
    assert("label"@.len() == 5);
    assert("default"@.len() == 7);
    assert("options"@.len() == 7);
    assert("default"@[0] == 'd');
    assert("options"@[0] == 'o');
    assert("options_from"@.len() == 12);
}

/// A setting that is a secret is shown as it was declared.
pub proof fn law_a_secret_setting_is_shown_as_declared(key: Seq<char>, label: Seq<char>)
    ensures
        setting_tree((SettingFieldView::Secret { key, label })) matches JsonTree::Object(members) && {
            &&& members.dom() =~= set![
                "type"@,
                "key"@,
                "label"@,
            ]
            &&& members["type"@] == JsonTree::Text("secret"@)
            &&& members["key"@] == JsonTree::Text(key)
            &&& members["label"@] == JsonTree::Text(label)
        },
{
    reveal_strlit("type");
    reveal_strlit("key");
    reveal_strlit("label");
    assert("key"@.len() == 3);
    assert("type"@.len() == 4);
    assert("label"@.len() == 5);
}

/// Settings are shown one by one, in their order.
pub proof fn law_all_settings_are_shown_in_order(settings: Seq<SettingFieldView>, i: int)
    requires
        0 <= i < settings.len(),
    ensures
        settings_tree(settings) matches JsonTree::Array(items) && items.len() == settings.len() && items[i] == setting_tree(settings[i]),
{
}

/// A topic of a driver is shown as it was declared.
pub proof fn law_a_topic_is_shown_as_declared(topic: TopicSpecView)
    ensures
        topic_tree(topic) matches JsonTree::Object(members) && {
            &&& members.dom() =~= set![
                "name"@,
                "retain"@,
                "description"@,
            ]
            &&& members["name"@] == JsonTree::Text(topic.name)
            &&& members["retain"@] == JsonTree::Bool(topic.retain)
            &&& members["description"@] == JsonTree::Text(topic.description)
        },
{
    reveal_strlit("name");
    reveal_strlit("retain");
    reveal_strlit("description");
    assert("name"@.len() == 4);
    assert("retain"@.len() == 6);
    assert("description"@.len() == 11);
}

/// Topics are shown one by one, in their order.
pub proof fn law_all_topics_are_shown_in_order(topics: Seq<TopicSpecView>, i: int)
    requires
        0 <= i < topics.len(),
    ensures
        topics_tree(topics) matches JsonTree::Array(items) && items.len() == topics.len() && items[i] == topic_tree(topics[i]),
{
}

/// A list of plugins shows of each what was declared, set, approved and measured of it, its
/// state, and the reason just if it is disabled.
pub proof fn law_a_plugin_is_shown_with_all_that_is_known(info: PluginInfo, bus: Seq<BusInfoView>, nexts: Seq<Option<Seq<char>>>)
    ensures
        plugin_tree(info, bus, nexts) matches JsonTree::Object(members) && {
            &&& members["id"@] == JsonTree::Text(info.manifest@.id)
            &&& members["name"@] == JsonTree::Text(info.manifest@.name)
            &&& members["version"@] == JsonTree::Text(info.manifest@.version)
            &&& members["description"@] == JsonTree::Text(info.manifest@.description)
            &&& members["settings"@] == settings_tree(info.manifest@.settings)
            &&& members["values"@] == JsonTree::Object(json_members(info.values))
            &&& members["capabilities"@] == capabilities_tree(views(info.capability_requests@), info.grant_state)
            &&& members["layout"@] == match info.layout {
                Some(layout) => json_tree(layout),
                None => JsonTree::Null,
            }
            &&& members["sidecars"@] == sidecars_tree(views(info.sidecars@))
            &&& members["filesystem"@] == roots_tree(views(info.filesystem@))
            &&& members["bus"@] == connections_tree(bus)
            &&& members["dashboard"@] == widgets_tree(views(info.dashboard@))
            &&& members["schedules"@] == schedules_tree(views(info.schedules@), nexts)
            &&& members["dropped"@] == dropped_tree(info.dropped)
            &&& members["secretsSet"@] == texts_tree(views(info.secrets_set@))
            &&& info.state@ is Running ==> members["state"@] == JsonTree::Text("running"@)
                && !members.dom().contains("reason"@)
            &&& info.state@ matches PluginStateView::Disabled { reason } ==> members["state"@]
                == JsonTree::Text("disabled"@) && members["reason"@] == JsonTree::Text(reason)
        },
{
    reveal_strlit("id");
    reveal_strlit("name");
    reveal_strlit("version");
    reveal_strlit("description");
    reveal_strlit("settings");
    reveal_strlit("values");
    reveal_strlit("capabilities");
    reveal_strlit("layout");
    reveal_strlit("sidecars");
    reveal_strlit("filesystem");
    reveal_strlit("bus");
    reveal_strlit("dashboard");
    reveal_strlit("schedules");
    reveal_strlit("dropped");
    reveal_strlit("secretsSet");
    reveal_strlit("state");
    reveal_strlit("reason");
    assert("id"@.len() == 2);
    assert("bus"@.len() == 3);
    assert("name"@.len() == 4);
    assert("state"@.len() == 5);
    assert("values"@.len() == 6);
    assert("layout"@.len() == 6);
    assert("reason"@.len() == 6);
    assert("values"@[0] == 'v');
    assert("layout"@[0] == 'l');
    assert("reason"@[0] == 'r');
    assert("version"@.len() == 7);
    assert("dropped"@.len() == 7);
    assert("version"@[0] == 'v');
    assert("dropped"@[0] == 'd');
    assert("settings"@.len() == 8);
    assert("sidecars"@.len() == 8);
    assert("settings"@[1] == 'e');
    assert("sidecars"@[1] == 'i');
    assert("dashboard"@.len() == 9);
    assert("schedules"@.len() == 9);
    assert("dashboard"@[0] == 'd');
    assert("schedules"@[0] == 's');
    assert("filesystem"@.len() == 10);
    assert("secretsSet"@.len() == 10);
    assert("filesystem"@[0] == 'f');
    assert("secretsSet"@[0] == 's');
    assert("description"@.len() == 11);
    assert("capabilities"@.len() == 12);
}

/// A list of drivers shows of each what was declared, set and approved of it, its state,
/// and the reason just if it is disabled.
pub proof fn law_a_driver_is_shown_with_all_that_is_known(info: DriverInfo)
    ensures
        driver_tree(info) matches JsonTree::Object(members) && {
            &&& members["id"@] == JsonTree::Text(info.manifest@.id)
            &&& members["name"@] == JsonTree::Text(info.manifest@.name)
            &&& members["version"@] == JsonTree::Text(info.manifest@.version)
            &&& members["description"@] == JsonTree::Text(info.manifest@.description)
            &&& members["topics"@] == topics_tree(info.manifest@.topics)
            &&& members["settings"@] == settings_tree(info.manifest@.settings)
            &&& members["values"@] == JsonTree::Object(json_members(info.values))
            &&& members["capabilities"@] == capabilities_tree(info.manifest@.capabilities, info.grant_state)
            &&& members["sidecars"@] == sidecars_tree(views(info.sidecars@))
            &&& members["filesystem"@] == roots_tree(views(info.filesystem@))
            &&& members["layout"@] == match info.layout {
                Some(layout) => json_tree(layout),
                None => JsonTree::Null,
            }
            &&& info.state@ is Running ==> members["state"@] == JsonTree::Text("running"@)
                && !members.dom().contains("reason"@)
            &&& info.state@ matches PluginStateView::Disabled { reason } ==> members["state"@]
                == JsonTree::Text("disabled"@) && members["reason"@] == JsonTree::Text(reason)
        },
{
    reveal_strlit("id");
    reveal_strlit("name");
    reveal_strlit("version");
    reveal_strlit("description");
    reveal_strlit("topics");
    reveal_strlit("settings");
    reveal_strlit("values");
    reveal_strlit("capabilities");
    reveal_strlit("sidecars");
    reveal_strlit("filesystem");
    reveal_strlit("layout");
    reveal_strlit("state");
    reveal_strlit("reason");
    assert("id"@.len() == 2);
    assert("name"@.len() == 4);
    assert("state"@.len() == 5);
    assert("topics"@.len() == 6);
    assert("values"@.len() == 6);
    assert("layout"@.len() == 6);
    assert("reason"@.len() == 6);
    assert("topics"@[0] == 't');
    assert("values"@[0] == 'v');
    assert("layout"@[0] == 'l');
    assert("reason"@[0] == 'r');
    assert("version"@.len() == 7);
    assert("settings"@.len() == 8);
    assert("sidecars"@.len() == 8);
    assert("settings"@[1] == 'e');
    assert("sidecars"@[1] == 'i');
    assert("filesystem"@.len() == 10);
    assert("description"@.len() == 11);
    assert("capabilities"@.len() == 12);
}

/// A list of widgets says of each whose it is, where it is served, how large it wants to
/// be, which events its plugin asks for, and whether its file is there and its plugin runs.
pub proof fn law_a_listed_widget_says_where_it_is_served(widget: PluginWidgetView, events: Seq<Seq<char>>, file: Seq<char>)
    ensures
        widget_entry_tree(widget, events, file) matches JsonTree::Object(members) && {
            &&& members["plugin"@] == JsonTree::Text(widget.plugin)
            &&& members["pluginName"@] == JsonTree::Text(widget.plugin_name)
            &&& members["widget"@] == JsonTree::Text(widget.info.request.id)
            &&& members["title"@] == JsonTree::Text(widget.info.request.title)
            &&& members["size"@] == JsonTree::Text(match widget.info.request.size {
                    WidgetSize::Small => "small"@,
                    WidgetSize::Medium => "medium"@,
                    WidgetSize::Large => "large"@,
                })
            &&& members["events"@] == texts_tree(events)
            &&& members["resolved"@] == JsonTree::Bool(widget.info.resolved)
            &&& members["state"@] == JsonTree::Text(if widget.state is Running {
                    "running"@
                } else {
                    "disabled"@
                })
            &&& members["url"@] matches JsonTree::Text(url) && url == "/plugin-ui/"@ + widget.plugin
                + "/"@ + widget.info.request.id + "/"@ + file
        },
{
    reveal_strlit("plugin");
    reveal_strlit("pluginName");
    reveal_strlit("widget");
    reveal_strlit("title");
    reveal_strlit("size");
    reveal_strlit("events");
    reveal_strlit("resolved");
    reveal_strlit("state");
    reveal_strlit("url");
    assert("url"@.len() == 3);
    assert("size"@.len() == 4);
    assert("title"@.len() == 5);
    assert("state"@.len() == 5);
    assert("title"@[0] == 't');
    assert("state"@[0] == 's');
    assert("plugin"@.len() == 6);
    assert("widget"@.len() == 6);
    assert("events"@.len() == 6);
    assert("plugin"@[0] == 'p');
    assert("widget"@[0] == 'w');
    assert("events"@[0] == 'e');
    assert("resolved"@.len() == 8);
    assert("pluginName"@.len() == 10);
    let path = "/"@ + widget.info.request.id + "/"@;
    assert("/plugin-ui/"@ + widget.plugin + path + file =~= "/plugin-ui/"@ + widget.plugin + "/"@
        + widget.info.request.id + "/"@ + file);
}

/// The source of choices is shown as null just if there is none.
pub proof fn law_a_missing_source_is_shown_as_null(source: Option<OptionsFromView>)
    ensures
        source_tree(source) == JsonTree::Null <==> source is None,
{
}

} // verus!
