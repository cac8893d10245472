//! Which request is handled by what.

use vstd::prelude::*;

use crate::capability::GrantStorage;
use crate::json::{json_tree, JsonTree};
use crate::registry::bus::DriverDirectory;
use crate::registry::driver::DriverRegistry;
use crate::registry::plugin::Registry;
use crate::registry::{BusPort, ProcessControl};
use crate::rpc::params::param_str;
use crate::runner::plugin::queue::{SharedState, WorkPolicy};
use crate::runner::plugin::PluginWork;
use crate::server::context::RpcContext;
use crate::server::request::replied;
use crate::server::rpc_drivers::{
    driver_settings_reply, drivers_listed, retained_reply, set_driver_settings_reply,
};
use crate::server::rpc_plugins::{
    acting, action_reply, bus_grant_reply, capabilities_reply, dashboard_grant_reply, idle_action_reply,
    plugins_listed, roots_reply, set_capabilities_reply, set_settings_reply, settings_reply,
    sidecars_reply, widgets_listed,
};
use crate::server::rpc_subjects::{
    named_params, root_config_reply, root_grant_reply, sidecar_config_reply, sidecar_control_reply,
    sidecar_grant_reply,
};
use crate::server::{rpc_drivers, rpc_plugins, rpc_subjects};
use crate::settings::{ConfigStorage, Storage};
use crate::text::{after_prefix, joined, rest_after, same_text};

verus! {

/// What a request about plugins does and is answered. An action of a widget changes
/// its plugin's queue, and no registry: of its answer see [`action_reply`].
pub open spec fn plugins_reply<
    St: Storage,
    G: GrantStorage,
    C: ConfigStorage,
    P: ProcessControl,
    B: BusPort,
    D: DriverDirectory,
>(
    before: Registry<St, G, C, P>,
    context: RpcContext<B, D>,
    method: Seq<char>,
    params: JsonTree,
    after: Registry<St, G, C, P>,
    r: Result<JsonTree, Seq<char>>,
) -> bool {
    &&& after.same_threads(before)
    &&& if method == "plugins/list"@ {
        after.subjects == before.subjects && plugins_listed(before, context, r)
    } else if method == "plugins/set-bus-grant"@ {
        bus_grant_reply(before.subjects, *context.drivers, params, after.subjects, r)
    } else if method == "plugins/set-dashboard-grant"@ {
        dashboard_grant_reply(before.subjects, *context.files, params, after.subjects, r)
    } else if method == "plugins/dashboard-action"@ {
        after.subjects == before.subjects
    } else if method == "dashboard/list"@ {
        after.subjects == before.subjects && widgets_listed(before.subjects, *context.files, r)
    } else if method == "plugins/get-settings"@ {
        after.subjects == before.subjects && r == settings_reply(before.subjects, params)
    } else if method == "plugins/set-settings"@ {
        set_settings_reply(before.subjects, params, after.subjects, r)
    } else if method == "plugins/get-capabilities"@ {
        after.subjects == before.subjects && r == capabilities_reply(before.subjects, params)
    } else if method == "plugins/set-capabilities"@ {
        set_capabilities_reply(before.subjects, "plugin"@, params, after.subjects, r)
    } else if method == "plugins/get-sidecars"@ {
        after.subjects == before.subjects && sidecars_reply(before.subjects, params, r)
    } else if method == "plugins/set-sidecar-config"@ {
        sidecar_config_reply(
            before.subjects,
            "plugin"@,
            params,
            *context.sidecar_config,
            after.subjects,
            r,
        )
    } else if method == "plugins/set-sidecar-grant"@ {
        sidecar_grant_reply(before.subjects, "plugin"@, params, after.subjects, r)
    } else if method == "plugins/sidecar-control"@ {
        sidecar_control_reply(before.subjects, "plugin"@, params, after.subjects, r)
    } else if method == "plugins/get-filesystem"@ {
        after.subjects == before.subjects && r == roots_reply(before.subjects, params)
    } else if method == "plugins/set-filesystem-config"@ {
        root_config_reply(
            before.subjects,
            "plugin"@,
            params,
            *context.filesystem_config,
            after.subjects,
            r,
        )
    } else if method == "plugins/set-filesystem-grant"@ {
        root_grant_reply(before.subjects, "plugin"@, params, after.subjects, r)
    } else {
        after.subjects == before.subjects && r == Err::<JsonTree, _>("unknown method: "@ + method)
    }
}

/// What a request about drivers does and is answered.
pub open spec fn drivers_reply<
    St: Storage,
    G: GrantStorage,
    C: ConfigStorage,
    P: ProcessControl,
    B: BusPort,
    D: DriverDirectory,
>(
    before: DriverRegistry<St, G, C, P>,
    context: RpcContext<B, D>,
    method: Seq<char>,
    params: JsonTree,
    after: DriverRegistry<St, G, C, P>,
    r: Result<JsonTree, Seq<char>>,
) -> bool {
    &&& after.drivers_dir == before.drivers_dir
    &&& if method == "list"@ {
        after.subjects == before.subjects && drivers_listed(before, *context.bus, r)
    } else if method == "bus-retained"@ {
        after.subjects == before.subjects && r == retained_reply(*context.bus, params)
    } else if method == "get-settings"@ {
        after.subjects == before.subjects && r == driver_settings_reply(before.subjects, params)
    } else if method == "set-settings"@ {
        set_driver_settings_reply(before.subjects, params, after.subjects, r)
    } else if method == "set-capabilities"@ {
        set_capabilities_reply(before.subjects, "driver"@, params, after.subjects, r)
    } else if method == "set-sidecar-config"@ {
        sidecar_config_reply(
            before.subjects,
            "driver"@,
            params,
            *context.sidecar_config,
            after.subjects,
            r,
        )
    } else if method == "set-sidecar-grant"@ {
        sidecar_grant_reply(before.subjects, "driver"@, params, after.subjects, r)
    } else if method == "sidecar-control"@ {
        sidecar_control_reply(before.subjects, "driver"@, params, after.subjects, r)
    } else if method == "set-filesystem-config"@ {
        root_config_reply(
            before.subjects,
            "driver"@,
            params,
            *context.filesystem_config,
            after.subjects,
            r,
        )
    } else if method == "set-filesystem-grant"@ {
        root_grant_reply(before.subjects, "driver"@, params, after.subjects, r)
    } else {
        after.subjects == before.subjects && r == Err::<JsonTree, _>(
            "unknown method: drivers/"@ + method,
        )
    }
}

/// The plugin whose queue a request is about: only a widget's action that says all
/// it has to say reaches a queue.
pub open spec fn queue_asked(method: Seq<char>, params: JsonTree) -> Option<Seq<char>> {
    if method == "plugins/dashboard-action"@ && acting(params) is Ok {
        Some(acting(params)->Ok_0.0)
    } else {
        None
    }
}

/// The plugin whose queue a request is about, if it is about one.
pub fn acting_plugin<'a>(method: &str, params: &'a serde_json::Value) -> (r: Option<&'a str>)
    ensures
        queue_asked(method@, json_tree(*params)) == match r {
            Some(plugin) => Some(plugin@),
            None => None,
        },
{
    if !same_text(method, "plugins/dashboard-action") {
        return None;
    }
    match (named_params(params, "plugin", "widget"), param_str(params, "name")) {
        (Ok((plugin, _)), Ok(_)) => Some(plugin),
        _ => None,
    }
}

/// Handles a request about plugins. The queue is that of the plugin that a widget's
/// action goes to, if it has a thread.
pub fn handle_plugins_rpc<
    St: Storage,
    G: GrantStorage,
    C: ConfigStorage,
    P: ProcessControl,
    B: BusPort,
    D: DriverDirectory,
    Q: WorkPolicy<PluginWork>,
>(
    registry: &mut Registry<St, G, C, P>,
    context: &RpcContext<B, D>,
    queue: Option<&mut SharedState<PluginWork, Q>>,
    method: &str,
    params: &serde_json::Value,
) -> (r: Result<serde_json::Value, String>)
    requires
        old(registry).well_formed(),
    ensures
        plugins_reply(
            *old(registry),
            *context,
            method@,
            json_tree(*params),
            *final(registry),
            replied(r),
        ),
        queue matches Some(queue) ==> {
            if method@ == "plugins/dashboard-action"@ {
                action_reply(
                    old(registry).subjects,
                    json_tree(*params),
                    *queue,
                    *final(queue),
                    replied(r),
                )
            } else {
                *final(queue) == *queue
            }
        },
        queue is None && method@ == "plugins/dashboard-action"@ ==> replied(r)
            == idle_action_reply(old(registry).subjects, json_tree(*params)),
{
    proof {
        reveal_strlit("plugins/list");
        reveal_strlit("plugins/set-bus-grant");
        reveal_strlit("plugins/set-dashboard-grant");
        reveal_strlit("plugins/dashboard-action");
        assert("plugins/list"@.len() == 12 && "plugins/set-bus-grant"@.len() == 21);
        assert("plugins/set-dashboard-grant"@.len() == 27 && "plugins/dashboard-action"@.len()
            == 24);
    }
    if same_text(method, "plugins/list") {
        rpc_plugins::list(registry, context)
    } else if same_text(method, "plugins/set-bus-grant") {
        rpc_plugins::set_bus_grant(registry, context.drivers, params)
    } else if same_text(method, "plugins/set-dashboard-grant") {
        rpc_plugins::set_dashboard_grant(registry, context.files, params)
    } else if same_text(method, "plugins/dashboard-action") {
        rpc_plugins::dashboard_action(registry, queue, params)
    } else if same_text(method, "dashboard/list") {
        rpc_plugins::dashboard_list(registry, context.files)
    } else if same_text(method, "plugins/get-settings") {
        rpc_plugins::get_settings(registry, params)
    } else if same_text(method, "plugins/set-settings") {
        rpc_plugins::set_settings(registry, params)
    } else if same_text(method, "plugins/get-capabilities") {
        rpc_plugins::get_capabilities(registry, params)
    } else if same_text(method, "plugins/set-capabilities") {
        rpc_plugins::set_capabilities(registry, params)
    } else if same_text(method, "plugins/get-sidecars") {
        rpc_plugins::get_sidecars(registry, params)
    } else if same_text(method, "plugins/set-sidecar-config") {
        rpc_subjects::set_sidecar_config(
            &mut registry.subjects,
            "plugin",
            params,
            context.sidecar_config,
        )
    } else if same_text(method, "plugins/set-sidecar-grant") {
        rpc_subjects::set_sidecar_grant(&mut registry.subjects, "plugin", params)
    } else if same_text(method, "plugins/sidecar-control") {
        rpc_subjects::sidecar_control(&mut registry.subjects, "plugin", params)
    } else if same_text(method, "plugins/get-filesystem") {
        rpc_plugins::get_filesystem(registry, params)
    } else if same_text(method, "plugins/set-filesystem-config") {
        rpc_subjects::set_filesystem_config(
            &mut registry.subjects,
            "plugin",
            params,
            context.filesystem_config,
        )
    } else if same_text(method, "plugins/set-filesystem-grant") {
        rpc_subjects::set_filesystem_grant(&mut registry.subjects, "plugin", params)
    } else {
        Err(joined("unknown method: ", method))
    }
}

/// Handles a request about drivers, named without its prefix.
pub fn handle_drivers_rpc<
    St: Storage,
    G: GrantStorage,
    C: ConfigStorage,
    P: ProcessControl,
    B: BusPort,
    D: DriverDirectory,
>(
    drivers: &mut DriverRegistry<St, G, C, P>,
    context: &RpcContext<B, D>,
    method: &str,
    params: &serde_json::Value,
) -> (r: Result<serde_json::Value, String>)
    ensures
        drivers_reply(
            *old(drivers),
            *context,
            method@,
            json_tree(*params),
            *final(drivers),
            replied(r),
        ),
{
    if same_text(method, "list") {
        rpc_drivers::list(drivers, context.bus)
    } else if same_text(method, "bus-retained") {
        rpc_drivers::bus_retained(drivers, context.bus, params)
    } else if same_text(method, "get-settings") {
        rpc_drivers::get_settings(drivers, params)
    } else if same_text(method, "set-settings") {
        rpc_drivers::set_settings(drivers, params)
    } else if same_text(method, "set-capabilities") {
        rpc_drivers::set_capabilities(drivers, params)
    } else if same_text(method, "set-sidecar-config") {
        rpc_subjects::set_sidecar_config(
            &mut drivers.subjects,
            "driver",
            params,
            context.sidecar_config,
        )
    } else if same_text(method, "set-sidecar-grant") {
        rpc_subjects::set_sidecar_grant(&mut drivers.subjects, "driver", params)
    } else if same_text(method, "sidecar-control") {
        rpc_subjects::sidecar_control(&mut drivers.subjects, "driver", params)
    } else if same_text(method, "set-filesystem-config") {
        rpc_subjects::set_filesystem_config(
            &mut drivers.subjects,
            "driver",
            params,
            context.filesystem_config,
        )
    } else if same_text(method, "set-filesystem-grant") {
        rpc_subjects::set_filesystem_grant(&mut drivers.subjects, "driver", params)
    } else {
        Err(joined("unknown method: drivers/", method))
    }
}

/// Handles a request. One whose name starts with `drivers/` is about drivers, and
/// any other about plugins; each is turned down if there is no such registry.
pub fn handle_rpc_with_drivers<
    St: Storage,
    G: GrantStorage,
    C: ConfigStorage,
    P: ProcessControl,
    B: BusPort,
    D: DriverDirectory,
    Q: WorkPolicy<PluginWork>,
>(
    registry: Option<&mut Registry<St, G, C, P>>,
    drivers: Option<&mut DriverRegistry<St, G, C, P>>,
    context: &RpcContext<B, D>,
    queue: Option<&mut SharedState<PluginWork, Q>>,
    method: &str,
    params: &serde_json::Value,
) -> (r: Result<serde_json::Value, String>)
    requires
        registry matches Some(registry) ==> registry.well_formed(),
    ensures
        match rest_after(method@, "drivers/"@) {
            Some(rest) => {
                &&& drivers matches Some(drivers) ==> drivers_reply(
                    *drivers,
                    *context,
                    rest,
                    json_tree(*params),
                    *final(drivers),
                    replied(r),
                )
                &&& drivers is None ==> replied(r) == Err::<JsonTree, _>("drivers unavailable"@)
                &&& registry matches Some(registry) ==> *final(registry) == *registry
                &&& queue matches Some(queue) ==> *final(queue) == *queue
            },
            None => {
                &&& registry matches Some(registry) ==> plugins_reply(
                    *registry,
                    *context,
                    method@,
                    json_tree(*params),
                    *final(registry),
                    replied(r),
                )
                &&& registry is None ==> replied(r) == Err::<JsonTree, _>("plugins unavailable"@)
                &&& drivers matches Some(drivers) ==> *final(drivers) == *drivers
                &&& queue matches Some(queue) ==> match registry {
                    Some(registry) => if method@ == "plugins/dashboard-action"@ {
                        action_reply(
                            registry.subjects,
                            json_tree(*params),
                            *queue,
                            *final(queue),
                            replied(r),
                        )
                    } else {
                        *final(queue) == *queue
                    },
                    None => *final(queue) == *queue,
                }
                &&& queue is None && method@ == "plugins/dashboard-action"@ ==> (registry matches Some(
                    registry,
                ) ==> replied(r) == idle_action_reply(registry.subjects, json_tree(*params)))
            },
        },
{
    match after_prefix(method, "drivers/") {
        Some(rest) => match drivers {
            Some(drivers) => handle_drivers_rpc(drivers, context, rest, params),
            None => Err("drivers unavailable".to_owned()),
        },
        None => match registry {
            Some(registry) => handle_plugins_rpc(registry, context, queue, method, params),
            None => Err("plugins unavailable".to_owned()),
        },
    }
}

/// Handles a request where there are no drivers.
pub fn handle_rpc<
    St: Storage,
    G: GrantStorage,
    C: ConfigStorage,
    P: ProcessControl,
    B: BusPort,
    D: DriverDirectory,
    Q: WorkPolicy<PluginWork>,
>(
    registry: Option<&mut Registry<St, G, C, P>>,
    context: &RpcContext<B, D>,
    queue: Option<&mut SharedState<PluginWork, Q>>,
    method: &str,
    params: &serde_json::Value,
) -> (r: Result<serde_json::Value, String>)
    requires
        registry matches Some(registry) ==> registry.well_formed(),
    ensures
        match rest_after(method@, "drivers/"@) {
            Some(_) => {
                &&& replied(r) == Err::<JsonTree, _>("drivers unavailable"@)
                &&& registry matches Some(registry) ==> *final(registry) == *registry
                &&& queue matches Some(queue) ==> *final(queue) == *queue
            },
            None => {
                &&& registry matches Some(registry) ==> plugins_reply(
                    *registry,
                    *context,
                    method@,
                    json_tree(*params),
                    *final(registry),
                    replied(r),
                )
                &&& registry is None ==> replied(r) == Err::<JsonTree, _>("plugins unavailable"@)
                &&& queue matches Some(queue) ==> match registry {
                    Some(registry) => if method@ == "plugins/dashboard-action"@ {
                        action_reply(
                            registry.subjects,
                            json_tree(*params),
                            *queue,
                            *final(queue),
                            replied(r),
                        )
                    } else {
                        *final(queue) == *queue
                    },
                    None => *final(queue) == *queue,
                }
                &&& queue is None && method@ == "plugins/dashboard-action"@ ==> (registry matches Some(
                    registry,
                ) ==> replied(r) == idle_action_reply(registry.subjects, json_tree(*params)))
            },
        },
{
    handle_rpc_with_drivers(registry, None, context, queue, method, params)
}

/// A request about plugins does and is answered what its name says, and one with another name
/// is turned down and changes nothing.
pub proof fn law_requests_about_plugins_go_by_their_name<
    St: Storage,
    G: GrantStorage,
    C: ConfigStorage,
    P: ProcessControl,
    B: BusPort,
    D: DriverDirectory,
>(
    before: Registry<St, G, C, P>,
    context: RpcContext<B, D>,
    method: Seq<char>,
    params: JsonTree,
    after: Registry<St, G, C, P>,
    r: Result<JsonTree, Seq<char>>,
)
    requires
        plugins_reply(before, context, method, params, after, r),
    ensures
        after.supervisor == before.supervisor,
        after.plugins_dir == before.plugins_dir,
        method == "plugins/list"@ ==> after.subjects == before.subjects && plugins_listed(before, context, r),
        method == "plugins/set-bus-grant"@ ==> bus_grant_reply(before.subjects, *context.drivers, params, after.subjects, r),
        method == "plugins/set-dashboard-grant"@ ==> dashboard_grant_reply(before.subjects, *context.files, params, after.subjects, r),
        method == "plugins/dashboard-action"@ ==> after.subjects == before.subjects,
        method == "dashboard/list"@ ==> after.subjects == before.subjects && widgets_listed(before.subjects, *context.files, r),
        method == "plugins/get-settings"@ ==> after.subjects == before.subjects && r == settings_reply(before.subjects, params),
        method == "plugins/set-settings"@ ==> set_settings_reply(before.subjects, params, after.subjects, r),
        method == "plugins/get-capabilities"@ ==> after.subjects == before.subjects && r == capabilities_reply(before.subjects, params),
        method == "plugins/set-capabilities"@ ==> set_capabilities_reply(before.subjects, "plugin"@, params, after.subjects, r),
        method == "plugins/get-sidecars"@ ==> after.subjects == before.subjects && sidecars_reply(before.subjects, params, r),
        method == "plugins/set-sidecar-config"@ ==> sidecar_config_reply(before.subjects, "plugin"@, params, *context.sidecar_config, after.subjects, r),
        method == "plugins/set-sidecar-grant"@ ==> sidecar_grant_reply(before.subjects, "plugin"@, params, after.subjects, r),
        method == "plugins/sidecar-control"@ ==> sidecar_control_reply(before.subjects, "plugin"@, params, after.subjects, r),
        method == "plugins/get-filesystem"@ ==> after.subjects == before.subjects && r == roots_reply(before.subjects, params),
        method == "plugins/set-filesystem-config"@ ==> root_config_reply(before.subjects, "plugin"@, params, *context.filesystem_config, after.subjects, r),
        method == "plugins/set-filesystem-grant"@ ==> root_grant_reply(before.subjects, "plugin"@, params, after.subjects, r),
        method != "plugins/list"@ && method != "plugins/set-bus-grant"@ && method != "plugins/set-dashboard-grant"@ && method != "plugins/dashboard-action"@ && method != "dashboard/list"@ && method != "plugins/get-settings"@ && method != "plugins/set-settings"@ && method != "plugins/get-capabilities"@ && method != "plugins/set-capabilities"@ && method != "plugins/get-sidecars"@ && method != "plugins/set-sidecar-config"@ && method != "plugins/set-sidecar-grant"@ && method != "plugins/sidecar-control"@ && method != "plugins/get-filesystem"@ && method != "plugins/set-filesystem-config"@ && method != "plugins/set-filesystem-grant"@ ==> after.subjects == before.subjects && r
            == Err::<JsonTree, _>("unknown method: "@ + method),
{
    reveal_strlit("plugins/list");
    reveal_strlit("plugins/set-bus-grant");
    reveal_strlit("plugins/set-dashboard-grant");
    reveal_strlit("plugins/dashboard-action");
    reveal_strlit("dashboard/list");
    reveal_strlit("plugins/get-settings");
    reveal_strlit("plugins/set-settings");
    reveal_strlit("plugins/get-capabilities");
    reveal_strlit("plugins/set-capabilities");
    reveal_strlit("plugins/get-sidecars");
    reveal_strlit("plugins/set-sidecar-config");
    reveal_strlit("plugins/set-sidecar-grant");
    reveal_strlit("plugins/sidecar-control");
    reveal_strlit("plugins/get-filesystem");
    reveal_strlit("plugins/set-filesystem-config");
    reveal_strlit("plugins/set-filesystem-grant");
    assert("plugins/list"@.len() == 12);
    assert("dashboard/list"@.len() == 14);
    assert("plugins/get-settings"@.len() == 20);
    assert("plugins/set-settings"@.len() == 20);
    assert("plugins/get-sidecars"@.len() == 20);
    assert("plugins/get-settings"@[8] == 'g');
    assert("plugins/set-settings"@[8] == 's');
    assert("plugins/get-sidecars"@[8] == 'g');
    assert("plugins/get-settings"@[13] == 'e');
    assert("plugins/set-settings"@[13] == 'e');
    assert("plugins/get-sidecars"@[13] == 'i');
    assert("plugins/set-bus-grant"@.len() == 21);
    assert("plugins/get-filesystem"@.len() == 22);
    assert("plugins/sidecar-control"@.len() == 23);
    assert("plugins/dashboard-action"@.len() == 24);
    assert("plugins/get-capabilities"@.len() == 24);
    assert("plugins/set-capabilities"@.len() == 24);
    assert("plugins/dashboard-action"@[8] == 'd');
    assert("plugins/get-capabilities"@[8] == 'g');
    assert("plugins/set-capabilities"@[8] == 's');
    assert("plugins/set-sidecar-grant"@.len() == 25);
    assert("plugins/set-sidecar-config"@.len() == 26);
    assert("plugins/set-dashboard-grant"@.len() == 27);
    assert("plugins/set-filesystem-grant"@.len() == 28);
    assert("plugins/set-filesystem-config"@.len() == 29);
}

/// A request about drivers does and is answered what its name says, and one with another name
/// is turned down and changes nothing.
pub proof fn law_requests_about_drivers_go_by_their_name<
    St: Storage,
    G: GrantStorage,
    C: ConfigStorage,
    P: ProcessControl,
    B: BusPort,
    D: DriverDirectory,
>(
    before: DriverRegistry<St, G, C, P>,
    context: RpcContext<B, D>,
    method: Seq<char>,
    params: JsonTree,
    after: DriverRegistry<St, G, C, P>,
    r: Result<JsonTree, Seq<char>>,
)
    requires
        drivers_reply(before, context, method, params, after, r),
    ensures
        after.drivers_dir == before.drivers_dir,
        method == "list"@ ==> after.subjects == before.subjects && drivers_listed(before, *context.bus, r),
        method == "bus-retained"@ ==> after.subjects == before.subjects && r == retained_reply(*context.bus, params),
        method == "get-settings"@ ==> after.subjects == before.subjects && r == driver_settings_reply(before.subjects, params),
        method == "set-settings"@ ==> set_driver_settings_reply(before.subjects, params, after.subjects, r),
        method == "set-capabilities"@ ==> set_capabilities_reply(before.subjects, "driver"@, params, after.subjects, r),
        method == "set-sidecar-config"@ ==> sidecar_config_reply(before.subjects, "driver"@, params, *context.sidecar_config, after.subjects, r),
        method == "set-sidecar-grant"@ ==> sidecar_grant_reply(before.subjects, "driver"@, params, after.subjects, r),
        method == "sidecar-control"@ ==> sidecar_control_reply(before.subjects, "driver"@, params, after.subjects, r),
        method == "set-filesystem-config"@ ==> root_config_reply(before.subjects, "driver"@, params, *context.filesystem_config, after.subjects, r),
        method == "set-filesystem-grant"@ ==> root_grant_reply(before.subjects, "driver"@, params, after.subjects, r),
        method != "list"@ && method != "bus-retained"@ && method != "get-settings"@ && method != "set-settings"@ && method != "set-capabilities"@ && method != "set-sidecar-config"@ && method != "set-sidecar-grant"@ && method != "sidecar-control"@ && method != "set-filesystem-config"@ && method != "set-filesystem-grant"@ ==> after.subjects == before.subjects && r
            == Err::<JsonTree, _>("unknown method: drivers/"@ + method),
{
    reveal_strlit("list");
    reveal_strlit("bus-retained");
    reveal_strlit("get-settings");
    reveal_strlit("set-settings");
    reveal_strlit("set-capabilities");
    reveal_strlit("set-sidecar-config");
    reveal_strlit("set-sidecar-grant");
    reveal_strlit("sidecar-control");
    reveal_strlit("set-filesystem-config");
    reveal_strlit("set-filesystem-grant");
    assert("list"@.len() == 4);
    assert("bus-retained"@.len() == 12);
    assert("get-settings"@.len() == 12);
    assert("set-settings"@.len() == 12);
    assert("bus-retained"@[0] == 'b');
    assert("get-settings"@[0] == 'g');
    assert("set-settings"@[0] == 's');
    assert("sidecar-control"@.len() == 15);
    assert("set-capabilities"@.len() == 16);
    assert("set-sidecar-grant"@.len() == 17);
    assert("set-sidecar-config"@.len() == 18);
    assert("set-filesystem-grant"@.len() == 20);
    assert("set-filesystem-config"@.len() == 21);
}

/// A request reaches the queue of a plugin just if it is an action of a widget that names the
/// plugin, the widget and the action, and it is the queue of that plugin.
pub proof fn law_only_actions_reach_a_queue(method: Seq<char>, members: Map<Seq<char>, JsonTree>)
    ensures
        ({
            let asked = queue_asked(method, JsonTree::Object(members));
            let whole = members.dom().contains("plugin"@) && members["plugin"@] is Text
                && members.dom().contains("widget"@) && members["widget"@] is Text
                && members.dom().contains("name"@) && members["name"@] is Text;
            &&& asked is Some <==> method == "plugins/dashboard-action"@ && whole
            &&& asked matches Some(plugin) ==> members["plugin"@] == JsonTree::Text(plugin)
        }),
{
}

} // verus!
