use serde_json::Value;

use edlr_core::capability::InMemoryGrantStorage;
use edlr_core::event::Event;
use edlr_core::manifest::{
    BusRequest, CapabilityRequest, DashboardWidget, DriverManifest, FilesystemMode,
    FilesystemRequest, Manifest, ScheduleRequest, ScheduleSpec, SettingField, SidecarRequest,
    TopicSpec, WidgetSize,
};
use edlr_core::registry::driver::{DriverRegistry, InstalledDrivers};
use edlr_core::registry::entries::{PluginState, SubjectEntry};
use edlr_core::registry::grants::{WidgetFile, WidgetFiles};
use edlr_core::registry::plugin::Registry;
use edlr_core::registry::{InMemoryBus, InMemoryProcesses};
use edlr_core::runner::plugin::queue::{channel, Lossy, Received, SharedState};
use edlr_core::runner::plugin::PluginWork;
use edlr_core::schedule::Clock;
use edlr_core::server::assets::{content_type_for, entry_file};
use edlr_core::server::context::RpcContext;
use edlr_core::server::frames::{bus_ws_frame, event_to_ws_json, hello_json};
use edlr_core::server::origin::{is_allowed_host, origin_allowed};
use edlr_core::server::replay::{ReplayBuffer, REPLAY_CAPACITY};
use edlr_core::server::request::{read_request, response_json};
use edlr_core::server::rpc::{
    acting_plugin, handle_drivers_rpc, handle_rpc, handle_rpc_with_drivers,
};
use edlr_core::settings::{FilesystemConfig, InMemoryConfigs, InMemorySettings, SidecarConfig};

type Plugins = Registry<InMemorySettings, InMemoryGrantStorage, InMemoryConfigs, InMemoryProcesses>;
type Drivers =
    DriverRegistry<InMemorySettings, InMemoryGrantStorage, InMemoryConfigs, InMemoryProcesses>;

fn json(text: &str) -> Value {
    serde_json::from_str(text).unwrap()
}

fn plain_manifest(id: &str) -> Manifest {
    Manifest {
        id: id.to_string(),
        name: id.to_string(),
        version: "0.1.0".into(),
        description: String::new(),
        entry: "plugin.wasm".into(),
        events: vec![],
        settings: vec![],
        capabilities: vec![],
        sidecars: vec![],
        filesystem: vec![],
        bus: vec![],
        dashboard: vec![],
        schedules: vec![],
    }
}

fn plain_driver(id: &str) -> DriverManifest {
    DriverManifest {
        id: id.to_string(),
        name: id.to_string(),
        version: "0.1.0".into(),
        description: String::new(),
        entry: "driver.wasm".into(),
        topics: vec![],
        settings: vec![],
        capabilities: vec![],
        sidecars: vec![],
        filesystem: vec![],
    }
}

fn entry<M>(manifest: M) -> SubjectEntry<M> {
    SubjectEntry {
        manifest,
        state: PluginState::Running,
        settings_json: "{}".to_string(),
        capabilities_json: "{\"hosts\":[]}".to_string(),
        sidecars_json: "[]".to_string(),
        filesystem_json: "[]".to_string(),
        bus_json: "[]".to_string(),
        layout: None,
    }
}

fn plugins() -> Plugins {
    Registry::new(
        InMemorySettings::new(),
        InMemoryGrantStorage::new(),
        InMemoryConfigs::new(),
        InMemoryProcesses::new(),
        "/plugins".to_string(),
    )
}

fn drivers() -> Drivers {
    DriverRegistry::new(
        InMemorySettings::new(),
        InMemoryGrantStorage::new(),
        InMemoryConfigs::new(),
        InMemoryProcesses::new(),
        "/drivers".to_string(),
    )
}

fn topic(name: &str, retain: bool) -> TopicSpec {
    TopicSpec { name: name.into(), retain, description: String::new() }
}

fn drivers_with_ed_state() -> Drivers {
    let mut manifest = plain_driver("ed-state");
    manifest.topics = vec![topic("current-system", true), topic("ship-status", false)];
    manifest.capabilities = vec![CapabilityRequest::Http {
        hosts: vec!["https://api.example.com".into()],
        reason: "r".into(),
    }];
    let mut drivers = drivers();
    drivers.push(entry(manifest));
    drivers
}

fn plugins_with_bus_request() -> Plugins {
    let mut manifest = plain_manifest("translator");
    manifest.bus = vec![BusRequest {
        driver: "ed-state".into(),
        publish: vec!["ship-status".into()],
        subscribe: vec!["current-system".into()],
        reason: "r".into(),
    }];
    let mut plugins = plugins();
    plugins.push(entry(manifest));
    plugins
}

fn plugins_with_dashboard() -> Plugins {
    let mut manifest = plain_manifest("widgety");
    manifest.events = vec!["FSDJump".into()];
    manifest.dashboard = vec![DashboardWidget {
        id: "status".into(),
        title: "Status".into(),
        entry: "ui/index.html".into(),
        size: WidgetSize::Small,
    }];
    let mut plugins = plugins();
    plugins.push(entry(manifest));
    plugins
}

fn drivers_with_sidecar_and_filesystem() -> Drivers {
    let mut manifest = plain_driver("voice");
    manifest.sidecars = vec![SidecarRequest {
        name: "engine".into(),
        reason: "r".into(),
        args: vec![],
        port: 51500,
        scalable: false,
    }];
    manifest.filesystem = vec![FilesystemRequest {
        name: "cache".into(),
        reason: "r".into(),
        mode: FilesystemMode::ReadWrite,
    }];
    let mut drivers = drivers();
    drivers.push(entry(manifest));
    drivers
}

/// What requests are answered from besides the registries.
struct Surroundings {
    bus: InMemoryBus,
    files: WidgetFiles,
    installed: InstalledDrivers,
}

fn surroundings() -> Surroundings {
    Surroundings {
        bus: InMemoryBus::new(),
        files: WidgetFiles { present: Vec::new() },
        installed: InstalledDrivers { manifests: Vec::new() },
    }
}

fn text_at(config: &Value, key: &str) -> Option<String> {
    config.get(key).and_then(|v| v.as_str()).map(|s| s.to_string())
}

fn read_sidecar_config(params: &Value) -> Result<SidecarConfig, String> {
    let config = params.get("config").ok_or("missing")?;
    let args = config
        .get("args")
        .and_then(|v| v.as_array())
        .map(|all| all.iter().map(|v| v.as_str().unwrap().to_string()).collect())
        .unwrap_or_default();
    Ok(SidecarConfig {
        command: text_at(config, "command").ok_or("missing command")?,
        args,
        port: config.get("port").and_then(|v| v.as_u64()).unwrap_or(0) as u16,
        replicas: config.get("replicas").and_then(|v| v.as_u64()).unwrap_or(1) as u16,
    })
}

fn read_filesystem_config(params: &Value) -> Result<FilesystemConfig, String> {
    let config = params.get("config").ok_or("missing")?;
    Ok(FilesystemConfig { path: text_at(config, "path").ok_or("missing path")? })
}

fn ask(
    around: &Surroundings,
    registry: Option<&mut Plugins>,
    drivers: Option<&mut Drivers>,
    method: &str,
    params: &str,
) -> Result<Value, String> {
    ask_with_queue(around, registry, drivers, None, method, params)
}

fn ask_with_queue(
    around: &Surroundings,
    registry: Option<&mut Plugins>,
    drivers: Option<&mut Drivers>,
    queue: Option<&mut SharedState<PluginWork, Lossy>>,
    method: &str,
    params: &str,
) -> Result<Value, String> {
    let params = json(params);
    let context = RpcContext {
        bus: &around.bus,
        drivers: &around.installed,
        files: &around.files,
        clock: Clock { wall: 1_785_000_000_000_000_000, mono: 86_400_000_000_000 },
        sidecar_config: &read_sidecar_config(&params),
        filesystem_config: &read_filesystem_config(&params),
    };
    handle_rpc_with_drivers(registry, drivers, &context, queue, method, &params)
}

/// A plugin that wants to talk to a driver, and that driver.
fn both() -> (Plugins, Drivers, Surroundings) {
    let drivers = drivers_with_ed_state();
    let mut around = surroundings();
    around.installed = drivers.installed();
    (plugins_with_bus_request(), drivers, around)
}

#[test]
fn bus_ws_frame_carries_driver_topic_and_lossy_payload() {
    let v = json(&bus_ws_frame("eddn", "upload-status", b"{\"ok\":true}"));
    assert_eq!(v["type"], "event");
    assert_eq!(v["kind"], "bus");
    assert_eq!(v["driver"], "eddn");
    assert_eq!(v["topic"], "upload-status");
    assert_eq!(v["payload"], "{\"ok\":true}");

    let v = json(&bus_ws_frame("eddn", "upload-status", &[0xff, 0xfe]));
    assert_eq!(v["payload"], "\u{fffd}\u{fffd}");
}

#[test]
fn drivers_bus_retained_returns_the_value_or_null() {
    let (_, mut drivers, mut around) = both();
    around.bus.retain("eddn", "upload-status", b"{\"ok\":true}".to_vec());

    let result = ask(
        &around,
        None,
        Some(&mut drivers),
        "drivers/bus-retained",
        r#"{"driver": "eddn", "topic": "upload-status"}"#,
    )
    .unwrap();
    assert_eq!(result["payload"], "{\"ok\":true}");

    let result = ask(
        &around,
        None,
        Some(&mut drivers),
        "drivers/bus-retained",
        r#"{"driver": "eddn", "topic": "nope"}"#,
    )
    .unwrap();
    assert_eq!(result["payload"], Value::Null);
}

fn ws_json_carries_replay_for_journal_events_and_never_for_status() {
    let journal = Event::Journal {
        timestamp: "2026-07-27T12:00:00Z".into(),
        event: "FSDJump".into(),
        raw: json(r#"{"event": "FSDJump"}"#),
        replay: true,
    };
    let parsed = json(&event_to_ws_json(&journal));
    assert_eq!(parsed["replay"], Value::Bool(true));

    let status = Event::Status { raw: json(r#"{"Flags": 1}"#) };
    let parsed = json(&event_to_ws_json(&status));
    assert_eq!(
        parsed.get("replay"),
        None,
        "status is a snapshot of the present; it has no replay notion"
    );
}

#[test]
fn tests_ws_json_carries_replay_for_journal_events_and_never_for_status() {
    ws_json_carries_replay_for_journal_events_and_never_for_status();
}

#[test]
fn server_ws_json_carries_replay_for_journal_events_and_never_for_status() {
    ws_json_carries_replay_for_journal_events_and_never_for_status();
}

fn drivers_list_returns_the_dir_and_the_topics() {
    let (mut registry, mut drivers, around) = both();
    let result = ask(&around, Some(&mut registry), Some(&mut drivers), "drivers/list", "{}").unwrap();
    assert!(result["driversDir"].is_string());
    assert_eq!(result["drivers"][0]["id"], "ed-state");
    assert_eq!(result["drivers"][0]["topics"][0]["name"], "current-system");
    assert_eq!(result["drivers"][0]["topics"][0]["retain"], true);
}

#[test]
fn tests_drivers_list_returns_the_dir_and_the_topics() {
    drivers_list_returns_the_dir_and_the_topics();
}

#[test]
fn server_drivers_list_returns_the_dir_and_the_topics() {
    drivers_list_returns_the_dir_and_the_topics();
}

fn drivers_list_carries_the_disabled_reason() {
    let mut drivers = drivers();
    drivers.push(SubjectEntry {
        state: PluginState::Disabled { reason: "init() failed: boom".to_string() },
        ..entry(plain_driver("broken-driver"))
    });
    let around = surroundings();
    let result = ask(&around, None, Some(&mut drivers), "drivers/list", "{}").unwrap();
    let entry = &result["drivers"][0];
    assert_eq!(entry["state"], "disabled");
    assert_eq!(
        entry["reason"], "init() failed: boom",
        "drivers/list must carry the disabled reason like plugins/list does"
    );
}

#[test]
fn tests_drivers_list_carries_the_disabled_reason() {
    drivers_list_carries_the_disabled_reason();
}

#[test]
fn server_drivers_list_carries_the_disabled_reason() {
    drivers_list_carries_the_disabled_reason();
}

fn drivers_rpc_without_a_driver_registry_reports_unavailable() {
    let (mut registry, _, around) = both();
    let err = ask(&around, Some(&mut registry), None, "drivers/list", "{}").unwrap_err();
    assert_eq!(err, "drivers unavailable");
}

#[test]
fn tests_drivers_rpc_without_a_driver_registry_reports_unavailable() {
    drivers_rpc_without_a_driver_registry_reports_unavailable();
}

#[test]
fn server_drivers_rpc_without_a_driver_registry_reports_unavailable() {
    drivers_rpc_without_a_driver_registry_reports_unavailable();
}

fn plugins_rpc_without_a_registry_reports_unavailable_even_with_drivers_present() {
    let (_, mut drivers, around) = both();
    let err = ask(&around, None, Some(&mut drivers), "plugins/list", "{}").unwrap_err();
    assert_eq!(err, "plugins unavailable");
}

#[test]
fn tests_plugins_rpc_without_a_registry_reports_unavailable_even_with_drivers_present() {
    plugins_rpc_without_a_registry_reports_unavailable_even_with_drivers_present();
}

#[test]
fn server_plugins_rpc_without_a_registry_reports_unavailable_even_with_drivers_present() {
    plugins_rpc_without_a_registry_reports_unavailable_even_with_drivers_present();
}

fn plugins_list_includes_bus_requests_with_their_resolution() {
    let (mut registry, mut drivers, around) = both();
    let result = ask(&around, Some(&mut registry), Some(&mut drivers), "plugins/list", "{}").unwrap();
    let bus = &result["plugins"][0]["bus"][0];
    assert_eq!(bus["driver"], "ed-state");
    assert_eq!(bus["publish"][0], "ship-status");
    assert_eq!(bus["subscribe"][0], "current-system");
    assert_eq!(bus["granted"], false);
    assert_eq!(bus["resolved"], true);
}

#[test]
fn tests_plugins_list_includes_bus_requests_with_their_resolution() {
    plugins_list_includes_bus_requests_with_their_resolution();
}

#[test]
fn server_plugins_list_includes_bus_requests_with_their_resolution() {
    plugins_list_includes_bus_requests_with_their_resolution();
}

fn plugins_list_reports_unresolved_when_the_driver_is_not_installed() {
    let mut registry = plugins_with_bus_request();
    let result = ask(&surroundings(), Some(&mut registry), None, "plugins/list", "{}").unwrap();
    let bus = &result["plugins"][0]["bus"][0];
    assert_eq!(bus["driver"], "ed-state");
    assert_eq!(bus["resolved"], false);
}

#[test]
fn tests_plugins_list_reports_unresolved_when_the_driver_is_not_installed() {
    plugins_list_reports_unresolved_when_the_driver_is_not_installed();
}

#[test]
fn server_plugins_list_reports_unresolved_when_the_driver_is_not_installed() {
    plugins_list_reports_unresolved_when_the_driver_is_not_installed();
}

fn set_bus_grant_requires_a_plugin_and_a_driver() {
    let (mut registry, mut drivers, around) = both();
    assert!(ask(
        &around,
        Some(&mut registry),
        Some(&mut drivers),
        "plugins/set-bus-grant",
        r#"{"plugin": "translator"}"#
    )
    .is_err());
}

#[test]
fn tests_set_bus_grant_requires_a_plugin_and_a_driver() {
    set_bus_grant_requires_a_plugin_and_a_driver();
}

#[test]
fn server_set_bus_grant_requires_a_plugin_and_a_driver() {
    set_bus_grant_requires_a_plugin_and_a_driver();
}

fn set_bus_grant_returns_the_full_bus_array_for_that_plugin() {
    let (mut registry, mut drivers, around) = both();
    let result = ask(
        &around,
        Some(&mut registry),
        Some(&mut drivers),
        "plugins/set-bus-grant",
        r#"{"plugin": "translator", "driver": "ed-state", "granted": true}"#,
    )
    .unwrap();
    assert_eq!(result["bus"][0]["driver"], "ed-state");
    assert_eq!(result["bus"][0]["granted"], true);
    assert_eq!(result["bus"][0]["resolved"], true);

    let listed = ask(&around, Some(&mut registry), Some(&mut drivers), "plugins/list", "{}").unwrap();
    assert_eq!(listed["plugins"][0]["bus"][0]["granted"], true);
}

#[test]
fn tests_set_bus_grant_returns_the_full_bus_array_for_that_plugin() {
    set_bus_grant_returns_the_full_bus_array_for_that_plugin();
}

#[test]
fn server_set_bus_grant_returns_the_full_bus_array_for_that_plugin() {
    set_bus_grant_returns_the_full_bus_array_for_that_plugin();
}

fn drivers_get_and_set_settings_round_trip() {
    let (_, mut drivers, around) = both();
    let updated = ask(
        &around,
        None,
        Some(&mut drivers),
        "drivers/set-settings",
        r#"{"driver": "ed-state", "values": {}}"#,
    )
    .unwrap();
    assert!(updated.is_object());

    let fetched = ask(
        &around,
        None,
        Some(&mut drivers),
        "drivers/get-settings",
        r#"{"driver": "ed-state"}"#,
    )
    .unwrap();
    assert!(fetched.is_object());
}

#[test]
fn tests_drivers_get_and_set_settings_round_trip() {
    drivers_get_and_set_settings_round_trip();
}

#[test]
fn server_drivers_get_and_set_settings_round_trip() {
    drivers_get_and_set_settings_round_trip();
}

fn drivers_set_capabilities_persists_the_grant() {
    let (_, mut drivers, around) = both();

    let granted = ask(
        &around,
        None,
        Some(&mut drivers),
        "drivers/set-capabilities",
        r#"{"driver": "ed-state", "granted": true}"#,
    )
    .unwrap();
    assert_eq!(granted["granted"], true);
    assert_eq!(granted["requests"][0]["kind"], "http");
    assert_eq!(granted["staleGrant"], false);

    let listed = ask(&around, None, Some(&mut drivers), "drivers/list", "{}").unwrap();
    assert_eq!(listed["drivers"][0]["capabilities"]["granted"], true);

    let revoked = ask(
        &around,
        None,
        Some(&mut drivers),
        "drivers/set-capabilities",
        r#"{"driver": "ed-state", "granted": false}"#,
    )
    .unwrap();
    assert_eq!(revoked["granted"], false);

    let listed_again = ask(&around, None, Some(&mut drivers), "drivers/list", "{}").unwrap();
    assert_eq!(listed_again["drivers"][0]["capabilities"]["granted"], false);
}

#[test]
fn tests_drivers_set_capabilities_persists_the_grant() {
    drivers_set_capabilities_persists_the_grant();
}

#[test]
fn server_drivers_set_capabilities_persists_the_grant() {
    drivers_set_capabilities_persists_the_grant();
}

fn drivers_set_sidecar_config_requires_driver_name_and_config() {
    let mut drivers = drivers_with_sidecar_and_filesystem();
    let around = surroundings();

    let err = ask(
        &around,
        None,
        Some(&mut drivers),
        "drivers/set-sidecar-config",
        r#"{"name": "engine", "config": {"command": "/bin/sh"}}"#,
    )
    .unwrap_err();
    assert_eq!(err, "params.driver must be a string");

    let err = ask(
        &around,
        None,
        Some(&mut drivers),
        "drivers/set-sidecar-config",
        r#"{"driver": "voice", "config": {"command": "/bin/sh"}}"#,
    )
    .unwrap_err();
    assert_eq!(err, "params.name must be a string");

    let err = ask(
        &around,
        None,
        Some(&mut drivers),
        "drivers/set-sidecar-config",
        r#"{"driver": "voice", "name": "engine"}"#,
    )
    .unwrap_err();
    assert_eq!(err, "params.config must be an object");
}

#[test]
fn tests_drivers_set_sidecar_config_requires_driver_name_and_config() {
    drivers_set_sidecar_config_requires_driver_name_and_config();
}

#[test]
fn server_drivers_set_sidecar_config_requires_driver_name_and_config() {
    drivers_set_sidecar_config_requires_driver_name_and_config();
}

fn drivers_set_sidecar_grant_requires_driver_name_and_granted() {
    let mut drivers = drivers_with_sidecar_and_filesystem();
    let around = surroundings();

    let err = ask(
        &around,
        None,
        Some(&mut drivers),
        "drivers/set-sidecar-grant",
        r#"{"name": "engine", "granted": true}"#,
    )
    .unwrap_err();
    assert_eq!(err, "params.driver must be a string");

    let err = ask(
        &around,
        None,
        Some(&mut drivers),
        "drivers/set-sidecar-grant",
        r#"{"driver": "voice", "granted": true}"#,
    )
    .unwrap_err();
    assert_eq!(err, "params.name must be a string");

    let err = ask(
        &around,
        None,
        Some(&mut drivers),
        "drivers/set-sidecar-grant",
        r#"{"driver": "voice", "name": "engine"}"#,
    )
    .unwrap_err();
    assert_eq!(err, "params.granted must be a bool");
}

#[test]
fn tests_drivers_set_sidecar_grant_requires_driver_name_and_granted() {
    drivers_set_sidecar_grant_requires_driver_name_and_granted();
}

#[test]
fn server_drivers_set_sidecar_grant_requires_driver_name_and_granted() {
    drivers_set_sidecar_grant_requires_driver_name_and_granted();
}

fn drivers_sidecar_control_requires_driver_name_and_action() {
    let mut drivers = drivers_with_sidecar_and_filesystem();
    let around = surroundings();

    let err = ask(
        &around,
        None,
        Some(&mut drivers),
        "drivers/sidecar-control",
        r#"{"name": "engine", "action": "stop"}"#,
    )
    .unwrap_err();
    assert_eq!(err, "params.driver must be a string");

    let err = ask(
        &around,
        None,
        Some(&mut drivers),
        "drivers/sidecar-control",
        r#"{"driver": "voice", "action": "stop"}"#,
    )
    .unwrap_err();
    assert_eq!(err, "params.name must be a string");

    let err = ask(
        &around,
        None,
        Some(&mut drivers),
        "drivers/sidecar-control",
        r#"{"driver": "voice", "name": "engine"}"#,
    )
    .unwrap_err();
    assert_eq!(err, "params.action must be a string");

    let err = ask(
        &around,
        None,
        Some(&mut drivers),
        "drivers/sidecar-control",
        r#"{"driver": "voice", "name": "engine", "action": "jump"}"#,
    )
    .unwrap_err();
    assert_eq!(err, "unknown action: jump");
}

#[test]
fn tests_drivers_sidecar_control_requires_driver_name_and_action() {
    drivers_sidecar_control_requires_driver_name_and_action();
}

#[test]
fn server_drivers_sidecar_control_requires_driver_name_and_action() {
    drivers_sidecar_control_requires_driver_name_and_action();
}

fn drivers_set_filesystem_config_requires_driver_name_and_config() {
    let mut drivers = drivers_with_sidecar_and_filesystem();
    let around = surroundings();

    let err = ask(
        &around,
        None,
        Some(&mut drivers),
        "drivers/set-filesystem-config",
        r#"{"name": "cache", "config": {"path": "/tmp"}}"#,
    )
    .unwrap_err();
    assert_eq!(err, "params.driver must be a string");

    let err = ask(
        &around,
        None,
        Some(&mut drivers),
        "drivers/set-filesystem-config",
        r#"{"driver": "voice", "config": {"path": "/tmp"}}"#,
    )
    .unwrap_err();
    assert_eq!(err, "params.name must be a string");

    let err = ask(
        &around,
        None,
        Some(&mut drivers),
        "drivers/set-filesystem-config",
        r#"{"driver": "voice", "name": "cache"}"#,
    )
    .unwrap_err();
    assert_eq!(err, "params.config must be an object");
}

#[test]
fn tests_drivers_set_filesystem_config_requires_driver_name_and_config() {
    drivers_set_filesystem_config_requires_driver_name_and_config();
}

#[test]
fn server_drivers_set_filesystem_config_requires_driver_name_and_config() {
    drivers_set_filesystem_config_requires_driver_name_and_config();
}

fn drivers_set_filesystem_grant_requires_driver_name_and_granted() {
    let mut drivers = drivers_with_sidecar_and_filesystem();
    let around = surroundings();

    let err = ask(
        &around,
        None,
        Some(&mut drivers),
        "drivers/set-filesystem-grant",
        r#"{"name": "cache", "granted": true}"#,
    )
    .unwrap_err();
    assert_eq!(err, "params.driver must be a string");

    let err = ask(
        &around,
        None,
        Some(&mut drivers),
        "drivers/set-filesystem-grant",
        r#"{"driver": "voice", "granted": true}"#,
    )
    .unwrap_err();
    assert_eq!(err, "params.name must be a string");

    let err = ask(
        &around,
        None,
        Some(&mut drivers),
        "drivers/set-filesystem-grant",
        r#"{"driver": "voice", "name": "cache"}"#,
    )
    .unwrap_err();
    assert_eq!(err, "params.granted must be a bool");
}

#[test]
fn tests_drivers_set_filesystem_grant_requires_driver_name_and_granted() {
    drivers_set_filesystem_grant_requires_driver_name_and_granted();
}

#[test]
fn server_drivers_set_filesystem_grant_requires_driver_name_and_granted() {
    drivers_set_filesystem_grant_requires_driver_name_and_granted();
}

fn drivers_set_sidecar_grant_persists_and_returns_the_full_sidecar_array() {
    let mut drivers = drivers_with_sidecar_and_filesystem();
    let around = surroundings();

    ask(
        &around,
        None,
        Some(&mut drivers),
        "drivers/set-sidecar-config",
        r#"{
            "driver": "voice",
            "name": "engine",
            "config": {"command": "/bin/sh", "args": ["-c", "sleep 30"], "port": 51500, "replicas": 1}
        }"#,
    )
    .unwrap();

    let result = ask(
        &around,
        None,
        Some(&mut drivers),
        "drivers/set-sidecar-grant",
        r#"{"driver": "voice", "name": "engine", "granted": true}"#,
    )
    .unwrap();
    assert_eq!(result["sidecars"][0]["name"], "engine");
    assert_eq!(result["sidecars"][0]["granted"], true);
    assert_eq!(result["sidecars"][0]["config"]["command"], "/bin/sh");
}

#[test]
fn tests_drivers_set_sidecar_grant_persists_and_returns_the_full_sidecar_array() {
    drivers_set_sidecar_grant_persists_and_returns_the_full_sidecar_array();
}

#[test]
fn server_drivers_set_sidecar_grant_persists_and_returns_the_full_sidecar_array() {
    drivers_set_sidecar_grant_persists_and_returns_the_full_sidecar_array();
}

fn drivers_set_filesystem_grant_rejects_granting_without_a_configured_path() {
    let mut drivers = drivers_with_sidecar_and_filesystem();
    let around = surroundings();

    let err = ask(
        &around,
        None,
        Some(&mut drivers),
        "drivers/set-filesystem-grant",
        r#"{"driver": "voice", "name": "cache", "granted": true}"#,
    )
    .unwrap_err();
    assert_eq!(err, "filesystem root cache has no directory configured; cannot grant");
}

#[test]
fn tests_drivers_set_filesystem_grant_rejects_granting_without_a_configured_path() {
    drivers_set_filesystem_grant_rejects_granting_without_a_configured_path();
}

#[test]
fn server_drivers_set_filesystem_grant_rejects_granting_without_a_configured_path() {
    drivers_set_filesystem_grant_rejects_granting_without_a_configured_path();
}

fn drivers_sidecar_control_rejects_starting_an_ungranted_sidecar() {
    let mut drivers = drivers_with_sidecar_and_filesystem();
    let around = surroundings();

    ask(
        &around,
        None,
        Some(&mut drivers),
        "drivers/set-sidecar-config",
        r#"{
            "driver": "voice",
            "name": "engine",
            "config": {"command": "/bin/sh", "args": ["-c", "sleep 30"], "port": 51500, "replicas": 1}
        }"#,
    )
    .unwrap();

    let err = ask(
        &around,
        None,
        Some(&mut drivers),
        "drivers/sidecar-control",
        r#"{"driver": "voice", "name": "engine", "action": "start"}"#,
    )
    .unwrap_err();
    assert_eq!(err, "sidecar engine is not granted");
}

#[test]
fn tests_drivers_sidecar_control_rejects_starting_an_ungranted_sidecar() {
    drivers_sidecar_control_rejects_starting_an_ungranted_sidecar();
}

#[test]
fn server_drivers_sidecar_control_rejects_starting_an_ungranted_sidecar() {
    drivers_sidecar_control_rejects_starting_an_ungranted_sidecar();
}

fn drivers_set_sidecar_config_reports_unknown_driver() {
    let mut drivers = drivers_with_sidecar_and_filesystem();
    let around = surroundings();

    let err = ask(
        &around,
        None,
        Some(&mut drivers),
        "drivers/set-sidecar-config",
        r#"{"driver": "not-a-driver", "name": "engine", "config": {"command": "/bin/sh", "args": [], "port": 51500, "replicas": 1}}"#,
    )
    .unwrap_err();
    assert_eq!(err, "unknown driver: not-a-driver");
}

#[test]
fn tests_drivers_set_sidecar_config_reports_unknown_driver() {
    drivers_set_sidecar_config_reports_unknown_driver();
}

#[test]
fn server_drivers_set_sidecar_config_reports_unknown_driver() {
    drivers_set_sidecar_config_reports_unknown_driver();
}

fn drivers_set_sidecar_grant_reports_unknown_driver() {
    let mut drivers = drivers_with_sidecar_and_filesystem();
    let around = surroundings();

    let err = ask(
        &around,
        None,
        Some(&mut drivers),
        "drivers/set-sidecar-grant",
        r#"{"driver": "not-a-driver", "name": "engine", "granted": true}"#,
    )
    .unwrap_err();
    assert_eq!(err, "unknown driver: not-a-driver");
}

#[test]
fn tests_drivers_set_sidecar_grant_reports_unknown_driver() {
    drivers_set_sidecar_grant_reports_unknown_driver();
}

#[test]
fn server_drivers_set_sidecar_grant_reports_unknown_driver() {
    drivers_set_sidecar_grant_reports_unknown_driver();
}

fn drivers_sidecar_control_reports_unknown_driver() {
    let mut drivers = drivers_with_sidecar_and_filesystem();
    let around = surroundings();

    let err = ask(
        &around,
        None,
        Some(&mut drivers),
        "drivers/sidecar-control",
        r#"{"driver": "not-a-driver", "name": "engine", "action": "start"}"#,
    )
    .unwrap_err();
    assert_eq!(err, "unknown driver: not-a-driver");
}

#[test]
fn tests_drivers_sidecar_control_reports_unknown_driver() {
    drivers_sidecar_control_reports_unknown_driver();
}

#[test]
fn server_drivers_sidecar_control_reports_unknown_driver() {
    drivers_sidecar_control_reports_unknown_driver();
}

fn drivers_set_filesystem_config_reports_unknown_driver() {
    let mut drivers = drivers_with_sidecar_and_filesystem();
    let around = surroundings();

    let err = ask(
        &around,
        None,
        Some(&mut drivers),
        "drivers/set-filesystem-config",
        r#"{"driver": "not-a-driver", "name": "cache", "config": {"path": "/tmp"}}"#,
    )
    .unwrap_err();
    assert_eq!(err, "unknown driver: not-a-driver");
}

#[test]
fn tests_drivers_set_filesystem_config_reports_unknown_driver() {
    drivers_set_filesystem_config_reports_unknown_driver();
}

#[test]
fn server_drivers_set_filesystem_config_reports_unknown_driver() {
    drivers_set_filesystem_config_reports_unknown_driver();
}

fn drivers_set_filesystem_grant_reports_unknown_driver() {
    let mut drivers = drivers_with_sidecar_and_filesystem();
    let around = surroundings();

    let err = ask(
        &around,
        None,
        Some(&mut drivers),
        "drivers/set-filesystem-grant",
        r#"{"driver": "not-a-driver", "name": "cache", "granted": true}"#,
    )
    .unwrap_err();
    assert_eq!(err, "unknown driver: not-a-driver");
}

#[test]
fn tests_drivers_set_filesystem_grant_reports_unknown_driver() {
    drivers_set_filesystem_grant_reports_unknown_driver();
}

#[test]
fn server_drivers_set_filesystem_grant_reports_unknown_driver() {
    drivers_set_filesystem_grant_reports_unknown_driver();
}

fn allows_localhost_origins() {
    assert!(origin_allowed("http://localhost:5173"));
    assert!(origin_allowed("http://127.0.0.1:8137"));
    assert!(origin_allowed("http://[::1]:8137"));
}

#[test]
fn mod_allows_localhost_origins() {
    allows_localhost_origins();
}

#[test]
fn server_allows_localhost_origins() {
    allows_localhost_origins();
}

fn allows_tauri_origins() {
    assert!(origin_allowed("tauri://localhost"));
    assert!(origin_allowed("http://tauri.localhost"));
    assert!(origin_allowed("https://tauri.localhost"));
}

#[test]
fn mod_allows_tauri_origins() {
    allows_tauri_origins();
}

#[test]
fn server_allows_tauri_origins() {
    allows_tauri_origins();
}

fn rejects_other_origins() {
    assert!(!origin_allowed("https://evil.example"));
    assert!(!origin_allowed("http://localhost.evil.example"));
    assert!(!origin_allowed("not a uri"));
}

#[test]
fn mod_rejects_other_origins() {
    rejects_other_origins();
}

#[test]
fn server_rejects_other_origins() {
    rejects_other_origins();
}

#[test]
fn plugins_list_includes_schedules_with_spec_strings_and_next() {
    let mut manifest = plain_manifest("scheduler-plugin");
    manifest.schedules = vec![
        ScheduleRequest {
            name: "flush".into(),
            spec: ScheduleSpec::IntervalSeconds(60),
            catch_up: false,
        },
        ScheduleRequest {
            name: "daily".into(),
            spec: ScheduleSpec::Cron("0 9 * * *".to_string()),
            catch_up: false,
        },
    ];
    let mut registry = plugins();
    registry.push(entry(manifest));
    let result = ask(&surroundings(), Some(&mut registry), None, "plugins/list", "{}").unwrap();
    let schedules = &result["plugins"][0]["schedules"];
    assert_eq!(schedules[0]["name"], "flush");
    assert_eq!(schedules[0]["spec"], "every 60s");
    assert_eq!(schedules[1]["name"], "daily");
    assert_eq!(schedules[1]["spec"], "cron: 0 9 * * *");
    assert!(chrono::DateTime::parse_from_rfc3339(schedules[0]["next"].as_str().unwrap()).is_ok());
}

#[test]
fn plugins_list_reports_dropped_counts() {
    let (mut registry, _, around) = both();
    let result = ask(&around, Some(&mut registry), None, "plugins/list", "{}").unwrap();
    let dropped = &result["plugins"][0]["dropped"];
    assert_eq!(dropped["events"], 0);
    assert_eq!(dropped["busDeliveries"], 0);
}

#[test]
fn plugins_list_reports_empty_schedules_array_when_none_declared() {
    let (mut registry, _, around) = both();
    let result = ask(&around, Some(&mut registry), None, "plugins/list", "{}").unwrap();
    assert_eq!(result["plugins"][0]["schedules"], json("[]"));
}

fn layout(field: &str) -> Value {
    let mut layout = json(r#"{"sections": [{"title": "基本", "children": [{"field": ""}]}]}"#);
    layout["sections"][0]["children"][0]["field"] = Value::from(field);
    layout
}

#[test]
fn plugins_list_includes_layout_or_null() {
    let (mut registry, mut drivers, around) = both();
    let result = ask(&around, Some(&mut registry), Some(&mut drivers), "plugins/list", "{}").unwrap();
    assert_eq!(result["plugins"][0]["layout"], Value::Null);

    registry.push(SubjectEntry {
        layout: Some(layout("voice")),
        ..entry(plain_manifest("layout-plugin"))
    });

    let result = ask(&around, Some(&mut registry), Some(&mut drivers), "plugins/list", "{}").unwrap();
    let entry = result["plugins"]
        .as_array()
        .unwrap()
        .iter()
        .find(|p| p["id"] == "layout-plugin")
        .expect("layout-plugin entry must be present");
    assert_eq!(entry["layout"]["sections"][0]["title"], "基本");
}

#[test]
fn drivers_list_includes_layout_or_null() {
    let (_, mut drivers, around) = both();
    let result = ask(&around, None, Some(&mut drivers), "drivers/list", "{}").unwrap();
    assert_eq!(result["drivers"][0]["layout"], Value::Null);

    drivers.push(SubjectEntry {
        layout: Some(layout("port")),
        ..entry(plain_driver("layout-driver"))
    });

    let result = ask(&around, None, Some(&mut drivers), "drivers/list", "{}").unwrap();
    let entry = result["drivers"]
        .as_array()
        .unwrap()
        .iter()
        .find(|d| d["id"] == "layout-driver")
        .expect("layout-driver entry must be present");
    assert_eq!(entry["layout"]["sections"][0]["title"], "基本");
}

fn widget_is_there() -> Surroundings {
    let mut around = surroundings();
    around.files.present.push(WidgetFile {
        plugin: "widgety".into(),
        entry: "ui/index.html".into(),
    });
    around
}

const APPROVE: &str = r#"{"plugin": "widgety", "widget": "status", "granted": true}"#;

#[test]
fn set_dashboard_grant_rpc_returns_full_dashboard_list() {
    let mut registry = plugins_with_dashboard();
    let around = widget_is_there();

    let result =
        ask(&around, Some(&mut registry), None, "plugins/set-dashboard-grant", APPROVE).unwrap();
    assert_eq!(result["dashboard"][0]["id"], "status");
    assert_eq!(result["dashboard"][0]["granted"], true);
    assert_eq!(result["dashboard"][0]["resolved"], true);
    assert_eq!(result["dashboard"][0]["size"], "small");

    let listed = ask(&around, Some(&mut registry), None, "plugins/list", "{}").unwrap();
    assert_eq!(listed["plugins"][0]["dashboard"][0]["granted"], true);

    let widgets = ask(&around, Some(&mut registry), None, "dashboard/list", "{}").unwrap();
    assert_eq!(widgets["widgets"][0]["plugin"], "widgety");
    assert_eq!(widgets["widgets"][0]["widget"], "status");
    assert_eq!(widgets["widgets"][0]["title"], "Status");
    assert_eq!(widgets["widgets"][0]["url"], "/plugin-ui/widgety/status/index.html");
    assert_eq!(widgets["widgets"][0]["size"], "small");
    assert_eq!(widgets["widgets"][0]["events"][0], "FSDJump");
    assert_eq!(widgets["widgets"][0]["resolved"], true);
    assert_eq!(widgets["widgets"][0]["state"], "running");
}

#[test]
fn dashboard_list_excludes_ungranted_widgets() {
    let mut registry = plugins_with_dashboard();
    let widgets = ask(&surroundings(), Some(&mut registry), None, "dashboard/list", "{}").unwrap();
    assert_eq!(widgets["widgets"].as_array().unwrap().len(), 0);
}

#[test]
fn set_dashboard_grant_requires_plugin_widget_and_granted() {
    let mut registry = plugins_with_dashboard();
    let around = surroundings();
    assert!(ask(
        &around,
        Some(&mut registry),
        None,
        "plugins/set-dashboard-grant",
        r#"{"plugin": "widgety"}"#
    )
    .is_err());
    assert!(ask(
        &around,
        Some(&mut registry),
        None,
        "plugins/set-dashboard-grant",
        r#"{"plugin": "widgety", "widget": "nope", "granted": true}"#
    )
    .is_err());
}

#[test]
fn widgets_act_through_the_queue_of_their_plugin() {
    let mut registry = plugins_with_dashboard();
    let around = surroundings();
    let act = r#"{"plugin": "widgety", "widget": "status", "name": "resync"}"#;
    let err = ask(&around, Some(&mut registry), None, "plugins/dashboard-action", act).unwrap_err();
    assert!(err.contains("status"), "got {err}");

    ask(&around, Some(&mut registry), None, "plugins/set-dashboard-grant", APPROVE).unwrap();
    let err = ask(&around, Some(&mut registry), None, "plugins/dashboard-action", act).unwrap_err();
    assert!(err.contains("widgety"), "got {err}");

    let (mut shared, _tx, rx) = channel();
    let result = ask_with_queue(
        &around,
        Some(&mut registry),
        None,
        Some(&mut shared),
        "plugins/dashboard-action",
        act,
    )
    .unwrap();
    assert!(result.is_object());
    match rx.recv(&mut shared) {
        Received::Work(PluginWork::Message(message)) => assert_eq!(message.topic, "resync"),
        other => panic!("expected a message, got {other:?}"),
    }
}

#[test]
fn unknown_methods_are_named() {
    let (mut registry, mut drivers, around) = both();
    let err = ask(&around, Some(&mut registry), None, "plugins/fly", "{}").unwrap_err();
    assert_eq!(err, "unknown method: plugins/fly");
    let err = ask(&around, None, Some(&mut drivers), "drivers/fly", "{}").unwrap_err();
    assert_eq!(err, "unknown method: drivers/fly");
}

#[test]
fn without_drivers_only_plugins_answer() {
    let (mut registry, mut drivers, around) = both();
    let params = json("{}");
    let context = RpcContext {
        bus: &around.bus,
        drivers: &around.installed,
        files: &around.files,
        clock: Clock { wall: 0, mono: 0 },
        sidecar_config: &read_sidecar_config(&params),
        filesystem_config: &read_filesystem_config(&params),
    };
    let none: Option<&mut SharedState<PluginWork, Lossy>> = None;
    let err =
        handle_rpc(Some(&mut registry), &context, none, "drivers/list", &params).unwrap_err();
    assert_eq!(err, "drivers unavailable");
    let none: Option<&mut SharedState<PluginWork, Lossy>> = None;
    let listed = handle_rpc(Some(&mut registry), &context, none, "plugins/list", &params).unwrap();
    assert_eq!(listed["pluginsDir"], "/plugins");
    let listed = handle_drivers_rpc(&mut drivers, &context, "list", &params).unwrap();
    assert_eq!(listed["driversDir"], "/drivers");
}

#[test]
fn settings_are_stored_and_secrets_are_kept_back() {
    let mut manifest = plain_manifest("p");
    manifest.settings = vec![
        SettingField::String { key: "name".into(), label: "Name".into(), default: "n".into() },
        SettingField::Secret { key: "token".into(), label: "Token".into() },
    ];
    let mut registry = plugins();
    registry.push(entry(manifest));
    let around = surroundings();
    let stored = ask(
        &around,
        Some(&mut registry),
        None,
        "plugins/set-settings",
        r#"{"plugin": "p", "values": {"name": "x", "token": "s3cret"}}"#,
    )
    .unwrap();
    assert_eq!(stored, json(r#"{"name": "x"}"#));
    let read =
        ask(&around, Some(&mut registry), None, "plugins/get-settings", r#"{"plugin": "p"}"#)
            .unwrap();
    assert_eq!(read, stored);
    let listed = ask(&around, Some(&mut registry), None, "plugins/list", "{}").unwrap();
    assert!(!listed.to_string().contains("s3cret"));
    assert_eq!(listed["plugins"][0]["secretsSet"], json(r#"["token"]"#));
    assert_eq!(listed["plugins"][0]["settings"][1]["type"], "secret");
}

#[test]
fn a_configuration_that_cannot_be_read_is_said_to_be_invalid() {
    let mut drivers = drivers_with_sidecar_and_filesystem();
    let err = ask(
        &surroundings(),
        None,
        Some(&mut drivers),
        "drivers/set-filesystem-config",
        r#"{"driver": "voice", "name": "cache", "config": {}}"#,
    )
    .unwrap_err();
    assert_eq!(err, "params.config is invalid: missing path");
}

#[test]
fn plugins_are_asked_about_their_parts() {
    let mut manifest = plain_manifest("p");
    manifest.capabilities = vec![CapabilityRequest::Http {
        hosts: vec!["a.example".into()],
        reason: "r".into(),
    }];
    manifest.sidecars = vec![SidecarRequest {
        name: "engine".into(),
        reason: "r".into(),
        args: vec![],
        port: 5000,
        scalable: false,
    }];
    manifest.filesystem = vec![FilesystemRequest {
        name: "cache".into(),
        reason: "r".into(),
        mode: FilesystemMode::Read,
    }];
    let mut registry = plugins();
    registry.push(entry(manifest));
    let around = surroundings();
    let mut get = |method: &str, params: &str| ask(&around, Some(&mut registry), None, method, params);
    let who = r#"{"plugin": "p"}"#;
    assert_eq!(get("plugins/get-sidecars", who).unwrap()["sidecars"][0]["port"], 5000);
    assert_eq!(get("plugins/get-filesystem", who).unwrap()["roots"][0]["mode"], "read");
    assert_eq!(get("plugins/get-capabilities", who).unwrap()["granted"], false);
    let on = r#"{"plugin": "p", "granted": true}"#;
    assert_eq!(get("plugins/set-capabilities", on).unwrap()["granted"], true);
    assert_eq!(get("plugins/get-capabilities", who).unwrap()["granted"], true);
    let config = r#"{"plugin": "p", "name": "engine", "config": {"command": "/bin/sh", "port": 5001}}"#;
    let set = get("plugins/set-sidecar-config", config).unwrap();
    assert_eq!(set["sidecars"][0]["config"]["port"], 5001);
    let on = r#"{"plugin": "p", "name": "engine", "granted": true}"#;
    assert_eq!(get("plugins/set-sidecar-grant", on).unwrap()["sidecars"][0]["granted"], true);
    let start = r#"{"plugin": "p", "name": "engine", "action": "start"}"#;
    let started = get("plugins/sidecar-control", start).unwrap();
    assert_eq!(started["sidecars"][0]["instances"][0]["state"], "running");
    let config = r#"{"plugin": "p", "name": "cache", "config": {"path": "/tmp"}}"#;
    let set = get("plugins/set-filesystem-config", config).unwrap();
    assert_eq!(set["roots"][0]["config"]["path"], "/tmp");
    let on = r#"{"plugin": "p", "name": "cache", "granted": true}"#;
    assert_eq!(get("plugins/set-filesystem-grant", on).unwrap()["roots"][0]["granted"], true);
    assert_eq!(
        get("plugins/get-sidecars", r#"{"plugin": "q"}"#).unwrap_err(),
        "unknown plugin: q"
    );
}

#[test]
fn a_connection_begins_with_a_greeting() {
    assert_eq!(json(&hello_json()), json(r#"{"type": "hello", "protocol": 1}"#));
}

#[test]
fn late_clients_are_told_the_latest_frames() {
    let mut replay = ReplayBuffer::new();
    for i in 0..REPLAY_CAPACITY + 2 {
        replay.push_frame(format!("{i}"));
    }
    let snapshot = replay.snapshot();
    assert_eq!(snapshot.len(), 1000);
    assert_eq!(snapshot[0], "2");
    assert_eq!(snapshot[999], "1001");
}

#[test]
fn only_requests_with_an_id_and_a_method_count() {
    let request = read_request(r#"{"type":"rpc","id":7,"method":"m"}"#).unwrap();
    assert_eq!(request.id, 7);
    assert_eq!(request.method, "m");
    assert_eq!(request.params, json("{}"));
    let request = read_request(r#"{"type":"rpc","id":-1,"method":"m","params":[1]}"#).unwrap();
    assert_eq!(request.params, json("[1]"));
    assert!(read_request("nothing").is_none());
    assert!(read_request(r#"{"type":"event","id":7,"method":"m"}"#).is_none());
    assert!(read_request(r#"{"type":"rpc","id":"7","method":"m"}"#).is_none());
    assert!(read_request(r#"{"type":"rpc","method":"m"}"#).is_none());
    assert!(read_request(r#"{"type":"rpc","id":7}"#).is_none());
}

#[test]
fn answers_carry_the_id_and_the_outcome() {
    assert_eq!(
        json(&response_json(7, Some(Ok(json("[1]"))))),
        json(r#"{"type": "rpc-result", "id": 7, "result": [1]}"#)
    );
    assert_eq!(
        json(&response_json(8, Some(Err("no".into())))),
        json(r#"{"type": "rpc-error", "id": 8, "error": "no"}"#)
    );
    assert_eq!(
        json(&response_json(9, None)),
        json(r#"{"type": "rpc-error", "id": 9, "error": "internal error"}"#)
    );
}

#[test]
fn files_are_typed_by_their_extension() {
    assert_eq!(content_type_for("ui/index.html"), "text/html; charset=utf-8");
    assert_eq!(content_type_for("ui/app.min.js"), "text/javascript; charset=utf-8");
    assert_eq!(content_type_for("a.jpeg"), "image/jpeg");
    assert_eq!(content_type_for("a.woff2"), "font/woff2");
    assert_eq!(content_type_for("a.HTML"), "application/octet-stream");
    assert_eq!(content_type_for(".html"), "application/octet-stream");
    assert_eq!(content_type_for("html"), "application/octet-stream");
    assert_eq!(content_type_for("a.html/.."), "application/octet-stream");
    assert_eq!(content_type_for("C:/plugins/widgety/ui/app.js"), "text/javascript; charset=utf-8");
    assert_eq!(content_type_for("back\\slash/logo.svg"), "image/svg+xml");
}

#[test]
fn a_widget_is_asked_for_by_the_name_of_its_entry() {
    assert_eq!(entry_file("ui/index.html"), "index.html");
    assert_eq!(entry_file("ui/app.html/"), "app.html");
    assert_eq!(entry_file(".."), "index.html");
    assert_eq!(entry_file("a:b/main.html"), "main.html");
}

#[test]
fn only_the_action_of_a_widget_reaches_a_queue() {
    let act = json(r#"{"plugin": "widgety", "widget": "status", "name": "resync"}"#);
    assert_eq!(acting_plugin("plugins/dashboard-action", &act), Some("widgety"));
    assert_eq!(acting_plugin("plugins/get-settings", &act), None);
    assert_eq!(acting_plugin("drivers/dashboard-action", &act), None);
    let nameless = json(r#"{"plugin": "widgety", "widget": "status"}"#);
    assert_eq!(acting_plugin("plugins/dashboard-action", &nameless), None);
}

#[test]
fn hosts_of_this_machine_may_stand_in_brackets() {
    assert!(is_allowed_host("[::1]", Some("ws")));
    assert!(is_allowed_host("::1", None));
    assert!(is_allowed_host("localhost", Some("tauri")));
    assert!(!is_allowed_host("example.com", Some("http")));
    assert!(!is_allowed_host("", None));
}

#[test]
fn the_own_window_is_allowed_under_the_schemes_of_the_web() {
    assert!(is_allowed_host("tauri.localhost", Some("http")));
    assert!(is_allowed_host("tauri.localhost", Some("https")));
    assert!(!is_allowed_host("tauri.localhost", Some("ftp")));
    assert!(!is_allowed_host("tauri.localhost", None));
    assert!(!origin_allowed("ftp://tauri.localhost"));
    assert!(!origin_allowed("tauri.localhost"));
    assert!(origin_allowed("ftp://localhost:21"));
    assert!(origin_allowed("HTTPS://tauri.localhost:8137"));
}
