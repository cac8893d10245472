use chrono::Local;
use serde_json::Value;

use edlr_core::capability::{GrantStorage, InMemoryGrantStorage};
use edlr_core::manifest::{
    BusRequest, CapabilityRequest, DashboardWidget, DriverManifest, FilesystemMode,
    FilesystemRequest, Manifest, OptionsFrom, ScheduleRequest, ScheduleSpec, SelectOption,
    SettingField, SidecarRequest, TopicSpec, WidgetSize,
};
use edlr_core::registry::driver::{DriverEntry, DriverRegistry, InstalledDrivers};
use edlr_core::registry::entries::{PluginEntry, PluginState, SubjectEntry};
use edlr_core::registry::grants::{WidgetFile, WidgetFiles};
use edlr_core::registry::plugin::{PluginInfo, Registry};
use edlr_core::registry::sidecar::{sidecar_key, SidecarAction};
use edlr_core::registry::subject::RegistryError;
use edlr_core::registry::{InMemoryBus, InMemoryProcesses, ProcessControl, ProcessSpec};
use edlr_core::runner::plugin::queue::{channel, Lossy, Received, SharedState};
use edlr_core::runner::plugin::PluginWork;
use edlr_core::runtime::bus::parse_bus;
use edlr_core::runtime::dropped::DroppedCounts;
use edlr_core::schedule::{Clock, ScheduleView};
use edlr_core::settings::{
    ConfigStorage, FilesystemConfig, InMemoryConfigs, InMemorySettings, SidecarConfig,
};

type Plugins = Registry<InMemorySettings, InMemoryGrantStorage, InMemoryConfigs, InMemoryProcesses>;
type Drivers =
    DriverRegistry<InMemorySettings, InMemoryGrantStorage, InMemoryConfigs, InMemoryProcesses>;

fn now() -> i64 {
    Local::now().timestamp_nanos_opt().unwrap()
}

fn clock() -> Clock {
    Clock { wall: now(), mono: 86_400_000_000_000 }
}

fn no_files() -> WidgetFiles {
    WidgetFiles { present: Vec::new() }
}

fn widget_files() -> WidgetFiles {
    WidgetFiles {
        present: vec![WidgetFile { plugin: "widgety".into(), entry: "ui/index.html".into() }],
    }
}

fn no_drivers() -> InstalledDrivers {
    InstalledDrivers { manifests: Vec::new() }
}

fn json(text: &str) -> Value {
    serde_json::from_str(text).unwrap()
}

fn empty_registry() -> Plugins {
    Registry::new(
        InMemorySettings::new(),
        InMemoryGrantStorage::new(),
        InMemoryConfigs::new(),
        InMemoryProcesses::new(),
        "/plugins".to_string(),
    )
}

fn list(registry: &Plugins) -> Vec<PluginInfo> {
    registry.list(&InMemoryBus::new(), &no_files(), clock())
}

fn plain_manifest(id: &str) -> Manifest {
    Manifest {
        id: id.to_string(),
        name: id.to_string(),
        version: "0.1.0".into(),
        description: String::new(),
        entry: "plugin.wasm".into(),
        events: vec![],
        settings: vec![],
        capabilities: vec![],
        sidecars: vec![],
        filesystem: vec![],
        bus: vec![],
        dashboard: vec![],
        schedules: vec![],
    }
}

fn entry<M>(manifest: M) -> SubjectEntry<M> {
    SubjectEntry {
        manifest,
        state: PluginState::Running,
        settings_json: "{}".to_string(),
        capabilities_json: "{\"hosts\":[]}".to_string(),
        sidecars_json: "[]".to_string(),
        filesystem_json: "[]".to_string(),
        bus_json: "[]".to_string(),
        layout: None,
    }
}

fn registry_with(manifest: Manifest) -> Plugins {
    let mut registry = empty_registry();
    registry.push(entry(manifest));
    registry
}

#[test]
fn values_for_unknown_plugin_returns_unknown_plugin_error() {
    let registry = empty_registry();

    let err = registry
        .values("does-not-exist")
        .expect_err("unknown id should be rejected");

    assert!(matches!(err, RegistryError::UnknownPlugin(id) if id == "does-not-exist"));
}

#[test]
fn set_values_for_unknown_plugin_returns_unknown_plugin_error() {
    let mut registry = empty_registry();
    let mut values = serde_json::Map::new();
    values.insert("enabled".to_string(), Value::Bool(false));

    let err = registry
        .set_values("does-not-exist", &values)
        .expect_err("unknown id should be rejected");

    assert!(matches!(err, RegistryError::UnknownPlugin(id) if id == "does-not-exist"));
}

#[test]
fn set_capabilities_for_unknown_plugin_returns_unknown_plugin_error() {
    let mut registry = empty_registry();

    let err = registry
        .set_capabilities("does-not-exist", true)
        .expect_err("unknown id should be rejected");

    assert!(matches!(err, RegistryError::UnknownPlugin(id) if id == "does-not-exist"));
}

fn manifest_with_bus(id: &str) -> Manifest {
    let mut manifest = plain_manifest(id);
    manifest.bus = vec![BusRequest {
        driver: "ed-state".into(),
        publish: vec!["ship-status".into()],
        subscribe: vec!["current-system".into()],
        reason: "r".into(),
    }];
    manifest
}

fn test_registry_with_dynamic_select() -> Plugins {
    let mut manifest = manifest_with_bus("speaky");
    manifest.bus.clear();
    manifest.settings = vec![SettingField::Select {
        key: "speaker".into(),
        label: "話者".into(),
        default: String::new(),
        options: None,
        options_from: Some(OptionsFrom { driver: "coeiroink".into(), topic: "speakers".into() }),
    }];
    registry_with(manifest)
}

fn listed_options(registry: &Plugins, bus: &InMemoryBus) -> Option<Vec<SelectOption>> {
    let infos = registry.list(bus, &no_files(), clock());
    let SettingField::Select { options, .. } = &infos[0].manifest.settings[0] else {
        panic!("expected a select field");
    };
    options.clone()
}

fn plain_option(value: &str) -> SelectOption {
    SelectOption { value: value.into(), label: value.into() }
}

#[test]
fn list_fills_in_select_options_from_the_retained_value() {
    let mut bus = InMemoryBus::new();
    bus.retain("coeiroink", "speakers", br#"["Ame","Tsuina"]"#.to_vec());

    let registry = test_registry_with_dynamic_select();

    assert_eq!(
        listed_options(&registry, &bus),
        Some(vec![plain_option("Ame"), plain_option("Tsuina")])
    );
}

#[test]
fn list_leaves_select_options_unresolved_without_a_driver() {
    let registry = test_registry_with_dynamic_select();

    assert_eq!(listed_options(&registry, &InMemoryBus::new()), None);
}

fn test_registry_with_secret() -> Plugins {
    let mut manifest = plain_manifest("secret-plugin");
    manifest.settings = vec![
        SettingField::String {
            key: "endpoint".into(),
            label: "Endpoint".into(),
            default: "https://example.test".into(),
        },
        SettingField::Secret { key: "api-key".into(), label: "API Key".into() },
    ];
    registry_with(manifest)
}

#[test]
fn secret_values_never_appear_in_read_responses() {
    let mut registry = test_registry_with_secret();

    let mut values = serde_json::Map::new();
    values.insert("api-key".into(), Value::from("sk-live-123"));
    let returned = registry
        .set_values("secret-plugin", &values)
        .expect("storing a secret should succeed");

    assert!(
        !returned.contains_key("api-key"),
        "set_values must not echo the secret back"
    );

    let fetched = registry.values("secret-plugin").expect("values");
    assert!(
        !fetched.contains_key("api-key"),
        "plugins/get-settings must not return the secret"
    );
    assert_eq!(fetched.get("endpoint"), Some(&Value::from("https://example.test")));

    let infos = list(&registry);
    assert!(
        !infos[0].values.contains_key("api-key"),
        "plugins/list must not return the secret"
    );
    assert_eq!(
        infos[0].secrets_set,
        vec!["api-key".to_string()],
        "but it must say the secret is configured"
    );

    let buffer = registry.entry_settings("secret-plugin").unwrap();
    assert!(
        buffer.contains("sk-live-123"),
        "the guest-facing settings buffer must still carry the secret, got {buffer}"
    );
}

#[test]
fn an_unset_secret_is_not_reported_as_configured() {
    let registry = test_registry_with_secret();
    let infos = list(&registry);
    assert!(infos[0].secrets_set.is_empty());
    assert!(!infos[0].values.contains_key("api-key"));
}

fn test_registry_with_schedule() -> Plugins {
    let mut manifest = plain_manifest("scheduler-plugin");
    manifest.schedules = vec![
        ScheduleRequest {
            name: "flush".into(),
            spec: ScheduleSpec::IntervalSeconds(60),
            catch_up: false,
        },
        ScheduleRequest {
            name: "daily".into(),
            spec: ScheduleSpec::Cron("0 9 * * *".to_string()),
            catch_up: false,
        },
    ];
    registry_with(manifest)
}

#[test]
fn list_reports_schedules_with_name_spec_and_next() {
    let registry = test_registry_with_schedule();
    let infos = list(&registry);
    assert_eq!(infos.len(), 1);
    let schedules = &infos[0].schedules;
    assert_eq!(schedules.len(), 2);

    assert_eq!(schedules[0].name, "flush");
    assert_eq!(schedules[0].spec, ScheduleSpec::IntervalSeconds(60));
    assert!(schedules[0].next > now() as i128);

    assert_eq!(schedules[1].name, "daily");
    assert_eq!(schedules[1].spec, ScheduleSpec::Cron("0 9 * * *".to_string()));
    assert!(schedules[1].next > now() as i128);
}

#[test]
fn list_reports_the_next_fire_published_by_the_runner_thread() {
    let mut registry = test_registry_with_schedule();

    let published_flush = now() as i128 + 3_000_000_000;
    let view = ScheduleView { times: vec![("flush".to_string(), published_flush)] };
    registry.supervisor.register_schedule_view("scheduler-plugin", view);

    let infos = list(&registry);
    let schedules = &infos[0].schedules;

    assert_eq!(schedules[0].name, "flush");
    assert_eq!(schedules[0].next, published_flush);

    assert_eq!(schedules[1].name, "daily");
    assert!(schedules[1].next > now() as i128);
}

#[test]
fn list_falls_back_to_the_estimate_when_nothing_is_published() {
    let mut registry = test_registry_with_schedule();
    registry
        .supervisor
        .register_schedule_view("scheduler-plugin", ScheduleView::new());

    let infos = list(&registry);
    assert_eq!(infos[0].schedules.len(), 2);
    assert!(infos[0].schedules[0].next > now() as i128);
}

fn manifest_with_dashboard(id: &str) -> Manifest {
    let mut manifest = plain_manifest(id);
    manifest.events = vec!["FSDJump".into()];
    manifest.dashboard = vec![DashboardWidget {
        id: "status".into(),
        title: "Status".into(),
        entry: "ui/index.html".into(),
        size: WidgetSize::Small,
    }];
    manifest
}

fn test_registry_with_dashboard() -> Plugins {
    registry_with(manifest_with_dashboard("widgety"))
}

#[test]
fn list_reports_empty_schedules_array_when_none_declared() {
    let registry = registry_with(manifest_with_dashboard("no-schedule-plugin"));

    let infos = list(&registry);
    assert_eq!(infos.len(), 1);
    assert!(infos[0].schedules.is_empty());
}

#[test]
fn dashboard_reports_resolved_only_when_entry_file_exists() {
    let registry = test_registry_with_dashboard();
    let infos = registry.dashboard("widgety", &no_files()).unwrap();
    assert_eq!(infos.len(), 1);
    assert!(!infos[0].resolved);
    assert!(registry.dashboard("widgety", &widget_files()).unwrap()[0].resolved);
}

#[test]
fn set_dashboard_grant_round_trips_and_rejects_unknown_widget() {
    let mut registry = test_registry_with_dashboard();

    let infos = registry
        .set_dashboard_grant("widgety", "status", true, &no_files())
        .unwrap();
    assert!(infos[0].grant.granted);
    let infos = registry
        .set_dashboard_grant("widgety", "status", false, &no_files())
        .unwrap();
    assert!(!infos[0].grant.granted);
    let err = registry
        .set_dashboard_grant("widgety", "nope", true, &no_files())
        .unwrap_err();
    assert!(matches!(err, RegistryError::UnknownDashboard(w) if w == "nope"));
}

#[test]
fn dashboard_widgets_for_ui_lists_every_declared_widget() {
    let registry = test_registry_with_dashboard();
    let widgets = registry.dashboard_widgets_for_ui(&no_files());
    assert_eq!(widgets.len(), 1);
    assert_eq!(widgets[0].plugin, "widgety");
    assert_eq!(widgets[0].plugin_name, "widgety");
    assert_eq!(widgets[0].info.request.id, "status");
    assert!(!widgets[0].info.grant.granted);
}

#[test]
fn dashboard_asset_path_requires_grant_and_rejects_traversal() {
    let mut registry = test_registry_with_dashboard();

    let err = registry
        .dashboard_asset_path("widgety", "status", "index.html")
        .unwrap_err();
    assert!(matches!(err, RegistryError::DashboardNotGranted(_)));

    registry
        .set_dashboard_grant("widgety", "status", true, &no_files())
        .unwrap();
    let asset = registry
        .dashboard_asset_path("widgety", "status", "app.js")
        .unwrap();
    assert_eq!(asset.plugin, "widgety");
    assert_eq!(asset.entry, "ui/index.html");
    assert_eq!(asset.beside.as_deref(), Some("app.js"));
    let asset = registry.dashboard_asset_path("widgety", "status", "").unwrap();
    assert_eq!(asset.entry, "ui/index.html");
    assert_eq!(asset.beside, None);
    assert!(registry
        .dashboard_asset_path("widgety", "status", "../manifest.toml")
        .is_err());
    assert!(registry
        .dashboard_asset_path("widgety", "status", "a/../../manifest.toml")
        .is_err());
    assert!(registry
        .dashboard_asset_path("widgety", "status", "/etc/passwd")
        .is_err());
    assert!(registry
        .dashboard_asset_path("widgety", "nope", "index.html")
        .is_err());
    assert!(registry
        .dashboard_asset_path("nope", "status", "index.html")
        .is_err());
}

#[test]
fn nothing_is_served_next_to_an_entry_that_is_a_root() {
    let mut manifest = manifest_with_dashboard("widgety");
    manifest.dashboard[0].entry = "/".into();
    let mut registry = registry_with(manifest);
    registry
        .set_dashboard_grant("widgety", "status", true, &no_files())
        .unwrap();
    let asset = registry.dashboard_asset_path("widgety", "status", "").unwrap();
    assert_eq!(asset.entry, "/");
    let err = registry
        .dashboard_asset_path("widgety", "status", "app.js")
        .unwrap_err();
    assert!(matches!(err, RegistryError::UnknownDashboard(w) if w == "status"));
}

fn no_queue<'a>() -> Option<&'a mut SharedState<PluginWork, Lossy>> {
    None
}

#[test]
fn dashboard_action_requires_grant_and_delivers_to_the_work_queue() {
    let mut registry = test_registry_with_dashboard();

    let err = registry
        .dashboard_action("widgety", "status", "resync", no_queue())
        .unwrap_err();
    assert!(matches!(err, RegistryError::DashboardNotGranted(_)));

    registry
        .set_dashboard_grant("widgety", "status", true, &no_files())
        .unwrap();

    let err = registry
        .dashboard_action("widgety", "status", "resync", no_queue())
        .unwrap_err();
    assert!(matches!(err, RegistryError::PluginNotRunning(id) if id == "widgety"));

    let (mut shared, _tx, rx) = channel();
    registry
        .dashboard_action("widgety", "status", "resync", Some(&mut shared))
        .unwrap();
    match rx.recv(&mut shared) {
        Received::Work(PluginWork::Message(delivery)) => {
            assert_eq!(delivery.plugin_id, "widgety");
            assert_eq!(delivery.driver_id, "dashboard");
            assert_eq!(delivery.topic, "resync");
            assert!(delivery.payload.is_empty());
        }
        _ => panic!("expected PluginWork::Message"),
    }
}

#[test]
fn a_bus_request_for_a_missing_driver_is_reported_as_unresolved() {
    let registry = registry_with(manifest_with_bus("translator"));
    let info = registry.bus("translator", &no_drivers()).unwrap();
    assert_eq!(info.len(), 1);
    assert!(!info[0].resolved);
}

fn topic(name: &str, retain: bool) -> TopicSpec {
    TopicSpec { name: name.into(), retain, description: String::new() }
}

fn ed_state() -> DriverManifest {
    DriverManifest {
        id: "ed-state".into(),
        name: "ED State".into(),
        version: "0.1.0".into(),
        description: String::new(),
        entry: "driver.wasm".into(),
        topics: vec![topic("ship-status", false), topic("current-system", true)],
        settings: vec![],
        capabilities: vec![],
        sidecars: vec![],
        filesystem: vec![],
    }
}

#[test]
fn a_bus_request_whose_driver_and_topics_are_all_installed_is_resolved() {
    let mut drivers: Drivers = DriverRegistry::new(
        InMemorySettings::new(),
        InMemoryGrantStorage::new(),
        InMemoryConfigs::new(),
        InMemoryProcesses::new(),
        "/drivers".to_string(),
    );
    let state: DriverEntry = entry(ed_state());
    drivers.push(state);

    let registry = registry_with(manifest_with_bus("translator"));

    let info = registry.bus("translator", &drivers).unwrap();
    assert_eq!(info.len(), 1);
    assert!(
        info[0].resolved,
        "driver is installed and both requested topics are declared, so this must resolve"
    );
    assert!(registry.bus("translator", &drivers.installed()).unwrap()[0].resolved);
}

#[test]
fn set_bus_grant_persists_and_updates_the_shared_buffer_both_ways() {
    let mut registry = registry_with(manifest_with_bus("translator"));

    let granted = registry
        .set_bus_grant("translator", "ed-state", true)
        .expect("granting a declared bus connection should succeed");
    assert!(granted.granted);
    let parsed = parse_bus(&registry.bus_buffer("translator").unwrap());
    let entry = parsed.get("ed-state").expect("entry present after grant");
    assert!(entry.granted);
    assert_eq!(entry.subscribe, vec!["current-system".to_string()]);

    let revoked = registry
        .set_bus_grant("translator", "ed-state", false)
        .expect("revoking should succeed");
    assert!(!revoked.granted);
    let parsed = parse_bus(&registry.bus_buffer("translator").unwrap());
    let entry = parsed.get("ed-state").expect("entry still present after revoke");
    assert!(!entry.granted);
    assert!(
        entry.subscribe.is_empty(),
        "a revoked bus connection must not keep its topics in the shared buffer"
    );
}

#[test]
fn set_bus_grant_for_an_undeclared_driver_returns_unknown_bus_error() {
    let mut registry = registry_with(manifest_with_bus("translator"));
    let err = registry
        .set_bus_grant("translator", "not-declared", true)
        .expect_err("undeclared bus connection must be rejected");
    assert!(matches!(err, RegistryError::UnknownBus(driver) if driver == "not-declared"));
}

fn manifest_with_sidecar(id: &str, port: u16) -> Manifest {
    let mut manifest = plain_manifest(id);
    manifest.sidecars = vec![SidecarRequest {
        name: "tts".into(),
        reason: "reason".into(),
        args: vec!["-c".into(), "sleep 30".into()],
        port,
        scalable: false,
    }];
    manifest
}

fn spec(port: u16) -> ProcessSpec {
    ProcessSpec {
        command: "/bin/sh".into(),
        args: vec!["-c".into(), "sleep 30".into()],
        ports: vec![port],
    }
}

#[test]
fn set_disabled_stops_all_sidecars_of_that_plugin() {
    let mut registry = registry_with(manifest_with_sidecar("sc-plugin", 50900));

    let key = sidecar_key("sc-plugin", "tts");
    let spec = spec(50900);
    registry
        .subjects
        .processes
        .ensure_started(&key, &spec)
        .expect("start the sidecar directly");
    assert!(
        registry.subjects.processes.status(&key, &spec)[0].running,
        "sidecar should be running before disabling the plugin"
    );

    registry.set_disabled("sc-plugin", "on-event trapped".to_string());

    assert!(
        !registry.subjects.processes.status(&key, &spec)[0].running,
        "set_disabled must stop the disabled plugin's sidecars"
    );
    let snapshot = registry.snapshot();
    assert!(matches!(
        snapshot
            .iter()
            .find(|(m, _)| m.id == "sc-plugin")
            .map(|(_, s)| s.clone()),
        Some(PluginState::Disabled { .. })
    ));
}

fn sidecar_config(command: &str, args: &[&str], port: u16) -> SidecarConfig {
    SidecarConfig {
        command: command.to_string(),
        args: args.iter().map(|a| a.to_string()).collect(),
        port,
        replicas: 1,
    }
}

#[test]
fn control_sidecar_rejects_start_and_restart_once_the_plugin_is_disabled_but_allows_stop() {
    let manifest = manifest_with_sidecar("sc-plugin", 50930);
    let mut registry = registry_with(manifest.clone());
    registry
        .subjects
        .grants
        .set_sidecar(&manifest, "tts", true)
        .expect("grant should persist");
    registry
        .subjects
        .configs
        .update_sidecar(&manifest, "tts", &sidecar_config("/bin/sh", &["-c", "sleep 30"], 50930))
        .expect("config should persist");

    registry.set_disabled("sc-plugin", "on-event trapped".to_string());

    match registry.control_sidecar("sc-plugin", "tts", SidecarAction::Start) {
        Err(RegistryError::Sidecar(_)) => {}
        _ => panic!("Start on a disabled plugin's sidecar must be rejected as RegistryError::Sidecar"),
    }
    match registry.control_sidecar("sc-plugin", "tts", SidecarAction::Restart) {
        Err(RegistryError::Sidecar(_)) => {}
        _ => panic!("Restart on a disabled plugin's sidecar must be rejected as RegistryError::Sidecar"),
    }

    let key = sidecar_key("sc-plugin", "tts");
    assert!(
        !registry.subjects.processes.status(&key, &spec(50930))[0].running,
        "rejected Start/Restart must not have spawned anything"
    );

    registry
        .control_sidecar("sc-plugin", "tts", SidecarAction::Stop)
        .expect("Stop must never be blocked by the plugin's disabled state");
}

#[test]
fn set_sidecar_grant_rejects_granting_without_a_configured_command() {
    let manifest = manifest_with_sidecar("sc-plugin", 50920);
    let mut registry = registry_with(manifest.clone());

    match registry.set_sidecar_grant("sc-plugin", "tts", true) {
        Err(RegistryError::Sidecar(_)) => {}
        _ => panic!("granting with no command configured must be rejected as RegistryError::Sidecar"),
    }
    assert!(
        !registry.subjects.grants.sidecar_state(&manifest, "tts").granted,
        "a rejected grant must not be persisted"
    );

    registry
        .set_sidecar_grant("sc-plugin", "tts", false)
        .expect("revoke must always succeed");

    registry
        .subjects
        .configs
        .update_sidecar(&manifest, "tts", &sidecar_config("/bin/true", &[], 50920))
        .expect("config should persist");
    registry
        .set_sidecar_grant("sc-plugin", "tts", true)
        .expect("granting with a configured command must succeed");
    assert!(registry.subjects.grants.sidecar_state(&manifest, "tts").granted);
}

#[test]
fn set_capabilities_persists_grant_and_updates_shared_capabilities_json() {
    let mut manifest = plain_manifest("cap-plugin");
    manifest.capabilities = vec![CapabilityRequest::Http {
        hosts: vec!["https://api.example.com".to_string()],
        reason: "test".into(),
    }];
    let mut registry = registry_with(manifest);

    let state = registry
        .set_capabilities("cap-plugin", true)
        .expect("set_capabilities should succeed");

    assert!(state.granted);
    assert!(!state.stale);

    let stored = json(&registry.subjects.table.entries[0].capabilities_json);
    assert_eq!(stored["hosts"], json(r#"["https://api.example.com"]"#));

    let state = registry
        .set_capabilities("cap-plugin", false)
        .expect("revoke should succeed");
    assert!(!state.granted);
    let stored = json(&registry.subjects.table.entries[0].capabilities_json);
    assert_eq!(stored["hosts"], json("[]"));
}

#[test]
fn list_carries_layout_through() {
    let layout = json(
        r#"{ "sections": [ { "title": "基本", "description": null,
             "children": [ { "field": "voice" } ] } ] }"#,
    );
    let mut manifest = plain_manifest("layout-plugin");
    manifest.settings = vec![SettingField::String {
        key: "voice".into(),
        label: "Voice".into(),
        default: String::new(),
    }];
    let mut registry = empty_registry();
    let laid_out: PluginEntry = SubjectEntry { layout: Some(layout.clone()), ..entry(manifest) };
    registry.push(laid_out);

    let infos = list(&registry);

    assert_eq!(infos.len(), 1);
    assert_eq!(infos[0].layout, Some(layout));
}

#[test]
fn revoking_a_filesystem_root_takes_its_path_out_of_the_buffer() {
    let mut manifest = plain_manifest("fs-plugin");
    manifest.filesystem = vec![FilesystemRequest {
        name: "exports".into(),
        reason: "reason".into(),
        mode: FilesystemMode::ReadWrite,
    }];
    let mut registry = registry_with(manifest);
    let err = registry.set_filesystem_grant("fs-plugin", "exports", true).unwrap_err();
    assert_eq!(
        err.message(),
        "filesystem root exports has no directory configured; cannot grant"
    );
    let config = FilesystemConfig { path: "/data".into() };
    registry.set_filesystem_config("fs-plugin", "exports", &config).unwrap();
    registry.set_filesystem_grant("fs-plugin", "exports", true).unwrap();
    assert!(registry.filesystem_buffer("fs-plugin").unwrap().contains("/data"));
    let infos = registry.set_filesystem_grant("fs-plugin", "exports", false).unwrap();
    assert!(!infos[0].grant.granted);
    assert!(!registry.filesystem_buffer("fs-plugin").unwrap().contains("/data"));
}

#[test]
fn missed_work_is_listed_under_its_plugin() {
    let mut registry = registry_with(plain_manifest("p"));
    let counts = DroppedCounts { events: 3, bus_deliveries: 1 };
    registry.supervisor.register_drop_counters("p", counts);
    assert_eq!(list(&registry)[0].dropped, counts);
}

#[test]
fn the_first_of_two_plugins_with_one_id_counts() {
    let mut registry = registry_with(manifest_with_dashboard("twin"));
    registry.push(entry(plain_manifest("twin")));
    assert_eq!(registry.events_of("twin").unwrap(), vec!["FSDJump".to_string()]);
    assert_eq!(registry.widget_files().len(), 1);
}

#[test]
fn settings_that_are_not_declared_are_passed_over() {
    let mut registry = test_registry_with_secret();
    let mut values = serde_json::Map::new();
    values.insert("endpoint".into(), Value::from("https://other.test"));
    values.insert("stray".into(), Value::from(1));
    let returned = registry.set_values("secret-plugin", &values).unwrap();
    assert_eq!(returned.get("endpoint"), Some(&Value::from("https://other.test")));
    assert!(!returned.contains_key("stray"));
    assert_eq!(registry.values("secret-plugin").unwrap(), returned);
}
