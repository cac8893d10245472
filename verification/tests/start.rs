use serde_json::Value;

use edlr_core::capability::{GrantStorage, InMemoryGrantStorage};
use edlr_core::manifest::{
    BusRequest, CapabilityRequest, DriverManifest, Manifest, SettingField, TopicSpec,
};
use edlr_core::registry::driver::{DriverState, InstalledDrivers};
use edlr_core::registry::entries::PluginState;
use edlr_core::registry::plugin::Registry;
use edlr_core::registry::supervisor::{
    delivered, stop_step, DeliverError, StopStep, ThreadSupervisor,
};
use edlr_core::registry::InMemoryProcesses;
use edlr_core::runner::driver::initial_driver_entry;
use edlr_core::runner::plugin::queue::PushError;
use edlr_core::runner::plugin::start::{
    initial_entry, reported_state, subscribed_topics, warn_unresolved_bus, BusTopic, BusWarning,
};
use edlr_core::runtime::bus::parse_bus;
use edlr_core::runtime::capabilities::parse_capability_hosts;
use edlr_core::runtime::dropped::DroppedCounts;
use edlr_core::schedule::ScheduleView;
use edlr_core::settings::{
    ConfigStorage, FilesystemConfig, InMemoryConfigs, InMemorySettings, SidecarConfig,
};

fn bus_request(driver: &str, publish: &[&str], subscribe: &[&str]) -> BusRequest {
    BusRequest {
        driver: driver.into(),
        publish: publish.iter().map(|t| t.to_string()).collect(),
        subscribe: subscribe.iter().map(|t| t.to_string()).collect(),
        reason: "r".into(),
    }
}

fn manifest(bus: Vec<BusRequest>) -> Manifest {
    Manifest {
        id: "p".into(),
        name: "P".into(),
        version: "0.1.0".into(),
        description: String::new(),
        entry: "plugin.wasm".into(),
        events: vec![],
        settings: vec![SettingField::String {
            key: "name".into(),
            label: "Name".into(),
            default: "n".into(),
        }],
        capabilities: vec![CapabilityRequest::Http {
            hosts: vec!["a.example".into()],
            reason: "r".into(),
        }],
        sidecars: vec![],
        filesystem: vec![],
        bus,
        dashboard: vec![],
        schedules: vec![],
    }
}

fn driver(id: &str, topics: &[&str]) -> DriverManifest {
    DriverManifest {
        id: id.into(),
        name: id.into(),
        version: "0.1.0".into(),
        description: String::new(),
        entry: "driver.wasm".into(),
        topics: topics
            .iter()
            .map(|t| TopicSpec { name: t.to_string(), retain: false, description: String::new() })
            .collect(),
        settings: vec![],
        capabilities: vec![],
        sidecars: vec![],
        filesystem: vec![],
    }
}

#[test]
fn a_thread_that_says_nothing_leaves_its_plugin_disabled() {
    assert_eq!(reported_state(Some(PluginState::Running)), PluginState::Running);
    assert_eq!(
        reported_state(None),
        PluginState::Disabled {
            reason: "plugin thread exited before reporting an init result".to_string()
        }
    );
}

#[test]
fn a_plugin_starts_with_what_was_approved() {
    let settings = InMemorySettings::new();
    let mut grants = InMemoryGrantStorage::new();
    let configs = InMemoryConfigs::new();
    let m = manifest(vec![bus_request("d", &["t"], &["u"]), bus_request("e", &["t"], &[])]);
    grants.set(&m, true).unwrap();
    grants.set_bus(&m, "e", true).unwrap();

    let entry = initial_entry(&m, &settings, &grants, &configs, Some(Value::from(1)));
    assert_eq!(entry.state, PluginState::Running);
    assert_eq!(entry.settings_json, r#"{"name":"n"}"#);
    assert_eq!(parse_capability_hosts(&entry.capabilities_json), vec!["a.example".to_string()]);
    let bus = parse_bus(&entry.bus_json);
    let withheld = bus.get("d").unwrap();
    assert!(!withheld.granted && withheld.publish.is_empty() && withheld.subscribe.is_empty());
    let open = bus.get("e").unwrap();
    assert!(open.granted);
    assert_eq!(open.publish, vec!["t".to_string()]);
    assert_eq!(entry.sidecars_json, "[]");
    assert_eq!(entry.filesystem_json, "[]");
    assert_eq!(entry.layout, Some(Value::from(1)));
}

#[test]
fn a_driver_starts_without_connections() {
    let entry = initial_driver_entry(
        &driver("d", &["t"]),
        &InMemorySettings::new(),
        &InMemoryGrantStorage::new(),
        &InMemoryConfigs::new(),
        None,
    );
    assert_eq!(entry.state, DriverState::Running);
    assert_eq!(entry.settings_json, "{}");
    assert_eq!(entry.capabilities_json, r#"{"hosts":[]}"#);
    assert_eq!(entry.bus_json, "");
    assert_eq!(entry.layout, None);
}

#[test]
fn all_subscriptions_are_listed_in_order() {
    let m = manifest(vec![
        bus_request("d", &["p"], &["a", "b"]),
        bus_request("e", &["q"], &[]),
        bus_request("f", &[], &["c"]),
    ]);
    let topic = |driver: &str, topic: &str| BusTopic { driver: driver.into(), topic: topic.into() };
    assert_eq!(subscribed_topics(&m), vec![topic("d", "a"), topic("d", "b"), topic("f", "c")]);
}

#[test]
fn connections_that_lead_nowhere_are_warned_of() {
    let drivers = InstalledDrivers { manifests: vec![driver("d", &["a"])] };
    let m = manifest(vec![
        bus_request("d", &["a", "b"], &["c"]),
        bus_request("gone", &["x"], &["y"]),
    ]);
    assert_eq!(
        warn_unresolved_bus(&m, &drivers),
        vec![
            BusWarning::NoTopic { driver: "d".into(), topic: "b".into() },
            BusWarning::NoTopic { driver: "d".into(), topic: "c".into() },
            BusWarning::NoDriver { driver: "gone".into() },
        ]
    );
    assert_eq!(warn_unresolved_bus(&manifest(vec![bus_request("d", &["a"], &["a"])]), &drivers), vec![]);
}

#[test]
fn threads_that_stop_share_the_time() {
    assert_eq!(stop_step(false, false, 0, 5000), StopStep::Wait);
    assert_eq!(stop_step(true, false, 4999, 5000), StopStep::Wait);
    assert_eq!(stop_step(true, true, 0, 5000), StopStep::Join);
    assert_eq!(stop_step(true, false, 5000, 5000), StopStep::Join);
    assert_eq!(stop_step(false, false, 5000, 5000), StopStep::Abandon);
}

#[test]
fn messages_need_a_thread_with_room() {
    assert_eq!(delivered(Some(Ok(()))), Ok(()));
    assert_eq!(delivered(Some(Err(PushError::Dropped))), Err(DeliverError::QueueFull));
    assert_eq!(delivered(Some(Err(PushError::Disconnected))), Err(DeliverError::NotRunning));
    assert_eq!(delivered(None), Err(DeliverError::NotRunning));
}

#[test]
fn threads_report_for_their_own_plugin() {
    let mut threads = ThreadSupervisor::new();
    threads.register_drop_counters("p", DroppedCounts { events: 2, bus_deliveries: 1 });
    let view = ScheduleView { times: vec![("daily".to_string(), 7)] };
    threads.register_schedule_view("p", view);
    assert_eq!(threads.dropped_counts("p"), DroppedCounts { events: 2, bus_deliveries: 1 });
    assert_eq!(threads.dropped_counts("q"), DroppedCounts::none());
    assert_eq!(threads.published_schedule("p", "daily"), Some(7));
    assert_eq!(threads.published_schedule("p", "weekly"), None);
    assert_eq!(threads.published_schedule("q", "daily"), None);
}

#[test]
fn going_down_ends_sidecars_and_subscribers() {
    let mut registry = Registry::new(
        InMemorySettings::new(),
        InMemoryGrantStorage::new(),
        InMemoryConfigs::new(),
        InMemoryProcesses::new(),
        "/plugins".to_string(),
    );
    assert!(!registry.supervisor.bus_subscribers_end);
    registry.shutdown_bus_subscribers();
    assert!(registry.supervisor.bus_subscribers_end);
    registry.stop_all_sidecars();
    assert_eq!(registry.plugins_dir(), "/plugins");
}

#[test]
fn only_what_is_declared_is_configured() {
    let mut configs = InMemoryConfigs::new();
    let m = manifest(vec![]);
    let sidecar = SidecarConfig { command: "/bin/sh".into(), args: vec![], port: 1, replicas: 1 };
    let refused = configs.update_sidecar(&m, "engine", &sidecar).unwrap_err();
    assert_eq!(refused.message, "unknown sidecar");
    assert_eq!(configs.sidecar_config(&m, "engine"), None);
    let root = FilesystemConfig { path: "/tmp".into() };
    let refused = configs.update_filesystem(&m, "cache", &root).unwrap_err();
    assert_eq!(refused.message, "unknown filesystem root");
    assert_eq!(configs.filesystem_config(&m, "cache"), None);
}
