use edlr_core::capability::{GrantKind, GrantState, InMemoryGrantStorage};
use edlr_core::manifest::{Manifest, SidecarRequest};
use edlr_core::registry::entries::{PluginEntry, PluginState, SubjectRegistry};
use edlr_core::registry::sidecar::SidecarAction;
use edlr_core::registry::subject::RegistryError;
use edlr_core::registry::{InMemoryProcesses, InstanceStatus};
use edlr_core::settings::{FilesystemConfig, InMemoryConfigs, InMemorySettings, SidecarConfig};

type Service =
    SubjectRegistry<Manifest, InMemorySettings, InMemoryGrantStorage, InMemoryConfigs, InMemoryProcesses>;

fn manifest_with_sidecar(id: &str, sidecar_name: &str, port: u16) -> Manifest {
    Manifest {
        id: id.to_string(),
        name: id.to_string(),
        version: "0.1.0".into(),
        description: String::new(),
        entry: "plugin.wasm".into(),
        events: vec![],
        settings: vec![],
        capabilities: vec![],
        sidecars: vec![SidecarRequest {
            name: sidecar_name.to_string(),
            reason: "reason".into(),
            port,
            args: vec![],
            scalable: false,
        }],
        filesystem: vec![],
        bus: vec![],
        dashboard: vec![],
        schedules: vec![],
    }
}

fn plugin_entry(manifest: Manifest, state: PluginState) -> PluginEntry {
    PluginEntry {
        manifest,
        state,
        settings_json: String::new(),
        capabilities_json: String::new(),
        sidecars_json: String::new(),
        filesystem_json: String::new(),
        bus_json: String::new(),
        layout: None,
    }
}

fn test_service(entry: PluginEntry) -> Service {
    let mut service = SubjectRegistry::new(
        InMemorySettings::new(),
        InMemoryGrantStorage::new(),
        InMemoryConfigs::new(),
        InMemoryProcesses::new(),
    );
    service.table.push(entry);
    service
}

#[test]
fn set_sidecar_grant_revokes_and_stops_the_running_instance() {
    let manifest = manifest_with_sidecar("p1", "s1", 9100);
    let mut service = test_service(plugin_entry(manifest, PluginState::Running));
    service.grants.seed(
        "p1",
        GrantKind::Sidecar,
        "s1",
        GrantState { granted: true, stale: false },
    );
    service.processes.set_response(
        "p1/s1",
        vec![InstanceStatus { index: 0, port: 9100, running: false, exit_code: Some(0) }],
    );

    let infos = service
        .set_sidecar_grant("p1", "s1", false)
        .expect("revoke should succeed");

    assert!(!infos[0].grant.granted);
    assert_eq!(infos[0].instances[0].exit_code, Some(0));
    assert_eq!(service.processes.stopped_keys(), vec!["p1/s1".to_string()]);
}

#[test]
fn set_sidecar_grant_rejects_granting_without_executable_configured() {
    let manifest = manifest_with_sidecar("p1", "s1", 9100);
    let mut service = test_service(plugin_entry(manifest, PluginState::Running));

    let Err(err) = service.set_sidecar_grant("p1", "s1", true) else {
        panic!("granting without a configured executable must be rejected");
    };

    assert!(matches!(
        err,
        RegistryError::Sidecar(msg) if msg == "sidecar s1 has no executable configured; cannot grant"
    ));
}

#[test]
fn control_sidecar_start_rejects_disabled_plugin() {
    let manifest = manifest_with_sidecar("p1", "s1", 9100);
    let mut service = test_service(plugin_entry(
        manifest,
        PluginState::Disabled { reason: "trapped".into() },
    ));

    let Err(err) = service.control_sidecar("p1", "s1", SidecarAction::Start) else {
        panic!("disabled plugin must reject Start");
    };

    assert!(matches!(
        err,
        RegistryError::Sidecar(msg) if msg == "plugin p1 is disabled"
    ));
}

#[test]
fn control_sidecar_start_rejects_when_not_granted() {
    let manifest = manifest_with_sidecar("p1", "s1", 9100);
    let mut service = test_service(plugin_entry(manifest, PluginState::Running));

    let Err(err) = service.control_sidecar("p1", "s1", SidecarAction::Start) else {
        panic!("ungranted sidecar must reject Start");
    };

    assert!(matches!(
        err,
        RegistryError::Sidecar(msg) if msg == "sidecar s1 is not granted"
    ));
}

#[test]
fn control_sidecar_stop_is_allowed_even_when_disabled() {
    let manifest = manifest_with_sidecar("p1", "s1", 9100);
    let mut service = test_service(plugin_entry(
        manifest,
        PluginState::Disabled { reason: "trapped".into() },
    ));

    let infos = service
        .control_sidecar("p1", "s1", SidecarAction::Stop)
        .expect("Stop is always allowed regardless of disabled state");

    assert_eq!(infos.len(), 1);
    assert_eq!(service.processes.stopped_keys(), vec!["p1/s1".to_string()]);
}

fn config(command: &str, port: u16) -> SidecarConfig {
    SidecarConfig { command: command.into(), args: vec![], port, replicas: 1 }
}

#[test]
fn an_approved_and_configured_sidecar_starts_on_its_port() {
    let manifest = manifest_with_sidecar("p1", "s1", 9100);
    let mut service = test_service(plugin_entry(manifest, PluginState::Running));
    service.set_sidecar_config("p1", "s1", &config("/bin/sh", 9200)).unwrap();
    service.set_sidecar_grant("p1", "s1", true).unwrap();
    let infos = service.control_sidecar("p1", "s1", SidecarAction::Start).unwrap();
    assert_eq!(infos[0].instances.len(), 1);
    assert!(infos[0].instances[0].running);
    assert_eq!(infos[0].instances[0].port, 9200);
}

#[test]
fn a_changed_configuration_ends_what_ran_before() {
    let manifest = manifest_with_sidecar("p1", "s1", 9100);
    let mut service = test_service(plugin_entry(manifest, PluginState::Running));
    service.set_sidecar_config("p1", "s1", &config("/bin/sh", 9200)).unwrap();
    service.set_sidecar_grant("p1", "s1", true).unwrap();
    service.control_sidecar("p1", "s1", SidecarAction::Start).unwrap();
    let infos = service.set_sidecar_config("p1", "s1", &config("/bin/other", 9300)).unwrap();
    assert_eq!(infos[0].config.command, "/bin/other");
    assert_eq!(service.processes.stopped_keys().last().unwrap(), "p1/s1");
}

#[test]
fn a_sidecar_that_is_not_declared_is_unknown() {
    let manifest = manifest_with_sidecar("p1", "s1", 9100);
    let mut service = test_service(plugin_entry(manifest, PluginState::Running));
    let Err(err) = service.control_sidecar("p1", "other", SidecarAction::Stop) else {
        panic!("an undeclared sidecar must be unknown");
    };
    assert!(matches!(err, RegistryError::UnknownSidecar(name) if name == "other"));
    let Err(err) = service.set_sidecar_grant("nobody", "s1", false) else {
        panic!("an unregistered plugin must be unknown");
    };
    assert!(matches!(err, RegistryError::UnknownPlugin(id) if id == "nobody"));
}

#[test]
fn the_words_of_a_refused_configuration_are_handed_on() {
    let manifest = manifest_with_sidecar("p1", "s1", 9100);
    let mut service = test_service(plugin_entry(manifest, PluginState::Running));
    let Err(err) = service.set_sidecar_config("p1", "other", &config("/bin/sh", 9200)) else {
        panic!("an undeclared sidecar cannot be configured");
    };
    assert_eq!(err.message(), "unknown sidecar");
    assert!(service.processes.stopped_keys().is_empty());
    let root = FilesystemConfig { path: "/tmp".into() };
    let Err(err) = service.set_filesystem_config("p1", "other", &root) else {
        panic!("an undeclared root cannot be configured");
    };
    assert_eq!(err.message(), "unknown filesystem root");
}
