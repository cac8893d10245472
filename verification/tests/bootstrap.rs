use serde_json::Value;

use edlr_core::capability::{GrantStorage, InMemoryGrantStorage};
use edlr_core::manifest::{
    BusRequest, CapabilityRequest, FilesystemMode, FilesystemRequest, Manifest, SidecarRequest,
};
use edlr_core::runner::bootstrap::{build_initial_buffers, initial_bus_json};
use edlr_core::settings::{InMemoryConfigs, InMemorySettings};

fn plain_manifest(id: &str) -> Manifest {
    Manifest {
        id: id.to_string(),
        name: id.to_string(),
        version: "0.1.0".into(),
        description: String::new(),
        entry: "plugin.wasm".into(),
        events: vec![],
        settings: vec![],
        capabilities: vec![CapabilityRequest::Http {
            hosts: vec!["*".to_string()],
            reason: "reason".into(),
        }],
        sidecars: vec![SidecarRequest {
            name: "worker".to_string(),
            reason: "reason".into(),
            args: vec![],
            port: 4000,
            scalable: false,
        }],
        filesystem: vec![FilesystemRequest {
            name: "workdir".to_string(),
            reason: "reason".into(),
            mode: FilesystemMode::Read,
        }],
        bus: vec![],
        dashboard: vec![],
        schedules: vec![],
    }
}

fn json(text: &str) -> Value {
    serde_json::from_str(text).unwrap()
}

#[test]
fn ungranted_plugin_has_empty_capabilities_but_still_lists_sidecars_and_filesystem() {
    let manifest = plain_manifest("p-ungranted");

    let buffers = build_initial_buffers(
        &manifest,
        &InMemorySettings::new(),
        &InMemoryGrantStorage::new(),
        &InMemoryConfigs::new(),
    );

    assert_eq!(buffers.settings_json, "{}");
    assert_eq!(buffers.capabilities_json, "{\"hosts\":[]}");
    let sidecars = json(&buffers.sidecars_json);
    assert_eq!(sidecars[0]["name"], "worker");
    assert_eq!(sidecars[0]["granted"], false);
    let filesystem = json(&buffers.filesystem_json);
    assert_eq!(filesystem[0]["name"], "workdir");
    assert_eq!(filesystem[0]["granted"], false);
    assert_eq!(filesystem[0]["path"], "");
}

#[test]
fn granted_plugin_lists_capability_hosts_and_grants_reflect_in_sidecars_and_filesystem() {
    let manifest = plain_manifest("p-granted");
    let mut grants = InMemoryGrantStorage::new();
    grants.set(&manifest, true).unwrap();
    grants.set_sidecar(&manifest, "worker", true).unwrap();
    grants.set_filesystem(&manifest, "workdir", true).unwrap();

    let buffers = build_initial_buffers(
        &manifest,
        &InMemorySettings::new(),
        &grants,
        &InMemoryConfigs::new(),
    );

    let capabilities = json(&buffers.capabilities_json);
    assert_eq!(capabilities["hosts"], json(r#"["*", "http://127.0.0.1:4000"]"#));
    let sidecars = json(&buffers.sidecars_json);
    assert_eq!(sidecars[0]["granted"], true);
    let filesystem = json(&buffers.filesystem_json);
    assert_eq!(filesystem[0]["granted"], true);
}

#[test]
fn connections_start_without_topics_until_they_are_approved() {
    let mut manifest = plain_manifest("p");
    manifest.bus.push(BusRequest {
        driver: "d".into(),
        publish: vec!["out".into()],
        subscribe: vec![],
        reason: "r".into(),
    });
    let mut grants = InMemoryGrantStorage::new();
    let bus = json(&initial_bus_json(&manifest, &grants));
    assert_eq!(bus[0]["granted"], false);
    assert_eq!(bus[0]["publish"], json("[]"));
    grants.set_bus(&manifest, "d", true).unwrap();
    let bus = json(&initial_bus_json(&manifest, &grants));
    assert_eq!(bus[0]["publish"], json(r#"["out"]"#));
}
