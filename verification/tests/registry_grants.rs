use edlr_core::capability::{GrantKind, GrantState, InMemoryGrantStorage};
use edlr_core::manifest::{CapabilityRequest, Manifest};
use edlr_core::registry::entries::{PluginEntry, PluginState, SubjectRegistry};
use edlr_core::registry::subject::RegistryError;
use edlr_core::registry::InMemoryProcesses;
use edlr_core::settings::{InMemoryConfigs, InMemorySettings};

type Service =
    SubjectRegistry<Manifest, InMemorySettings, InMemoryGrantStorage, InMemoryConfigs, InMemoryProcesses>;

fn manifest_with_http_capability(id: &str, host: &str) -> Manifest {
    Manifest {
        id: id.to_string(),
        name: id.to_string(),
        version: "0.1.0".into(),
        description: String::new(),
        entry: "plugin.wasm".into(),
        events: vec![],
        settings: vec![],
        capabilities: vec![CapabilityRequest::Http {
            hosts: vec![host.to_string()],
            reason: "reason".into(),
        }],
        sidecars: vec![],
        filesystem: vec![],
        bus: vec![],
        dashboard: vec![],
        schedules: vec![],
    }
}

fn plugin_entry(manifest: Manifest) -> PluginEntry {
    PluginEntry {
        manifest,
        state: PluginState::Running,
        settings_json: String::new(),
        capabilities_json: String::new(),
        sidecars_json: String::new(),
        filesystem_json: String::new(),
        bus_json: String::new(),
        layout: None,
    }
}

fn test_service(entry: PluginEntry) -> Service {
    let mut service = SubjectRegistry::new(
        InMemorySettings::new(),
        InMemoryGrantStorage::new(),
        InMemoryConfigs::new(),
        InMemoryProcesses::new(),
    );
    service.table.push(entry);
    service
}

#[test]
fn set_capabilities_grants_and_exposes_the_explicit_host() {
    let manifest = manifest_with_http_capability("p1", "example.com");
    let mut service = test_service(plugin_entry(manifest));

    let state = service
        .set_capabilities("p1", true)
        .expect("granting should succeed");

    assert!(state.granted);
    assert_eq!(
        service.effective_hosts("p1").unwrap(),
        vec!["example.com".to_string()]
    );
}

#[test]
fn set_capabilities_revoke_drops_the_explicit_host() {
    let manifest = manifest_with_http_capability("p1", "example.com");
    let mut service = test_service(plugin_entry(manifest));
    service.set_capabilities("p1", true).unwrap();

    let state = service
        .set_capabilities("p1", false)
        .expect("revoking should succeed");

    assert!(!state.granted);
    assert_eq!(service.effective_hosts("p1").unwrap(), Vec::<String>::new());
}

#[test]
fn set_capabilities_for_unknown_id_returns_unknown_plugin_error() {
    let mut service = test_service(plugin_entry(manifest_with_http_capability(
        "p1",
        "example.com",
    )));

    let err = service
        .set_capabilities("does-not-exist", true)
        .expect_err("unknown id should be rejected");

    assert!(matches!(err, RegistryError::UnknownPlugin(id) if id == "does-not-exist"));
}

#[test]
fn an_approval_is_read_back_and_goes_to_no_one_else() {
    let mut service = test_service(plugin_entry(manifest_with_http_capability("p1", "a.example")));
    service
        .table
        .push(plugin_entry(manifest_with_http_capability("p2", "b.example")));
    let state = service.set_capabilities("p1", true).unwrap();
    assert_eq!(service.capabilities("p1").unwrap().1, state);
    assert_eq!(
        service.capabilities("p2").unwrap().1,
        GrantState { granted: false, stale: false }
    );
}

#[test]
fn a_stale_approval_is_reported_as_stale() {
    let mut service = test_service(plugin_entry(manifest_with_http_capability("p1", "a.example")));
    let stale = GrantState { granted: false, stale: true };
    service.grants.seed("p1", GrantKind::Capabilities, "", stale);
    assert_eq!(service.capabilities("p1").unwrap().1, stale);
}
