use edlr_core::manifest::{DriverManifest, Manifest};
use edlr_core::registry::subject::{DriverRegistryError, RegistryError, RegistrySubject};
use edlr_core::registry::{BusPort, InMemoryBus, InMemoryProcesses, ProcessControl};
use edlr_core::settings::SettingsError;

fn plain_manifest(id: &str) -> Manifest {
    Manifest {
        id: id.to_string(),
        name: id.to_string(),
        version: "0.1.0".into(),
        description: String::new(),
        entry: "plugin.wasm".into(),
        events: vec![],
        settings: vec![],
        capabilities: vec![],
        sidecars: vec![],
        filesystem: vec![],
        bus: vec![],
        dashboard: vec![],
        schedules: vec![],
    }
}

fn plain_driver_manifest(id: &str) -> DriverManifest {
    DriverManifest {
        id: id.to_string(),
        name: id.to_string(),
        version: "0.1.0".into(),
        description: String::new(),
        entry: "driver.wasm".into(),
        topics: vec![],
        settings: vec![],
        capabilities: vec![],
        sidecars: vec![],
        filesystem: vec![],
    }
}

#[test]
fn manifest_unknown_error_is_unknown_plugin() {
    assert!(matches!(
        Manifest::unknown_error("nope"),
        RegistryError::UnknownPlugin(id) if id == "nope"
    ));
    assert_eq!(Manifest::subject_noun(), "plugin");
}

#[test]
fn driver_manifest_unknown_error_is_unknown_driver() {
    assert!(matches!(
        DriverManifest::unknown_error("nope"),
        DriverRegistryError::UnknownDriver(id) if id == "nope"
    ));
    assert_eq!(DriverManifest::subject_noun(), "driver");
}

#[test]
fn manifest_unknown_registry_error_is_unknown_plugin() {
    assert!(matches!(
        Manifest::unknown_registry_error("nope"),
        RegistryError::UnknownPlugin(id) if id == "nope"
    ));
}

#[test]
fn driver_manifest_unknown_registry_error_is_unknown_driver() {
    assert!(matches!(
        DriverManifest::unknown_registry_error("nope"),
        RegistryError::UnknownDriver(id) if id == "nope"
    ));
}

#[test]
fn manifest_as_settings_manifest_is_identity() {
    let manifest = plain_manifest("m");
    assert_eq!(manifest.as_settings_manifest(), manifest);
}

#[test]
fn driver_manifest_as_settings_manifest_matches_the_existing_projection() {
    let driver = plain_driver_manifest("d");
    assert_eq!(
        RegistrySubject::as_settings_manifest(&driver),
        driver.as_settings_manifest()
    );
}

#[test]
fn errors_say_what_is_wrong() {
    assert_eq!(RegistryError::UnknownPlugin("a".into()).message(), "unknown plugin: a");
    assert_eq!(RegistryError::UnknownDriver("a".into()).message(), "unknown driver: a");
    assert_eq!(RegistryError::UnknownSidecar("a".into()).message(), "unknown sidecar: a");
    assert_eq!(DriverRegistryError::UnknownDriver("a".into()).message(), "unknown driver: a");
    let e = SettingsError { message: "disk full".into() };
    assert_eq!(RegistryError::Settings(e).message(), "disk full");
}

fn retained_via_trait<B: BusPort>(bus: &B, driver: &str, topic: &str) -> Option<Vec<u8>> {
    bus.retained_for(driver, topic)
}

#[test]
fn bus_satisfies_bus_port() {
    let bus = InMemoryBus::new();
    assert_eq!(retained_via_trait(&bus, "no-such-driver", "topic"), None);
}

fn takes_processes<T: ProcessControl>(_: &T) {}

#[test]
fn process_driver_satisfies_process_control() {
    takes_processes(&InMemoryProcesses::new());
}
