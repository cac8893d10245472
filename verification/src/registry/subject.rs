//! What registries hold: plugins and drivers.
//!
//! The registry of plugins and that of drivers differ in what an unknown id is
//! answered and in what is stored under. That is all that [`RegistrySubject`]
//! asks for.

use vstd::prelude::*;

use crate::capability::GrantsError;
use crate::manifest::{
    DriverManifest, FilesystemRequest, Manifest, ManifestView, SidecarRequest,
};
use crate::settings::{FilesystemConfigError, SettingsError, SidecarConfigError};
use crate::text::{joined, views};

verus! {

/// Why the registry of plugins turned a request down.
#[derive(Debug, PartialEq, Eq)]
pub enum RegistryError {
    UnknownPlugin(String),
    Settings(SettingsError),
    Grants(GrantsError),
    SidecarConfig(SidecarConfigError),
    UnknownSidecar(String),
    Sidecar(String),
    FilesystemConfig(FilesystemConfigError),
    UnknownFilesystem(String),
    Filesystem(String),
    UnknownBus(String),
    UnknownDashboard(String),
    DashboardNotGranted(String),
    PluginNotRunning(String),
    ActionQueueFull(String),
    UnknownDriver(String),
}

pub enum RegistryErrorView {
    UnknownPlugin(Seq<char>),
    Settings(Seq<char>),
    Grants(Seq<char>),
    SidecarConfig(Seq<char>),
    UnknownSidecar(Seq<char>),
    Sidecar(Seq<char>),
    FilesystemConfig(Seq<char>),
    UnknownFilesystem(Seq<char>),
    Filesystem(Seq<char>),
    UnknownBus(Seq<char>),
    UnknownDashboard(Seq<char>),
    DashboardNotGranted(Seq<char>),
    PluginNotRunning(Seq<char>),
    ActionQueueFull(Seq<char>),
    UnknownDriver(Seq<char>),
}

impl View for RegistryError {
    type V = RegistryErrorView;

    open spec fn view(&self) -> RegistryErrorView {
        match self {
            RegistryError::UnknownPlugin(id) => RegistryErrorView::UnknownPlugin(id@),
            RegistryError::Settings(e) => RegistryErrorView::Settings(e.message@),
            RegistryError::Grants(e) => RegistryErrorView::Grants(e.message@),
            RegistryError::SidecarConfig(e) => RegistryErrorView::SidecarConfig(e.message@),
            RegistryError::UnknownSidecar(name) => RegistryErrorView::UnknownSidecar(name@),
            RegistryError::Sidecar(message) => RegistryErrorView::Sidecar(message@),
            RegistryError::FilesystemConfig(e) => RegistryErrorView::FilesystemConfig(e.message@),
            RegistryError::UnknownFilesystem(name) => RegistryErrorView::UnknownFilesystem(name@),
            RegistryError::Filesystem(message) => RegistryErrorView::Filesystem(message@),
            RegistryError::UnknownBus(driver) => RegistryErrorView::UnknownBus(driver@),
            RegistryError::UnknownDashboard(id) => RegistryErrorView::UnknownDashboard(id@),
            RegistryError::DashboardNotGranted(id) => RegistryErrorView::DashboardNotGranted(id@),
            RegistryError::PluginNotRunning(id) => RegistryErrorView::PluginNotRunning(id@),
            RegistryError::ActionQueueFull(id) => RegistryErrorView::ActionQueueFull(id@),
            RegistryError::UnknownDriver(id) => RegistryErrorView::UnknownDriver(id@),
        }
    }
}

impl RegistryErrorView {
    /// The error in words.
    pub open spec fn text(self) -> Seq<char> {
        match self {
            RegistryErrorView::UnknownPlugin(id) => "unknown plugin: "@ + id,
            RegistryErrorView::Settings(message) => message,
            RegistryErrorView::Grants(message) => message,
            RegistryErrorView::SidecarConfig(message) => message,
            RegistryErrorView::UnknownSidecar(name) => "unknown sidecar: "@ + name,
            RegistryErrorView::Sidecar(message) => message,
            RegistryErrorView::FilesystemConfig(message) => message,
            RegistryErrorView::UnknownFilesystem(name) => "unknown filesystem root: "@ + name,
            RegistryErrorView::Filesystem(message) => message,
            RegistryErrorView::UnknownBus(driver) => "unknown bus connection: "@ + driver,
            RegistryErrorView::UnknownDashboard(id) => "unknown dashboard widget: "@ + id,
            RegistryErrorView::DashboardNotGranted(id) => "dashboard widget not granted: "@ + id,
            RegistryErrorView::PluginNotRunning(id) => "plugin is not running: "@ + id,
            RegistryErrorView::ActionQueueFull(id) => "plugin work queue is full, try again: "@
                + id,
            RegistryErrorView::UnknownDriver(id) => "unknown driver: "@ + id,
        }
    }
}

impl RegistryError {
    /// The error in words.
    pub fn message(&self) -> (r: String)
        ensures
            r@ == self@.text(),
    {
        match self {
            RegistryError::UnknownPlugin(id) => joined("unknown plugin: ", id.as_str()),
            RegistryError::Settings(e) => e.message.clone(),
            RegistryError::Grants(e) => e.message.clone(),
            RegistryError::SidecarConfig(e) => e.message.clone(),
            RegistryError::UnknownSidecar(name) => joined("unknown sidecar: ", name.as_str()),
            RegistryError::Sidecar(message) => message.clone(),
            RegistryError::FilesystemConfig(e) => e.message.clone(),
            RegistryError::UnknownFilesystem(name) => joined(
                "unknown filesystem root: ",
                name.as_str(),
            ),
            RegistryError::Filesystem(message) => message.clone(),
            RegistryError::UnknownBus(driver) => joined("unknown bus connection: ", driver.as_str()),
            RegistryError::UnknownDashboard(id) => joined("unknown dashboard widget: ", id.as_str()),
            RegistryError::DashboardNotGranted(id) => joined(
                "dashboard widget not granted: ",
                id.as_str(),
            ),
            RegistryError::PluginNotRunning(id) => joined("plugin is not running: ", id.as_str()),
            RegistryError::ActionQueueFull(id) => joined(
                "plugin work queue is full, try again: ",
                id.as_str(),
            ),
            RegistryError::UnknownDriver(id) => joined("unknown driver: ", id.as_str()),
        }
    }
}

/// Why the registry of drivers turned a request down.
#[derive(Debug, PartialEq, Eq)]
pub enum DriverRegistryError {
    UnknownDriver(String),
    Settings(SettingsError),
    Grants(GrantsError),
}

impl View for DriverRegistryError {
    type V = RegistryErrorView;

    open spec fn view(&self) -> RegistryErrorView {
        match self {
            DriverRegistryError::UnknownDriver(id) => RegistryErrorView::UnknownDriver(id@),
            DriverRegistryError::Settings(e) => RegistryErrorView::Settings(e.message@),
            DriverRegistryError::Grants(e) => RegistryErrorView::Grants(e.message@),
        }
    }
}

impl DriverRegistryError {
    /// The error in words.
    pub fn message(&self) -> (r: String)
        ensures
            r@ == self@.text(),
    {
        match self {
            DriverRegistryError::UnknownDriver(id) => joined("unknown driver: ", id.as_str()),
            DriverRegistryError::Settings(e) => e.message.clone(),
            DriverRegistryError::Grants(e) => e.message.clone(),
        }
    }
}

/// What a registry holds.
pub trait RegistrySubject: Sized {
    /// Why settings or approvals are turned down.
    type Error: View<V = RegistryErrorView>;

    /// The declaration that settings, approvals and configurations are stored
    /// for.
    spec fn projected(&self) -> ManifestView;

    /// What an id is answered that is not registered.
    spec fn unknown(id: Seq<char>) -> RegistryErrorView;

    /// What the subject is called in messages.
    spec fn noun() -> Seq<char>;

    fn id(&self) -> (r: &str)
        ensures
            r@ == self.projected().id,
    ;

    fn filesystem(&self) -> (r: &Vec<FilesystemRequest>)
        ensures
            views(r@) == self.projected().filesystem,
    ;

    fn sidecars(&self) -> (r: &Vec<SidecarRequest>)
        ensures
            views(r@) == self.projected().sidecars,
    ;

    fn as_settings_manifest(&self) -> (r: Manifest)
        ensures
            r@ == self.projected(),
    ;

    fn unknown_error(id: &str) -> (r: Self::Error)
        ensures
            r@ == Self::unknown(id@),
    ;

    fn settings_error(e: SettingsError) -> (r: Self::Error)
        ensures
            r@ == RegistryErrorView::Settings(e.message@),
    ;

    fn grants_error(e: GrantsError) -> (r: Self::Error)
        ensures
            r@ == RegistryErrorView::Grants(e.message@),
    ;

    fn unknown_registry_error(id: &str) -> (r: RegistryError)
        ensures
            r@ == Self::unknown(id@),
    ;

    fn subject_noun() -> (r: &'static str)
        ensures
            r@ == Self::noun(),
    ;
}

impl RegistrySubject for Manifest {
    type Error = RegistryError;

    open spec fn projected(&self) -> ManifestView {
        self@
    }

    open spec fn unknown(id: Seq<char>) -> RegistryErrorView {
        RegistryErrorView::UnknownPlugin(id)
    }

    open spec fn noun() -> Seq<char> {
        "plugin"@
    }

    fn id(&self) -> (r: &str) {
        self.id.as_str()
    }

    fn filesystem(&self) -> (r: &Vec<FilesystemRequest>) {
        &self.filesystem
    }

    fn sidecars(&self) -> (r: &Vec<SidecarRequest>) {
        &self.sidecars
    }

    fn as_settings_manifest(&self) -> (r: Manifest) {
        self.clone()
    }

    fn unknown_error(id: &str) -> (r: RegistryError) {
        RegistryError::UnknownPlugin(id.to_owned())
    }

    fn settings_error(e: SettingsError) -> (r: RegistryError) {
        RegistryError::Settings(e)
    }

    fn grants_error(e: GrantsError) -> (r: RegistryError) {
        RegistryError::Grants(e)
    }

    fn unknown_registry_error(id: &str) -> (r: RegistryError) {
        RegistryError::UnknownPlugin(id.to_owned())
    }

    fn subject_noun() -> (r: &'static str) {
        "plugin"
    }
}

impl RegistrySubject for DriverManifest {
    type Error = DriverRegistryError;

    open spec fn projected(&self) -> ManifestView {
        self@.settings_manifest()
    }

    open spec fn unknown(id: Seq<char>) -> RegistryErrorView {
        RegistryErrorView::UnknownDriver(id)
    }

    open spec fn noun() -> Seq<char> {
        "driver"@
    }

    fn id(&self) -> (r: &str) {
        self.id.as_str()
    }

    fn filesystem(&self) -> (r: &Vec<FilesystemRequest>) {
        &self.filesystem
    }

    fn sidecars(&self) -> (r: &Vec<SidecarRequest>) {
        &self.sidecars
    }

    fn as_settings_manifest(&self) -> (r: Manifest) {
        DriverManifest::as_settings_manifest(self)
    }

    fn unknown_error(id: &str) -> (r: DriverRegistryError) {
        let error = DriverRegistryError::UnknownDriver(id.to_owned());
        assert(error@ == RegistryErrorView::UnknownDriver(id@));
        error
    }

    fn settings_error(e: SettingsError) -> (r: DriverRegistryError) {
        let error = DriverRegistryError::Settings(e);
        assert(error@ == RegistryErrorView::Settings(e.message@));
        error
    }

    fn grants_error(e: GrantsError) -> (r: DriverRegistryError) {
        let error = DriverRegistryError::Grants(e);
        assert(error@ == RegistryErrorView::Grants(e.message@));
        error
    }

    fn unknown_registry_error(id: &str) -> (r: RegistryError) {
        RegistryError::UnknownDriver(id.to_owned())
    }

    fn subject_noun() -> (r: &'static str) {
        "driver"
    }
}

/// What a request is answered that the registry turns down, in words: what is unknown or
/// refused is named, and the words of a store are handed on as they are.
pub proof fn law_refusals_name_what_they_are_about(text: Seq<char>)
    ensures
        RegistryErrorView::UnknownPlugin(text).text() == "unknown plugin: "@ + text,
        RegistryErrorView::UnknownDriver(text).text() == "unknown driver: "@ + text,
        RegistryErrorView::UnknownSidecar(text).text() == "unknown sidecar: "@ + text,
        RegistryErrorView::UnknownFilesystem(text).text() == "unknown filesystem root: "@ + text,
        RegistryErrorView::UnknownBus(text).text() == "unknown bus connection: "@ + text,
        RegistryErrorView::UnknownDashboard(text).text() == "unknown dashboard widget: "@ + text,
        RegistryErrorView::DashboardNotGranted(text).text() == "dashboard widget not granted: "@
            + text,
        RegistryErrorView::PluginNotRunning(text).text() == "plugin is not running: "@ + text,
        RegistryErrorView::ActionQueueFull(text).text() == "plugin work queue is full, try again: "@
            + text,
        RegistryErrorView::Settings(text).text() == text,
        RegistryErrorView::Grants(text).text() == text,
        RegistryErrorView::SidecarConfig(text).text() == text,
        RegistryErrorView::FilesystemConfig(text).text() == text,
        RegistryErrorView::Sidecar(text).text() == text,
        RegistryErrorView::Filesystem(text).text() == text,
{
}

/// An id that is not registered is answered as that of an unknown plugin or of an unknown driver,
/// and messages call the two so. A plugin is stored for under its own declaration.
pub proof fn law_plugins_and_drivers_are_called_so(
    id: Seq<char>,
    plugin: Manifest,
    driver: DriverManifest,
)
    ensures
        <Manifest as RegistrySubject>::unknown(id) == RegistryErrorView::UnknownPlugin(id),
        <DriverManifest as RegistrySubject>::unknown(id) == RegistryErrorView::UnknownDriver(id),
        <Manifest as RegistrySubject>::noun() == "plugin"@,
        <DriverManifest as RegistrySubject>::noun() == "driver"@,
        plugin.projected() == plugin@,
        driver.projected().id == driver@.id,
        driver.projected().settings == driver@.settings,
        driver.projected().sidecars == driver@.sidecars,
        driver.projected().filesystem == driver@.filesystem,
        driver.projected().capabilities == driver@.capabilities,
{
}

} // verus!
