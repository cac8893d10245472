//! What responses say about plugins and drivers.

use vstd::prelude::*;

use crate::capability::GrantState;
use crate::manifest::{
    BusRequest, BusRequestView, DashboardWidget, DashboardWidgetView, FilesystemRequest,
    FilesystemRequestView, ScheduleSpec, ScheduleSpecView, SidecarRequest, SidecarRequestView,
};
use crate::registry::InstanceStatus;
use crate::settings::{
    FilesystemConfig, FilesystemConfigView, SidecarConfig, SidecarConfigView,
};

verus! {

/// A sidecar: what was asked for, how it is run, whether it is approved, and its
/// instances.
#[derive(Debug)]
pub struct SidecarInfo {
    pub request: SidecarRequest,
    pub config: SidecarConfig,
    pub grant: GrantState,
    pub instances: Vec<InstanceStatus>,
}

pub struct SidecarInfoView {
    pub request: SidecarRequestView,
    pub config: SidecarConfigView,
    pub grant: GrantState,
    pub instances: Seq<InstanceStatus>,
}

impl View for SidecarInfo {
    type V = SidecarInfoView;

    open spec fn view(&self) -> SidecarInfoView {
        SidecarInfoView {
            request: self.request@,
            config: self.config@,
            grant: self.grant,
            instances: self.instances@,
        }
    }
}

/// A filesystem root: what was asked for, its directory, and whether it is
/// approved.
#[derive(Debug)]
pub struct FilesystemInfo {
    pub request: FilesystemRequest,
    pub config: FilesystemConfig,
    pub grant: GrantState,
}

pub struct FilesystemInfoView {
    pub request: FilesystemRequestView,
    pub config: FilesystemConfigView,
    pub grant: GrantState,
}

impl View for FilesystemInfo {
    type V = FilesystemInfoView;

    open spec fn view(&self) -> FilesystemInfoView {
        FilesystemInfoView { request: self.request@, config: self.config@, grant: self.grant }
    }
}

/// A bus connection: what was asked for, whether it is approved, and whether the
/// driver is there and provides the topics. The last two are independent.
#[derive(Debug)]
pub struct BusInfo {
    pub request: BusRequest,
    pub grant: GrantState,
    pub resolved: bool,
}

pub struct BusInfoView {
    pub request: BusRequestView,
    pub grant: GrantState,
    pub resolved: bool,
}

impl View for BusInfo {
    type V = BusInfoView;

    open spec fn view(&self) -> BusInfoView {
        BusInfoView { request: self.request@, grant: self.grant, resolved: self.resolved }
    }
}

/// A dashboard widget: what is offered, whether it is approved, and whether its
/// file is there. The last two are independent.
#[derive(Debug)]
pub struct DashboardInfo {
    pub request: DashboardWidget,
    pub grant: GrantState,
    pub resolved: bool,
}

pub struct DashboardInfoView {
    pub request: DashboardWidgetView,
    pub grant: GrantState,
    pub resolved: bool,
}

impl View for DashboardInfo {
    type V = DashboardInfoView;

    open spec fn view(&self) -> DashboardInfoView {
        DashboardInfoView { request: self.request@, grant: self.grant, resolved: self.resolved }
    }
}

/// A schedule and when it fires next, in nanoseconds since the Unix epoch.
#[derive(Debug)]
pub struct ScheduleInfo {
    pub name: String,
    pub spec: ScheduleSpec,
    pub next: i128,
}

pub struct ScheduleInfoView {
    pub name: Seq<char>,
    pub spec: ScheduleSpecView,
    pub next: i128,
}

impl View for ScheduleInfo {
    type V = ScheduleInfoView;

    open spec fn view(&self) -> ScheduleInfoView {
        ScheduleInfoView { name: self.name@, spec: self.spec@, next: self.next }
    }
}

} // verus!
