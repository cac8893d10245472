//! What plugins and drivers declare about themselves.

use vstd::prelude::*;

use crate::text::{copied_texts, decimal, decimal_text, joined, joined3, same_text, views};

verus! {

/// Access that a filesystem root asks for.
#[derive(Debug, Clone, Copy, PartialEq, Eq, Structural)]
pub enum FilesystemMode {
    Read,
    ReadWrite,
}

impl FilesystemMode {
    pub open spec fn name(self) -> Seq<char> {
        match self {
            FilesystemMode::Read => "read"@,
            FilesystemMode::ReadWrite => "read-write"@,
        }
    }

    /// The name of the mode in buffers and responses.
    pub fn as_str(&self) -> (r: &'static str)
        ensures
            r@ == self.name(),
    {
        match self {
            FilesystemMode::Read => "read",
            FilesystemMode::ReadWrite => "read-write",
        }
    }
}

/// How large a dashboard widget wants to be.
#[derive(Debug, Clone, Copy, PartialEq, Eq, Structural)]
pub enum WidgetSize {
    Small,
    Medium,
    Large,
}

impl WidgetSize {
    pub open spec fn name(self) -> Seq<char> {
        match self {
            WidgetSize::Small => "small"@,
            WidgetSize::Medium => "medium"@,
            WidgetSize::Large => "large"@,
        }
    }

    /// The name of the size in responses.
    pub fn as_str(&self) -> (r: &'static str)
        ensures
            r@ == self.name(),
    {
        match self {
            WidgetSize::Small => "small",
            WidgetSize::Medium => "medium",
            WidgetSize::Large => "large",
        }
    }
}

/// A capability that a plugin or driver asks for.
#[derive(Debug, PartialEq, Eq)]
pub enum CapabilityRequest {
    Http { hosts: Vec<String>, reason: String },
}

pub enum CapabilityRequestView {
    Http { hosts: Seq<Seq<char>>, reason: Seq<char> },
}

impl View for CapabilityRequest {
    type V = CapabilityRequestView;

    open spec fn view(&self) -> CapabilityRequestView {
        match self {
            CapabilityRequest::Http { hosts, reason } => CapabilityRequestView::Http {
                hosts: views(hosts@),
                reason: reason@,
            },
        }
    }
}

impl Clone for CapabilityRequest {
    fn clone(&self) -> (r: Self)
        ensures
            r@ == self@,
    {
        match self {
            CapabilityRequest::Http { hosts, reason } => CapabilityRequest::Http {
                hosts: copied_texts(hosts),
                reason: reason.clone(),
            },
        }
    }
}

/// A helper process that a plugin or driver asks for.
#[derive(Debug, PartialEq, Eq)]
pub struct SidecarRequest {
    pub name: String,
    pub reason: String,
    pub args: Vec<String>,
    pub port: u16,
    pub scalable: bool,
}

pub struct SidecarRequestView {
    pub name: Seq<char>,
    pub reason: Seq<char>,
    pub args: Seq<Seq<char>>,
    pub port: u16,
    pub scalable: bool,
}

impl View for SidecarRequest {
    type V = SidecarRequestView;

    open spec fn view(&self) -> SidecarRequestView {
        SidecarRequestView {
            name: self.name@,
            reason: self.reason@,
            args: views(self.args@),
            port: self.port,
            scalable: self.scalable,
        }
    }
}

impl Clone for SidecarRequest {
    fn clone(&self) -> (r: Self)
        ensures
            r@ == self@,
    {
        SidecarRequest {
            name: self.name.clone(),
            reason: self.reason.clone(),
            args: copied_texts(&self.args),
            port: self.port,
            scalable: self.scalable,
        }
    }
}

/// A directory that a plugin or driver asks for.
#[derive(Debug, PartialEq, Eq)]
pub struct FilesystemRequest {
    pub name: String,
    pub reason: String,
    pub mode: FilesystemMode,
}

pub struct FilesystemRequestView {
    pub name: Seq<char>,
    pub reason: Seq<char>,
    pub mode: FilesystemMode,
}

impl View for FilesystemRequest {
    type V = FilesystemRequestView;

    open spec fn view(&self) -> FilesystemRequestView {
        FilesystemRequestView { name: self.name@, reason: self.reason@, mode: self.mode }
    }
}

impl Clone for FilesystemRequest {
    fn clone(&self) -> (r: Self)
        ensures
            r@ == self@,
    {
        FilesystemRequest { name: self.name.clone(), reason: self.reason.clone(), mode: self.mode }
    }
}

/// A connection to a driver's topics that a plugin asks for.
#[derive(Debug, PartialEq, Eq)]
pub struct BusRequest {
    pub driver: String,
    pub publish: Vec<String>,
    pub subscribe: Vec<String>,
    pub reason: String,
}

pub struct BusRequestView {
    pub driver: Seq<char>,
    pub publish: Seq<Seq<char>>,
    pub subscribe: Seq<Seq<char>>,
    pub reason: Seq<char>,
}

impl View for BusRequest {
    type V = BusRequestView;

    open spec fn view(&self) -> BusRequestView {
        BusRequestView {
            driver: self.driver@,
            publish: views(self.publish@),
            subscribe: views(self.subscribe@),
            reason: self.reason@,
        }
    }
}

impl Clone for BusRequest {
    fn clone(&self) -> (r: Self)
        ensures
            r@ == self@,
    {
        BusRequest {
            driver: self.driver.clone(),
            publish: copied_texts(&self.publish),
            subscribe: copied_texts(&self.subscribe),
            reason: self.reason.clone(),
        }
    }
}

/// A widget that a plugin offers for the dashboard.
#[derive(Debug, PartialEq, Eq)]
pub struct DashboardWidget {
    pub id: String,
    pub title: String,
    pub entry: String,
    pub size: WidgetSize,
}

pub struct DashboardWidgetView {
    pub id: Seq<char>,
    pub title: Seq<char>,
    pub entry: Seq<char>,
    pub size: WidgetSize,
}

impl View for DashboardWidget {
    type V = DashboardWidgetView;

    open spec fn view(&self) -> DashboardWidgetView {
        DashboardWidgetView {
            id: self.id@,
            title: self.title@,
            entry: self.entry@,
            size: self.size,
        }
    }
}

impl Clone for DashboardWidget {
    fn clone(&self) -> (r: Self)
        ensures
            r@ == self@,
    {
        DashboardWidget {
            id: self.id.clone(),
            title: self.title.clone(),
            entry: self.entry.clone(),
            size: self.size,
        }
    }
}

/// When a schedule fires: every so many seconds, or at the times of a cron
/// expression.
#[derive(Debug, PartialEq, Eq)]
pub enum ScheduleSpec {
    IntervalSeconds(u64),
    Cron(String),
}

pub enum ScheduleSpecView {
    IntervalSeconds(u64),
    Cron(Seq<char>),
}

impl View for ScheduleSpec {
    type V = ScheduleSpecView;

    open spec fn view(&self) -> ScheduleSpecView {
        match self {
            ScheduleSpec::IntervalSeconds(secs) => ScheduleSpecView::IntervalSeconds(*secs),
            ScheduleSpec::Cron(expr) => ScheduleSpecView::Cron(expr@),
        }
    }
}

impl Clone for ScheduleSpec {
    fn clone(&self) -> (r: Self)
        ensures
            r@ == self@,
    {
        match self {
            ScheduleSpec::IntervalSeconds(secs) => ScheduleSpec::IntervalSeconds(*secs),
            ScheduleSpec::Cron(expr) => ScheduleSpec::Cron(expr.clone()),
        }
    }
}

impl ScheduleSpecView {
    pub open spec fn display(self) -> Seq<char> {
        match self {
            ScheduleSpecView::IntervalSeconds(secs) => "every "@ + decimal(secs as nat) + "s"@,
            ScheduleSpecView::Cron(expr) => "cron: "@ + expr,
        }
    }
}

impl ScheduleSpec {
    /// The schedule in words: `every 60s` or `cron: 0 9 * * *`.
    pub fn display_string(&self) -> (r: String)
        ensures
            r@ == self@.display(),
    {
        match self {
            ScheduleSpec::IntervalSeconds(secs) => joined3(
                "every ",
                decimal_text(*secs).as_str(),
                "s",
            ),
            ScheduleSpec::Cron(expr) => joined("cron: ", expr.as_str()),
        }
    }
}

/// A call that a plugin wants to get on a schedule.
#[derive(Debug, PartialEq, Eq)]
pub struct ScheduleRequest {
    pub name: String,
    pub spec: ScheduleSpec,
    pub catch_up: bool,
}

pub struct ScheduleRequestView {
    pub name: Seq<char>,
    pub spec: ScheduleSpecView,
    pub catch_up: bool,
}

impl View for ScheduleRequest {
    type V = ScheduleRequestView;

    open spec fn view(&self) -> ScheduleRequestView {
        ScheduleRequestView { name: self.name@, spec: self.spec@, catch_up: self.catch_up }
    }
}

impl Clone for ScheduleRequest {
    fn clone(&self) -> (r: Self)
        ensures
            r@ == self@,
    {
        ScheduleRequest {
            name: self.name.clone(),
            spec: self.spec.clone(),
            catch_up: self.catch_up,
        }
    }
}

/// One choice of a select setting.
#[derive(Debug, PartialEq, Eq)]
pub struct SelectOption {
    pub value: String,
    pub label: String,
}

pub struct SelectOptionView {
    pub value: Seq<char>,
    pub label: Seq<char>,
}

impl View for SelectOption {
    type V = SelectOptionView;

    open spec fn view(&self) -> SelectOptionView {
        SelectOptionView { value: self.value@, label: self.label@ }
    }
}

impl Clone for SelectOption {
    fn clone(&self) -> (r: Self)
        ensures
            r@ == self@,
    {
        SelectOption { value: self.value.clone(), label: self.label.clone() }
    }
}

/// The driver topic whose retained value lists the choices of a select
/// setting.
#[derive(Debug, PartialEq, Eq)]
pub struct OptionsFrom {
    pub driver: String,
    pub topic: String,
}

pub struct OptionsFromView {
    pub driver: Seq<char>,
    pub topic: Seq<char>,
}

impl View for OptionsFrom {
    type V = OptionsFromView;

    open spec fn view(&self) -> OptionsFromView {
        OptionsFromView { driver: self.driver@, topic: self.topic@ }
    }
}

impl Clone for OptionsFrom {
    fn clone(&self) -> (r: Self)
        ensures
            r@ == self@,
    {
        OptionsFrom { driver: self.driver.clone(), topic: self.topic.clone() }
    }
}

/// A setting that a plugin or driver declares.
#[derive(Debug, PartialEq, Eq)]
pub enum SettingField {
    String { key: String, label: String, default: String },
    Select {
        key: String,
        label: String,
        default: String,
        options: Option<Vec<SelectOption>>,
        options_from: Option<OptionsFrom>,
    },
    Secret { key: String, label: String },
}

pub enum SettingFieldView {
    String { key: Seq<char>, label: Seq<char>, default: Seq<char> },
    Select {
        key: Seq<char>,
        label: Seq<char>,
        default: Seq<char>,
        options: Option<Seq<SelectOptionView>>,
        options_from: Option<OptionsFromView>,
    },
    Secret { key: Seq<char>, label: Seq<char> },
}

/// The view of a list of choices that may be absent.
pub open spec fn options_view(options: Option<Vec<SelectOption>>) -> Option<Seq<SelectOptionView>> {
    match options {
        Some(options) => Some(views(options@)),
        None => None,
    }
}

impl View for SettingField {
    type V = SettingFieldView;

    open spec fn view(&self) -> SettingFieldView {
        match self {
            SettingField::String { key, label, default } => SettingFieldView::String {
                key: key@,
                label: label@,
                default: default@,
            },
            SettingField::Select { key, label, default, options, options_from } =>
                SettingFieldView::Select {
                key: key@,
                label: label@,
                default: default@,
                options: options_view(*options),
                options_from: match options_from {
                    Some(from) => Some(from@),
                    None => None,
                },
            },
            SettingField::Secret { key, label } => SettingFieldView::Secret {
                key: key@,
                label: label@,
            },
        }
    }
}

impl Clone for SettingField {
    fn clone(&self) -> (r: Self)
        ensures
            r@ == self@,
    {
        match self {
            SettingField::String { key, label, default } => SettingField::String {
                key: key.clone(),
                label: label.clone(),
                default: default.clone(),
            },
            SettingField::Select { key, label, default, options, options_from } => {
                let options = match options {
                    Some(options) => {
                        let copy = options.clone();
                        assert(views(copy@) =~= views(options@));
                        Some(copy)
                    },
                    None => None,
                };
                let options_from = match options_from {
                    Some(from) => Some(from.clone()),
                    None => None,
                };
                SettingField::Select {
                    key: key.clone(),
                    label: label.clone(),
                    default: default.clone(),
                    options,
                    options_from,
                }
            },
            SettingField::Secret { key, label } => SettingField::Secret {
                key: key.clone(),
                label: label.clone(),
            },
        }
    }
}

/// A topic that a driver provides.
#[derive(Debug, PartialEq, Eq)]
pub struct TopicSpec {
    pub name: String,
    pub retain: bool,
    pub description: String,
}

pub struct TopicSpecView {
    pub name: Seq<char>,
    pub retain: bool,
    pub description: Seq<char>,
}

impl View for TopicSpec {
    type V = TopicSpecView;

    open spec fn view(&self) -> TopicSpecView {
        TopicSpecView {
            name: self.name@,
            retain: self.retain,
            description: self.description@,
        }
    }
}

impl Clone for TopicSpec {
    fn clone(&self) -> (r: Self)
        ensures
            r@ == self@,
    {
        TopicSpec {
            name: self.name.clone(),
            retain: self.retain,
            description: self.description.clone(),
        }
    }
}

/// A plugin's declaration.
#[derive(Debug, PartialEq, Eq)]
pub struct Manifest {
    pub id: String,
    pub name: String,
    pub version: String,
    pub description: String,
    pub entry: String,
    pub events: Vec<String>,
    pub settings: Vec<SettingField>,
    pub capabilities: Vec<CapabilityRequest>,
    pub sidecars: Vec<SidecarRequest>,
    pub filesystem: Vec<FilesystemRequest>,
    pub bus: Vec<BusRequest>,
    pub dashboard: Vec<DashboardWidget>,
    pub schedules: Vec<ScheduleRequest>,
}

pub struct ManifestView {
    pub id: Seq<char>,
    pub name: Seq<char>,
    pub version: Seq<char>,
    pub description: Seq<char>,
    pub entry: Seq<char>,
    pub events: Seq<Seq<char>>,
    pub settings: Seq<SettingFieldView>,
    pub capabilities: Seq<CapabilityRequestView>,
    pub sidecars: Seq<SidecarRequestView>,
    pub filesystem: Seq<FilesystemRequestView>,
    pub bus: Seq<BusRequestView>,
    pub dashboard: Seq<DashboardWidgetView>,
    pub schedules: Seq<ScheduleRequestView>,
}

impl View for Manifest {
    type V = ManifestView;

    open spec fn view(&self) -> ManifestView {
        ManifestView {
            id: self.id@,
            name: self.name@,
            version: self.version@,
            description: self.description@,
            entry: self.entry@,
            events: views(self.events@),
            settings: views(self.settings@),
            capabilities: views(self.capabilities@),
            sidecars: views(self.sidecars@),
            filesystem: views(self.filesystem@),
            bus: views(self.bus@),
            dashboard: views(self.dashboard@),
            schedules: views(self.schedules@),
        }
    }
}

impl Clone for Manifest {
    fn clone(&self) -> (r: Self)
        ensures
            r@ == self@,
    {
        let r = Manifest {
            id: self.id.clone(),
            name: self.name.clone(),
            version: self.version.clone(),
            description: self.description.clone(),
            entry: self.entry.clone(),
            events: copied_texts(&self.events),
            settings: self.settings.clone(),
            capabilities: self.capabilities.clone(),
            sidecars: self.sidecars.clone(),
            filesystem: self.filesystem.clone(),
            bus: self.bus.clone(),
            dashboard: self.dashboard.clone(),
            schedules: self.schedules.clone(),
        };
        assert(views(r.settings@) =~= views(self.settings@));
        assert(views(r.capabilities@) =~= views(self.capabilities@));
        assert(views(r.sidecars@) =~= views(self.sidecars@));
        assert(views(r.filesystem@) =~= views(self.filesystem@));
        assert(views(r.bus@) =~= views(self.bus@));
        assert(views(r.dashboard@) =~= views(self.dashboard@));
        assert(views(r.schedules@) =~= views(self.schedules@));
        r
    }
}

/// The hosts that a list of capability requests names, in order.
pub open spec fn requested_hosts(capabilities: Seq<CapabilityRequestView>) -> Seq<Seq<char>>
    decreases capabilities.len(),
{
    if capabilities.len() == 0 {
        seq![]
    } else {
        requested_hosts(capabilities.drop_last()) + match capabilities.last() {
            CapabilityRequestView::Http { hosts, .. } => hosts,
        }
    }
}

impl ManifestView {
    pub open spec fn capability_hosts(self) -> Seq<Seq<char>> {
        requested_hosts(self.capabilities)
    }

    pub open spec fn declares_sidecar(self, name: Seq<char>) -> bool {
        exists|i: int| 0 <= i < self.sidecars.len() && #[trigger] self.sidecars[i].name == name
    }

    /// Whether the `i`th declared sidecar is the first of that name.
    pub open spec fn first_sidecar(self, name: Seq<char>, i: int) -> bool {
        &&& 0 <= i < self.sidecars.len()
        &&& self.sidecars[i].name == name
        &&& forall|j: int| 0 <= j < i ==> (#[trigger] self.sidecars[j]).name != name
    }

    pub open spec fn declares_filesystem(self, name: Seq<char>) -> bool {
        exists|i: int| 0 <= i < self.filesystem.len() && #[trigger] self.filesystem[i].name == name
    }

    pub open spec fn declares_bus(self, driver: Seq<char>) -> bool {
        exists|i: int| 0 <= i < self.bus.len() && #[trigger] self.bus[i].driver == driver
    }

    /// Whether the `i`th declared widget is the first of that id.
    pub open spec fn first_widget(self, id: Seq<char>, i: int) -> bool {
        &&& 0 <= i < self.dashboard.len()
        &&& self.dashboard[i].id == id
        &&& forall|j: int| 0 <= j < i ==> (#[trigger] self.dashboard[j]).id != id
    }

    pub open spec fn declares_widget(self, id: Seq<char>) -> bool {
        exists|i: int| 0 <= i < self.dashboard.len() && #[trigger] self.dashboard[i].id == id
    }
}

impl Manifest {
    /// The hosts of all HTTP capabilities, in declaration order.
    pub fn capability_hosts(&self) -> (r: Vec<String>)
        ensures
            views(r@) == self@.capability_hosts(),
    {
        let mut hosts: Vec<String> = Vec::new();
        let mut i: usize = 0;
        assert(views(hosts@) =~= requested_hosts(self@.capabilities.take(0)));
        while i < self.capabilities.len()
            invariant
                i <= self.capabilities.len(),
                views(hosts@) == requested_hosts(self@.capabilities.take(i as int)),
            decreases self.capabilities.len() - i,
        {
            let ghost before = self@.capabilities.take(i as int);
            let ghost after = self@.capabilities.take(i + 1);
            assert(after.drop_last() =~= before);
            let ghost start = hosts@;
            match &self.capabilities[i] {
                CapabilityRequest::Http { hosts: requested, reason: _ } => {
                    let mut copy = copied_texts(requested);
                    hosts.append(&mut copy);
                    assert(views(hosts@) =~= views(start) + views(requested@));
                },
            }
            assert(after.last() == self.capabilities@[i as int]@);
            i = i + 1;
        }
        assert(self@.capabilities.take(self.capabilities.len() as int) =~= self@.capabilities);
        hosts
    }

    /// The declared sidecar of that name: the first one.
    pub fn sidecar(&self, name: &str) -> (r: Option<&SidecarRequest>)
        ensures
            r is Some <==> self@.declares_sidecar(name@),
            r is Some ==> exists|i: int|
                #[trigger] self@.first_sidecar(name@, i) && r->0@ == self@.sidecars[i],
    {
        let mut i: usize = 0;
        while i < self.sidecars.len()
            invariant
                i <= self.sidecars.len(),
                forall|j: int| 0 <= j < i ==> (#[trigger] self.sidecars@[j]).name@ != name@,
            decreases self.sidecars.len() - i,
        {
            if same_text(self.sidecars[i].name.as_str(), name) {
                assert forall|j: int| 0 <= j < i implies (#[trigger] self@.sidecars[j]).name != name@ by {
                    assert(self.sidecars@[j].name@ != name@);
                }
                assert(self@.sidecars[i as int].name == name@);
                assert(self@.first_sidecar(name@, i as int));
                return Some(&self.sidecars[i]);
            }
            i = i + 1;
        }
        assert forall|j: int| 0 <= j < self@.sidecars.len() implies #[trigger] self@.sidecars[j].name
            != name@ by {
            assert(self.sidecars@[j].name@ != name@);
        }
        None
    }

    /// Whether a filesystem root of that name is declared.
    pub fn filesystem_root(&self, name: &str) -> (r: Option<&FilesystemRequest>)
        ensures
            r is Some <==> self@.declares_filesystem(name@),
            r is Some ==> exists|i: int| #![trigger self.filesystem@[i]]
                0 <= i < self.filesystem.len() && *r->0 == self.filesystem@[i] && r->0.name@ == name@,
    {
        let mut i: usize = 0;
        while i < self.filesystem.len()
            invariant
                i <= self.filesystem.len(),
                forall|j: int| 0 <= j < i ==> (#[trigger] self.filesystem@[j]).name@ != name@,
            decreases self.filesystem.len() - i,
        {
            if same_text(self.filesystem[i].name.as_str(), name) {
                assert(self@.filesystem[i as int].name == name@);
                return Some(&self.filesystem[i]);
            }
            i = i + 1;
        }
        assert forall|j: int| 0 <= j < self@.filesystem.len() implies #[trigger] self@.filesystem[j].name
            != name@ by {
            assert(self.filesystem@[j].name@ != name@);
        }
        None
    }

    /// The declared connection to that driver: the first one.
    pub fn bus_request(&self, driver: &str) -> (r: Option<&BusRequest>)
        ensures
            r is Some <==> self@.declares_bus(driver@),
            r is Some ==> exists|i: int| #![trigger self.bus@[i]]
                0 <= i < self.bus.len() && *r->0 == self.bus@[i] && r->0.driver@ == driver@,
    {
        let mut i: usize = 0;
        while i < self.bus.len()
            invariant
                i <= self.bus.len(),
                forall|j: int| 0 <= j < i ==> (#[trigger] self.bus@[j]).driver@ != driver@,
            decreases self.bus.len() - i,
        {
            if same_text(self.bus[i].driver.as_str(), driver) {
                assert(self@.bus[i as int].driver == driver@);
                return Some(&self.bus[i]);
            }
            i = i + 1;
        }
        assert forall|j: int| 0 <= j < self@.bus.len() implies #[trigger] self@.bus[j].driver
            != driver@ by {
            assert(self.bus@[j].driver@ != driver@);
        }
        None
    }

    /// The declared widget of that id: the first one.
    pub fn dashboard_widget(&self, id: &str) -> (r: Option<&DashboardWidget>)
        ensures
            r is Some <==> self@.declares_widget(id@),
            r is Some ==> exists|i: int|
                #[trigger] self@.first_widget(id@, i) && r->0@ == self@.dashboard[i],
    {
        let mut i: usize = 0;
        while i < self.dashboard.len()
            invariant
                i <= self.dashboard.len(),
                forall|j: int| 0 <= j < i ==> (#[trigger] self.dashboard@[j]).id@ != id@,
            decreases self.dashboard.len() - i,
        {
            if same_text(self.dashboard[i].id.as_str(), id) {
                assert forall|j: int| 0 <= j < i implies (#[trigger] self@.dashboard[j]).id != id@ by {
                    assert(self.dashboard@[j].id@ != id@);
                }
                assert(self@.dashboard[i as int].id == id@);
                assert(self@.first_widget(id@, i as int));
                return Some(&self.dashboard[i]);
            }
            i = i + 1;
        }
        assert forall|j: int| 0 <= j < self@.dashboard.len() implies #[trigger] self@.dashboard[j].id
            != id@ by {
            assert(self.dashboard@[j].id@ != id@);
        }
        None
    }
}

/// A driver's declaration.
#[derive(Debug, PartialEq, Eq)]
pub struct DriverManifest {
    pub id: String,
    pub name: String,
    pub version: String,
    pub description: String,
    pub entry: String,
    pub topics: Vec<TopicSpec>,
    pub settings: Vec<SettingField>,
    pub capabilities: Vec<CapabilityRequest>,
    pub sidecars: Vec<SidecarRequest>,
    pub filesystem: Vec<FilesystemRequest>,
}

pub struct DriverManifestView {
    pub id: Seq<char>,
    pub name: Seq<char>,
    pub version: Seq<char>,
    pub description: Seq<char>,
    pub entry: Seq<char>,
    pub topics: Seq<TopicSpecView>,
    pub settings: Seq<SettingFieldView>,
    pub capabilities: Seq<CapabilityRequestView>,
    pub sidecars: Seq<SidecarRequestView>,
    pub filesystem: Seq<FilesystemRequestView>,
}

impl View for DriverManifest {
    type V = DriverManifestView;

    open spec fn view(&self) -> DriverManifestView {
        DriverManifestView {
            id: self.id@,
            name: self.name@,
            version: self.version@,
            description: self.description@,
            entry: self.entry@,
            topics: views(self.topics@),
            settings: views(self.settings@),
            capabilities: views(self.capabilities@),
            sidecars: views(self.sidecars@),
            filesystem: views(self.filesystem@),
        }
    }
}

impl Clone for DriverManifest {
    fn clone(&self) -> (r: Self)
        ensures
            r@ == self@,
    {
        let r = DriverManifest {
            id: self.id.clone(),
            name: self.name.clone(),
            version: self.version.clone(),
            description: self.description.clone(),
            entry: self.entry.clone(),
            topics: self.topics.clone(),
            settings: self.settings.clone(),
            capabilities: self.capabilities.clone(),
            sidecars: self.sidecars.clone(),
            filesystem: self.filesystem.clone(),
        };
        assert(views(r.topics@) =~= views(self.topics@));
        assert(views(r.settings@) =~= views(self.settings@));
        assert(views(r.capabilities@) =~= views(self.capabilities@));
        assert(views(r.sidecars@) =~= views(self.sidecars@));
        assert(views(r.filesystem@) =~= views(self.filesystem@));
        r
    }
}

impl DriverManifestView {
    pub open spec fn provides(self, topic: Seq<char>) -> bool {
        exists|i: int| 0 <= i < self.topics.len() && #[trigger] self.topics[i].name == topic
    }

    /// The declaration as settings and approvals are stored for it: the id, the
    /// settings, the capabilities, the sidecars and the filesystem roots, and
    /// nothing else.
    pub open spec fn settings_manifest(self) -> ManifestView {
        ManifestView {
            id: self.id,
            name: seq![],
            version: seq![],
            description: seq![],
            entry: seq![],
            events: seq![],
            settings: self.settings,
            capabilities: self.capabilities,
            sidecars: self.sidecars,
            filesystem: self.filesystem,
            bus: seq![],
            dashboard: seq![],
            schedules: seq![],
        }
    }
}

impl DriverManifest {
    /// The declaration as settings and approvals are stored for it.
    pub fn as_settings_manifest(&self) -> (r: Manifest)
        ensures
            r@ == self@.settings_manifest(),
    {
        let r = Manifest {
            id: self.id.clone(),
            name: String::new(),
            version: String::new(),
            description: String::new(),
            entry: String::new(),
            events: Vec::new(),
            settings: self.settings.clone(),
            capabilities: self.capabilities.clone(),
            sidecars: self.sidecars.clone(),
            filesystem: self.filesystem.clone(),
            bus: Vec::new(),
            dashboard: Vec::new(),
            schedules: Vec::new(),
        };
        assert(r.name@ =~= seq![]);
        assert(views(r.events@) =~= seq![]);
        assert(views(r.settings@) =~= views(self.settings@));
        assert(views(r.capabilities@) =~= views(self.capabilities@));
        assert(views(r.sidecars@) =~= views(self.sidecars@));
        assert(views(r.filesystem@) =~= views(self.filesystem@));
        assert(views(r.bus@) =~= seq![]);
        assert(views(r.dashboard@) =~= seq![]);
        assert(views(r.schedules@) =~= seq![]);
        r
    }

    /// The provided topic of that name: the first one.
    pub fn topic(&self, name: &str) -> (r: Option<&TopicSpec>)
        ensures
            r is Some <==> self@.provides(name@),
            r is Some ==> exists|i: int| #![trigger self.topics@[i]]
                0 <= i < self.topics.len() && *r->0 == self.topics@[i] && r->0.name@ == name@,
    {
        let mut i: usize = 0;
        while i < self.topics.len()
            invariant
                i <= self.topics.len(),
                forall|j: int| 0 <= j < i ==> (#[trigger] self.topics@[j]).name@ != name@,
            decreases self.topics.len() - i,
        {
            if same_text(self.topics[i].name.as_str(), name) {
                assert(self@.topics[i as int].name == name@);
                return Some(&self.topics[i]);
            }
            i = i + 1;
        }
        assert forall|j: int| 0 <= j < self@.topics.len() implies #[trigger] self@.topics[j].name
            != name@ by {
            assert(self.topics@[j].name@ != name@);
        }
        None
    }
}

/// The requested hosts are those of every request, in order: an additional request adds its
/// hosts at the end, and a host is requested just if some request names it.
pub proof fn law_every_requested_host_is_named(
    capabilities: Seq<CapabilityRequestView>,
    hosts: Seq<Seq<char>>,
    reason: Seq<char>,
    host: Seq<char>,
)
    ensures
        requested_hosts(seq![]).len() == 0,
        requested_hosts(capabilities.push(CapabilityRequestView::Http { hosts, reason }))
            == requested_hosts(capabilities) + hosts,
        requested_hosts(capabilities).contains(host) <==> exists|i: int|
            #![trigger capabilities[i]]
            0 <= i < capabilities.len() && (match capabilities[i] {
                CapabilityRequestView::Http { hosts, .. } => hosts.contains(host),
            }),
    decreases capabilities.len(),
{
    let more = capabilities.push(CapabilityRequestView::Http { hosts, reason });
    assert(more.drop_last() =~= capabilities);
    if capabilities.len() > 0 {
        let rest = capabilities.drop_last();
        let last = capabilities.len() - 1;
        law_every_requested_host_is_named(rest, hosts, reason, host);
        let named = requested_hosts(rest);
        let own = match capabilities.last() {
            CapabilityRequestView::Http { hosts, .. } => hosts,
        };
        let all = requested_hosts(capabilities);
        assert(all == named + own);
        if named.contains(host) {
            let k = choose|k: int| 0 <= k < named.len() && named[k] == host;
            assert(all[k] == host);
            let i = choose|i: int|
                #![trigger rest[i]]
                0 <= i < rest.len() && (match rest[i] {
                    CapabilityRequestView::Http { hosts, .. } => hosts.contains(host),
                });
            assert(capabilities[i] == rest[i]);
        }
        if own.contains(host) {
            let k = choose|k: int| 0 <= k < own.len() && own[k] == host;
            assert(all[named.len() + k] == host);
            assert(capabilities[last] == capabilities.last());
        }
        if all.contains(host) {
            let k = choose|k: int| 0 <= k < all.len() && all[k] == host;
            if k < named.len() {
                assert(named[k] == host);
            } else {
                assert(own[k - named.len()] == host);
            }
        }
        assert forall|i: int| #![trigger capabilities[i]]
            0 <= i < capabilities.len() && (match capabilities[i] {
                CapabilityRequestView::Http { hosts, .. } => hosts.contains(host),
            }) implies all.contains(host) by {
            if i < last {
                assert(rest[i] == capabilities[i]);
            }
        }
    }
}

/// What the library calls the modes of filesystem roots, the sizes of widgets, and
/// schedules.
pub proof fn law_names_in_words(mode: FilesystemMode, size: WidgetSize, spec: ScheduleSpecView)
    ensures
        mode == FilesystemMode::Read ==> mode.name() == "read"@,
        mode == FilesystemMode::ReadWrite ==> mode.name() == "read-write"@,
        size == WidgetSize::Small ==> size.name() == "small"@,
        size == WidgetSize::Medium ==> size.name() == "medium"@,
        size == WidgetSize::Large ==> size.name() == "large"@,
        spec matches ScheduleSpecView::IntervalSeconds(secs) ==> spec.display() == "every "@
            + decimal(secs as nat) + "s"@,
        spec matches ScheduleSpecView::Cron(expr) ==> spec.display() == "cron: "@ + expr,
{
}

/// What settings and approvals of a driver are stored under keeps its id and all that is
/// set or approved of it, and none of what only plugins have.
pub proof fn law_a_driver_is_stored_for_by_its_own_declaration(driver: DriverManifestView)
    ensures
        driver.settings_manifest().id == driver.id,
        driver.settings_manifest().settings == driver.settings,
        driver.settings_manifest().capabilities == driver.capabilities,
        driver.settings_manifest().sidecars == driver.sidecars,
        driver.settings_manifest().filesystem == driver.filesystem,
        driver.settings_manifest().bus.len() == 0,
        driver.settings_manifest().dashboard.len() == 0,
        driver.settings_manifest().schedules.len() == 0,
        driver.settings_manifest().events.len() == 0,
{
}

} // verus!
