//! Starting a plugin.

use vstd::prelude::*;

use crate::capability::{GrantKind, GrantStorage, GrantTarget};
use crate::json::{json_text, JsonTree};
use crate::manifest::{
    BusRequest, BusRequestView, DriverManifest, DriverManifestView, Manifest, ManifestView,
};
use crate::registry::bus::{
    bus_buffer_says, bus_entries, is_resolved, provides_all, DriverDirectory, Drivers,
};
use crate::registry::entries::{PluginEntry, PluginState};
use crate::runner::bootstrap::{
    buffers_say, build_initial_buffers, initial_bus_json, law_initial_hosts_are_approved,
    usable_roots, usable_sidecars, InitialBuffers,
};
use crate::runtime::buffer::{all_redacted, entries_of, BufferEntry};
use crate::runtime::bus::BusRuntimeEntry;
use crate::runtime::capabilities::hosts_of;
use crate::runtime::fs::FsRuntimeEntry;
use crate::runtime::sidecar::{local_hosts, SidecarRuntimeEntry};
use crate::settings::{ConfigStorage, Storage};
use crate::text::views;

verus! {

/// Whether a plugin is registered in a state: what its thread has reported, or that it has
/// ended without a report.
pub open spec fn registered_in(report: Option<PluginState>, state: PluginState) -> bool {
    match report {
        Some(reported) => state == reported,
        None => state matches PluginState::Disabled { reason } && reason@
            == "plugin thread exited before reporting an init result"@,
    }
}

/// The state that a plugin is registered in: what its thread has reported, or that
/// it has ended without a report.
pub fn reported_state(report: Option<PluginState>) -> (r: PluginState)
    ensures
        match report {
            Some(state) => r == state,
            None => r matches PluginState::Disabled { reason } && reason@
                == "plugin thread exited before reporting an init result"@,
        },
        registered_in(report, r),
{
    match report {
        Some(state) => state,
        None => PluginState::Disabled {
            reason: "plugin thread exited before reporting an init result".to_owned(),
        },
    }
}

/// Whether an entry is as a plugin starts.
pub open spec fn starts_as<St: Storage, G: GrantStorage, C: ConfigStorage>(
    settings: St,
    grants: G,
    configs: C,
    m: ManifestView,
    entry: PluginEntry,
) -> bool {
    &&& entry.manifest@ == m
    &&& buffers_say(
        settings,
        grants,
        configs,
        m,
        (InitialBuffers {
            settings_json: entry.settings_json,
            capabilities_json: entry.capabilities_json,
            sidecars_json: entry.sidecars_json,
            filesystem_json: entry.filesystem_json,
        }),
    )
    &&& bus_buffer_says(bus_entries(grants, m), entry.bus_json@)
}

/// The entry of a plugin that starts. It runs until its thread says otherwise.
pub fn initial_entry<St: Storage, G: GrantStorage, C: ConfigStorage>(
    manifest: &Manifest,
    settings: &St,
    grants: &G,
    configs: &C,
    layout: Option<serde_json::Value>,
) -> (r: PluginEntry)
    ensures
        starts_as(*settings, *grants, *configs, manifest@, r),
        r.state is Running,
        r.layout == layout,
{
    let buffers = build_initial_buffers(manifest, settings, grants, configs);
    let bus_json = initial_bus_json(manifest, grants);
    PluginEntry {
        manifest: manifest.clone(),
        state: PluginState::Running,
        settings_json: buffers.settings_json,
        capabilities_json: buffers.capabilities_json,
        sidecars_json: buffers.sidecars_json,
        filesystem_json: buffers.filesystem_json,
        bus_json,
        layout,
    }
}

/// A topic of a driver.
#[derive(Debug, PartialEq, Eq)]
pub struct BusTopic {
    pub driver: String,
    pub topic: String,
}

pub struct BusTopicView {
    pub driver: Seq<char>,
    pub topic: Seq<char>,
}

impl View for BusTopic {
    type V = BusTopicView;

    open spec fn view(&self) -> BusTopicView {
        BusTopicView { driver: self.driver@, topic: self.topic@ }
    }
}

/// Topics of one driver.
pub open spec fn topics_of(driver: Seq<char>, topics: Seq<Seq<char>>) -> Seq<BusTopicView> {
    topics.map_values(|topic: Seq<char>| BusTopicView { driver, topic })
}

/// The topics that connections subscribe to, in order.
pub open spec fn all_subscribed(bus: Seq<BusRequestView>) -> Seq<BusTopicView>
    decreases bus.len(),
{
    if bus.len() == 0 {
        seq![]
    } else {
        all_subscribed(bus.drop_last()) + topics_of(bus.last().driver, bus.last().subscribe)
    }
}

/// The topics that a plugin subscribes to, in order. Approvals do not matter here:
/// they are looked at when something comes.
pub fn subscribed_topics(manifest: &Manifest) -> (r: Vec<BusTopic>)
    ensures
        views(r@) == all_subscribed(manifest@.bus),
{
    let mut topics: Vec<BusTopic> = Vec::new();
    let mut i: usize = 0;
    assert(views(topics@) =~= all_subscribed(manifest@.bus.take(0)));
    while i < manifest.bus.len()
        invariant
            i <= manifest.bus.len(),
            views(topics@) == all_subscribed(manifest@.bus.take(i as int)),
        decreases manifest.bus.len() - i,
    {
        let request = &manifest.bus[i];
        let ghost start = views(topics@);
        let ghost added = topics_of(request@.driver, request@.subscribe);
        assert(start + added.take(0) =~= start);
        let mut k: usize = 0;
        while k < request.subscribe.len()
            invariant
                k <= request.subscribe.len(),
                added == topics_of(request@.driver, request@.subscribe),
                views(topics@) == start + added.take(k as int),
            decreases request.subscribe.len() - k,
        {
            let ghost before = topics@;
            topics.push(
                BusTopic { driver: request.driver.clone(), topic: request.subscribe[k].clone() },
            );
            assert(views(topics@) =~= views(before).push(added[k as int]));
            assert(start + added.take(k + 1) =~= (start + added.take(k as int)).push(
                added[k as int],
            ));
            k = k + 1;
        }
        assert(added.take(added.len() as int) =~= added);
        proof {
            let taken = manifest@.bus.take(i + 1);
            assert(taken.drop_last() =~= manifest@.bus.take(i as int));
            assert(taken.last() == request@);
        }
        i = i + 1;
    }
    assert(manifest@.bus.take(manifest.bus.len() as int) =~= manifest@.bus);
    topics
}

/// What is wrong with a connection.
#[derive(Debug, PartialEq, Eq)]
pub enum BusWarning {
    /// The driver is not installed.
    NoDriver { driver: String },
    /// The driver does not provide the topic.
    NoTopic { driver: String, topic: String },
}

pub enum BusWarningView {
    NoDriver { driver: Seq<char> },
    NoTopic { driver: Seq<char>, topic: Seq<char> },
}

impl View for BusWarning {
    type V = BusWarningView;

    open spec fn view(&self) -> BusWarningView {
        match self {
            BusWarning::NoDriver { driver } => BusWarningView::NoDriver { driver: driver@ },
            BusWarning::NoTopic { driver, topic } => BusWarningView::NoTopic {
                driver: driver@,
                topic: topic@,
            },
        }
    }
}

/// The topics that a driver does not provide, in order.
pub open spec fn missing_topics(driver: DriverManifestView, id: Seq<char>, topics: Seq<Seq<char>>) -> Seq<
    BusWarningView,
>
    decreases topics.len(),
{
    if topics.len() == 0 {
        seq![]
    } else {
        let before = missing_topics(driver, id, topics.drop_last());
        if driver.provides(topics.last()) {
            before
        } else {
            before.push(BusWarningView::NoTopic { driver: id, topic: topics.last() })
        }
    }
}

/// What is wrong with one connection.
pub open spec fn request_warnings<D: Drivers>(drivers: D, request: BusRequestView) -> Seq<
    BusWarningView,
> {
    match drivers.declared(request.driver) {
        Some(driver) => missing_topics(driver, request.driver, request.publish) + missing_topics(
            driver,
            request.driver,
            request.subscribe,
        ),
        None => seq![BusWarningView::NoDriver { driver: request.driver }],
    }
}

/// What is wrong with connections, in order.
pub open spec fn bus_warnings<D: Drivers>(drivers: D, bus: Seq<BusRequestView>) -> Seq<BusWarningView>
    decreases bus.len(),
{
    if bus.len() == 0 {
        seq![]
    } else {
        bus_warnings(drivers, bus.drop_last()) + request_warnings(drivers, bus.last())
    }
}

fn warn_missing_topics(driver: &DriverManifest, id: &str, topics: &Vec<String>) -> (r: Vec<
    BusWarning,
>)
    ensures
        views(r@) == missing_topics(driver@, id@, views(topics@)),
{
    let mut warnings: Vec<BusWarning> = Vec::new();
    let mut i: usize = 0;
    assert(views(warnings@) =~= missing_topics(driver@, id@, views(topics@).take(0)));
    while i < topics.len()
        invariant
            i <= topics.len(),
            views(warnings@) == missing_topics(driver@, id@, views(topics@).take(i as int)),
        decreases topics.len() - i,
    {
        let ghost before = warnings@;
        proof {
            let taken = views(topics@).take(i + 1);
            assert(taken.drop_last() =~= views(topics@).take(i as int));
            assert(taken.last() == topics@[i as int]@);
        }
        if driver.topic(topics[i].as_str()).is_none() {
            warnings.push(
                BusWarning::NoTopic { driver: id.to_owned(), topic: topics[i].clone() },
            );
            assert(views(warnings@) =~= views(before).push(warnings@.last()@));
        }
        i = i + 1;
    }
    assert(views(topics@).take(topics.len() as int) =~= views(topics@));
    warnings
}

fn warn_request<D: DriverDirectory>(drivers: &D, request: &BusRequest) -> (r: Vec<BusWarning>)
    ensures
        views(r@) == request_warnings(*drivers, request@),
{
    match drivers.manifest_of(request.driver.as_str()) {
        Some(driver) => {
            let mut warnings = warn_missing_topics(
                &driver,
                request.driver.as_str(),
                &request.publish,
            );
            let mut more = warn_missing_topics(
                &driver,
                request.driver.as_str(),
                &request.subscribe,
            );
            let ghost first = warnings@;
            let ghost second = more@;
            warnings.append(&mut more);
            assert(views(warnings@) =~= views(first) + views(second));
            warnings
        },
        None => {
            let mut warnings: Vec<BusWarning> = Vec::new();
            warnings.push(BusWarning::NoDriver { driver: request.driver.clone() });
            assert(views(warnings@) =~= request_warnings(*drivers, request@));
            warnings
        },
    }
}

/// What is wrong with the connections of a plugin, in order. It starts all the
/// same: a driver may come later.
pub fn warn_unresolved_bus<D: DriverDirectory>(manifest: &Manifest, drivers: &D) -> (r: Vec<
    BusWarning,
>)
    ensures
        views(r@) == bus_warnings(*drivers, manifest@.bus),
{
    let mut warnings: Vec<BusWarning> = Vec::new();
    let mut i: usize = 0;
    assert(views(warnings@) =~= bus_warnings(*drivers, manifest@.bus.take(0)));
    while i < manifest.bus.len()
        invariant
            i <= manifest.bus.len(),
            views(warnings@) == bus_warnings(*drivers, manifest@.bus.take(i as int)),
        decreases manifest.bus.len() - i,
    {
        let ghost first = warnings@;
        let mut more = warn_request(drivers, &manifest.bus[i]);
        let ghost second = more@;
        warnings.append(&mut more);
        assert(views(warnings@) =~= views(first) + views(second));
        proof {
            let taken = manifest@.bus.take(i + 1);
            assert(taken.drop_last() =~= manifest@.bus.take(i as int));
            assert(taken.last() == manifest.bus@[i as int]@);
        }
        i = i + 1;
    }
    assert(manifest@.bus.take(manifest.bus.len() as int) =~= manifest@.bus);
    warnings
}

proof fn lemma_nothing_missing(driver: DriverManifestView, id: Seq<char>, topics: Seq<Seq<char>>)
    ensures
        missing_topics(driver, id, topics).len() == 0 <==> provides_all(driver, topics),
    decreases topics.len(),
{
    if topics.len() > 0 {
        let rest = topics.drop_last();
        lemma_nothing_missing(driver, id, rest);
        if provides_all(driver, topics) {
            assert forall|i: int| 0 <= i < rest.len() implies driver.provides(#[trigger] rest[i]) by {
                assert(driver.provides(topics[i]));
            }
            assert(driver.provides(topics[topics.len() - 1]));
        }
        if provides_all(driver, rest) && driver.provides(topics.last()) {
            assert forall|i: int| 0 <= i < topics.len() implies driver.provides(
                #[trigger] topics[i],
            ) by {
                if i < rest.len() {
                    assert(driver.provides(rest[i]));
                }
            }
        }
    }
}

/// There is nothing to warn of if and only if responses show every connection as
/// resolved.
pub proof fn law_warnings_tell_what_is_unresolved<D: Drivers>(drivers: D, bus: Seq<BusRequestView>)
    ensures
        bus_warnings(drivers, bus).len() == 0 <==> forall|i: int|
            0 <= i < bus.len() ==> is_resolved(drivers, #[trigger] bus[i]),
    decreases bus.len(),
{
    if bus.len() > 0 {
        let rest = bus.drop_last();
        let last = bus.last();
        law_warnings_tell_what_is_unresolved(drivers, rest);
        match drivers.declared(last.driver) {
            Some(driver) => {
                lemma_nothing_missing(driver, last.driver, last.publish);
                lemma_nothing_missing(driver, last.driver, last.subscribe);
            },
            None => {},
        }
        assert(request_warnings(drivers, last).len() == 0 <==> is_resolved(drivers, last));
        if forall|i: int| 0 <= i < bus.len() ==> is_resolved(drivers, #[trigger] bus[i]) {
            assert forall|i: int| 0 <= i < rest.len() implies is_resolved(
                drivers,
                #[trigger] rest[i],
            ) by {
                assert(is_resolved(drivers, bus[i]));
            }
            assert(is_resolved(drivers, bus[bus.len() - 1]));
        }
        if (forall|i: int| 0 <= i < rest.len() ==> is_resolved(drivers, #[trigger] rest[i]))
            && is_resolved(drivers, last) {
            assert forall|i: int| 0 <= i < bus.len() implies is_resolved(
                drivers,
                #[trigger] bus[i],
            ) by {
                if i < rest.len() {
                    assert(is_resolved(drivers, rest[i]));
                }
            }
        }
    }
}

/// A plugin subscribes to every topic of every connection, in order: a further connection
/// adds the topics that it subscribes to, under its driver, at the end.
pub proof fn law_every_subscription_is_listed(
    bus: Seq<BusRequestView>,
    request: BusRequestView,
    i: int,
)
    requires
        0 <= i < request.subscribe.len(),
    ensures
        all_subscribed(seq![]).len() == 0,
        ({
            let before = all_subscribed(bus);
            let after = all_subscribed(bus.push(request));
            &&& after.len() == before.len() + request.subscribe.len()
            &&& forall|k: int| 0 <= k < before.len() ==> #[trigger] after[k] == before[k]
            &&& after[before.len() + i].driver == request.driver
            &&& after[before.len() + i].topic == request.subscribe[i]
        }),
{
    assert(bus.push(request).drop_last() =~= bus);
}

/// A topic is missing just if no topic of the driver has its name: a further topic adds a
/// warning about itself if it is missing, and none if it is there.
pub proof fn law_missing_topics_are_warned_of(
    driver: DriverManifestView,
    id: Seq<char>,
    topics: Seq<Seq<char>>,
    topic: Seq<char>,
)
    ensures
        missing_topics(driver, id, seq![]).len() == 0,
        ({
            let there = exists|k: int| #![trigger driver.topics[k]]
                0 <= k < driver.topics.len() && driver.topics[k].name == topic;
            &&& there ==> missing_topics(driver, id, topics.push(topic)) == missing_topics(
                driver,
                id,
                topics,
            )
            &&& !there ==> missing_topics(driver, id, topics.push(topic)) == missing_topics(
                driver,
                id,
                topics,
            ).push(BusWarningView::NoTopic { driver: id, topic })
        }),
{
    assert(topics.push(topic).drop_last() =~= topics);
    assert(driver.provides(topic) <==> exists|k: int| #![trigger driver.topics[k]]
        0 <= k < driver.topics.len() && driver.topics[k].name == topic);
}

/// Connections are warned of in order: a further one adds a warning about its driver if that
/// is not there, and else about the topics that the driver misses, first of those that it
/// publishes and then of those that it subscribes to.
pub proof fn law_connections_are_warned_of_in_order<D: Drivers>(
    drivers: D,
    bus: Seq<BusRequestView>,
    request: BusRequestView,
)
    ensures
        bus_warnings(drivers, seq![]).len() == 0,
        drivers.declared(request.driver) is None ==> bus_warnings(drivers, bus.push(request))
            == bus_warnings(drivers, bus).push(
            BusWarningView::NoDriver { driver: request.driver },
        ),
        drivers.declared(request.driver) matches Some(driver) ==> bus_warnings(
            drivers,
            bus.push(request),
        ) == bus_warnings(drivers, bus) + missing_topics(driver, request.driver, request.publish)
            + missing_topics(driver, request.driver, request.subscribe),
{
    assert(bus.push(request).drop_last() =~= bus);
    match drivers.declared(request.driver) {
        Some(driver) => {
            let first = missing_topics(driver, request.driver, request.publish);
            let second = missing_topics(driver, request.driver, request.subscribe);
            assert(bus_warnings(drivers, bus) + (first + second) =~= bus_warnings(drivers, bus)
                + first + second);
        },
        None => {
            let warning = BusWarningView::NoDriver { driver: request.driver };
            assert(bus_warnings(drivers, bus) + seq![warning] =~= bus_warnings(drivers, bus).push(
                warning,
            ));
        },
    }
}

/// A plugin is registered as its thread has reported it, and as disabled if the thread ended
/// without a report.
pub proof fn law_a_plugin_is_registered_as_reported(report: Option<PluginState>, state: PluginState)
    requires
        registered_in(report, state),
    ensures
        report matches Some(reported) ==> state == reported,
        report is None ==> (state matches PluginState::Disabled { reason } && reason@
            == "plugin thread exited before reporting an init result"@),
{
}

/// A plugin starts with its own declaration, and its buffer for connections lists each in order,
/// with its topics just if it is approved.
pub proof fn law_a_plugin_starts_with_its_connections<
    St: Storage,
    G: GrantStorage,
    C: ConfigStorage,
>(settings: St, grants: G, configs: C, m: ManifestView, entry: PluginEntry, i: int)
    requires
        starts_as(settings, grants, configs, m, entry),
        0 <= i < m.bus.len(),
    ensures
        entry.manifest@ == m,
        ({
            let listed = entries_of::<BusRuntimeEntry>(entry.bus_json@);
            let approved = grants.approval(
                m,
                (GrantTarget { kind: GrantKind::Bus, name: m.bus[i].driver }),
            ).granted;
            &&& listed.len() == m.bus.len()
            &&& listed[i].driver == m.bus[i].driver
            &&& listed[i].granted == approved
            &&& approved ==> listed[i].publish == m.bus[i].publish && listed[i].subscribe
                == m.bus[i].subscribe
            &&& !approved ==> listed[i].publish.len() == 0 && listed[i].subscribe.len() == 0
        }),
{
    let usable = bus_entries(grants, m);
    let shown = all_redacted::<BusRuntimeEntry>(usable);
    assert(shown[i] == <BusRuntimeEntry as BufferEntry>::redacted(usable[i]));
}

/// A plugin starts with the buffers for its settings in effect, its sidecars, its roots and its
/// hosts, of which each discloses no more than is approved.
pub proof fn law_a_plugin_starts_with_its_buffers<
    St: Storage,
    G: GrantStorage,
    C: ConfigStorage,
>(settings: St, grants: G, configs: C, m: ManifestView, entry: PluginEntry, host: Seq<char>)
    requires
        starts_as(settings, grants, configs, m, entry),
    ensures
        entry.settings_json@ == json_text(JsonTree::Object(settings.in_effect(m))),
        entries_of::<SidecarRuntimeEntry>(entry.sidecars_json@) == all_redacted::<
            SidecarRuntimeEntry,
        >(usable_sidecars(grants, configs, m)),
        entries_of::<FsRuntimeEntry>(entry.filesystem_json@) == all_redacted::<FsRuntimeEntry>(
            usable_roots(grants, configs, m),
        ),
        hosts_of(entry.capabilities_json@).contains(host) <==> {
            ||| grants.approval(
                m,
                (GrantTarget { kind: GrantKind::Capabilities, name: seq![] }),
            ).granted && m.capability_hosts().contains(host)
            ||| local_hosts(usable_sidecars(grants, configs, m)).contains(host)
        },
{
    law_initial_hosts_are_approved(
        settings,
        grants,
        configs,
        m,
        (InitialBuffers {
            settings_json: entry.settings_json,
            capabilities_json: entry.capabilities_json,
            sidecars_json: entry.sidecars_json,
            filesystem_json: entry.filesystem_json,
        }),
        host,
    );
}

} // verus!
