//! Bus connections of plugins.

use vstd::prelude::*;

use crate::capability::{
    grant_stored, target, Approvals, GrantKind, GrantState, GrantStorage, GrantTarget, GrantsError,
};
use crate::manifest::{
    BusRequest, BusRequestView, DriverManifest, DriverManifestView, Manifest, ManifestView,
};
use crate::registry::entries::{
    lemma_at_place, lemma_place, lemma_same_places, others_kept, place_of, SubjectEntry,
    SubjectRegistry,
};
use crate::registry::filesystem::outcome;
use crate::registry::grants::answer;
use crate::registry::subject::{RegistryError, RegistryErrorView, RegistrySubject};
use crate::registry::ProcessControl;
use crate::rpc::info::{BusInfo, BusInfoView};
use crate::runtime::buffer::{all_redacted, buffer_text, by_key, entries_of, BufferEntry};
use crate::runtime::bus::{
    bus_json_string, bus_permitted, BusDirection, BusRuntimeEntry, BusRuntimeEntryView,
};
use crate::settings::{ConfigStorage, Storage};
use crate::text::{copied_texts, views};

verus! {

/// The drivers that are there.
pub trait Drivers {
    /// The declaration of a driver, if it is there.
    spec fn declared(&self, id: Seq<char>) -> Option<DriverManifestView>;
}

/// Where drivers are looked up.
pub trait DriverDirectory: Drivers + Sized {
    fn manifest_of(&self, id: &str) -> (r: Option<DriverManifest>)
        ensures
            r is Some <==> self.declared(id@) is Some,
            r is Some ==> self.declared(id@) == Some(r->0@),
    ;
}

/// Whether a driver provides all topics.
pub open spec fn provides_all(driver: DriverManifestView, topics: Seq<Seq<char>>) -> bool {
    forall|i: int| 0 <= i < topics.len() ==> driver.provides(#[trigger] topics[i])
}

/// Whether what a connection needs is there: the driver, and all topics in both
/// directions.
pub open spec fn is_resolved<D: Drivers>(drivers: D, request: BusRequestView) -> bool {
    match drivers.declared(request.driver) {
        Some(driver) => provides_all(driver, request.publish) && provides_all(
            driver,
            request.subscribe,
        ),
        None => false,
    }
}

/// What is said of the connections of a declaration, in its order.
pub open spec fn bus_infos<G: Approvals, D: Drivers>(
    grants: G,
    drivers: D,
    m: ManifestView,
) -> Seq<BusInfoView> {
    m.bus.map_values(
        |request: BusRequestView|
            BusInfoView {
                request,
                grant: grants.approval(m, target(GrantKind::Bus, request.driver)),
                resolved: is_resolved(drivers, request),
            },
    )
}

/// What a plugin may use of its connections.
pub open spec fn bus_entries<G: Approvals>(grants: G, m: ManifestView) -> Seq<BusRuntimeEntryView> {
    m.bus.map_values(
        |request: BusRequestView|
            BusRuntimeEntryView {
                driver: request.driver,
                granted: grants.approval(m, target(GrantKind::Bus, request.driver)).granted,
                publish: request.publish,
                subscribe: request.subscribe,
            },
    )
}

/// Whether a buffer says what a plugin may use of its connections.
pub open spec fn bus_buffer_says(entries: Seq<BusRuntimeEntryView>, raw: Seq<char>) -> bool {
    let shown = all_redacted::<BusRuntimeEntry>(entries);
    &&& raw == buffer_text::<BusRuntimeEntry>(shown)
    &&& entries_of::<BusRuntimeEntry>(raw) == shown
}

/// Whether two entries differ in the buffer for connections at most.
pub open spec fn same_but_bus<M>(before: SubjectEntry<M>, after: SubjectEntry<M>) -> bool {
    after == (SubjectEntry { bus_json: after.bus_json, ..before })
}

/// What changing the approval of a connection does and returns.
pub open spec fn bus_grant_set<St: Storage, G: GrantStorage, C: ConfigStorage, P: ProcessControl>(
    before: SubjectRegistry<Manifest, St, G, C, P>,
    id: Seq<char>,
    driver: Seq<char>,
    granted: bool,
    after: SubjectRegistry<Manifest, St, G, C, P>,
    r: Result<GrantState, RegistryErrorView>,
) -> bool {
    let m = before.subject(id);
    let at = place_of(before.table.entries@, id);
    if !before.has(id) {
        r == Err::<GrantState, _>(RegistryErrorView::UnknownPlugin(id)) && after == before
    } else if !m.declares_bus(driver) {
        r == Err::<GrantState, _>(RegistryErrorView::UnknownBus(driver)) && after == before
    } else {
        &&& after.settings == before.settings
        &&& after.configs == before.configs
        &&& after.processes == before.processes
        &&& exists|stored: Result<GrantState, GrantsError>|
            {
                &&& #[trigger] grant_stored(
                    before.grants,
                    m,
                    target(GrantKind::Bus, driver),
                    granted,
                    after.grants,
                    stored,
                )
                &&& match stored {
                    Ok(state) => {
                        &&& r == Ok::<_, RegistryErrorView>(state)
                        &&& others_kept(before.table.entries@, after.table.entries@, at)
                        &&& same_but_bus(before.table.entries@[at], after.table.entries@[at])
                        &&& bus_buffer_says(
                            bus_entries(after.grants, m),
                            after.table.entries@[at].bus_json@,
                        )
                    },
                    Err(e) => r == Err::<GrantState, _>(RegistryErrorView::Grants(e.message@))
                        && after.table == before.table,
                }
            }
    }
}

fn provides_topics(driver: &DriverManifest, topics: &Vec<String>) -> (r: bool)
    ensures
        r == provides_all(driver@, views(topics@)),
{
    let mut i: usize = 0;
    while i < topics.len()
        invariant
            i <= topics.len(),
            forall|j: int| 0 <= j < i ==> driver@.provides(#[trigger] views(topics@)[j]),
        decreases topics.len() - i,
    {
        if driver.topic(topics[i].as_str()).is_none() {
            assert(!driver@.provides(views(topics@)[i as int]));
            return false;
        }
        i = i + 1;
    }
    true
}

/// Whether what a connection needs is there.
pub fn bus_resolved<D: DriverDirectory>(drivers: &D, request: &BusRequest) -> (r: bool)
    ensures
        r == is_resolved(*drivers, request@),
{
    match drivers.manifest_of(request.driver.as_str()) {
        Some(driver) => provides_topics(&driver, &request.publish) && provides_topics(
            &driver,
            &request.subscribe,
        ),
        None => false,
    }
}

impl<
    St: Storage,
    G: GrantStorage,
    C: ConfigStorage,
    P: ProcessControl,
> SubjectRegistry<Manifest, St, G, C, P> {
    /// What is said of the connections of a declaration, in its order.
    pub fn build_bus_infos<D: DriverDirectory>(&self, manifest: &Manifest, drivers: &D) -> (r: Vec<
        BusInfo,
    >)
        ensures
            views(r@) == bus_infos(self.grants, *drivers, manifest@),
    {
        let ghost all = bus_infos(self.grants, *drivers, manifest@);
        let mut infos: Vec<BusInfo> = Vec::new();
        let mut i: usize = 0;
        while i < manifest.bus.len()
            invariant
                i <= manifest.bus.len(),
                all == bus_infos(self.grants, *drivers, manifest@),
                infos.len() == i,
                forall|j: int| 0 <= j < i ==> (#[trigger] infos@[j])@ == all[j],
            decreases manifest.bus.len() - i,
        {
            let request = &manifest.bus[i];
            assert(manifest@.bus[i as int] == request@);
            let grant = self.grants.bus_state(manifest, request.driver.as_str());
            let resolved = bus_resolved(drivers, request);
            infos.push(BusInfo { request: request.clone(), grant, resolved });
            i = i + 1;
        }
        assert(views(infos@) =~= all);
        infos
    }

    /// What is said of the connections of a plugin.
    pub fn bus<D: DriverDirectory>(&self, id: &str, drivers: &D) -> (r: Result<
        Vec<BusInfo>,
        RegistryError,
    >)
        ensures
            outcome(r) == if self.has(id@) {
                Ok::<_, RegistryErrorView>(bus_infos(self.grants, *drivers, self.subject(id@)))
            } else {
                Err(RegistryErrorView::UnknownPlugin(id@))
            },
    {
        let at = self.table.find(id);
        if at == self.table.entries.len() {
            return Err(RegistryError::UnknownPlugin(id.to_owned()));
        }
        Ok(self.build_bus_infos(&self.table.entries[at].manifest, drivers))
    }

    /// The buffer for the connections of a plugin.
    pub fn bus_buffer(&self, id: &str) -> (r: Result<String, RegistryError>)
        ensures
            match r {
                Ok(raw) => self.has(id@) && raw@ == self.entry(id@).bus_json@,
                Err(e) => !self.has(id@) && e@ == RegistryErrorView::UnknownPlugin(id@),
            },
    {
        let at = self.table.find(id);
        if at == self.table.entries.len() {
            return Err(RegistryError::UnknownPlugin(id.to_owned()));
        }
        Ok(self.table.entries[at].bus_json.clone())
    }

    fn refresh_bus_runtime(&mut self, at: usize, manifest: &Manifest)
        requires
            at < old(self).table.entries.len(),
            manifest@ == old(self).table.entries@[at as int].manifest@,
        ensures
            final(self).settings == old(self).settings,
            final(self).grants == old(self).grants,
            final(self).configs == old(self).configs,
            final(self).processes == old(self).processes,
            others_kept(old(self).table.entries@, final(self).table.entries@, at as int),
            same_but_bus(
                old(self).table.entries@[at as int],
                final(self).table.entries@[at as int],
            ),
            bus_buffer_says(
                bus_entries(old(self).grants, manifest@),
                final(self).table.entries@[at as int].bus_json@,
            ),
    {
        let ghost all = bus_entries(self.grants, manifest@);
        let mut entries: Vec<BusRuntimeEntry> = Vec::new();
        let mut i: usize = 0;
        while i < manifest.bus.len()
            invariant
                i <= manifest.bus.len(),
                *self == *old(self),
                all == bus_entries(self.grants, manifest@),
                entries.len() == i,
                forall|j: int| 0 <= j < i ==> (#[trigger] entries@[j])@ == all[j],
            decreases manifest.bus.len() - i,
        {
            let request = &manifest.bus[i];
            assert(manifest@.bus[i as int] == request@);
            let grant = self.grants.bus_state(manifest, request.driver.as_str());
            entries.push(
                BusRuntimeEntry {
                    driver: request.driver.clone(),
                    granted: grant.granted,
                    publish: copied_texts(&request.publish),
                    subscribe: copied_texts(&request.subscribe),
                },
            );
            i = i + 1;
        }
        assert(views(entries@) =~= all);
        self.table.entries[at].bus_json = bus_json_string(&entries);
    }

    /// Changes the approval of a connection, and rewrites the buffer for the
    /// connections.
    pub fn set_bus_grant(&mut self, id: &str, driver: &str, granted: bool) -> (r: Result<
        GrantState,
        RegistryError,
    >)
        ensures
            bus_grant_set(*old(self), id@, driver@, granted, *final(self), answer(r)),
    {
        let at = self.table.find(id);
        if at == self.table.entries.len() {
            return Err(RegistryError::UnknownPlugin(id.to_owned()));
        }
        let manifest = self.table.entries[at].manifest.clone();
        if manifest.bus_request(driver).is_none() {
            return Err(RegistryError::UnknownBus(driver.to_owned()));
        }
        let stored = self.grants.set_bus(&manifest, driver, granted);
        assert(grant_stored(
            old(self).grants,
            manifest@,
            target(GrantKind::Bus, driver@),
            granted,
            self.grants,
            stored,
        ));
        match stored {
            Ok(state) => {
                self.refresh_bus_runtime(at, &manifest);
                Ok(state)
            },
            Err(e) => Err(RegistryError::Grants(e)),
        }
    }
}

proof fn lemma_listed_under_key(entries: Seq<BusRuntimeEntryView>, driver: Seq<char>)
    requires
        by_key::<BusRuntimeEntry>(entries).dom().contains(driver),
    ensures
        exists|i: int| #![trigger entries[i]]
            0 <= i < entries.len() && entries[i].driver == driver && by_key::<BusRuntimeEntry>(
                entries,
            )[driver] == entries[i],
    decreases entries.len(),
{
    if entries.len() > 0 {
        let rest = entries.drop_last();
        if entries.last().driver == driver {
            assert(by_key::<BusRuntimeEntry>(entries)[driver] == entries[entries.len() - 1]);
        } else {
            lemma_listed_under_key(rest, driver);
            let i = choose|i: int| #![trigger rest[i]]
                0 <= i < rest.len() && rest[i].driver == driver && by_key::<BusRuntimeEntry>(
                    rest,
                )[driver] == rest[i];
            assert(entries[i] == rest[i]);
        }
    }
}

/// Taking the approval of a connection back takes effect at once: from the
/// buffer no topic of that driver may be used any more, in neither direction.
pub proof fn law_a_revoked_connection_carries_nothing<
    St: Storage,
    G: GrantStorage,
    C: ConfigStorage,
    P: ProcessControl,
>(
    before: SubjectRegistry<Manifest, St, G, C, P>,
    id: Seq<char>,
    driver: Seq<char>,
    after: SubjectRegistry<Manifest, St, G, C, P>,
    state: GrantState,
    topic: Seq<char>,
    direction: BusDirection,
)
    requires
        bus_grant_set(before, id, driver, false, after, Ok(state)),
    ensures
        !bus_permitted(
            by_key::<BusRuntimeEntry>(entries_of::<BusRuntimeEntry>(after.entry(id).bus_json@)),
            driver,
            topic,
            direction,
        ),
{
    lemma_at_place(before.table.entries@, id);
    let at = place_of(before.table.entries@, id);
    assert forall|j: int| 0 <= j < before.table.entries.len() implies (
    #[trigger] after.table.entries@[j]).manifest == before.table.entries@[j].manifest by {
        if j != at {
            assert(after.table.entries@[j] == before.table.entries@[j]);
        }
    }
    lemma_same_places(before.table.entries@, after.table.entries@, id);
    let m = before.subject(id);
    let shown = entries_of::<BusRuntimeEntry>(after.entry(id).bus_json@);
    let usable = bus_entries(after.grants, m);
    if by_key::<BusRuntimeEntry>(shown).dom().contains(driver) {
        lemma_listed_under_key(shown, driver);
        let i = choose|i: int| #![trigger shown[i]]
            0 <= i < shown.len() && shown[i].driver == driver && by_key::<BusRuntimeEntry>(
                shown,
            )[driver] == shown[i];
        assert(shown[i] == <BusRuntimeEntry as BufferEntry>::redacted(usable[i]));
        assert(usable[i].driver == driver);
        assert(usable[i].granted == after.grants.approval(m, target(GrantKind::Bus, driver)).granted);
    }
}

/// The driver of a resolved connection is there, and declares every topic that the
/// connection publishes or subscribes to.
pub proof fn law_a_resolved_connection_has_every_topic<D: Drivers>(
    drivers: D,
    request: BusRequestView,
    topic: Seq<char>,
)
    requires
        is_resolved(drivers, request),
    ensures
        drivers.declared(request.driver) is Some,
        request.publish.contains(topic) || request.subscribe.contains(topic) ==> exists|k: int|
            #![trigger drivers.declared(request.driver)->0.topics[k]]
            0 <= k < drivers.declared(request.driver)->0.topics.len() && drivers.declared(
                request.driver,
            )->0.topics[k].name == topic,
{
    let driver = drivers.declared(request.driver)->0;
    if request.publish.contains(topic) {
        let i = choose|i: int| 0 <= i < request.publish.len() && request.publish[i] == topic;
        assert(driver.provides(request.publish[i]));
    }
    if request.subscribe.contains(topic) {
        let i = choose|i: int| 0 <= i < request.subscribe.len() && request.subscribe[i] == topic;
        assert(driver.provides(request.subscribe[i]));
    }
}

/// A connection that is not resolved misses its driver, or a topic of it that it publishes or
/// subscribes to: the returned one.
pub proof fn law_an_unresolved_connection_misses_something<D: Drivers>(
    drivers: D,
    request: BusRequestView,
) -> (missing: Seq<char>)
    requires
        !is_resolved(drivers, request),
    ensures
        drivers.declared(request.driver) matches Some(driver) ==> {
            &&& request.publish.contains(missing) || request.subscribe.contains(missing)
            &&& forall|k: int|
                0 <= k < driver.topics.len() ==> (#[trigger] driver.topics[k]).name != missing
        },
{
    match drivers.declared(request.driver) {
        Some(driver) => {
            let topics = if !provides_all(driver, request.publish) {
                request.publish
            } else {
                request.subscribe
            };
            let i = choose|i: int| 0 <= i < topics.len() && !driver.provides(#[trigger] topics[i]);
            assert(topics.contains(topics[i]));
            topics[i]
        },
        None => seq![],
    }
}

/// What is said of connections follows their declaration one by one: the request as it was
/// declared, the approval, and whether what it needs is there.
pub proof fn law_every_declared_connection_is_told_of<G: Approvals, D: Drivers>(
    grants: G,
    drivers: D,
    m: ManifestView,
    i: int,
)
    requires
        0 <= i < m.bus.len(),
    ensures
        bus_infos(grants, drivers, m).len() == m.bus.len(),
        bus_infos(grants, drivers, m)[i].request == m.bus[i],
        bus_infos(grants, drivers, m)[i].grant == grants.approval(
            m,
            (GrantTarget { kind: GrantKind::Bus, name: m.bus[i].driver }),
        ),
        bus_infos(grants, drivers, m)[i].resolved == is_resolved(drivers, m.bus[i]),
{
}

/// Changing the approval of a connection answers so. One that is not declared is unknown.
/// What is taken back is not approved any more, no other approval changes, and the buffer
/// then lists the connections in order, with their topics just if they are approved.
pub proof fn law_approved_connections_are_listed_with_their_topics<
    St: Storage,
    G: GrantStorage,
    C: ConfigStorage,
    P: ProcessControl,
>(
    before: SubjectRegistry<Manifest, St, G, C, P>,
    id: Seq<char>,
    driver: Seq<char>,
    granted: bool,
    after: SubjectRegistry<Manifest, St, G, C, P>,
    r: Result<GrantState, RegistryErrorView>,
    at: int,
    i: int,
)
    requires
        0 <= at < before.table.entries.len(),
        before.table.entries@[at].manifest@.id == id,
        forall|j: int|
            0 <= j < at ==> (#[trigger] before.table.entries@[j]).manifest@.id != id,
        bus_grant_set(before, id, driver, granted, after, r),
        0 <= i < before.table.entries@[at].manifest@.bus.len(),
    ensures
        after.settings == before.settings,
        after.configs == before.configs,
        after.processes == before.processes,
        ({
            let m = before.table.entries@[at].manifest@;
            let on = GrantTarget { kind: GrantKind::Bus, name: driver };
            let declared = exists|k: int| #![trigger m.bus[k]]
                0 <= k < m.bus.len() && m.bus[k].driver == driver;
            let listed = entries_of::<BusRuntimeEntry>(after.table.entries@[at].bus_json@);
            let approved = after.grants.approval(
                m,
                (GrantTarget { kind: GrantKind::Bus, name: m.bus[i].driver }),
            ).granted;
            &&& !declared ==> r == Err::<GrantState, _>(RegistryErrorView::UnknownBus(driver))
            &&& declared ==> r is Ok || r->Err_0 is Grants
            &&& r is Err ==> after.table == before.table
            &&& r is Err ==> forall|other: ManifestView, t: GrantTarget| #[trigger]
                after.grants.approval(other, t) == before.grants.approval(other, t)
            &&& r is Ok ==> {
                &&& r->Ok_0 == after.grants.approval(m, on)
                &&& !granted ==> !after.grants.approval(m, on).granted
                &&& forall|other: ManifestView, t: GrantTarget|
                    other.id != id || t != on ==> #[trigger] after.grants.approval(other, t)
                        == before.grants.approval(other, t)
                &&& listed.len() == m.bus.len()
                &&& listed[i].driver == m.bus[i].driver
                &&& listed[i].granted == approved
                &&& approved ==> listed[i].publish == m.bus[i].publish && listed[i].subscribe
                    == m.bus[i].subscribe
                &&& !approved ==> listed[i].publish.len() == 0 && listed[i].subscribe.len() == 0
                &&& after.table.entries.len() == before.table.entries.len()
                &&& forall|j: int|
                    0 <= j < before.table.entries.len() && j != at
                        ==> #[trigger] after.table.entries@[j] == before.table.entries@[j]
                &&& after.table.entries@[at].state == before.table.entries@[at].state
                &&& after.table.entries@[at].settings_json
                    == before.table.entries@[at].settings_json
                &&& after.table.entries@[at].sidecars_json
                    == before.table.entries@[at].sidecars_json
                &&& after.table.entries@[at].filesystem_json
                    == before.table.entries@[at].filesystem_json
            }
        }),
{
    assert forall|j: int| 0 <= j < at implies (
    #[trigger] before.table.entries@[j]).manifest.projected().id != id by {
        assert(before.table.entries@[j].manifest@.id != id);
    }
    lemma_place(before.table.entries@, id, at);
    let m = before.table.entries@[at].manifest@;
    assert(m.declares_bus(driver) <==> exists|k: int| #![trigger m.bus[k]]
        0 <= k < m.bus.len() && m.bus[k].driver == driver);
    if r is Ok {
        let shown = all_redacted::<BusRuntimeEntry>(bus_entries(after.grants, m));
        assert(shown[i] == <BusRuntimeEntry as BufferEntry>::redacted(
            bus_entries(after.grants, m)[i],
        ));
    }
}

/// Nothing is approved for an id that is not registered: the id is named in the answer.
pub proof fn law_connections_of_an_unknown_plugin_are_not_approved<
    St: Storage,
    G: GrantStorage,
    C: ConfigStorage,
    P: ProcessControl,
>(
    before: SubjectRegistry<Manifest, St, G, C, P>,
    id: Seq<char>,
    driver: Seq<char>,
    granted: bool,
    after: SubjectRegistry<Manifest, St, G, C, P>,
    r: Result<GrantState, RegistryErrorView>,
)
    requires
        forall|j: int|
            0 <= j < before.table.entries.len() ==> (
            #[trigger] before.table.entries@[j]).manifest@.id != id,
        bus_grant_set(before, id, driver, granted, after, r),
    ensures
        r == Err::<GrantState, _>(RegistryErrorView::UnknownPlugin(id)),
        after == before,
{
    assert forall|j: int| 0 <= j < before.table.entries.len() implies (
    #[trigger] before.table.entries@[j]).manifest.projected().id != id by {
        assert(before.table.entries@[j].manifest@.id != id);
    }
    lemma_place(before.table.entries@, id, before.table.entries.len() as int);
}

} // verus!
