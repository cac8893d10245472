//! What users approve.

use vstd::prelude::*;

use crate::manifest::{Manifest, ManifestView};
use crate::text::same_text;

verus! {

/// Whether something is approved. An approval is stale when what it was given
/// for has changed since.
#[derive(Debug, Clone, Copy, PartialEq, Eq, Structural)]
pub struct GrantState {
    pub granted: bool,
    pub stale: bool,
}

/// Why an approval could not be stored.
#[derive(Debug, PartialEq, Eq)]
pub struct GrantsError {
    pub message: String,
}

/// The kinds of things that are approved.
#[derive(Debug, Clone, Copy, PartialEq, Eq, Structural)]
pub enum GrantKind {
    /// All capabilities of a plugin or driver together.
    Capabilities,
    Sidecar,
    Filesystem,
    Bus,
    Dashboard,
}

/// What is approved: a kind, and the name of the one thing of that kind.
pub struct GrantTarget {
    pub kind: GrantKind,
    pub name: Seq<char>,
}

/// All capabilities together.
pub open spec fn capabilities() -> GrantTarget {
    GrantTarget { kind: GrantKind::Capabilities, name: seq![] }
}

/// The one thing of a kind with that name.
pub open spec fn target(kind: GrantKind, name: Seq<char>) -> GrantTarget {
    GrantTarget { kind, name }
}

/// What is approved at present.
pub trait Approvals {
    /// Whether something of a plugin or driver is approved.
    spec fn approval(&self, manifest: ManifestView, on: GrantTarget) -> GrantState;

    /// The state that something would have once it is approved or not. What cannot
    /// be approved may stay as it is.
    spec fn once_judged(&self, manifest: ManifestView, on: GrantTarget, granted: bool) -> GrantState;

    /// Whether storing an approval may fail with these words.
    spec fn refuses(
        &self,
        manifest: ManifestView,
        on: GrantTarget,
        granted: bool,
        message: Seq<char>,
    ) -> bool;
}

/// Where approvals are kept.
pub trait GrantStorage: Approvals + Sized {
    fn state(&self, manifest: &Manifest) -> (r: GrantState)
        ensures
            r == self.approval(manifest@, capabilities()),
    ;

    fn set(&mut self, manifest: &Manifest, granted: bool) -> (r: Result<GrantState, GrantsError>)
        ensures
            grant_stored(*old(self), manifest@, capabilities(), granted, *final(self), r),
    ;

    fn sidecar_state(&self, manifest: &Manifest, name: &str) -> (r: GrantState)
        ensures
            r == self.approval(manifest@, target(GrantKind::Sidecar, name@)),
    ;

    fn set_sidecar(&mut self, manifest: &Manifest, name: &str, granted: bool) -> (r: Result<
        GrantState,
        GrantsError,
    >)
        ensures
            grant_stored(
                *old(self),
                manifest@,
                target(GrantKind::Sidecar, name@),
                granted,
                *final(self),
                r,
            ),
    ;

    fn filesystem_state(&self, manifest: &Manifest, name: &str) -> (r: GrantState)
        ensures
            r == self.approval(manifest@, target(GrantKind::Filesystem, name@)),
    ;

    fn set_filesystem(&mut self, manifest: &Manifest, name: &str, granted: bool) -> (r: Result<
        GrantState,
        GrantsError,
    >)
        ensures
            grant_stored(
                *old(self),
                manifest@,
                target(GrantKind::Filesystem, name@),
                granted,
                *final(self),
                r,
            ),
    ;

    fn bus_state(&self, manifest: &Manifest, driver: &str) -> (r: GrantState)
        ensures
            r == self.approval(manifest@, target(GrantKind::Bus, driver@)),
    ;

    fn set_bus(&mut self, manifest: &Manifest, driver: &str, granted: bool) -> (r: Result<
        GrantState,
        GrantsError,
    >)
        ensures
            grant_stored(
                *old(self),
                manifest@,
                target(GrantKind::Bus, driver@),
                granted,
                *final(self),
                r,
            ),
    ;

    fn dashboard_state(&self, manifest: &Manifest, widget: &str) -> (r: GrantState)
        ensures
            r == self.approval(manifest@, target(GrantKind::Dashboard, widget@)),
    ;

    fn set_dashboard(&mut self, manifest: &Manifest, widget: &str, granted: bool) -> (r: Result<
        GrantState,
        GrantsError,
    >)
        ensures
            grant_stored(
                *old(self),
                manifest@,
                target(GrantKind::Dashboard, widget@),
                granted,
                *final(self),
                r,
            ),
    ;
}

/// What storing an approval does and returns. If the store refuses it nothing
/// changes. If not, the new state is returned, nothing else changes, and what is
/// taken back is not approved any more.
pub open spec fn grant_stored<G: Approvals>(
    before: G,
    manifest: ManifestView,
    on: GrantTarget,
    granted: bool,
    after: G,
    r: Result<GrantState, GrantsError>,
) -> bool {
    match r {
        Ok(state) => {
            &&& state == after.approval(manifest, on)
            &&& state == before.once_judged(manifest, on, granted)
            &&& !granted ==> !state.granted
            &&& forall|m: ManifestView, t: GrantTarget|
                m.id != manifest.id || t != on ==> #[trigger] after.approval(m, t)
                    == before.approval(m, t)
        },
        Err(e) => same_approvals(before, after) && before.refuses(
            manifest,
            on,
            granted,
            e.message@,
        ),
    }
}

/// Whether two stores approve the same.
pub open spec fn same_approvals<G: Approvals>(before: G, after: G) -> bool {
    forall|m: ManifestView, t: GrantTarget|
        #[trigger] after.approval(m, t) == before.approval(m, t)
}

/// One stored approval.
#[derive(Debug)]
pub struct GrantRecord {
    pub id: String,
    pub kind: GrantKind,
    pub name: String,
    pub state: GrantState,
}

/// Approvals that are kept in memory. What was never approved is not.
#[derive(Debug)]
pub struct InMemoryGrantStorage {
    pub records: Vec<GrantRecord>,
}

impl GrantRecord {
    pub open spec fn is_for(self, id: Seq<char>, on: GrantTarget) -> bool {
        self.id@ == id && self.kind == on.kind && self.name@ == on.name
    }
}

/// The state in the first record for something.
pub open spec fn recorded_state(records: Seq<GrantRecord>, id: Seq<char>, on: GrantTarget) -> GrantState
    decreases records.len(),
{
    if records.len() == 0 {
        GrantState { granted: false, stale: false }
    } else if records[0].is_for(id, on) {
        records[0].state
    } else {
        recorded_state(records.drop_first(), id, on)
    }
}

proof fn lemma_state_at(records: Seq<GrantRecord>, id: Seq<char>, on: GrantTarget, i: int)
    requires
        0 <= i <= records.len(),
        forall|j: int| 0 <= j < i ==> !(#[trigger] records[j]).is_for(id, on),
        i < records.len() ==> records[i].is_for(id, on),
    ensures
        recorded_state(records, id, on) == if i < records.len() {
            records[i].state
        } else {
            GrantState { granted: false, stale: false }
        },
    decreases i,
{
    if i > 0 {
        let rest = records.drop_first();
        assert forall|j: int| 0 <= j < i - 1 implies !(#[trigger] rest[j]).is_for(id, on) by {
            assert(!records[j + 1].is_for(id, on));
        }
        assert(!records[0].is_for(id, on));
        lemma_state_at(rest, id, on, i - 1);
    }
}

proof fn lemma_other_state_kept(
    before: Seq<GrantRecord>,
    after: Seq<GrantRecord>,
    id: Seq<char>,
    on: GrantTarget,
    at: int,
)
    requires
        0 <= at < after.len(),
        before.len() == after.len() || before.len() + 1 == after.len() && at == before.len(),
        forall|j: int| 0 <= j < before.len() && j != at ==> #[trigger] after[j] == before[j],
        !after[at].is_for(id, on),
        at < before.len() ==> !before[at].is_for(id, on),
    ensures
        recorded_state(before, id, on) == recorded_state(after, id, on),
    decreases before.len(),
{
    if before.len() == 0 {
        assert(after.drop_first().len() == 0);
        assert(recorded_state(after.drop_first(), id, on) == recorded_state(before, id, on));
    } else {
        if at == 0 {
            assert(after.drop_first() =~= before.drop_first());
        } else {
            assert(after[0] == before[0]);
            assert forall|j: int|
                0 <= j < before.drop_first().len() && j != at - 1 implies #[trigger] after.drop_first()[j]
                == before.drop_first()[j] by {
                assert(after[j + 1] == before[j + 1]);
            }
            lemma_other_state_kept(before.drop_first(), after.drop_first(), id, on, at - 1);
        }
    }
}

impl InMemoryGrantStorage {
    /// Nothing approved.
    pub fn new() -> (r: InMemoryGrantStorage)
        ensures
            r.records.len() == 0,
    {
        InMemoryGrantStorage { records: Vec::new() }
    }

    fn position(&self, id: &str, kind: GrantKind, name: &str) -> (r: usize)
        ensures
            r <= self.records.len(),
            forall|j: int|
                0 <= j < r ==> !(#[trigger] self.records@[j]).is_for(id@, target(kind, name@)),
            r < self.records.len() ==> self.records@[r as int].is_for(id@, target(kind, name@)),
    {
        let mut i: usize = 0;
        while i < self.records.len()
            invariant
                i <= self.records.len(),
                forall|j: int|
                    0 <= j < i ==> !(#[trigger] self.records@[j]).is_for(id@, target(kind, name@)),
            decreases self.records.len() - i,
        {
            let record = &self.records[i];
            if same_text(record.id.as_str(), id) && record.kind == kind && same_text(
                record.name.as_str(),
                name,
            ) {
                return i;
            }
            i = i + 1;
        }
        i
    }

    fn lookup(&self, id: &str, kind: GrantKind, name: &str) -> (r: GrantState)
        ensures
            r == recorded_state(self.records@, id@, target(kind, name@)),
    {
        let at = self.position(id, kind, name);
        proof {
            lemma_state_at(self.records@, id@, target(kind, name@), at as int);
        }
        if at < self.records.len() {
            self.records[at].state
        } else {
            GrantState { granted: false, stale: false }
        }
    }

    /// Sets the state of one thing and of no other.
    pub fn seed(&mut self, id: &str, kind: GrantKind, name: &str, state: GrantState)
        ensures
            recorded_state(final(self).records@, id@, target(kind, name@)) == state,
            forall|other: Seq<char>, on: GrantTarget|
                other != id@ || on != target(kind, name@) ==> #[trigger] recorded_state(
                    final(self).records@,
                    other,
                    on,
                ) == recorded_state(old(self).records@, other, on),
    {
        let at = self.position(id, kind, name);
        let ghost before = self.records@;
        if at < self.records.len() {
            self.records[at].state = state;
        } else {
            self.records.push(
                GrantRecord { id: id.to_owned(), kind, name: name.to_owned(), state },
            );
        }
        proof {
            let after = self.records@;
            lemma_state_at(after, id@, target(kind, name@), at as int);
            assert forall|other: Seq<char>, on: GrantTarget|
                other != id@ || on != target(kind, name@) implies #[trigger] recorded_state(
                after,
                other,
                on,
            ) == recorded_state(before, other, on) by {
                lemma_other_state_kept(before, after, other, on, at as int);
            }
        }
    }
}

impl Approvals for InMemoryGrantStorage {
    open spec fn approval(&self, manifest: ManifestView, on: GrantTarget) -> GrantState {
        recorded_state(self.records@, manifest.id, on)
    }

    open spec fn once_judged(
        &self,
        manifest: ManifestView,
        on: GrantTarget,
        granted: bool,
    ) -> GrantState {
        GrantState { granted, stale: false }
    }

    open spec fn refuses(
        &self,
        manifest: ManifestView,
        on: GrantTarget,
        granted: bool,
        message: Seq<char>,
    ) -> bool {
        false
    }
}

impl GrantStorage for InMemoryGrantStorage {
    fn state(&self, manifest: &Manifest) -> (r: GrantState) {
        let none = String::new();
        assert(none@ =~= seq![]);
        self.lookup(manifest.id.as_str(), GrantKind::Capabilities, none.as_str())
    }

    fn set(&mut self, manifest: &Manifest, granted: bool) -> (r: Result<GrantState, GrantsError>)
        ensures
            r == Ok::<_, GrantsError>((GrantState { granted, stale: false })),
    {
        let none = String::new();
        assert(none@ =~= seq![]);
        let state = GrantState { granted, stale: false };
        self.seed(manifest.id.as_str(), GrantKind::Capabilities, none.as_str(), state);
        Ok(state)
    }

    fn sidecar_state(&self, manifest: &Manifest, name: &str) -> (r: GrantState) {
        self.lookup(manifest.id.as_str(), GrantKind::Sidecar, name)
    }

    fn set_sidecar(&mut self, manifest: &Manifest, name: &str, granted: bool) -> (r: Result<
        GrantState,
        GrantsError,
    >)
        ensures
            r == Ok::<_, GrantsError>((GrantState { granted, stale: false })),
    {
        let state = GrantState { granted, stale: false };
        self.seed(manifest.id.as_str(), GrantKind::Sidecar, name, state);
        Ok(state)
    }

    fn filesystem_state(&self, manifest: &Manifest, name: &str) -> (r: GrantState) {
        self.lookup(manifest.id.as_str(), GrantKind::Filesystem, name)
    }

    fn set_filesystem(&mut self, manifest: &Manifest, name: &str, granted: bool) -> (r: Result<
        GrantState,
        GrantsError,
    >)
        ensures
            r == Ok::<_, GrantsError>((GrantState { granted, stale: false })),
    {
        let state = GrantState { granted, stale: false };
        self.seed(manifest.id.as_str(), GrantKind::Filesystem, name, state);
        Ok(state)
    }

    fn bus_state(&self, manifest: &Manifest, driver: &str) -> (r: GrantState) {
        self.lookup(manifest.id.as_str(), GrantKind::Bus, driver)
    }

    fn set_bus(&mut self, manifest: &Manifest, driver: &str, granted: bool) -> (r: Result<
        GrantState,
        GrantsError,
    >)
        ensures
            r == Ok::<_, GrantsError>((GrantState { granted, stale: false })),
    {
        let state = GrantState { granted, stale: false };
        self.seed(manifest.id.as_str(), GrantKind::Bus, driver, state);
        Ok(state)
    }

    fn dashboard_state(&self, manifest: &Manifest, widget: &str) -> (r: GrantState) {
        self.lookup(manifest.id.as_str(), GrantKind::Dashboard, widget)
    }

    fn set_dashboard(&mut self, manifest: &Manifest, widget: &str, granted: bool) -> (r: Result<
        GrantState,
        GrantsError,
    >)
        ensures
            r == Ok::<_, GrantsError>((GrantState { granted, stale: false })),
    {
        let state = GrantState { granted, stale: false };
        self.seed(manifest.id.as_str(), GrantKind::Dashboard, widget, state);
        Ok(state)
    }
}

/// The first record for something says whether it is approved. Without one it is not.
pub proof fn law_the_first_record_counts(
    records: Seq<GrantRecord>,
    id: Seq<char>,
    on: GrantTarget,
    i: int,
)
    requires
        0 <= i <= records.len(),
        forall|j: int| #![trigger records[j]]
            0 <= j < i ==> records[j].id@ != id || records[j].kind != on.kind || records[j].name@
                != on.name,
        i < records.len() ==> records[i].id@ == id && records[i].kind == on.kind
            && records[i].name@ == on.name,
    ensures
        i < records.len() ==> recorded_state(records, id, on) == records[i].state,
        i == records.len() ==> !recorded_state(records, id, on).granted && !recorded_state(
            records,
            id,
            on,
        ).stale,
{
    lemma_state_at(records, id, on, i);
}

/// An approval that is stored in memory is in effect and not stale, or is not in effect any
/// more, just as it was asked for.
pub proof fn law_approvals_in_memory_are_as_asked(
    before: InMemoryGrantStorage,
    manifest: ManifestView,
    on: GrantTarget,
    granted: bool,
    after: InMemoryGrantStorage,
    r: Result<GrantState, GrantsError>,
)
    requires
        grant_stored(before, manifest, on, granted, after, r),
    ensures
        r is Ok,
        after.approval(manifest, on).granted == granted,
        !after.approval(manifest, on).stale,
        forall|m: ManifestView, t: GrantTarget|
            m.id != manifest.id || t != on ==> #[trigger] after.approval(m, t) == before.approval(
                m,
                t,
            ),
{
}

} // verus!
