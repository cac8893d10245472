//! The entries of a registry, and what is stored for them.

use vstd::prelude::*;

use crate::capability::GrantStorage;
use crate::manifest::{Manifest, ManifestView};
use crate::registry::subject::RegistrySubject;
use crate::registry::ProcessControl;
use crate::settings::{ConfigStorage, Storage};
use crate::text::same_text;

verus! {

/// Whether a plugin or driver runs.
#[derive(Debug, PartialEq, Eq)]
pub enum PluginState {
    Running,
    Disabled { reason: String },
}

pub enum PluginStateView {
    Running,
    Disabled { reason: Seq<char> },
}

impl View for PluginState {
    type V = PluginStateView;

    open spec fn view(&self) -> PluginStateView {
        match self {
            PluginState::Running => PluginStateView::Running,
            PluginState::Disabled { reason } => PluginStateView::Disabled { reason: reason@ },
        }
    }
}

impl Clone for PluginState {
    fn clone(&self) -> (r: Self)
        ensures
            r@ == self@,
    {
        match self {
            PluginState::Running => PluginState::Running,
            PluginState::Disabled { reason } => PluginState::Disabled { reason: reason.clone() },
        }
    }
}

/// A plugin or driver: its declaration, its state, and the buffers that its host
/// reads.
#[derive(Debug)]
pub struct SubjectEntry<M> {
    pub manifest: M,
    pub state: PluginState,
    pub settings_json: String,
    pub capabilities_json: String,
    pub sidecars_json: String,
    pub filesystem_json: String,
    pub bus_json: String,
    pub layout: Option<serde_json::Value>,
}

/// The entry of a plugin.
pub type PluginEntry = SubjectEntry<Manifest>;

/// The entries of a registry. Ids are looked up in order: where two entries have
/// one id, the first counts.
#[derive(Debug)]
pub struct EntryTable<M> {
    pub entries: Vec<SubjectEntry<M>>,
}

/// The place of the first entry with an id, or the number of entries if there is
/// none.
pub open spec fn place_of<M: RegistrySubject>(entries: Seq<SubjectEntry<M>>, id: Seq<char>) -> int
    decreases entries.len(),
{
    if entries.len() == 0 || entries[0].manifest.projected().id == id {
        0
    } else {
        1 + place_of(entries.drop_first(), id)
    }
}

/// The place of an id is the first entry that has it.
pub proof fn lemma_place<M: RegistrySubject>(entries: Seq<SubjectEntry<M>>, id: Seq<char>, i: int)
    requires
        0 <= i <= entries.len(),
        forall|j: int| 0 <= j < i ==> (#[trigger] entries[j]).manifest.projected().id != id,
        i < entries.len() ==> entries[i].manifest.projected().id == id,
    ensures
        place_of(entries, id) == i,
    decreases i,
{
    if i > 0 {
        let rest = entries.drop_first();
        assert forall|j: int| 0 <= j < i - 1 implies (#[trigger] rest[j]).manifest.projected().id
            != id by {
            assert(entries[j + 1].manifest.projected().id != id);
        }
        assert(entries[0].manifest.projected().id != id);
        lemma_place(rest, id, i - 1);
    }
}

/// At the place of an id stands an entry with that id.
pub proof fn lemma_at_place<M: RegistrySubject>(entries: Seq<SubjectEntry<M>>, id: Seq<char>)
    ensures
        0 <= place_of(entries, id) <= entries.len(),
        place_of(entries, id) < entries.len() ==> entries[place_of(
            entries,
            id,
        )].manifest.projected().id == id,
    decreases entries.len(),
{
    if entries.len() > 0 && entries[0].manifest.projected().id != id {
        lemma_at_place(entries.drop_first(), id);
        let rest = entries.drop_first();
        assert(place_of(rest, id) < rest.len() ==> rest[place_of(rest, id)] == entries[place_of(
            rest,
            id,
        ) + 1]);
    }
}

/// The place of an id rests on the declarations alone.
pub proof fn lemma_same_places<M: RegistrySubject>(
    before: Seq<SubjectEntry<M>>,
    after: Seq<SubjectEntry<M>>,
    id: Seq<char>,
)
    requires
        before.len() == after.len(),
        forall|j: int| 0 <= j < before.len() ==> (#[trigger] after[j]).manifest == before[j].manifest,
    ensures
        place_of(before, id) == place_of(after, id),
    decreases before.len(),
{
    if before.len() > 0 {
        assert(after[0].manifest == before[0].manifest);
        assert forall|j: int| 0 <= j < before.drop_first().len() implies (
        #[trigger] after.drop_first()[j]).manifest == before.drop_first()[j].manifest by {
            assert(after[j + 1].manifest == before[j + 1].manifest);
        }
        lemma_same_places(before.drop_first(), after.drop_first(), id);
    }
}

impl<M: RegistrySubject> EntryTable<M> {
    /// No entries.
    pub fn new() -> (r: EntryTable<M>)
        ensures
            r.entries.len() == 0,
    {
        EntryTable { entries: Vec::new() }
    }

    /// Adds an entry at the end.
    pub fn push(&mut self, entry: SubjectEntry<M>)
        ensures
            final(self).entries@ == old(self).entries@.push(entry),
    {
        self.entries.push(entry);
    }

    /// The place of an id, or the number of entries if there is none.
    pub fn find(&self, id: &str) -> (r: usize)
        ensures
            r == place_of(self.entries@, id@),
            r <= self.entries.len(),
            r < self.entries.len() ==> self.entries@[r as int].manifest.projected().id == id@,
    {
        let mut i: usize = 0;
        while i < self.entries.len()
            invariant
                i <= self.entries.len(),
                forall|j: int|
                    0 <= j < i ==> (#[trigger] self.entries@[j]).manifest.projected().id != id@,
            decreases self.entries.len() - i,
        {
            if same_text(self.entries[i].manifest.id(), id) {
                proof {
                    lemma_place(self.entries@, id@, i as int);
                }
                return i;
            }
            i = i + 1;
        }
        proof {
            lemma_place(self.entries@, id@, i as int);
        }
        i
    }
}

/// Plugins or drivers, with their settings, approvals, configurations and
/// processes.
#[derive(Debug)]
pub struct SubjectRegistry<M, St, G, C, P> {
    pub table: EntryTable<M>,
    pub settings: St,
    pub grants: G,
    pub configs: C,
    pub processes: P,
}

impl<
    M: RegistrySubject,
    St: Storage,
    G: GrantStorage,
    C: ConfigStorage,
    P: ProcessControl,
> SubjectRegistry<M, St, G, C, P> {
    /// Whether an id is registered.
    pub open spec fn has(self, id: Seq<char>) -> bool {
        place_of(self.table.entries@, id) < self.table.entries.len()
    }

    /// The entry of an id.
    pub open spec fn entry(self, id: Seq<char>) -> SubjectEntry<M> {
        self.table.entries@[place_of(self.table.entries@, id)]
    }

    /// The declaration that is stored under for an id.
    pub open spec fn subject(self, id: Seq<char>) -> ManifestView {
        self.entry(id).manifest.projected()
    }

    /// A registry without entries.
    pub fn new(settings: St, grants: G, configs: C, processes: P) -> (r: Self)
        ensures
            r.table.entries.len() == 0,
            r.settings == settings,
            r.grants == grants,
            r.configs == configs,
            r.processes == processes,
    {
        SubjectRegistry { table: EntryTable::new(), settings, grants, configs, processes }
    }
}

/// Whether only one entry differs.
pub open spec fn others_kept<M>(
    before: Seq<SubjectEntry<M>>,
    after: Seq<SubjectEntry<M>>,
    at: int,
) -> bool {
    &&& after.len() == before.len()
    &&& forall|j: int| 0 <= j < before.len() && j != at ==> #[trigger] after[j] == before[j]
}

/// What is registered under an id is the first entry that has it, and an id is
/// registered just if some entry has it.
pub proof fn law_the_first_entry_counts<
    M: RegistrySubject,
    St: Storage,
    G: GrantStorage,
    C: ConfigStorage,
    P: ProcessControl,
>(
    registry: SubjectRegistry<M, St, G, C, P>,
    id: Seq<char>,
)
    ensures
        registry.has(id) <==> exists|i: int| #![trigger registry.table.entries@[i]]
            0 <= i < registry.table.entries.len()
                && registry.table.entries@[i].manifest.projected().id == id,
        registry.has(id) ==> exists|i: int| #![trigger registry.table.entries@[i]]
            {
                &&& 0 <= i < registry.table.entries.len()
                &&& registry.table.entries@[i].manifest.projected().id == id
                &&& forall|j: int|
                    0 <= j < i ==> (#[trigger] registry.table.entries@[j]).manifest.projected().id
                        != id
                &&& registry.entry(id) == registry.table.entries@[i]
                &&& registry.subject(id) == registry.table.entries@[i].manifest.projected()
            },
{
    let entries = registry.table.entries@;
    lemma_at_place(entries, id);
    lemma_before_place(entries, id);
    let at = place_of(entries, id);
    if registry.has(id) {
        assert(entries[at].manifest.projected().id == id);
    }
    assert forall|i: int| #![trigger entries[i]]
        0 <= i < entries.len() && entries[i].manifest.projected().id == id implies at
        < entries.len() by {
        if at == entries.len() {
            assert(entries[i].manifest.projected().id != id);
        }
    }
}

proof fn lemma_before_place<M: RegistrySubject>(entries: Seq<SubjectEntry<M>>, id: Seq<char>)
    ensures
        forall|j: int|
            0 <= j < place_of(entries, id) && j < entries.len() ==> (
            #[trigger] entries[j]).manifest.projected().id != id,
    decreases entries.len(),
{
    if entries.len() > 0 && entries[0].manifest.projected().id != id {
        let rest = entries.drop_first();
        lemma_before_place(rest, id);
        assert forall|j: int| 0 <= j < place_of(entries, id) && j < entries.len() implies (
        #[trigger] entries[j]).manifest.projected().id != id by {
            if j > 0 {
                assert(rest[j - 1] == entries[j]);
            }
        }
    }
}

} // verus!
