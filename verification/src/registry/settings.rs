//! Settings of plugins and drivers.

use vstd::prelude::*;

use crate::capability::GrantStorage;
use crate::json::{json_members, json_object, json_print, json_text, map_clone, JsonTree};
use crate::manifest::ManifestView;
use crate::registry::entries::{
    lemma_at_place, lemma_place, lemma_same_places, others_kept, place_of, SubjectEntry,
    SubjectRegistry,
};
use crate::registry::subject::{RegistryErrorView, RegistrySubject};
use crate::registry::ProcessControl;
use crate::settings::{settings_stored, ConfigStorage, SettingsError, Storage};

verus! {

/// Whether two entries differ in the buffer for settings at most.
pub open spec fn same_but_settings<M>(before: SubjectEntry<M>, after: SubjectEntry<M>) -> bool {
    after == (SubjectEntry { settings_json: after.settings_json, ..before })
}

/// What storing settings does and returns: they are in effect, and the buffer
/// says so.
pub open spec fn settings_set<
    M: RegistrySubject,
    St: Storage,
    G: GrantStorage,
    C: ConfigStorage,
    P: ProcessControl,
>(
    before: SubjectRegistry<M, St, G, C, P>,
    id: Seq<char>,
    values: Map<Seq<char>, JsonTree>,
    after: SubjectRegistry<M, St, G, C, P>,
    r: Result<Map<Seq<char>, JsonTree>, RegistryErrorView>,
) -> bool {
    let m = before.subject(id);
    let at = place_of(before.table.entries@, id);
    if !before.has(id) {
        r == Err::<Map<Seq<char>, JsonTree>, _>(M::unknown(id)) && after == before
    } else {
        &&& after.grants == before.grants
        &&& after.configs == before.configs
        &&& after.processes == before.processes
        &&& exists|stored: Result<serde_json::Map<String, serde_json::Value>, SettingsError>|
            {
                &&& #[trigger] settings_stored(
                    before.settings,
                    m,
                    values,
                    after.settings,
                    stored,
                )
                &&& match stored {
                    Ok(_) => {
                        let effective = after.settings.in_effect(m);
                        &&& r == Ok::<_, RegistryErrorView>(effective)
                        &&& others_kept(before.table.entries@, after.table.entries@, at)
                        &&& same_but_settings(before.table.entries@[at], after.table.entries@[at])
                        &&& after.table.entries@[at].settings_json@ == json_text(
                            JsonTree::Object(effective),
                        )
                    },
                    Err(e) => r == Err::<Map<Seq<char>, JsonTree>, _>(
                        RegistryErrorView::Settings(e.message@),
                    ) && after.table == before.table,
                }
            }
    }
}

/// What a request for settings returns.
pub open spec fn values_outcome<E: View>(
    r: Result<serde_json::Map<String, serde_json::Value>, E>,
) -> Result<Map<Seq<char>, JsonTree>, E::V> {
    match r {
        Ok(values) => Ok(json_members(values)),
        Err(e) => Err(e@),
    }
}

impl<
    M: RegistrySubject,
    St: Storage,
    G: GrantStorage,
    C: ConfigStorage,
    P: ProcessControl,
> SubjectRegistry<M, St, G, C, P> {
    /// The settings in effect for a plugin or driver, secrets among them.
    pub fn effective(&self, id: &str) -> (r: Result<
        serde_json::Map<String, serde_json::Value>,
        M::Error,
    >)
        ensures
            values_outcome(r) == if self.has(id@) {
                Ok::<_, RegistryErrorView>(self.settings.in_effect(self.subject(id@)))
            } else {
                Err(M::unknown(id@))
            },
    {
        let at = self.table.find(id);
        if at == self.table.entries.len() {
            return Err(M::unknown_error(id));
        }
        let manifest = self.table.entries[at].manifest.as_settings_manifest();
        Ok(self.settings.effective(&manifest))
    }

    /// Stores settings of a plugin or driver, rewrites the buffer for settings,
    /// and returns what is in effect, secrets among it.
    pub fn update_and_effective(
        &mut self,
        id: &str,
        values: &serde_json::Map<String, serde_json::Value>,
    ) -> (r: Result<serde_json::Map<String, serde_json::Value>, M::Error>)
        ensures
            settings_set(
                *old(self),
                id@,
                json_members(*values),
                *final(self),
                values_outcome(r),
            ),
    {
        let at = self.table.find(id);
        if at == self.table.entries.len() {
            return Err(M::unknown_error(id));
        }
        let manifest = self.table.entries[at].manifest.as_settings_manifest();
        let stored = self.settings.update_and_effective(&manifest, values);
        let ghost seen = stored;
        let answer = match stored {
            Ok(effective) => {
                let buffer = json_print(&json_object(map_clone(&effective)));
                self.table.entries[at].settings_json = buffer;
                Ok(effective)
            },
            Err(e) => Err(M::settings_error(e)),
        };
        assert(settings_stored(
            old(self).settings,
            old(self).subject(id@),
            json_members(*values),
            self.settings,
            seen,
        ));
        answer
    }
}

/// What is read after settings were stored is what storing them returned.
pub proof fn law_stored_settings_are_read_back<
    M: RegistrySubject,
    St: Storage,
    G: GrantStorage,
    C: ConfigStorage,
    P: ProcessControl,
>(
    before: SubjectRegistry<M, St, G, C, P>,
    id: Seq<char>,
    values: Map<Seq<char>, JsonTree>,
    after: SubjectRegistry<M, St, G, C, P>,
    stored: Map<Seq<char>, JsonTree>,
)
    requires
        settings_set(before, id, values, after, Ok(stored)),
    ensures
        after.has(id),
        after.settings.in_effect(after.subject(id)) == stored,
        stored == before.settings.once_stored(before.subject(id), values),
        after.entry(id).settings_json@ == json_text(JsonTree::Object(stored)),
{
    lemma_at_place(before.table.entries@, id);
    let at = place_of(before.table.entries@, id);
    assert forall|j: int| 0 <= j < before.table.entries.len() implies (
    #[trigger] after.table.entries@[j]).manifest == before.table.entries@[j].manifest by {
        if j != at {
            assert(after.table.entries@[j] == before.table.entries@[j]);
        }
    }
    lemma_same_places(before.table.entries@, after.table.entries@, id);
}

/// Settings that are turned down change nothing, and settings of one owner leave
/// those of all others as they are.
pub proof fn law_settings_of_others_stay<
    M: RegistrySubject,
    St: Storage,
    G: GrantStorage,
    C: ConfigStorage,
    P: ProcessControl,
>(
    before: SubjectRegistry<M, St, G, C, P>,
    id: Seq<char>,
    values: Map<Seq<char>, JsonTree>,
    after: SubjectRegistry<M, St, G, C, P>,
    r: Result<Map<Seq<char>, JsonTree>, RegistryErrorView>,
    other: ManifestView,
)
    requires
        settings_set(before, id, values, after, r),
        r is Err || other.id != before.subject(id).id,
    ensures
        after.settings.in_effect(other) == before.settings.in_effect(other),
        r is Err ==> after.table == before.table,
{
}

/// Storing settings answers with what is then in effect, and the buffer holds the same. No
/// settings of others change, nothing else of the owner does, and what the store refuses
/// changes nothing.
pub proof fn law_the_buffer_holds_what_is_in_effect<
    M: RegistrySubject,
    St: Storage,
    G: GrantStorage,
    C: ConfigStorage,
    P: ProcessControl,
>(
    before: SubjectRegistry<M, St, G, C, P>,
    id: Seq<char>,
    values: Map<Seq<char>, JsonTree>,
    after: SubjectRegistry<M, St, G, C, P>,
    r: Result<Map<Seq<char>, JsonTree>, RegistryErrorView>,
    at: int,
)
    requires
        0 <= at < before.table.entries.len(),
        before.table.entries@[at].manifest.projected().id == id,
        forall|j: int|
            0 <= j < at ==> (#[trigger] before.table.entries@[j]).manifest.projected().id != id,
        settings_set(before, id, values, after, r),
    ensures
        after.grants == before.grants,
        after.configs == before.configs,
        after.processes == before.processes,
        r is Ok || r->Err_0 is Settings,
        ({
            let m = before.table.entries@[at].manifest.projected();
            &&& r is Ok ==> {
                &&& r->Ok_0 == after.settings.in_effect(m)
                &&& r->Ok_0 == before.settings.once_stored(m, values)
                &&& after.table.entries@[at].settings_json@ == json_text(
                    JsonTree::Object(after.settings.in_effect(m)),
                )
                &&& forall|other: ManifestView|
                    other.id != id ==> #[trigger] after.settings.in_effect(other)
                        == before.settings.in_effect(other)
                &&& after.table.entries.len() == before.table.entries.len()
                &&& forall|j: int|
                    0 <= j < before.table.entries.len() && j != at
                        ==> #[trigger] after.table.entries@[j] == before.table.entries@[j]
                &&& after.table.entries@[at].manifest == before.table.entries@[at].manifest
                &&& after.table.entries@[at].state == before.table.entries@[at].state
                &&& after.table.entries@[at].capabilities_json
                    == before.table.entries@[at].capabilities_json
                &&& after.table.entries@[at].sidecars_json
                    == before.table.entries@[at].sidecars_json
                &&& after.table.entries@[at].filesystem_json
                    == before.table.entries@[at].filesystem_json
                &&& after.table.entries@[at].bus_json == before.table.entries@[at].bus_json
            }
            &&& r is Err ==> after.table == before.table && forall|other: ManifestView| #[trigger]
                after.settings.in_effect(other) == before.settings.in_effect(other)
        }),
{
    lemma_place(before.table.entries@, id, at);
}

/// Nothing is stored for an id that is not registered: the id is named in the answer.
pub proof fn law_settings_of_an_unknown_owner_are_not_stored<
    M: RegistrySubject,
    St: Storage,
    G: GrantStorage,
    C: ConfigStorage,
    P: ProcessControl,
>(
    before: SubjectRegistry<M, St, G, C, P>,
    id: Seq<char>,
    values: Map<Seq<char>, JsonTree>,
    after: SubjectRegistry<M, St, G, C, P>,
    r: Result<Map<Seq<char>, JsonTree>, RegistryErrorView>,
)
    requires
        forall|j: int|
            0 <= j < before.table.entries.len() ==> (
            #[trigger] before.table.entries@[j]).manifest.projected().id != id,
        settings_set(before, id, values, after, r),
    ensures
        r == Err::<Map<Seq<char>, JsonTree>, _>(M::unknown(id)),
        after == before,
{
    lemma_place(before.table.entries@, id, before.table.entries.len() as int);
}

} // verus!
