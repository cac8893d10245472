//! Filesystem roots: their directories and approvals.

use vstd::prelude::*;

use crate::capability::{
    grant_stored, target, Approvals, GrantKind, GrantState, GrantStorage, GrantTarget, GrantsError,
};
use crate::manifest::{FilesystemMode, FilesystemRequestView, ManifestView};
use crate::registry::entries::{
    lemma_at_place, lemma_place, lemma_same_places, others_kept, place_of, SubjectEntry,
    SubjectRegistry,
};
use crate::registry::subject::{RegistryError, RegistryErrorView, RegistrySubject};
use crate::registry::ProcessControl;
use crate::rpc::info::{FilesystemInfo, FilesystemInfoView};
use crate::runtime::buffer::{all_redacted, buffer_text, entries_of, BufferEntry};
use crate::runtime::fs::{filesystem_json_string, FsRuntimeEntry, FsRuntimeEntryView};
use crate::settings::{
    root_config_stored, ConfigStorage, Configurations, FilesystemConfig, FilesystemConfigView,
    Storage,
};
use crate::text::{joined3, views};

verus! {

/// The directory of a root: none at all if nobody has chosen one.
pub open spec fn root_config<C: Configurations>(
    configs: C,
    m: ManifestView,
    name: Seq<char>,
) -> FilesystemConfigView {
    match configs.root_of(m, name) {
        Some(config) => config,
        None => FilesystemConfigView { path: seq![] },
    }
}

/// What is said of the roots of a declaration, in its order.
pub open spec fn filesystem_infos<G: Approvals, C: Configurations>(
    grants: G,
    configs: C,
    m: ManifestView,
) -> Seq<FilesystemInfoView> {
    m.filesystem.map_values(
        |request: FilesystemRequestView|
            FilesystemInfoView {
                request,
                config: root_config(configs, m, request.name),
                grant: grants.approval(m, target(GrantKind::Filesystem, request.name)),
            },
    )
}

/// What the owner of a root may use of it.
pub open spec fn fs_entry(info: FilesystemInfoView) -> FsRuntimeEntryView {
    FsRuntimeEntryView {
        name: info.request.name,
        granted: info.grant.granted,
        mode: info.request.mode.name(),
        path: info.config.path,
    }
}

/// Whether a buffer says what is said of roots.
pub open spec fn fs_buffer(infos: Seq<FilesystemInfoView>, raw: Seq<char>) -> bool {
    let shown = all_redacted::<FsRuntimeEntry>(
        infos.map_values(|info: FilesystemInfoView| fs_entry(info)),
    );
    &&& raw == buffer_text::<FsRuntimeEntry>(shown)
    &&& entries_of::<FsRuntimeEntry>(raw) == shown
}

/// Whether two entries differ in the buffer for filesystem roots at most.
pub open spec fn same_but_filesystem<M>(before: SubjectEntry<M>, after: SubjectEntry<M>) -> bool {
    after == (SubjectEntry { filesystem_json: after.filesystem_json, ..before })
}

/// The views of what a request returns.
pub open spec fn outcome<T: View, E: View>(r: Result<Vec<T>, E>) -> Result<Seq<T::V>, E::V> {
    match r {
        Ok(items) => Ok(views(items@)),
        Err(e) => Err(e@),
    }
}

/// What it means to rewrite the buffer for filesystem roots of an id and to
/// return what is said of them.
pub open spec fn filesystem_refreshed<
    M: RegistrySubject,
    St: Storage,
    G: GrantStorage,
    C: ConfigStorage,
    P: ProcessControl,
>(
    before: SubjectRegistry<M, St, G, C, P>,
    id: Seq<char>,
    after: SubjectRegistry<M, St, G, C, P>,
    infos: Seq<FilesystemInfoView>,
) -> bool {
    let at = place_of(before.table.entries@, id);
    &&& others_kept(before.table.entries@, after.table.entries@, at)
    &&& same_but_filesystem(before.table.entries@[at], after.table.entries@[at])
    &&& infos == filesystem_infos(after.grants, after.configs, before.subject(id))
    &&& fs_buffer(infos, after.table.entries@[at].filesystem_json@)
}

/// What choosing the directory of a root does and returns.
pub open spec fn filesystem_config_set<
    M: RegistrySubject,
    St: Storage,
    G: GrantStorage,
    C: ConfigStorage,
    P: ProcessControl,
>(
    before: SubjectRegistry<M, St, G, C, P>,
    id: Seq<char>,
    name: Seq<char>,
    config: FilesystemConfigView,
    after: SubjectRegistry<M, St, G, C, P>,
    r: Result<Seq<FilesystemInfoView>, RegistryErrorView>,
) -> bool {
    if !before.has(id) {
        r == Err::<Seq<FilesystemInfoView>, _>(M::unknown(id)) && after == before
    } else {
        &&& after.settings == before.settings
        &&& after.grants == before.grants
        &&& after.processes == before.processes
        &&& root_config_stored(
            before.configs,
            before.subject(id),
            name,
            config,
            after.configs,
            match r {
                Ok(_) => None,
                Err(e) => Some(e->FilesystemConfig_0),
            },
        )
        &&& match r {
            Ok(infos) => filesystem_refreshed(before, id, after, infos),
            Err(e) => e is FilesystemConfig && after.table == before.table,
        }
    }
}

/// The words for a root that cannot be approved for want of a directory.
pub open spec fn no_directory(name: Seq<char>) -> Seq<char> {
    "filesystem root "@ + name + " has no directory configured; cannot grant"@
}

/// What changing the approval of a root does and returns: it may always be taken
/// back, and be given once the root has a directory.
pub open spec fn filesystem_grant_set<
    M: RegistrySubject,
    St: Storage,
    G: GrantStorage,
    C: ConfigStorage,
    P: ProcessControl,
>(
    before: SubjectRegistry<M, St, G, C, P>,
    id: Seq<char>,
    name: Seq<char>,
    granted: bool,
    after: SubjectRegistry<M, St, G, C, P>,
    r: Result<Seq<FilesystemInfoView>, RegistryErrorView>,
) -> bool {
    let m = before.subject(id);
    if !before.has(id) {
        r == Err::<Seq<FilesystemInfoView>, _>(M::unknown(id)) && after == before
    } else if !m.declares_filesystem(name) {
        r == Err::<Seq<FilesystemInfoView>, _>(RegistryErrorView::UnknownFilesystem(name)) && after
            == before
    } else if granted && root_config(before.configs, m, name).path.len() == 0 {
        r == Err::<Seq<FilesystemInfoView>, _>(RegistryErrorView::Filesystem(no_directory(name)))
            && after == before
    } else {
        &&& after.settings == before.settings
        &&& after.configs == before.configs
        &&& after.processes == before.processes
        &&& exists|stored: Result<GrantState, GrantsError>|
            {
                &&& #[trigger] grant_stored(
                    before.grants,
                    m,
                    target(GrantKind::Filesystem, name),
                    granted,
                    after.grants,
                    stored,
                )
                &&& match stored {
                    Ok(_) => r is Ok && filesystem_refreshed(before, id, after, r->Ok_0),
                    Err(e) => r == Err::<Seq<FilesystemInfoView>, _>(
                        RegistryErrorView::Grants(e.message@),
                    ) && after.table == before.table,
                }
            }
    }
}

impl<
    M: RegistrySubject,
    St: Storage,
    G: GrantStorage,
    C: ConfigStorage,
    P: ProcessControl,
> SubjectRegistry<M, St, G, C, P> {
    /// What is said of the roots of a declaration, in its order.
    pub fn build_filesystem_infos(&self, subject: &M) -> (r: Vec<FilesystemInfo>)
        ensures
            views(r@) == filesystem_infos(self.grants, self.configs, subject.projected()),
    {
        let manifest = subject.as_settings_manifest();
        let requests = subject.filesystem();
        let ghost m = subject.projected();
        let ghost all = filesystem_infos(self.grants, self.configs, m);
        let mut infos: Vec<FilesystemInfo> = Vec::new();
        let mut i: usize = 0;
        while i < requests.len()
            invariant
                i <= requests.len(),
                manifest@ == m,
                views(requests@) == m.filesystem,
                all == filesystem_infos(self.grants, self.configs, m),
                infos.len() == i,
                forall|j: int| 0 <= j < i ==> (#[trigger] infos@[j])@ == all[j],
            decreases requests.len() - i,
        {
            let request = requests[i].clone();
            assert(m.filesystem[i as int] == requests@[i as int]@);
            let config = match self.configs.filesystem_config(&manifest, request.name.as_str()) {
                Some(config) => config,
                None => {
                    let path = String::new();
                    assert(path@ =~= seq![]);
                    FilesystemConfig { path }
                },
            };
            let grant = self.grants.filesystem_state(&manifest, request.name.as_str());
            infos.push(FilesystemInfo { request, config, grant });
            i = i + 1;
        }
        assert(views(infos@) =~= all);
        infos
    }

    /// What is said of the roots of a plugin or driver.
    pub fn filesystem(&self, id: &str) -> (r: Result<Vec<FilesystemInfo>, RegistryError>)
        ensures
            outcome(r) == if self.has(id@) {
                Ok::<_, RegistryErrorView>(
                    filesystem_infos(self.grants, self.configs, self.subject(id@)),
                )
            } else {
                Err(M::unknown(id@))
            },
    {
        let at = self.table.find(id);
        if at == self.table.entries.len() {
            return Err(M::unknown_registry_error(id));
        }
        Ok(self.build_filesystem_infos(&self.table.entries[at].manifest))
    }

    /// The buffer for the roots of a plugin or driver.
    pub fn filesystem_buffer(&self, id: &str) -> (r: Result<String, RegistryError>)
        ensures
            match r {
                Ok(raw) => self.has(id@) && raw@ == self.entry(id@).filesystem_json@,
                Err(e) => !self.has(id@) && e@ == M::unknown(id@),
            },
    {
        let at = self.table.find(id);
        if at == self.table.entries.len() {
            return Err(M::unknown_registry_error(id));
        }
        Ok(self.table.entries[at].filesystem_json.clone())
    }

    fn refresh_filesystem_runtime(&mut self, at: usize) -> (r: Vec<FilesystemInfo>)
        requires
            at < old(self).table.entries.len(),
        ensures
            final(self).settings == old(self).settings,
            final(self).grants == old(self).grants,
            final(self).configs == old(self).configs,
            final(self).processes == old(self).processes,
            others_kept(old(self).table.entries@, final(self).table.entries@, at as int),
            same_but_filesystem(
                old(self).table.entries@[at as int],
                final(self).table.entries@[at as int],
            ),
            views(r@) == filesystem_infos(
                old(self).grants,
                old(self).configs,
                old(self).table.entries@[at as int].manifest.projected(),
            ),
            fs_buffer(views(r@), final(self).table.entries@[at as int].filesystem_json@),
    {
        let infos = self.build_filesystem_infos(&self.table.entries[at].manifest);
        let mut entries: Vec<FsRuntimeEntry> = Vec::new();
        let mut i: usize = 0;
        while i < infos.len()
            invariant
                i <= infos.len(),
                entries.len() == i,
                forall|j: int| 0 <= j < i ==> (#[trigger] entries@[j])@ == fs_entry(infos@[j]@),
            decreases infos.len() - i,
        {
            let info = &infos[i];
            entries.push(
                FsRuntimeEntry {
                    name: info.request.name.clone(),
                    granted: info.grant.granted,
                    mode: info.request.mode.as_str().to_owned(),
                    path: info.config.path.clone(),
                },
            );
            i = i + 1;
        }
        assert(views(entries@) =~= views(infos@).map_values(
            |info: FilesystemInfoView| fs_entry(info),
        ));
        self.table.entries[at].filesystem_json = filesystem_json_string(&entries);
        infos
    }

    /// Chooses the directory of a root, and rewrites the buffer for the roots.
    pub fn set_filesystem_config(&mut self, id: &str, name: &str, config: &FilesystemConfig) -> (r:
        Result<Vec<FilesystemInfo>, RegistryError>)
        ensures
            filesystem_config_set(*old(self), id@, name@, config@, *final(self), outcome(r)),
    {
        let at = self.table.find(id);
        if at == self.table.entries.len() {
            return Err(M::unknown_registry_error(id));
        }
        let manifest = self.table.entries[at].manifest.as_settings_manifest();
        match self.configs.update_filesystem(&manifest, name, config) {
            Ok(_) => Ok(self.refresh_filesystem_runtime(at)),
            Err(e) => Err(RegistryError::FilesystemConfig(e)),
        }
    }

    /// Changes the approval of a root, and rewrites the buffer for the roots.
    pub fn set_filesystem_grant(&mut self, id: &str, name: &str, granted: bool) -> (r: Result<
        Vec<FilesystemInfo>,
        RegistryError,
    >)
        ensures
            filesystem_grant_set(*old(self), id@, name@, granted, *final(self), outcome(r)),
    {
        let at = self.table.find(id);
        if at == self.table.entries.len() {
            return Err(M::unknown_registry_error(id));
        }
        let manifest = self.table.entries[at].manifest.as_settings_manifest();
        if manifest.filesystem_root(name).is_none() {
            return Err(RegistryError::UnknownFilesystem(name.to_owned()));
        }
        if granted {
            let path_configured = match self.configs.filesystem_config(&manifest, name) {
                Some(config) => !config.path.as_str().is_empty(),
                None => false,
            };
            if !path_configured {
                return Err(
                    RegistryError::Filesystem(
                        joined3(
                            "filesystem root ",
                            name,
                            " has no directory configured; cannot grant",
                        ),
                    ),
                );
            }
        }
        let stored = self.grants.set_filesystem(&manifest, name, granted);
        assert(grant_stored(
            old(self).grants,
            manifest@,
            target(GrantKind::Filesystem, name@),
            granted,
            self.grants,
            stored,
        ));
        match stored {
            Ok(_) => Ok(self.refresh_filesystem_runtime(at)),
            Err(e) => Err(RegistryError::Grants(e)),
        }
    }
}

/// A root whose approval was taken back is disclosed to nobody: its owner reads
/// from the buffer that it is not approved, and no path.
pub proof fn law_a_revoked_root_is_withheld<
    M: RegistrySubject,
    St: Storage,
    G: GrantStorage,
    C: ConfigStorage,
    P: ProcessControl,
>(
    before: SubjectRegistry<M, St, G, C, P>,
    id: Seq<char>,
    name: Seq<char>,
    after: SubjectRegistry<M, St, G, C, P>,
    infos: Seq<FilesystemInfoView>,
    i: int,
)
    requires
        filesystem_grant_set(before, id, name, false, after, Ok(infos)),
        0 <= i < entries_of::<FsRuntimeEntry>(after.entry(id).filesystem_json@).len(),
        entries_of::<FsRuntimeEntry>(after.entry(id).filesystem_json@)[i].name == name,
    ensures
        !entries_of::<FsRuntimeEntry>(after.entry(id).filesystem_json@)[i].granted,
        entries_of::<FsRuntimeEntry>(after.entry(id).filesystem_json@)[i].path.len() == 0,
{
    lemma_at_place(before.table.entries@, id);
    let at = place_of(before.table.entries@, id);
    assert forall|j: int| 0 <= j < before.table.entries.len() implies (
    #[trigger] after.table.entries@[j]).manifest == before.table.entries@[j].manifest by {
        if j != at {
            assert(after.table.entries@[j] == before.table.entries@[j]);
        }
    }
    lemma_same_places(before.table.entries@, after.table.entries@, id);
    let shown = entries_of::<FsRuntimeEntry>(after.entry(id).filesystem_json@);
    assert(shown[i] == <FsRuntimeEntry as BufferEntry>::redacted(fs_entry(infos[i])));
    assert(infos[i].request.name == name);
    assert(infos[i].grant == after.grants.approval(
        before.subject(id),
        target(GrantKind::Filesystem, name),
    ));
}

/// A request about filesystem roots that is turned down changes nothing that the
/// owner of the roots can see.
pub proof fn law_a_refused_root_changes_nothing<
    M: RegistrySubject,
    St: Storage,
    G: GrantStorage,
    C: ConfigStorage,
    P: ProcessControl,
>(
    before: SubjectRegistry<M, St, G, C, P>,
    id: Seq<char>,
    name: Seq<char>,
    granted: bool,
    after: SubjectRegistry<M, St, G, C, P>,
    e: RegistryErrorView,
)
    requires
        filesystem_grant_set(before, id, name, granted, after, Err(e)),
    ensures
        after.table == before.table,
        filesystem_infos(after.grants, after.configs, before.subject(id)) == filesystem_infos(
            before.grants,
            before.configs,
            before.subject(id),
        ),
{
    assert(filesystem_infos(after.grants, after.configs, before.subject(id)) =~= filesystem_infos(
        before.grants,
        before.configs,
        before.subject(id),
    ));
}

/// What is said of roots follows their declaration one by one: the request as it was
/// declared, the directory that somebody has chosen or else none, and the approval.
pub proof fn law_every_declared_root_is_told_of<G: Approvals, C: Configurations>(
    grants: G,
    configs: C,
    m: ManifestView,
    i: int,
)
    requires
        0 <= i < m.filesystem.len(),
    ensures
        filesystem_infos(grants, configs, m).len() == m.filesystem.len(),
        ({
            let info = filesystem_infos(grants, configs, m)[i];
            let name = m.filesystem[i].name;
            &&& info.request == m.filesystem[i]
            &&& info.grant == grants.approval(
                m,
                (GrantTarget { kind: GrantKind::Filesystem, name }),
            )
            &&& configs.root_of(m, name) matches Some(config) ==> info.config.path == config.path
            &&& configs.root_of(m, name) is None ==> info.config.path.len() == 0
        }),
{
}

/// After the roots of an owner were looked at anew, its buffer lists each in order with its
/// mode, and with its directory just if it is approved. Nothing else of the owner changes,
/// and nothing of the others.
pub proof fn law_refreshed_buffers_disclose_approved_roots<
    M: RegistrySubject,
    St: Storage,
    G: GrantStorage,
    C: ConfigStorage,
    P: ProcessControl,
>(
    before: SubjectRegistry<M, St, G, C, P>,
    id: Seq<char>,
    after: SubjectRegistry<M, St, G, C, P>,
    infos: Seq<FilesystemInfoView>,
    at: int,
    i: int,
)
    requires
        0 <= at < before.table.entries.len(),
        before.table.entries@[at].manifest.projected().id == id,
        forall|j: int|
            0 <= j < at ==> (#[trigger] before.table.entries@[j]).manifest.projected().id != id,
        filesystem_refreshed(before, id, after, infos),
        0 <= i < before.table.entries@[at].manifest.projected().filesystem.len(),
    ensures
        ({
            let m = before.table.entries@[at].manifest.projected();
            let request = m.filesystem[i];
            let listed = entries_of::<FsRuntimeEntry>(after.table.entries@[at].filesystem_json@);
            let approved = after.grants.approval(
                m,
                (GrantTarget { kind: GrantKind::Filesystem, name: request.name }),
            ).granted;
            &&& listed.len() == m.filesystem.len()
            &&& listed[i].name == request.name
            &&& listed[i].granted == approved
            &&& listed[i].mode == match request.mode {
                FilesystemMode::Read => "read"@,
                FilesystemMode::ReadWrite => "read-write"@,
            }
            &&& !approved ==> listed[i].path.len() == 0
            &&& approved ==> (after.configs.root_of(m, request.name) matches Some(config)
                ==> listed[i].path == config.path)
        }),
        after.table.entries.len() == before.table.entries.len(),
        forall|j: int|
            0 <= j < before.table.entries.len() && j != at ==> #[trigger] after.table.entries@[j]
                == before.table.entries@[j],
        after.table.entries@[at].manifest == before.table.entries@[at].manifest,
        after.table.entries@[at].state == before.table.entries@[at].state,
        after.table.entries@[at].settings_json == before.table.entries@[at].settings_json,
        after.table.entries@[at].capabilities_json == before.table.entries@[at].capabilities_json,
        after.table.entries@[at].sidecars_json == before.table.entries@[at].sidecars_json,
        after.table.entries@[at].bus_json == before.table.entries@[at].bus_json,
{
    lemma_place(before.table.entries@, id, at);
    let m = before.table.entries@[at].manifest.projected();
    let shown = all_redacted::<FsRuntimeEntry>(
        infos.map_values(|info: FilesystemInfoView| fs_entry(info)),
    );
    assert(shown[i] == <FsRuntimeEntry as BufferEntry>::redacted(fs_entry(infos[i])));
}

/// A directory that was chosen for a root is its directory from then on, and that of no other
/// root changes. A directory that the store refuses changes nothing.
pub proof fn law_a_chosen_directory_is_in_effect<
    M: RegistrySubject,
    St: Storage,
    G: GrantStorage,
    C: ConfigStorage,
    P: ProcessControl,
>(
    before: SubjectRegistry<M, St, G, C, P>,
    id: Seq<char>,
    name: Seq<char>,
    config: FilesystemConfigView,
    after: SubjectRegistry<M, St, G, C, P>,
    r: Result<Seq<FilesystemInfoView>, RegistryErrorView>,
    at: int,
)
    requires
        0 <= at < before.table.entries.len(),
        before.table.entries@[at].manifest.projected().id == id,
        forall|j: int|
            0 <= j < at ==> (#[trigger] before.table.entries@[j]).manifest.projected().id != id,
        filesystem_config_set(before, id, name, config, after, r),
    ensures
        after.settings == before.settings,
        after.grants == before.grants,
        after.processes == before.processes,
        r is Ok ==> {
            let m = before.table.entries@[at].manifest.projected();
            &&& after.configs.root_of(m, name) == Some(config)
            &&& filesystem_refreshed(before, id, after, r->Ok_0)
        },
        r is Err ==> after.table == before.table,
        forall|other: ManifestView, n: Seq<char>|
            r is Err || other.id != id || n != name ==> #[trigger] after.configs.root_of(other, n)
                == before.configs.root_of(other, n),
        forall|other: ManifestView, n: Seq<char>| #[trigger]
            after.configs.sidecar_of(other, n) == before.configs.sidecar_of(other, n),
{
    lemma_place(before.table.entries@, id, at);
}

/// Changing the approval of a root answers so. One that is not declared is unknown. To
/// approve one takes a directory that somebody has chosen. To take an approval back takes
/// nothing, and leaves the root not approved. No other approval changes.
pub proof fn law_approving_a_root_takes_a_directory<
    M: RegistrySubject,
    St: Storage,
    G: GrantStorage,
    C: ConfigStorage,
    P: ProcessControl,
>(
    before: SubjectRegistry<M, St, G, C, P>,
    id: Seq<char>,
    name: Seq<char>,
    granted: bool,
    after: SubjectRegistry<M, St, G, C, P>,
    r: Result<Seq<FilesystemInfoView>, RegistryErrorView>,
    at: int,
)
    requires
        0 <= at < before.table.entries.len(),
        before.table.entries@[at].manifest.projected().id == id,
        forall|j: int|
            0 <= j < at ==> (#[trigger] before.table.entries@[j]).manifest.projected().id != id,
        filesystem_grant_set(before, id, name, granted, after, r),
    ensures
        after.settings == before.settings,
        after.configs == before.configs,
        after.processes == before.processes,
        ({
            let m = before.table.entries@[at].manifest.projected();
            let on = GrantTarget { kind: GrantKind::Filesystem, name };
            let declared = exists|k: int| #![trigger m.filesystem[k]]
                0 <= k < m.filesystem.len() && m.filesystem[k].name == name;
            let config = before.configs.root_of(m, name);
            &&& !declared ==> r == Err::<Seq<FilesystemInfoView>, _>(
                RegistryErrorView::UnknownFilesystem(name),
            )
            &&& declared && granted && !(config is Some && config->0.path.len() > 0) ==> r == Err::<
                Seq<FilesystemInfoView>,
                _,
            >(
                RegistryErrorView::Filesystem(
                    "filesystem root "@ + name + " has no directory configured; cannot grant"@,
                ),
            )
            &&& declared && (!granted || config is Some && config->0.path.len() > 0) ==> r is Ok || (
            r->Err_0 is Grants)
            &&& r is Err ==> after.table == before.table
            &&& r is Err ==> forall|other: ManifestView, t: GrantTarget| #[trigger]
                after.grants.approval(other, t) == before.grants.approval(other, t)
            &&& r is Ok ==> forall|other: ManifestView, t: GrantTarget|
                other.id != id || t != on ==> #[trigger] after.grants.approval(other, t)
                    == before.grants.approval(other, t)
            &&& r is Ok && !granted ==> !after.grants.approval(m, on).granted
            &&& r is Ok ==> filesystem_refreshed(before, id, after, r->Ok_0)
        }),
{
    lemma_place(before.table.entries@, id, at);
    let m = before.table.entries@[at].manifest.projected();
    assert(m.declares_filesystem(name) <==> exists|k: int| #![trigger m.filesystem[k]]
        0 <= k < m.filesystem.len() && m.filesystem[k].name == name);
}

/// No directory is chosen for an id that is not registered: the id is named in the answer.
pub proof fn law_roots_of_an_unknown_owner_are_not_configured<
    M: RegistrySubject,
    St: Storage,
    G: GrantStorage,
    C: ConfigStorage,
    P: ProcessControl,
>(
    before: SubjectRegistry<M, St, G, C, P>,
    id: Seq<char>,
    name: Seq<char>,
    config: FilesystemConfigView,
    after: SubjectRegistry<M, St, G, C, P>,
    r: Result<Seq<FilesystemInfoView>, RegistryErrorView>,
)
    requires
        forall|j: int|
            0 <= j < before.table.entries.len() ==> (
            #[trigger] before.table.entries@[j]).manifest.projected().id != id,
        filesystem_config_set(before, id, name, config, after, r),
    ensures
        r == Err::<Seq<FilesystemInfoView>, _>(M::unknown(id)),
        after == before,
{
    lemma_place(before.table.entries@, id, before.table.entries.len() as int);
}

/// Nothing is approved for an id that is not registered: the id is named in the answer.
pub proof fn law_roots_of_an_unknown_owner_are_not_approved<
    M: RegistrySubject,
    St: Storage,
    G: GrantStorage,
    C: ConfigStorage,
    P: ProcessControl,
>(
    before: SubjectRegistry<M, St, G, C, P>,
    id: Seq<char>,
    name: Seq<char>,
    granted: bool,
    after: SubjectRegistry<M, St, G, C, P>,
    r: Result<Seq<FilesystemInfoView>, RegistryErrorView>,
)
    requires
        forall|j: int|
            0 <= j < before.table.entries.len() ==> (
            #[trigger] before.table.entries@[j]).manifest.projected().id != id,
        filesystem_grant_set(before, id, name, granted, after, r),
    ensures
        r == Err::<Seq<FilesystemInfoView>, _>(M::unknown(id)),
        after == before,
{
    lemma_place(before.table.entries@, id, before.table.entries.len() as int);
}

} // verus!
