//! What users set: the settings that plugins and drivers declare, how sidecars
//! are run, and which directories filesystem roots stand for.

use vstd::prelude::*;

use crate::json::{
    json_as_str, json_clone, json_members, json_string, json_tree, map_clone, map_get, map_insert,
    map_new, map_remove, no_members, JsonTree,
};
use crate::manifest::{
    Manifest, ManifestView, SettingField, SettingFieldView, SidecarRequest, SidecarRequestView,
};
use crate::text::{copied_texts, same_text, views};

verus! {

/// Why settings were not taken.
#[derive(Debug, PartialEq, Eq)]
pub struct SettingsError {
    pub message: String,
}

/// Why the configuration of a sidecar was not taken.
#[derive(Debug, PartialEq, Eq)]
pub struct SidecarConfigError {
    pub message: String,
}

/// Why the configuration of a filesystem root was not taken.
#[derive(Debug, PartialEq, Eq)]
pub struct FilesystemConfigError {
    pub message: String,
}

/// How a sidecar is run.
#[derive(Debug, PartialEq, Eq)]
pub struct SidecarConfig {
    pub command: String,
    pub args: Vec<String>,
    pub port: u16,
    pub replicas: u16,
}

pub struct SidecarConfigView {
    pub command: Seq<char>,
    pub args: Seq<Seq<char>>,
    pub port: u16,
    pub replicas: u16,
}

impl View for SidecarConfig {
    type V = SidecarConfigView;

    open spec fn view(&self) -> SidecarConfigView {
        SidecarConfigView {
            command: self.command@,
            args: views(self.args@),
            port: self.port,
            replicas: self.replicas,
        }
    }
}

impl Clone for SidecarConfig {
    fn clone(&self) -> (r: Self)
        ensures
            r@ == self@,
    {
        SidecarConfig {
            command: self.command.clone(),
            args: copied_texts(&self.args),
            port: self.port,
            replicas: self.replicas,
        }
    }
}

impl SidecarRequestView {
    /// How a sidecar is run that nobody has configured: not at all, for want of
    /// a command.
    pub open spec fn default_config(self) -> SidecarConfigView {
        SidecarConfigView { command: seq![], args: self.args, port: self.port, replicas: 1 }
    }
}

impl SidecarConfig {
    /// The configuration of a sidecar that nobody has configured.
    pub fn from_request(request: &SidecarRequest) -> (r: SidecarConfig)
        ensures
            r@ == request@.default_config(),
    {
        let command = String::new();
        assert(command@ =~= seq![]);
        SidecarConfig {
            command,
            args: copied_texts(&request.args),
            port: request.port,
            replicas: 1,
        }
    }
}

impl SidecarConfigView {
    /// The ports of the instances: one each, from the configured one upwards, as
    /// far as there are ports.
    pub open spec fn ports(self) -> Seq<u16> {
        let count = if self.port + self.replicas <= 65536 {
            self.replicas as int
        } else {
            65536 - self.port
        };
        Seq::new(count as nat, |i: int| (self.port + i) as u16)
    }
}

/// The ports of the instances of a sidecar.
pub fn assign_ports(config: &SidecarConfig) -> (r: Vec<u16>)
    ensures
        r@ == config@.ports(),
{
    let mut ports: Vec<u16> = Vec::new();
    let mut next: u32 = config.port as u32;
    let end: u32 = config.port as u32 + config.replicas as u32;
    while next < end && next < 65536
        invariant
            config.port <= next <= end,
            next <= 65536,
            end == config.port + config.replicas,
            ports.len() == next - config.port,
            forall|i: int| 0 <= i < ports.len() ==> #[trigger] ports@[i] == config.port + i,
        decreases end - next,
    {
        ports.push(next as u16);
        next = next + 1;
    }
    assert(ports@ =~= config@.ports());
    ports
}

/// The directory that a filesystem root stands for.
#[derive(Debug, PartialEq, Eq)]
pub struct FilesystemConfig {
    pub path: String,
}

pub struct FilesystemConfigView {
    pub path: Seq<char>,
}

impl View for FilesystemConfig {
    type V = FilesystemConfigView;

    open spec fn view(&self) -> FilesystemConfigView {
        FilesystemConfigView { path: self.path@ }
    }
}

impl Clone for FilesystemConfig {
    fn clone(&self) -> (r: Self)
        ensures
            r@ == self@,
    {
        FilesystemConfig { path: self.path.clone() }
    }
}

/// The settings in effect at present.
pub trait EffectiveSettings {
    /// The value of every setting of a plugin or driver, secrets among them.
    spec fn in_effect(&self, manifest: ManifestView) -> Map<Seq<char>, JsonTree>;

    /// The value that every setting would have if these values were stored.
    spec fn once_stored(&self, manifest: ManifestView, values: Map<Seq<char>, JsonTree>) -> Map<
        Seq<char>,
        JsonTree,
    >;

    /// Whether storing these values may fail with these words.
    spec fn refuses(
        &self,
        manifest: ManifestView,
        values: Map<Seq<char>, JsonTree>,
        message: Seq<char>,
    ) -> bool;
}

/// Where settings are kept.
pub trait Storage: EffectiveSettings + Sized {
    fn effective(&self, manifest: &Manifest) -> (r: serde_json::Map<String, serde_json::Value>)
        ensures
            json_members(r) == self.in_effect(manifest@),
    ;

    fn update_and_effective(
        &mut self,
        manifest: &Manifest,
        values: &serde_json::Map<String, serde_json::Value>,
    ) -> (r: Result<serde_json::Map<String, serde_json::Value>, SettingsError>)
        ensures
            settings_stored(*old(self), manifest@, json_members(*values), *final(self), r),
    ;
}

/// What storing settings does and returns. If the store refuses them nothing
/// changes. If not, the new values are in effect, the settings now in effect are returned, and
/// nobody else's change.
pub open spec fn settings_stored<S: EffectiveSettings>(
    before: S,
    manifest: ManifestView,
    values: Map<Seq<char>, JsonTree>,
    after: S,
    r: Result<serde_json::Map<String, serde_json::Value>, SettingsError>,
) -> bool {
    match r {
        Ok(effective) => {
            &&& json_members(effective) == after.in_effect(manifest)
            &&& after.in_effect(manifest) == before.once_stored(manifest, values)
            &&& forall|m: ManifestView|
                m.id != manifest.id ==> #[trigger] after.in_effect(m) == before.in_effect(m)
        },
        Err(e) => {
            &&& forall|m: ManifestView| #[trigger] after.in_effect(m) == before.in_effect(m)
            &&& before.refuses(manifest, values, e.message@)
        },
    }
}

/// The configurations in effect at present.
pub trait Configurations {
    /// How a sidecar is run, if somebody has configured it.
    spec fn sidecar_of(&self, manifest: ManifestView, name: Seq<char>) -> Option<SidecarConfigView>;

    /// The directory of a filesystem root, if somebody has chosen one.
    spec fn root_of(&self, manifest: ManifestView, name: Seq<char>) -> Option<FilesystemConfigView>;

    /// Whether storing the configuration of a sidecar may fail with these words.
    spec fn refuses_sidecar(
        &self,
        manifest: ManifestView,
        name: Seq<char>,
        config: SidecarConfigView,
        message: Seq<char>,
    ) -> bool;

    /// Whether storing the directory of a filesystem root may fail with these
    /// words.
    spec fn refuses_root(
        &self,
        manifest: ManifestView,
        name: Seq<char>,
        config: FilesystemConfigView,
        message: Seq<char>,
    ) -> bool;
}

/// Where configurations are kept.
pub trait ConfigStorage: Configurations + Sized {
    fn sidecar_config(&self, manifest: &Manifest, name: &str) -> (r: Option<SidecarConfig>)
        ensures
            r is Some <==> self.sidecar_of(manifest@, name@) is Some,
            r is Some ==> self.sidecar_of(manifest@, name@) == Some(r->0@),
    ;

    fn update_sidecar(&mut self, manifest: &Manifest, name: &str, config: &SidecarConfig) -> (r:
        Result<(), SidecarConfigError>)
        ensures
            sidecar_config_stored(
                *old(self),
                manifest@,
                name@,
                config@,
                *final(self),
                match r {
                    Ok(_) => None,
                    Err(e) => Some(e.message@),
                },
            ),
    ;

    fn filesystem_config(&self, manifest: &Manifest, name: &str) -> (r: Option<FilesystemConfig>)
        ensures
            r is Some <==> self.root_of(manifest@, name@) is Some,
            r is Some ==> self.root_of(manifest@, name@) == Some(r->0@),
    ;

    fn update_filesystem(&mut self, manifest: &Manifest, name: &str, config: &FilesystemConfig) -> (r:
        Result<(), FilesystemConfigError>)
        ensures
            root_config_stored(
                *old(self),
                manifest@,
                name@,
                config@,
                *final(self),
                match r {
                    Ok(_) => None,
                    Err(e) => Some(e.message@),
                },
            ),
    ;
}

/// What storing the configuration of a sidecar does: it is in effect, and nothing
/// else changes, or the store refuses it, and nothing changes at all.
pub open spec fn sidecar_config_stored<C: Configurations>(
    before: C,
    manifest: ManifestView,
    name: Seq<char>,
    config: SidecarConfigView,
    after: C,
    refused: Option<Seq<char>>,
) -> bool {
    &&& match refused {
        None => after.sidecar_of(manifest, name) == Some(config),
        Some(message) => before.refuses_sidecar(manifest, name, config, message),
    }
    &&& forall|m: ManifestView, n: Seq<char>|
        refused is Some || m.id != manifest.id || n != name ==> #[trigger] after.sidecar_of(m, n)
            == before.sidecar_of(m, n)
    &&& forall|m: ManifestView, n: Seq<char>|
        #[trigger] after.root_of(m, n) == before.root_of(m, n)
}

/// What storing the directory of a filesystem root does: it is in effect, and
/// nothing else changes, or the store refuses it, and nothing changes at all.
pub open spec fn root_config_stored<C: Configurations>(
    before: C,
    manifest: ManifestView,
    name: Seq<char>,
    config: FilesystemConfigView,
    after: C,
    refused: Option<Seq<char>>,
) -> bool {
    &&& match refused {
        None => after.root_of(manifest, name) == Some(config),
        Some(message) => before.refuses_root(manifest, name, config, message),
    }
    &&& forall|m: ManifestView, n: Seq<char>|
        refused is Some || m.id != manifest.id || n != name ==> #[trigger] after.root_of(m, n)
            == before.root_of(m, n)
    &&& forall|m: ManifestView, n: Seq<char>|
        #[trigger] after.sidecar_of(m, n) == before.sidecar_of(m, n)
}

/// Whether a key is declared as a secret.
pub open spec fn is_secret(settings: Seq<SettingFieldView>, key: Seq<char>) -> bool {
    exists|i: int| #![trigger settings[i]]
        0 <= i < settings.len() && settings[i] is Secret && settings[i]->Secret_key == key
}

/// Whether a value counts as set: a text that is not empty.
pub open spec fn is_set(values: Map<Seq<char>, JsonTree>, key: Seq<char>) -> bool {
    values.dom().contains(key) && values[key] is Text && values[key]->Text_0.len() > 0
}

/// The keys of the secrets that are set, in declaration order.
pub open spec fn secrets_set(
    settings: Seq<SettingFieldView>,
    values: Map<Seq<char>, JsonTree>,
) -> Seq<Seq<char>>
    decreases settings.len(),
{
    if settings.len() == 0 {
        seq![]
    } else {
        let before = secrets_set(settings.drop_last(), values);
        let last = settings.last();
        if last is Secret && is_set(values, last->Secret_key) {
            before.push(last->Secret_key)
        } else {
            before
        }
    }
}

/// What may be shown of values: all but the secrets.
pub open spec fn without_secrets(
    settings: Seq<SettingFieldView>,
    values: Map<Seq<char>, JsonTree>,
) -> Map<Seq<char>, JsonTree> {
    Map::new(
        |key: Seq<char>| values.dom().contains(key) && !is_secret(settings, key),
        |key: Seq<char>| values[key],
    )
}

/// Parts settings that may be shown from secrets, of which may only be shown
/// which are set.
pub fn split_secrets(
    manifest: &Manifest,
    effective: serde_json::Map<String, serde_json::Value>,
) -> (r: (serde_json::Map<String, serde_json::Value>, Vec<String>))
    ensures
        json_members(r.0) == without_secrets(manifest@.settings, json_members(effective)),
        views(r.1@) == secrets_set(manifest@.settings, json_members(effective)),
{
    let ghost values = json_members(effective);
    let mut visible = map_clone(&effective);
    let mut set: Vec<String> = Vec::new();
    let mut i: usize = 0;
    assert(views(set@) =~= secrets_set(manifest@.settings.take(0), values));
    assert(json_members(visible) =~= without_secrets(manifest@.settings.take(0), values));
    while i < manifest.settings.len()
        invariant
            i <= manifest.settings.len(),
            json_members(effective) == values,
            json_members(visible) == without_secrets(manifest@.settings.take(i as int), values),
            views(set@) == secrets_set(manifest@.settings.take(i as int), values),
        decreases manifest.settings.len() - i,
    {
        let ghost seen = manifest@.settings.take(i as int);
        let ghost taken = manifest@.settings.take(i + 1);
        let ghost shown = json_members(visible);
        let ghost listed = set@;
        assert(taken.drop_last() =~= seen);
        assert(taken.last() == manifest.settings@[i as int]@);
        match &manifest.settings[i] {
            SettingField::Secret { key, label: _ } => {
                match map_get(&effective, key.as_str()) {
                    Some(value) => match json_as_str(value) {
                        Some(text) => if !text.is_empty() {
                            set.push(key.clone());
                            assert(views(set@) =~= views(listed).push(key@));
                        },
                        None => {},
                    },
                    None => {},
                }
                map_remove(&mut visible, key.as_str());
                assert forall|k: Seq<char>| is_secret(taken, k) <==> is_secret(seen, k) || k
                    == key@ by {
                    if is_secret(seen, k) {
                        let j = choose|j: int| #![trigger seen[j]]
                            0 <= j < seen.len() && seen[j] is Secret && seen[j]->Secret_key == k;
                        assert(taken[j] == seen[j]);
                    }
                    if k == key@ {
                        assert(taken[i as int] is Secret);
                    }
                    if is_secret(taken, k) && k != key@ {
                        let j = choose|j: int| #![trigger taken[j]]
                            0 <= j < taken.len() && taken[j] is Secret && taken[j]->Secret_key == k;
                        assert(j < i);
                        assert(taken[j] == seen[j]);
                    }
                }
            },
            _ => {
                assert forall|k: Seq<char>| is_secret(taken, k) <==> is_secret(seen, k) by {
                    if is_secret(seen, k) {
                        let j = choose|j: int| #![trigger seen[j]]
                            0 <= j < seen.len() && seen[j] is Secret && seen[j]->Secret_key == k;
                        assert(taken[j] == seen[j]);
                    }
                    if is_secret(taken, k) {
                        let j = choose|j: int| #![trigger taken[j]]
                            0 <= j < taken.len() && taken[j] is Secret && taken[j]->Secret_key == k;
                        assert(j < i);
                        assert(taken[j] == seen[j]);
                    }
                }
            },
        }
        assert(json_members(visible) =~= without_secrets(taken, values));
        i = i + 1;
    }
    assert(manifest@.settings.take(manifest.settings.len() as int) =~= manifest@.settings);
    (visible, set)
}

/// The settings that are kept of one plugin or driver.
#[derive(Debug)]
pub struct SavedSettings {
    pub id: String,
    pub values: serde_json::Map<String, serde_json::Value>,
}

/// Settings that are kept in memory. What nobody has set has its declared
/// default, and values for keys that are not declared are passed over.
#[derive(Debug)]
pub struct InMemorySettings {
    pub saved: Vec<SavedSettings>,
}

/// The values that were saved for an id: the first entry under it.
pub open spec fn saved_values(saved: Seq<SavedSettings>, id: Seq<char>) -> Map<Seq<char>, JsonTree>
    decreases saved.len(),
{
    if saved.len() == 0 {
        no_members()
    } else if saved[0].id@ == id {
        json_members(saved[0].values)
    } else {
        saved_values(saved.drop_first(), id)
    }
}

/// The value of a declared setting by default. A secret has none.
pub open spec fn default_value(field: SettingFieldView) -> Option<JsonTree> {
    match field {
        SettingFieldView::String { default, .. } => Some(JsonTree::Text(default)),
        SettingFieldView::Select { default, .. } => Some(JsonTree::Text(default)),
        SettingFieldView::Secret { .. } => None,
    }
}

/// The key of a declared setting.
pub open spec fn setting_key(field: SettingFieldView) -> Seq<char> {
    match field {
        SettingFieldView::String { key, .. } => key,
        SettingFieldView::Select { key, .. } => key,
        SettingFieldView::Secret { key, .. } => key,
    }
}

/// The values of declared settings: what was saved, or the default.
pub open spec fn overlaid(
    settings: Seq<SettingFieldView>,
    saved: Map<Seq<char>, JsonTree>,
) -> Map<Seq<char>, JsonTree>
    decreases settings.len(),
{
    if settings.len() == 0 {
        no_members()
    } else {
        let before = overlaid(settings.drop_last(), saved);
        let last = settings.last();
        if saved.dom().contains(setting_key(last)) {
            before.insert(setting_key(last), saved[setting_key(last)])
        } else if default_value(last) is Some {
            before.insert(setting_key(last), default_value(last)->0)
        } else {
            before
        }
    }
}

/// The saved values after an update: the new ones under declared keys, and the
/// old ones under all others.
pub open spec fn updated(
    settings: Seq<SettingFieldView>,
    saved: Map<Seq<char>, JsonTree>,
    values: Map<Seq<char>, JsonTree>,
) -> Map<Seq<char>, JsonTree>
    decreases settings.len(),
{
    if settings.len() == 0 {
        saved
    } else {
        let before = updated(settings.drop_last(), saved, values);
        let key = setting_key(settings.last());
        if values.dom().contains(key) {
            before.insert(key, values[key])
        } else {
            before
        }
    }
}

fn key_of(field: &SettingField) -> (r: &String)
    ensures
        r@ == setting_key(field@),
{
    match field {
        SettingField::String { key, .. } => key,
        SettingField::Select { key, .. } => key,
        SettingField::Secret { key, .. } => key,
    }
}

fn default_of(field: &SettingField) -> (r: Option<serde_json::Value>)
    ensures
        r is Some <==> default_value(field@) is Some,
        r is Some ==> default_value(field@) == Some(json_tree(r->0)),
{
    match field {
        SettingField::String { default, .. } => Some(json_string(default.as_str())),
        SettingField::Select { default, .. } => Some(json_string(default.as_str())),
        SettingField::Secret { .. } => None,
    }
}

impl InMemorySettings {
    /// Nothing set.
    pub fn new() -> (r: InMemorySettings)
        ensures
            r.saved.len() == 0,
    {
        InMemorySettings { saved: Vec::new() }
    }

    fn position(&self, id: &str) -> (r: usize)
        ensures
            r <= self.saved.len(),
            forall|j: int| 0 <= j < r ==> (#[trigger] self.saved@[j]).id@ != id@,
            r < self.saved.len() ==> self.saved@[r as int].id@ == id@,
    {
        let mut i: usize = 0;
        while i < self.saved.len()
            invariant
                i <= self.saved.len(),
                forall|j: int| 0 <= j < i ==> (#[trigger] self.saved@[j]).id@ != id@,
            decreases self.saved.len() - i,
        {
            if same_text(self.saved[i].id.as_str(), id) {
                return i;
            }
            i = i + 1;
        }
        i
    }

    fn saved_for(&self, id: &str) -> (r: serde_json::Map<String, serde_json::Value>)
        ensures
            json_members(r) == saved_values(self.saved@, id@),
    {
        let at = self.position(id);
        proof {
            lemma_saved_at(self.saved@, id@, at as int);
        }
        if at < self.saved.len() {
            map_clone(&self.saved[at].values)
        } else {
            map_new()
        }
    }
}

proof fn lemma_saved_at(saved: Seq<SavedSettings>, id: Seq<char>, i: int)
    requires
        0 <= i <= saved.len(),
        forall|j: int| 0 <= j < i ==> (#[trigger] saved[j]).id@ != id,
        i < saved.len() ==> saved[i].id@ == id,
    ensures
        saved_values(saved, id) == if i < saved.len() {
            json_members(saved[i].values)
        } else {
            no_members()
        },
    decreases i,
{
    if i > 0 {
        let rest = saved.drop_first();
        assert forall|j: int| 0 <= j < i - 1 implies (#[trigger] rest[j]).id@ != id by {
            assert(saved[j + 1].id@ != id);
        }
        assert(saved[0].id@ != id);
        lemma_saved_at(rest, id, i - 1);
    }
}

proof fn lemma_other_saved_kept(
    before: Seq<SavedSettings>,
    after: Seq<SavedSettings>,
    id: Seq<char>,
    at: int,
)
    requires
        0 <= at < after.len(),
        before.len() == after.len() || before.len() + 1 == after.len() && at == before.len(),
        forall|j: int| 0 <= j < before.len() && j != at ==> #[trigger] after[j] == before[j],
        after[at].id@ != id,
        at < before.len() ==> before[at].id@ != id,
    ensures
        saved_values(before, id) == saved_values(after, id),
    decreases before.len(),
{
    if before.len() == 0 {
        assert(after.drop_first().len() == 0);
        assert(saved_values(after.drop_first(), id) == saved_values(before, id));
    } else {
        if at == 0 {
            assert(after.drop_first() =~= before.drop_first());
        } else {
            assert(after[0] == before[0]);
            assert forall|j: int|
                0 <= j < before.drop_first().len() && j != at - 1 implies #[trigger] after.drop_first()[j]
                == before.drop_first()[j] by {
                assert(after[j + 1] == before[j + 1]);
            }
            lemma_other_saved_kept(before.drop_first(), after.drop_first(), id, at - 1);
        }
    }
}

impl EffectiveSettings for InMemorySettings {
    open spec fn in_effect(&self, manifest: ManifestView) -> Map<Seq<char>, JsonTree> {
        overlaid(manifest.settings, saved_values(self.saved@, manifest.id))
    }

    open spec fn once_stored(
        &self,
        manifest: ManifestView,
        values: Map<Seq<char>, JsonTree>,
    ) -> Map<Seq<char>, JsonTree> {
        overlaid(
            manifest.settings,
            updated(manifest.settings, saved_values(self.saved@, manifest.id), values),
        )
    }

    open spec fn refuses(
        &self,
        manifest: ManifestView,
        values: Map<Seq<char>, JsonTree>,
        message: Seq<char>,
    ) -> bool {
        false
    }
}

impl Storage for InMemorySettings {
    fn effective(&self, manifest: &Manifest) -> (r: serde_json::Map<String, serde_json::Value>) {
        let saved = self.saved_for(manifest.id.as_str());
        let mut values = map_new();
        let mut i: usize = 0;
        assert(json_members(values) == overlaid(manifest@.settings.take(0), json_members(saved)));
        while i < manifest.settings.len()
            invariant
                i <= manifest.settings.len(),
                json_members(values) == overlaid(
                    manifest@.settings.take(i as int),
                    json_members(saved),
                ),
            decreases manifest.settings.len() - i,
        {
            let field = &manifest.settings[i];
            proof {
                let taken = manifest@.settings.take(i + 1);
                assert(taken.drop_last() =~= manifest@.settings.take(i as int));
                assert(taken.last() == field@);
            }
            let key = key_of(field);
            match map_get(&saved, key.as_str()) {
                Some(value) => map_insert(&mut values, key.as_str(), json_clone(value)),
                None => match default_of(field) {
                    Some(value) => map_insert(&mut values, key.as_str(), value),
                    None => {},
                },
            }
            i = i + 1;
        }
        assert(manifest@.settings.take(manifest.settings.len() as int) =~= manifest@.settings);
        values
    }

    fn update_and_effective(
        &mut self,
        manifest: &Manifest,
        values: &serde_json::Map<String, serde_json::Value>,
    ) -> (r: Result<serde_json::Map<String, serde_json::Value>, SettingsError>)
        ensures
            r is Ok,
    {
        let mut saved = self.saved_for(manifest.id.as_str());
        let ghost first = json_members(saved);
        let mut i: usize = 0;
        assert(updated(manifest@.settings.take(0), first, json_members(*values)) == first);
        while i < manifest.settings.len()
            invariant
                i <= manifest.settings.len(),
                json_members(saved) == updated(
                    manifest@.settings.take(i as int),
                    first,
                    json_members(*values),
                ),
            decreases manifest.settings.len() - i,
        {
            proof {
                let taken = manifest@.settings.take(i + 1);
                assert(taken.drop_last() =~= manifest@.settings.take(i as int));
                assert(taken.last() == manifest.settings@[i as int]@);
            }
            let key = key_of(&manifest.settings[i]);
            match map_get(values, key.as_str()) {
                Some(value) => map_insert(&mut saved, key.as_str(), json_clone(value)),
                None => {},
            }
            i = i + 1;
        }
        assert(manifest@.settings.take(manifest.settings.len() as int) =~= manifest@.settings);
        let at = self.position(manifest.id.as_str());
        let ghost before = self.saved@;
        if at < self.saved.len() {
            self.saved[at].values = saved;
        } else {
            self.saved.push(SavedSettings { id: manifest.id.clone(), values: saved });
        }
        assert forall|m: ManifestView| m.id != manifest@.id implies #[trigger] self.in_effect(m)
            == old(self).in_effect(m) by {
            lemma_other_saved_kept(before, self.saved@, m.id, at as int);
        }
        proof {
            lemma_saved_at(self.saved@, manifest@.id, at as int);
        }
        Ok(self.effective(manifest))
    }
}

/// A configuration that is kept of one plugin or driver.
#[derive(Debug)]
pub struct SavedConfig<C> {
    pub id: String,
    pub name: String,
    pub config: C,
}

/// The configuration that was saved last under an id and a name.
pub open spec fn saved_config<C: View>(
    saved: Seq<SavedConfig<C>>,
    id: Seq<char>,
    name: Seq<char>,
) -> Option<C::V>
    decreases saved.len(),
{
    if saved.len() == 0 {
        None
    } else if saved.last().id@ == id && saved.last().name@ == name {
        Some(saved.last().config@)
    } else {
        saved_config(saved.drop_last(), id, name)
    }
}

/// Configurations that are kept in memory. A configuration is taken for what is
/// declared, and turned down for anything else.
#[derive(Debug)]
pub struct InMemoryConfigs {
    pub sidecars: Vec<SavedConfig<SidecarConfig>>,
    pub roots: Vec<SavedConfig<FilesystemConfig>>,
}

impl InMemoryConfigs {
    /// Nothing configured.
    pub fn new() -> (r: InMemoryConfigs)
        ensures
            r.sidecars.len() == 0,
            r.roots.len() == 0,
    {
        InMemoryConfigs { sidecars: Vec::new(), roots: Vec::new() }
    }
}

impl Configurations for InMemoryConfigs {
    open spec fn sidecar_of(&self, manifest: ManifestView, name: Seq<char>) -> Option<
        SidecarConfigView,
    > {
        saved_config(self.sidecars@, manifest.id, name)
    }

    open spec fn root_of(&self, manifest: ManifestView, name: Seq<char>) -> Option<
        FilesystemConfigView,
    > {
        saved_config(self.roots@, manifest.id, name)
    }

    open spec fn refuses_sidecar(
        &self,
        manifest: ManifestView,
        name: Seq<char>,
        config: SidecarConfigView,
        message: Seq<char>,
    ) -> bool {
        !manifest.declares_sidecar(name) && message == "unknown sidecar"@
    }

    open spec fn refuses_root(
        &self,
        manifest: ManifestView,
        name: Seq<char>,
        config: FilesystemConfigView,
        message: Seq<char>,
    ) -> bool {
        !manifest.declares_filesystem(name) && message == "unknown filesystem root"@
    }
}

impl ConfigStorage for InMemoryConfigs {
    fn sidecar_config(&self, manifest: &Manifest, name: &str) -> (r: Option<SidecarConfig>) {
        let mut i: usize = self.sidecars.len();
        assert(self.sidecars@.take(i as int) =~= self.sidecars@);
        while i > 0
            invariant
                i <= self.sidecars.len(),
                saved_config(self.sidecars@, manifest.id@, name@) == saved_config(
                    self.sidecars@.take(i as int),
                    manifest.id@,
                    name@,
                ),
            decreases i,
        {
            assert(self.sidecars@.take(i as int).drop_last() =~= self.sidecars@.take(i - 1));
            let saved = &self.sidecars[i - 1];
            if same_text(saved.id.as_str(), manifest.id.as_str()) && same_text(
                saved.name.as_str(),
                name,
            ) {
                return Some(saved.config.clone());
            }
            i = i - 1;
        }
        None
    }

    fn update_sidecar(&mut self, manifest: &Manifest, name: &str, config: &SidecarConfig) -> (r:
        Result<(), SidecarConfigError>)
        ensures
            r is Ok <==> manifest@.declares_sidecar(name@),
            r matches Err(e) ==> e.message@ == "unknown sidecar"@,
    {
        if manifest.sidecar(name).is_none() {
            return Err(SidecarConfigError { message: "unknown sidecar".to_owned() });
        }
        let ghost before = self.sidecars@;
        self.sidecars.push(
            SavedConfig {
                id: manifest.id.clone(),
                name: name.to_owned(),
                config: config.clone(),
            },
        );
        assert(self.sidecars@.drop_last() =~= before);
        Ok(())
    }

    fn filesystem_config(&self, manifest: &Manifest, name: &str) -> (r: Option<FilesystemConfig>) {
        let mut i: usize = self.roots.len();
        assert(self.roots@.take(i as int) =~= self.roots@);
        while i > 0
            invariant
                i <= self.roots.len(),
                saved_config(self.roots@, manifest.id@, name@) == saved_config(
                    self.roots@.take(i as int),
                    manifest.id@,
                    name@,
                ),
            decreases i,
        {
            assert(self.roots@.take(i as int).drop_last() =~= self.roots@.take(i - 1));
            let saved = &self.roots[i - 1];
            if same_text(saved.id.as_str(), manifest.id.as_str()) && same_text(
                saved.name.as_str(),
                name,
            ) {
                return Some(saved.config.clone());
            }
            i = i - 1;
        }
        None
    }

    fn update_filesystem(&mut self, manifest: &Manifest, name: &str, config: &FilesystemConfig) -> (r:
        Result<(), FilesystemConfigError>)
        ensures
            r is Ok <==> manifest@.declares_filesystem(name@),
            r matches Err(e) ==> e.message@ == "unknown filesystem root"@,
    {
        if manifest.filesystem_root(name).is_none() {
            return Err(FilesystemConfigError { message: "unknown filesystem root".to_owned() });
        }
        let ghost before = self.roots@;
        self.roots.push(
            SavedConfig {
                id: manifest.id.clone(),
                name: name.to_owned(),
                config: config.clone(),
            },
        );
        assert(self.roots@.drop_last() =~= before);
        Ok(())
    }
}

/// A declared setting is known by its key. A text and a choice have their declared default,
/// and a secret has none.
pub proof fn law_settings_have_their_declared_default(field: SettingFieldView)
    ensures
        field matches SettingFieldView::String { key, default, .. } ==> setting_key(field) == key
            && default_value(field) == Some(JsonTree::Text(default)),
        field matches SettingFieldView::Select { key, default, .. } ==> setting_key(field) == key
            && default_value(field) == Some(JsonTree::Text(default)),
        field matches SettingFieldView::Secret { key, .. } ==> setting_key(field) == key
            && default_value(field) is None,
{
}

/// A setting has a value just if it is declared and was saved or has a default, and what was
/// saved comes before any default.
pub proof fn law_saved_values_come_before_defaults(
    settings: Seq<SettingFieldView>,
    saved: Map<Seq<char>, JsonTree>,
    key: Seq<char>,
)
    ensures
        overlaid(settings, saved).dom().contains(key) <==> exists|i: int|
            #![trigger settings[i]]
            0 <= i < settings.len() && setting_key(settings[i]) == key && (saved.dom().contains(key)
                || !(settings[i] is Secret)),
        overlaid(settings, saved).dom().contains(key) && saved.dom().contains(key) ==> overlaid(
            settings,
            saved,
        )[key] == saved[key],
    decreases settings.len(),
{
    if settings.len() > 0 {
        let rest = settings.drop_last();
        let last = settings.len() - 1;
        law_saved_values_come_before_defaults(rest, saved, key);
        if overlaid(rest, saved).dom().contains(key) {
            let i = choose|i: int|
                #![trigger rest[i]]
                0 <= i < rest.len() && setting_key(rest[i]) == key && (saved.dom().contains(key)
                    || !(rest[i] is Secret));
            assert(settings[i] == rest[i]);
        }
        assert forall|i: int|
            #![trigger settings[i]]
            0 <= i < settings.len() && setting_key(settings[i]) == key && (saved.dom().contains(key)
                || !(settings[i] is Secret)) implies overlaid(settings, saved).dom().contains(key) by {
            if i < last {
                assert(rest[i] == settings[i]);
            }
        }
        if overlaid(settings, saved).dom().contains(key) && !overlaid(rest, saved).dom().contains(
            key,
        ) {
            assert(setting_key(settings[last]) == key);
        }
    }
}

/// A setting that was not saved has the last default that is declared under its key.
pub proof fn law_the_last_default_counts(
    settings: Seq<SettingFieldView>,
    saved: Map<Seq<char>, JsonTree>,
    key: Seq<char>,
    i: int,
)
    requires
        !saved.dom().contains(key),
        0 <= i < settings.len(),
        setting_key(settings[i]) == key,
        !(settings[i] is Secret),
        forall|j: int|
            i < j < settings.len() ==> setting_key(#[trigger] settings[j]) != key
                || settings[j] is Secret,
    ensures
        overlaid(settings, saved).dom().contains(key),
        settings[i] matches SettingFieldView::String { default, .. } ==> overlaid(
            settings,
            saved,
        )[key] == JsonTree::Text(default),
        settings[i] matches SettingFieldView::Select { default, .. } ==> overlaid(
            settings,
            saved,
        )[key] == JsonTree::Text(default),
    decreases settings.len(),
{
    let rest = settings.drop_last();
    let last = settings.len() - 1;
    if i < last {
        assert(rest[i] == settings[i]);
        assert(setting_key(settings[last]) != key || settings[last] is Secret);
        assert forall|j: int| i < j < rest.len() implies setting_key(#[trigger] rest[j]) != key
            || rest[j] is Secret by {
            assert(settings[j] == rest[j]);
        }
        law_the_last_default_counts(rest, saved, key, i);
    }
}

/// An update stores what it gives under declared keys, and leaves what it does not give, and
/// what is not declared, as it was saved.
pub proof fn law_updates_store_what_is_declared(
    settings: Seq<SettingFieldView>,
    saved: Map<Seq<char>, JsonTree>,
    values: Map<Seq<char>, JsonTree>,
    key: Seq<char>,
)
    ensures
        ({
            let declared = exists|i: int|
                #![trigger settings[i]]
                0 <= i < settings.len() && setting_key(settings[i]) == key;
            let after = updated(settings, saved, values);
            &&& declared && values.dom().contains(key) ==> after.dom().contains(key) && after[key]
                == values[key]
            &&& !declared || !values.dom().contains(key) ==> (after.dom().contains(key)
                <==> saved.dom().contains(key)) && (saved.dom().contains(key) ==> after[key]
                == saved[key])
        }),
    decreases settings.len(),
{
    if settings.len() > 0 {
        let rest = settings.drop_last();
        let last = settings.len() - 1;
        law_updates_store_what_is_declared(rest, saved, values, key);
        if exists|i: int|
            #![trigger settings[i]]
            0 <= i < settings.len() && setting_key(settings[i]) == key {
            let i = choose|i: int|
                #![trigger settings[i]]
                0 <= i < settings.len() && setting_key(settings[i]) == key;
            if i < last {
                assert(rest[i] == settings[i]);
            }
        } else {
            assert(setting_key(settings[last]) != key);
            assert forall|i: int| #![trigger rest[i]] 0 <= i < rest.len() implies setting_key(
                rest[i],
            ) != key by {
                assert(settings[i] == rest[i]);
            }
        }
    }
}

/// After an update in memory, a declared setting has the value that was given for it, and
/// every other setting the value that it had.
pub proof fn law_given_values_are_in_effect(
    before: InMemorySettings,
    manifest: ManifestView,
    values: Map<Seq<char>, JsonTree>,
    key: Seq<char>,
)
    ensures
        ({
            let declared = exists|i: int|
                #![trigger manifest.settings[i]]
                0 <= i < manifest.settings.len() && setting_key(manifest.settings[i]) == key;
            let after = before.once_stored(manifest, values);
            &&& declared && values.dom().contains(key) ==> after.dom().contains(key) && after[key]
                == values[key]
            &&& !declared ==> !after.dom().contains(key)
            &&& !values.dom().contains(key) && before.in_effect(manifest).dom().contains(key)
                ==> after.dom().contains(key)
        }),
{
    let saved = saved_values(before.saved@, manifest.id);
    let stored = updated(manifest.settings, saved, values);
    law_updates_store_what_is_declared(manifest.settings, saved, values, key);
    law_saved_values_come_before_defaults(manifest.settings, stored, key);
    law_saved_values_come_before_defaults(manifest.settings, saved, key);
}

/// Of the settings that are saved under an id the first count, and without any there are
/// none.
pub proof fn law_the_first_saved_settings_count(
    saved: Seq<SavedSettings>,
    id: Seq<char>,
    i: int,
)
    requires
        0 <= i <= saved.len(),
        forall|j: int| 0 <= j < i ==> (#[trigger] saved[j]).id@ != id,
        i < saved.len() ==> saved[i].id@ == id,
    ensures
        i < saved.len() ==> saved_values(saved, id) == json_members(saved[i].values),
        i == saved.len() ==> saved_values(saved, id).dom() =~= Set::empty(),
{
    lemma_saved_at(saved, id, i);
}

/// Of the configurations that are saved under an id and a name the last counts.
pub proof fn law_the_last_saved_configuration_counts<C: View>(
    saved: Seq<SavedConfig<C>>,
    id: Seq<char>,
    name: Seq<char>,
)
    ensures
        forall|i: int|
            #![trigger saved[i]]
            0 <= i < saved.len() && saved[i].id@ == id && saved[i].name@ == name && (forall|j: int|
                i < j < saved.len() ==> (#[trigger] saved[j]).id@ != id || saved[j].name@ != name)
                ==> saved_config(saved, id, name) == Some(saved[i].config@),
        (forall|i: int|
            0 <= i < saved.len() ==> (#[trigger] saved[i]).id@ != id || saved[i].name@ != name)
            ==> saved_config(saved, id, name) is None,
    decreases saved.len(),
{
    if saved.len() > 0 {
        let rest = saved.drop_last();
        let last = saved.len() - 1;
        law_the_last_saved_configuration_counts(rest, id, name);
        assert forall|i: int|
            #![trigger saved[i]]
            0 <= i < saved.len() && saved[i].id@ == id && saved[i].name@ == name && (forall|j: int|
                i < j < saved.len() ==> (#[trigger] saved[j]).id@ != id || saved[j].name@ != name) implies saved_config(
        saved, id, name) == Some(saved[i].config@) by {
            if i < last {
                assert(rest[i] == saved[i]);
                assert(saved[last].id@ != id || saved[last].name@ != name);
                assert forall|j: int| i < j < rest.len() implies (#[trigger] rest[j]).id@ != id
                    || rest[j].name@ != name by {
                    assert(saved[j] == rest[j]);
                }
            }
        }
        if forall|i: int|
            0 <= i < saved.len() ==> (#[trigger] saved[i]).id@ != id || saved[i].name@ != name {
            assert forall|i: int| 0 <= i < rest.len() implies (#[trigger] rest[i]).id@ != id
                || rest[i].name@ != name by {
                assert(saved[i] == rest[i]);
            }
            assert(saved[last].id@ != id || saved[last].name@ != name);
        }
    }
}

/// What may be shown of settings is every value but those of secrets. Of secrets only the
/// keys of those are listed that have a text, in the order of their declaration.
pub proof fn law_secrets_are_listed_by_key_alone(
    settings: Seq<SettingFieldView>,
    values: Map<Seq<char>, JsonTree>,
    key: Seq<char>,
    label: Seq<char>,
)
    ensures
        ({
            let secret = exists|i: int|
                #![trigger settings[i]]
                0 <= i < settings.len() && settings[i] is Secret && settings[i]->Secret_key == key;
            let filled = values.dom().contains(key) && (values[key] matches JsonTree::Text(text)
                && text.len() > 0);
            let shown = without_secrets(settings, values);
            let listed = secrets_set(settings, values);
            let more = settings.push(SettingFieldView::Secret { key, label });
            &&& shown.dom().contains(key) <==> values.dom().contains(key) && !secret
            &&& shown.dom().contains(key) ==> shown[key] == values[key]
            &&& listed.contains(key) <==> secret && filled
            &&& filled ==> secrets_set(more, values) == listed.push(key)
            &&& !filled ==> secrets_set(more, values) == listed
        }),
    decreases settings.len(),
{
    let more = settings.push(SettingFieldView::Secret { key, label });
    assert(more.drop_last() =~= settings);
    if settings.len() > 0 {
        let rest = settings.drop_last();
        let last = settings.len() - 1;
        law_secrets_are_listed_by_key_alone(rest, values, key, label);
        let before = secrets_set(rest, values);
        let listed = secrets_set(settings, values);
        if before.contains(key) {
            let k = choose|k: int| 0 <= k < before.len() && before[k] == key;
            assert(listed[k] == key);
            let i = choose|i: int|
                #![trigger rest[i]]
                0 <= i < rest.len() && rest[i] is Secret && rest[i]->Secret_key == key;
            assert(settings[i] == rest[i]);
        }
        if listed.contains(key) && !before.contains(key) {
            let k = choose|k: int| 0 <= k < listed.len() && listed[k] == key;
            if k < before.len() {
                assert(before[k] == key);
            }
            assert(settings[last] is Secret && settings[last]->Secret_key == key);
        }
        assert forall|i: int|
            #![trigger settings[i]]
            0 <= i < settings.len() && settings[i] is Secret && settings[i]->Secret_key == key && is_set(
            values, key) implies listed.contains(key) by {
            if i < last {
                assert(rest[i] == settings[i]);
            } else {
                assert(listed[before.len() as int] == key);
            }
        }
    }
}

/// The instances of a sidecar have ports of their own: one each, from the configured port
/// on, as far as there are ports.
pub proof fn law_instances_have_ports_of_their_own(config: SidecarConfigView)
    ensures
        config.ports().len() <= config.replicas,
        config.port + config.replicas <= 65536 ==> config.ports().len() == config.replicas,
        config.port + config.replicas > 65536 ==> config.port + config.ports().len() == 65536,
        forall|i: int| 0 <= i < config.ports().len() ==> #[trigger] config.ports()[i] == config.port + i,
{
}

/// A sidecar that nobody has configured has no command, its declared arguments and port, and
/// one instance.
pub proof fn law_nobody_configured_means_no_command(request: SidecarRequestView)
    ensures
        request.default_config().command.len() == 0,
        request.default_config().args == request.args,
        request.default_config().port == request.port,
        request.default_config().replicas == 1,
{
}

} // verus!
