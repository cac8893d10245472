//! Requests that plugins and drivers have in common.

use vstd::prelude::*;

use crate::capability::GrantStorage;
use crate::json::{json_get, json_tree, member, JsonTree};
use crate::registry::entries::SubjectRegistry;
use crate::registry::filesystem::{filesystem_config_set, filesystem_grant_set, outcome};
use crate::registry::sidecar::{
    sidecar_config_set, sidecar_controlled, sidecar_grant_set, SidecarAction,
};
use crate::registry::subject::{RegistryError, RegistryErrorView, RegistrySubject};
use crate::registry::ProcessControl;
use crate::rpc::info::{FilesystemInfo, FilesystemInfoView, SidecarInfo, SidecarInfoView};
use crate::rpc::params::{param_bool, param_str, text_param, truth_param};
use crate::rpc::render::{
    filesystem_result_json, roots_tree, sidecars_result_json, sidecars_tree, single,
};
use crate::server::request::replied;
use crate::settings::{
    ConfigStorage, FilesystemConfig, FilesystemConfigView, SidecarConfig, SidecarConfigView, Storage,
};
use crate::text::{joined, same_text};

verus! {

/// Whom a request is about, and what of theirs.
pub open spec fn named(params: JsonTree, owner: Seq<char>, key: Seq<char>) -> Result<
    (Seq<char>, Seq<char>),
    Seq<char>,
> {
    match text_param(params, owner) {
        Err(e) => Err(e),
        Ok(id) => match text_param(params, key) {
            Err(e) => Err(e),
            Ok(name) => Ok((id, name)),
        },
    }
}

/// Whom a request is about, and what of theirs.
pub fn named_params<'a>(params: &'a serde_json::Value, owner: &str, key: &str) -> (r: Result<
    (&'a str, &'a str),
    String,
>)
    ensures
        named(json_tree(*params), owner@, key@) == match r {
            Ok((id, name)) => Ok::<_, Seq<char>>((id@, name@)),
            Err(e) => Err(e@),
        },
{
    let id = match param_str(params, owner) {
        Ok(id) => id,
        Err(e) => {
            return Err(e);
        },
    };
    match param_str(params, key) {
        Ok(name) => Ok((id, name)),
        Err(e) => Err(e),
    }
}

/// What a request wants approved or not.
pub open spec fn approving(params: JsonTree, owner: Seq<char>, key: Seq<char>) -> Result<
    (Seq<char>, Seq<char>, bool),
    Seq<char>,
> {
    match named(params, owner, key) {
        Err(e) => Err(e),
        Ok((id, name)) => match truth_param(params, "granted"@) {
            Err(e) => Err(e),
            Ok(granted) => Ok((id, name, granted)),
        },
    }
}

/// What a request wants approved or not.
pub fn approving_params<'a>(params: &'a serde_json::Value, owner: &str, key: &str) -> (r: Result<
    (&'a str, &'a str, bool),
    String,
>)
    ensures
        approving(json_tree(*params), owner@, key@) == match r {
            Ok((id, name, granted)) => Ok::<_, Seq<char>>((id@, name@, granted)),
            Err(e) => Err(e@),
        },
{
    let (id, name) = match named_params(params, owner, key) {
        Ok(pair) => pair,
        Err(e) => {
            return Err(e);
        },
    };
    match param_bool(params, "granted") {
        Ok(granted) => Ok((id, name, granted)),
        Err(e) => Err(e),
    }
}

/// What is to become of a sidecar.
pub open spec fn action_named(name: Seq<char>) -> Option<SidecarAction> {
    if name == "start"@ {
        Some(SidecarAction::Start)
    } else if name == "stop"@ {
        Some(SidecarAction::Stop)
    } else if name == "restart"@ {
        Some(SidecarAction::Restart)
    } else {
        None
    }
}

/// What a request wants done with a sidecar.
pub open spec fn controlling(params: JsonTree, owner: Seq<char>) -> Result<
    (Seq<char>, Seq<char>, SidecarAction),
    Seq<char>,
> {
    match named(params, owner, "name"@) {
        Err(e) => Err(e),
        Ok((id, name)) => match text_param(params, "action"@) {
            Err(e) => Err(e),
            Ok(action) => match action_named(action) {
                Some(action) => Ok((id, name, action)),
                None => Err("unknown action: "@ + action),
            },
        },
    }
}

/// What a request wants done with a sidecar.
pub fn controlling_params<'a>(params: &'a serde_json::Value, owner: &str) -> (r: Result<
    (&'a str, &'a str, SidecarAction),
    String,
>)
    ensures
        controlling(json_tree(*params), owner@) == match r {
            Ok((id, name, action)) => Ok::<_, Seq<char>>((id@, name@, action)),
            Err(e) => Err(e@),
        },
{
    let (id, name) = match named_params(params, owner, "name") {
        Ok(pair) => pair,
        Err(e) => {
            return Err(e);
        },
    };
    let action = match param_str(params, "action") {
        Ok(action) => action,
        Err(e) => {
            return Err(e);
        },
    };
    if same_text(action, "start") {
        Ok((id, name, SidecarAction::Start))
    } else if same_text(action, "stop") {
        Ok((id, name, SidecarAction::Stop))
    } else if same_text(action, "restart") {
        Ok((id, name, SidecarAction::Restart))
    } else {
        Err(joined("unknown action: ", action))
    }
}

/// What a request wants configured. Whether the configuration can be read is said
/// by `decoded`.
pub open spec fn configuring<C: View>(
    params: JsonTree,
    owner: Seq<char>,
    decoded: Result<C, String>,
) -> Result<(Seq<char>, Seq<char>, C::V), Seq<char>> {
    match named(params, owner, "name"@) {
        Err(e) => Err(e),
        Ok((id, name)) => if member(params, "config"@) is None {
            Err("params.config must be an object"@)
        } else {
            match decoded {
                Ok(config) => Ok((id, name, config@)),
                Err(e) => Err("params.config is invalid: "@ + e@),
            }
        },
    }
}

/// What a request wants configured.
pub fn configuring_params<'a, 'b, C: View>(
    params: &'a serde_json::Value,
    owner: &str,
    decoded: &'b Result<C, String>,
) -> (r: Result<(&'a str, &'a str, &'b C), String>)
    ensures
        configuring(json_tree(*params), owner@, *decoded) == match r {
            Ok((id, name, config)) => Ok::<_, Seq<char>>((id@, name@, config@)),
            Err(e) => Err(e@),
        },
{
    let (id, name) = match named_params(params, owner, "name") {
        Ok(pair) => pair,
        Err(e) => {
            return Err(e);
        },
    };
    if json_get(params, "config").is_none() {
        return Err("params.config must be an object".to_owned());
    }
    match decoded {
        Ok(config) => Ok((id, name, config)),
        Err(e) => Err(joined("params.config is invalid: ", e.as_str())),
    }
}

/// The answer that lists sidecars, or says what went wrong.
pub open spec fn sidecars_answer(said: Result<Seq<SidecarInfoView>, RegistryErrorView>) -> Result<
    JsonTree,
    Seq<char>,
> {
    match said {
        Ok(infos) => Ok(single("sidecars"@, sidecars_tree(infos))),
        Err(e) => Err(e.text()),
    }
}

/// The answer that lists sidecars, or says what went wrong.
pub fn sidecars_result(said: Result<Vec<SidecarInfo>, RegistryError>) -> (r: Result<
    serde_json::Value,
    String,
>)
    ensures
        replied(r) == sidecars_answer(outcome(said)),
{
    match said {
        Ok(infos) => Ok(sidecars_result_json(&infos)),
        Err(e) => Err(e.message()),
    }
}

/// The answer that lists filesystem roots, or says what went wrong.
pub open spec fn roots_answer(said: Result<Seq<FilesystemInfoView>, RegistryErrorView>) -> Result<
    JsonTree,
    Seq<char>,
> {
    match said {
        Ok(infos) => Ok(single("roots"@, roots_tree(infos))),
        Err(e) => Err(e.text()),
    }
}

/// The answer that lists filesystem roots, or says what went wrong.
pub fn roots_result(said: Result<Vec<FilesystemInfo>, RegistryError>) -> (r: Result<
    serde_json::Value,
    String,
>)
    ensures
        replied(r) == roots_answer(outcome(said)),
{
    match said {
        Ok(infos) => Ok(filesystem_result_json(&infos)),
        Err(e) => Err(e.message()),
    }
}

/// What configuring a sidecar does and is answered.
pub open spec fn sidecar_configured<
    M: RegistrySubject,
    St: Storage,
    G: GrantStorage,
    C: ConfigStorage,
    P: ProcessControl,
>(
    before: SubjectRegistry<M, St, G, C, P>,
    id: Seq<char>,
    name: Seq<char>,
    config: SidecarConfigView,
    after: SubjectRegistry<M, St, G, C, P>,
    r: Result<JsonTree, Seq<char>>,
) -> bool {
    exists|said: Result<Seq<SidecarInfoView>, RegistryErrorView>| #[trigger]
        sidecar_config_set(before, id, name, config, after, said) && r == sidecars_answer(said)
}

/// What a request to configure a sidecar does and is answered.
pub open spec fn sidecar_config_reply<
    M: RegistrySubject,
    St: Storage,
    G: GrantStorage,
    C: ConfigStorage,
    P: ProcessControl,
>(
    before: SubjectRegistry<M, St, G, C, P>,
    owner: Seq<char>,
    params: JsonTree,
    decoded: Result<SidecarConfig, String>,
    after: SubjectRegistry<M, St, G, C, P>,
    r: Result<JsonTree, Seq<char>>,
) -> bool {
    match configuring(params, owner, decoded) {
        Err(e) => after == before && r == Err::<JsonTree, _>(e),
        Ok((id, name, config)) => sidecar_configured(before, id, name, config, after, r),
    }
}

/// What approving a sidecar or not does and is answered.
pub open spec fn sidecar_judged<
    M: RegistrySubject,
    St: Storage,
    G: GrantStorage,
    C: ConfigStorage,
    P: ProcessControl,
>(
    before: SubjectRegistry<M, St, G, C, P>,
    id: Seq<char>,
    name: Seq<char>,
    granted: bool,
    after: SubjectRegistry<M, St, G, C, P>,
    r: Result<JsonTree, Seq<char>>,
) -> bool {
    exists|said: Result<Seq<SidecarInfoView>, RegistryErrorView>| #[trigger]
        sidecar_grant_set(before, id, name, granted, after, said) && r == sidecars_answer(said)
}

/// What a request to approve a sidecar or not does and is answered.
pub open spec fn sidecar_grant_reply<
    M: RegistrySubject,
    St: Storage,
    G: GrantStorage,
    C: ConfigStorage,
    P: ProcessControl,
>(
    before: SubjectRegistry<M, St, G, C, P>,
    owner: Seq<char>,
    params: JsonTree,
    after: SubjectRegistry<M, St, G, C, P>,
    r: Result<JsonTree, Seq<char>>,
) -> bool {
    match approving(params, owner, "name"@) {
        Err(e) => after == before && r == Err::<JsonTree, _>(e),
        Ok((id, name, granted)) => sidecar_judged(before, id, name, granted, after, r),
    }
}

/// What starting, ending or restarting a sidecar does and is answered.
pub open spec fn sidecar_acted_on<
    M: RegistrySubject,
    St: Storage,
    G: GrantStorage,
    C: ConfigStorage,
    P: ProcessControl,
>(
    before: SubjectRegistry<M, St, G, C, P>,
    id: Seq<char>,
    name: Seq<char>,
    action: SidecarAction,
    after: SubjectRegistry<M, St, G, C, P>,
    r: Result<JsonTree, Seq<char>>,
) -> bool {
    exists|said: Result<Seq<SidecarInfoView>, RegistryErrorView>| #[trigger]
        sidecar_controlled(before, id, name, action, after, said) && r == sidecars_answer(said)
}

/// What a request to start, end or restart a sidecar does and is answered.
pub open spec fn sidecar_control_reply<
    M: RegistrySubject,
    St: Storage,
    G: GrantStorage,
    C: ConfigStorage,
    P: ProcessControl,
>(
    before: SubjectRegistry<M, St, G, C, P>,
    owner: Seq<char>,
    params: JsonTree,
    after: SubjectRegistry<M, St, G, C, P>,
    r: Result<JsonTree, Seq<char>>,
) -> bool {
    match controlling(params, owner) {
        Err(e) => after == before && r == Err::<JsonTree, _>(e),
        Ok((id, name, action)) => sidecar_acted_on(before, id, name, action, after, r),
    }
}

/// What choosing the directory of a filesystem root does and is answered.
pub open spec fn root_configured<
    M: RegistrySubject,
    St: Storage,
    G: GrantStorage,
    C: ConfigStorage,
    P: ProcessControl,
>(
    before: SubjectRegistry<M, St, G, C, P>,
    id: Seq<char>,
    name: Seq<char>,
    config: FilesystemConfigView,
    after: SubjectRegistry<M, St, G, C, P>,
    r: Result<JsonTree, Seq<char>>,
) -> bool {
    exists|said: Result<Seq<FilesystemInfoView>, RegistryErrorView>| #[trigger]
        filesystem_config_set(before, id, name, config, after, said) && r == roots_answer(said)
}

/// What a request to choose the directory of a filesystem root does and is
/// answered.
pub open spec fn root_config_reply<
    M: RegistrySubject,
    St: Storage,
    G: GrantStorage,
    C: ConfigStorage,
    P: ProcessControl,
>(
    before: SubjectRegistry<M, St, G, C, P>,
    owner: Seq<char>,
    params: JsonTree,
    decoded: Result<FilesystemConfig, String>,
    after: SubjectRegistry<M, St, G, C, P>,
    r: Result<JsonTree, Seq<char>>,
) -> bool {
    match configuring(params, owner, decoded) {
        Err(e) => after == before && r == Err::<JsonTree, _>(e),
        Ok((id, name, config)) => root_configured(before, id, name, config, after, r),
    }
}

/// What approving a filesystem root or not does and is answered.
pub open spec fn root_judged<
    M: RegistrySubject,
    St: Storage,
    G: GrantStorage,
    C: ConfigStorage,
    P: ProcessControl,
>(
    before: SubjectRegistry<M, St, G, C, P>,
    id: Seq<char>,
    name: Seq<char>,
    granted: bool,
    after: SubjectRegistry<M, St, G, C, P>,
    r: Result<JsonTree, Seq<char>>,
) -> bool {
    exists|said: Result<Seq<FilesystemInfoView>, RegistryErrorView>| #[trigger]
        filesystem_grant_set(before, id, name, granted, after, said) && r == roots_answer(said)
}

/// What a request to approve a filesystem root or not does and is answered.
pub open spec fn root_grant_reply<
    M: RegistrySubject,
    St: Storage,
    G: GrantStorage,
    C: ConfigStorage,
    P: ProcessControl,
>(
    before: SubjectRegistry<M, St, G, C, P>,
    owner: Seq<char>,
    params: JsonTree,
    after: SubjectRegistry<M, St, G, C, P>,
    r: Result<JsonTree, Seq<char>>,
) -> bool {
    match approving(params, owner, "name"@) {
        Err(e) => after == before && r == Err::<JsonTree, _>(e),
        Ok((id, name, granted)) => root_judged(before, id, name, granted, after, r),
    }
}

/// Configures a sidecar on request.
pub fn set_sidecar_config<
    M: RegistrySubject,
    St: Storage,
    G: GrantStorage,
    C: ConfigStorage,
    P: ProcessControl,
>(
    subjects: &mut SubjectRegistry<M, St, G, C, P>,
    owner: &str,
    params: &serde_json::Value,
    decoded: &Result<SidecarConfig, String>,
) -> (r: Result<serde_json::Value, String>)
    ensures
        sidecar_config_reply(
            *old(subjects),
            owner@,
            json_tree(*params),
            *decoded,
            *final(subjects),
            replied(r),
        ),
{
    let (id, name, config) = match configuring_params(params, owner, decoded) {
        Ok(asked) => asked,
        Err(e) => {
            return Err(e);
        },
    };
    let said = subjects.set_sidecar_config(id, name, config);
    let ghost seen = outcome(said);
    let answer = sidecars_result(said);
    assert(sidecar_config_set(*old(subjects), id@, name@, config@, *subjects, seen));
    assert(sidecar_configured(*old(subjects), id@, name@, config@, *subjects, replied(answer)));
    answer
}

/// Approves a sidecar or not on request.
pub fn set_sidecar_grant<
    M: RegistrySubject,
    St: Storage,
    G: GrantStorage,
    C: ConfigStorage,
    P: ProcessControl,
>(
    subjects: &mut SubjectRegistry<M, St, G, C, P>,
    owner: &str,
    params: &serde_json::Value,
) -> (r: Result<serde_json::Value, String>)
    ensures
        sidecar_grant_reply(
            *old(subjects),
            owner@,
            json_tree(*params),
            *final(subjects),
            replied(r),
        ),
{
    let (id, name, granted) = match approving_params(params, owner, "name") {
        Ok(asked) => asked,
        Err(e) => {
            return Err(e);
        },
    };
    let said = subjects.set_sidecar_grant(id, name, granted);
    let ghost seen = outcome(said);
    let answer = sidecars_result(said);
    assert(sidecar_grant_set(*old(subjects), id@, name@, granted, *subjects, seen));
    assert(sidecar_judged(*old(subjects), id@, name@, granted, *subjects, replied(answer)));
    answer
}

/// Starts, ends or restarts a sidecar on request.
pub fn sidecar_control<
    M: RegistrySubject,
    St: Storage,
    G: GrantStorage,
    C: ConfigStorage,
    P: ProcessControl,
>(
    subjects: &mut SubjectRegistry<M, St, G, C, P>,
    owner: &str,
    params: &serde_json::Value,
) -> (r: Result<serde_json::Value, String>)
    ensures
        sidecar_control_reply(
            *old(subjects),
            owner@,
            json_tree(*params),
            *final(subjects),
            replied(r),
        ),
{
    let (id, name, action) = match controlling_params(params, owner) {
        Ok(asked) => asked,
        Err(e) => {
            return Err(e);
        },
    };
    let said = subjects.control_sidecar(id, name, action);
    let ghost seen = outcome(said);
    let answer = sidecars_result(said);
    assert(sidecar_controlled(*old(subjects), id@, name@, action, *subjects, seen));
    assert(sidecar_acted_on(*old(subjects), id@, name@, action, *subjects, replied(answer)));
    answer
}

/// Chooses the directory of a filesystem root on request.
pub fn set_filesystem_config<
    M: RegistrySubject,
    St: Storage,
    G: GrantStorage,
    C: ConfigStorage,
    P: ProcessControl,
>(
    subjects: &mut SubjectRegistry<M, St, G, C, P>,
    owner: &str,
    params: &serde_json::Value,
    decoded: &Result<FilesystemConfig, String>,
) -> (r: Result<serde_json::Value, String>)
    ensures
        root_config_reply(
            *old(subjects),
            owner@,
            json_tree(*params),
            *decoded,
            *final(subjects),
            replied(r),
        ),
{
    let (id, name, config) = match configuring_params(params, owner, decoded) {
        Ok(asked) => asked,
        Err(e) => {
            return Err(e);
        },
    };
    let said = subjects.set_filesystem_config(id, name, config);
    let ghost seen = outcome(said);
    let answer = roots_result(said);
    assert(filesystem_config_set(*old(subjects), id@, name@, config@, *subjects, seen));
    assert(root_configured(*old(subjects), id@, name@, config@, *subjects, replied(answer)));
    answer
}

/// Approves a filesystem root or not on request.
pub fn set_filesystem_grant<
    M: RegistrySubject,
    St: Storage,
    G: GrantStorage,
    C: ConfigStorage,
    P: ProcessControl,
>(
    subjects: &mut SubjectRegistry<M, St, G, C, P>,
    owner: &str,
    params: &serde_json::Value,
) -> (r: Result<serde_json::Value, String>)
    ensures
        root_grant_reply(
            *old(subjects),
            owner@,
            json_tree(*params),
            *final(subjects),
            replied(r),
        ),
{
    let (id, name, granted) = match approving_params(params, owner, "name") {
        Ok(asked) => asked,
        Err(e) => {
            return Err(e);
        },
    };
    let said = subjects.set_filesystem_grant(id, name, granted);
    let ghost seen = outcome(said);
    let answer = roots_result(said);
    assert(filesystem_grant_set(*old(subjects), id@, name@, granted, *subjects, seen));
    assert(root_judged(*old(subjects), id@, name@, granted, *subjects, replied(answer)));
    answer
}

/// A request to approve a sidecar or not is turned down, and changes nothing, if it lacks
/// its owner, its name or the approval. Else it is carried out for these, and answered with
/// all sidecars or with what went wrong.
pub proof fn law_a_request_to_approve_a_sidecar_is_carried_out<
    M: RegistrySubject,
    St: Storage,
    G: GrantStorage,
    C: ConfigStorage,
    P: ProcessControl,
>(
    before: SubjectRegistry<M, St, G, C, P>,
    owner: Seq<char>,
    members: Map<Seq<char>, JsonTree>,
    after: SubjectRegistry<M, St, G, C, P>,
    r: Result<JsonTree, Seq<char>>,
) -> (said: Result<Seq<SidecarInfoView>, RegistryErrorView>)
    requires
        sidecar_grant_reply(before, owner, JsonTree::Object(members), after, r),
    ensures
        !(members.dom().contains(owner) && members[owner] is Text) ==> after == before && r == Err::<JsonTree, _>(
            "params."@ + owner + " must be a string"@,
        ),
        members.dom().contains(owner) && members[owner] is Text && !(members.dom().contains("name"@) && members["name"@] is Text) ==> after == before && r == Err::<JsonTree, _>(
            "params."@ + "name"@ + " must be a string"@,
        ),
        members.dom().contains(owner) && members[owner] is Text && members.dom().contains("name"@) && members["name"@] is Text && !(members.dom().contains("granted"@) && members["granted"@] is Bool) ==> after == before && r == Err::<JsonTree, _>(
            "params."@ + "granted"@ + " must be a bool"@,
        ),
        members.dom().contains(owner) && members[owner] is Text && members.dom().contains("name"@) && members["name"@] is Text && members.dom().contains("granted"@) && members["granted"@] is Bool ==> sidecar_grant_set(before, members[owner]->Text_0, members["name"@]->Text_0, members["granted"@]->Bool_0, after, said) && match said {
            Ok(infos) => r == Ok::<_, Seq<char>>(single("sidecars"@, sidecars_tree(infos))),
            Err(e) => r == Err::<JsonTree, _>(e.text()),
        },
{
    choose|said: Result<Seq<SidecarInfoView>, RegistryErrorView>| #[trigger]
        sidecar_grant_set(before, members[owner]->Text_0, members["name"@]->Text_0, members["granted"@]->Bool_0, after, said) && match said {
            Ok(infos) => r == Ok::<_, Seq<char>>(single("sidecars"@, sidecars_tree(infos))),
            Err(e) => r == Err::<JsonTree, _>(e.text()),
        }
}

/// A request to approve a filesystem root or not is turned down, and changes nothing, if it
/// lacks its owner, its name or the approval. Else it is carried out for these, and
/// answered with all roots or with what went wrong.
pub proof fn law_a_request_to_approve_a_root_is_carried_out<
    M: RegistrySubject,
    St: Storage,
    G: GrantStorage,
    C: ConfigStorage,
    P: ProcessControl,
>(
    before: SubjectRegistry<M, St, G, C, P>,
    owner: Seq<char>,
    members: Map<Seq<char>, JsonTree>,
    after: SubjectRegistry<M, St, G, C, P>,
    r: Result<JsonTree, Seq<char>>,
) -> (said: Result<Seq<FilesystemInfoView>, RegistryErrorView>)
    requires
        root_grant_reply(before, owner, JsonTree::Object(members), after, r),
    ensures
        !(members.dom().contains(owner) && members[owner] is Text) ==> after == before && r == Err::<JsonTree, _>(
            "params."@ + owner + " must be a string"@,
        ),
        members.dom().contains(owner) && members[owner] is Text && !(members.dom().contains("name"@) && members["name"@] is Text) ==> after == before && r == Err::<JsonTree, _>(
            "params."@ + "name"@ + " must be a string"@,
        ),
        members.dom().contains(owner) && members[owner] is Text && members.dom().contains("name"@) && members["name"@] is Text && !(members.dom().contains("granted"@) && members["granted"@] is Bool) ==> after == before && r == Err::<JsonTree, _>(
            "params."@ + "granted"@ + " must be a bool"@,
        ),
        members.dom().contains(owner) && members[owner] is Text && members.dom().contains("name"@) && members["name"@] is Text && members.dom().contains("granted"@) && members["granted"@] is Bool ==> filesystem_grant_set(before, members[owner]->Text_0, members["name"@]->Text_0, members["granted"@]->Bool_0, after, said) && match said {
            Ok(infos) => r == Ok::<_, Seq<char>>(single("roots"@, roots_tree(infos))),
            Err(e) => r == Err::<JsonTree, _>(e.text()),
        },
{
    choose|said: Result<Seq<FilesystemInfoView>, RegistryErrorView>| #[trigger]
        filesystem_grant_set(before, members[owner]->Text_0, members["name"@]->Text_0, members["granted"@]->Bool_0, after, said) && match said {
            Ok(infos) => r == Ok::<_, Seq<char>>(single("roots"@, roots_tree(infos))),
            Err(e) => r == Err::<JsonTree, _>(e.text()),
        }
}

/// A request to configure a sidecar is turned down, and changes nothing, if it lacks its
/// owner, its name or the configuration, or if that cannot be read. Else it is carried out
/// for these, and answered with all sidecars or with what went wrong.
pub proof fn law_a_request_to_configure_a_sidecar_is_carried_out<
    M: RegistrySubject,
    St: Storage,
    G: GrantStorage,
    C: ConfigStorage,
    P: ProcessControl,
>(
    before: SubjectRegistry<M, St, G, C, P>,
    owner: Seq<char>,
    decoded: Result<SidecarConfig, String>,
    members: Map<Seq<char>, JsonTree>,
    after: SubjectRegistry<M, St, G, C, P>,
    r: Result<JsonTree, Seq<char>>,
) -> (said: Result<Seq<SidecarInfoView>, RegistryErrorView>)
    requires
        sidecar_config_reply(before, owner, JsonTree::Object(members), decoded, after, r),
    ensures
        !(members.dom().contains(owner) && members[owner] is Text) ==> after == before && r == Err::<JsonTree, _>(
            "params."@ + owner + " must be a string"@,
        ),
        members.dom().contains(owner) && members[owner] is Text && !(members.dom().contains("name"@) && members["name"@] is Text) ==> after == before && r == Err::<JsonTree, _>(
            "params."@ + "name"@ + " must be a string"@,
        ),
        members.dom().contains(owner) && members[owner] is Text && members.dom().contains("name"@) && members["name"@] is Text && !(members.dom().contains("config"@)) ==> after == before && r == Err::<JsonTree, _>("params.config must be an object"@),
        members.dom().contains(owner) && members[owner] is Text && members.dom().contains("name"@) && members["name"@] is Text && members.dom().contains("config"@) && !(decoded is Ok) ==> after == before && r == Err::<JsonTree, _>("params.config is invalid: "@ + decoded->Err_0@),
        members.dom().contains(owner) && members[owner] is Text && members.dom().contains("name"@) && members["name"@] is Text && members.dom().contains("config"@) && decoded is Ok ==> sidecar_config_set(before, members[owner]->Text_0, members["name"@]->Text_0, decoded->Ok_0@, after, said) && match said {
            Ok(infos) => r == Ok::<_, Seq<char>>(single("sidecars"@, sidecars_tree(infos))),
            Err(e) => r == Err::<JsonTree, _>(e.text()),
        },
{
    choose|said: Result<Seq<SidecarInfoView>, RegistryErrorView>| #[trigger]
        sidecar_config_set(before, members[owner]->Text_0, members["name"@]->Text_0, decoded->Ok_0@, after, said) && match said {
            Ok(infos) => r == Ok::<_, Seq<char>>(single("sidecars"@, sidecars_tree(infos))),
            Err(e) => r == Err::<JsonTree, _>(e.text()),
        }
}

/// A request to choose the directory of a root is turned down, and changes nothing, if it
/// lacks its owner, its name or the directory, or if that cannot be read. Else it is
/// carried out for these, and answered with all roots or with what went wrong.
pub proof fn law_a_request_to_choose_a_directory_is_carried_out<
    M: RegistrySubject,
    St: Storage,
    G: GrantStorage,
    C: ConfigStorage,
    P: ProcessControl,
>(
    before: SubjectRegistry<M, St, G, C, P>,
    owner: Seq<char>,
    decoded: Result<FilesystemConfig, String>,
    members: Map<Seq<char>, JsonTree>,
    after: SubjectRegistry<M, St, G, C, P>,
    r: Result<JsonTree, Seq<char>>,
) -> (said: Result<Seq<FilesystemInfoView>, RegistryErrorView>)
    requires
        root_config_reply(before, owner, JsonTree::Object(members), decoded, after, r),
    ensures
        !(members.dom().contains(owner) && members[owner] is Text) ==> after == before && r == Err::<JsonTree, _>(
            "params."@ + owner + " must be a string"@,
        ),
        members.dom().contains(owner) && members[owner] is Text && !(members.dom().contains("name"@) && members["name"@] is Text) ==> after == before && r == Err::<JsonTree, _>(
            "params."@ + "name"@ + " must be a string"@,
        ),
        members.dom().contains(owner) && members[owner] is Text && members.dom().contains("name"@) && members["name"@] is Text && !(members.dom().contains("config"@)) ==> after == before && r == Err::<JsonTree, _>("params.config must be an object"@),
        members.dom().contains(owner) && members[owner] is Text && members.dom().contains("name"@) && members["name"@] is Text && members.dom().contains("config"@) && !(decoded is Ok) ==> after == before && r == Err::<JsonTree, _>("params.config is invalid: "@ + decoded->Err_0@),
        members.dom().contains(owner) && members[owner] is Text && members.dom().contains("name"@) && members["name"@] is Text && members.dom().contains("config"@) && decoded is Ok ==> filesystem_config_set(before, members[owner]->Text_0, members["name"@]->Text_0, decoded->Ok_0@, after, said) && match said {
            Ok(infos) => r == Ok::<_, Seq<char>>(single("roots"@, roots_tree(infos))),
            Err(e) => r == Err::<JsonTree, _>(e.text()),
        },
{
    choose|said: Result<Seq<FilesystemInfoView>, RegistryErrorView>| #[trigger]
        filesystem_config_set(before, members[owner]->Text_0, members["name"@]->Text_0, decoded->Ok_0@, after, said) && match said {
            Ok(infos) => r == Ok::<_, Seq<char>>(single("roots"@, roots_tree(infos))),
            Err(e) => r == Err::<JsonTree, _>(e.text()),
        }
}

/// A request to start, stop or restart a sidecar is turned down, and changes nothing, if it
/// lacks its owner, its name or what to do, or if that is none of the three. Else it is
/// carried out for these, and answered with all sidecars or with what went wrong.
pub proof fn law_a_request_to_control_a_sidecar_is_carried_out<
    M: RegistrySubject,
    St: Storage,
    G: GrantStorage,
    C: ConfigStorage,
    P: ProcessControl,
>(
    before: SubjectRegistry<M, St, G, C, P>,
    owner: Seq<char>,
    members: Map<Seq<char>, JsonTree>,
    after: SubjectRegistry<M, St, G, C, P>,
    r: Result<JsonTree, Seq<char>>,
) -> (said: Result<Seq<SidecarInfoView>, RegistryErrorView>)
    requires
        sidecar_control_reply(before, owner, JsonTree::Object(members), after, r),
    ensures
        !(members.dom().contains(owner) && members[owner] is Text) ==> after == before && r == Err::<JsonTree, _>(
            "params."@ + owner + " must be a string"@,
        ),
        members.dom().contains(owner) && members[owner] is Text && !(members.dom().contains("name"@) && members["name"@] is Text) ==> after == before && r == Err::<JsonTree, _>(
            "params."@ + "name"@ + " must be a string"@,
        ),
        members.dom().contains(owner) && members[owner] is Text && members.dom().contains("name"@) && members["name"@] is Text && !(members.dom().contains("action"@) && members["action"@] is Text) ==> after == before && r == Err::<JsonTree, _>(
            "params."@ + "action"@ + " must be a string"@,
        ),
        members.dom().contains(owner) && members[owner] is Text && members.dom().contains("name"@) && members["name"@] is Text && members.dom().contains("action"@) && members["action"@] is Text && !(members["action"@]->Text_0 == "start"@ || members["action"@]->Text_0 == "stop"@ || members["action"@]->Text_0 == "restart"@) ==> after == before && r == Err::<JsonTree, _>("unknown action: "@ + members["action"@]->Text_0),
        members.dom().contains(owner) && members[owner] is Text && members.dom().contains("name"@) && members["name"@] is Text && members.dom().contains("action"@) && members["action"@] is Text && (members["action"@]->Text_0 == "start"@ || members["action"@]->Text_0 == "stop"@ || members["action"@]->Text_0 == "restart"@) ==> sidecar_controlled(
            before,
            members[owner]->Text_0,
            members["name"@]->Text_0,
            if members["action"@]->Text_0 == "start"@ {
                SidecarAction::Start
            } else if members["action"@]->Text_0 == "stop"@ {
                SidecarAction::Stop
            } else {
                SidecarAction::Restart
            },
            after,
            said,
        ) && match said {
            Ok(infos) => r == Ok::<_, Seq<char>>(single("sidecars"@, sidecars_tree(infos))),
            Err(e) => r == Err::<JsonTree, _>(e.text()),
        },
{
    reveal_strlit("start");
    reveal_strlit("stop");
    reveal_strlit("restart");
    assert("stop"@.len() == 4);
    assert("start"@.len() == 5);
    assert("restart"@.len() == 7);
    let action = if members["action"@]->Text_0 == "start"@ {
        SidecarAction::Start
    } else if members["action"@]->Text_0 == "stop"@ {
        SidecarAction::Stop
    } else {
        SidecarAction::Restart
    };
    choose|said: Result<Seq<SidecarInfoView>, RegistryErrorView>| #[trigger]
        sidecar_controlled(before, members[owner]->Text_0, members["name"@]->Text_0, action, after, said) && match said {
            Ok(infos) => r == Ok::<_, Seq<char>>(single("sidecars"@, sidecars_tree(infos))),
            Err(e) => r == Err::<JsonTree, _>(e.text()),
        }
}

} // verus!
