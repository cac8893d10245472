//! Requests about drivers.

use vstd::prelude::*;

use crate::capability::GrantStorage;
use crate::json::{
    json_array, json_members, json_null, json_object, json_string, json_tree, json_trees,
    map_insert, map_new, no_members, JsonTree,
};
use crate::manifest::DriverManifest;
use crate::registry::bus::DriverDirectory;
use crate::registry::driver::{shows_driver, DriverEntry, DriverInfo, DriverRegistry};
use crate::registry::entries::SubjectRegistry;
use crate::registry::grants::{answer, capabilities_set};
use crate::registry::settings::{settings_set, values_outcome};
use crate::registry::subject::RegistryErrorView;
use crate::registry::{BusPort, ProcessControl, Retained};
use crate::rpc::params::{param_bool, param_object, param_str, text_param};
use crate::rpc::render::{capabilities_result_json, single, single_json};
use crate::server::entries::{driver_entry_json, driver_tree};
use crate::server::frames::{lossy_text, text_of};
use crate::server::request::replied;
use crate::server::rpc_plugins::{
    capabilities_judged, set_capabilities_reply, storing, values_answer,
};
use crate::server::rpc_subjects::{named, named_params};
use crate::settings::{ConfigStorage, Storage};
use crate::text::joined;

verus! {

/// Whether a list shows a driver as it is.
pub open spec fn driver_shown<
    St: Storage,
    G: GrantStorage,
    C: ConfigStorage,
    P: ProcessControl,
    B: Retained,
>(
    subjects: SubjectRegistry<DriverManifest, St, G, C, P>,
    bus: B,
    entry: DriverEntry,
    tree: JsonTree,
) -> bool {
    exists|info: DriverInfo|
        shows_driver(subjects, bus, entry, info) && tree == #[trigger] driver_tree(info)
}

/// The answer that lists drivers.
pub open spec fn drivers_tree(dir: Seq<char>, drivers: Seq<JsonTree>) -> JsonTree {
    JsonTree::Object(
        no_members().insert("driversDir"@, JsonTree::Text(dir)).insert(
            "drivers"@,
            JsonTree::Array(drivers),
        ),
    )
}

/// Whether an answer lists all drivers as they are, in order.
pub open spec fn drivers_listed<
    St: Storage,
    G: GrantStorage,
    C: ConfigStorage,
    P: ProcessControl,
    B: Retained,
>(registry: DriverRegistry<St, G, C, P>, bus: B, r: Result<JsonTree, Seq<char>>) -> bool {
    exists|shown: Seq<JsonTree>|
        {
            &&& shown.len() == registry.subjects.table.entries.len()
            &&& forall|i: int|
                0 <= i < shown.len() ==> driver_shown(
                    registry.subjects,
                    bus,
                    registry.subjects.table.entries@[i],
                    #[trigger] shown[i],
                )
            &&& r == Ok::<_, Seq<char>>(#[trigger] drivers_tree(registry.drivers_dir@, shown))
        }
}

/// Lists all drivers.
pub fn list<
    St: Storage,
    G: GrantStorage,
    C: ConfigStorage,
    P: ProcessControl,
    B: BusPort,
>(registry: &DriverRegistry<St, G, C, P>, bus: &B) -> (r: Result<serde_json::Value, String>)
    ensures
        drivers_listed(*registry, *bus, replied(r)),
{
    let infos = registry.list(bus);
    let ghost entries = registry.subjects.table.entries@;
    let mut items: Vec<serde_json::Value> = Vec::new();
    let mut i: usize = 0;
    while i < infos.len()
        invariant
            i <= infos.len(),
            infos.len() == entries.len(),
            forall|j: int|
                0 <= j < infos.len() ==> shows_driver(
                    registry.subjects,
                    *bus,
                    entries[j],
                    #[trigger] infos@[j],
                ),
            items.len() == i,
            forall|j: int|
                0 <= j < i ==> driver_shown(
                    registry.subjects,
                    *bus,
                    entries[j],
                    json_tree(#[trigger] items@[j]),
                ),
        decreases infos.len() - i,
    {
        let item = driver_entry_json(&infos[i]);
        assert(driver_shown(registry.subjects, *bus, entries[i as int], json_tree(item)));
        items.push(item);
        i = i + 1;
    }
    let ghost shown = json_trees(items@);
    assert forall|j: int| 0 <= j < shown.len() implies driver_shown(
        registry.subjects,
        *bus,
        entries[j],
        #[trigger] shown[j],
    ) by {
        assert(shown[j] == json_tree(items@[j]));
    }
    let mut members = map_new();
    map_insert(&mut members, "driversDir", json_string(registry.drivers_dir()));
    map_insert(&mut members, "drivers", json_array(items));
    let value = json_object(members);
    assert(json_tree(value) == drivers_tree(registry.drivers_dir@, shown));
    Ok(value)
}

/// What a request for a retained value is answered: null if there is none.
pub open spec fn retained_reply<B: Retained>(bus: B, params: JsonTree) -> Result<
    JsonTree,
    Seq<char>,
> {
    match named(params, "driver"@, "topic"@) {
        Err(e) => Err(e),
        Ok((driver, topic)) => Ok(
            single(
                "payload"@,
                match bus.retained(driver, topic) {
                    Some(payload) => JsonTree::Text(lossy_text(payload)),
                    None => JsonTree::Null,
                },
            ),
        ),
    }
}

/// Shows the value that a topic retains.
pub fn bus_retained<
    St: Storage,
    G: GrantStorage,
    C: ConfigStorage,
    P: ProcessControl,
    B: BusPort,
>(registry: &DriverRegistry<St, G, C, P>, bus: &B, params: &serde_json::Value) -> (r: Result<
    serde_json::Value,
    String,
>)
    ensures
        replied(r) == retained_reply(*bus, json_tree(*params)),
{
    let (driver, topic) = match named_params(params, "driver", "topic") {
        Ok(pair) => pair,
        Err(e) => {
            return Err(e);
        },
    };
    let payload = match registry.bus_retained(bus, driver, topic) {
        Some(payload) => json_string(text_of(payload.as_slice()).as_str()),
        None => json_null(),
    };
    Ok(single_json("payload", payload))
}

/// What a request for the settings of a driver is answered.
pub open spec fn driver_settings_reply<
    St: Storage,
    G: GrantStorage,
    C: ConfigStorage,
    P: ProcessControl,
>(subjects: SubjectRegistry<DriverManifest, St, G, C, P>, params: JsonTree) -> Result<
    JsonTree,
    Seq<char>,
> {
    match text_param(params, "driver"@) {
        Err(e) => Err(e),
        Ok(id) => if subjects.has(id) {
            Ok(JsonTree::Object(subjects.settings.in_effect(subjects.subject(id))))
        } else {
            Err(RegistryErrorView::UnknownDriver(id).text())
        },
    }
}

/// Shows the settings of a driver.
pub fn get_settings<St: Storage, G: GrantStorage, C: ConfigStorage, P: ProcessControl>(
    registry: &DriverRegistry<St, G, C, P>,
    params: &serde_json::Value,
) -> (r: Result<serde_json::Value, String>)
    ensures
        replied(r) == driver_settings_reply(registry.subjects, json_tree(*params)),
{
    match param_str(params, "driver") {
        Ok(id) => match registry.values(id) {
            Ok(values) => Ok(json_object(values)),
            Err(e) => Err(e.message()),
        },
        Err(e) => Err(e),
    }
}

/// What storing settings of a driver does and is answered.
pub open spec fn driver_values_changed<
    St: Storage,
    G: GrantStorage,
    C: ConfigStorage,
    P: ProcessControl,
>(
    before: SubjectRegistry<DriverManifest, St, G, C, P>,
    id: Seq<char>,
    values: Map<Seq<char>, JsonTree>,
    after: SubjectRegistry<DriverManifest, St, G, C, P>,
    r: Result<JsonTree, Seq<char>>,
) -> bool {
    exists|said: Result<Map<Seq<char>, JsonTree>, RegistryErrorView>| #[trigger]
        settings_set(before, id, values, after, said) && r == values_answer(said)
}

/// What a request to store settings of a driver does and is answered.
pub open spec fn set_driver_settings_reply<
    St: Storage,
    G: GrantStorage,
    C: ConfigStorage,
    P: ProcessControl,
>(
    before: SubjectRegistry<DriverManifest, St, G, C, P>,
    params: JsonTree,
    after: SubjectRegistry<DriverManifest, St, G, C, P>,
    r: Result<JsonTree, Seq<char>>,
) -> bool {
    match storing(params, "driver"@) {
        Err(e) => after == before && r == Err::<JsonTree, _>(e),
        Ok((id, values)) => driver_values_changed(before, id, values, after, r),
    }
}

/// Stores settings of a driver on request.
pub fn set_settings<St: Storage, G: GrantStorage, C: ConfigStorage, P: ProcessControl>(
    registry: &mut DriverRegistry<St, G, C, P>,
    params: &serde_json::Value,
) -> (r: Result<serde_json::Value, String>)
    ensures
        final(registry).drivers_dir == old(registry).drivers_dir,
        set_driver_settings_reply(
            old(registry).subjects,
            json_tree(*params),
            final(registry).subjects,
            replied(r),
        ),
{
    let id = match param_str(params, "driver") {
        Ok(id) => id,
        Err(e) => {
            return Err(e);
        },
    };
    let values = match param_object(params, "values") {
        Ok(values) => values,
        Err(e) => {
            return Err(e);
        },
    };
    let said = registry.set_values(id, values);
    let ghost seen = values_outcome(said);
    let reply = match said {
        Ok(updated) => Ok(json_object(updated)),
        Err(e) => Err(e.message()),
    };
    assert(settings_set(
        old(registry).subjects,
        id@,
        json_members(*values),
        registry.subjects,
        seen,
    ));
    assert(driver_values_changed(
        old(registry).subjects,
        id@,
        json_members(*values),
        registry.subjects,
        replied(reply),
    ));
    reply
}

/// Approves the capabilities of a driver or not on request.
pub fn set_capabilities<St: Storage, G: GrantStorage, C: ConfigStorage, P: ProcessControl>(
    registry: &mut DriverRegistry<St, G, C, P>,
    params: &serde_json::Value,
) -> (r: Result<serde_json::Value, String>)
    ensures
        final(registry).drivers_dir == old(registry).drivers_dir,
        set_capabilities_reply(
            old(registry).subjects,
            "driver"@,
            json_tree(*params),
            final(registry).subjects,
            replied(r),
        ),
{
    let id = match param_str(params, "driver") {
        Ok(id) => id,
        Err(e) => {
            return Err(e);
        },
    };
    let granted = match param_bool(params, "granted") {
        Ok(granted) => granted,
        Err(e) => {
            return Err(e);
        },
    };
    let said = registry.set_capabilities(id, granted);
    let ghost seen = answer(said);
    let reply = match said {
        Ok(state) => match registry.manifest_of(id) {
            Some(manifest) => Ok(capabilities_result_json(&manifest.capabilities, &state)),
            None => Err(joined("unknown driver: ", id)),
        },
        Err(e) => Err(e.message()),
    };
    assert(capabilities_set(old(registry).subjects, id@, granted, registry.subjects, seen));
    assert(capabilities_judged(
        old(registry).subjects,
        id@,
        granted,
        registry.subjects,
        replied(reply),
    ));
    reply
}

/// A request to store settings of a driver is turned down, and changes nothing, if it lacks
/// its driver or the values. Else it is carried out for these, and answered with the
/// settings in effect or with what went wrong.
pub proof fn law_a_request_to_store_driver_settings_is_carried_out<
    St: Storage,
    G: GrantStorage,
    C: ConfigStorage,
    P: ProcessControl,
>(
    before: SubjectRegistry<DriverManifest, St, G, C, P>,
    members: Map<Seq<char>, JsonTree>,
    after: SubjectRegistry<DriverManifest, St, G, C, P>,
    r: Result<JsonTree, Seq<char>>,
) -> (said: Result<Map<Seq<char>, JsonTree>, RegistryErrorView>)
    requires
        set_driver_settings_reply(before, JsonTree::Object(members), after, r),
    ensures
        !(members.dom().contains("driver"@) && members["driver"@] is Text) ==> after == before && r == Err::<JsonTree, _>(
            "params."@ + "driver"@ + " must be a string"@,
        ),
        members.dom().contains("driver"@) && members["driver"@] is Text && !(members.dom().contains("values"@) && members["values"@] is Object) ==> after == before && r == Err::<JsonTree, _>(
            "params."@ + "values"@ + " must be an object"@,
        ),
        members.dom().contains("driver"@) && members["driver"@] is Text && members.dom().contains("values"@) && members["values"@] is Object ==> settings_set(before, members["driver"@]->Text_0, members["values"@]->Object_0, after, said) && match said {
            Ok(values) => r == Ok::<_, Seq<char>>(JsonTree::Object(values)),
            Err(e) => r == Err::<JsonTree, _>(e.text()),
        },
{
    choose|said: Result<Map<Seq<char>, JsonTree>, RegistryErrorView>| #[trigger]
        settings_set(before, members["driver"@]->Text_0, members["values"@]->Object_0, after, said) && match said {
            Ok(values) => r == Ok::<_, Seq<char>>(JsonTree::Object(values)),
            Err(e) => r == Err::<JsonTree, _>(e.text()),
        }
}

/// The list of drivers names the directory that they are in.
pub proof fn law_the_list_of_drivers_names_their_directory(dir: Seq<char>, drivers: Seq<JsonTree>)
    ensures
        drivers_tree(dir, drivers) matches JsonTree::Object(members) && {
            &&& members.dom() =~= set![
                "driversDir"@,
                "drivers"@,
            ]
            &&& members["driversDir"@] == JsonTree::Text(dir)
            &&& members["drivers"@] == JsonTree::Array(drivers)
        },
{
    reveal_strlit("driversDir");
    reveal_strlit("drivers");
    assert("drivers"@.len() == 7);
    assert("driversDir"@.len() == 10);
}

/// A request for a retained value is answered with the value of that topic of that driver as
/// text, or with null if nothing is retained. It needs both to be named.
pub proof fn law_a_request_for_a_retained_value_is_answered<B: Retained>(
    bus: B,
    members: Map<Seq<char>, JsonTree>,
)
    ensures
        ({
            let r = retained_reply(bus, JsonTree::Object(members));
            let driver = members.dom().contains("driver"@) && members["driver"@] is Text;
            let topic = members.dom().contains("topic"@) && members["topic"@] is Text;
            &&& !driver ==> r == Err::<JsonTree, _>("params."@ + "driver"@ + " must be a string"@)
            &&& driver && !topic ==> r == Err::<JsonTree, _>(
                "params."@ + "topic"@ + " must be a string"@,
            )
            &&& driver && topic ==> (r matches Ok(JsonTree::Object(answer)) && answer.dom() =~= set![
                "payload"@,
            ] && answer["payload"@] == match bus.retained(
                members["driver"@]->Text_0,
                members["topic"@]->Text_0,
            ) {
                Some(payload) => JsonTree::Text(lossy_text(payload)),
                None => JsonTree::Null,
            })
        }),
{
}

/// A request for the settings of a driver is answered with what is in effect, if the driver is
/// registered.
pub proof fn law_a_request_for_driver_settings_is_answered<
    St: Storage,
    G: GrantStorage,
    C: ConfigStorage,
    P: ProcessControl,
>(
    subjects: SubjectRegistry<DriverManifest, St, G, C, P>,
    members: Map<Seq<char>, JsonTree>,
    id: Seq<char>,
)
    requires
        members.dom().contains("driver"@),
        members["driver"@] == JsonTree::Text(id),
    ensures
        subjects.has(id) ==> driver_settings_reply(subjects, JsonTree::Object(members)) == Ok::<
            _,
            Seq<char>,
        >(JsonTree::Object(subjects.settings.in_effect(subjects.subject(id)))),
        !subjects.has(id) ==> driver_settings_reply(subjects, JsonTree::Object(members)) == Err::<
            JsonTree,
            _,
        >("unknown driver: "@ + id),
{
}

/// A request for the settings of a driver is turned down if it does not name the driver.
pub proof fn law_a_driver_has_to_be_named<
    St: Storage,
    G: GrantStorage,
    C: ConfigStorage,
    P: ProcessControl,
>(
    subjects: SubjectRegistry<DriverManifest, St, G, C, P>,
    members: Map<Seq<char>, JsonTree>,
)
    requires
        !(members.dom().contains("driver"@) && members["driver"@] is Text),
    ensures
        driver_settings_reply(subjects, JsonTree::Object(members)) == Err::<JsonTree, _>(
            "params."@ + "driver"@ + " must be a string"@,
        ),
{
}

} // verus!
