//! The frames that clients receive.

use vstd::prelude::*;
use vstd::utf8::{decode_utf8, valid_utf8};

use crate::event::Event;
use crate::json::{
    json_bool, json_clone, json_object, json_print, json_string, json_text, json_tree, json_u64,
    map_insert, map_new, no_members, JsonTree,
};

verus! {

/// The first frame of a connection.
pub open spec fn hello_tree() -> JsonTree {
    JsonTree::Object(
        no_members().insert("type"@, JsonTree::Text("hello"@)).insert(
            "protocol"@,
            JsonTree::Int(1),
        ),
    )
}

/// The first frame of a connection.
pub fn hello_json() -> (r: String)
    ensures
        r@ == json_text(hello_tree()),
{
    let mut members = map_new();
    map_insert(&mut members, "type", json_string("hello"));
    map_insert(&mut members, "protocol", json_u64(1));
    json_print(&json_object(members))
}

/// The frame for a report of the game. What the game says now is never a replay.
pub open spec fn event_tree(event: Event) -> JsonTree {
    let frame = no_members().insert("type"@, JsonTree::Text("event"@));
    match event {
        Event::Journal { timestamp, event, raw, replay } => JsonTree::Object(
            frame.insert("kind"@, JsonTree::Text("journal"@)).insert(
                "timestamp"@,
                JsonTree::Text(timestamp@),
            ).insert("event"@, JsonTree::Text(event@)).insert("raw"@, json_tree(raw)).insert(
                "replay"@,
                JsonTree::Bool(replay),
            ),
        ),
        Event::Status { raw } => JsonTree::Object(
            frame.insert("kind"@, JsonTree::Text("status"@)).insert("raw"@, json_tree(raw)),
        ),
    }
}

/// The frame for a report of the game.
pub fn event_to_ws_json(event: &Event) -> (r: String)
    ensures
        r@ == json_text(event_tree(*event)),
{
    let mut members = map_new();
    map_insert(&mut members, "type", json_string("event"));
    match event {
        Event::Journal { timestamp, event, raw, replay } => {
            map_insert(&mut members, "kind", json_string("journal"));
            map_insert(&mut members, "timestamp", json_string(timestamp.as_str()));
            map_insert(&mut members, "event", json_string(event.as_str()));
            map_insert(&mut members, "raw", json_clone(raw));
            map_insert(&mut members, "replay", json_bool(*replay));
        },
        Event::Status { raw } => {
            map_insert(&mut members, "kind", json_string("status"));
            map_insert(&mut members, "raw", json_clone(raw));
        },
    }
    json_print(&json_object(members))
}

/// The text that bytes are shown as.
pub uninterp spec fn lossy_text(bytes: Seq<u8>) -> Seq<char>;

/// `std::string::String::from_utf8_lossy`: bytes as text. Bytes that are UTF-8
/// are the text that they encode; what is put in place of others is left open.
#[verifier::external_body]
pub(crate) fn text_of(bytes: &[u8]) -> (r: String)
    ensures
        r@ == lossy_text(bytes@),
        valid_utf8(bytes@) ==> r@ == decode_utf8(bytes@),
{
    String::from_utf8_lossy(bytes).into_owned()
}

/// The frame for a value that a driver emits.
pub open spec fn bus_tree(driver: Seq<char>, topic: Seq<char>, payload: Seq<u8>) -> JsonTree {
    JsonTree::Object(
        no_members().insert("type"@, JsonTree::Text("event"@)).insert(
            "kind"@,
            JsonTree::Text("bus"@),
        ).insert("driver"@, JsonTree::Text(driver)).insert("topic"@, JsonTree::Text(topic)).insert(
            "payload"@,
            JsonTree::Text(lossy_text(payload)),
        ),
    )
}

/// The frame for a value that a driver emits.
pub fn bus_ws_frame(driver: &str, topic: &str, payload: &[u8]) -> (r: String)
    ensures
        r@ == json_text(bus_tree(driver@, topic@, payload@)),
        valid_utf8(payload@) ==> lossy_text(payload@) == decode_utf8(payload@),
{
    let text = text_of(payload);
    let mut members = map_new();
    map_insert(&mut members, "type", json_string("event"));
    map_insert(&mut members, "kind", json_string("bus"));
    map_insert(&mut members, "driver", json_string(driver));
    map_insert(&mut members, "topic", json_string(topic));
    map_insert(&mut members, "payload", json_string(text.as_str()));
    json_print(&json_object(members))
}

/// The first frame of a connection says hello, and which protocol is spoken.
pub proof fn law_a_connection_starts_with_the_protocol()
    ensures
        hello_tree() matches JsonTree::Object(members) && {
            &&& members.dom() =~= set![
                "type"@,
                "protocol"@,
            ]
            &&& members["type"@] == JsonTree::Text("hello"@)
            &&& members["protocol"@] == JsonTree::Int(1)
        },
{
    reveal_strlit("type");
    reveal_strlit("protocol");
    assert("type"@.len() == 4);
    assert("protocol"@.len() == 8);
}

/// The frame for a journal entry holds its time, its name, all that it says, and whether it
/// is a replay.
pub proof fn law_a_journal_entry_is_sent_as_it_is(timestamp: String, event: String, raw: serde_json::Value, replay: bool)
    ensures
        event_tree((Event::Journal { timestamp, event, raw, replay })) matches JsonTree::Object(members) && {
            &&& members.dom() =~= set![
                "type"@,
                "kind"@,
                "timestamp"@,
                "event"@,
                "raw"@,
                "replay"@,
            ]
            &&& members["type"@] == JsonTree::Text("event"@)
            &&& members["kind"@] == JsonTree::Text("journal"@)
            &&& members["timestamp"@] == JsonTree::Text(timestamp@)
            &&& members["event"@] == JsonTree::Text(event@)
            &&& members["raw"@] == json_tree(raw)
            &&& members["replay"@] == JsonTree::Bool(replay)
        },
{
    reveal_strlit("type");
    reveal_strlit("kind");
    reveal_strlit("timestamp");
    reveal_strlit("event");
    reveal_strlit("raw");
    reveal_strlit("replay");
    assert("raw"@.len() == 3);
    assert("type"@.len() == 4);
    assert("kind"@.len() == 4);
    assert("type"@[0] == 't');
    assert("kind"@[0] == 'k');
    assert("event"@.len() == 5);
    assert("replay"@.len() == 6);
    assert("timestamp"@.len() == 9);
}

/// The frame for the present status holds all that it says.
pub proof fn law_the_status_is_sent_as_it_is(raw: serde_json::Value)
    ensures
        event_tree((Event::Status { raw })) matches JsonTree::Object(members) && {
            &&& members.dom() =~= set![
                "type"@,
                "kind"@,
                "raw"@,
            ]
            &&& members["type"@] == JsonTree::Text("event"@)
            &&& members["kind"@] == JsonTree::Text("status"@)
            &&& members["raw"@] == json_tree(raw)
        },
{
    reveal_strlit("type");
    reveal_strlit("kind");
    reveal_strlit("raw");
    assert("raw"@.len() == 3);
    assert("type"@.len() == 4);
    assert("kind"@.len() == 4);
    assert("type"@[0] == 't');
    assert("kind"@[0] == 'k');
}

/// The frame for a value that a driver emits names the driver and the topic, and holds the
/// value as text.
pub proof fn law_an_emitted_value_is_sent_as_text(driver: Seq<char>, topic: Seq<char>, payload: Seq<u8>)
    ensures
        bus_tree(driver, topic, payload) matches JsonTree::Object(members) && {
            &&& members.dom() =~= set![
                "type"@,
                "kind"@,
                "driver"@,
                "topic"@,
                "payload"@,
            ]
            &&& members["type"@] == JsonTree::Text("event"@)
            &&& members["kind"@] == JsonTree::Text("bus"@)
            &&& members["driver"@] == JsonTree::Text(driver)
            &&& members["topic"@] == JsonTree::Text(topic)
            &&& members["payload"@] == JsonTree::Text(lossy_text(payload))
        },
{
    reveal_strlit("type");
    reveal_strlit("kind");
    reveal_strlit("driver");
    reveal_strlit("topic");
    reveal_strlit("payload");
    assert("type"@.len() == 4);
    assert("kind"@.len() == 4);
    assert("type"@[0] == 't');
    assert("kind"@[0] == 'k');
    assert("topic"@.len() == 5);
    assert("driver"@.len() == 6);
    assert("payload"@.len() == 7);
}

} // verus!
