//! The buffer with a plugin's bus connections.

use vstd::prelude::*;

use crate::framing::{
    all_fields, bool_in_field, field_bool, field_text, field_texts, field_views,
    lemma_text_reads_back, lemma_texts_read_back, reads_as, text_in_field, texts_or_empty,
};
use crate::json::{
    json_bool, json_string, json_strings, json_trees, lemma_texts_are_plain, texts_tree, JsonTree,
};
use crate::keyed::{values_viewed, TextMap};
use crate::runtime::buffer::{
    all_redacted, buffer_map, buffer_string, buffer_text, by_key, entries_of,
    law_the_last_entry_under_a_key_counts, BufferEntry,
};
use crate::text::{copied_texts, holds_text, views};

verus! {

/// A bus connection as its plugin may use it.
#[derive(Debug, PartialEq, Eq)]
pub struct BusRuntimeEntry {
    pub driver: String,
    pub granted: bool,
    pub publish: Vec<String>,
    pub subscribe: Vec<String>,
}

pub struct BusRuntimeEntryView {
    pub driver: Seq<char>,
    pub granted: bool,
    pub publish: Seq<Seq<char>>,
    pub subscribe: Seq<Seq<char>>,
}

impl View for BusRuntimeEntry {
    type V = BusRuntimeEntryView;

    open spec fn view(&self) -> BusRuntimeEntryView {
        BusRuntimeEntryView {
            driver: self.driver@,
            granted: self.granted,
            publish: views(self.publish@),
            subscribe: views(self.subscribe@),
        }
    }
}

impl Clone for BusRuntimeEntry {
    fn clone(&self) -> (r: Self)
        ensures
            r@ == self@,
    {
        BusRuntimeEntry {
            driver: self.driver.clone(),
            granted: self.granted,
            publish: copied_texts(&self.publish),
            subscribe: copied_texts(&self.subscribe),
        }
    }
}

impl BufferEntry for BusRuntimeEntry {
    /// Without an approval, no topic.
    open spec fn redacted(entry: BusRuntimeEntryView) -> BusRuntimeEntryView {
        if entry.granted {
            entry
        } else {
            BusRuntimeEntryView { publish: seq![], subscribe: seq![], ..entry }
        }
    }

    open spec fn names() -> Seq<Seq<char>> {
        seq!["driver"@, "granted"@, "publish"@, "subscribe"@]
    }

    open spec fn values(entry: BusRuntimeEntryView) -> Seq<JsonTree> {
        seq![
            JsonTree::Text(entry.driver),
            JsonTree::Bool(entry.granted),
            texts_tree(entry.publish),
            texts_tree(entry.subscribe),
        ]
    }

    open spec fn read(fields: Seq<Option<Seq<char>>>) -> Option<BusRuntimeEntryView> {
        match (
            text_in_field(fields[0]),
            bool_in_field(fields[1]),
            texts_or_empty(fields[2]),
            texts_or_empty(fields[3]),
        ) {
            (Some(driver), Some(granted), Some(publish), Some(subscribe)) => Some(
                BusRuntimeEntryView { driver, granted, publish, subscribe },
            ),
            _ => None,
        }
    }

    open spec fn key(entry: BusRuntimeEntryView) -> Seq<char> {
        entry.driver
    }

    proof fn names_differ() {
        reveal_strlit("driver");
        reveal_strlit("granted");
        reveal_strlit("publish");
        reveal_strlit("subscribe");
        assert("driver"@.len() == 6);
        assert("granted"@.len() == 7 && "publish"@.len() == 7 && "granted"@[0] != "publish"@[0]);
        assert("subscribe"@.len() == 9);
    }

    proof fn values_are_plain(entry: BusRuntimeEntryView) {
        lemma_texts_are_plain(entry.publish);
        lemma_texts_are_plain(entry.subscribe);
    }

    proof fn reads_back(entry: BusRuntimeEntryView, texts: Seq<Seq<char>>) {
        assert(reads_as(texts[0], JsonTree::Text(entry.driver)));
        assert(reads_as(texts[1], JsonTree::Bool(entry.granted)));
        assert(reads_as(texts[2], texts_tree(entry.publish)));
        assert(reads_as(texts[3], texts_tree(entry.subscribe)));
        lemma_text_reads_back(texts[0], entry.driver);
        lemma_texts_read_back(texts[2], entry.publish);
        lemma_texts_read_back(texts[3], entry.subscribe);
        let fields = all_fields(texts);
        assert(fields[0] == Some(texts[0]) && fields[1] == Some(texts[1]));
        assert(fields[2] == Some(texts[2]) && fields[3] == Some(texts[3]));
    }

    fn duplicate(&self) -> (r: Self) {
        self.clone()
    }

    fn name(&self) -> (r: String) {
        self.driver.clone()
    }

    fn field_names() -> (r: Vec<&'static str>) {
        let names: Vec<&'static str> = vec!["driver", "granted", "publish", "subscribe"];
        assert(views(names@) =~= Self::names());
        names
    }

    fn to_values(&self) -> (r: Vec<serde_json::Value>) {
        let none: Vec<String> = Vec::new();
        assert(views(none@) =~= seq![]);
        let (publish, subscribe) = if self.granted {
            (json_strings(&self.publish), json_strings(&self.subscribe))
        } else {
            (json_strings(&none), json_strings(&none))
        };
        let values = vec![
            json_string(self.driver.as_str()),
            json_bool(self.granted),
            publish,
            subscribe,
        ];
        assert(json_trees(values@) =~= Self::values(Self::redacted(self@)));
        values
    }

    fn from_fields(fields: &Vec<Option<&str>>) -> (r: Option<Self>) {
        let ghost all = field_views(fields@);
        assert(all.len() == 4);
        match (
            field_text(fields[0]),
            field_bool(fields[1]),
            field_texts(fields[2]),
            field_texts(fields[3]),
        ) {
            (Some(driver), Some(granted), Some(publish), Some(subscribe)) => Some(
                BusRuntimeEntry { driver, granted, publish, subscribe },
            ),
            _ => None,
        }
    }
}

/// The buffer for connections: a connection that is not approved stands in it
/// without topics.
pub fn bus_json_string(entries: &Vec<BusRuntimeEntry>) -> (r: String)
    ensures
        r@ == buffer_text::<BusRuntimeEntry>(all_redacted::<BusRuntimeEntry>(views(entries@))),
        entries_of::<BusRuntimeEntry>(r@) == all_redacted::<BusRuntimeEntry>(views(entries@)),
{
    buffer_string(entries)
}

/// The connections in a buffer by their driver: none if it cannot be read.
pub fn parse_bus(raw: &str) -> (r: TextMap<BusRuntimeEntry>)
    ensures
        r.well_formed(),
        values_viewed(r.map()) == by_key::<BusRuntimeEntry>(entries_of::<BusRuntimeEntry>(raw@)),
{
    buffer_map(raw)
}

/// Which way a message goes on the bus.
#[derive(Debug, Clone, Copy, PartialEq, Eq, Structural)]
pub enum BusDirection {
    Publish,
    Subscribe,
}

/// Whether a buffer lets its plugin use a topic of a driver: the connection is
/// approved and lists the topic for that direction.
pub open spec fn bus_permitted(
    entries: Map<Seq<char>, BusRuntimeEntryView>,
    driver: Seq<char>,
    topic: Seq<char>,
    direction: BusDirection,
) -> bool {
    &&& entries.dom().contains(driver)
    &&& entries[driver].granted
    &&& match direction {
        BusDirection::Publish => entries[driver].publish.contains(topic),
        BusDirection::Subscribe => entries[driver].subscribe.contains(topic),
    }
}

/// Whether a plugin may use a topic of a driver.
pub fn check_bus_permission(
    entries: &TextMap<BusRuntimeEntry>,
    driver: &str,
    topic: &str,
    direction: BusDirection,
) -> (r: bool)
    requires
        entries.well_formed(),
    ensures
        r == bus_permitted(values_viewed(entries.map()), driver@, topic@, direction),
{
    match entries.get(driver) {
        Some(entry) => entry.granted && match direction {
            BusDirection::Publish => holds_text(&entry.publish, topic),
            BusDirection::Subscribe => holds_text(&entry.subscribe, topic),
        },
        None => false,
    }
}

/// Nothing of a connection that is not approved can be read from its buffer, but
/// that it was asked for: its topics are gone, and no topic may be used.
pub proof fn law_unapproved_connections_disclose_no_topics(
    entry: BusRuntimeEntryView,
    topic: Seq<char>,
    direction: BusDirection,
)
    requires
        !entry.granted,
    ensures
        <BusRuntimeEntry as BufferEntry>::redacted(entry).publish.len() == 0,
        <BusRuntimeEntry as BufferEntry>::redacted(entry).subscribe.len() == 0,
        !bus_permitted(map![entry.driver => entry], entry.driver, topic, direction),
{
}

/// A buffer with connections opens a topic of a driver just if the last entry for that
/// driver is approved and names the topic, for publishing or for subscribing.
pub proof fn law_topics_are_opened_by_the_last_entry(
    raw: Seq<char>,
    driver: Seq<char>,
    topic: Seq<char>,
)
    ensures
        bus_permitted(
            by_key::<BusRuntimeEntry>(entries_of::<BusRuntimeEntry>(raw)),
            driver,
            topic,
            BusDirection::Publish,
        ) <==> exists|i: int, k: int|
            #![trigger entries_of::<BusRuntimeEntry>(raw)[i].publish[k]]
            {
                let entries = entries_of::<BusRuntimeEntry>(raw);
                &&& 0 <= i < entries.len()
                &&& entries[i].driver == driver
                &&& forall|j: int| i < j < entries.len() ==> (#[trigger] entries[j]).driver != driver
                &&& entries[i].granted
                &&& 0 <= k < entries[i].publish.len()
                &&& entries[i].publish[k] == topic
            },
        bus_permitted(
            by_key::<BusRuntimeEntry>(entries_of::<BusRuntimeEntry>(raw)),
            driver,
            topic,
            BusDirection::Subscribe,
        ) <==> exists|i: int, k: int|
            #![trigger entries_of::<BusRuntimeEntry>(raw)[i].subscribe[k]]
            {
                let entries = entries_of::<BusRuntimeEntry>(raw);
                &&& 0 <= i < entries.len()
                &&& entries[i].driver == driver
                &&& forall|j: int| i < j < entries.len() ==> (#[trigger] entries[j]).driver != driver
                &&& entries[i].granted
                &&& 0 <= k < entries[i].subscribe.len()
                &&& entries[i].subscribe[k] == topic
            },
{
    let entries = entries_of::<BusRuntimeEntry>(raw);
    law_the_last_entry_under_a_key_counts::<BusRuntimeEntry>(entries, driver);
    let map = by_key::<BusRuntimeEntry>(entries);
    if map.dom().contains(driver) {
        let some = choose|i: int| #![trigger entries[i]]
            0 <= i < entries.len() && <BusRuntimeEntry as BufferEntry>::key(entries[i]) == driver;
        let at = lemma_last_for(entries, driver, entries.len() as int, some);
        assert(map[driver] == entries[at]);
        if entries[at].publish.contains(topic) {
            let k = choose|k: int| 0 <= k < entries[at].publish.len() && entries[at].publish[k] == topic;
            assert(entries_of::<BusRuntimeEntry>(raw)[at].publish[k] == topic);
        }
        if entries[at].subscribe.contains(topic) {
            let k = choose|k: int|
                0 <= k < entries[at].subscribe.len() && entries[at].subscribe[k] == topic;
            assert(entries_of::<BusRuntimeEntry>(raw)[at].subscribe[k] == topic);
        }
    }
}

proof fn lemma_last_for(
    entries: Seq<BusRuntimeEntryView>,
    driver: Seq<char>,
    to: int,
    some: int,
) -> (at: int)
    requires
        0 <= some < to <= entries.len(),
        entries[some].driver == driver,
        forall|j: int| to <= j < entries.len() ==> (#[trigger] entries[j]).driver != driver,
    ensures
        0 <= at < to,
        entries[at].driver == driver,
        forall|j: int| at < j < entries.len() ==> (#[trigger] entries[j]).driver != driver,
    decreases to,
{
    if entries[to - 1].driver == driver {
        to - 1
    } else {
        lemma_last_for(entries, driver, to - 1, some)
    }
}

/// What a buffer shows of a connection: its driver and whether it is approved, and its
/// topics only if it is.
pub proof fn law_approved_connections_are_shown_whole(entry: BusRuntimeEntryView)
    ensures
        ({
            let shown = <BusRuntimeEntry as BufferEntry>::redacted(entry);
            &&& shown.driver == entry.driver
            &&& shown.granted == entry.granted
            &&& entry.granted ==> shown.publish == entry.publish && shown.subscribe
                == entry.subscribe
        }),
{
}

/// A record is a connection just if it has a driver and says whether it is approved. Topics that
/// it leaves out are none.
pub proof fn law_a_connection_may_leave_out_its_topics(fields: Seq<Option<Seq<char>>>)
    ensures
        <BusRuntimeEntry as BufferEntry>::names() == seq![
            "driver"@,
            "granted"@,
            "publish"@,
            "subscribe"@,
        ],
        fields[0] is None || fields[1] is None ==> <BusRuntimeEntry as BufferEntry>::read(
            fields,
        ) is None,
        <BusRuntimeEntry as BufferEntry>::read(fields) matches Some(entry) ==> {
            &&& text_in_field(fields[0]) == Some(entry.driver)
            &&& bool_in_field(fields[1]) == Some(entry.granted)
            &&& texts_or_empty(fields[2]) == Some(entry.publish)
            &&& texts_or_empty(fields[3]) == Some(entry.subscribe)
            &&& fields[2] is None ==> entry.publish.len() == 0
            &&& fields[3] is None ==> entry.subscribe.len() == 0
        },
{
}

} // verus!
