//! The buffer with the sidecars of a plugin or driver.

use vstd::prelude::*;

use crate::framing::{
    all_fields, bool_in_field, field_bool, field_text, field_text_or_empty, field_texts,
    field_view, field_views, lemma_text_reads_back, lemma_texts_read_back, list_items, plain_value,
    read_list, read_plain, reads_alone, reads_as, text_in_field, text_or_empty, texts_or_empty,
};
use crate::json::{
    json_array, json_as_i64, json_bool, json_string, json_strings, json_tree, json_trees, json_u64,
    lemma_texts_are_plain, plain_within, texts_tree, JsonTree,
};
use crate::keyed::{values_viewed, TextMap};
use crate::runtime::buffer::{
    all_redacted, buffer_map, buffer_string, buffer_text, by_key, entries_of, BufferEntry,
};
use crate::text::{copied_texts, decimal, decimal_text, joined, views};

verus! {

/// A sidecar as its owner may use it.
#[derive(Debug, PartialEq, Eq)]
pub struct SidecarRuntimeEntry {
    pub name: String,
    pub granted: bool,
    pub command: String,
    pub args: Vec<String>,
    pub ports: Vec<u16>,
}

pub struct SidecarRuntimeEntryView {
    pub name: Seq<char>,
    pub granted: bool,
    pub command: Seq<char>,
    pub args: Seq<Seq<char>>,
    pub ports: Seq<u16>,
}

impl View for SidecarRuntimeEntry {
    type V = SidecarRuntimeEntryView;

    open spec fn view(&self) -> SidecarRuntimeEntryView {
        SidecarRuntimeEntryView {
            name: self.name@,
            granted: self.granted,
            command: self.command@,
            args: views(self.args@),
            ports: self.ports@,
        }
    }
}

impl Clone for SidecarRuntimeEntry {
    fn clone(&self) -> (r: Self)
        ensures
            r@ == self@,
    {
        let ports = self.ports.clone();
        assert(ports@ =~= self.ports@);
        SidecarRuntimeEntry {
            name: self.name.clone(),
            granted: self.granted,
            command: self.command.clone(),
            args: copied_texts(&self.args),
            ports,
        }
    }
}

/// What stands in a buffer for ports.
pub open spec fn ports_tree(ports: Seq<u16>) -> JsonTree {
    JsonTree::Array(ports.map_values(|port: u16| JsonTree::Int(port as int)))
}

/// The port that a value writes down, if it is one.
pub open spec fn port_of_value(value: Seq<char>) -> Option<u16> {
    match plain_value(value) {
        Some(JsonTree::Int(n)) => if 0 <= n <= u16::MAX {
            Some(n as u16)
        } else {
            None
        },
        _ => None,
    }
}

/// The ports that a field lists: none if it is left out, and nothing if it is
/// something else.
pub open spec fn ports_or_empty(field: Option<Seq<char>>) -> Option<Seq<u16>> {
    match field {
        Some(value) => match list_items(value) {
            Some(items) => if forall|i: int|
                0 <= i < items.len() ==> port_of_value(#[trigger] items[i]) is Some {
                Some(Seq::new(items.len(), |i: int| port_of_value(items[i])->0))
            } else {
                None
            },
            None => None,
        },
        None => Some(seq![]),
    }
}

fn ports_json(ports: &Vec<u16>) -> (r: serde_json::Value)
    ensures
        json_tree(r) == ports_tree(ports@),
{
    let mut items: Vec<serde_json::Value> = Vec::new();
    let mut i: usize = 0;
    while i < ports.len()
        invariant
            i <= ports.len(),
            items.len() == i,
            forall|j: int|
                0 <= j < i ==> json_tree(#[trigger] items@[j]) == JsonTree::Int(ports@[j] as int),
        decreases ports.len() - i,
    {
        items.push(json_u64(ports[i] as u64));
        i = i + 1;
    }
    assert(json_trees(items@) =~= ports@.map_values(|port: u16| JsonTree::Int(port as int)));
    json_array(items)
}

fn read_port(value: &str) -> (r: Option<u16>)
    ensures
        r == port_of_value(value@),
{
    match read_plain(Some(value)) {
        Some(value) => match json_as_i64(&value) {
            Some(n) => if n < 0 || n > 65535 {
                None
            } else {
                Some(n as u16)
            },
            None => None,
        },
        None => None,
    }
}

fn field_ports(field: Option<&str>) -> (r: Option<Vec<u16>>)
    ensures
        r is Some <==> ports_or_empty(field_view(field)) is Some,
        r is Some ==> ports_or_empty(field_view(field)) == Some(r->0@),
{
    let mut ports: Vec<u16> = Vec::new();
    let value = match field {
        Some(value) => value,
        None => {
            assert(ports@ =~= seq![]);
            return Some(ports);
        },
    };
    let items = match read_list(value) {
        Some(items) => items,
        None => {
            return None;
        },
    };
    let ghost all = views(items@);
    let mut i: usize = 0;
    while i < items.len()
        invariant
            i <= items.len(),
            all == views(items@),
            field_view(field) == Some(value@),
            list_items(value@) == Some(all),
            ports.len() == i,
            forall|j: int| 0 <= j < i ==> port_of_value(#[trigger] all[j]) == Some(ports@[j]),
        decreases items.len() - i,
    {
        assert(all[i as int] == items@[i as int]@);
        match read_port(items[i]) {
            Some(port) => {
                ports.push(port);
            },
            None => {
                assert(port_of_value(all[i as int]) is None);
                return None;
            },
        }
        i = i + 1;
    }
    assert(ports_or_empty(field_view(field))->0 =~= ports@);
    Some(ports)
}

proof fn lemma_ports_read_back(value: Seq<char>, ports: Seq<u16>)
    requires
        reads_as(value, ports_tree(ports)),
    ensures
        ports_or_empty(Some(value)) == Some(ports),
{
    let items = ports.map_values(|port: u16| JsonTree::Int(port as int));
    assert(ports_tree(ports) == JsonTree::Array(items));
    let read = list_items(value)->0;
    assert forall|i: int| 0 <= i < read.len() implies port_of_value(#[trigger] read[i]) == Some(
        ports[i],
    ) by {
        assert(reads_alone(read[i], items[i]));
    }
    assert(ports_or_empty(Some(value))->0 =~= ports);
}

impl BufferEntry for SidecarRuntimeEntry {
    /// Without an approval, nothing that a process could be started with.
    open spec fn redacted(entry: SidecarRuntimeEntryView) -> SidecarRuntimeEntryView {
        if entry.granted {
            entry
        } else {
            SidecarRuntimeEntryView { command: seq![], args: seq![], ports: seq![], ..entry }
        }
    }

    open spec fn names() -> Seq<Seq<char>> {
        seq!["name"@, "granted"@, "command"@, "args"@, "ports"@]
    }

    open spec fn values(entry: SidecarRuntimeEntryView) -> Seq<JsonTree> {
        seq![
            JsonTree::Text(entry.name),
            JsonTree::Bool(entry.granted),
            JsonTree::Text(entry.command),
            texts_tree(entry.args),
            ports_tree(entry.ports),
        ]
    }

    open spec fn read(fields: Seq<Option<Seq<char>>>) -> Option<SidecarRuntimeEntryView> {
        match (
            text_in_field(fields[0]),
            bool_in_field(fields[1]),
            text_or_empty(fields[2]),
            texts_or_empty(fields[3]),
            ports_or_empty(fields[4]),
        ) {
            (Some(name), Some(granted), Some(command), Some(args), Some(ports)) => Some(
                SidecarRuntimeEntryView { name, granted, command, args, ports },
            ),
            _ => None,
        }
    }

    open spec fn key(entry: SidecarRuntimeEntryView) -> Seq<char> {
        entry.name
    }

    proof fn names_differ() {
        reveal_strlit("name");
        reveal_strlit("granted");
        reveal_strlit("command");
        reveal_strlit("args");
        reveal_strlit("ports");
        assert("granted"@.len() == 7 && "command"@.len() == 7 && "granted"@[0] != "command"@[0]);
        assert("name"@.len() == 4 && "args"@.len() == 4 && "name"@[0] != "args"@[0]);
        assert("ports"@.len() == 5);
    }

    proof fn values_are_plain(entry: SidecarRuntimeEntryView) {
        lemma_texts_are_plain(entry.args);
        let items = entry.ports.map_values(|port: u16| JsonTree::Int(port as int));
        assert(ports_tree(entry.ports) == JsonTree::Array(items));
        assert forall|i: int| 0 <= i < items.len() implies plain_within(
            #[trigger] items[i],
            126,
        ) by {}
    }

    proof fn reads_back(entry: SidecarRuntimeEntryView, texts: Seq<Seq<char>>) {
        assert(reads_as(texts[0], JsonTree::Text(entry.name)));
        assert(reads_as(texts[1], JsonTree::Bool(entry.granted)));
        assert(reads_as(texts[2], JsonTree::Text(entry.command)));
        assert(reads_as(texts[3], texts_tree(entry.args)));
        assert(reads_as(texts[4], ports_tree(entry.ports)));
        lemma_text_reads_back(texts[0], entry.name);
        lemma_text_reads_back(texts[2], entry.command);
        lemma_texts_read_back(texts[3], entry.args);
        lemma_ports_read_back(texts[4], entry.ports);
        let fields = all_fields(texts);
        assert(fields[0] == Some(texts[0]) && fields[1] == Some(texts[1]));
        assert(fields[2] == Some(texts[2]) && fields[3] == Some(texts[3]));
        assert(fields[4] == Some(texts[4]));
    }

    fn duplicate(&self) -> (r: Self) {
        self.clone()
    }

    fn name(&self) -> (r: String) {
        self.name.clone()
    }

    fn field_names() -> (r: Vec<&'static str>) {
        let names: Vec<&'static str> = vec!["name", "granted", "command", "args", "ports"];
        assert(views(names@) =~= Self::names());
        names
    }

    fn to_values(&self) -> (r: Vec<serde_json::Value>) {
        let no_command = String::new();
        let no_args: Vec<String> = Vec::new();
        let no_ports: Vec<u16> = Vec::new();
        assert(no_command@ =~= seq![]);
        assert(views(no_args@) =~= seq![]);
        assert(no_ports@ =~= seq![]);
        let (command, args, ports) = if self.granted {
            (
                json_string(self.command.as_str()),
                json_strings(&self.args),
                ports_json(&self.ports),
            )
        } else {
            (
                json_string(no_command.as_str()),
                json_strings(&no_args),
                ports_json(&no_ports),
            )
        };
        let values = vec![
            json_string(self.name.as_str()),
            json_bool(self.granted),
            command,
            args,
            ports,
        ];
        assert(json_trees(values@) =~= Self::values(Self::redacted(self@)));
        values
    }

    fn from_fields(fields: &Vec<Option<&str>>) -> (r: Option<Self>) {
        let ghost all = field_views(fields@);
        assert(all.len() == 5);
        match (
            field_text(fields[0]),
            field_bool(fields[1]),
            field_text_or_empty(fields[2]),
            field_texts(fields[3]),
            field_ports(fields[4]),
        ) {
            (Some(name), Some(granted), Some(command), Some(args), Some(ports)) => Some(
                SidecarRuntimeEntry { name, granted, command, args, ports },
            ),
            _ => None,
        }
    }
}

/// The buffer for sidecars: a sidecar that is not approved stands in it without
/// its command, arguments and ports.
pub fn sidecars_json_string(entries: &Vec<SidecarRuntimeEntry>) -> (r: String)
    ensures
        r@ == buffer_text::<SidecarRuntimeEntry>(
            all_redacted::<SidecarRuntimeEntry>(views(entries@)),
        ),
        entries_of::<SidecarRuntimeEntry>(r@) == all_redacted::<SidecarRuntimeEntry>(
            views(entries@),
        ),
{
    buffer_string(entries)
}

/// The sidecars in a buffer by their name: none if it cannot be read.
pub fn parse_sidecars(raw: &str) -> (r: TextMap<SidecarRuntimeEntry>)
    ensures
        r.well_formed(),
        values_viewed(r.map()) == by_key::<SidecarRuntimeEntry>(
            entries_of::<SidecarRuntimeEntry>(raw@),
        ),
{
    buffer_map(raw)
}

/// The address of a port of this machine.
pub open spec fn local_host(port: u16) -> Seq<char> {
    "http://127.0.0.1:"@ + decimal(port as nat)
}

/// The addresses of the approved sidecars' ports, in order.
pub open spec fn local_hosts(entries: Seq<SidecarRuntimeEntryView>) -> Seq<Seq<char>>
    decreases entries.len(),
{
    if entries.len() == 0 {
        seq![]
    } else {
        let last = entries.last();
        local_hosts(entries.drop_last()) + if last.granted {
            last.ports.map_values(|port: u16| local_host(port))
        } else {
            seq![]
        }
    }
}

/// The hosts that come with approved sidecars: an owner may talk to their
/// ports.
pub fn implicit_http_hosts(entries: &Vec<SidecarRuntimeEntry>) -> (r: Vec<String>)
    ensures
        views(r@) == local_hosts(views(entries@)),
{
    let mut hosts: Vec<String> = Vec::new();
    let mut i: usize = 0;
    assert(views(hosts@) =~= local_hosts(views(entries@).take(0)));
    while i < entries.len()
        invariant
            i <= entries.len(),
            views(hosts@) == local_hosts(views(entries@).take(i as int)),
        decreases entries.len() - i,
    {
        let entry = &entries[i];
        let ghost start = views(hosts@);
        let ghost all = entry@.ports.map_values(|port: u16| local_host(port));
        if entry.granted {
            let mut p: usize = 0;
            assert(start + all.take(0) =~= start);
            while p < entry.ports.len()
                invariant
                    p <= entry.ports.len(),
                    all == entry@.ports.map_values(|port: u16| local_host(port)),
                    views(hosts@) == start + all.take(p as int),
                decreases entry.ports.len() - p,
            {
                let ghost before = hosts@;
                hosts.push(
                    joined("http://127.0.0.1:", decimal_text(entry.ports[p] as u64).as_str()),
                );
                assert(views(hosts@) =~= views(before).push(all[p as int]));
                assert(start + all.take(p + 1) =~= (start + all.take(p as int)).push(all[p as int]));
                p = p + 1;
            }
            assert(all.take(all.len() as int) =~= all);
        } else {
            assert(start + seq![] =~= start);
        }
        proof {
            let taken = views(entries@).take(i + 1);
            assert(taken.drop_last() =~= views(entries@).take(i as int));
            assert(taken.last() == entry@);
        }
        i = i + 1;
    }
    assert(views(entries@).take(entries.len() as int) =~= views(entries@));
    hosts
}

/// What a buffer shows of a sidecar: its name and whether it is approved, and what it is
/// started with only if it is.
pub proof fn law_approved_sidecars_are_shown_whole(entry: SidecarRuntimeEntryView)
    ensures
        ({
            let shown = <SidecarRuntimeEntry as BufferEntry>::redacted(entry);
            &&& shown.name == entry.name
            &&& shown.granted == entry.granted
            &&& entry.granted ==> shown.command == entry.command && shown.args == entry.args
                && shown.ports == entry.ports
            &&& !entry.granted ==> shown.command.len() == 0 && shown.args.len() == 0
                && shown.ports.len() == 0
        }),
{
}

/// The hosts that come with sidecars are the ports of approved ones on this machine, in
/// order: a further sidecar adds a host for each of its ports if it is approved, and none if
/// it is not.
pub proof fn law_approved_sidecars_open_their_ports(
    entries: Seq<SidecarRuntimeEntryView>,
    entry: SidecarRuntimeEntryView,
)
    ensures
        local_hosts(seq![]).len() == 0,
        !entry.granted ==> local_hosts(entries.push(entry)) == local_hosts(entries),
        entry.granted ==> {
            let before = local_hosts(entries);
            let after = local_hosts(entries.push(entry));
            &&& after.len() == before.len() + entry.ports.len()
            &&& forall|i: int| 0 <= i < before.len() ==> #[trigger] after[i] == before[i]
            &&& forall|i: int|
                0 <= i < entry.ports.len() ==> #[trigger] after[before.len() + i]
                    == "http://127.0.0.1:"@ + decimal(entry.ports[i] as nat)
        },
{
    assert(entries.push(entry).drop_last() =~= entries);
    if !entry.granted {
        assert(local_hosts(entries) + seq![] =~= local_hosts(entries));
    }
}

/// A record is a sidecar just if it has a name and says whether it is approved. A command,
/// arguments and ports that it leaves out are none.
pub proof fn law_a_sidecar_may_leave_out_what_it_is_started_with(fields: Seq<Option<Seq<char>>>)
    ensures
        <SidecarRuntimeEntry as BufferEntry>::names() == seq![
            "name"@,
            "granted"@,
            "command"@,
            "args"@,
            "ports"@,
        ],
        fields[0] is None || fields[1] is None ==> <SidecarRuntimeEntry as BufferEntry>::read(
            fields,
        ) is None,
        <SidecarRuntimeEntry as BufferEntry>::read(fields) matches Some(entry) ==> {
            &&& text_in_field(fields[0]) == Some(entry.name)
            &&& bool_in_field(fields[1]) == Some(entry.granted)
            &&& text_or_empty(fields[2]) == Some(entry.command)
            &&& texts_or_empty(fields[3]) == Some(entry.args)
            &&& ports_or_empty(fields[4]) == Some(entry.ports)
            &&& fields[2] is None ==> entry.command.len() == 0
            &&& fields[3] is None ==> entry.args.len() == 0
            &&& fields[4] is None ==> entry.ports.len() == 0
        },
{
}

/// A value is a port just if it is an integer from 0 to 65535, and it is that port.
pub proof fn law_ports_are_small_numbers(value: Seq<char>)
    ensures
        port_of_value(value) is Some <==> (plain_value(value) matches Some(JsonTree::Int(n)) && 0
            <= n <= 65535),
        port_of_value(value) matches Some(port) ==> plain_value(value) == Some(
            JsonTree::Int(port as int),
        ),
{
}

} // verus!
