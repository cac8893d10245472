//! Buffers that list what was approved.
//!
//! The registry writes a buffer whenever an approval changes, and the host of
//! the plugin or driver reads it at every use. What is not approved stands in it
//! without what only an approval discloses.

use vstd::prelude::*;

use crate::framing::{
    all_fields, field_views, lemma_records_read_back, printed, read_records, reads_as,
    record_reads, record_text, record_views, records_in, records_text, write_list, write_record,
};
use crate::json::{json_tree, json_trees, plain_within, JsonTree};
use crate::keyed::{values_viewed, TextMap};
use crate::text::views;

verus! {

/// What a buffer lists.
pub trait BufferEntry: View + Clone + Sized {
    /// The entry without what only an approval discloses.
    spec fn redacted(entry: Self::V) -> Self::V;

    /// The names of the fields of an entry, in the order in which they are written.
    spec fn names() -> Seq<Seq<char>>;

    /// The values of the fields of an entry.
    spec fn values(entry: Self::V) -> Seq<JsonTree>;

    /// The entry with fields that were read.
    spec fn read(fields: Seq<Option<Seq<char>>>) -> Option<Self::V>;

    /// What an entry is looked up by.
    spec fn key(entry: Self::V) -> Seq<char>;

    /// No two fields have one name.
    proof fn names_differ()
        ensures
            Self::names().len() > 0,
            Self::names().no_duplicates(),
    ;

    /// Every field has a value that can be read.
    proof fn values_are_plain(entry: Self::V)
        ensures
            Self::values(entry).len() == Self::names().len(),
            forall|i: int|
                0 <= i < Self::values(entry).len() ==> plain_within(
                    #[trigger] Self::values(entry)[i],
                    127,
                ),
    ;

    /// An entry reads back as it was written.
    proof fn reads_back(entry: Self::V, texts: Seq<Seq<char>>)
        requires
            texts.len() == Self::values(entry).len(),
            forall|i: int|
                0 <= i < texts.len() ==> reads_as(#[trigger] texts[i], Self::values(entry)[i]),
        ensures
            Self::read(all_fields(texts)) == Some(entry),
    ;

    fn duplicate(&self) -> (r: Self)
        ensures
            r@ == self@,
    ;

    fn name(&self) -> (r: String)
        ensures
            r@ == Self::key(self@),
    ;

    fn field_names() -> (r: Vec<&'static str>)
        ensures
            views(r@) == Self::names(),
    ;

    fn to_values(&self) -> (r: Vec<serde_json::Value>)
        ensures
            json_trees(r@) == Self::values(Self::redacted(self@)),
    ;

    fn from_fields(fields: &Vec<Option<&str>>) -> (r: Option<Self>)
        requires
            fields.len() == Self::names().len(),
        ensures
            r is Some <==> Self::read(field_views(fields@)) is Some,
            r is Some ==> Self::read(field_views(fields@)) == Some(r->0@),
    ;
}

/// The entries as a buffer discloses them.
pub open spec fn all_redacted<E: BufferEntry>(entries: Seq<E::V>) -> Seq<E::V> {
    entries.map_values(|entry: E::V| E::redacted(entry))
}

/// What is written for the fields of each entry.
pub open spec fn written<E: BufferEntry>(entries: Seq<E::V>) -> Seq<Seq<Seq<char>>> {
    entries.map_values(|entry: E::V| printed(E::values(entry)))
}

/// The buffer with these entries: a list of records.
pub open spec fn buffer_text<E: BufferEntry>(entries: Seq<E::V>) -> Seq<char> {
    records_text(E::names(), written::<E>(entries))
}

/// The entries that records stand for: nothing unless all of them stand for one.
pub open spec fn entries_in<E: BufferEntry>(records: Seq<Seq<Option<Seq<char>>>>) -> Option<
    Seq<E::V>,
> {
    if forall|i: int| 0 <= i < records.len() ==> E::read(#[trigger] records[i]) is Some {
        Some(Seq::new(records.len(), |i: int| E::read(records[i])->0))
    } else {
        None
    }
}

/// The entries that a buffer lists: none if it cannot be read.
pub open spec fn entries_of<E: BufferEntry>(raw: Seq<char>) -> Seq<E::V> {
    match records_in(raw, E::names()) {
        Some(records) => match entries_in::<E>(records) {
            Some(entries) => entries,
            None => seq![],
        },
        None => seq![],
    }
}

/// Entries by what they are looked up by. Of two under one key the later counts.
pub open spec fn by_key<E: BufferEntry>(entries: Seq<E::V>) -> Map<Seq<char>, E::V>
    decreases entries.len(),
{
    if entries.len() == 0 {
        Map::empty()
    } else {
        by_key::<E>(entries.drop_last()).insert(E::key(entries.last()), entries.last())
    }
}

/// The buffer for entries.
pub(crate) fn buffer_string<E: BufferEntry>(entries: &Vec<E>) -> (r: String)
    ensures
        r@ == buffer_text::<E>(all_redacted::<E>(views(entries@))),
        entries_of::<E>(r@) == all_redacted::<E>(views(entries@)),
{
    let names = E::field_names();
    let ghost shown = all_redacted::<E>(views(entries@));
    let ghost records = written::<E>(shown);
    let ghost values = shown.map_values(|entry: E::V| E::values(entry));
    proof {
        E::names_differ();
    }
    let mut items: Vec<String> = Vec::new();
    let mut i: usize = 0;
    while i < entries.len()
        invariant
            i <= entries.len(),
            views(names@) == E::names(),
            E::names().no_duplicates(),
            shown == all_redacted::<E>(views(entries@)),
            records == written::<E>(shown),
            values == shown.map_values(|entry: E::V| E::values(entry)),
            items.len() == i,
            forall|j: int|
                0 <= j < i ==> (#[trigger] items@[j])@ == record_text(E::names(), records[j]),
            forall|j: int|
                0 <= j < i ==> record_reads(E::names(), #[trigger] records[j], values[j]),
        decreases entries.len() - i,
    {
        let fields = entries[i].to_values();
        proof {
            E::values_are_plain(shown[i as int]);
            assert(shown[i as int] == E::redacted(entries@[i as int]@));
            assert forall|j: int| 0 <= j < fields.len() implies plain_within(
                json_tree(#[trigger] fields@[j]),
                127,
            ) by {
                assert(E::values(shown[i as int])[j] == json_trees(fields@)[j]);
            }
        }
        items.push(write_record(&names, &fields));
        i = i + 1;
    }
    assert(views(items@) =~= records.map_values(
        |texts: Seq<Seq<char>>| record_text(E::names(), texts),
    ));
    proof {
        lemma_records_read_back(E::names(), records, values);
        let read = records.map_values(|texts: Seq<Seq<char>>| all_fields(texts));
        assert forall|j: int| 0 <= j < read.len() implies E::read(#[trigger] read[j]) == Some(
            shown[j],
        ) by {
            assert(record_reads(E::names(), records[j], values[j]));
            E::reads_back(shown[j], records[j]);
        }
        assert(entries_in::<E>(read)->0 =~= shown);
    }
    write_list(&items)
}

/// The entries in a buffer, in its order: none if it cannot be read.
pub(crate) fn buffer_list<E: BufferEntry>(raw: &str) -> (r: Vec<E>)
    ensures
        views(r@) == entries_of::<E>(raw@),
{
    let mut entries: Vec<E> = Vec::new();
    assert(views(entries@) =~= seq![]);
    let names = E::field_names();
    proof {
        E::names_differ();
    }
    let records = match read_records(raw, &names) {
        Some(records) => records,
        None => {
            return entries;
        },
    };
    let ghost all = record_views(records@);
    assert(names.len() == views(names@).len());
    let mut i: usize = 0;
    while i < records.len()
        invariant
            i <= records.len(),
            all == record_views(records@),
            records_in(raw@, E::names()) == Some(all),
            forall|j: int|
                0 <= j < records.len() ==> (#[trigger] records@[j]).len() == E::names().len(),
            entries.len() == i,
            forall|j: int| 0 <= j < i ==> E::read(#[trigger] all[j]) == Some(entries@[j]@),
        decreases records.len() - i,
    {
        assert(all[i as int] == field_views(records@[i as int]@));
        match E::from_fields(&records[i]) {
            Some(entry) => {
                entries.push(entry);
            },
            None => {
                let none: Vec<E> = Vec::new();
                assert(views(none@) =~= seq![]);
                assert(!(E::read(all[i as int]) is Some));
                return none;
            },
        }
        i = i + 1;
    }
    assert(entries_in::<E>(all)->0 =~= views(entries@));
    entries
}

/// The entries in a buffer by their key: none if it cannot be read.
pub(crate) fn buffer_map<E: BufferEntry>(raw: &str) -> (r: TextMap<E>)
    ensures
        r.well_formed(),
        values_viewed(r.map()) == by_key::<E>(entries_of::<E>(raw@)),
{
    let entries: Vec<E> = buffer_list(raw);
    let mut map: TextMap<E> = TextMap::new();
    let mut i: usize = 0;
    assert(values_viewed(map.map()) =~= by_key::<E>(views(entries@).take(0)));
    while i < entries.len()
        invariant
            i <= entries.len(),
            map.well_formed(),
            values_viewed(map.map()) == by_key::<E>(views(entries@).take(i as int)),
        decreases entries.len() - i,
    {
        let entry = entries[i].duplicate();
        let ghost before = map.map();
        map.insert(entry.name(), entry);
        proof {
            let taken = views(entries@).take(i + 1);
            assert(taken.drop_last() =~= views(entries@).take(i as int));
            assert(taken.last() == entries@[i as int]@);
            assert(values_viewed(map.map()) =~= values_viewed(before).insert(
                E::key(entries@[i as int]@),
                entries@[i as int]@,
            ));
        }
        i = i + 1;
    }
    assert(views(entries@).take(entries.len() as int) =~= views(entries@));
    map
}

/// Of the entries under one key the last counts: an entry that no later one repeats is
/// found under its key, and nothing is found under a key that no entry has.
pub proof fn law_the_last_entry_under_a_key_counts<E: BufferEntry>(
    entries: Seq<E::V>,
    key: Seq<char>,
)
    ensures
        by_key::<E>(entries).dom().contains(key) <==> exists|i: int| #![trigger entries[i]]
            0 <= i < entries.len() && E::key(entries[i]) == key,
        forall|i: int| #![trigger entries[i]]
            0 <= i < entries.len() && E::key(entries[i]) == key && (forall|j: int|
                i < j < entries.len() ==> E::key(#[trigger] entries[j]) != key) ==> by_key::<E>(
                entries,
            ).dom().contains(key) && by_key::<E>(entries)[key] == entries[i],
    decreases entries.len(),
{
    if entries.len() > 0 {
        let rest = entries.drop_last();
        let last = entries.len() - 1;
        law_the_last_entry_under_a_key_counts::<E>(rest, key);
        if E::key(entries[last]) == key {
            assert(by_key::<E>(entries).dom().contains(key));
        } else {
            if by_key::<E>(rest).dom().contains(key) {
                let i = choose|i: int| #![trigger rest[i]]
                    0 <= i < rest.len() && E::key(rest[i]) == key;
                assert(entries[i] == rest[i]);
            }
            assert forall|i: int| #![trigger entries[i]]
                0 <= i < entries.len() && E::key(entries[i]) == key implies by_key::<E>(
                entries,
            ).dom().contains(key) by {
                assert(rest[i] == entries[i]);
            }
        }
        assert forall|i: int| #![trigger entries[i]]
            0 <= i < entries.len() && E::key(entries[i]) == key && (forall|j: int|
                i < j < entries.len() ==> E::key(#[trigger] entries[j]) != key) implies by_key::<E>(
            entries,
        ).dom().contains(key) && by_key::<E>(entries)[key] == entries[i] by {
            if i < last {
                assert(rest[i] == entries[i]);
                assert(E::key(entries[last]) != key);
                assert forall|j: int| i < j < rest.len() implies E::key(#[trigger] rest[j])
                    != key by {
                    assert(entries[j] == rest[j]);
                }
            }
        }
    }
}

/// A buffer that cannot be read lists nothing, and one that can be read lists an entry for
/// each of its records in order, as long as each stands for one.
pub proof fn law_a_buffer_lists_all_or_nothing<E: BufferEntry>(raw: Seq<char>)
    ensures
        records_in(raw, E::names()) is None ==> entries_of::<E>(raw).len() == 0,
        records_in(raw, E::names()) matches Some(records) ==> {
            ||| entries_of::<E>(raw).len() == 0 && exists|i: int|
                0 <= i < records.len() && E::read(#[trigger] records[i]) is None
            ||| entries_of::<E>(raw).len() == records.len() && forall|i: int|
                0 <= i < records.len() ==> E::read(#[trigger] records[i]) == Some(
                    entries_of::<E>(raw)[i],
                )
        },
{
}

} // verus!
