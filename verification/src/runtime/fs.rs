//! The buffer with the filesystem roots of a plugin or driver.

use vstd::prelude::*;

use crate::framing::{
    all_fields, bool_in_field, field_bool, field_text, field_text_or_empty, field_views,
    lemma_text_reads_back, reads_as, text_in_field, text_or_empty,
};
use crate::json::{json_bool, json_string, json_trees, JsonTree};
use crate::keyed::{values_viewed, TextMap};
use crate::runtime::buffer::{
    all_redacted, buffer_map, buffer_string, buffer_text, by_key, entries_of, BufferEntry,
};
use crate::text::views;

verus! {

/// A filesystem root as its owner may use it.
#[derive(Debug, PartialEq, Eq)]
pub struct FsRuntimeEntry {
    pub name: String,
    pub granted: bool,
    pub mode: String,
    pub path: String,
}

pub struct FsRuntimeEntryView {
    pub name: Seq<char>,
    pub granted: bool,
    pub mode: Seq<char>,
    pub path: Seq<char>,
}

impl View for FsRuntimeEntry {
    type V = FsRuntimeEntryView;

    open spec fn view(&self) -> FsRuntimeEntryView {
        FsRuntimeEntryView {
            name: self.name@,
            granted: self.granted,
            mode: self.mode@,
            path: self.path@,
        }
    }
}

impl Clone for FsRuntimeEntry {
    fn clone(&self) -> (r: Self)
        ensures
            r@ == self@,
    {
        FsRuntimeEntry {
            name: self.name.clone(),
            granted: self.granted,
            mode: self.mode.clone(),
            path: self.path.clone(),
        }
    }
}

impl BufferEntry for FsRuntimeEntry {
    /// Without an approval, no path.
    open spec fn redacted(entry: FsRuntimeEntryView) -> FsRuntimeEntryView {
        if entry.granted {
            entry
        } else {
            FsRuntimeEntryView { path: seq![], ..entry }
        }
    }

    open spec fn names() -> Seq<Seq<char>> {
        seq!["name"@, "granted"@, "mode"@, "path"@]
    }

    open spec fn values(entry: FsRuntimeEntryView) -> Seq<JsonTree> {
        seq![
            JsonTree::Text(entry.name),
            JsonTree::Bool(entry.granted),
            JsonTree::Text(entry.mode),
            JsonTree::Text(entry.path),
        ]
    }

    open spec fn read(fields: Seq<Option<Seq<char>>>) -> Option<FsRuntimeEntryView> {
        match (
            text_in_field(fields[0]),
            bool_in_field(fields[1]),
            text_in_field(fields[2]),
            text_or_empty(fields[3]),
        ) {
            (Some(name), Some(granted), Some(mode), Some(path)) => Some(
                FsRuntimeEntryView { name, granted, mode, path },
            ),
            _ => None,
        }
    }

    open spec fn key(entry: FsRuntimeEntryView) -> Seq<char> {
        entry.name
    }

    proof fn names_differ() {
        reveal_strlit("name");
        reveal_strlit("granted");
        reveal_strlit("mode");
        reveal_strlit("path");
        assert("granted"@.len() == 7);
        assert("name"@.len() == 4 && "mode"@.len() == 4 && "path"@.len() == 4);
        assert("name"@[0] == 'n' && "mode"@[0] == 'm' && "path"@[0] == 'p');
    }

    proof fn values_are_plain(entry: FsRuntimeEntryView) {
    }

    proof fn reads_back(entry: FsRuntimeEntryView, texts: Seq<Seq<char>>) {
        assert(reads_as(texts[0], JsonTree::Text(entry.name)));
        assert(reads_as(texts[1], JsonTree::Bool(entry.granted)));
        assert(reads_as(texts[2], JsonTree::Text(entry.mode)));
        assert(reads_as(texts[3], JsonTree::Text(entry.path)));
        lemma_text_reads_back(texts[0], entry.name);
        lemma_text_reads_back(texts[2], entry.mode);
        lemma_text_reads_back(texts[3], entry.path);
        let fields = all_fields(texts);
        assert(fields[0] == Some(texts[0]) && fields[1] == Some(texts[1]));
        assert(fields[2] == Some(texts[2]) && fields[3] == Some(texts[3]));
    }

    fn duplicate(&self) -> (r: Self) {
        self.clone()
    }

    fn name(&self) -> (r: String) {
        self.name.clone()
    }

    fn field_names() -> (r: Vec<&'static str>) {
        let names: Vec<&'static str> = vec!["name", "granted", "mode", "path"];
        assert(views(names@) =~= Self::names());
        names
    }

    fn to_values(&self) -> (r: Vec<serde_json::Value>) {
        let path = if self.granted {
            self.path.clone()
        } else {
            String::new()
        };
        let values = vec![
            json_string(self.name.as_str()),
            json_bool(self.granted),
            json_string(self.mode.as_str()),
            json_string(path.as_str()),
        ];
        assert(path@ =~= Self::redacted(self@).path);
        assert(json_trees(values@) =~= Self::values(Self::redacted(self@)));
        values
    }

    fn from_fields(fields: &Vec<Option<&str>>) -> (r: Option<Self>) {
        let ghost all = field_views(fields@);
        assert(all.len() == 4);
        match (
            field_text(fields[0]),
            field_bool(fields[1]),
            field_text(fields[2]),
            field_text_or_empty(fields[3]),
        ) {
            (Some(name), Some(granted), Some(mode), Some(path)) => Some(
                FsRuntimeEntry { name, granted, mode, path },
            ),
            _ => None,
        }
    }
}

/// The buffer for filesystem roots: a root that is not approved stands in it
/// without its path.
pub fn filesystem_json_string(entries: &Vec<FsRuntimeEntry>) -> (r: String)
    ensures
        r@ == buffer_text::<FsRuntimeEntry>(all_redacted::<FsRuntimeEntry>(views(entries@))),
        entries_of::<FsRuntimeEntry>(r@) == all_redacted::<FsRuntimeEntry>(views(entries@)),
{
    buffer_string(entries)
}

/// The filesystem roots in a buffer by their name: none if it cannot be read.
pub fn parse_filesystem(raw: &str) -> (r: TextMap<FsRuntimeEntry>)
    ensures
        r.well_formed(),
        values_viewed(r.map()) == by_key::<FsRuntimeEntry>(entries_of::<FsRuntimeEntry>(raw@)),
{
    buffer_map(raw)
}

/// A root that is not approved stands in a buffer with its mode, and without its
/// path.
pub proof fn law_unapproved_roots_disclose_no_path(entry: FsRuntimeEntryView)
    requires
        !entry.granted,
    ensures
        <FsRuntimeEntry as BufferEntry>::redacted(entry).path.len() == 0,
        <FsRuntimeEntry as BufferEntry>::redacted(entry).mode == entry.mode,
        <FsRuntimeEntry as BufferEntry>::redacted(entry).name == entry.name,
{
}

/// What a buffer shows of a root: its name, its mode and whether it is approved, and its path
/// only if it is.
pub proof fn law_approved_roots_are_shown_whole(entry: FsRuntimeEntryView)
    ensures
        ({
            let shown = <FsRuntimeEntry as BufferEntry>::redacted(entry);
            &&& shown.name == entry.name
            &&& shown.granted == entry.granted
            &&& shown.mode == entry.mode
            &&& entry.granted ==> shown.path == entry.path
            &&& !entry.granted ==> shown.path.len() == 0
        }),
{
}

/// A record is a root just if it has a name and a mode and says whether it is approved. A path
/// that it leaves out is empty.
pub proof fn law_a_root_may_leave_out_its_path(fields: Seq<Option<Seq<char>>>)
    ensures
        <FsRuntimeEntry as BufferEntry>::names() == seq!["name"@, "granted"@, "mode"@, "path"@],
        fields[0] is None || fields[1] is None || fields[2] is None
            ==> <FsRuntimeEntry as BufferEntry>::read(fields) is None,
        <FsRuntimeEntry as BufferEntry>::read(fields) matches Some(entry) ==> {
            &&& text_in_field(fields[0]) == Some(entry.name)
            &&& bool_in_field(fields[1]) == Some(entry.granted)
            &&& text_in_field(fields[2]) == Some(entry.mode)
            &&& text_or_empty(fields[3]) == Some(entry.path)
            &&& fields[3] is None ==> entry.path.len() == 0
        },
{
}

} // verus!
