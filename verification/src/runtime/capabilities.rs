//! The buffer with the hosts that a plugin or driver may talk to.

use vstd::prelude::*;

use crate::json::{
    json_get, json_object, json_parse, json_print, json_read, json_strings, json_text,
    lemma_plain_is_monotonic, lemma_texts_are_plain, map_insert, map_new, member, plain_within,
    no_members, raw_key, strings_of, texts_tree, tree_texts, JsonTree,
};
use crate::text::views;

verus! {

/// What stands in the buffer for hosts.
pub open spec fn hosts_tree(hosts: Seq<Seq<char>>) -> JsonTree {
    JsonTree::Object(no_members().insert("hosts"@, texts_tree(hosts)))
}

/// The hosts in a buffer: none if it cannot be read.
pub open spec fn hosts_of(raw: Seq<char>) -> Seq<Seq<char>> {
    match json_parse(raw) {
        Some(tree) => match member(tree, "hosts"@) {
            Some(hosts) => match tree_texts(hosts) {
                Some(hosts) => hosts,
                None => seq![],
            },
            None => seq![],
        },
        None => seq![],
    }
}

/// The buffer for hosts.
pub fn capabilities_json_string(hosts: &Vec<String>) -> (r: String)
    ensures
        r@ == json_text(hosts_tree(views(hosts@))),
        hosts_of(r@) == views(hosts@),
{
    let mut members = map_new();
    map_insert(&mut members, "hosts", json_strings(hosts));
    proof {
        let tree = hosts_tree(views(hosts@));
        lemma_texts_are_plain(views(hosts@));
        let all = tree->Object_0;
        reveal_strlit("$serde_json::private::RawValue");
        reveal_strlit("hosts");
        assert(raw_key().len() == 30 && "hosts"@.len() == 5);
        assert(!all.dom().contains(raw_key()));
        assert forall|key: Seq<char>| all.dom().contains(key) implies plain_within(
            #[trigger] all[key],
            1,
        ) by {
            assert(key == "hosts"@);
        }
        assert(plain_within(tree, 2));
        lemma_plain_is_monotonic(tree, 2, 127);
    }
    json_print(&json_object(members))
}

/// The hosts in a buffer: none if it cannot be read.
pub fn parse_capability_hosts(raw: &str) -> (r: Vec<String>)
    ensures
        views(r@) == hosts_of(raw@),
{
    let none: Vec<String> = Vec::new();
    assert(views(none@) =~= seq![]);
    match json_read(raw) {
        Some(value) => match json_get(&value, "hosts") {
            Some(hosts) => match strings_of(hosts) {
                Some(hosts) => hosts,
                None => none,
            },
            None => none,
        },
        None => none,
    }
}

/// A buffer lists the hosts of its object, if each of them is a text. Any other buffer
/// lists none.
pub proof fn law_a_buffer_without_texts_lists_no_host(raw: Seq<char>)
    ensures
        json_parse(raw) is None ==> hosts_of(raw).len() == 0,
        json_parse(raw) matches Some(tree) ==> {
            &&& !(tree is Object) ==> hosts_of(raw).len() == 0
            &&& tree matches JsonTree::Object(members) ==> {
                &&& !members.dom().contains("hosts"@) ==> hosts_of(raw).len() == 0
                &&& members.dom().contains("hosts"@) && !(members["hosts"@] is Array)
                    ==> hosts_of(raw).len() == 0
                &&& members.dom().contains("hosts"@) ==> (members["hosts"@] matches JsonTree::Array(
                    items,
                ) ==> {
                    ||| hosts_of(raw).len() == items.len() && forall|i: int|
                        0 <= i < items.len() ==> #[trigger] items[i] == JsonTree::Text(
                            hosts_of(raw)[i],
                        )
                    ||| hosts_of(raw).len() == 0 && exists|i: int|
                        0 <= i < items.len() && !((#[trigger] items[i]) is Text)
                })
            }
        },
{
}

} // verus!
