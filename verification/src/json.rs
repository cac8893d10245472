//! JSON values of `serde_json`, described by the tree that each one holds.
//!
//! A value stays a `serde_json::Value` throughout the library. What is known of
//! one is its tree, [`json_tree`], and the functions here say what reading,
//! building, printing and parsing do to that tree.

use vstd::prelude::*;
use vstd::utf8::{decode_utf8, valid_utf8};

use crate::framing::reads_as;
use crate::text::views;

verus! {

/// What a JSON value holds.
///
/// A number that is no integer is described by the digits that are printed for
/// it.
pub enum JsonTree {
    Null,
    Bool(bool),
    Int(int),
    Float(Seq<char>),
    Text(Seq<char>),
    Array(Seq<JsonTree>),
    Object(Map<Seq<char>, JsonTree>),
}

/// `serde_json::Value`.
#[verifier::external_type_specification]
#[verifier::external_body]
pub struct ExValue(serde_json::Value);

/// `serde_json::Map`, the members of an object.
#[verifier::external_type_specification]
#[verifier::external_body]
#[verifier::reject_recursive_types(K)]
#[verifier::reject_recursive_types(V)]
pub struct ExMap<K, V>(serde_json::Map<K, V>);

/// What a value holds.
pub uninterp spec fn json_tree(value: serde_json::Value) -> JsonTree;

/// What the members of an object hold.
pub uninterp spec fn json_members(map: serde_json::Map<String, serde_json::Value>) -> Map<Seq<char>, JsonTree>;

/// The text that `serde_json` prints for a tree: without white space, and the
/// members of an object in ascending order of their keys.
pub uninterp spec fn json_text(tree: JsonTree) -> Seq<char>;

/// The tree that `serde_json` reads from a text, if the text is JSON.
pub uninterp spec fn json_parse(text: Seq<char>) -> Option<JsonTree>;

/// How many characters of a text its first JSON value takes, with the white space
/// before it, if it starts with one.
pub uninterp spec fn json_head(text: Seq<char>) -> Option<nat>;

/// The tree that is read from bytes: what the text that they encode stands for, and
/// nothing if they encode no text.
pub open spec fn json_parse_bytes(bytes: Seq<u8>) -> Option<JsonTree> {
    if valid_utf8(bytes) {
        json_parse(decode_utf8(bytes))
    } else {
        None
    }
}

/// The members of an empty object.
pub open spec fn no_members() -> Map<Seq<char>, JsonTree> {
    Map::empty()
}

/// The trees of a sequence of values.
pub open spec fn json_trees(values: Seq<serde_json::Value>) -> Seq<JsonTree> {
    values.map_values(|value: serde_json::Value| json_tree(value))
}

/// The key that `serde_json` takes for a text with JSON in it rather than for the
/// first member of an object, in a build that lets values stay unread.
pub open spec fn raw_key() -> Seq<char> {
    "$serde_json::private::RawValue"@
}

/// Whether a tree is plain: it holds integers only, no object in it has the key for
/// JSON in a text, and it nests at most `depth` arrays and objects in each other.
pub open spec fn plain_within(tree: JsonTree, depth: nat) -> bool
    decreases depth,
{
    match tree {
        JsonTree::Float(_) => false,
        JsonTree::Array(items) => depth > 0 && forall|i: int|
            0 <= i < items.len() ==> plain_within(#[trigger] items[i], (depth - 1) as nat),
        JsonTree::Object(members) => {
            &&& depth > 0
            &&& !members.dom().contains(raw_key())
            &&& forall|key: Seq<char>|
                members.dom().contains(key) ==> plain_within(
                    #[trigger] members[key],
                    (depth - 1) as nat,
                )
        },
        _ => true,
    }
}

/// The member of a tree under a key, if the tree is an object that has it.
pub open spec fn member(tree: JsonTree, key: Seq<char>) -> Option<JsonTree> {
    match tree {
        JsonTree::Object(members) => if members.dom().contains(key) {
            Some(members[key])
        } else {
            None
        },
        _ => None,
    }
}

/// `serde_json::Value::Null`: null.
#[verifier::external_body]
pub(crate) fn json_null() -> (r: serde_json::Value)
    ensures
        json_tree(r) == JsonTree::Null,
{
    serde_json::Value::Null
}

/// `serde_json::Value::Bool`: a truth value.
#[verifier::external_body]
pub(crate) fn json_bool(b: bool) -> (r: serde_json::Value)
    ensures
        json_tree(r) == JsonTree::Bool(b),
{
    serde_json::Value::Bool(b)
}

/// `serde_json::Value::from` on a `u64`: that integer.
#[verifier::external_body]
pub(crate) fn json_u64(n: u64) -> (r: serde_json::Value)
    ensures
        json_tree(r) == JsonTree::Int(n as int),
{
    serde_json::Value::from(n)
}

/// `serde_json::Value::from` on an `i64`: that integer.
#[verifier::external_body]
pub(crate) fn json_i64(n: i64) -> (r: serde_json::Value)
    ensures
        json_tree(r) == JsonTree::Int(n as int),
{
    serde_json::Value::from(n)
}

/// `serde_json::Value::String`: a text.
#[verifier::external_body]
pub(crate) fn json_string(text: &str) -> (r: serde_json::Value)
    ensures
        json_tree(r) == JsonTree::Text(text@),
{
    serde_json::Value::String(text.to_owned())
}

/// `serde_json::Value::Array`: the values in their order.
#[verifier::external_body]
pub(crate) fn json_array(items: Vec<serde_json::Value>) -> (r: serde_json::Value)
    ensures
        json_tree(r) == JsonTree::Array(json_trees(items@)),
{
    serde_json::Value::Array(items)
}

/// `serde_json::Value::Object`: an object with these members.
#[verifier::external_body]
pub(crate) fn json_object(map: serde_json::Map<String, serde_json::Value>) -> (r: serde_json::Value)
    ensures
        json_tree(r) == JsonTree::Object(json_members(map)),
{
    serde_json::Value::Object(map)
}

/// `serde_json::Map::new`: no members.
#[verifier::external_body]
pub(crate) fn map_new() -> (r: serde_json::Map<String, serde_json::Value>)
    ensures
        json_members(r) == no_members(),
{
    serde_json::Map::new()
}

/// `serde_json::Map::insert`: the member under the key is the value from now
/// on, whether or not there was one, and no other member changes.
#[verifier::external_body]
pub(crate) fn map_insert(
    map: &mut serde_json::Map<String, serde_json::Value>,
    key: &str,
    value: serde_json::Value,
)
    ensures
        json_members(*final(map)) == json_members(*old(map)).insert(key@, json_tree(value)),
{
    map.insert(key.to_owned(), value);
}

/// `serde_json::Map::get`: the member under the key, if there is one.
#[verifier::external_body]
pub(crate) fn map_get<'a>(
    map: &'a serde_json::Map<String, serde_json::Value>,
    key: &str,
) -> (r: Option<&'a serde_json::Value>)
    ensures
        r is Some <==> json_members(*map).dom().contains(key@),
        r is Some ==> json_tree(*r->0) == json_members(*map)[key@],
{
    map.get(key)
}

/// `serde_json::Map::remove`: the member under the key leaves, if there is
/// one, and no other member changes.
#[verifier::external_body]
pub(crate) fn map_remove(map: &mut serde_json::Map<String, serde_json::Value>, key: &str)
    ensures
        json_members(*final(map)) == json_members(*old(map)).remove(key@),
{
    map.remove(key);
}

/// `serde_json::Map::clone`: a map with the same members.
#[verifier::external_body]
pub(crate) fn map_clone(map: &serde_json::Map<String, serde_json::Value>) -> (r: serde_json::Map<
    String,
    serde_json::Value,
>)
    ensures
        json_members(r) == json_members(*map),
{
    map.clone()
}

/// `serde_json::Value::clone`: a value that holds the same.
#[verifier::external_body]
pub(crate) fn json_clone(value: &serde_json::Value) -> (r: serde_json::Value)
    ensures
        json_tree(r) == json_tree(*value),
{
    value.clone()
}

/// `serde_json::Value::get` with a key: the member of an object, and nothing
/// for a value that is no object.
#[verifier::external_body]
pub(crate) fn json_get<'a>(value: &'a serde_json::Value, key: &str) -> (r: Option<
    &'a serde_json::Value,
>)
    ensures
        r is Some <==> member(json_tree(*value), key@) is Some,
        r is Some ==> member(json_tree(*value), key@) == Some(json_tree(*r->0)),
{
    value.get(key)
}

/// `serde_json::Value::as_str`: the text, if the value is one.
#[verifier::external_body]
pub(crate) fn json_as_str<'a>(value: &'a serde_json::Value) -> (r: Option<&'a str>)
    ensures
        r is Some <==> json_tree(*value) is Text,
        r is Some ==> json_tree(*value) == JsonTree::Text(r->0@),
{
    value.as_str()
}

/// `serde_json::Value::as_bool`: the truth value, if the value is one.
#[verifier::external_body]
pub(crate) fn json_as_bool(value: &serde_json::Value) -> (r: Option<bool>)
    ensures
        r is Some <==> json_tree(*value) is Bool,
        r is Some ==> json_tree(*value) == JsonTree::Bool(r->0),
{
    value.as_bool()
}

/// `serde_json::Value::as_i64`: the integer, if the value is one that fits.
#[verifier::external_body]
pub(crate) fn json_as_i64(value: &serde_json::Value) -> (r: Option<i64>)
    ensures
        r is Some <==> (json_tree(*value) matches JsonTree::Int(n) && i64::MIN <= n <= i64::MAX),
        r is Some ==> json_tree(*value) == JsonTree::Int(r->0 as int),
{
    value.as_i64()
}

/// `serde_json::Value::as_array`: the items, if the value is an array.
#[verifier::external_body]
pub(crate) fn json_as_array<'a>(value: &'a serde_json::Value) -> (r: Option<
    &'a Vec<serde_json::Value>,
>)
    ensures
        r is Some <==> json_tree(*value) is Array,
        r is Some ==> json_tree(*value) == JsonTree::Array(json_trees(r->0@)),
{
    value.as_array()
}

/// `serde_json::Value::as_object`: the members, if the value is an object.
#[verifier::external_body]
pub(crate) fn json_as_object<'a>(value: &'a serde_json::Value) -> (r: Option<
    &'a serde_json::Map<String, serde_json::Value>,
>)
    ensures
        r is Some <==> json_tree(*value) is Object,
        r is Some ==> json_tree(*value) == JsonTree::Object(json_members(*r->0)),
{
    value.as_object()
}

/// `serde_json::Value::to_string`: the value in compact notation.
///
/// Printed integers, texts, arrays and objects read back as they were, up to
/// the nesting at which the parser gives up, unless an object has the key that the
/// parser takes for JSON in a text. They do so at the start of a longer text too, and
/// the items of a printed array do one by one.
#[verifier::external_body]
pub(crate) fn json_print(value: &serde_json::Value) -> (r: String)
    ensures
        r@ == json_text(json_tree(*value)),
        plain_within(json_tree(*value), 127) ==> reads_as(r@, json_tree(*value)),
{
    value.to_string()
}

/// `serde_json::from_str` into a `Value`: the value that a JSON text writes
/// down.
#[verifier::external_body]
pub(crate) fn json_read(text: &str) -> (r: Option<serde_json::Value>)
    ensures
        r is Some <==> json_parse(text@) is Some,
        r is Some ==> json_parse(text@) == Some(json_tree(r->0)),
{
    serde_json::from_str(text).ok()
}

/// `serde_json::from_slice` into a `Value`: the value that bytes write down as JSON
/// in UTF-8. They are read as the text that they encode; bytes that are no UTF-8 are
/// no JSON.
#[verifier::external_body]
pub(crate) fn json_read_bytes(bytes: &[u8]) -> (r: Option<serde_json::Value>)
    ensures
        r is Some <==> json_parse_bytes(bytes@) is Some,
        r is Some ==> json_parse_bytes(bytes@) == Some(json_tree(r->0)),
{
    serde_json::from_slice(bytes).ok()
}

/// `serde_json::StreamDeserializer`, its first item, read past by
/// `serde::de::IgnoredAny`: the JSON value at the start of a text, and what follows
/// it. The value takes at least a character.
#[verifier::external_body]
pub(crate) fn json_head_of<'a>(text: &'a str) -> (r: Option<(&'a str, &'a str)>)
    ensures
        r is Some <==> json_head(text@) is Some,
        r is Some ==> json_head(text@) == Some((r->0).0@.len()),
        r is Some ==> (r->0).0@.len() > 0 && text@ == (r->0).0@ + (r->0).1@,
{
    let mut values = serde_json::Deserializer::from_str(text).into_iter::<serde::de::IgnoredAny>();
    values.next()?.ok()?;
    Some(text.split_at(values.byte_offset()))
}

/// The tree of a list of texts.
pub open spec fn texts_tree(texts: Seq<Seq<char>>) -> JsonTree {
    JsonTree::Array(texts.map_values(|text: Seq<char>| JsonTree::Text(text)))
}

/// The tree of a text that may be absent.
pub open spec fn optional_text_tree(text: Option<Seq<char>>) -> JsonTree {
    match text {
        Some(text) => JsonTree::Text(text),
        None => JsonTree::Null,
    }
}

/// A list of texts as a JSON array.
pub fn json_strings(texts: &Vec<String>) -> (r: serde_json::Value)
    ensures
        json_tree(r) == texts_tree(views(texts@)),
{
    let mut items: Vec<serde_json::Value> = Vec::new();
    let mut i: usize = 0;
    while i < texts.len()
        invariant
            i <= texts.len(),
            items.len() == i,
            forall|j: int| 0 <= j < i ==> json_tree(#[trigger] items@[j]) == JsonTree::Text(texts@[j]@),
        decreases texts.len() - i,
    {
        items.push(json_string(texts[i].as_str()));
        i = i + 1;
    }
    assert(json_trees(items@) =~= views(texts@).map_values(|text: Seq<char>| JsonTree::Text(text)));
    json_array(items)
}

/// The texts of a tree that is an array of texts, and nothing for another
/// tree.
pub open spec fn tree_texts(tree: JsonTree) -> Option<Seq<Seq<char>>> {
    match tree {
        JsonTree::Array(items) => if forall|i: int|
            0 <= i < items.len() ==> #[trigger] items[i] is Text {
            Some(Seq::new(items.len(), |i: int| items[i]->Text_0))
        } else {
            None
        },
        _ => None,
    }
}

/// The texts of a JSON array of texts, and nothing for another value.
pub fn strings_of(value: &serde_json::Value) -> (r: Option<Vec<String>>)
    ensures
        r is Some <==> tree_texts(json_tree(*value)) is Some,
        r is Some ==> tree_texts(json_tree(*value)) == Some(views(r->0@)),
{
    let items = match json_as_array(value) {
        Some(items) => items,
        None => {
            return None;
        },
    };
    let ghost trees = json_trees(items@);
    assert(json_tree(*value) == JsonTree::Array(trees));
    let mut texts: Vec<String> = Vec::new();
    let mut i: usize = 0;
    while i < items.len()
        invariant
            i <= items.len(),
            trees == json_trees(items@),
            json_tree(*value) == JsonTree::Array(trees),
            texts.len() == i,
            forall|j: int| 0 <= j < i ==> #[trigger] trees[j] == JsonTree::Text(texts@[j]@),
        decreases items.len() - i,
    {
        assert(trees[i as int] == json_tree(items@[i as int]));
        match json_as_str(&items[i]) {
            Some(text) => {
                texts.push(text.to_owned());
            },
            None => {
                assert(!(trees[i as int] is Text));
                return None;
            },
        }
        i = i + 1;
    }
    assert(tree_texts(json_tree(*value))->0 =~= views(texts@));
    Some(texts)
}

/// The text that a field holds, if it is there and is one.
pub open spec fn text_in(field: Option<JsonTree>) -> Option<Seq<char>> {
    match field {
        Some(JsonTree::Text(text)) => Some(text),
        _ => None,
    }
}

/// A list of texts is plain, and holds the texts that it was made of.
pub proof fn lemma_texts_are_plain(texts: Seq<Seq<char>>)
    ensures
        tree_texts(texts_tree(texts)) == Some(texts),
        plain_within(texts_tree(texts), 1),
        plain_within(texts_tree(texts), 127),
{
    let items = texts.map_values(|text: Seq<char>| JsonTree::Text(text));
    assert(texts_tree(texts) == JsonTree::Array(items));
    assert forall|i: int| 0 <= i < items.len() implies #[trigger] items[i] is Text && plain_within(
        items[i],
        0,
    ) by {}
    assert(tree_texts(texts_tree(texts))->0 =~= texts);
    lemma_plain_is_monotonic(texts_tree(texts), 1, 127);
}

/// What is plain and nests little is plain and nests at most more.
pub proof fn lemma_plain_is_monotonic(tree: JsonTree, less: nat, more: nat)
    requires
        plain_within(tree, less),
        less <= more,
    ensures
        plain_within(tree, more),
    decreases less,
{
    match tree {
        JsonTree::Array(items) => {
            assert forall|i: int| 0 <= i < items.len() implies plain_within(
                #[trigger] items[i],
                (more - 1) as nat,
            ) by {
                lemma_plain_is_monotonic(items[i], (less - 1) as nat, (more - 1) as nat);
            }
        },
        JsonTree::Object(members) => {
            assert forall|key: Seq<char>| members.dom().contains(key) implies plain_within(
                #[trigger] members[key],
                (more - 1) as nat,
            ) by {
                lemma_plain_is_monotonic(members[key], (less - 1) as nat, (more - 1) as nat);
            }
        },
        _ => {},
    }
}

/// A list of texts holds each text, in order.
pub proof fn law_a_list_of_texts_holds_each(texts: Seq<Seq<char>>, i: int)
    requires
        0 <= i < texts.len(),
    ensures
        texts_tree(texts) matches JsonTree::Array(items) && items.len() == texts.len() && items[i] == JsonTree::Text(texts[i]),
{
}

/// A tree is a list of texts just if it is an array of nothing but texts, and these are the
/// texts that it lists.
pub proof fn law_only_a_list_of_texts_is_read_as_texts(tree: JsonTree, i: int)
    ensures
        tree_texts(tree) matches Some(texts) ==> (tree matches JsonTree::Array(items)
            && items.len() == texts.len() && (0 <= i < items.len() ==> items[i] == JsonTree::Text(
            texts[i],
        ))),
        tree_texts(tree) is None ==> !(tree is Array) || exists|k: int|
            0 <= k < tree->Array_0.len() && !((#[trigger] tree->Array_0[k]) is Text),
{
}

/// The member of a tree under a key is what an object holds there. Nothing else has members.
pub proof fn law_only_objects_have_members(tree: JsonTree, key: Seq<char>)
    ensures
        tree matches JsonTree::Object(members) ==> (member(tree, key) is Some
            <==> members.dom().contains(key)) && (members.dom().contains(key) ==> member(tree, key)
            == Some(members[key])),
        !(tree is Object) ==> member(tree, key) is None,
        text_in(Some(tree)) is Some <==> tree is Text,
        tree matches JsonTree::Text(text) ==> text_in(Some(tree)) == Some(text),
        text_in(None) is None,
{
}

} // verus!
