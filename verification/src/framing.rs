//! Lists and records in JSON text.
//!
//! A record is an object whose fields stand in a fixed order when it is written. It
//! is read in any order, fields that are not known are passed over, and one that is
//! known stands in it once at most. It may also be a list of its fields in order. The
//! values between the marks are left to `serde_json`.

use vstd::prelude::*;

use crate::json::{
    json_as_bool, json_as_str, json_head, json_head_of, json_parse, json_print, json_read,
    json_string, json_text, json_tree, json_trees, plain_within, texts_tree, JsonTree,
};
use crate::text::{same_text, views};

verus! {

/// Whether a character is white space in JSON.
pub open spec fn is_space(c: char) -> bool {
    c == ' ' || c == '\n' || c == '\t' || c == '\r'
}

/// A text without white space at its start.
pub open spec fn skip_space(text: Seq<char>) -> Seq<char>
    decreases text.len(),
{
    if text.len() > 0 && is_space(text[0]) {
        skip_space(text.drop_first())
    } else {
        text
    }
}

/// What follows a mark at the start of a text.
pub open spec fn after_mark(text: Seq<char>, mark: char) -> Option<Seq<char>> {
    let at = skip_space(text);
    if at.len() > 0 && at[0] == mark {
        Some(at.drop_first())
    } else {
        None
    }
}

/// The JSON value at the start of a text, and what follows it.
pub open spec fn first_value(text: Seq<char>) -> Option<(Seq<char>, Seq<char>)> {
    let at = skip_space(text);
    match json_head(at) {
        Some(n) => if 0 < n <= at.len() {
            Some((at.take(n as int), at.skip(n as int)))
        } else {
            None
        },
        None => None,
    }
}

proof fn lemma_skip_space_is_no_longer(text: Seq<char>)
    ensures
        skip_space(text).len() <= text.len(),
    decreases text.len(),
{
    if text.len() > 0 && is_space(text[0]) {
        lemma_skip_space_is_no_longer(text.drop_first());
    }
}

/// What follows a mark or a value is shorter than the text.
pub proof fn lemma_rest_is_shorter(text: Seq<char>)
    ensures
        forall|mark: char|
            (#[trigger] after_mark(text, mark)) is Some ==> after_mark(text, mark)->0.len()
                < text.len(),
        first_value(text) is Some ==> (first_value(text)->0).1.len() < text.len(),
{
    lemma_skip_space_is_no_longer(text);
}

/// The values of a list, after those `found` already, up to its end, and what
/// follows the list. A value comes next.
pub open spec fn items_after(text: Seq<char>, found: Seq<Seq<char>>) -> Option<
    (Seq<Seq<char>>, Seq<char>),
>
    decreases text.len(),
{
    proof {
        lemma_rest_is_shorter(text);
        if first_value(text) is Some {
            lemma_rest_is_shorter((first_value(text)->0).1);
        }
    }
    match first_value(text) {
        Some((item, rest)) => match after_mark(rest, ',') {
            Some(next) => items_after(next, found.push(item)),
            None => match after_mark(rest, ']') {
                Some(end) => Some((found.push(item), end)),
                None => None,
            },
        },
        None => None,
    }
}

/// The values of a list at the start of a text, and what follows it.
pub open spec fn list_from(text: Seq<char>) -> Option<(Seq<Seq<char>>, Seq<char>)> {
    match after_mark(text, '[') {
        Some(inside) => match after_mark(inside, ']') {
            Some(end) => Some((seq![], end)),
            None => items_after(inside, seq![]),
        },
        None => None,
    }
}

/// The values of a text that is a list and nothing else.
pub open spec fn list_items(text: Seq<char>) -> Option<Seq<Seq<char>>> {
    match list_from(text) {
        Some((items, end)) => if skip_space(end).len() == 0 {
            Some(items)
        } else {
            None
        },
        None => None,
    }
}

/// The text that a value writes down, if it is one.
pub open spec fn text_of_value(value: Seq<char>) -> Option<Seq<char>> {
    if value.len() > 0 && value[0] == '"' {
        match json_parse(value) {
            Some(JsonTree::Text(text)) => Some(text),
            _ => None,
        }
    } else {
        None
    }
}

/// The tree of a value that is neither a list nor an object.
pub open spec fn plain_value(value: Seq<char>) -> Option<JsonTree> {
    if value.len() > 0 && value[0] != '{' && value[0] != '[' {
        json_parse(value)
    } else {
        None
    }
}

/// The fields of a record: what was written for each, if anything.
pub open spec fn no_fields(count: nat) -> Seq<Option<Seq<char>>> {
    Seq::new(count, |i: int| None)
}

/// The fields once one more was read. One of a name that is not known changes
/// nothing, and a known one may not be there twice.
pub open spec fn noted(
    names: Seq<Seq<char>>,
    fields: Seq<Option<Seq<char>>>,
    key: Seq<char>,
    value: Seq<char>,
) -> Option<Seq<Option<Seq<char>>>> {
    if names.contains(key) {
        let at = names.index_of(key);
        if fields[at] is Some {
            None
        } else {
            Some(fields.update(at, Some(value)))
        }
    } else {
        Some(fields)
    }
}

/// The fields of an object, after those found already, up to its end, and what
/// follows the object. A field comes next.
pub open spec fn fields_after(
    text: Seq<char>,
    names: Seq<Seq<char>>,
    fields: Seq<Option<Seq<char>>>,
) -> Option<(Seq<Option<Seq<char>>>, Seq<char>)>
    decreases text.len(),
{
    match field_from(text) {
        Some((key, value, rest)) => match noted(names, fields, key, value) {
            Some(fields) => match after_mark(rest, ',') {
                Some(next) => {
                    proof {
                        lemma_field_is_not_empty(text);
                        lemma_rest_is_shorter(rest);
                    }
                    fields_after(next, names, fields)
                },
                None => match after_mark(rest, '}') {
                    Some(end) => Some((fields, end)),
                    None => None,
                },
            },
            None => None,
        },
        None => None,
    }
}

/// The field at the start of a text: its name, its value and what follows it.
pub open spec fn field_from(text: Seq<char>) -> Option<(Seq<char>, Seq<char>, Seq<char>)> {
    match first_value(text) {
        Some((key, rest)) => match (text_of_value(key), after_mark(rest, ':')) {
            (Some(key), Some(rest)) => match first_value(rest) {
                Some((value, rest)) => Some((key, value, rest)),
                None => None,
            },
            _ => None,
        },
        None => None,
    }
}

/// What follows a field is shorter than the text.
pub proof fn lemma_field_is_not_empty(text: Seq<char>)
    ensures
        field_from(text) is Some ==> (field_from(text)->0).2.len() < text.len(),
{
    lemma_rest_is_shorter(text);
    if first_value(text) is Some {
        let rest = (first_value(text)->0).1;
        lemma_rest_is_shorter(rest);
        if after_mark(rest, ':') is Some {
            lemma_rest_is_shorter(after_mark(rest, ':')->0);
        }
    }
}

/// The fields of a record that is a list of no more than them, in order.
pub open spec fn fields_in_order(count: nat, items: Seq<Seq<char>>) -> Option<
    Seq<Option<Seq<char>>>,
> {
    if items.len() <= count {
        Some(
            Seq::new(
                count,
                |i: int|
                    if i < items.len() {
                        Some(items[i])
                    } else {
                        None
                    },
            ),
        )
    } else {
        None
    }
}

/// The record at the start of a text, and what follows it.
pub open spec fn record_from(text: Seq<char>, names: Seq<Seq<char>>) -> Option<
    (Seq<Option<Seq<char>>>, Seq<char>),
> {
    match after_mark(text, '{') {
        Some(inside) => match after_mark(inside, '}') {
            Some(end) => Some((no_fields(names.len()), end)),
            None => fields_after(inside, names, no_fields(names.len())),
        },
        None => match list_from(text) {
            Some((items, end)) => match fields_in_order(names.len(), items) {
                Some(fields) => Some((fields, end)),
                None => None,
            },
            None => None,
        },
    }
}

proof fn lemma_items_are_not_empty(text: Seq<char>, found: Seq<Seq<char>>)
    ensures
        items_after(text, found) is Some ==> (items_after(text, found)->0).1.len() < text.len(),
    decreases text.len(),
{
    lemma_rest_is_shorter(text);
    if first_value(text) is Some {
        let (item, rest) = first_value(text)->0;
        lemma_rest_is_shorter(rest);
        if after_mark(rest, ',') is Some {
            lemma_items_are_not_empty(after_mark(rest, ',')->0, found.push(item));
        }
    }
}

proof fn lemma_fields_are_not_empty(
    text: Seq<char>,
    names: Seq<Seq<char>>,
    fields: Seq<Option<Seq<char>>>,
)
    ensures
        fields_after(text, names, fields) is Some ==> (fields_after(text, names, fields)->0).1.len()
            < text.len(),
    decreases text.len(),
{
    lemma_field_is_not_empty(text);
    if field_from(text) is Some {
        let (key, value, rest) = field_from(text)->0;
        lemma_rest_is_shorter(rest);
        let more = noted(names, fields, key, value);
        if more is Some && after_mark(rest, ',') is Some {
            lemma_fields_are_not_empty(after_mark(rest, ',')->0, names, more->0);
        }
    }
}

/// What follows a record is shorter than the text.
pub proof fn lemma_record_is_not_empty(text: Seq<char>, names: Seq<Seq<char>>)
    ensures
        record_from(text, names) is Some ==> (record_from(text, names)->0).1.len() < text.len(),
{
    lemma_rest_is_shorter(text);
    if after_mark(text, '{') is Some {
        let inside = after_mark(text, '{')->0;
        lemma_rest_is_shorter(inside);
        lemma_fields_are_not_empty(inside, names, no_fields(names.len()));
    }
    if after_mark(text, '[') is Some {
        let inside = after_mark(text, '[')->0;
        lemma_rest_is_shorter(inside);
        lemma_items_are_not_empty(inside, seq![]);
    }
}

/// The records of a list, after those `found` already, in a text that ends with the
/// list. A record comes next.
pub open spec fn records_after(
    text: Seq<char>,
    names: Seq<Seq<char>>,
    found: Seq<Seq<Option<Seq<char>>>>,
) -> Option<Seq<Seq<Option<Seq<char>>>>>
    decreases text.len(),
{
    match record_from(text, names) {
        Some((fields, rest)) => match after_mark(rest, ',') {
            Some(next) => {
                proof {
                    lemma_record_is_not_empty(text, names);
                    lemma_rest_is_shorter(rest);
                }
                records_after(next, names, found.push(fields))
            },
            None => match after_mark(rest, ']') {
                Some(end) => if skip_space(end).len() == 0 {
                    Some(found.push(fields))
                } else {
                    None
                },
                None => None,
            },
        },
        None => None,
    }
}

/// The records of a text that lists records and nothing else.
pub open spec fn records_in(text: Seq<char>, names: Seq<Seq<char>>) -> Option<
    Seq<Seq<Option<Seq<char>>>>,
> {
    match after_mark(text, '[') {
        Some(inside) => match after_mark(inside, ']') {
            Some(end) => if skip_space(end).len() == 0 {
                Some(seq![])
            } else {
                None
            },
            None => records_after(inside, names, seq![]),
        },
        None => None,
    }
}

/// Whether a value that is followed by this ends there.
pub open spec fn ends_value(rest: Seq<char>) -> bool {
    rest.len() == 0 || is_space(rest[0]) || rest[0] == ',' || rest[0] == ':' || rest[0] == ']'
        || rest[0] == '}'
}

/// Whether a text reads as a tree, alone or at the start of a longer text.
pub open spec fn reads_alone(text: Seq<char>, tree: JsonTree) -> bool {
    &&& text.len() > 0
    &&& !is_space(text[0])
    &&& tree is Text <==> text[0] == '"'
    &&& tree is Array <==> text[0] == '['
    &&& tree is Object <==> text[0] == '{'
    &&& json_parse(text) == Some(tree)
    &&& forall|rest: Seq<char>|
        ends_value(rest) ==> #[trigger] json_head(text + rest) == Some(text.len())
}

/// Whether a text reads as a tree, and each value of a list as what it is.
pub open spec fn reads_as(text: Seq<char>, tree: JsonTree) -> bool {
    &&& reads_alone(text, tree)
    &&& tree matches JsonTree::Array(items) ==> {
        &&& list_items(text) matches Some(texts)
        &&& texts.len() == items.len()
        &&& forall|i: int| 0 <= i < items.len() ==> reads_alone(#[trigger] texts[i], items[i])
    }
}

/// What is written of an object from one of its fields on. The values are written
/// as `texts`.
pub open spec fn fields_text(names: Seq<Seq<char>>, texts: Seq<Seq<char>>, from: int) -> Seq<char>
    decreases texts.len() - from,
{
    if from < 0 || from >= texts.len() {
        seq!['}']
    } else {
        json_text(JsonTree::Text(names[from])) + (seq![':'] + (texts[from] + if from + 1
            < texts.len() {
            seq![','] + fields_text(names, texts, from + 1)
        } else {
            seq!['}']
        }))
    }
}

/// What is written for a record: its fields in order.
pub open spec fn record_text(names: Seq<Seq<char>>, texts: Seq<Seq<char>>) -> Seq<char> {
    seq!['{'] + fields_text(names, texts, 0)
}

/// What is written of a list from one of its items on.
pub open spec fn items_text(items: Seq<Seq<char>>, from: int) -> Seq<char>
    decreases items.len() - from,
{
    if from < 0 || from >= items.len() {
        seq![']']
    } else {
        items[from] + if from + 1 < items.len() {
            seq![','] + items_text(items, from + 1)
        } else {
            seq![']']
        }
    }
}

/// What is written for a list.
pub open spec fn list_text(items: Seq<Seq<char>>) -> Seq<char> {
    seq!['['] + items_text(items, 0)
}

/// The fields of a record that has them all.
pub open spec fn all_fields(texts: Seq<Seq<char>>) -> Seq<Option<Seq<char>>> {
    texts.map_values(|text: Seq<char>| Some(text))
}

proof fn lemma_mark_is_found(mark: char, rest: Seq<char>)
    requires
        !is_space(mark),
    ensures
        after_mark(seq![mark] + rest, mark) == Some(rest),
        forall|other: char| other != mark ==> after_mark(seq![mark] + rest, other) is None,
{
    let text = seq![mark] + rest;
    assert(text[0] == mark);
    assert(skip_space(text) == text);
    assert(text.drop_first() =~= rest);
}

proof fn lemma_value_is_found(text: Seq<char>, tree: JsonTree, rest: Seq<char>)
    requires
        reads_alone(text, tree),
        ends_value(rest),
    ensures
        first_value(text + rest) == Some((text, rest)),
        forall|mark: char|
            mark != text[0] ==> (#[trigger] after_mark(text + rest, mark)) is None,
{
    let whole = text + rest;
    assert(whole[0] == text[0]);
    assert(skip_space(whole) == whole);
    assert(json_head(text + rest) == Some(text.len()));
    assert(whole.take(text.len() as int) =~= text);
    assert(whole.skip(text.len() as int) =~= rest);
}

/// The fields of a record of which the first few have been read.
pub open spec fn some_fields(texts: Seq<Seq<char>>, count: int) -> Seq<Option<Seq<char>>> {
    Seq::new(
        texts.len(),
        |i: int|
            if i < count {
                Some(texts[i])
            } else {
                None
            },
    )
}

/// Whether the names and the values of a record read as what they are.
pub open spec fn record_reads(
    names: Seq<Seq<char>>,
    texts: Seq<Seq<char>>,
    values: Seq<JsonTree>,
) -> bool {
    &&& names.len() == texts.len()
    &&& values.len() == texts.len()
    &&& names.no_duplicates()
    &&& forall|i: int|
        0 <= i < names.len() ==> reads_alone(
            json_text(JsonTree::Text(#[trigger] names[i])),
            JsonTree::Text(names[i]),
        )
    &&& forall|i: int| 0 <= i < texts.len() ==> reads_as(#[trigger] texts[i], values[i])
}

proof fn lemma_fields_read_back(
    names: Seq<Seq<char>>,
    texts: Seq<Seq<char>>,
    values: Seq<JsonTree>,
    from: int,
    rest: Seq<char>,
)
    requires
        record_reads(names, texts, values),
        0 <= from < texts.len(),
    ensures
        fields_after(fields_text(names, texts, from) + rest, names, some_fields(texts, from))
            == Some((all_fields(texts), rest)),
    decreases texts.len() - from,
{
    let name = names[from];
    let key = json_text(JsonTree::Text(name));
    let value = texts[from];
    let tail = if from + 1 < texts.len() {
        seq![','] + fields_text(names, texts, from + 1)
    } else {
        seq!['}']
    };
    let whole = fields_text(names, texts, from) + rest;
    let after_value = tail + rest;
    let after_key = seq![':'] + (value + after_value);
    assert(whole =~= key + after_key);
    assert(after_key[0] == ':');
    assert(reads_alone(key, JsonTree::Text(name)));
    lemma_value_is_found(key, JsonTree::Text(name), after_key);
    lemma_mark_is_found(':', value + after_value);
    assert(after_value[0] == tail[0]);
    assert(reads_as(value, values[from]));
    lemma_value_is_found(value, values[from], after_value);
    assert(text_of_value(key) == Some(name));
    assert(field_from(whole) == Some((name, value, after_value)));
    let fields = some_fields(texts, from);
    assert(names.contains(name));
    assert(names.index_of(name) == from) by {
        let at = names.index_of(name);
        assert(0 <= at < names.len() && names[at] == name);
    }
    assert(fields.update(from, Some(value)) =~= some_fields(texts, from + 1));
    assert(noted(names, fields, name, value) == Some(some_fields(texts, from + 1)));
    if from + 1 < texts.len() {
        let next = fields_text(names, texts, from + 1) + rest;
        assert(after_value =~= seq![','] + next);
        lemma_mark_is_found(',', next);
        lemma_fields_read_back(names, texts, values, from + 1, rest);
    } else {
        assert(after_value == seq!['}'] + rest);
        lemma_mark_is_found('}', rest);
        assert(some_fields(texts, from + 1) =~= all_fields(texts));
    }
}

/// A record reads back as it was written.
pub proof fn lemma_record_reads_back(
    names: Seq<Seq<char>>,
    texts: Seq<Seq<char>>,
    values: Seq<JsonTree>,
    rest: Seq<char>,
)
    requires
        record_reads(names, texts, values),
        names.len() > 0,
    ensures
        record_from(record_text(names, texts) + rest, names) == Some((all_fields(texts), rest)),
{
    let inside = fields_text(names, texts, 0) + rest;
    assert(record_text(names, texts) + rest =~= seq!['{'] + inside);
    lemma_mark_is_found('{', inside);
    lemma_fields_read_back(names, texts, values, 0, rest);
    assert(some_fields(texts, 0) =~= no_fields(names.len()));
    let key = json_text(JsonTree::Text(names[0]));
    assert(reads_alone(key, JsonTree::Text(names[0])));
    assert(inside[0] == key[0]);
    assert(skip_space(inside) == inside);
    assert(after_mark(inside, '}') is None);
}

/// What is written for a list of records.
pub open spec fn records_text(names: Seq<Seq<char>>, records: Seq<Seq<Seq<char>>>) -> Seq<char> {
    list_text(records.map_values(|texts: Seq<Seq<char>>| record_text(names, texts)))
}

proof fn lemma_records_after_read_back(
    names: Seq<Seq<char>>,
    records: Seq<Seq<Seq<char>>>,
    values: Seq<Seq<JsonTree>>,
    from: int,
)
    requires
        names.len() > 0,
        0 <= from < records.len(),
        values.len() == records.len(),
        forall|i: int|
            0 <= i < records.len() ==> record_reads(names, #[trigger] records[i], values[i]),
    ensures
        ({
            let all = records.map_values(|texts: Seq<Seq<char>>| all_fields(texts));
            let items = records.map_values(|texts: Seq<Seq<char>>| record_text(names, texts));
            records_after(items_text(items, from), names, all.take(from)) == Some(all)
        }),
    decreases records.len() - from,
{
    let all = records.map_values(|texts: Seq<Seq<char>>| all_fields(texts));
    let items = records.map_values(|texts: Seq<Seq<char>>| record_text(names, texts));
    let rest = if from + 1 < items.len() {
        seq![','] + items_text(items, from + 1)
    } else {
        seq![']']
    };
    assert(record_reads(names, records[from], values[from]));
    lemma_record_reads_back(names, records[from], values[from], rest);
    assert(items_text(items, from) == record_text(names, records[from]) + rest);
    assert(all.take(from).push(all[from]) =~= all.take(from + 1));
    if from + 1 < items.len() {
        lemma_mark_is_found(',', items_text(items, from + 1));
        lemma_records_after_read_back(names, records, values, from + 1);
    } else {
        assert(rest =~= seq![']'] + seq![]);
        lemma_mark_is_found(']', seq![]);
        assert(all.take(from + 1) =~= all);
    }
}

/// Records read back as they were written.
pub proof fn lemma_records_read_back(
    names: Seq<Seq<char>>,
    records: Seq<Seq<Seq<char>>>,
    values: Seq<Seq<JsonTree>>,
)
    requires
        names.len() > 0,
        values.len() == records.len(),
        forall|i: int|
            0 <= i < records.len() ==> record_reads(names, #[trigger] records[i], values[i]),
    ensures
        records_in(records_text(names, records), names) == Some(
            records.map_values(|texts: Seq<Seq<char>>| all_fields(texts)),
        ),
{
    let all = records.map_values(|texts: Seq<Seq<char>>| all_fields(texts));
    let items = records.map_values(|texts: Seq<Seq<char>>| record_text(names, texts));
    let inside = items_text(items, 0);
    lemma_mark_is_found('[', inside);
    if records.len() == 0 {
        assert(inside =~= seq![']'] + seq![]);
        lemma_mark_is_found(']', seq![]);
        assert(all =~= seq![]);
    } else {
        lemma_records_after_read_back(names, records, values, 0);
        assert(all.take(0) =~= seq![]);
        assert(inside[0] == items[0][0]);
        assert(items[0] == record_text(names, records[0]));
        assert(inside[0] == '{');
        assert(skip_space(inside) == inside);
    }
}

/// The texts that are printed for trees.
pub open spec fn printed(trees: Seq<JsonTree>) -> Seq<Seq<char>> {
    trees.map_values(|tree: JsonTree| json_text(tree))
}

/// The views of fields that were read.
pub open spec fn field_views(fields: Seq<Option<&str>>) -> Seq<Option<Seq<char>>> {
    fields.map_values(
        |field: Option<&str>|
            match field {
                Some(text) => Some(text@),
                None => None,
            },
    )
}

/// The view of a field that was read.
pub open spec fn field_view(field: Option<&str>) -> Option<Seq<char>> {
    match field {
        Some(text) => Some(text@),
        None => None,
    }
}

/// The views of records that were read.
pub open spec fn record_views(records: Seq<Vec<Option<&str>>>) -> Seq<Seq<Option<Seq<char>>>> {
    records.map_values(|fields: Vec<Option<&str>>| field_views(fields@))
}

fn trim_space<'a>(text: &'a str) -> (r: &'a str)
    ensures
        r@ == skip_space(text@),
{
    let end = text.unicode_len();
    let mut start: usize = 0;
    assert(text@.skip(0) =~= text@);
    while start < end
        invariant
            start <= end,
            end == text@.len(),
            skip_space(text@) == skip_space(text@.skip(start as int)),
        decreases end - start,
    {
        let c = text.get_char(start);
        assert(text@.skip(start as int)[0] == c);
        if !(c == ' ' || c == '\n' || c == '\t' || c == '\r') {
            let r = text.substring_char(start, end);
            assert(r@ =~= text@.skip(start as int));
            return r;
        }
        assert(text@.skip(start as int).drop_first() =~= text@.skip(start + 1));
        start = start + 1;
    }
    let r = text.substring_char(start, end);
    assert(r@ =~= text@.skip(start as int));
    r
}

fn past_mark<'a>(text: &'a str, mark: char) -> (r: Option<&'a str>)
    ensures
        field_view(r) == after_mark(text@, mark),
{
    let at = trim_space(text);
    let end = at.unicode_len();
    if end > 0 && at.get_char(0) == mark {
        let rest = at.substring_char(1, end);
        assert(rest@ =~= at@.drop_first());
        Some(rest)
    } else {
        None
    }
}

fn next_value<'a>(text: &'a str) -> (r: Option<(&'a str, &'a str)>)
    ensures
        match r {
            Some((value, rest)) => first_value(text@) == Some((value@, rest@)),
            None => first_value(text@) is None,
        },
{
    let at = trim_space(text);
    match json_head_of(at) {
        Some((value, rest)) => {
            assert(at@.take(value@.len() as int) =~= value@);
            assert(at@.skip(value@.len() as int) =~= rest@);
            Some((value, rest))
        },
        None => None,
    }
}

/// The text that a value writes down.
fn read_text(value: &str) -> (r: Option<String>)
    ensures
        match r {
            Some(text) => text_of_value(value@) == Some(text@),
            None => text_of_value(value@) is None,
        },
{
    if value.unicode_len() == 0 || value.get_char(0) != '"' {
        return None;
    }
    match json_read(value) {
        Some(value) => match json_as_str(&value) {
            Some(text) => Some(text.to_owned()),
            None => None,
        },
        None => None,
    }
}

fn next_field<'a>(text: &'a str) -> (r: Option<(String, &'a str, &'a str)>)
    ensures
        match r {
            Some((key, value, rest)) => field_from(text@) == Some((key@, value@, rest@)),
            None => field_from(text@) is None,
        },
{
    let (key, rest) = match next_value(text) {
        Some(found) => found,
        None => {
            return None;
        },
    };
    match (read_text(key), past_mark(rest, ':')) {
        (Some(key), Some(rest)) => match next_value(rest) {
            Some((value, rest)) => Some((key, value, rest)),
            None => None,
        },
        _ => None,
    }
}

fn next_list<'a>(text: &'a str) -> (r: Option<(Vec<&'a str>, &'a str)>)
    ensures
        match r {
            Some((items, rest)) => list_from(text@) == Some((views(items@), rest@)),
            None => list_from(text@) is None,
        },
{
    let inside = match past_mark(text, '[') {
        Some(inside) => inside,
        None => {
            return None;
        },
    };
    let mut items: Vec<&'a str> = Vec::new();
    assert(views(items@) =~= seq![]);
    match past_mark(inside, ']') {
        Some(rest) => {
            return Some((items, rest));
        },
        None => {},
    }
    let mut at = inside;
    loop
        invariant
            list_from(text@) == items_after(at@, views(items@)),
        decreases at@.len(),
    {
        let (item, rest) = match next_value(at) {
            Some(found) => found,
            None => {
                return None;
            },
        };
        let ghost before = items@;
        items.push(item);
        assert(views(items@) =~= views(before).push(item@));
        proof {
            lemma_rest_is_shorter(at@);
            lemma_rest_is_shorter(rest@);
        }
        match past_mark(rest, ',') {
            Some(next) => {
                at = next;
            },
            None => {
                return match past_mark(rest, ']') {
                    Some(end) => Some((items, end)),
                    None => None,
                };
            },
        }
    }
}

/// The values of a text that is a list and nothing else.
pub(crate) fn read_list<'a>(text: &'a str) -> (r: Option<Vec<&'a str>>)
    ensures
        match r {
            Some(items) => list_items(text@) == Some(views(items@)),
            None => list_items(text@) is None,
        },
{
    match next_list(text) {
        Some((items, end)) => if trim_space(end).unicode_len() == 0 {
            Some(items)
        } else {
            None
        },
        None => None,
    }
}

fn name_position(names: &Vec<&'static str>, key: &str) -> (r: Option<usize>)
    requires
        views(names@).no_duplicates(),
    ensures
        match r {
            Some(at) => views(names@).contains(key@) && at == views(names@).index_of(key@) && at
                < names.len(),
            None => !views(names@).contains(key@),
        },
{
    let mut i: usize = 0;
    while i < names.len()
        invariant
            i <= names.len(),
            views(names@).no_duplicates(),
            forall|j: int| 0 <= j < i ==> views(names@)[j] != key@,
        decreases names.len() - i,
    {
        if same_text(names[i], key) {
            assert(views(names@)[i as int] == key@);
            assert(views(names@).contains(key@));
            assert(views(names@)[views(names@).index_of(key@)] == key@);
            return Some(i);
        }
        i = i + 1;
    }
    None
}

fn blank_fields<'a>(count: usize) -> (r: Vec<Option<&'a str>>)
    ensures
        r.len() == count,
        forall|j: int| 0 <= j < count ==> #[trigger] r@[j] is None,
        field_views(r@) == no_fields(count as nat),
{
    let mut fields: Vec<Option<&'a str>> = Vec::new();
    while fields.len() < count
        invariant
            fields.len() <= count,
            forall|j: int| 0 <= j < fields.len() ==> #[trigger] fields@[j] is None,
        decreases count - fields.len(),
    {
        fields.push(None);
    }
    assert(field_views(fields@) =~= no_fields(count as nat));
    fields
}

fn next_record<'a>(text: &'a str, names: &Vec<&'static str>) -> (r: Option<
    (Vec<Option<&'a str>>, &'a str),
>)
    requires
        views(names@).no_duplicates(),
    ensures
        match r {
            Some((fields, rest)) => fields.len() == names.len() && record_from(
                text@,
                views(names@),
            ) == Some((field_views(fields@), rest@)),
            None => record_from(text@, views(names@)) is None,
        },
{
    let mut fields: Vec<Option<&'a str>> = blank_fields(names.len());
    let inside = match past_mark(text, '{') {
        Some(inside) => inside,
        None => {
            let (items, rest) = match next_list(text) {
                Some(found) => found,
                None => {
                    return None;
                },
            };
            if items.len() > names.len() {
                return None;
            }
            let mut i: usize = 0;
            while i < items.len()
                invariant
                    i <= items.len() <= names.len(),
                    fields.len() == names.len(),
                    forall|j: int| 0 <= j < i ==> #[trigger] fields@[j] == Some(items@[j]),
                    forall|j: int| i <= j < names.len() ==> #[trigger] fields@[j] is None,
                decreases items.len() - i,
            {
                fields.set(i, Some(items[i]));
                i = i + 1;
            }
            assert(Some(field_views(fields@)) == fields_in_order(names@.len(), views(items@))) by {
                assert(field_views(fields@) =~= fields_in_order(names@.len(), views(items@))->0);
            }
            return Some((fields, rest));
        },
    };
    match past_mark(inside, '}') {
        Some(rest) => {
            return Some((fields, rest));
        },
        None => {},
    }
    let mut at = inside;
    loop
        invariant
            views(names@).no_duplicates(),
            fields.len() == names.len(),
            record_from(text@, views(names@)) == fields_after(
                at@,
                views(names@),
                field_views(fields@),
            ),
        decreases at@.len(),
    {
        let (key, value, rest) = match next_field(at) {
            Some(found) => found,
            None => {
                return None;
            },
        };
        match name_position(names, key.as_str()) {
            Some(i) => {
                assert(field_views(fields@)[i as int] is Some <==> fields@[i as int] is Some);
                if fields[i].is_some() {
                    return None;
                }
                let ghost before = fields@;
                fields.set(i, Some(value));
                assert(field_views(fields@) =~= field_views(before).update(
                    i as int,
                    Some(value@),
                ));
            },
            None => {},
        }
        proof {
            lemma_field_is_not_empty(at@);
            lemma_rest_is_shorter(rest@);
        }
        match past_mark(rest, ',') {
            Some(next) => {
                at = next;
            },
            None => {
                return match past_mark(rest, '}') {
                    Some(end) => Some((fields, end)),
                    None => None,
                };
            },
        }
    }
}

/// The records of a text that lists records and nothing else.
pub(crate) fn read_records<'a>(text: &'a str, names: &Vec<&'static str>) -> (r: Option<
    Vec<Vec<Option<&'a str>>>,
>)
    requires
        views(names@).no_duplicates(),
    ensures
        match r {
            Some(records) => records_in(text@, views(names@)) == Some(record_views(records@)),
            None => records_in(text@, views(names@)) is None,
        },
        r matches Some(records) ==> forall|i: int|
            0 <= i < records.len() ==> (#[trigger] records@[i]).len() == names.len(),
{
    let inside = match past_mark(text, '[') {
        Some(inside) => inside,
        None => {
            return None;
        },
    };
    let mut records: Vec<Vec<Option<&'a str>>> = Vec::new();
    assert(record_views(records@) =~= seq![]);
    match past_mark(inside, ']') {
        Some(end) => {
            return if trim_space(end).unicode_len() == 0 {
                Some(records)
            } else {
                None
            };
        },
        None => {},
    }
    let mut at = inside;
    loop
        invariant
            views(names@).no_duplicates(),
            records_in(text@, views(names@)) == records_after(
                at@,
                views(names@),
                record_views(records@),
            ),
            forall|i: int|
                0 <= i < records.len() ==> (#[trigger] records@[i]).len() == names.len(),
        decreases at@.len(),
    {
        let (fields, rest) = match next_record(at, names) {
            Some(found) => found,
            None => {
                return None;
            },
        };
        let ghost before = records@;
        let ghost seen = field_views(fields@);
        records.push(fields);
        assert(record_views(records@) =~= record_views(before).push(seen));
        proof {
            lemma_record_is_not_empty(at@, views(names@));
            lemma_rest_is_shorter(rest@);
        }
        match past_mark(rest, ',') {
            Some(next) => {
                at = next;
            },
            None => {
                return match past_mark(rest, ']') {
                    Some(end) => if trim_space(end).unicode_len() == 0 {
                        Some(records)
                    } else {
                        None
                    },
                    None => None,
                };
            },
        }
    }
}

/// Writes a record: its fields in order.
pub(crate) fn write_record(names: &Vec<&'static str>, values: &Vec<serde_json::Value>) -> (r:
    String)
    requires
        names.len() == values.len(),
        views(names@).no_duplicates(),
        forall|i: int|
            0 <= i < values.len() ==> plain_within(json_tree(#[trigger] values@[i]), 127),
    ensures
        r@ == record_text(views(names@), printed(json_trees(values@))),
        record_reads(views(names@), printed(json_trees(values@)), json_trees(values@)),
{
    let ghost keys = views(names@);
    let ghost texts = printed(json_trees(values@));
    let ghost whole = record_text(keys, texts);
    proof {
        lemma_marks();
    }
    let mut text = "{".to_owned();
    let mut i: usize = 0;
    while i < names.len()
        invariant
            i <= names.len(),
            names.len() == values.len(),
            keys == views(names@),
            texts == printed(json_trees(values@)),
            forall|j: int|
                0 <= j < values.len() ==> plain_within(json_tree(#[trigger] values@[j]), 127),
            whole == text@ + if i < names.len() || i == 0 {
                fields_text(keys, texts, i as int)
            } else {
                seq![]
            },
            forall|j: int|
                0 <= j < i ==> reads_alone(
                    json_text(JsonTree::Text(#[trigger] keys[j])),
                    JsonTree::Text(keys[j]),
                ),
            forall|j: int|
                0 <= j < i ==> reads_as(#[trigger] texts[j], json_tree(values@[j])),
        decreases names.len() - i,
    {
        let key = json_print(&json_string(names[i]));
        let value = json_print(&values[i]);
        let end = if i + 1 < names.len() {
            ","
        } else {
            "}"
        };
        assert(key@ == json_text(JsonTree::Text(keys[i as int])));
        assert(value@ == texts[i as int]);
        proof {
            lemma_marks();
        }
        text.append(key.as_str());
        text.append(":");
        text.append(value.as_str());
        text.append(end);
        assert(whole =~= text@ + if i + 1 < names.len() {
            fields_text(keys, texts, i + 1)
        } else {
            seq![]
        });
        i = i + 1;
    }
    if names.len() == 0 {
        text.append("}");
    }
    assert(text@ =~= whole);
    assert(record_reads(keys, texts, json_trees(values@)));
    text
}

proof fn lemma_marks()
    ensures
        "{"@ == seq!['{'],
        "}"@ == seq!['}'],
        "["@ == seq!['['],
        "]"@ == seq![']'],
        ":"@ == seq![':'],
        ","@ == seq![','],
{
    reveal_strlit("{");
    reveal_strlit("}");
    reveal_strlit("[");
    reveal_strlit("]");
    reveal_strlit(":");
    reveal_strlit(",");
    assert("{"@ =~= seq!['{']);
    assert("}"@ =~= seq!['}']);
    assert("["@ =~= seq!['[']);
    assert("]"@ =~= seq![']']);
    assert(":"@ =~= seq![':']);
    assert(","@ =~= seq![',']);
}

/// Writes a list of values that are written as `items`.
pub(crate) fn write_list(items: &Vec<String>) -> (r: String)
    ensures
        r@ == list_text(views(items@)),
{
    let ghost texts = views(items@);
    proof {
        lemma_marks();
    }
    let mut text = "[".to_owned();
    let mut i: usize = 0;
    while i < items.len()
        invariant
            i <= items.len(),
            texts == views(items@),
            list_text(texts) == text@ + if i < items.len() || i == 0 {
                items_text(texts, i as int)
            } else {
                seq![]
            },
        decreases items.len() - i,
    {
        let end = if i + 1 < items.len() {
            ","
        } else {
            "]"
        };
        proof {
            lemma_marks();
        }
        text.append(items[i].as_str());
        text.append(end);
        assert(list_text(texts) =~= text@ + if i + 1 < items.len() {
            items_text(texts, i + 1)
        } else {
            seq![]
        });
        i = i + 1;
    }
    if items.len() == 0 {
        text.append("]");
    }
    assert(text@ =~= list_text(texts));
    text
}

/// The text in a field, if it is there and is one.
pub open spec fn text_in_field(field: Option<Seq<char>>) -> Option<Seq<char>> {
    match field {
        Some(value) => text_of_value(value),
        None => None,
    }
}

/// The truth value in a field, if it is there and is one.
pub open spec fn bool_in_field(field: Option<Seq<char>>) -> Option<bool> {
    match field {
        Some(value) => match plain_value(value) {
            Some(JsonTree::Bool(b)) => Some(b),
            _ => None,
        },
        None => None,
    }
}

/// The text in a field that may be left out, and is empty then.
pub open spec fn text_or_empty(field: Option<Seq<char>>) -> Option<Seq<char>> {
    match field {
        Some(value) => text_of_value(value),
        None => Some(seq![]),
    }
}

/// The texts in a field that may be left out, and is empty then: nothing if it holds
/// anything but texts.
pub open spec fn texts_or_empty(field: Option<Seq<char>>) -> Option<Seq<Seq<char>>> {
    match field {
        Some(value) => match list_items(value) {
            Some(items) => if forall|i: int|
                0 <= i < items.len() ==> text_of_value(#[trigger] items[i]) is Some {
                Some(Seq::new(items.len(), |i: int| text_of_value(items[i])->0))
            } else {
                None
            },
            None => None,
        },
        None => Some(seq![]),
    }
}

/// The text in a field.
pub(crate) fn field_text(field: Option<&str>) -> (r: Option<String>)
    ensures
        r is Some <==> text_in_field(field_view(field)) is Some,
        r is Some ==> text_in_field(field_view(field)) == Some(r->0@),
{
    match field {
        Some(value) => read_text(value),
        None => None,
    }
}

/// The truth value in a field.
pub(crate) fn field_bool(field: Option<&str>) -> (r: Option<bool>)
    ensures
        r == bool_in_field(field_view(field)),
{
    match read_plain(field) {
        Some(value) => json_as_bool(&value),
        None => None,
    }
}

/// The value in a field that is neither a list nor an object.
pub(crate) fn read_plain(field: Option<&str>) -> (r: Option<serde_json::Value>)
    ensures
        r is Some <==> field is Some && plain_value(field->0@) is Some,
        r is Some ==> plain_value(field->0@) == Some(json_tree(r->0)),
{
    match field {
        Some(value) => {
            if value.unicode_len() == 0 {
                return None;
            }
            let first = value.get_char(0);
            if first == '{' || first == '[' {
                None
            } else {
                json_read(value)
            }
        },
        None => None,
    }
}

/// The text in a field that may be left out.
pub(crate) fn field_text_or_empty(field: Option<&str>) -> (r: Option<String>)
    ensures
        r is Some <==> text_or_empty(field_view(field)) is Some,
        r is Some ==> text_or_empty(field_view(field)) == Some(r->0@),
{
    match field {
        Some(value) => read_text(value),
        None => {
            let none = String::new();
            assert(none@ =~= seq![]);
            Some(none)
        },
    }
}

/// The texts in a field that may be left out.
pub(crate) fn field_texts(field: Option<&str>) -> (r: Option<Vec<String>>)
    ensures
        r is Some <==> texts_or_empty(field_view(field)) is Some,
        r is Some ==> texts_or_empty(field_view(field)) == Some(views(r->0@)),
{
    let mut texts: Vec<String> = Vec::new();
    let value = match field {
        Some(value) => value,
        None => {
            assert(views(texts@) =~= seq![]);
            return Some(texts);
        },
    };
    let items = match read_list(value) {
        Some(items) => items,
        None => {
            return None;
        },
    };
    let ghost all = views(items@);
    let mut i: usize = 0;
    while i < items.len()
        invariant
            i <= items.len(),
            all == views(items@),
            field_view(field) == Some(value@),
            list_items(value@) == Some(all),
            texts.len() == i,
            forall|j: int|
                0 <= j < i ==> text_of_value(#[trigger] all[j]) == Some(texts@[j]@),
        decreases items.len() - i,
    {
        assert(all[i as int] == items@[i as int]@);
        match read_text(items[i]) {
            Some(text) => {
                texts.push(text);
            },
            None => {
                assert(text_of_value(all[i as int]) is None);
                return None;
            },
        }
        i = i + 1;
    }
    assert(texts_or_empty(field_view(field))->0 =~= views(texts@));
    Some(texts)
}

/// What is written for a text reads as that text.
pub proof fn lemma_text_reads_back(value: Seq<char>, text: Seq<char>)
    requires
        reads_as(value, JsonTree::Text(text)),
    ensures
        text_in_field(Some(value)) == Some(text),
        text_or_empty(Some(value)) == Some(text),
{
}

/// What is written for texts reads as those texts.
pub proof fn lemma_texts_read_back(value: Seq<char>, texts: Seq<Seq<char>>)
    requires
        reads_as(value, texts_tree(texts)),
    ensures
        texts_or_empty(Some(value)) == Some(texts),
{
    let items = texts.map_values(|text: Seq<char>| JsonTree::Text(text));
    assert(texts_tree(texts) == JsonTree::Array(items));
    let read = list_items(value)->0;
    assert forall|i: int| 0 <= i < read.len() implies text_of_value(#[trigger] read[i]) == Some(
        texts[i],
    ) by {
        assert(reads_alone(read[i], items[i]));
    }
    assert(texts_or_empty(Some(value))->0 =~= texts);
}

/// A field of a known name is noted at the place of the name, and one that is there already is
/// refused. A field of any other name changes nothing.
pub proof fn law_fields_are_noted_by_name(
    names: Seq<Seq<char>>,
    fields: Seq<Option<Seq<char>>>,
    key: Seq<char>,
    value: Seq<char>,
    i: int,
)
    requires
        fields.len() == names.len(),
        names.no_duplicates(),
        0 <= i < names.len(),
    ensures
        names[i] == key && fields[i] is Some ==> noted(names, fields, key, value) is None,
        names[i] == key && fields[i] is None ==> (noted(names, fields, key, value) matches Some(after)
            && after.len() == fields.len() && after[i] == Some(value) && forall|j: int|
            0 <= j < fields.len() && j != i ==> #[trigger] after[j] == fields[j]),
        (forall|j: int| 0 <= j < names.len() ==> #[trigger] names[j] != key) ==> noted(
            names,
            fields,
            key,
            value,
        ) == Some(fields),
{
    if names[i] == key {
        assert(names.contains(key));
        let at = names.index_of(key);
        assert(0 <= at < names.len() && names[at] == key);
        assert(at == i);
    }
}

/// A record that is a list has its items for its first fields, and none for the others. More
/// items than fields are refused.
pub proof fn law_items_are_fields_in_order(count: nat, items: Seq<Seq<char>>, i: int)
    requires
        0 <= i < count,
    ensures
        items.len() > count ==> fields_in_order(count, items) is None,
        items.len() <= count ==> (fields_in_order(count, items) matches Some(fields)
            && fields.len() == count && (i < items.len() ==> fields[i] == Some(items[i])) && (i
            >= items.len() ==> fields[i] is None)),
{
}

/// White space before a mark makes no difference, and a mark is found only where it comes first.
pub proof fn law_white_space_makes_no_difference(text: Seq<char>, mark: char, space: char)
    requires
        space == ' ' || space == '\n' || space == '\t' || space == '\r',
        mark != ' ',
        mark != '\n',
        mark != '\t',
        mark != '\r',
    ensures
        after_mark(seq![space] + text, mark) == after_mark(text, mark),
        after_mark(seq![mark] + text, mark) == Some(text),
        text.len() > 0 && text[0] != mark && text[0] != ' ' && text[0] != '\n' && text[0] != '\t'
            && text[0] != '\r' ==> after_mark(text, mark) is None,
{
    assert((seq![space] + text).drop_first() =~= text);
    assert((seq![mark] + text).drop_first() =~= text);
    assert(skip_space(seq![mark] + text) == seq![mark] + text);
}

/// A field that may be left out is empty then. One that may not be left out has to be there.
pub proof fn law_some_fields_may_be_left_out(value: Seq<char>)
    ensures
        text_in_field(None) is None,
        bool_in_field(None) is None,
        text_or_empty(None) == Some(Seq::<char>::empty()),
        texts_or_empty(None) == Some(Seq::<Seq<char>>::empty()),
        text_or_empty(Some(value)) == text_in_field(Some(value)),
        text_in_field(Some(value)) matches Some(text) ==> value.len() > 0 && value[0] == '"'
            && json_parse(value) == Some(JsonTree::Text(text)),
        bool_in_field(Some(value)) matches Some(b) ==> json_parse(value) == Some(JsonTree::Bool(b)),
{
}

} // verus!
