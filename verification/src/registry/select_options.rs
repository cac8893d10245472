//! Choices of select settings that come from the bus.

use vstd::prelude::*;

use crate::json::{
    json_as_array, json_as_str, json_get, json_parse_bytes, json_read_bytes, json_tree, json_trees,
    member, JsonTree,
};
use crate::manifest::{options_view, SelectOption, SelectOptionView, SettingField, SettingFieldView};
use crate::registry::{BusPort, Retained};
use crate::text::views;

verus! {

/// The choice that a tree stands for: a text, which is its own label, or an
/// object with a value and a label.
pub open spec fn option_in(tree: JsonTree) -> Option<SelectOptionView> {
    match tree {
        JsonTree::Text(text) => Some(SelectOptionView { value: text, label: text }),
        _ => match (member(tree, "value"@), member(tree, "label"@)) {
            (Some(JsonTree::Text(value)), Some(JsonTree::Text(label))) => Some(
                SelectOptionView { value, label },
            ),
            _ => None,
        },
    }
}

/// The choices that a tree stands for: nothing unless it lists choices only.
pub open spec fn options_in(tree: JsonTree) -> Option<Seq<SelectOptionView>> {
    match tree {
        JsonTree::Array(items) => if forall|i: int|
            0 <= i < items.len() ==> option_in(#[trigger] items[i]) is Some {
            Some(Seq::new(items.len(), |i: int| option_in(items[i])->0))
        } else {
            None
        },
        _ => None,
    }
}

/// The choices that a retained value stands for.
pub open spec fn options_of(payload: Option<Seq<u8>>) -> Option<Seq<SelectOptionView>> {
    match payload {
        Some(payload) => match json_parse_bytes(payload) {
            Some(tree) => options_in(tree),
            None => None,
        },
        None => None,
    }
}

/// A setting with its choices as the bus has them. Settings that do not take
/// their choices from the bus stay as they are.
pub open spec fn resolved_field<B: Retained>(bus: B, field: SettingFieldView) -> SettingFieldView {
    match field {
        SettingFieldView::Select { key, label, default, options_from: Some(from), .. } =>
            SettingFieldView::Select {
            key,
            label,
            default,
            options: options_of(bus.retained(from.driver, from.topic)),
            options_from: Some(from),
        },
        _ => field,
    }
}

/// Settings with their choices as the bus has them.
pub open spec fn resolved_fields<B: Retained>(
    bus: B,
    settings: Seq<SettingFieldView>,
) -> Seq<SettingFieldView> {
    settings.map_values(|field: SettingFieldView| resolved_field(bus, field))
}

fn option_of(value: &serde_json::Value) -> (r: Option<SelectOption>)
    ensures
        r is Some <==> option_in(json_tree(*value)) is Some,
        r is Some ==> option_in(json_tree(*value)) == Some(r->0@),
{
    match json_as_str(value) {
        Some(text) => Some(SelectOption { value: text.to_owned(), label: text.to_owned() }),
        None => match (json_get(value, "value"), json_get(value, "label")) {
            (Some(value), Some(label)) => match (json_as_str(value), json_as_str(label)) {
                (Some(value), Some(label)) => Some(
                    SelectOption { value: value.to_owned(), label: label.to_owned() },
                ),
                _ => None,
            },
            _ => None,
        },
    }
}

/// The choices that a payload lists, if it lists choices.
pub fn parse_options(payload: &[u8]) -> (r: Option<Vec<SelectOption>>)
    ensures
        options_view(r) == options_of(Some(payload@)),
{
    let value = match json_read_bytes(payload) {
        Some(value) => value,
        None => {
            return None;
        },
    };
    let items = match json_as_array(&value) {
        Some(items) => items,
        None => {
            return None;
        },
    };
    let ghost trees = json_trees(items@);
    let mut options: Vec<SelectOption> = Vec::new();
    let mut i: usize = 0;
    while i < items.len()
        invariant
            i <= items.len(),
            trees == json_trees(items@),
            json_parse_bytes(payload@) == Some(JsonTree::Array(trees)),
            options.len() == i,
            forall|j: int| 0 <= j < i ==> option_in(#[trigger] trees[j]) == Some(options@[j]@),
        decreases items.len() - i,
    {
        assert(trees[i as int] == json_tree(items@[i as int]));
        match option_of(&items[i]) {
            Some(option) => {
                options.push(option);
            },
            None => {
                assert(!(option_in(trees[i as int]) is Some));
                return None;
            },
        }
        i = i + 1;
    }
    assert(options_in(JsonTree::Array(trees))->0 =~= views(options@));
    Some(options)
}

fn resolved<B: BusPort>(field: &SettingField, bus: &B) -> (r: SettingField)
    ensures
        r@ == resolved_field(*bus, field@),
{
    match field {
        SettingField::Select { key, label, default, options: _, options_from: Some(from) } => {
            let options = match bus.retained_for(from.driver.as_str(), from.topic.as_str()) {
                Some(payload) => parse_options(payload.as_slice()),
                None => None,
            };
            SettingField::Select {
                key: key.clone(),
                label: label.clone(),
                default: default.clone(),
                options,
                options_from: Some(from.clone()),
            }
        },
        _ => field.clone(),
    }
}

/// Fills in the choices of select settings that take them from the bus, as far
/// as it has them.
pub fn resolve<B: BusPort>(settings: &mut Vec<SettingField>, bus: &B)
    ensures
        views(final(settings)@) == resolved_fields(*bus, views(old(settings)@)),
{
    let ghost before = settings@;
    let mut i: usize = 0;
    while i < settings.len()
        invariant
            i <= settings.len(),
            settings.len() == before.len(),
            forall|j: int|
                0 <= j < i ==> (#[trigger] settings@[j])@ == resolved_field(*bus, before[j]@),
            forall|j: int| i <= j < before.len() ==> #[trigger] settings@[j] == before[j],
        decreases settings.len() - i,
    {
        let field = resolved(&settings[i], bus);
        settings.set(i, field);
        i = i + 1;
    }
    assert(views(settings@) =~= resolved_fields(*bus, views(before)));
}

/// A text is a choice that is its own label. An object with a text for its value and one for
/// its label is a choice of these. Nothing else is a choice.
pub proof fn law_choices_are_texts_or_pairs(tree: JsonTree)
    ensures
        tree matches JsonTree::Text(text) ==> (option_in(tree) matches Some(option) && option.value
            == text && option.label == text),
        tree matches JsonTree::Object(members) ==> {
            let both = members.dom().contains("value"@) && members["value"@] is Text
                && members.dom().contains("label"@) && members["label"@] is Text;
            &&& option_in(tree) is Some <==> both
            &&& both ==> option_in(tree)->0.value == members["value"@]->Text_0 && option_in(
                tree,
            )->0.label == members["label"@]->Text_0
        },
        !(tree is Text) && !(tree is Object) ==> option_in(tree) is None,
{
}

/// A list stands for a choice for each of its items, in order, if each is one, and for
/// nothing otherwise. Nothing but a list stands for choices.
pub proof fn law_a_list_of_choices_is_taken_whole(tree: JsonTree, i: int)
    ensures
        !(tree is Array) ==> options_in(tree) is None,
        tree matches JsonTree::Array(items) ==> {
            &&& options_in(tree) matches Some(options) ==> options.len() == items.len() && (0 <= i
                < items.len() ==> option_in(items[i]) == Some(options[i]))
            &&& 0 <= i < items.len() && option_in(items[i]) is None ==> options_in(tree) is None
            &&& options_in(tree) is None ==> exists|k: int|
                0 <= k < items.len() && option_in(#[trigger] items[k]) is None
        },
{
}

/// A setting that takes its choices from the bus has those that the topic retains, and none if
/// it retains none that can be read. All else of it stays, and so does every other setting.
pub proof fn law_choices_come_from_the_retained_value<B: Retained>(
    bus: B,
    settings: Seq<SettingFieldView>,
    i: int,
)
    requires
        0 <= i < settings.len(),
    ensures
        resolved_fields(bus, settings).len() == settings.len(),
        ({
            let field = resolved_fields(bus, settings)[i];
            match settings[i] {
                SettingFieldView::Select { key, label, default, options_from: Some(from), .. } => {
                    &&& field is Select
                    &&& field->Select_key == key
                    &&& field->Select_label == label
                    &&& field->Select_default == default
                    &&& field->options_from == Some(from)
                    &&& bus.retained(from.driver, from.topic) is None ==> field->options is None
                    &&& bus.retained(from.driver, from.topic) matches Some(payload) ==> (
                    json_parse_bytes(payload) is None ==> field->options is None) && (
                    json_parse_bytes(payload) matches Some(tree) ==> field->options == options_in(
                        tree,
                    ))
                },
                _ => field == settings[i],
            }
        }),
{
}

} // verus!
