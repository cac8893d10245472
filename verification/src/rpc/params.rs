//! The parameters of requests.

use vstd::prelude::*;

use crate::json::{
    json_as_bool, json_as_object, json_as_str, json_get, json_members, json_tree, member, JsonTree,
};
use crate::text::joined3;

verus! {

/// A text among parameters, or what to say if there is none.
pub open spec fn text_param(params: JsonTree, key: Seq<char>) -> Result<Seq<char>, Seq<char>> {
    match member(params, key) {
        Some(JsonTree::Text(text)) => Ok(text),
        _ => Err("params."@ + key + " must be a string"@),
    }
}

/// A truth value among parameters, or what to say if there is none.
pub open spec fn truth_param(params: JsonTree, key: Seq<char>) -> Result<bool, Seq<char>> {
    match member(params, key) {
        Some(JsonTree::Bool(b)) => Ok(b),
        _ => Err("params."@ + key + " must be a bool"@),
    }
}

/// The members of an object among parameters, or what to say if there is none.
pub open spec fn object_param(params: JsonTree, key: Seq<char>) -> Result<
    Map<Seq<char>, JsonTree>,
    Seq<char>,
> {
    match member(params, key) {
        Some(JsonTree::Object(members)) => Ok(members),
        _ => Err("params."@ + key + " must be an object"@),
    }
}

/// A text among parameters.
pub fn param_str<'a>(params: &'a serde_json::Value, key: &str) -> (r: Result<&'a str, String>)
    ensures
        text_param(json_tree(*params), key@) == match r {
            Ok(text) => Ok::<Seq<char>, Seq<char>>(text@),
            Err(e) => Err(e@),
        },
{
    match json_get(params, key) {
        Some(value) => match json_as_str(value) {
            Some(text) => Ok(text),
            None => Err(joined3("params.", key, " must be a string")),
        },
        None => Err(joined3("params.", key, " must be a string")),
    }
}

/// A truth value among parameters.
pub fn param_bool(params: &serde_json::Value, key: &str) -> (r: Result<bool, String>)
    ensures
        truth_param(json_tree(*params), key@) == match r {
            Ok(b) => Ok::<bool, Seq<char>>(b),
            Err(e) => Err(e@),
        },
{
    match json_get(params, key) {
        Some(value) => match json_as_bool(value) {
            Some(b) => Ok(b),
            None => Err(joined3("params.", key, " must be a bool")),
        },
        None => Err(joined3("params.", key, " must be a bool")),
    }
}

/// An object among parameters.
pub fn param_object<'a>(params: &'a serde_json::Value, key: &str) -> (r: Result<
    &'a serde_json::Map<String, serde_json::Value>,
    String,
>)
    ensures
        object_param(json_tree(*params), key@) == match r {
            Ok(members) => Ok::<Map<Seq<char>, JsonTree>, Seq<char>>(json_members(*members)),
            Err(e) => Err(e@),
        },
{
    match json_get(params, key) {
        Some(value) => match json_as_object(value) {
            Some(members) => Ok(members),
            None => Err(joined3("params.", key, " must be an object")),
        },
        None => Err(joined3("params.", key, " must be an object")),
    }
}

/// A parameter is there just if the parameters are an object that holds something of its kind
/// under its key. If it is not, the words for that name the key and the kind.
pub proof fn law_parameters_are_of_their_kind(members: Map<Seq<char>, JsonTree>, key: Seq<char>)
    ensures
        ({
            let tree = JsonTree::Object(members);
            &&& text_param(tree, key) is Ok <==> members.dom().contains(key) && members[key] is Text
            &&& text_param(tree, key) matches Ok(v) ==> members[key] == JsonTree::Text(v)
            &&& text_param(tree, key) matches Err(e) ==> e == "params."@ + key + " must be a string"@
            &&& truth_param(tree, key) is Ok <==> members.dom().contains(key) && members[key] is Bool
            &&& truth_param(tree, key) matches Ok(v) ==> members[key] == JsonTree::Bool(v)
            &&& truth_param(tree, key) matches Err(e) ==> e == "params."@ + key + " must be a bool"@
            &&& object_param(tree, key) is Ok <==> members.dom().contains(key) && members[key] is Object
            &&& object_param(tree, key) matches Ok(v) ==> members[key] == JsonTree::Object(v)
            &&& object_param(tree, key) matches Err(e) ==> e == "params."@ + key + " must be an object"@
        }),
{
}

/// Nothing but an object has parameters.
pub proof fn law_only_objects_have_parameters(tree: JsonTree, key: Seq<char>)
    requires
        !(tree is Object),
    ensures
        text_param(tree, key) == Err::<Seq<char>, _>("params."@ + key + " must be a string"@),
        truth_param(tree, key) == Err::<bool, _>("params."@ + key + " must be a bool"@),
        object_param(tree, key) == Err::<Map<Seq<char>, JsonTree>, _>(
            "params."@ + key + " must be an object"@,
        ),
{
}

} // verus!
