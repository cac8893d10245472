//! Requests of clients, and the frames that answer them.

use vstd::prelude::*;

use crate::json::{
    json_as_i64, json_as_str, json_clone, json_get, json_i64, json_object, json_parse, json_print,
    json_read, json_string, json_text, json_tree, map_insert, map_new, member, no_members, text_in,
    JsonTree,
};
use crate::text::same_text;

verus! {

/// A request of a client.
#[derive(Debug)]
pub struct RpcRequest {
    pub id: i64,
    pub method: String,
    pub params: serde_json::Value,
}

pub struct RpcRequestView {
    pub id: int,
    pub method: Seq<char>,
    pub params: JsonTree,
}

impl View for RpcRequest {
    type V = RpcRequestView;

    open spec fn view(&self) -> RpcRequestView {
        RpcRequestView {
            id: self.id as int,
            method: self.method@,
            params: json_tree(self.params),
        }
    }
}

/// The id in a field, if it is there and is an integer that fits.
pub open spec fn id_in(field: Option<JsonTree>) -> Option<int> {
    match field {
        Some(JsonTree::Int(n)) => if i64::MIN <= n <= i64::MAX {
            Some(n)
        } else {
            None
        },
        _ => None,
    }
}

/// The request that a tree is: none unless it says that it is one, and has an id
/// and a method. Parameters that are not there are an empty object.
pub open spec fn request_in(tree: JsonTree) -> Option<RpcRequestView> {
    let id = id_in(member(tree, "id"@));
    let method = text_in(member(tree, "method"@));
    if text_in(member(tree, "type"@)) == Some("rpc"@) && id is Some && method is Some {
        Some(
            RpcRequestView {
                id: id->0,
                method: method->0,
                params: match member(tree, "params"@) {
                    Some(params) => params,
                    None => JsonTree::Object(no_members()),
                },
            },
        )
    } else {
        None
    }
}

/// The request in a message of a client. Anything else is passed over.
pub fn read_request(text: &str) -> (r: Option<RpcRequest>)
    ensures
        match json_parse(text@) {
            Some(tree) => match r {
                Some(request) => request_in(tree) == Some(request@),
                None => request_in(tree) is None,
            },
            None => r is None,
        },
{
    let value = match json_read(text) {
        Some(value) => value,
        None => {
            return None;
        },
    };
    match json_get(&value, "type") {
        Some(kind) => match json_as_str(kind) {
            Some(kind) => if !same_text(kind, "rpc") {
                return None;
            },
            None => {
                return None;
            },
        },
        None => {
            return None;
        },
    }
    let id: i64 = match json_get(&value, "id") {
        Some(id) => match json_as_i64(id) {
            Some(id) => id,
            None => {
                return None;
            },
        },
        None => {
            return None;
        },
    };
    let method = match json_get(&value, "method") {
        Some(method) => match json_as_str(method) {
            Some(method) => method.to_owned(),
            None => {
                return None;
            },
        },
        None => {
            return None;
        },
    };
    let params = match json_get(&value, "params") {
        Some(params) => json_clone(params),
        None => json_object(map_new()),
    };
    Some(RpcRequest { id, method, params })
}

/// The frame that answers a request: its result, or what went wrong. A handler
/// that came to no end is an internal error.
pub open spec fn response_tree(
    id: int,
    outcome: Option<Result<JsonTree, Seq<char>>>,
) -> JsonTree {
    match outcome {
        Some(Ok(result)) => JsonTree::Object(
            no_members().insert("type"@, JsonTree::Text("rpc-result"@)).insert(
                "id"@,
                JsonTree::Int(id),
            ).insert("result"@, result),
        ),
        Some(Err(error)) => error_tree(id, error),
        None => error_tree(id, "internal error"@),
    }
}

/// The frame that says what went wrong.
pub open spec fn error_tree(id: int, error: Seq<char>) -> JsonTree {
    JsonTree::Object(
        no_members().insert("type"@, JsonTree::Text("rpc-error"@)).insert(
            "id"@,
            JsonTree::Int(id),
        ).insert("error"@, JsonTree::Text(error)),
    )
}

/// What a request came to.
pub open spec fn replied(r: Result<serde_json::Value, String>) -> Result<JsonTree, Seq<char>> {
    match r {
        Ok(value) => Ok(json_tree(value)),
        Err(error) => Err(error@),
    }
}

/// The frame that answers a request, whose handler returned `outcome` if it came
/// to an end.
pub fn response_json(id: i64, outcome: Option<Result<serde_json::Value, String>>) -> (r: String)
    ensures
        r@ == json_text(
            response_tree(
                id as int,
                match outcome {
                    Some(outcome) => Some(replied(outcome)),
                    None => None,
                },
            ),
        ),
{
    match outcome {
        Some(Ok(result)) => {
            let mut members = map_new();
            map_insert(&mut members, "type", json_string("rpc-result"));
            map_insert(&mut members, "id", json_i64(id));
            map_insert(&mut members, "result", result);
            json_print(&json_object(members))
        },
        Some(Err(error)) => error_json(id, error.as_str()),
        None => error_json(id, "internal error"),
    }
}

fn error_json(id: i64, error: &str) -> (r: String)
    ensures
        r@ == json_text(error_tree(id as int, error@)),
{
    let mut members = map_new();
    map_insert(&mut members, "type", json_string("rpc-error"));
    map_insert(&mut members, "id", json_i64(id));
    map_insert(&mut members, "error", json_string(error));
    json_print(&json_object(members))
}

/// Every answer carries the id of its request.
pub proof fn law_answers_carry_the_id(id: int, outcome: Option<Result<JsonTree, Seq<char>>>)
    ensures
        member(response_tree(id, outcome), "id"@) == Some(JsonTree::Int(id)),
{
    reveal_strlit("type");
    reveal_strlit("id");
    reveal_strlit("result");
    reveal_strlit("error");
    assert("id"@.len() == 2 && "result"@.len() == 6 && "error"@.len() == 5);
}

/// A tree is a request just if it says that it is one, and has an integer that fits for its id
/// and a text for its method. The request has these, and the parameters if there are any, and
/// else an empty object.
pub proof fn law_a_request_says_what_it_is(members: Map<Seq<char>, JsonTree>)
    ensures
        ({
            let tree = JsonTree::Object(members);
            let says = members.dom().contains("type"@) && members["type"@] == JsonTree::Text("rpc"@);
            let id = members.dom().contains("id"@) && (members["id"@] matches JsonTree::Int(n) && -9223372036854775808
                <= n <= 9223372036854775807);
            let method = members.dom().contains("method"@) && members["method"@] is Text;
            &&& request_in(tree) is Some <==> says && id && method
            &&& request_in(tree) matches Some(request) ==> {
                &&& members["id"@] == JsonTree::Int(request.id)
                &&& members["method"@] == JsonTree::Text(request.method)
                &&& members.dom().contains("params"@) ==> request.params == members["params"@]
                &&& !members.dom().contains("params"@) ==> (request.params matches JsonTree::Object(
                    none,
                ) && none.dom() =~= Set::empty())
            }
        }),
{
}

/// Nothing but an object is a request.
pub proof fn law_only_an_object_is_a_request(tree: JsonTree)
    ensures
        !(tree is Object) ==> request_in(tree) is None,
{
}

/// What a request came to is answered with its id, as a result.
pub proof fn law_a_result_is_answered_as_it_is(id: int, result: JsonTree)
    ensures
        response_tree(id, Some(Ok(result))) matches JsonTree::Object(members) && {
            &&& members.dom() =~= set![
                "type"@,
                "id"@,
                "result"@,
            ]
            &&& members["type"@] == JsonTree::Text("rpc-result"@)
            &&& members["id"@] == JsonTree::Int(id)
            &&& members["result"@] == result
        },
{
    reveal_strlit("type");
    reveal_strlit("id");
    reveal_strlit("result");
    assert("id"@.len() == 2);
    assert("type"@.len() == 4);
    assert("result"@.len() == 6);
}

/// What went wrong with a request is answered with its id, in words.
pub proof fn law_an_error_is_answered_in_words(id: int, error: Seq<char>)
    ensures
        response_tree(id, Some(Err(error))) matches JsonTree::Object(members) && {
            &&& members.dom() =~= set![
                "type"@,
                "id"@,
                "error"@,
            ]
            &&& members["type"@] == JsonTree::Text("rpc-error"@)
            &&& members["id"@] == JsonTree::Int(id)
            &&& members["error"@] == JsonTree::Text(error)
        },
{
    reveal_strlit("type");
    reveal_strlit("id");
    reveal_strlit("error");
    assert("id"@.len() == 2);
    assert("type"@.len() == 4);
    assert("error"@.len() == 5);
}

/// A request whose handler came to no end is answered with its id, as an internal error.
pub proof fn law_a_handler_without_an_end_is_an_internal_error(id: int)
    ensures
        response_tree(id, None) matches JsonTree::Object(members) && {
            &&& members.dom() =~= set![
                "type"@,
                "id"@,
                "error"@,
            ]
            &&& members["type"@] == JsonTree::Text("rpc-error"@)
            &&& members["id"@] == JsonTree::Int(id)
            &&& members["error"@] == JsonTree::Text("internal error"@)
        },
{
    reveal_strlit("type");
    reveal_strlit("id");
    reveal_strlit("error");
    assert("id"@.len() == 2);
    assert("type"@.len() == 4);
    assert("error"@.len() == 5);
}

} // verus!
