//! Requests about measurements.

use vstd::prelude::*;

use crate::json::{json_as_i64, json_get, json_tree, member, JsonTree};
use crate::rpc::params::{param_str, text_param};
use crate::rpc::profiler::{
    series_json, series_tree, summary_json, summary_tree, Ring, Subject,
};
use crate::server::request::replied;
use crate::text::{joined, same_text};

verus! {

/// What is measured, by its name in requests.
pub open spec fn subject_named(name: Seq<char>) -> Option<Subject> {
    if name == "plugin"@ {
        Some(Subject::Plugin)
    } else if name == "driver"@ {
        Some(Subject::Driver)
    } else {
        None
    }
}

/// Of what a series is asked for, and how long.
pub open spec fn series_asked(params: JsonTree) -> Result<(Subject, Seq<char>, u64), Seq<char>> {
    match text_param(params, "subject"@) {
        Err(e) => Err(e),
        Ok(name) => match subject_named(name) {
            None => Err("unknown subject: "@ + name),
            Some(subject) => match text_param(params, "id"@) {
                Err(e) => Err(e),
                Ok(id) => match member(params, "seconds"@) {
                    Some(JsonTree::Int(n)) => if 0 <= n <= i64::MAX {
                        Ok((subject, id, n as u64))
                    } else {
                        Err("params.seconds must be an integer"@)
                    },
                    _ => Err("params.seconds must be an integer"@),
                },
            },
        },
    }
}

fn series_params<'a>(params: &'a serde_json::Value) -> (r: Result<(Subject, &'a str, u64), String>)
    ensures
        series_asked(json_tree(*params)) == match r {
            Ok((subject, id, seconds)) => Ok::<_, Seq<char>>((subject, id@, seconds)),
            Err(e) => Err(e@),
        },
{
    let subject = match param_str(params, "subject") {
        Ok(name) => if same_text(name, "plugin") {
            Subject::Plugin
        } else if same_text(name, "driver") {
            Subject::Driver
        } else {
            return Err(joined("unknown subject: ", name));
        },
        Err(e) => {
            return Err(e);
        },
    };
    let id = match param_str(params, "id") {
        Ok(id) => id,
        Err(e) => {
            return Err(e);
        },
    };
    let seconds = match json_get(params, "seconds") {
        Some(value) => json_as_i64(value),
        None => None,
    };
    match seconds {
        Some(n) => if n >= 0 {
            Ok((subject, id, n as u64))
        } else {
            Err("params.seconds must be an integer".to_owned())
        },
        None => Err("params.seconds must be an integer".to_owned()),
    }
}

/// What a request about measurements is answered.
pub open spec fn profiler_reply(
    ring: Option<Ring>,
    now_sec: u64,
    method: Seq<char>,
    params: JsonTree,
) -> Result<JsonTree, Seq<char>> {
    match ring {
        None => Err("profiler unavailable"@),
        Some(ring) => if method == "profiler/summary"@ {
            Ok(summary_tree(ring, now_sec))
        } else if method == "profiler/series"@ {
            match series_asked(params) {
                Err(e) => Err(e),
                Ok((subject, id, seconds)) => Ok(series_tree(ring, subject, id, seconds, now_sec)),
            }
        } else {
            Err("unknown method: "@ + method)
        },
    }
}

/// Handles a request about measurements, which is turned down if nothing is
/// measured.
pub fn handle_profiler_rpc(
    ring: Option<&Ring>,
    now_sec: u64,
    method: &str,
    params: &serde_json::Value,
) -> (r: Result<serde_json::Value, String>)
    requires
        ring matches Some(ring) ==> ring.summable(now_sec),
    ensures
        replied(r) == profiler_reply(
            match ring {
                Some(ring) => Some(*ring),
                None => None,
            },
            now_sec,
            method@,
            json_tree(*params),
        ),
{
    let ring = match ring {
        Some(ring) => ring,
        None => {
            return Err("profiler unavailable".to_owned());
        },
    };
    if same_text(method, "profiler/summary") {
        Ok(summary_json(ring, now_sec))
    } else if same_text(method, "profiler/series") {
        match series_params(params) {
            Ok((subject, id, seconds)) => Ok(series_json(ring, subject, id, seconds, now_sec)),
            Err(e) => Err(e),
        }
    } else {
        Err(joined("unknown method: ", method))
    }
}

/// A request for a series names the kind of its subject, its id and the seconds. Each that is
/// missing or of another kind is named in the answer, the first of them.
pub proof fn law_a_series_is_asked_for_by_subject_and_seconds(
    members: Map<Seq<char>, JsonTree>,
)
    ensures
        ({
            let r = series_asked(JsonTree::Object(members));
            let kind = members.dom().contains("subject"@) && members["subject"@] is Text;
            let word = members["subject"@]->Text_0;
            let known = word == "plugin"@ || word == "driver"@;
            let id = members.dom().contains("id"@) && members["id"@] is Text;
            let seconds = members.dom().contains("seconds"@) && (
            members["seconds"@] matches JsonTree::Int(n) && 0 <= n <= 9223372036854775807);
            &&& !kind ==> r == Err::<(Subject, Seq<char>, u64), _>(
                "params."@ + "subject"@ + " must be a string"@,
            )
            &&& kind && !known ==> r == Err::<(Subject, Seq<char>, u64), _>(
                "unknown subject: "@ + word,
            )
            &&& kind && known && !id ==> r == Err::<(Subject, Seq<char>, u64), _>(
                "params."@ + "id"@ + " must be a string"@,
            )
            &&& kind && known && id && !seconds ==> r == Err::<(Subject, Seq<char>, u64), _>(
                "params.seconds must be an integer"@,
            )
            &&& kind && known && id && seconds ==> (r matches Ok(asked) && (asked.0
                == Subject::Plugin <==> word == "plugin"@) && asked.1 == members["id"@]->Text_0
                && members["seconds"@] == JsonTree::Int(asked.2 as int))
        }),
{
    reveal_strlit("plugin");
    reveal_strlit("driver");
    assert("plugin"@.len() == 6);
    assert("driver"@.len() == 6);
    assert("plugin"@[0] == 'p');
    assert("driver"@[0] == 'd');
}

/// Requests about measurements go by their name, and are turned down if nothing is measured or
/// the name is another.
pub proof fn law_requests_about_measurements_go_by_their_name(
    ring: Option<Ring>,
    now_sec: u64,
    method: Seq<char>,
    params: JsonTree,
)
    ensures
        ({
            let r = profiler_reply(ring, now_sec, method, params);
            &&& ring is None ==> r == Err::<JsonTree, _>("profiler unavailable"@)
            &&& ring matches Some(ring) ==> {
                &&& method == "profiler/summary"@ ==> r == Ok::<_, Seq<char>>(
                    summary_tree(ring, now_sec),
                )
                &&& method == "profiler/series"@ ==> match series_asked(params) {
                    Ok(asked) => r == Ok::<_, Seq<char>>(
                        series_tree(ring, asked.0, asked.1, asked.2, now_sec),
                    ),
                    Err(e) => r == Err::<JsonTree, _>(e),
                }
                &&& method != "profiler/summary"@ && method != "profiler/series"@ ==> r == Err::<
                    JsonTree,
                    _,
                >("unknown method: "@ + method)
            }
        }),
{
    reveal_strlit("profiler/summary");
    reveal_strlit("profiler/series");
    assert("profiler/series"@.len() == 15);
    assert("profiler/summary"@.len() == 16);
}

} // verus!
