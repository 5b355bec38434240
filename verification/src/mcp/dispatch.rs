//! Request handling of `mc mcp`: member lookup on parsed values, the
//! JSON-RPC envelope checks and method routing, and the JSON-RPC
//! response texts. Running a tool is the caller's part.
use crate::escape::{quoted, EscapeSet};
use crate::mcp::emit::{emit_json, json_emit, json_emit_string};
use crate::mcp::{json_members, json_model, json_models, json_spec, parse_json, JsonModel, JsonValue};
use crate::text::{cat, i64_to_string, int_decimal, lit, push_str, str_eq};
use vstd::prelude::*;

verus! {

// ---------------------------------------------------------------------------
// Lookups
// ---------------------------------------------------------------------------

/// The value of the first member named `k`.
pub open spec fn member_get(ms: Seq<(Seq<char>, JsonModel)>, k: Seq<char>) -> Option<JsonModel>
    decreases ms.len(),
{
    if ms.len() == 0 {
        None
    } else {
        match member_get(ms.drop_last(), k) {
            Some(v) => Some(v),
            None => if ms.last().0 == k {
                Some(ms.last().1)
            } else {
                None
            },
        }
    }
}

/// Member `k` of an object; nothing for any other value.
pub open spec fn get_model(v: JsonModel, k: Seq<char>) -> Option<JsonModel> {
    match v {
        JsonModel::Object(ms) => member_get(ms, k),
        _ => None,
    }
}

/// A lookup that found `k` in a prefix finds the same value in the whole.
pub proof fn lemma_member_get_prefix(s: Seq<(String, JsonValue)>, n: int, k: Seq<char>)
    requires
        0 <= n <= s.len(),
        member_get(json_members(s.take(n)), k) is Some,
    ensures
        member_get(json_members(s), k) == member_get(json_members(s.take(n)), k),
    decreases s.len() - n,
{
    if n < s.len() {
        let t = s.take(n + 1);
        assert(t.drop_last() =~= s.take(n));
        let jm = json_members(t);
        assert(jm == json_members(s.take(n)).push((t.last().0@, json_model(t.last().1))));
        assert(jm.drop_last() =~= json_members(s.take(n)));
        lemma_member_get_prefix(s, n + 1, k);
    } else {
        assert(s.take(n) =~= s);
    }
}

impl JsonValue {
    /// The first member named `key` of an object.
    #[verifier::loop_isolation(false)]
    pub fn get(&self, key: &str) -> (r: Option<&JsonValue>)
        ensures
            match r {
                Some(x) => get_model(json_model(*self), key@) == Some(json_model(*x)),
                None => get_model(json_model(*self), key@) is None,
            },
    {
        match self {
            JsonValue::Object(o) => {
                let mut i: usize = 0;
                assert(o@.take(0) =~= Seq::<(String, JsonValue)>::empty());
                while i < o.len()
                    invariant
                        i <= o@.len(),
                        member_get(json_members(o@.take(i as int)), key@) is None,
                    decreases o@.len() - i,
                {
                    let ghost p = o@.take(i as int + 1);
                    assert(p.drop_last() =~= o@.take(i as int));
                    assert(p.last() == o@[i as int]);
                    let ghost jm = json_members(p);
                    assert(jm == json_members(o@.take(i as int)).push(
                        (o@[i as int].0@, json_model(o@[i as int].1)),
                    ));
                    assert(jm.drop_last() =~= json_members(o@.take(i as int)));
                    if str_eq(o[i].0.as_str(), key) {
                        proof {
                            lemma_member_get_prefix(o@, i as int + 1, key@);
                        }
                        return Some(&o[i].1);
                    }
                    i += 1;
                }
                assert(o@.take(o@.len() as int) =~= o@);
                None
            },
            _ => None,
        }
    }

    /// The text of a string value.
    pub fn as_str(&self) -> (r: Option<&str>)
        ensures
            match json_model(*self) {
                JsonModel::Str(s) => r matches Some(t) && t@ == s,
                _ => r is None,
            },
    {
        match self {
            JsonValue::String(s) => Some(s.as_str()),
            _ => None,
        }
    }

    /// A copy of the text of a string value.
    pub fn as_str_owned(&self) -> (r: Option<String>)
        ensures
            match json_model(*self) {
                JsonModel::Str(s) => r matches Some(t) && t@ == s,
                _ => r is None,
            },
    {
        match self {
            JsonValue::String(s) => Some(s.clone()),
            _ => None,
        }
    }

    /// The members of an object.
    pub fn as_object(&self) -> (r: Option<&Vec<(String, JsonValue)>>)
        ensures
            match *self {
                JsonValue::Object(o) => r == Some(&o),
                _ => r is None,
            },
    {
        match self {
            JsonValue::Object(o) => Some(o),
            _ => None,
        }
    }

    /// A boolean value.
    pub fn as_bool(&self) -> (r: Option<bool>)
        ensures
            r == (match json_model(*self) {
                JsonModel::Bool(b) => Some(b),
                _ => None,
            }),
    {
        match self {
            JsonValue::Bool(b) => Some(*b),
            _ => None,
        }
    }

    /// A boolean value, or the string `"true"` / `"false"`.
    pub fn as_bool_coerced(&self) -> (r: Option<bool>)
        ensures
            r == (match json_model(*self) {
                JsonModel::Bool(b) => Some(b),
                JsonModel::Str(s) => if s == "true"@ {
                    Some(true)
                } else if s == "false"@ {
                    Some(false)
                } else {
                    None
                },
                _ => None,
            }),
    {
        match self {
            JsonValue::Bool(b) => Some(*b),
            JsonValue::String(s) => {
                if str_eq(s.as_str(), "true") {
                    Some(true)
                } else if str_eq(s.as_str(), "false") {
                    Some(false)
                } else {
                    None
                }
            },
            _ => None,
        }
    }

    /// A lookup that is the same as [`JsonValue::get`].
    pub fn get_field(&self, key: &str) -> (r: Option<&JsonValue>)
        ensures
            match r {
                Some(x) => get_model(json_model(*self), key@) == Some(json_model(*x)),
                None => get_model(json_model(*self), key@) is None,
            },
    {
        self.get(key)
    }
}

/// A deep copy of a value.
#[verifier::loop_isolation(false)]
pub fn json_clone(v: &JsonValue) -> (r: JsonValue)
    ensures
        json_model(r) == json_model(*v),
    decreases v,
{
    match v {
        JsonValue::Null => JsonValue::Null,
        JsonValue::Bool(b) => JsonValue::Bool(*b),
        JsonValue::Number(n) => JsonValue::Number(n.clone()),
        JsonValue::String(s) => JsonValue::String(s.clone()),
        JsonValue::Array(a) => {
            let mut out: Vec<JsonValue> = Vec::new();
            let mut i: usize = 0;
            while i < a.len()
                invariant
                    i <= a@.len(),
                    out@.len() == i,
                    json_models(out@) == json_models(a@.take(i as int)),
                decreases a@.len() - i,
            {
                proof {
                    assert(decreases_to!(*v => (*v)->Array_0));
                    assert(decreases_to!(*a => a@));
                    assert(decreases_to!(a@ => a@[i as int]));
                }
                let x = json_clone(&a[i]);
                let ghost prev = out@;
                out.push(x);
                assert(out@.drop_last() =~= prev);
                assert(a@.take(i as int + 1).drop_last() =~= a@.take(i as int));
                i += 1;
            }
            assert(a@.take(a@.len() as int) =~= a@);
            JsonValue::Array(out)
        },
        JsonValue::Object(o) => {
            let mut out: Vec<(String, JsonValue)> = Vec::new();
            let mut i: usize = 0;
            while i < o.len()
                invariant
                    i <= o@.len(),
                    out@.len() == i,
                    json_members(out@) == json_members(o@.take(i as int)),
                decreases o@.len() - i,
            {
                proof {
                    assert(decreases_to!(*v => (*v)->Object_0));
                    assert(decreases_to!(*o => o@));
                    assert(decreases_to!(o@ => o@[i as int]));
                    assert(decreases_to!(o@[i as int] => o@[i as int].1));
                }
                let x = json_clone(&o[i].1);
                let k = o[i].0.clone();
                let ghost prev = out@;
                out.push((k, x));
                assert(out@.drop_last() =~= prev);
                assert(o@.take(i as int + 1).drop_last() =~= o@.take(i as int));
                i += 1;
            }
            assert(o@.take(o@.len() as int) =~= o@);
            JsonValue::Object(out)
        },
    }
}

// ---------------------------------------------------------------------------
// Responses
// ---------------------------------------------------------------------------

/// The text of a JSON-RPC success response.
pub open spec fn success_text(id: JsonModel, result: JsonModel) -> Seq<char> {
    "{\"jsonrpc\":\"2.0\",\"id\":"@ + emit_json(id) + ",\"result\":"@ + emit_json(result) + "}"@
}

/// The text of a JSON-RPC error response.
pub open spec fn error_text(id: JsonModel, code: i64, message: Seq<char>) -> Seq<char> {
    "{\"jsonrpc\":\"2.0\",\"id\":"@ + emit_json(id) + ",\"error\":{\"code\":"@ + int_decimal(
        code as int,
    ) + ",\"message\":"@ + quoted(EscapeSet::Full, message) + "}}"@
}

/// A JSON-RPC success response for request `id`.
pub fn success_response(id: &JsonValue, result: &JsonValue) -> (r: String)
    ensures
        r@ == success_text(json_model(*id), json_model(*result)),
{
    let mut s = lit("{\"jsonrpc\":\"2.0\",\"id\":");
    json_emit(&mut s, id);
    push_str(&mut s, ",\"result\":");
    json_emit(&mut s, result);
    push_str(&mut s, "}");
    s
}

/// A JSON-RPC error response for request `id`.
pub fn error_response(id: &JsonValue, code: i64, msg: &str) -> (r: String)
    ensures
        r@ == error_text(json_model(*id), code, msg@),
{
    let mut s = lit("{\"jsonrpc\":\"2.0\",\"id\":");
    json_emit(&mut s, id);
    push_str(&mut s, ",\"error\":{\"code\":");
    let c = i64_to_string(code);
    push_str(&mut s, c.as_str());
    push_str(&mut s, ",\"message\":");
    json_emit_string(&mut s, msg);
    push_str(&mut s, "}}");
    s
}

// ---------------------------------------------------------------------------
// Request routing
// ---------------------------------------------------------------------------

/// The methods a request can run.
#[derive(Debug, Clone, Copy, PartialEq, Eq, Structural)]
pub enum Route {
    Initialize,
    ToolsList,
    ToolsCall,
    Ping,
}

/// What to do with one request line.
#[derive(Debug)]
pub enum RequestPlan {
    /// Answer at once with this error.
    Reject { id: JsonValue, code: i64, message: String },
    /// Answer nothing.
    Ignore,
    /// Run `route` with `params`; answer the request id `reply_to`, or
    /// nothing when the request is a notification (no id).
    Dispatch { reply_to: Option<JsonValue>, route: Route, params: JsonValue },
}

/// The value a [`RequestPlan`] stands for.
pub enum PlanModel {
    Reject { id: JsonModel, code: i64, message: Seq<char> },
    Ignore,
    Dispatch { reply_to: Option<JsonModel>, route: Route, params: JsonModel },
}

pub open spec fn plan_model(p: RequestPlan) -> PlanModel {
    match p {
        RequestPlan::Reject { id, code, message } => PlanModel::Reject {
            id: json_model(id),
            code,
            message: message@,
        },
        RequestPlan::Ignore => PlanModel::Ignore,
        RequestPlan::Dispatch { reply_to, route, params } => PlanModel::Dispatch {
            reply_to: match reply_to {
                Some(i) => Some(json_model(i)),
                None => None,
            },
            route,
            params: json_model(params),
        },
    }
}

/// How a request line is answered: a parse failure or a malformed envelope
/// is an error for id `null` (or the request's id where it has one); a
/// known method is run; `initialized` and unknown-method notifications get
/// no answer.
pub open spec fn request_plan(raw: Seq<char>) -> PlanModel {
    match json_spec(raw) {
        Err(e) => PlanModel::Reject { id: JsonModel::Null, code: -32700i64, message: "parse error: "@ + e },
        Ok(v) => match v {
            JsonModel::Object(ms) => {
                let id = member_get(ms, "id"@);
                let id_or_null = match id {
                    Some(x) => x,
                    None => JsonModel::Null,
                };
                let params = match member_get(ms, "params"@) {
                    Some(p) => p,
                    None => JsonModel::Null,
                };
                if member_get(ms, "jsonrpc"@) != Some(JsonModel::Str("2.0"@)) {
                    PlanModel::Reject { id: id_or_null, code: -32600i64, message: "jsonrpc must be \"2.0\""@ }
                } else {
                    match member_get(ms, "method"@) {
                        Some(JsonModel::Str(m)) => if m == "initialize"@ {
                            PlanModel::Dispatch { reply_to: id, route: Route::Initialize, params }
                        } else if m == "notifications/initialized"@ || m == "initialized"@ {
                            PlanModel::Ignore
                        } else if m == "tools/list"@ {
                            PlanModel::Dispatch { reply_to: id, route: Route::ToolsList, params }
                        } else if m == "tools/call"@ {
                            PlanModel::Dispatch { reply_to: id, route: Route::ToolsCall, params }
                        } else if m == "ping"@ {
                            PlanModel::Dispatch { reply_to: id, route: Route::Ping, params }
                        } else if id is None {
                            PlanModel::Ignore
                        } else {
                            PlanModel::Reject {
                                id: id_or_null,
                                code: -32601i64,
                                message: "method not found: "@ + m,
                            }
                        },
                        _ => PlanModel::Reject { id: id_or_null, code: -32600i64, message: "missing method"@ },
                    }
                }
            },
            _ => PlanModel::Reject {
                id: JsonModel::Null,
                code: -32600i64,
                message: "request must be a JSON object"@,
            },
        },
    }
}

/// A copy of an optional member, or `null`.
fn member_or_null(v: &JsonValue, key: &str) -> (r: JsonValue)
    ensures
        json_model(r) == (match get_model(json_model(*v), key@) {
            Some(x) => x,
            None => JsonModel::Null,
        }),
{
    match v.get(key) {
        Some(x) => json_clone(x),
        None => JsonValue::Null,
    }
}

/// Decide how to answer one request line.
pub fn handle_request(raw: &str) -> (r: RequestPlan)
    ensures
        plan_model(r) == request_plan(raw@),
{
    let parsed = match parse_json(raw) {
        Ok(v) => v,
        Err(e) => {
            return RequestPlan::Reject {
                id: JsonValue::Null,
                code: -32700i64,
                message: cat("parse error: ", e.as_str()),
            };
        },
    };
    if parsed.as_object().is_none() {
        return RequestPlan::Reject {
            id: JsonValue::Null,
            code: -32600i64,
            message: lit("request must be a JSON object"),
        };
    }
    let ghost ms = json_model(parsed)->Object_0;
    let jsonrpc_ok = match parsed.get("jsonrpc") {
        Some(j) => match j.as_str() {
            Some(t) => str_eq(t, "2.0"),
            None => false,
        },
        None => false,
    };
    if !jsonrpc_ok {
        return RequestPlan::Reject {
            id: member_or_null(&parsed, "id"),
            code: -32600i64,
            message: lit("jsonrpc must be \"2.0\""),
        };
    }
    let method = match parsed.get("method") {
        Some(m) => match m.as_str_owned() {
            Some(t) => t,
            None => {
                return RequestPlan::Reject {
                    id: member_or_null(&parsed, "id"),
                    code: -32600i64,
                    message: lit("missing method"),
                };
            },
        },
        None => {
            return RequestPlan::Reject {
                id: member_or_null(&parsed, "id"),
                code: -32600i64,
                message: lit("missing method"),
            };
        },
    };
    let id = match parsed.get("id") {
        Some(x) => Some(json_clone(x)),
        None => None,
    };
    let params = member_or_null(&parsed, "params");
    let m = method.as_str();
    if str_eq(m, "initialize") {
        RequestPlan::Dispatch { reply_to: id, route: Route::Initialize, params }
    } else if str_eq(m, "notifications/initialized") || str_eq(m, "initialized") {
        RequestPlan::Ignore
    } else if str_eq(m, "tools/list") {
        RequestPlan::Dispatch { reply_to: id, route: Route::ToolsList, params }
    } else if str_eq(m, "tools/call") {
        RequestPlan::Dispatch { reply_to: id, route: Route::ToolsCall, params }
    } else if str_eq(m, "ping") {
        RequestPlan::Dispatch { reply_to: id, route: Route::Ping, params }
    } else {
        match id {
            None => RequestPlan::Ignore,
            Some(i) => RequestPlan::Reject {
                id: i,
                code: -32601i64,
                message: cat("method not found: ", m),
            },
        }
    }
}

/// The members of a request line that parses to an object.
pub open spec fn request_members(raw: Seq<char>) -> Option<Seq<(Seq<char>, JsonModel)>> {
    match json_spec(raw) {
        Ok(JsonModel::Object(ms)) => Some(ms),
        _ => None,
    }
}

/// The method of a well-formed request: an object with `jsonrpc` "2.0"
/// and a string `method`.
pub open spec fn request_method(raw: Seq<char>) -> Option<Seq<char>> {
    match request_members(raw) {
        Some(ms) => if member_get(ms, "jsonrpc"@) == Some(JsonModel::Str("2.0"@)) {
            match member_get(ms, "method"@) {
                Some(JsonModel::Str(m)) => Some(m),
                _ => None,
            }
        } else {
            None
        },
        None => None,
    }
}

/// The id of a request that parses to an object.
pub open spec fn request_id(raw: Seq<char>) -> Option<JsonModel> {
    match request_members(raw) {
        Some(ms) => member_get(ms, "id"@),
        None => None,
    }
}

/// A well-formed request that carries no `id` is a notification: it is
/// never answered, whatever its method.
pub proof fn law_notifications_get_no_reply(raw: Seq<char>)
    requires
        request_method(raw) is Some,
        request_id(raw) is None,
    ensures
        request_plan(raw) is Ignore || request_plan(raw) matches PlanModel::Dispatch {
            reply_to: None,
            ..
        },
{
}

/// A well-formed request that carries an `id` is answered under that id:
/// its method is run and answered, or it is refused with an error for
/// that id; only the `initialized` notification methods go unanswered.
pub proof fn law_requests_get_a_reply(raw: Seq<char>)
    requires
        request_method(raw) matches Some(m) && m != "initialized"@ && m
            != "notifications/initialized"@,
        request_id(raw) is Some,
    ensures
        (request_plan(raw) matches PlanModel::Dispatch { reply_to: Some(i), .. } && i
            == request_id(raw)->0) || (request_plan(raw) matches PlanModel::Reject { id: i, .. }
            && i == request_id(raw)->0),
{
}

} // verus!
