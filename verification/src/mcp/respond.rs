//! The answer to one request line of `mc mcp`: the reply text for every
//! request the server settles itself, and, for a `tools/call` that names a
//! known tool, the tool and arguments to run. The reply to a tool run is
//! made by [`reply`] from the tool's result.
use crate::mcp::dispatch::{
    error_response, error_text, handle_request, request_plan, success_response, success_text, PlanModel,
    RequestPlan, Route,
};
use crate::mcp::tools::{
    handle_initialize, handle_tools_call, handle_tools_list, initialize_model, tools_call_plan,
    tools_list_model, Tool,
};
use crate::mcp::{json_model, JsonModel, JsonValue};
use vstd::prelude::*;

verus! {

/// The reply to a request with id `reply_to` (none for a notification):
/// the result, or the error code and message.
pub open spec fn reply_text(reply_to: Option<JsonModel>, result: Result<JsonModel, (i64, Seq<char>)>) -> Option<
    Seq<char>,
> {
    match reply_to {
        None => None,
        Some(id) => Some(
            match result {
                Ok(v) => success_text(id, v),
                Err((c, m)) => error_text(id, c, m),
            },
        ),
    }
}

/// How one request line is answered.
#[derive(Debug)]
pub enum Answer {
    /// Write this line, or nothing.
    Reply(Option<String>),
    /// Run `tool` on `args`, then answer with [`reply`].
    RunTool { reply_to: Option<JsonValue>, tool: Tool, args: JsonValue },
}

pub enum AnswerModel {
    Reply(Option<Seq<char>>),
    RunTool { reply_to: Option<JsonModel>, tool: Tool, args: JsonModel },
}

pub open spec fn opt_json(o: Option<JsonValue>) -> Option<JsonModel> {
    match o {
        Some(v) => Some(json_model(v)),
        None => None,
    }
}

pub open spec fn answer_model(a: Answer) -> AnswerModel {
    match a {
        Answer::Reply(r) => AnswerModel::Reply(
            match r {
                Some(t) => Some(t@),
                None => None,
            },
        ),
        Answer::RunTool { reply_to, tool, args } => AnswerModel::RunTool {
            reply_to: opt_json(reply_to),
            tool,
            args: json_model(args),
        },
    }
}

/// The answer to a request line: refusals are answered with their error,
/// `initialize`, `tools/list` and `ping` with their results (an empty
/// object for `ping`), a malformed `tools/call` with its error, and a
/// well-formed one by running its tool. Requests without an id get no
/// reply.
pub open spec fn answer_spec(raw: Seq<char>) -> AnswerModel {
    match request_plan(raw) {
        PlanModel::Reject { id, code, message } => AnswerModel::Reply(Some(error_text(id, code, message))),
        PlanModel::Ignore => AnswerModel::Reply(None),
        PlanModel::Dispatch { reply_to, route, params } => match route {
            Route::Initialize => AnswerModel::Reply(reply_text(reply_to, Ok(initialize_model()))),
            Route::ToolsList => AnswerModel::Reply(reply_text(reply_to, Ok(tools_list_model()))),
            Route::Ping => AnswerModel::Reply(reply_text(reply_to, Ok(JsonModel::Object(Seq::empty())))),
            Route::ToolsCall => match tools_call_plan(params) {
                Err((c, m)) => AnswerModel::Reply(reply_text(reply_to, Err((c, m)))),
                Ok((t, a)) => AnswerModel::RunTool { reply_to, tool: t, args: a },
            },
        },
    }
}

/// The reply to request `reply_to` with `result`.
pub fn reply(reply_to: &Option<JsonValue>, result: &Result<JsonValue, (i64, String)>) -> (r: Option<String>)
    ensures
        match r {
            Some(t) => reply_text(
                opt_json(*reply_to),
                match result {
                    Ok(v) => Ok(json_model(*v)),
                    Err((c, m)) => Err((*c, m@)),
                },
            ) == Some(t@),
            None => reply_to is None,
        },
{
    match reply_to {
        None => None,
        Some(id) => Some(
            match result {
                Ok(v) => success_response(id, v),
                Err((c, m)) => error_response(id, *c, m.as_str()),
            },
        ),
    }
}

/// Answer one request line.
pub fn answer(raw: &str) -> (r: Answer)
    ensures
        answer_model(r) == answer_spec(raw@),
{
    match handle_request(raw) {
        RequestPlan::Reject { id, code, message } => Answer::Reply(Some(error_response(&id, code, message.as_str()))),
        RequestPlan::Ignore => Answer::Reply(None),
        RequestPlan::Dispatch { reply_to, route, params } => match route {
            Route::Initialize => {
                let v = handle_initialize();
                Answer::Reply(reply(&reply_to, &Ok(v)))
            },
            Route::ToolsList => {
                let v = handle_tools_list();
                Answer::Reply(reply(&reply_to, &Ok(v)))
            },
            Route::Ping => {
                let v = JsonValue::Object(Vec::new());
                assert(json_model(v) == JsonModel::Object(Seq::empty())) by {
                    assert(crate::mcp::json_members(Seq::<(String, JsonValue)>::empty()) =~= Seq::empty());
                }
                Answer::Reply(reply(&reply_to, &Ok(v)))
            },
            Route::ToolsCall => match handle_tools_call(&params) {
                Err((c, m)) => Answer::Reply(reply(&reply_to, &Err((c, m)))),
                Ok((tool, args)) => Answer::RunTool { reply_to, tool, args },
            },
        },
    }
}

} // verus!
