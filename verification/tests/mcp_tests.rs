use mc_cli::mcp::dispatch::{error_response, handle_request, success_response, RequestPlan, Route};
use mc_cli::mcp::emit::json_emit;
use mc_cli::mcp::tools::{handle_tools_call, handle_tools_list, Tool};
use mc_cli::mcp::{parse_json, JsonValue};

fn emit(v: &JsonValue) -> String {
    let mut s = String::new();
    json_emit(&mut s, v);
    s
}

#[test]
fn json_round_trip_of_emitted_text() {
    let src = r#" { "a" : [1, -2.5e3, true, null, "x\ny\u00e9\"" ], "b": {} } "#;
    let v = parse_json(src).expect("valid json");
    let text = emit(&v);
    assert_eq!(text, "{\"a\":[1,-2.5e3,true,null,\"x\\nyé\\\"\"],\"b\":{}}");
    let again = parse_json(&text).expect("emitted text parses");
    assert_eq!(emit(&again), text);
}

#[test]
fn json_reader_reports_byte_offsets() {
    assert_eq!(parse_json("[1] x").unwrap_err(), "trailing garbage at byte 4");
    assert!(parse_json("").is_err());
    assert!(parse_json("{\"a\" 1}").is_err());
}

#[test]
fn requests_are_routed_or_rejected() {
    match handle_request(r#"{"jsonrpc":"2.0","id":7,"method":"tools/list"}"#) {
        RequestPlan::Dispatch { reply_to: Some(id), route, .. } => {
            assert_eq!(route, Route::ToolsList);
            assert_eq!(emit(&id), "7");
        }
        other => panic!("got {other:?}"),
    }
    assert!(matches!(
        handle_request(r#"{"jsonrpc":"2.0","method":"notifications/initialized"}"#),
        RequestPlan::Ignore
    ));
    assert!(matches!(
        handle_request(r#"{"jsonrpc":"2.0","method":"ping"}"#),
        RequestPlan::Dispatch { reply_to: None, route: Route::Ping, .. }
    ));
    match handle_request(r#"{"jsonrpc":"1.0","id":"q","method":"ping"}"#) {
        RequestPlan::Reject { id, code, message } => {
            assert_eq!(code, -32600);
            assert_eq!(message, "jsonrpc must be \"2.0\"");
            assert_eq!(emit(&id), "\"q\"");
        }
        other => panic!("got {other:?}"),
    }
    match handle_request(r#"{"jsonrpc":"2.0","id":1,"method":"nope"}"#) {
        RequestPlan::Reject { code, message, .. } => {
            assert_eq!(code, -32601);
            assert_eq!(message, "method not found: nope");
        }
        other => panic!("got {other:?}"),
    }
    match handle_request("not json") {
        RequestPlan::Reject { code, message, .. } => {
            assert_eq!(code, -32700);
            assert!(message.starts_with("parse error: "), "{message}");
        }
        other => panic!("got {other:?}"),
    }
}

#[test]
fn responses_wrap_the_id() {
    let id = parse_json("3").unwrap();
    let result = parse_json("{\"ok\":true}").unwrap();
    assert_eq!(success_response(&id, &result), "{\"jsonrpc\":\"2.0\",\"id\":3,\"result\":{\"ok\":true}}");
    assert_eq!(
        error_response(&id, -32601, "no \"x\""),
        "{\"jsonrpc\":\"2.0\",\"id\":3,\"error\":{\"code\":-32601,\"message\":\"no \\\"x\\\"\"}}"
    );
}

#[test]
fn every_listed_tool_can_be_called() {
    let list = handle_tools_list();
    let tools = match list.get("tools") {
        Some(JsonValue::Array(v)) => v,
        other => panic!("got {other:?}"),
    };
    assert_eq!(tools.len(), 12);
    for t in tools {
        let name = t.get("name").and_then(|n| n.as_str()).expect("tool name");
        let call = parse_json(&format!("{{\"name\":\"{name}\",\"arguments\":{{}}}}")).unwrap();
        let (tool, _args) = handle_tools_call(&call).expect("listed tool is callable");
        assert_eq!(tool.name(), name);
        assert_eq!(Tool::from_name(name), Some(tool));
    }
    assert!(handle_tools_call(&parse_json("{\"name\":\"mosaic.nope\"}").unwrap()).is_err());
}

use mc_cli::mcp::respond::{answer, Answer};

fn replied(line: &str) -> Option<String> {
    match answer(line) {
        Answer::Reply(r) => r,
        other => panic!("expected a reply, got {other:?}"),
    }
}

#[test]
fn requests_answered_by_the_library() {
    assert_eq!(
        replied(r#"{"jsonrpc":"2.0","id":1,"method":"ping"}"#),
        Some(r#"{"jsonrpc":"2.0","id":1,"result":{}}"#.to_string())
    );
    assert_eq!(replied(r#"{"jsonrpc":"2.0","method":"ping"}"#), None);
    assert_eq!(
        replied(r#"{"jsonrpc":"2.0","id":2,"method":"nope"}"#),
        Some(r#"{"jsonrpc":"2.0","id":2,"error":{"code":-32601,"message":"method not found: nope"}}"#.to_string())
    );
    assert_eq!(replied(r#"{"jsonrpc":"2.0","method":"notifications/initialized"}"#), None);
    let list = replied(r#"{"jsonrpc":"2.0","id":3,"method":"tools/list"}"#).unwrap();
    assert!(list.starts_with(r#"{"jsonrpc":"2.0","id":3,"result":{"tools":[{"name":"mosaic.demo""#), "got {list}");
    match answer(r#"{"jsonrpc":"2.0","id":4,"method":"tools/call","params":{"name":"mosaic.model.validate","arguments":{"path":"m.yaml"}}}"#) {
        Answer::RunTool { tool, .. } => assert_eq!(tool.name(), "mosaic.model.validate"),
        other => panic!("expected a tool run, got {other:?}"),
    }
}

#[test]
fn tools_list_marks_required_arguments() {
    let list = replied(r#"{"jsonrpc":"2.0","id":1,"method":"tools/list"}"#).unwrap();
    assert!(list.contains(r#"{"name":"mosaic.model.validate","description":"Parse + structural + fixture/CSV validation. Returns the Phase 3B diagnostic JSON envelope.","inputSchema":{"type":"object","properties":{"path":{"type":"string","description":"Path to a Mosaic YAML model."}},"required":["path"]}}"#), "got {list}");
}
