use mcp_tools::io_error::{IoError, IoErrorKind};
use mcp_tools::json::Json;
use mcp_tools::lsp_rust::lsp::{LspShimError, RustAnalyzerClient, RustAnalyzerEnv};
use mcp_tools::lsp_rust::mcp::{finish_call, handle_message, initialize_result, tools_list_result, Step, Tool};
use mcp_tools::lsp_shim_core::mcp_proto::code;
use serde_json::Value;

fn value(j: &Json) -> Value {
    serde_json::from_str(&j.to_text()).unwrap()
}

/// One line, with a rust-analyzer that cannot be started.
fn serve(line: &str) -> Option<Value> {
    let env = RustAnalyzerEnv {
        binary: Some("/definitely/not/real/ra".into()),
        timeout: None,
        log_file: None,
    };
    let client = RustAnalyzerClient::new("/tmp/nonexistent-lsp-rust-test", None, &env);
    let reply = match handle_message(line) {
        Step::Silent => None,
        Step::Reply(r) => Some(r),
        Step::Shutdown { reply } => reply,
        Step::Call { id, notification, tool: _ } => {
            let e = client.launch_failed(IoError::new(IoErrorKind::NotFound, "No such file"));
            finish_call(id, notification, Err(e))
        }
    };
    reply.map(|r| value(&r))
}

#[test]
fn mcp_tools_list_enumerates_six_tools_with_schemas() {
    let result = value(&tools_list_result());
    let tools = result["tools"].as_array().expect("tools array");
    assert_eq!(tools.len(), 6, "expected 6 tools, got {}", tools.len());
    let names: Vec<&str> = tools.iter().map(|t| t["name"].as_str().expect("name")).collect();
    assert_eq!(
        names,
        [
            "definition",
            "references",
            "hover",
            "workspace_symbols",
            "diagnostics",
            "wait_for_indexing"
        ]
    );
    for tool in tools {
        assert!(tool["inputSchema"].is_object(), "tool {} missing inputSchema", tool["name"]);
        assert_eq!(tool["inputSchema"]["type"], "object");
    }
}

#[test]
fn mcp_initialize_advertises_tools_capability() {
    let result = value(&initialize_result());
    assert_eq!(result["serverInfo"]["name"], "lsp-rust");
    assert!(result["capabilities"]["tools"].is_object());
    assert!(result["protocolVersion"].is_string());
}

#[test]
fn mcp_malformed_json_returns_parse_error_not_silent_null() {
    let parsed = serve("this is not json\n").expect("reply");
    assert_eq!(parsed["error"]["code"], code::PARSE_ERROR);
    assert!(parsed["error"]["message"].as_str().unwrap().contains("malformed JSON"));
    assert!(parsed.get("result").is_none());
}

#[test]
fn mcp_tools_call_unknown_tool_returns_structured_error() {
    let parsed = serve(
        r#"{"jsonrpc":"2.0","id":7,"method":"tools/call","params":{"name":"does_not_exist","arguments":{}}}"#,
    )
    .expect("reply");
    assert_eq!(parsed["id"], 7);
    assert_eq!(parsed["error"]["code"], code::METHOD_NOT_FOUND);
    assert_eq!(parsed["error"]["data"]["error_kind"], "unknown_tool");
    assert!(parsed.get("result").is_none());
}

#[test]
fn mcp_tools_list_request_returns_six_tools() {
    let parsed = serve("{\"jsonrpc\":\"2.0\",\"id\":2,\"method\":\"tools/list\"}\n").expect("reply");
    assert_eq!(parsed["id"], 2);
    assert_eq!(parsed["result"]["tools"].as_array().expect("tools array").len(), 6);
}

#[test]
fn initialize_request_does_not_spawn_rust_analyzer() {
    let parsed =
        serve("{\"jsonrpc\":\"2.0\",\"id\":1,\"method\":\"initialize\",\"params\":{}}\n").expect("reply");
    assert_eq!(parsed["id"], 1);
    assert_eq!(parsed["result"]["serverInfo"]["name"], "lsp-rust");
    assert!(parsed.get("error").is_none());
}

#[test]
fn mcp_initialized_notification_returns_no_response() {
    assert!(serve("{\"jsonrpc\":\"2.0\",\"method\":\"notifications/initialized\"}\n").is_none());
}

#[test]
fn tools_call_definition_routes_to_backend() {
    let parsed = serve("{\"jsonrpc\":\"2.0\",\"id\":9,\"method\":\"tools/call\",\"params\":{\"name\":\"definition\",\"arguments\":{\"file\":\"/tmp/x.rs\",\"line\":1,\"column\":1}}}\n").expect("reply");
    assert_eq!(parsed["id"], 9);
    assert_eq!(parsed["error"]["code"], code::INTERNAL_ERROR);
    assert_eq!(parsed["error"]["data"]["error_kind"], "spawn");
    assert!(parsed.get("result").is_none());
}

#[test]
fn tools_come_to_questions() {
    let call = |name: &str, args: &str| {
        let line = format!(
            r#"{{"jsonrpc":"2.0","id":1,"method":"tools/call","params":{{"name":"{name}","arguments":{args}}}}}"#
        );
        match handle_message(&line) {
            Step::Call { tool, .. } => tool,
            other => panic!("got {other:?}"),
        }
    };
    let place = r#"{"file":"/x.rs","line":2,"column":3}"#;
    assert_eq!(call("definition", place).question().unwrap().method, "textDocument/definition");
    assert_eq!(call("references", place).question().unwrap().method, "textDocument/references");
    let hover = call("hover", place).question().unwrap();
    assert_eq!(hover.method, "textDocument/hover");
    assert_eq!(value(&hover.params)["position"]["character"], 2);
    let symbols = call("workspace_symbols", r#"{"query":""}"#).question().unwrap();
    assert_eq!(value(&symbols.params)["query"], "");
    let diagnostics = call("diagnostics", r#"{"file":"/x.rs"}"#).question().unwrap();
    assert_eq!(value(&diagnostics.params)["textDocument"]["uri"], "file:///x.rs");
    assert!(matches!(call("wait_for_indexing", "{}"), Tool::WaitForIndexing));
    assert!(call("wait_for_indexing", "{}").question().is_none());
}

#[test]
fn bad_arguments_are_failures_of_the_protocol() {
    let words = |name: &str, args: &str| {
        let line = format!(
            r#"{{"jsonrpc":"2.0","id":1,"method":"tools/call","params":{{"name":"{name}","arguments":{args}}}}}"#
        );
        let r = serve(&line).unwrap();
        assert_eq!(r["error"]["data"]["error_kind"], "protocol");
        r["error"]["message"].as_str().unwrap().to_string()
    };
    assert_eq!(words("hover", "{}"), "LSP protocol error: missing `file` (string)");
    assert_eq!(words("hover", r#"{"file":"f"}"#), "LSP protocol error: missing `line` (integer)");
    assert_eq!(words("hover", r#"{"file":"f","line":1}"#), "LSP protocol error: missing `column` (integer)");
    assert_eq!(
        words("workspace_symbols", "{}"),
        "LSP protocol error: workspace_symbols requires `query` (string)"
    );
    assert_eq!(words("diagnostics", "{}"), "LSP protocol error: diagnostics requires `file` (string)");
}

#[test]
fn reported_errors_carry_their_code_and_hint() {
    let e = LspShimError::Lsp { code: -32801, message: "busy".into(), retry_after_ms: Some(500) };
    let r = value(&finish_call(Json::uint(3), false, Err(e)).unwrap());
    assert_eq!(r["error"]["data"]["error_kind"], "lsp");
    assert_eq!(r["error"]["data"]["lsp_code"], -32801);
    assert_eq!(r["error"]["data"]["retry_after_ms"], 500);
    let e = LspShimError::Lsp { code: -1, message: "no".into(), retry_after_ms: None };
    let r = value(&finish_call(Json::uint(3), false, Err(e)).unwrap());
    assert!(r["error"]["data"].get("retry_after_ms").is_none());
    let r = value(&finish_call(Json::uint(3), false, Ok(Json::Null)).unwrap());
    assert_eq!(r["result"]["content"][0]["text"], "null");
    assert_eq!(r["result"]["isError"], false);
    assert!(finish_call(Json::Null, true, Ok(Json::Null)).is_none());
}

#[test]
fn unknown_methods_are_told() {
    let r = serve(r#"{"jsonrpc":"2.0","id":"a","method":"nope"}"#).unwrap();
    assert_eq!(r["id"], "a");
    assert_eq!(r["error"]["data"]["error_kind"], "method_not_found");
    assert!(serve(r#"{"jsonrpc":"2.0","method":"nope"}"#).is_none());
    let r = serve(r#"{"jsonrpc":"2.0","id":1,"method":"shutdown"}"#).unwrap();
    assert_eq!(r["result"], Value::Null);
    assert!(serve(r#"{"jsonrpc":"2.0","method":"shutdown"}"#).is_none());
}
