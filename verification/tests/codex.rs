use mcp_tools::codex_stdio::codex::{
    build_codex_exec_args, build_prompt, chat, extract_last_agent_message, for_worktree, locate_codex_binary,
    output_file_name, parse_codex_jsonl, replay_jsonl, replays_event_stream, sandbox_bypass_from_env,
    BinaryProbe, ChatMessage, ChatRequest, ExecRun, Transport,
};
use mcp_tools::codex_stdio::health;
use mcp_tools::codex_stdio::mcp::{finish_tools_call, handle_message, initialize_result, tools_list_result, Step};
use mcp_tools::json::Json;
use mcp_tools::lsp_shim_core::mcp_proto::code;
use serde_json::Value;

fn value(j: &Json) -> Value {
    serde_json::from_str(&j.to_text()).unwrap()
}

fn no_binary() -> Result<String, String> {
    locate_codex_binary(&BinaryProbe {
        custom: Some(("/no/such/binary/ever".into(), false)),
        which: None,
        canonical: true,
    })
}

/// One line, without a recording and without a binary.
fn drive(line: &str) -> Option<Value> {
    let reply = match handle_message(line) {
        Step::Silent => None,
        Step::Reply(r) => Some(r),
        Step::Health { id, notification } => {
            finish_tools_call(id, notification, health::run(None, no_binary(), None, 3))
        }
        Step::RunTask { id, notification, args } => {
            let canonical = Err("No such file".to_string());
            let planned = mcp_tools::codex_stdio::run_task::run(
                &args,
                canonical,
                "/tmp/wtpool/",
                None,
                None,
                no_binary(),
            );
            finish_tools_call(id, notification, planned.map(|_| Json::Null))
        }
    };
    reply.map(|r| value(&r))
}

#[test]
fn parse_codex_jsonl_extracts_thread_id_and_usage() {
    let stream = r#"{"type":"thread.started","thread_id":"019ddac0-c151-7a21-9835-52bf1417e6cf"}
{"type":"turn.started"}
{"type":"item.completed","item":{"id":"item_0","type":"agent_message","text":"OK"}}
{"type":"turn.completed","usage":{"input_tokens":13171,"cached_input_tokens":11648,"output_tokens":5,"reasoning_output_tokens":0}}
"#;
    let parsed = parse_codex_jsonl(stream);
    assert_eq!(parsed.thread_id.as_deref(), Some("019ddac0-c151-7a21-9835-52bf1417e6cf"));
    let usage = parsed.usage.expect("turn.completed.usage missing");
    assert_eq!(usage.prompt_tokens, 13171);
    assert_eq!(usage.completion_tokens, 5);
    assert_eq!(usage.total_tokens, 13176);
    assert_eq!(usage.cached_prompt_tokens, Some(11648));
    assert_eq!(usage.reasoning_output_tokens, Some(0));
}

#[test]
fn parse_codex_jsonl_takes_last_turn_when_multiple() {
    let stream = r#"{"type":"thread.started","thread_id":"thr-multi"}
{"type":"turn.completed","usage":{"input_tokens":100,"output_tokens":10}}
{"type":"turn.completed","usage":{"input_tokens":250,"output_tokens":40,"cached_input_tokens":80}}
"#;
    let parsed = parse_codex_jsonl(stream);
    let usage = parsed.usage.expect("usage missing");
    assert_eq!(usage.prompt_tokens, 250);
    assert_eq!(usage.completion_tokens, 40);
    assert_eq!(usage.cached_prompt_tokens, Some(80));
}

#[test]
fn parse_codex_jsonl_tolerates_noise_and_truncation() {
    let stream = "warning: some Codex notice on stderr-but-merged\n\
            {\"type\":\"thread.started\",\"thread_id\":\"thr-noisy\"}\n\
            not-json garbage line\n\
            {\"type\":\"turn.completed\",\"usage\":{\"input_tokens\":50,\"output_t";
    let parsed = parse_codex_jsonl(stream);
    assert_eq!(parsed.thread_id.as_deref(), Some("thr-noisy"));
    assert!(parsed.usage.is_none(), "truncated turn.completed must not produce a usage block");
}

#[test]
fn parse_codex_jsonl_omits_optional_axes_when_absent() {
    let stream = r#"{"type":"thread.started","thread_id":"thr-min"}
{"type":"turn.completed","usage":{"input_tokens":7,"output_tokens":3}}
"#;
    let parsed = parse_codex_jsonl(stream);
    let usage = parsed.usage.unwrap();
    assert_eq!(usage.prompt_tokens, 7);
    assert_eq!(usage.completion_tokens, 3);
    assert_eq!(usage.total_tokens, 10);
    assert_eq!(usage.cached_prompt_tokens, None);
    assert_eq!(usage.reasoning_output_tokens, None);
}

#[test]
fn replay_client_jsonl_fixture_round_trips_event_stream() {
    let body = "{\"type\":\"thread.started\",\"thread_id\":\"thr-xyz\"}\n\
                    {\"type\":\"item.completed\",\"item\":{\"id\":\"i0\",\"type\":\"agent_message\",\"text\":\"diff --git a/x b/x\\n+hi\\n\"}}\n\
                    {\"type\":\"turn.completed\",\"usage\":{\"input_tokens\":100,\"cached_input_tokens\":40,\"output_tokens\":20,\"reasoning_output_tokens\":3}}\n";
    assert!(replays_event_stream("/tmp/fixture.jsonl"));
    let resp = replay_jsonl(body);
    assert_eq!(resp.id, "thr-xyz");
    assert!(resp.choices[0].message.content.contains("diff --git"));
    let usage = resp.usage.expect("usage missing");
    assert_eq!(usage.prompt_tokens, 100);
    assert_eq!(usage.completion_tokens, 20);
    assert_eq!(usage.total_tokens, 120);
    assert_eq!(usage.cached_prompt_tokens, Some(40));
    assert_eq!(usage.reasoning_output_tokens, Some(3));
}

#[test]
fn recordings_are_told_apart_by_their_ending() {
    assert!(replays_event_stream("/x/y.JSONL"));
    assert!(!replays_event_stream("/x/y.json"));
    assert!(!replays_event_stream("/x/jsonl"));
    let empty = replay_jsonl("noise\n");
    assert_eq!(empty.id, "codex-replay-no-thread");
    assert_eq!(empty.choices[0].message.content, "");
    assert!(empty.usage.is_none());
}

#[test]
fn the_last_agent_message_counts() {
    let stream = r#"{"type":"item.completed","item":{"type":"agent_message","text":"first"}}
{"type":"item.completed","item":{"type":"reasoning","text":"thinking"}}
{"type":"item.completed","item":{"type":"agent_message","text":"second"}}
{"type":"item.completed"}"#;
    assert_eq!(extract_last_agent_message(stream).as_deref(), Some("second"));
    assert_eq!(extract_last_agent_message(""), None);
}

#[test]
fn for_worktree_replay_fixture_short_circuits_binary_search() {
    match for_worktree(Some("/f.json"), no_binary(), "/tmp") {
        Ok(Transport::Replay { fixture_path }) => assert_eq!(fixture_path, "/f.json"),
        other => panic!("for_worktree failed: {other:?}"),
    }
    match for_worktree(Some(""), Ok("/bin/codex".into()), "/tmp") {
        Ok(Transport::Exec { binary_path, worktree_path }) => {
            assert_eq!(binary_path, "/bin/codex");
            assert_eq!(worktree_path, "/tmp");
        }
        other => panic!("got {other:?}"),
    }
    assert!(for_worktree(None, no_binary(), "/tmp").is_err());
}

#[test]
fn locate_codex_binary_rejects_nonexistent_override() {
    let err = no_binary().unwrap_err();
    assert!(err.contains("CODEX_STDIO_BIN"), "got {err:?}");
}

#[test]
fn binaries_are_looked_for_in_order() {
    let probe = |which: Option<(String, bool)>, canonical| BinaryProbe { custom: None, which, canonical };
    let custom = BinaryProbe { custom: Some(("/c".into(), true)), which: None, canonical: false };
    assert_eq!(locate_codex_binary(&custom).unwrap(), "/c");
    assert_eq!(locate_codex_binary(&probe(Some((" /w/codex\n".into(), true)), true)).unwrap(), "/w/codex");
    assert_eq!(locate_codex_binary(&probe(Some(("/w".into(), false)), true)).unwrap(), "/usr/bin/codex");
    assert_eq!(locate_codex_binary(&probe(Some(("\n".into(), true)), true)).unwrap(), "/usr/bin/codex");
    assert!(locate_codex_binary(&probe(None, false)).unwrap_err().contains("codex CLI not found"));
}

#[test]
fn build_codex_exec_args_default_emits_workspace_write_sandbox() {
    let args = build_codex_exec_args("/tmp/wt", "/tmp/out.txt", "gpt-5.4", None, false);
    assert!(args.iter().any(|a| a == "--sandbox"), "missing --sandbox: {args:?}");
    assert!(args.iter().any(|a| a == "workspace-write"), "missing workspace-write: {args:?}");
    assert!(!args.iter().any(|a| a == "--dangerously-bypass-approvals-and-sandbox"));
    assert_eq!(
        args,
        [
            "exec",
            "--cd",
            "/tmp/wt",
            "--sandbox",
            "workspace-write",
            "--skip-git-repo-check",
            "--output-last-message",
            "/tmp/out.txt",
            "--color",
            "never",
            "--json",
            "-m",
            "gpt-5.4",
            "-"
        ]
    );
}

#[test]
fn build_codex_exec_args_bypass_emits_dangerous_flag_only() {
    let args = build_codex_exec_args("/tmp/wt", "/tmp/out.txt", "gpt-5.4", None, true);
    assert!(args.iter().any(|a| a == "--dangerously-bypass-approvals-and-sandbox"));
    assert!(!args.iter().any(|a| a == "--sandbox"));
    assert!(!args.iter().any(|a| a == "workspace-write"));
}

#[test]
fn sandbox_bypass_from_env_unset_returns_false() {
    assert!(!sandbox_bypass_from_env(None));
}

#[test]
fn sandbox_bypass_from_env_explicit_zero_returns_false() {
    assert!(!sandbox_bypass_from_env(Some("0")), "0 must not enable bypass");
    assert!(!sandbox_bypass_from_env(Some("false")), "false must not enable bypass");
    assert!(!sandbox_bypass_from_env(Some("")), "empty must not enable bypass");
    assert!(!sandbox_bypass_from_env(Some("garbage")), "garbage must not enable bypass");
}

#[test]
fn sandbox_bypass_from_env_truthy_returns_true() {
    assert!(sandbox_bypass_from_env(Some("1")), "1 must enable bypass");
    assert!(sandbox_bypass_from_env(Some("true")), "true must enable bypass");
    assert!(sandbox_bypass_from_env(Some("TRUE")), "TRUE (case) must enable bypass");
}

#[test]
fn build_codex_exec_args_max_tokens_round_trips() {
    let args = build_codex_exec_args("/tmp/wt", "/tmp/out.txt", "gpt-5.4", Some(1024), false);
    assert!(args.iter().any(|a| a == "-c"), "missing -c: {args:?}");
    assert!(args.iter().any(|a| a == "model_max_output_tokens=1024"), "missing token-cap kv: {args:?}");
}

#[test]
fn prompts_mark_the_role_of_other_messages() {
    let m = |role: &str, content: &str| ChatMessage { role: role.into(), content: content.into() };
    let prompt = build_prompt(&vec![m("system", "be brief"), m("user", "fix it")]);
    assert_eq!(prompt, "[system]\nbe brief\n\nfix it");
    assert_eq!(build_prompt(&Vec::new()), "");
}

fn request() -> ChatRequest {
    ChatRequest { model: "gpt-5.4".into(), messages: Vec::new(), max_tokens: None }
}

#[test]
fn a_run_of_the_cli_becomes_a_response() {
    let exited = |success, code, stdout: &str, stderr: &str, last: Result<String, String>| ExecRun::Exited {
        success,
        code,
        stdout: stdout.into(),
        stderr: stderr.into(),
        last_message: last,
    };
    let ok = chat(&request(), exited(true, Some(0), "noise", "", Ok("done".into())), 77).unwrap();
    assert_eq!(ok.id, "codex-exec-77");
    assert_eq!(ok.model, "gpt-5.4");
    assert_eq!(ok.choices[0].message.content, "done");
    assert_eq!(ok.choices[0].finish_reason.as_deref(), Some("stop"));
    let named = "{\"type\":\"thread.started\",\"thread_id\":\"t\"}";
    assert_eq!(chat(&request(), exited(true, Some(0), named, "", Ok("x".into())), 77).unwrap().id, "t");
    let e = chat(&request(), exited(false, None, "", " boom \n", Err("x".into())), 77).unwrap_err();
    assert_eq!(e, "codex exec failed (exit -1): boom");
    let e = chat(&request(), exited(true, Some(0), "", "", Err("gone".into())), 77).unwrap_err();
    assert_eq!(e, "read codex output: gone");
    assert_eq!(chat(&request(), ExecRun::SpawnFailed("a".into()), 1).unwrap_err(), "spawn codex exec: a");
    assert_eq!(chat(&request(), ExecRun::StdinFailed("b".into()), 1).unwrap_err(), "write codex stdin: b");
    assert_eq!(chat(&request(), ExecRun::WaitFailed("c".into()), 1).unwrap_err(), "wait codex exec: c");
    assert_eq!(output_file_name(9), "codex-stdio-out-9.txt");
}

#[test]
fn missing_codex_binary_returns_unavailable_with_reason() {
    let v = value(&health::run(None, no_binary(), None, 12).unwrap());
    assert_eq!(v["available"], false);
    let reason = v["reason"].as_str().expect("reason field present");
    assert!(reason.contains("CODEX_STDIO_BIN"), "got reason: {reason:?}");
    assert!(v["latency_ms"].as_u64().is_some());
    assert_eq!(v["transport"], "http");
}

#[test]
fn health_tells_what_would_serve() {
    let v = value(&health::run(None, Ok("/usr/bin/codex".into()), Some("m"), 0).unwrap());
    assert_eq!(v["available"], true);
    assert_eq!(v["model"], "m");
    assert_eq!(v["binary_path"], "/usr/bin/codex");
    let v = value(&health::run(Some("/f"), no_binary(), None, 0).unwrap());
    assert_eq!(v["available"], true);
    assert_eq!(v["transport"], "replay");
    assert_eq!(v["model"], "gpt-5.3-codex");
    assert_eq!(v["binary_path"], "(replay fixture)");
}

#[test]
fn the_smoke_test_sums_up() {
    let ok = health::probe(&tools_list_result(), &health::run(None, no_binary(), None, 1));
    assert!(!ok.failed);
    assert_eq!(value(&ok.summary)["tools_count"], 2);
    let bad = health::probe(&Json::Null, &Ok(Json::parse(r#"{"model":"m"}"#).unwrap()));
    assert!(bad.failed);
    let v = value(&bad.summary);
    assert_eq!(v["tools_count_error"], "expected 2, got 0");
    assert_eq!(v["health_missing_available"], true);
    assert_eq!(v["health_missing_latency_ms"], true);
    assert!(v.get("health_missing_model").is_none());
    let worse = health::probe(&tools_list_result(), &Err("no".into()));
    assert!(worse.failed);
    assert_eq!(value(&worse.summary)["health_error"], "no");
}

#[test]
fn tools_list_advertises_two_tools_with_schemas() {
    let result = value(&tools_list_result());
    let tools = result["tools"].as_array().expect("tools array");
    assert_eq!(tools.len(), 2);
    let names: Vec<&str> = tools.iter().map(|t| t["name"].as_str().unwrap()).collect();
    assert_eq!(names, ["codex_health", "codex_run_task"]);
    for t in tools {
        assert!(t["inputSchema"].is_object(), "tool missing schema: {t}");
        assert_eq!(t["inputSchema"]["type"], "object");
    }
    let required = tools[1]["inputSchema"]["required"].as_array().unwrap();
    assert_eq!(required.len(), 2);
    assert!(required.iter().any(|v| v == "task_packet"));
    assert!(required.iter().any(|v| v == "worktree_path"));
}

#[test]
fn codex_initialize_advertises_tools_capability() {
    let r = value(&initialize_result());
    assert_eq!(r["serverInfo"]["name"], "codex-stdio");
    assert!(r["capabilities"]["tools"].is_object());
}

#[test]
fn malformed_json_returns_parse_error() {
    let parsed = drive("this is not json\n").expect("reply");
    assert_eq!(parsed["error"]["code"], code::PARSE_ERROR);
    assert!(parsed.get("result").is_none());
}

#[test]
fn unknown_tool_returns_structured_error() {
    let parsed = drive("{\"jsonrpc\":\"2.0\",\"id\":7,\"method\":\"tools/call\",\"params\":{\"name\":\"does_not_exist\",\"arguments\":{}}}\n").unwrap();
    assert_eq!(parsed["id"], 7);
    assert_eq!(parsed["error"]["code"], code::METHOD_NOT_FOUND);
    assert_eq!(parsed["error"]["data"]["error_kind"], "unknown_tool");
}

#[test]
fn initialized_notification_returns_no_response() {
    assert!(drive("{\"jsonrpc\":\"2.0\",\"method\":\"notifications/initialized\"}\n").is_none());
}

#[test]
fn initialize_round_trip_returns_server_info() {
    let resp = drive("{\"jsonrpc\":\"2.0\",\"id\":1,\"method\":\"initialize\"}\n").unwrap();
    assert_eq!(resp["id"], 1);
    assert_eq!(resp["result"]["serverInfo"]["name"], "codex-stdio");
    assert!(resp["result"]["capabilities"]["tools"].is_object());
}

#[test]
fn tools_list_round_trip_returns_two_codex_tools() {
    let resp = drive("{\"jsonrpc\":\"2.0\",\"id\":2,\"method\":\"tools/list\"}\n").unwrap();
    let tools = resp["result"]["tools"].as_array().unwrap();
    assert_eq!(tools.len(), 2);
    let names: Vec<&str> = tools.iter().map(|t| t["name"].as_str().unwrap()).collect();
    assert_eq!(names, ["codex_health", "codex_run_task"]);
}

#[test]
fn health_round_trip_with_no_codex_binary_returns_unavailable() {
    let resp = drive("{\"jsonrpc\":\"2.0\",\"id\":3,\"method\":\"tools/call\",\"params\":{\"name\":\"codex_health\",\"arguments\":{}}}\n").unwrap();
    assert!(resp.get("error").is_none(), "got error: {:?}", resp);
    let text = resp["result"]["content"][0]["text"].as_str().unwrap();
    let inner: Value = serde_json::from_str(text).unwrap();
    assert_eq!(inner["available"], false);
    let reason = inner["reason"].as_str().expect("reason field present");
    assert!(reason.contains("CODEX_STDIO_BIN"), "got reason: {reason:?}");
}

#[test]
fn run_task_missing_required_args_returns_invalid_params_or_internal() {
    let resp = drive("{\"jsonrpc\":\"2.0\",\"id\":44,\"method\":\"tools/call\",\"params\":{\"name\":\"codex_run_task\",\"arguments\":{}}}\n").unwrap();
    assert!(resp.get("error").is_some());
    let msg = resp["error"]["message"].as_str().unwrap();
    assert!(msg.contains("task_packet"), "got msg: {msg:?}");
    assert_eq!(resp["error"]["data"]["error_kind"], "tool_failure");
}

#[test]
fn calls_that_are_notifications_get_no_reply() {
    let call = r#""jsonrpc":"2.0","method":"tools/call","params":{"name":"codex_health"}"#;
    assert!(drive(&format!("{{{call}}}")).is_none());
    assert_eq!(drive(&format!("{{\"id\":0,{call}}}")).unwrap()["id"], 0);
    assert!(drive(r#"{"jsonrpc":"2.0","method":"initialize"}"#).is_none());
    assert!(drive("   \n").is_none());
}

#[test]
fn only_the_exact_words_switch_the_sandbox_off() {
    assert!(sandbox_bypass_from_env(Some("tRuE")));
    for other in [" 1 ", " 1", "1\n", " True\n", "11", "truee", "yes", "on"] {
        assert!(!sandbox_bypass_from_env(Some(other)), "{other:?} must not enable bypass");
    }
}
