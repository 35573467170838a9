use mcp_tools::io_error::{IoError, IoErrorKind};
use mcp_tools::json::Json;
use mcp_tools::lsp_cpp::clangd::{ChildProbe, Clangd, ClangdEnv};
use mcp_tools::lsp_cpp::error::ShimError;
use mcp_tools::lsp_cpp::mcp::{
    build_status_payload, classify_request_error, exit_status_to_reason, finish_status,
    handle_message, initialize_result, pass_gates, read_call, record_dispatch_outcome,
    record_probe, tools_list_result, Admission, CallAction, CallEvent, Step, Tool, SUPERVISOR_MAX_RETRIES_CODE,
};
use mcp_tools::lsp_cpp::queue::{BoundedQueue, DEFAULT_QUEUE_DEPTH};
use mcp_tools::lsp_cpp::supervisor::{
    RestartReason, RetryDecision, SupervisorPolicy, SupervisorState, MAX_RESTARTS_IN_WINDOW,
};
use mcp_tools::lsp_shim_core::mcp_proto::code;
use serde_json::Value;

fn value(j: &Json) -> Value {
    serde_json::from_str(&j.to_text()).expect("text of a value is JSON")
}

fn backend() -> Clangd {
    let env = ClangdEnv {
        clangd_bin: None,
        clangd_log: None,
        clangd_jobs: None,
        cpus: Some(8),
        index_mode: None,
        index_file: None,
        home: None,
    };
    Clangd::new("/nonexistent/project/root", &env)
}

/// One line through the gates. No child was ever started, and a tool that gets
/// through fails as it does without a compilation database.
fn serve(line: &str, queue: &mut BoundedQueue, supervisor: &mut SupervisorPolicy) -> Option<Value> {
    let mut clangd = backend();
    let now = 1_000_000_000_000u128;
    let reply = match handle_message(line) {
        Step::Silent => None,
        Step::Reply(r) => Some(r),
        Step::Shutdown { reply } => reply,
        Step::Status { id, notification } => {
            let alive = clangd.is_alive(&ChildProbe::NoChild);
            finish_status(id, notification, None, &clangd, queue, supervisor, alive, 5, now)
        }
        Step::Call { id, notification, name, args } => {
            match pass_gates(id, notification, name, args, queue, supervisor, now) {
                Admission::Refused { reply } => reply,
                Admission::Admitted { call } => {
                    let probe = clangd.due_probe(ChildProbe::NoChild);
                    let probed = CallEvent::Probed { probe, probe_ns: 5, now_ns: now };
                    let (call, action) = call.step(probed, queue, supervisor);
                    match action {
                        CallAction::Finish { reply } => reply,
                        CallAction::Run { .. } => {
                            let result = Clangd::resolve_compile_commands_dir(clangd.root(), false, false)
                                .map(|_| Json::Null);
                            match call.step(CallEvent::Ran { result, now_ns: now }, queue, supervisor).1 {
                                CallAction::Finish { reply } => reply,
                                other => panic!("got {other:?}"),
                            }
                        }
                        other => panic!("got {other:?}"),
                    }
                }
            }
        }
    };
    reply.map(|r| value(&r))
}

fn fresh() -> (BoundedQueue, SupervisorPolicy) {
    (BoundedQueue::new(DEFAULT_QUEUE_DEPTH), SupervisorPolicy::new())
}

fn failed_supervisor() -> SupervisorPolicy {
    let mut supervisor = SupervisorPolicy::new();
    for _ in 0..MAX_RESTARTS_IN_WINDOW {
        supervisor.record_spawn(999_999_000_000);
        supervisor.record_exit(RestartReason::BrokenPipe, 999_999_000_000);
    }
    assert!(matches!(supervisor.current_state(), SupervisorState::Failed));
    supervisor
}

#[test]
fn tools_list_enumerates_six_tools_with_schemas() {
    let result = value(&tools_list_result());
    let tools = result["tools"].as_array().expect("tools array");
    assert_eq!(tools.len(), 6, "expected 6 tools, got {}", tools.len());
    let names: Vec<&str> = tools.iter().map(|t| t["name"].as_str().expect("name")).collect();
    assert_eq!(
        names,
        [
            "workspace_symbol",
            "definition",
            "references",
            "hover",
            "lsp_cpp_status",
            "build_full_index"
        ]
    );
    for tool in tools {
        assert!(tool["inputSchema"].is_object(), "tool {} missing inputSchema", tool["name"]);
        assert_eq!(tool["inputSchema"]["type"], "object");
    }
}

#[test]
fn initialize_advertises_tools_capability() {
    let result = value(&initialize_result());
    assert_eq!(result["serverInfo"]["name"], "lsp-cpp");
    assert!(result["capabilities"]["tools"].is_object(), "tools capability missing");
    assert!(result["protocolVersion"].is_string(), "protocolVersion missing");
}

#[test]
fn initialized_notification_yields_empty_serve_output() {
    let (mut q, mut s) = fresh();
    let line = "{\"jsonrpc\":\"2.0\",\"method\":\"notifications/initialized\"}\n";
    assert!(serve(line, &mut q, &mut s).is_none(), "notification MUST produce empty stdout");
}

#[test]
fn malformed_json_returns_parse_error_not_silent_null() {
    let (mut q, mut s) = fresh();
    let parsed = serve("this is not json\n", &mut q, &mut s).expect("reply");
    assert_eq!(parsed["error"]["code"], code::PARSE_ERROR);
    assert!(
        parsed["error"]["message"].as_str().unwrap().contains("malformed JSON"),
        "expected `malformed JSON` in message, got {parsed}"
    );
    assert!(parsed.get("result").is_none());
}

#[test]
fn tools_call_unknown_tool_returns_structured_error() {
    let (mut q, mut s) = fresh();
    let line = r#"{"jsonrpc":"2.0","id":7,"method":"tools/call","params":{"name":"does_not_exist","arguments":{}}}"#;
    let parsed = serve(line, &mut q, &mut s).expect("reply");
    assert_eq!(parsed["id"], 7);
    assert_eq!(parsed["error"]["code"], code::METHOD_NOT_FOUND);
    assert_eq!(parsed["error"]["data"]["error_kind"], "unknown_tool");
    assert_eq!(q.in_flight(), 0);
}

#[test]
fn tools_list_request_returns_six_tools() {
    let (mut q, mut s) = fresh();
    let parsed = serve("{\"jsonrpc\":\"2.0\",\"id\":2,\"method\":\"tools/list\"}\n", &mut q, &mut s).unwrap();
    assert_eq!(parsed["id"], 2);
    assert_eq!(parsed["result"]["tools"].as_array().expect("tools array").len(), 6);
}

#[test]
fn initialize_request_does_not_spawn_clangd() {
    let (mut q, mut s) = fresh();
    let line = "{\"jsonrpc\":\"2.0\",\"id\":1,\"method\":\"initialize\",\"params\":{}}\n";
    let parsed = serve(line, &mut q, &mut s).expect("reply");
    assert_eq!(parsed["id"], 1);
    assert_eq!(parsed["result"]["serverInfo"]["name"], "lsp-cpp");
    assert!(parsed.get("error").is_none(), "initialize should not error");
}

#[test]
fn tools_call_with_full_queue_returns_queue_depth_exceeded() {
    let mut queue = BoundedQueue::new(1);
    let _held = queue.try_acquire().expect("test slot");
    let mut supervisor = SupervisorPolicy::new();
    let line = "{\"jsonrpc\":\"2.0\",\"id\":42,\"method\":\"tools/call\",\
        \"params\":{\"name\":\"workspace_symbol\",\"arguments\":{\"query\":\"FFrame\"}}}\n";
    let parsed = serve(line, &mut queue, &mut supervisor).expect("reply");
    assert_eq!(parsed["id"], 42);
    assert_eq!(parsed["error"]["data"]["error_kind"], "queue_depth_exceeded");
    assert_eq!(parsed["error"]["data"]["capacity"], 1);
    assert_eq!(parsed["error"]["data"]["in_flight"], 1);
    assert!(parsed["error"]["data"]["retry_after_s"].is_number(), "retry_after_s missing");
    assert!(parsed.get("result").is_none());
    assert_eq!(parsed["error"]["message"], "wrapper queue full (1/1); retry after 1s");
    assert_eq!(queue.in_flight(), 1);
}

#[test]
fn handshake_methods_bypass_full_queue() {
    let mut queue = BoundedQueue::new(1);
    let _held = queue.try_acquire().expect("fill queue");
    let mut supervisor = SupervisorPolicy::new();
    let init = serve(
        "{\"jsonrpc\":\"2.0\",\"id\":1,\"method\":\"initialize\",\"params\":{}}\n",
        &mut queue,
        &mut supervisor,
    )
    .unwrap();
    assert_eq!(init["id"], 1);
    assert_eq!(init["result"]["serverInfo"]["name"], "lsp-cpp");
    let list = serve("{\"jsonrpc\":\"2.0\",\"id\":2,\"method\":\"tools/list\"}\n", &mut queue, &mut supervisor)
        .unwrap();
    assert_eq!(list["id"], 2);
    assert_eq!(list["result"]["tools"].as_array().unwrap().len(), 6);
}

#[test]
fn status_tool_callable_without_spawning_clangd() {
    let (mut q, mut s) = fresh();
    let line = r#"{"jsonrpc":"2.0","id":42,"method":"tools/call","params":{"name":"lsp_cpp_status","arguments":{}}}"#;
    let parsed = serve(line, &mut q, &mut s).expect("reply");
    assert_eq!(parsed["id"], 42);
    assert!(parsed.get("error").is_none(), "status tool must not error; got {parsed}");
    let text = parsed["result"]["content"][0]["text"].as_str().expect("content text");
    let payload: Value = serde_json::from_str(text).expect("status payload parses as JSON");
    assert_eq!(payload["clangd_pid"], Value::Null);
    assert_eq!(payload["alive"], false);
    assert_eq!(payload["supervisor_state"], "stopped");
    assert_eq!(payload["restart_count"], 0);
    assert!(payload["queue_capacity"].is_u64());
    assert_eq!(payload["try_wait_total_ns"], 5);
}

#[test]
fn failed_supervisor_returns_max_retries_error() {
    let mut supervisor = failed_supervisor();
    let mut queue = BoundedQueue::new(DEFAULT_QUEUE_DEPTH);
    let line = r#"{"jsonrpc":"2.0","id":99,"method":"tools/call","params":{"name":"workspace_symbol","arguments":{"query":"FFrame"}}}"#;
    let parsed = serve(line, &mut queue, &mut supervisor).expect("reply");
    assert_eq!(parsed["id"], 99);
    assert_eq!(parsed["error"]["code"], SUPERVISOR_MAX_RETRIES_CODE);
    assert_eq!(parsed["error"]["data"]["error_kind"], "supervisor_max_retries");
    assert_eq!(parsed["error"]["data"]["total_restarts"], 5);
    assert_eq!(parsed["error"]["data"]["last_restart_reason"], "broken_pipe");
    let retry_after = parsed["error"]["data"]["retry_after_s"].as_u64().expect("retry_after_s present");
    assert!(retry_after > 0);
    assert_eq!(
        parsed["error"]["message"],
        "clangd has crashed 5 times in the last 300s — supervisor giving up; window expires in 299s"
    );
    assert_eq!(queue.in_flight(), 0, "a refused call leaves no slot behind");
}

#[test]
fn status_tool_bypasses_queue_and_supervisor_gates() {
    let mut queue = BoundedQueue::new(1);
    let _held = queue.try_acquire().expect("test slot");
    let mut supervisor = failed_supervisor();
    let line = r#"{"jsonrpc":"2.0","id":7,"method":"tools/call","params":{"name":"lsp_cpp_status","arguments":{}}}"#;
    let parsed = serve(line, &mut queue, &mut supervisor).expect("reply");
    assert_eq!(parsed["id"], 7);
    assert!(parsed.get("error").is_none(), "status tool must bypass both gates; got {parsed}");
    let text = parsed["result"]["content"][0]["text"].as_str().expect("content text");
    let payload: Value = serde_json::from_str(text).unwrap();
    assert_eq!(payload["supervisor_state"], "failed");
    assert_eq!(payload["queue_in_flight"], 1);
    assert_eq!(payload["queue_capacity"], 1);
    assert_eq!(payload["restart_count"], 5);
}

#[test]
fn exit_status_to_reason_round_trip() {
    assert!(matches!(exit_status_to_reason(Some("code=0")), RestartReason::ChildExited { code: 0 }));
    assert!(matches!(exit_status_to_reason(Some("code=42")), RestartReason::ChildExited { code: 42 }));
    assert!(matches!(exit_status_to_reason(Some("signal=9")), RestartReason::ChildSignaled { signal: 9 }));
    assert!(matches!(exit_status_to_reason(Some("code=?")), RestartReason::WaitFailed { .. }));
    assert!(matches!(exit_status_to_reason(None), RestartReason::WaitFailed { .. }));
    assert_eq!(RestartReason::BrokenPipe.as_tag(), "broken_pipe");
}

#[test]
fn odd_exit_statuses_are_quoted() {
    match exit_status_to_reason(Some("exited_during_request")) {
        RestartReason::WaitFailed { message } => {
            assert_eq!(message, "unparsed exit status \"exited_during_request\"")
        }
        other => panic!("got {other:?}"),
    }
    match exit_status_to_reason(Some("a\"b\n")) {
        RestartReason::WaitFailed { message } => {
            assert_eq!(message, "unparsed exit status \"a\\\"b\\n\"")
        }
        other => panic!("got {other:?}"),
    }
    assert!(matches!(exit_status_to_reason(Some("code=-6")), RestartReason::ChildExited { code: -6 }));
    assert!(matches!(exit_status_to_reason(Some("code=x")), RestartReason::WaitFailed { .. }));
    assert!(matches!(exit_status_to_reason(Some("signal=99999999999")), RestartReason::WaitFailed { .. }));
}

#[test]
fn dispatch_success_in_backoff_transitions_to_running() {
    let mut supervisor = SupervisorPolicy::new();
    supervisor.record_spawn(1);
    assert_eq!(*supervisor.current_state(), SupervisorState::Running);
    supervisor.record_exit(RestartReason::BrokenPipe, 2);
    match supervisor.current_state() {
        SupervisorState::Backoff { duration_ns } => assert_eq!(*duration_ns, 1_000_000_000),
        other => panic!("expected Backoff after record_exit, got {other:?}"),
    }
    let ok: Result<Json, ShimError> = Ok(Json::Null);
    record_dispatch_outcome(&mut supervisor, &ok, 3);
    assert_eq!(*supervisor.current_state(), SupervisorState::Running);
    record_dispatch_outcome(&mut supervisor, &ok, 4);
    assert_eq!(*supervisor.current_state(), SupervisorState::Running);
    assert_eq!(supervisor.should_retry(5), RetryDecision::Proceed);
}

#[test]
fn dispatch_broken_pipe_records_exit() {
    let mut supervisor = SupervisorPolicy::new();
    supervisor.record_spawn(1);
    assert_eq!(*supervisor.current_state(), SupervisorState::Running);
    let err: Result<Json, ShimError> =
        Err(ShimError::Io(IoError::new(IoErrorKind::BrokenPipe, "child closed stdout")));
    record_dispatch_outcome(&mut supervisor, &err, 2);
    match supervisor.current_state() {
        SupervisorState::Backoff { .. } => {}
        other => panic!("broken-pipe error must demote to Backoff; got {other:?}"),
    }
    assert!(matches!(supervisor.last_reason(), Some(RestartReason::BrokenPipe)));
}

#[test]
fn only_death_counts_as_an_exit() {
    let slow = ShimError::ClangdBusy {
        method: "workspace/symbol".into(),
        timeout_s: 90,
        current_status: String::new(),
        log_path: "/tmp/clangd.log".into(),
    };
    assert!(classify_request_error(&slow).is_none());
    let late = ShimError::RequestTimeout { method: "m".into(), timeout_s: 1, log_path: "l".into() };
    assert!(classify_request_error(&late).is_none());
    assert!(classify_request_error(&ShimError::protocol("bad arguments")).is_none());
    let disk = ShimError::Io(IoError::new(IoErrorKind::Other, "disk full"));
    assert!(classify_request_error(&disk).is_none());
    for kind in [
        IoErrorKind::BrokenPipe,
        IoErrorKind::UnexpectedEof,
        IoErrorKind::ConnectionAborted,
        IoErrorKind::ConnectionReset,
    ] {
        let e = ShimError::Io(IoError::new(kind, "gone"));
        assert!(matches!(classify_request_error(&e), Some(RestartReason::BrokenPipe)));
    }
    let exited = ShimError::ClangdExited { status: "signal=11".into(), log_path: "l".into() };
    assert!(matches!(
        classify_request_error(&exited),
        Some(RestartReason::ChildSignaled { signal: 11 })
    ));
}

#[test]
fn status_payload_alive_ok_true_omits_probe_error() {
    let queue = BoundedQueue::new(DEFAULT_QUEUE_DEPTH);
    let supervisor = SupervisorPolicy::new();
    let payload = value(&build_status_payload(None, &backend(), &queue, &supervisor, Ok(true), 0));
    assert_eq!(payload["alive"], true);
    assert!(payload.get("alive_probe_error").is_none(), "Ok path must omit alive_probe_error; got {payload}");
}

#[test]
fn status_payload_alive_ok_false_omits_probe_error() {
    let queue = BoundedQueue::new(DEFAULT_QUEUE_DEPTH);
    let supervisor = SupervisorPolicy::new();
    let payload = value(&build_status_payload(None, &backend(), &queue, &supervisor, Ok(false), 0));
    assert_eq!(payload["alive"], false);
    assert!(payload.get("alive_probe_error").is_none());
}

#[test]
fn status_payload_alive_probe_error_surfaces_io_failure() {
    let queue = BoundedQueue::new(DEFAULT_QUEUE_DEPTH);
    let supervisor = SupervisorPolicy::new();
    let alive = Err(IoError::new(IoErrorKind::Other, "synthetic try_wait failure"));
    let payload = value(&build_status_payload(None, &backend(), &queue, &supervisor, alive, 0));
    assert_eq!(payload["alive"], false);
    let probe_err = payload["alive_probe_error"].as_str().expect("alive_probe_error present");
    assert!(probe_err.contains("synthetic try_wait failure"), "got {probe_err:?}");
    assert!(probe_err.starts_with("io error: "), "got {probe_err:?}");
}

#[test]
fn status_payload_tells_the_whole_story() {
    let mut clangd = backend();
    let alive = clangd.is_alive(&ChildProbe::Exited { code: None, signal: Some(9) });
    assert_eq!(clangd.last_exit_status(), Some("signal=9"));
    let mut supervisor = SupervisorPolicy::new();
    supervisor.record_spawn(0);
    supervisor.record_exit(exit_status_to_reason(clangd.last_exit_status()), 2_000_000_000);
    let mut queue = BoundedQueue::new(3);
    let _slot = queue.try_acquire();
    let payload = value(&build_status_payload(
        Some(4711),
        &clangd,
        &queue,
        &supervisor,
        alive,
        7_500_000_000,
    ));
    let wanted: Value = serde_json::from_str(
        r#"{"clangd_pid":4711,"alive":false,"uptime_s":5,"restart_count":1,
            "last_restart_reason":"child_signaled","last_exit_status":"signal=9",
            "supervisor_state":"backoff","queue_in_flight":1,"queue_capacity":3,"try_wait_total_ns":0}"#,
    )
    .unwrap();
    assert_eq!(payload, wanted);
}

#[test]
fn a_waiting_supervisor_refuses_with_a_hint() {
    let mut supervisor = SupervisorPolicy::new();
    let now = 1_000_000_000_000u128;
    for _ in 0..3 {
        supervisor.record_spawn(now);
        supervisor.record_exit(RestartReason::BrokenPipe, now);
    }
    let mut queue = BoundedQueue::new(2);
    let line = r#"{"jsonrpc":"2.0","id":1,"method":"tools/call","params":{"name":"hover"}}"#;
    let parsed = serve(line, &mut queue, &mut supervisor).expect("reply");
    assert_eq!(parsed["error"]["code"], code::INTERNAL_ERROR);
    assert_eq!(parsed["error"]["data"]["error_kind"], "supervisor_backoff");
    assert_eq!(parsed["error"]["data"]["retry_after_s"], 4);
    assert_eq!(parsed["error"]["data"]["supervisor_state"], "backoff");
    assert_eq!(
        parsed["error"]["message"],
        "clangd is restarting (backoff 4 s); retry after the supervisor finishes its respawn cycle"
    );
    assert_eq!(queue.in_flight(), 0);
}

#[test]
fn a_failed_dispatch_is_tagged() {
    let (mut q, mut s) = fresh();
    let line = r#"{"jsonrpc":"2.0","id":1,"method":"tools/call","params":{"name":"workspace_symbol","arguments":{"query":"X"}}}"#;
    let parsed = serve(line, &mut q, &mut s).expect("reply");
    assert_eq!(parsed["error"]["data"]["error_kind"], "no_compile_commands");
    assert_eq!(parsed["error"]["code"], code::INTERNAL_ERROR);
    assert_eq!(q.in_flight(), 0);
    let empty = r#"{"jsonrpc":"2.0","id":1,"method":"tools/call","params":{"name":"workspace_symbol","arguments":{"query":""}}}"#;
    let (mut q, mut s) = fresh();
    let parsed = serve(empty, &mut q, &mut s).expect("reply");
    assert_eq!(
        parsed["error"]["message"],
        "clangd JSON-RPC error: workspace_symbol `query` must not be empty"
    );
}

#[test]
fn arguments_are_checked_in_order() {
    let args = |s: &str| Json::parse(s).unwrap();
    let fails = |name: &str, s: &str| match read_call(name, &args(s)) {
        Some(Err(ShimError::Protocol(m))) => m,
        other => panic!("{name} {s}: got {other:?}"),
    };
    assert_eq!(fails("workspace_symbol", "{}"), "workspace_symbol requires `query` (string)");
    assert_eq!(fails("definition", "{}"), "missing `file` (string)");
    assert_eq!(fails("references", r#"{"file":"f"}"#), "missing `line` (integer)");
    assert_eq!(fails("hover", r#"{"file":"f","line":1}"#), "missing `column` (integer)");
    assert_eq!(fails("build_full_index", r#"{"max_tus":0}"#), "build_full_index `max_tus` must be > 0");
    match read_call("hover", &args(r#"{"file":"f","line":3,"column":4}"#)) {
        Some(Ok(Tool::Hover { file, line: 3, column: 4 })) => assert_eq!(file, "f"),
        other => panic!("got {other:?}"),
    }
    match read_call("definition", &args(r#"{"file":"f","line":4294967299,"column":4}"#)) {
        Some(Ok(Tool::Definition { line: 3, .. })) => {}
        other => panic!("got {other:?}"),
    }
    assert!(matches!(
        read_call("build_full_index", &args("{}")),
        Some(Ok(Tool::BuildFullIndex { max_tus: 5000 }))
    ));
    assert!(matches!(
        read_call("build_full_index", &args(r#"{"max_tus":7}"#)),
        Some(Ok(Tool::BuildFullIndex { max_tus: 7 }))
    ));
    assert!(read_call("nothing", &args("{}")).is_none());
}

#[test]
fn a_probe_before_a_dispatch_records_a_dead_child() {
    let mut s = SupervisorPolicy::new();
    s.record_spawn(0);
    record_probe(&mut s, &ChildProbe::Running, 3, 10);
    record_probe(&mut s, &ChildProbe::NoChild, 0, 10);
    record_probe(&mut s, &ChildProbe::Failed(IoError::new(IoErrorKind::Other, "x")), 4, 10);
    assert_eq!(*s.current_state(), SupervisorState::Running);
    record_probe(&mut s, &ChildProbe::Exited { code: Some(1), signal: None }, 5, 10);
    assert!(matches!(s.last_reason(), Some(RestartReason::ChildExited { code: 1 })));
    assert_eq!(s.try_wait_total_ns(), 12);
    assert_eq!(s.total_restarts(), 1);
}

#[test]
fn notifications_are_never_answered() {
    let (mut q, mut s) = fresh();
    for line in [
        r#"{"jsonrpc":"2.0","method":"initialize"}"#,
        r#"{"jsonrpc":"2.0","method":"tools/list"}"#,
        r#"{"jsonrpc":"2.0","method":"tools/call","params":{"name":"hover"}}"#,
        r#"{"jsonrpc":"2.0","method":"tools/call","params":{"name":"lsp_cpp_status"}}"#,
        r#"{"jsonrpc":"2.0","method":"tools/call","params":{}}"#,
        r#"{"jsonrpc":"2.0","method":"shutdown"}"#,
        r#"{"jsonrpc":"2.0","method":"nope"}"#,
        r#"{"jsonrpc":"2.0"}"#,
        "   ",
    ] {
        assert!(serve(line, &mut q, &mut s).is_none(), "{line}");
    }
    assert_eq!(q.in_flight(), 0);
}

#[test]
fn requests_that_make_no_sense_are_answered() {
    let (mut q, mut s) = fresh();
    let r = serve(r#"{"jsonrpc":"2.0","id":5,"method":"nope"}"#, &mut q, &mut s).unwrap();
    assert_eq!(r["error"]["code"], code::METHOD_NOT_FOUND);
    assert_eq!(r["error"]["message"], "unknown method: nope");
    assert!(r["error"].get("data").is_none());
    let r = serve(r#"{"jsonrpc":"2.0","id":5}"#, &mut q, &mut s).unwrap();
    assert_eq!(r["error"]["code"], code::INVALID_PARAMS);
    assert_eq!(r["error"]["message"], "missing `method` field");
    let r = serve(r#"{"jsonrpc":"2.0","id":5,"method":"tools/call","params":{}}"#, &mut q, &mut s).unwrap();
    assert_eq!(r["error"]["message"], "tools/call missing `name`");
    let r = serve(r#"{"jsonrpc":"2.0","id":null,"method":"shutdown"}"#, &mut q, &mut s).unwrap();
    assert_eq!(r["id"], Value::Null);
    assert_eq!(r["result"], Value::Null);
}

#[test]
fn the_first_call_of_a_session_counts_no_exit() {
    let (mut q, mut s) = fresh();
    let line = r#"{"jsonrpc":"2.0","id":7,"method":"tools/call","params":{"name":"does_not_exist","arguments":{}}}"#;
    let reply = serve(line, &mut q, &mut s).unwrap();
    assert_eq!(reply["id"], 7);
    assert_eq!(reply["error"]["code"], code::METHOD_NOT_FOUND);
    assert_eq!(reply["error"]["data"]["error_kind"], "unknown_tool");
    assert!(reply.get("result").is_none());
    assert_eq!(s.total_restarts(), 0);
    assert_eq!(*s.current_state(), SupervisorState::Stopped);
    let line = r#"{"jsonrpc":"2.0","id":8,"method":"tools/call","params":{"name":"workspace_symbol","arguments":{"query":"x"}}}"#;
    for _ in 0..10 {
        let reply = serve(line, &mut q, &mut s).unwrap();
        assert_eq!(reply["error"]["data"]["error_kind"], "no_compile_commands");
    }
    assert_eq!(s.total_restarts(), 0);
    assert_eq!(q.in_flight(), 0);
}

#[test]
fn calls_are_probed_run_and_finished_once() {
    let (mut q, mut s) = fresh();
    let args = Json::object().put("query", Json::str("x"));
    let call = match pass_gates(Json::uint(1), false, "workspace_symbol".into(), args, &mut q, &mut s, 0) {
        Admission::Admitted { call } => call,
        other => panic!("got {other:?}"),
    };
    assert_eq!(q.in_flight(), 1);
    let ran = || CallEvent::Ran { result: Ok(Json::Null), now_ns: 1 };
    let probed = || CallEvent::Probed { probe: ChildProbe::NoChild, probe_ns: 2, now_ns: 1 };
    let (call, action) = call.step(ran(), &mut q, &mut s);
    assert!(matches!(action, CallAction::Ignore), "nothing runs before the probe");
    let (call, action) = call.step(probed(), &mut q, &mut s);
    assert!(matches!(action, CallAction::Run { tool: Tool::WorkspaceSymbol { .. } }));
    let (call, action) = call.step(probed(), &mut q, &mut s);
    assert!(matches!(action, CallAction::Ignore));
    assert_eq!(q.in_flight(), 1);
    let (call, action) = call.step(ran(), &mut q, &mut s);
    match action {
        CallAction::Finish { reply } => assert_eq!(value(&reply.unwrap())["id"], 1),
        other => panic!("got {other:?}"),
    }
    assert_eq!(q.in_flight(), 0);
    assert_eq!(*s.current_state(), SupervisorState::Running);
    assert_eq!(s.try_wait_total_ns(), 2);
    let (_, action) = call.step(ran(), &mut q, &mut s);
    assert!(matches!(action, CallAction::Ignore));
    assert_eq!(q.in_flight(), 0);
}
