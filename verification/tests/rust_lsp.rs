use mcp_tools::io_error::{IoError, IoErrorKind};
use mcp_tools::json::Json;
use mcp_tools::lsp_rust::cli::{failure, no_workspace, parse_location, resolve_workspace, serve_failure};
use mcp_tools::lsp_rust::lsp::{
    pipe_missing, pipe_not_ready, request_with_retry, Heard, Listening, LspShimError, Retry,
    RustAnalyzerClient, RustAnalyzerEnv, Sampled, DEFAULT_LOG_PATH, DEFAULT_TIMEOUT_SECS,
};
use mcp_tools::lsp_shim_core::framing::{LSP_ERROR_CONTENT_MODIFIED, LSP_ERROR_SERVER_CANCELLED};
use serde_json::Value;

fn value(j: &Json) -> Value {
    serde_json::from_str(&j.to_text()).unwrap()
}

fn json(s: &str) -> Json {
    Json::parse(s).unwrap()
}

fn env() -> RustAnalyzerEnv {
    RustAnalyzerEnv { binary: None, timeout: None, log_file: None }
}

fn client() -> RustAnalyzerClient {
    RustAnalyzerClient::new("/ws", None, &env())
}

fn lsp_error(code: i64) -> LspShimError {
    LspShimError::Lsp { code, message: "m".into(), retry_after_ms: None }
}

#[test]
fn resolve_timeout_prefers_cli_over_env() {
    assert_eq!(RustAnalyzerClient::resolve_timeout(Some(123), Some("5")), 123);
}

#[test]
fn resolve_timeout_falls_back_to_env() {
    assert_eq!(RustAnalyzerClient::resolve_timeout(None, Some("17")), 17);
}

#[test]
fn resolve_timeout_default_is_60s() {
    assert_eq!(RustAnalyzerClient::resolve_timeout(None, None), DEFAULT_TIMEOUT_SECS);
    assert_eq!(DEFAULT_TIMEOUT_SECS, 60);
    assert_eq!(RustAnalyzerClient::resolve_timeout(None, Some("soon")), 60);
}

#[test]
fn lsp_error_carries_retry_after_for_content_modified() {
    let err = LspShimError::Lsp {
        code: LSP_ERROR_CONTENT_MODIFIED,
        message: "content modified".into(),
        retry_after_ms: Some(500),
    };
    assert!(matches!(err, LspShimError::Lsp { .. }));
    assert!(err.message().contains("-32801"));
}

#[test]
fn spawn_with_missing_binary_returns_structured_error() {
    let mut e = env();
    e.binary = Some("/definitely/not/a/real/ra-xyz".into());
    let client = RustAnalyzerClient::new("/tmp", None, &e);
    let err = client.launch_failed(IoError::new(IoErrorKind::NotFound, "No such file"));
    assert!(matches!(err, LspShimError::Spawn { .. }), "got {err:?}");
    assert_eq!(
        err.message(),
        "rust-analyzer spawn failed (binary=/definitely/not/a/real/ra-xyz): No such file"
    );
}

#[test]
fn log_path_resolves_from_env_then_default() {
    assert_eq!(RustAnalyzerClient::resolve_log_path(None), DEFAULT_LOG_PATH);
    assert_eq!(
        RustAnalyzerClient::resolve_log_path(Some("/tmp/probe-lsp-rust.log")),
        "/tmp/probe-lsp-rust.log"
    );
}

#[test]
fn parse_location_extracts_three_parts() {
    let (f, l, c) = parse_location("/tmp/foo.rs:42:7").expect("parses");
    assert_eq!(f, "/tmp/foo.rs");
    assert_eq!(l, 42);
    assert_eq!(c, 7);
}

#[test]
fn parse_location_rejects_missing_column() {
    let err = parse_location("/tmp/foo.rs:42").expect_err("must fail");
    assert!(matches!(err, LspShimError::Protocol(_)));
}

#[test]
fn parse_location_rejects_non_numeric_line() {
    let err = parse_location("/tmp/foo.rs:abc:7").expect_err("must fail");
    assert!(matches!(err, LspShimError::Protocol(_)));
}

#[test]
fn locations_say_what_is_wrong_with_them() {
    let words = |s: &str| match parse_location(s) {
        Err(LspShimError::Protocol(m)) => m,
        other => panic!("got {other:?}"),
    };
    assert_eq!(words("foo"), "bad location \"foo\": expected file:line:col");
    assert_eq!(words("foo:7"), "bad location \"foo:7\": missing line");
    assert_eq!(words("f:x:7"), "bad line \"x\": invalid digit found in string");
    assert_eq!(words("f:7:"), "bad column \"\": cannot parse integer from empty string");
    let (f, l, c) = parse_location("C:odd:1:2").unwrap();
    assert_eq!((f.as_str(), l, c), ("C:odd", 1, 2));
}

#[test]
fn workspaces_are_resolved_in_order() {
    let s = |x: &str| Some(x.to_string());
    assert_eq!(resolve_workspace(s("a"), s("b"), s("c")), s("a"));
    assert_eq!(resolve_workspace(None, s("b"), s("c")), s("b"));
    assert_eq!(resolve_workspace(None, None, s("c")), s("c"));
    assert_eq!(resolve_workspace(None, None, None), None);
    assert_eq!(value(&no_workspace())["kind"], "internal");
    assert_eq!(value(&serve_failure("eof"))["error"], "eof");
    let e = value(&failure(&lsp_error(-1)));
    assert_eq!(e["kind"], "lsp");
    assert_eq!(e["error"], "rust-analyzer LSP error -1: m");
}

#[test]
fn settings_come_from_command_line_and_environment() {
    let c = client();
    assert_eq!(c.binary(), "rust-analyzer");
    assert_eq!(c.log_path(), "/tmp/lsp-rust.log");
    assert_eq!(c.timeout(), 60);
    let e = RustAnalyzerEnv {
        binary: Some("/ra".into()),
        timeout: Some("9".into()),
        log_file: Some("/l".into()),
    };
    let c = RustAnalyzerClient::new("/ws", Some(3), &e);
    assert_eq!((c.binary(), c.log_path(), c.timeout()), ("/ra", "/l", 3));
}

#[test]
fn the_handshake_tells_who_we_are() {
    let mut c = client();
    let p = c.handshake(42);
    assert_eq!(p.id, 1);
    let m = value(&p.message);
    assert_eq!(m["method"], "initialize");
    assert_eq!(m["params"]["processId"], 42);
    assert_eq!(m["params"]["rootUri"], "file:///ws");
    assert_eq!(m["params"]["clientInfo"]["name"], "lsp-rust");
    assert_eq!(m["params"]["clientInfo"]["version"], "0.1.0");
    assert_eq!(m["params"]["capabilities"]["textDocument"]["diagnostic"]["dynamicRegistration"], false);
    assert_eq!(m["params"]["capabilities"]["workspace"]["diagnostic"]["refreshSupport"], false);
    let x = c.handshake_sent(p.id, 0);
    assert!(matches!(x.step(Heard::Clock { now_ns: 15_000_000_000 }), Listening::Read));
    match x.step(Heard::Clock { now_ns: 15_000_000_001 }) {
        Listening::Done(Err(e)) => assert_eq!(
            e.message(),
            "LSP request initialize timed out after 15s; log=/tmp/lsp-rust.log"
        ),
        other => panic!("got {other:?}"),
    }
    match x.step(Heard::Message(Err(IoError::new(IoErrorKind::UnexpectedEof, "eof")))) {
        Listening::Done(Err(LspShimError::Protocol(m))) => assert_eq!(m, "initialize recv: eof"),
        other => panic!("got {other:?}"),
    }
    match x.step(Heard::Message(Ok(json(r#"{"id":1,"error":{"code":1}}"#)))) {
        Listening::Done(Err(LspShimError::Protocol(m))) => {
            assert_eq!(m, "rust-analyzer initialize error: {\"code\":1}")
        }
        other => panic!("got {other:?}"),
    }
    assert!(matches!(
        x.step(Heard::Message(Ok(json(r#"{"id":1,"result":{}}"#)))),
        Listening::Done(Ok(_))
    ));
}

#[test]
fn answers_and_errors_are_told_apart() {
    let mut c = client();
    let q = c.hover("/a.rs", 5, 1);
    let p = c.request(&q.method, q.params);
    assert_eq!(value(&p.message)["params"]["position"]["line"], 4);
    let x = c.request_sent(&p, 0);
    let done = |m: &str| x.step(Heard::Message(Ok(json(m))));
    assert!(matches!(done(r#"{"id":9,"jsonrpc":"2.0","result":1}"#), Listening::CheckClock));
    assert!(matches!(done(r#"{"method":"window/logMessage"}"#), Listening::CheckClock));
    match done(r#"{"id":1,"jsonrpc":"2.0","result":null}"#) {
        Listening::Done(Ok(v)) => assert!(v.is_null()),
        other => panic!("got {other:?}"),
    }
    match done(r#"{"id":1,"jsonrpc":"2.0","error":{"code":-32801,"message":"content modified"}}"#) {
        Listening::Done(Err(LspShimError::Lsp { code, message, retry_after_ms })) => {
            assert_eq!(code, -32801);
            assert_eq!(message, "content modified");
            assert_eq!(retry_after_ms, None);
        }
        other => panic!("got {other:?}"),
    }
    match done(r#"{"id":1,"result":null}"#) {
        Listening::Done(Err(LspShimError::Protocol(m))) => {
            assert!(m.starts_with("parse textDocument/hover: "), "got {m}")
        }
        other => panic!("got {other:?}"),
    }
    match x.step(Heard::Message(Err(IoError::new(IoErrorKind::InvalidData, "torn")))) {
        Listening::Done(Err(LspShimError::Protocol(m))) => assert_eq!(m, "recv textDocument/hover: torn"),
        other => panic!("got {other:?}"),
    }
}

#[test]
fn no_time_at_all_has_its_own_words() {
    let words = |timeout_s| {
        LspShimError::Timeout { method: "m".into(), timeout_s, log_path: "l".into() }.message()
    };
    assert_eq!(words(0), "LSP request m timed out after 0ns; log=l");
    assert_eq!(words(1), "LSP request m timed out after 1s; log=l");
    assert_eq!(words(u64::MAX), format!("LSP request m timed out after {:?}; log=l", std::time::Duration::from_secs(u64::MAX)));
}

#[test]
fn starting_rust_analyzer_again_does_nothing_after_success() {
    let mut c = client();
    assert!(c.spawn_needed(false) && c.spawn_needed(true));
    c.handshake(1);
    assert!(c.spawn_needed(true), "the handshake is not over");
    c.handshake_completed();
    assert!(!c.spawn_needed(true));
    c.request("m", Json::Null);
    assert!(!c.spawn_needed(true));
    assert!(c.spawn_needed(false), "the child is gone");
    c.handshake(1);
    assert!(c.spawn_needed(true));
}

#[test]
fn transient_errors_are_retried_three_times() {
    for code in [LSP_ERROR_CONTENT_MODIFIED, LSP_ERROR_SERVER_CANCELLED] {
        assert!(matches!(request_with_retry(0, Err(lsp_error(code))), Retry::Again));
        assert!(matches!(request_with_retry(1, Err(lsp_error(code))), Retry::Again));
        match request_with_retry(2, Err(lsp_error(code))) {
            Retry::Return(Err(LspShimError::Lsp { code: c, retry_after_ms, .. })) => {
                assert_eq!(c, code);
                assert_eq!(retry_after_ms, Some(500));
            }
            other => panic!("got {other:?}"),
        }
    }
    match request_with_retry(0, Err(lsp_error(-32603))) {
        Retry::Return(Err(LspShimError::Lsp { code: -32603, retry_after_ms: None, .. })) => {}
        other => panic!("got {other:?}"),
    }
    assert!(matches!(request_with_retry(0, Ok(Json::Null)), Retry::Return(Ok(_))));
    assert!(matches!(
        request_with_retry(0, Err(LspShimError::protocol("x"))),
        Retry::Return(Err(LspShimError::Protocol(_)))
    ));
}

#[test]
fn two_equal_samples_settle_the_index() {
    let c = client();
    let mut i = c.wait_for_indexing(0);
    assert!(i.goes_on(59_999_999_999));
    assert!(!i.goes_on(60_000_000_000));
    assert!(matches!(i.sampled(Ok(json("[1]"))), Sampled::Again));
    assert!(matches!(i.sampled(Ok(json("[1,2]"))), Sampled::Again));
    match i.sampled(Ok(json("[1, 2]"))) {
        Sampled::Return(Ok(v)) => {
            let v = value(&v);
            assert_eq!(v["status"], "indexing_settled");
            assert_eq!(v["samples"], 2);
        }
        other => panic!("got {other:?}"),
    }
    let mut i = c.wait_for_indexing(0);
    assert!(matches!(i.sampled(Err(lsp_error(-1))), Sampled::Again));
    assert!(matches!(i.sampled(Ok(Json::Null)), Sampled::Return(Ok(_))));
    assert!(matches!(i.sampled(Err(LspShimError::protocol("x"))), Sampled::Return(Err(_))));
    assert_eq!(
        c.indexing_expired().message(),
        "LSP request wait_for_indexing timed out after 60s; log=/tmp/lsp-rust.log"
    );
}

#[test]
fn questions_name_their_methods() {
    let c = client();
    assert_eq!(c.definition("/a", 1, 1).method, "textDocument/definition");
    let r = c.references("/a", 0, 3);
    assert_eq!(r.method, "textDocument/references");
    assert_eq!(value(&r.params)["position"]["line"], 0);
    assert_eq!(value(&r.params)["position"]["character"], 2);
    assert_eq!(value(&r.params)["context"]["includeDeclaration"], true);
    let s = c.workspace_symbols("Foo");
    assert_eq!(s.method, "workspace/symbol");
    assert_eq!(value(&s.params)["query"], "Foo");
    let d = c.diagnostics("/a.rs");
    assert_eq!(d.method, "textDocument/diagnostic");
    assert_eq!(value(&d.params)["textDocument"]["uri"], "file:///a.rs");
}

#[test]
fn every_rust_failure_has_words_and_a_tag() {
    let io = || IoError::new(IoErrorKind::Other, "i");
    let all = [
        (LspShimError::Spawn { binary: "b".into(), source: io() }, "spawn"),
        (lsp_error(-1), "lsp"),
        (LspShimError::Timeout { method: "m".into(), timeout_s: 1, log_path: "l".into() }, "timeout"),
        (LspShimError::protocol("p"), "protocol"),
        (LspShimError::Io(io()), "io"),
        (LspShimError::Json("j".into()), "json"),
        (LspShimError::Internal("x".into()), "internal"),
    ];
    for (e, tag) in &all {
        assert_eq!(e.error_kind(), *tag);
    }
    assert_eq!(all[3].0.message(), "LSP protocol error: p");
    assert_eq!(all[4].0.message(), "I/O error: i");
    assert_eq!(all[5].0.message(), "JSON error: j");
    assert_eq!(all[6].0.message(), "internal error: x");
    assert_eq!(pipe_missing("stdin").message(), "LSP protocol error: rust-analyzer stdin handle missing");
    assert_eq!(pipe_not_ready("stdin").message(), "LSP protocol error: stdin not initialised");
}
