use mcp_tools::io_error::{IoError, IoErrorKind};
use mcp_tools::json::Json;
use mcp_tools::lsp_cpp::clangd::{ChildProbe, Clangd, ClangdEnv};
use mcp_tools::lsp_cpp::error::ShimError;
use mcp_tools::lsp_cpp::exchange::Heard;
use mcp_tools::lsp_cpp::start::{Start, StartAction, StartEvent};
use mcp_tools::lsp_rust::lsp;
use mcp_tools::lsp_rust::start as rust_start;
use serde_json::Value;

fn value(j: &Json) -> Value {
    serde_json::from_str(&j.to_text()).expect("text of a value is JSON")
}

fn json(s: &str) -> Json {
    Json::parse(s).expect("test value is JSON")
}

fn clangd() -> Clangd {
    let env = ClangdEnv {
        clangd_bin: None,
        clangd_log: None,
        clangd_jobs: None,
        cpus: Some(8),
        index_mode: None,
        index_file: None,
        home: None,
    };
    Clangd::new("/p", &env)
}

fn io(kind: IoErrorKind) -> IoError {
    IoError::new(kind, "no")
}

fn failure(step: (Start, StartAction)) -> ShimError {
    match step {
        (Start::Over, StartAction::Done(Err(e))) => e,
        other => panic!("got {other:?}"),
    }
}

/// Brings a start to where the process is launched.
fn to_launch(c: &mut Clangd, child: bool) -> Start {
    let (start, action) = c.spawn(child);
    assert!(matches!(action, StartAction::Find));
    let (start, action) = start.step(StartEvent::Found { narrow: false, full: true }, c);
    assert!(matches!(action, StartAction::Open));
    let (start, action) = start.step(StartEvent::Opened { failure: None, index_file_there: false }, c);
    match action {
        StartAction::Launch { command } => {
            assert_eq!(command.binary, "clangd-19");
            assert!(command.args.contains(&"--compile-commands-dir=/p".to_string()));
        }
        other => panic!("got {other:?}"),
    }
    start
}

/// Brings a start to where the handshake awaits its answer.
fn to_wait(c: &mut Clangd, child: bool) -> (Start, i64) {
    let start = to_launch(c, child);
    let (start, action) = start.step(StartEvent::Launched { own_pid: 7, stdin: true, stdout: true }, c);
    let id = match action {
        StartAction::Send { message } => {
            let message = value(&message);
            assert_eq!(message["method"], "initialize");
            assert_eq!(message["params"]["processId"], 7);
            message["id"].as_i64().expect("a request has a number")
        }
        other => panic!("got {other:?}"),
    };
    let (start, action) = start.step(StartEvent::Sent { result: Ok(()), now_ns: 0 }, c);
    assert!(matches!(action, StartAction::CheckClock));
    let (start, action) = start.step(StartEvent::Heard(Heard::Clock { now_ns: 10_000_000_000 }), c);
    assert!(matches!(action, StartAction::Read));
    (start, id)
}

fn answer(id: i64) -> StartEvent {
    StartEvent::Heard(Heard::Message(Ok(json(&format!(r#"{{"id":{id},"result":{{}}}}"#)))))
}

/// Completes a start from where the handshake awaits its answer.
fn complete(start: Start, id: i64, c: &mut Clangd) {
    let (start, action) = start.step(answer(id), c);
    match action {
        StartAction::Send { message } => {
            assert_eq!(value(&message)["method"], "initialized");
            assert_eq!(value(&message)["params"], serde_json::Value::Object(Default::default()));
        }
        other => panic!("got {other:?}"),
    }
    let (start, action) = start.step(StartEvent::Sent { result: Ok(()), now_ns: 1 }, c);
    assert!(matches!(action, StartAction::Seed));
    let (start, action) = start.step(StartEvent::Seeded, c);
    assert!(matches!(start, Start::Over));
    assert!(matches!(action, StartAction::Done(Ok(()))));
}

#[test]
fn a_start_needs_a_database_a_log_and_a_binary() {
    let mut c = clangd();
    let (start, _) = c.spawn(false);
    let none = StartEvent::Found { narrow: false, full: false };
    assert!(matches!(failure(start.step(none, &mut c)), ShimError::NoCompileCommands { .. }));

    let (start, _) = c.spawn(false);
    let (start, _) = start.step(StartEvent::Found { narrow: true, full: false }, &mut c);
    let opened = StartEvent::Opened { failure: Some(io(IoErrorKind::Other)), index_file_there: true };
    assert!(matches!(failure(start.step(opened, &mut c)), ShimError::Io(_)));

    let start = to_launch(&mut c, false);
    let missing = StartEvent::NotLaunched(io(IoErrorKind::NotFound));
    match failure(start.step(missing, &mut c)) {
        ShimError::ClangdMissing { path } => assert_eq!(path, "clangd-19"),
        other => panic!("got {other:?}"),
    }
    let start = to_launch(&mut c, false);
    let refused = StartEvent::NotLaunched(io(IoErrorKind::Other));
    assert!(matches!(failure(start.step(refused, &mut c)), ShimError::Io(_)));

    for (stdin, words) in [(false, "clangd stdin handle missing"), (true, "clangd stdout handle missing")] {
        let start = to_launch(&mut c, false);
        let launched = StartEvent::Launched { own_pid: 7, stdin, stdout: false };
        match failure(start.step(launched, &mut c)) {
            ShimError::Protocol(m) => assert_eq!(m, words),
            other => panic!("got {other:?}"),
        }
    }
    assert!(c.spawn_needed(true) && c.spawn_needed(false));
}

#[test]
fn a_start_that_failed_is_made_again_with_a_handshake_of_its_own() {
    let mut c = clangd();
    let (start, id) = to_wait(&mut c, false);
    assert_eq!(id, 1);
    let (start, action) = start.step(answer(99), &mut c);
    assert!(matches!(action, StartAction::CheckClock), "an answer to something else");
    let late = StartEvent::Heard(Heard::Clock { now_ns: 10_000_000_001 });
    assert!(matches!(failure(start.step(late, &mut c)), ShimError::InitializeTimeout { timeout_s: 10, .. }));

    c.request("m", Json::Null);
    c.is_alive(&ChildProbe::Running).unwrap();
    c.due_probe(ChildProbe::Running);
    let (start, id) = to_wait(&mut c, true);
    assert_eq!(id, 3);
    let no = StartEvent::Heard(Heard::Message(Ok(json(r#"{"id":3,"error":"no"}"#))));
    match failure(start.step(no, &mut c)) {
        ShimError::Protocol(m) => assert_eq!(m, "clangd initialize error: \"no\""),
        other => panic!("got {other:?}"),
    }

    let (start, _) = to_wait(&mut c, true);
    let torn = StartEvent::Heard(Heard::Message(Err(ShimError::protocol("torn"))));
    assert!(matches!(failure(start.step(torn, &mut c)), ShimError::Protocol(_)));

    let (start, id) = to_wait(&mut c, true);
    let (start, _) = start.step(answer(id), &mut c);
    let unsent = StartEvent::Sent { result: Err(ShimError::protocol("pipe")), now_ns: 1 };
    assert!(matches!(failure(start.step(unsent, &mut c)), ShimError::Protocol(_)));
    assert!(c.spawn_needed(true), "the answer was not acknowledged");

    let (start, id) = to_wait(&mut c, true);
    complete(start, id, &mut c);
    assert!(!c.spawn_needed(true) && c.spawn_needed(false));
}

#[test]
fn a_start_after_a_success_is_over_at_once() {
    let mut c = clangd();
    let (start, id) = to_wait(&mut c, false);
    complete(start, id, &mut c);
    c.request("m", Json::Null);
    for _ in 0..2 {
        let (start, action) = c.spawn(true);
        assert!(matches!(action, StartAction::Done(Ok(()))));
        let (start, action) = start.step(StartEvent::Seeded, &mut c);
        assert!(matches!(start, Start::Over) && matches!(action, StartAction::Ignore));
    }
    let (start, id) = to_wait(&mut c, false);
    assert_eq!(id, 3, "without a child there is another handshake");
    complete(start, id, &mut c);
}

#[test]
fn events_that_are_not_awaited_change_nothing() {
    let mut c = clangd();
    let (start, _) = c.spawn(false);
    let (start, action) = start.step(StartEvent::Seeded, &mut c);
    assert!(matches!(start, Start::Finding) && matches!(action, StartAction::Ignore));
    let (start, action) = start.step(answer(1), &mut c);
    assert!(matches!(start, Start::Finding) && matches!(action, StartAction::Ignore));
    assert!(c.spawn_needed(true));
}

fn client() -> lsp::RustAnalyzerClient {
    let env = lsp::RustAnalyzerEnv { binary: None, timeout: None, log_file: None };
    lsp::RustAnalyzerClient::new("/w", None, &env)
}

fn rust_failure(step: (rust_start::Start, rust_start::StartAction)) -> lsp::LspShimError {
    match step {
        (rust_start::Start::Over, rust_start::StartAction::Done(Err(e))) => e,
        other => panic!("got {other:?}"),
    }
}

fn rust_to_launch(c: &mut lsp::RustAnalyzerClient, child: bool) -> rust_start::Start {
    let (start, action) = c.spawn(child);
    assert!(matches!(action, rust_start::StartAction::Open));
    let (start, action) = start.step(rust_start::StartEvent::Opened { failure: None }, c);
    match action {
        rust_start::StartAction::Launch { binary } => assert_eq!(binary, "rust-analyzer"),
        other => panic!("got {other:?}"),
    }
    start
}

fn rust_to_wait(c: &mut lsp::RustAnalyzerClient, child: bool) -> (rust_start::Start, u64) {
    let start = rust_to_launch(c, child);
    let launched = rust_start::StartEvent::Launched { own_pid: 7, stdin: true, stdout: true };
    let (start, action) = start.step(launched, c);
    let id = match action {
        rust_start::StartAction::Send { message } => {
            assert_eq!(value(&message)["method"], "initialize");
            value(&message)["id"].as_u64().expect("a request has a number")
        }
        other => panic!("got {other:?}"),
    };
    let (start, action) = start.step(rust_start::StartEvent::Sent { result: Ok(()), now_ns: 0 }, c);
    assert!(matches!(action, rust_start::StartAction::CheckClock));
    (start, id)
}

fn rust_answer(id: u64) -> rust_start::StartEvent {
    let message = json(&format!(r#"{{"id":{id},"result":{{}}}}"#));
    rust_start::StartEvent::Heard(lsp::Heard::Message(Ok(message)))
}

#[test]
fn a_start_of_rust_analyzer_needs_a_log_a_binary_and_pipes() {
    let mut c = client();
    let (start, _) = c.spawn(false);
    let shut = rust_start::StartEvent::Opened { failure: Some(io(IoErrorKind::Other)) };
    assert!(matches!(rust_failure(start.step(shut, &mut c)), lsp::LspShimError::Io(_)));
    let start = rust_to_launch(&mut c, false);
    let missing = rust_start::StartEvent::NotLaunched(io(IoErrorKind::NotFound));
    assert!(matches!(rust_failure(start.step(missing, &mut c)), lsp::LspShimError::Spawn { .. }));
    for (stdin, words) in [
        (false, "rust-analyzer stdin handle missing"),
        (true, "rust-analyzer stdout handle missing"),
    ] {
        let start = rust_to_launch(&mut c, false);
        let launched = rust_start::StartEvent::Launched { own_pid: 7, stdin, stdout: false };
        match rust_failure(start.step(launched, &mut c)) {
            lsp::LspShimError::Protocol(m) => assert_eq!(m, words),
            other => panic!("got {other:?}"),
        }
    }
}

#[test]
fn a_start_of_rust_analyzer_that_failed_is_made_again() {
    let mut c = client();
    let (start, id) = rust_to_wait(&mut c, false);
    assert_eq!(id, 1);
    let late = rust_start::StartEvent::Heard(lsp::Heard::Clock { now_ns: 15_000_000_001 });
    assert!(matches!(rust_failure(start.step(late, &mut c)), lsp::LspShimError::Timeout { .. }));
    c.request("m", Json::Null);
    assert!(c.spawn_needed(true) && c.spawn_needed(false));

    let (start, id) = rust_to_wait(&mut c, true);
    assert_eq!(id, 3);
    let (start, action) = start.step(rust_answer(id), &mut c);
    match action {
        rust_start::StartAction::Send { message } => assert_eq!(value(&message)["method"], "initialized"),
        other => panic!("got {other:?}"),
    }
    assert!(c.spawn_needed(true), "the answer was not acknowledged");
    let (start, action) = start.step(rust_start::StartEvent::Sent { result: Ok(()), now_ns: 1 }, &mut c);
    assert!(matches!(start, rust_start::Start::Over));
    assert!(matches!(action, rust_start::StartAction::Done(Ok(()))));
    let (start, action) = start.step(rust_answer(id), &mut c);
    assert!(matches!(start, rust_start::Start::Over));
    assert!(matches!(action, rust_start::StartAction::Ignore));

    let (_, action) = c.spawn(true);
    assert!(matches!(action, rust_start::StartAction::Done(Ok(()))));
    rust_to_wait(&mut c, false);
}
