use mcp_tools::io_error::{IoError, IoErrorKind};
use mcp_tools::json::Json;
use mcp_tools::lsp_cpp::answers::{parse_hover, parse_locations, parse_symbols};
use mcp_tools::lsp_cpp::backend::{hover_to_json, locations_to_json, symbols_to_json, Location};
use mcp_tools::lsp_cpp::clangd::{
    default_clangd_jobs, effective_seed_headers, ending, format_exit_status, full_database_path,
    narrow_database_path, pipe_missing, pipe_not_ready, seed_header, seed_headers_from_env, seeded_line,
    ChildProbe, Clangd, ClangdEnv, Ending, IndexMode, Seeding,
};
use mcp_tools::lsp_cpp::error::ShimError;
use mcp_tools::lsp_cpp::exchange::{Exchange, Heard, Listening};
use serde_json::Value;

fn value(j: &Json) -> Value {
    serde_json::from_str(&j.to_text()).expect("text of a value is JSON")
}

fn json(s: &str) -> Json {
    Json::parse(s).expect("test value is JSON")
}

fn env() -> ClangdEnv {
    ClangdEnv {
        clangd_bin: None,
        clangd_log: None,
        clangd_jobs: None,
        cpus: Some(8),
        index_mode: None,
        index_file: None,
        home: None,
    }
}

#[test]
fn resolve_prefers_narrow_when_present() {
    let dir = Clangd::resolve_compile_commands_dir("/p", true, true).unwrap();
    assert_eq!(dir, "/p");
}

#[test]
fn resolve_falls_back_to_full() {
    let dir = Clangd::resolve_compile_commands_dir("/p", false, true).unwrap();
    assert_eq!(dir, "/p");
    assert_eq!(narrow_database_path("/p"), "/p/compile_commands.narrow.json");
    assert_eq!(full_database_path("/p"), "/p/compile_commands.json");
}

#[test]
fn resolve_errors_when_neither_present() {
    let err = Clangd::resolve_compile_commands_dir("/p", false, false).unwrap_err();
    assert!(matches!(err, ShimError::NoCompileCommands { .. }), "got {err:?}");
}

#[test]
fn missing_compile_commands_reports_structured_error() {
    let backend = Clangd::new("/p", &env());
    let err = Clangd::resolve_compile_commands_dir(backend.root(), false, false).unwrap_err();
    assert!(matches!(err, ShimError::NoCompileCommands { .. }), "got {err:?}");
}

#[test]
fn parse_locations_handles_array_object_and_null() {
    let arr = json(
        r#"[{
        "uri": "file:///tmp/foo.cpp",
        "range": {"start": {"line": 9, "character": 4}, "end": {"line": 9, "character": 7}}
    }]"#,
    );
    let locs = parse_locations(&arr);
    assert_eq!(locs.len(), 1);
    assert_eq!(locs[0].path, "/tmp/foo.cpp");
    assert_eq!(locs[0].line, 10);
    assert_eq!(locs[0].column, 5);

    let single = json(
        r#"{
        "uri": "file:///tmp/bar.cpp",
        "range": {"start": {"line": 0, "character": 0}, "end": {"line": 0, "character": 1}}
    }"#,
    );
    let locs = parse_locations(&single);
    assert_eq!(locs.len(), 1);
    assert_eq!(locs[0].path, "/tmp/bar.cpp");

    assert!(parse_locations(&Json::Null).is_empty());
}

#[test]
fn places_that_tell_nothing_are_left_out() {
    let arr = json(
        r#"[{"uri":"x.cpp","range":{"start":{"line":1,"character":2}}},
            {"uri":7,"range":{"start":{"line":1,"character":2}}},
            {"uri":"y.cpp"}, 3,
            {"uri":"file://z.cpp","range":{"start":{"line":4294967295,"character":4294967296}}}]"#,
    );
    let locs = parse_locations(&arr);
    assert_eq!(
        locs,
        vec![
            Location { path: "x.cpp".into(), line: 2, column: 3 },
            Location { path: "z.cpp".into(), line: 0, column: 1 },
        ]
    );
    assert!(parse_locations(&json("true")).is_empty());
    assert!(parse_locations(&json("{}")).is_empty());
    let out = value(&locations_to_json(&locs));
    assert_eq!(out[0]["path"], "x.cpp");
    assert_eq!(out[0]["line"], 2);
    assert_eq!(out[0]["column"], 3);
}

#[test]
fn hovers_come_in_three_shapes() {
    let text = |s: &str| parse_hover(&json(s)).map(|h| h.contents);
    assert_eq!(text(r#"{"contents":"plain"}"#).as_deref(), Some("plain"));
    assert_eq!(text(r#"{"contents":{"kind":"markdown","value":"md"}}"#).as_deref(), Some("md"));
    assert_eq!(
        text(r#"{"contents":["a",{"value":"b"},{"other":1},5,"c"]}"#).as_deref(),
        Some("a\nb\nc")
    );
    assert_eq!(text("null"), None);
    assert_eq!(text("{}"), None);
    assert_eq!(text(r#"{"contents":""}"#), None);
    assert_eq!(text(r#"{"contents":7}"#), None);
    assert_eq!(value(&hover_to_json(&None)), Value::Null);
    let some = parse_hover(&json(r#"{"contents":"plain"}"#));
    assert_eq!(value(&hover_to_json(&some))["contents"], "plain");
}

#[test]
fn symbols_need_name_kind_and_place() {
    let at = r#"{"uri":"file:///a.h","range":{"start":{"line":0,"character":0}}}"#;
    let list = json(&format!(
        r#"[{{"name":"A","kind":5,"location":{at},"containerName":"ns"}},
            {{"name":"B","kind":6,"location":{at}}},
            {{"kind":6,"location":{at}}},
            {{"name":"C","location":{at}}},
            {{"name":"D","kind":1}},
            {{"name":"E","kind":1,"location":{{}}}}]"#
    ));
    let symbols = parse_symbols(&list);
    assert_eq!(symbols.len(), 2);
    assert_eq!(symbols[0].name, "A");
    assert_eq!(symbols[0].kind, 5);
    assert_eq!(symbols[0].container.as_deref(), Some("ns"));
    assert_eq!(symbols[1].container, None);
    assert!(parse_symbols(&Json::Null).is_empty());
    let out = value(&symbols_to_json(&symbols));
    assert_eq!(out[0]["location"]["path"], "/a.h");
    assert_eq!(out[1]["container"], Value::Null);
}

#[test]
fn missing_clangd_binary_reports_structured_error() {
    let mut e = env();
    e.clangd_bin = Some("/definitely/not/a/real/path/clangd-xyz".into());
    let backend = Clangd::new("/p", &e);
    let err = backend.launch_failed(IoError::new(IoErrorKind::NotFound, "No such file"));
    assert!(matches!(err, ShimError::ClangdMissing { .. }), "got {err:?}");
    let err = backend.launch_failed(IoError::new(IoErrorKind::Other, "denied"));
    assert!(matches!(err, ShimError::Io(_)), "got {err:?}");
}

#[test]
fn full_mode_with_missing_index_reports_structured_error() {
    let backend =
        Clangd::new("/p", &env()).with_index_mode(IndexMode::Full { index_file: "/p/does-not-exist.idx".into() });
    match backend.launch_command("/p", None, false).unwrap_err() {
        ShimError::NoIndexFile { path } => assert_eq!(path, "/p/does-not-exist.idx"),
        other => panic!("expected NoIndexFile, got {other:?}"),
    }
}

#[test]
fn hybrid_mode_with_missing_index_reports_structured_error() {
    let backend =
        Clangd::new("/p", &env()).with_index_mode(IndexMode::Hybrid { index_file: "/p/missing.idx".into() });
    let err = backend.launch_command("/p", None, false).unwrap_err();
    assert!(matches!(err, ShimError::NoIndexFile { .. }), "got {err:?}");
}

#[test]
fn an_unopened_log_comes_first() {
    let backend = Clangd::new("/p", &env()).with_index_mode(IndexMode::Full { index_file: "x".into() });
    let failure = Some(IoError::new(IoErrorKind::Other, "read-only"));
    let err = backend.launch_command("/p", failure, false).unwrap_err();
    assert!(matches!(err, ShimError::Io(_)), "got {err:?}");
}

#[test]
fn arguments_follow_the_index_mode() {
    let common = ["--header-insertion=never", "--clang-tidy=false", "--pch-storage=disk", "-j=4"];
    let dir = "--compile-commands-dir=/p";
    let bg = ["--background-index", "--background-index-priority=background"];
    let narrow = Clangd::new("/p", &env()).launch_command("/p", None, false).unwrap();
    assert_eq!(narrow.binary, "clangd-19");
    assert_eq!(narrow.args, [&common[..], &[dir], &bg[..]].concat());
    let full = Clangd::new("/p", &env())
        .with_index_mode(IndexMode::Full { index_file: "/i".into() })
        .launch_command("/p", None, true)
        .unwrap();
    assert_eq!(full.args, [&common[..], &[dir], &["--index-file=/i"]].concat());
    let hybrid = Clangd::new("/p", &env())
        .with_index_mode(IndexMode::Hybrid { index_file: "/i".into() })
        .launch_command("/p", None, true)
        .unwrap();
    assert_eq!(hybrid.args, [&common[..], &[dir], &["--index-file=/i"], &bg[..]].concat());
}

#[test]
fn index_mode_from_env_defaults_to_narrow() {
    assert_eq!(IndexMode::from_env(None, None, None), IndexMode::Narrow);
    assert_eq!(IndexMode::from_env(Some("FULL"), Some("/x"), None), IndexMode::Narrow);
}

#[test]
fn index_mode_from_env_parses_full_with_explicit_path() {
    match IndexMode::from_env(Some("full"), Some("/tmp/probe.idx"), None) {
        IndexMode::Full { index_file } => assert_eq!(index_file, "/tmp/probe.idx"),
        other => panic!("expected Full, got {other:?}"),
    }
}

#[test]
fn index_mode_from_env_falls_back_to_the_cache() {
    assert_eq!(
        IndexMode::from_env(Some("hybrid"), None, Some("/home/u")),
        IndexMode::Hybrid { index_file: "/home/u/.cache/lsp-cpp-full-index/index.idx".into() }
    );
    assert_eq!(
        IndexMode::from_env(Some("full"), None, None),
        IndexMode::Full { index_file: "/root/.cache/lsp-cpp-full-index/index.idx".into() }
    );
}

#[test]
fn workspace_symbol_uses_longer_timeout_than_position_queries() {
    let backend = Clangd::new("/p", &env());
    assert_eq!(backend.request_timeout_for_method("textDocument/definition"), 60);
    assert_eq!(backend.request_timeout_for_method("textDocument/references"), 60);
    assert_eq!(backend.request_timeout_for_method("textDocument/hover"), 60);
    assert_eq!(backend.request_timeout_for_method("workspace/symbol"), 90);
}

#[test]
fn classify_timeout_alive_subprocess_returns_busy() {
    let backend = Clangd::new("/p", &env());
    match backend.classify_timeout("textDocument/definition", 1, &ChildProbe::Running) {
        ShimError::ClangdBusy { method, timeout_s, .. } => {
            assert_eq!(method, "textDocument/definition");
            assert_eq!(timeout_s, 1);
        }
        other => panic!("expected ClangdBusy for alive subprocess, got {other:?}"),
    }
    let unknown = ChildProbe::Failed(IoError::new(IoErrorKind::Other, "EINVAL"));
    assert!(matches!(
        backend.classify_timeout("m", 1, &unknown),
        ShimError::ClangdBusy { .. }
    ));
}

#[test]
fn classify_timeout_exited_subprocess_returns_exited() {
    let backend = Clangd::new("/p", &env());
    let gone = ChildProbe::Exited { code: Some(0), signal: None };
    match backend.classify_timeout("workspace/symbol", 1, &gone) {
        ShimError::ClangdExited { status, .. } => assert_eq!(status, "exited_during_request"),
        other => panic!("expected ClangdExited for exited subprocess, got {other:?}"),
    }
    assert!(matches!(
        backend.classify_timeout("m", 1, &ChildProbe::NoChild),
        ShimError::ClangdExited { .. }
    ));
}

#[test]
fn settings_come_from_the_environment() {
    let mut e = env();
    e.clangd_log = Some("/var/c.log".into());
    e.clangd_jobs = Some("12".into());
    let c = Clangd::new("/p", &e);
    assert_eq!(c.log(), "/var/c.log");
    assert!(c.launch_command("/p", None, false).unwrap().args.contains(&"-j=12".to_string()));
    e.clangd_jobs = Some("many".into());
    let c = Clangd::new("/p", &e);
    assert!(c.launch_command("/p", None, false).unwrap().args.contains(&"-j=4".to_string()));
    assert_eq!(default_clangd_jobs(Some(1)), 2);
    assert_eq!(default_clangd_jobs(Some(9)), 4);
    assert_eq!(default_clangd_jobs(None), 2);
}

#[test]
fn exit_statuses_are_put_in_words() {
    assert_eq!(format_exit_status(Some(-1), None), "code=-1");
    assert_eq!(format_exit_status(None, Some(15)), "signal=15");
    assert_eq!(format_exit_status(None, None), "code=?");
}

#[test]
fn seed_headers_are_trimmed_and_filtered() {
    assert!(seed_headers_from_env(None).is_empty());
    assert!(seed_headers_from_env(Some(",")).is_empty());
    assert_eq!(seed_headers_from_env(Some(" /a.h ,, /b c.h,")), ["/a.h", "/b c.h"]);
}

#[test]
fn unreal_projects_have_default_headers() {
    let ue = effective_seed_headers(None, "/vendor/UnrealEngine");
    assert_eq!(ue.len(), 12);
    assert_eq!(
        ue[0],
        "/vendor/UnrealEngine/Engine/Source/Runtime/Engine/Classes/GameFramework/Actor.h"
    );
    assert_eq!(effective_seed_headers(Some("/x.h"), "/vendor/UnrealEngine"), ["/x.h"]);
    assert_eq!(effective_seed_headers(Some(" , "), "/vendor/UnrealEngine").len(), 12);
    assert!(effective_seed_headers(None, "/vendor/Unreal").is_empty());
}

#[test]
fn headers_are_opened_or_skipped_with_a_line() {
    match seed_header("/a.h", Ok("int x;")) {
        Seeding::Open { message } => {
            let m = value(&message);
            assert_eq!(m["method"], "textDocument/didOpen");
            assert_eq!(m["params"]["textDocument"]["uri"], "file:///a.h");
            assert_eq!(m["params"]["textDocument"]["languageId"], "cpp");
            assert_eq!(m["params"]["textDocument"]["version"], 1);
            assert_eq!(m["params"]["textDocument"]["text"], "int x;");
            assert!(m.get("id").is_none());
        }
        other => panic!("got {other:?}"),
    }
    match seed_header("/a.h", Err("gone")) {
        Seeding::Skip { line } => assert_eq!(line, "lsp-cpp seed-didOpen: skip /a.h (read failed: gone)"),
        other => panic!("got {other:?}"),
    }
    assert_eq!(seeded_line("/a.h", None), "lsp-cpp seed-didOpen: opened /a.h");
    assert_eq!(
        seeded_line("/a.h", Some("pipe")),
        "lsp-cpp seed-didOpen: notify failed for /a.h: pipe"
    );
}

#[test]
fn requests_are_numbered_from_one() {
    let mut c = Clangd::new("/p", &env());
    let (id, hello) = c.handshake(99);
    assert_eq!(id, 1);
    let hello = value(&hello);
    assert_eq!(hello["method"], "initialize");
    assert_eq!(hello["params"]["processId"], 99);
    assert_eq!(hello["params"]["rootUri"], "file:///p");
    let q = c.definition("/a.cpp", 1, 0);
    let pending = c.request(&q.method, q.params);
    assert_eq!(pending.id, 2);
    let m = value(&pending.message);
    assert_eq!(m["id"], 2);
    assert_eq!(m["jsonrpc"], "2.0");
    assert_eq!(m["params"]["textDocument"]["uri"], "file:///a.cpp");
    assert_eq!(m["params"]["position"]["line"], 0);
    assert_eq!(m["params"]["position"]["character"], 0);
    let q = c.references("/a.cpp", 10, 7);
    assert_eq!(value(&q.params)["context"]["includeDeclaration"], true);
    assert_eq!(value(&q.params)["position"]["line"], 9);
    let q = c.workspace_symbol("FFrame");
    assert_eq!(value(&q.params)["query"], "FFrame");
    assert_eq!(c.request(&q.method, q.params).timeout_s, 90);
    assert_eq!(c.hover("/a.cpp", 1, 1).method, "textDocument/hover");
}

fn waiting() -> Exchange {
    let mut c = Clangd::new("/p", &env());
    c.request("textDocument/hover", Json::Null).sent(1_000)
}

#[test]
fn foreign_messages_are_passed_over() {
    let x = waiting();
    assert_eq!(x.deadline_ns, 60_000_001_000);
    assert!(matches!(x.step(Heard::Clock { now_ns: 60_000_001_000 }), Listening::Read));
    for m in [r#"{"method":"$/progress"}"#, r#"{"id":2,"result":1}"#, r#"{"id":"1","result":1}"#] {
        assert!(matches!(x.step(Heard::Message(Ok(json(m)))), Listening::CheckClock), "{m}");
    }
    assert!(matches!(x.step(Heard::Clock { now_ns: 60_000_001_001 }), Listening::Expired));
}

#[test]
fn own_answers_settle_a_request() {
    let x = waiting();
    match x.step(Heard::Message(Ok(json(r#"{"id":1,"result":{"a":1}}"#)))) {
        Listening::Done(Ok(v)) => assert_eq!(value(&v)["a"], 1),
        other => panic!("got {other:?}"),
    }
    match x.step(Heard::Message(Ok(json(r#"{"id":1}"#)))) {
        Listening::Done(Ok(v)) => assert!(v.is_null()),
        other => panic!("got {other:?}"),
    }
    match x.step(Heard::Message(Ok(json(r#"{"id":1,"error":{"code":-1}}"#)))) {
        Listening::Done(Err(ShimError::Protocol(m))) => {
            assert_eq!(m, "clangd error response to textDocument/hover: {\"code\":-1}")
        }
        other => panic!("got {other:?}"),
    }
    match x.step(Heard::Message(Err(ShimError::protocol("torn")))) {
        Listening::Done(Err(ShimError::Protocol(m))) => assert_eq!(m, "torn"),
        other => panic!("got {other:?}"),
    }
}

#[test]
fn the_handshake_has_its_own_words() {
    let c = Clangd::new("/p", &env());
    let x = c.handshake_sent(1, 0);
    assert_eq!(x.deadline_ns, 10_000_000_000);
    match x.step(Heard::Message(Ok(json(r#"{"id":1,"error":"no"}"#)))) {
        Listening::Done(Err(ShimError::Protocol(m))) => assert_eq!(m, "clangd initialize error: \"no\""),
        other => panic!("got {other:?}"),
    }
    assert!(matches!(
        c.handshake_expired(),
        ShimError::InitializeTimeout { timeout_s: 10, .. }
    ));
}

#[test]
fn pipes_have_their_words() {
    assert_eq!(pipe_missing("stdin").message(), "clangd JSON-RPC error: clangd stdin handle missing");
    assert_eq!(pipe_not_ready("stdout").message(), "clangd JSON-RPC error: clangd stdout not initialised");
}

#[test]
fn endings_are_bounded() {
    assert_eq!(ending(true, 9, 1), Ending::Over);
    assert_eq!(ending(false, 1, 1), Ending::Sleep);
    assert_eq!(ending(false, 2, 1), Ending::Kill);
}

#[test]
fn probes_of_the_child_are_remembered() {
    let mut c = Clangd::new("/p", &env());
    assert!(!c.is_alive(&ChildProbe::NoChild).unwrap());
    assert!(c.is_alive(&ChildProbe::Running).unwrap());
    assert_eq!(c.last_exit_status(), None);
    assert!(!c.is_alive(&ChildProbe::Exited { code: Some(3), signal: None }).unwrap());
    assert_eq!(c.last_exit_status(), Some("code=3"));
    assert!(c.is_alive(&ChildProbe::Failed(IoError::new(IoErrorKind::Other, "x"))).is_err());
    assert_eq!(c.last_exit_status(), Some("code=3"));
}

#[test]
fn every_failure_has_words_and_a_tag() {
    let l = || "/l".to_string();
    let all = [
        (ShimError::ClangdMissing { path: "/c".into() }, "clangd_missing"),
        (ShimError::NoCompileCommands { root: "/r".into() }, "no_compile_commands"),
        (ShimError::NoIndexFile { path: "/i".into() }, "no_index_file"),
        (ShimError::InitializeTimeout { timeout_s: 10, log_path: l() }, "initialize_timeout"),
        (ShimError::RequestTimeout { method: "m".into(), timeout_s: 1, log_path: l() }, "request_timeout"),
        (
            ShimError::ClangdBusy {
                method: "m".into(),
                timeout_s: 1,
                current_status: String::new(),
                log_path: l(),
            },
            "clangd_busy",
        ),
        (
            ShimError::QueueDepthExceeded { in_flight: 1, capacity: 1, retry_after_s: 1 },
            "queue_depth_exceeded",
        ),
        (ShimError::ClangdExited { status: "code=1".into(), log_path: l() }, "clangd_exited"),
        (ShimError::protocol("p"), "protocol"),
        (ShimError::Io(IoError::new(IoErrorKind::Other, "i")), "io"),
        (ShimError::Json("j".into()), "json"),
    ];
    for (e, tag) in &all {
        assert_eq!(e.error_kind(), *tag);
        assert!(!e.message().is_empty());
    }
    assert_eq!(all[5].0.message(), "clangd busy after 1s (m); status=; log: /l");
    assert_eq!(all[7].0.message(), "clangd exited unexpectedly (status=code=1); log: /l");
    assert_eq!(all[9].0.message(), "I/O error: i");
    assert_eq!(all[10].0.message(), "JSON error: j");
}

#[test]
fn starting_clangd_again_does_nothing_after_success() {
    let mut c = Clangd::new("/p", &env());
    assert!(c.spawn_needed(false) && c.spawn_needed(true));
    c.handshake(1);
    assert!(c.spawn_needed(true), "the handshake is not over");
    c.handshake_completed();
    assert!(!c.spawn_needed(true));
    c.request("m", Json::Null);
    assert!(!c.is_alive(&ChildProbe::Exited { code: Some(0), signal: None }).unwrap());
    assert!(c.spawn_needed(false), "the child is gone");
    c.handshake(1);
    assert!(c.spawn_needed(true));
}

#[test]
fn exits_are_handed_on_once() {
    let mut c = Clangd::new("/p", &env());
    assert!(matches!(c.due_probe(ChildProbe::NoChild), ChildProbe::NoChild));
    c.is_alive(&ChildProbe::Exited { code: Some(3), signal: None }).unwrap();
    c.is_alive(&ChildProbe::NoChild).unwrap();
    assert!(matches!(
        c.due_probe(ChildProbe::NoChild),
        ChildProbe::Exited { code: Some(3), signal: None }
    ));
    assert!(matches!(c.due_probe(ChildProbe::NoChild), ChildProbe::NoChild));
}

#[test]
fn only_a_directory_of_that_name_is_an_unreal_project() {
    assert!(effective_seed_headers(None, "/src/UnrealEngineFork").is_empty());
    assert!(effective_seed_headers(None, "/src/MyUnrealEngine/x").is_empty());
    assert_eq!(effective_seed_headers(None, "/src/UnrealEngine").len(), 12);
    assert_eq!(effective_seed_headers(None, "/src/UnrealEngine/Projects/Game").len(), 12);
    assert_eq!(effective_seed_headers(Some("/h.h"), "/src/UnrealEngine"), ["/h.h"]);
}
