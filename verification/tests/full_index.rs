use mcp_tools::json::Json;
use mcp_tools::lsp_cpp::clangd::{Clangd, ClangdEnv, IndexMode};
use mcp_tools::lsp_cpp::error::ShimError;
use mcp_tools::lsp_cpp::full_index::{
    batch_line, before_line, count_shards, drained_line, draining_line, drains_on, log_line,
    pick_compile_commands_path, read_compile_commands, report, start_line, sum_shard_bytes, Drain, DrainStep,
    IndexAction, IndexRun, SizedFile,
};
use serde_json::Value;

fn value(j: &Json) -> Value {
    serde_json::from_str(&j.to_text()).expect("text of a value is JSON")
}

fn clangd(mode: IndexMode) -> Clangd {
    let env = ClangdEnv {
        clangd_bin: None,
        clangd_log: None,
        clangd_jobs: None,
        cpus: None,
        index_mode: None,
        index_file: None,
        home: None,
    };
    Clangd::new("/p", &env).with_index_mode(mode)
}

const SEC: u128 = 1_000_000_000;

#[test]
fn pick_compile_commands_prefers_full_over_narrow() {
    assert_eq!(pick_compile_commands_path("/d", true, true).unwrap(), "/d/compile_commands.json");
}

#[test]
fn pick_compile_commands_falls_back_to_narrow() {
    assert_eq!(pick_compile_commands_path("/d", false, true).unwrap(), "/d/compile_commands.narrow.json");
}

#[test]
fn pick_compile_commands_errors_when_neither_present() {
    let err = pick_compile_commands_path("/d", false, false).unwrap_err();
    assert!(matches!(err, ShimError::NoCompileCommands { .. }));
}

#[test]
fn read_compile_commands_dedupes_by_file_in_order() {
    let cdb = br#"[
                {"directory":"/x","file":"/a.cpp","command":"clang++ /a.cpp"},
                {"directory":"/x","file":"/b.cpp","command":"clang++ /b.cpp"},
                {"directory":"/x","file":"/a.cpp","command":"clang++ /a.cpp -DFOO"}
            ]"#;
    let files = read_compile_commands("/d/compile_commands.json", cdb).unwrap();
    assert_eq!(files, vec!["/a.cpp".to_string(), "/b.cpp".to_string()]);
}

#[test]
fn read_compile_commands_rejects_non_array_root() {
    let err = read_compile_commands("/d/c.json", br#"{"file":"/a.cpp"}"#).unwrap_err();
    assert_eq!(err.message(), "clangd JSON-RPC error: compile_commands at /d/c.json is not a JSON array");
    let err = read_compile_commands("/d/c.json", b"[").unwrap_err();
    assert!(matches!(err, ShimError::Json(_)), "got {err:?}");
    let odd = read_compile_commands("/d/c.json", br#"[1, {"file":2}, {"file":"/z"}, {}]"#).unwrap();
    assert_eq!(odd, ["/z"]);
}

#[test]
fn count_shards_handles_missing_dir_and_filters_by_extension() {
    assert_eq!(count_shards(None), 0);
    let names: Vec<String> = ["/i/a.idx", "/i/b.idx", "/i/c.txt"].iter().map(|s| s.to_string()).collect();
    assert_eq!(count_shards(Some(&names)), 2);
    let sizes: Vec<SizedFile> = [("/i/a.idx", 1), ("/i/b.idx", 2), ("/i/c.txt", 3)]
        .iter()
        .map(|(n, b)| SizedFile { name: n.to_string(), bytes: Some(*b) })
        .collect();
    assert_eq!(sum_shard_bytes(Some(&sizes)), 3);
    assert_eq!(sum_shard_bytes(None), 0);
    let unknown = vec![
        SizedFile { name: "/i/a.idx".into(), bytes: None },
        SizedFile { name: "/i/.idx".into(), bytes: Some(8) },
        SizedFile { name: "/i/b.idx".into(), bytes: Some(5) },
    ];
    assert_eq!(sum_shard_bytes(Some(&unknown)), 5);
}

#[test]
fn build_full_index_rejects_full_index_mode() {
    let backend = clangd(IndexMode::Full { index_file: "/idx".into() });
    match backend.build_full_index(50).unwrap_err() {
        ShimError::Protocol(msg) => {
            assert!(msg.contains("IndexMode::Full"), "expected mode-rejection message, got {msg}")
        }
        other => panic!("expected Protocol, got {other:?}"),
    }
    assert!(clangd(IndexMode::Hybrid { index_file: "/idx".into() }).build_full_index(50).is_ok());
}

/// Drives a run over files of which those with an odd number cannot be read.
fn drive(files: usize, max_tus: usize) -> (IndexRun, Vec<String>, Vec<String>, usize, usize) {
    let entries: Vec<String> = (0..files).map(|i| format!(r#"{{"file":"/f{i}.cpp"}}"#)).collect();
    let cdb = format!("[{}]", entries.join(","));
    let order = clangd(IndexMode::Narrow).build_full_index(max_tus).unwrap();
    let mut run = order.start("/d/c.json", cdb.as_bytes()).unwrap();
    let (mut opened, mut closed) = (Vec::new(), Vec::new());
    let (mut batches, mut most_open) = (0, 0);
    loop {
        match run.advance() {
            IndexAction::StartBatch { closes } => close_all(&closes, &mut closed),
            IndexAction::Read { file } => {
                let n: usize = file[2..file.len() - 4].parse().unwrap();
                let content = if n % 2 == 1 { None } else { Some("int x;") };
                if let Some(m) = run.file_read(content) {
                    let m = value(&m);
                    assert_eq!(m["method"], "textDocument/didOpen");
                    assert_eq!(m["params"]["textDocument"]["text"], "int x;");
                    opened.push(m["params"]["textDocument"]["uri"].as_str().unwrap().to_string());
                }
                most_open = most_open.max(opened.len() - closed.len());
            }
            IndexAction::EndBatch { number } => {
                assert_eq!(number, batches);
                batches += 1;
            }
            IndexAction::Finish { closes } => {
                close_all(&closes, &mut closed);
                break;
            }
        }
    }
    (run, opened, closed, batches, most_open)
}

fn close_all(closes: &[Json], closed: &mut Vec<String>) {
    for c in closes {
        let c = value(c);
        assert_eq!(c["method"], "textDocument/didClose");
        closed.push(c["params"]["textDocument"]["uri"].as_str().unwrap().to_string());
    }
}

#[test]
fn a_run_accounts_for_every_file() {
    let (run, opened, closed, batches, most_open) = drive(100, 70);
    assert_eq!(run.total(), 100);
    assert_eq!(run.cap(), 70);
    assert_eq!(run.opened(), 35);
    assert_eq!(run.skipped(), 35);
    assert_eq!(batches, 3);
    assert_eq!(opened, closed);
    assert_eq!(opened[1], "file:///f2.cpp");
    assert!(most_open <= 32);
    let (run, ..) = drive(3, 5000);
    assert_eq!((run.opened(), run.skipped()), (2, 1));
    let (run, opened, _, batches, _) = drive(0, 5000);
    assert_eq!((run.opened(), run.skipped(), batches), (0, 0, 0));
    assert!(opened.is_empty());
}

#[test]
fn content_that_nobody_asked_for_is_ignored() {
    let mut run = IndexRun::new(vec!["/a".into()], 1);
    assert!(run.file_read(Some("x")).is_none());
    assert_eq!((run.opened(), run.skipped()), (0, 0));
}

#[test]
fn draining_ends_when_the_shards_settle() {
    let mut d = Drain::new(0, 5, 0);
    assert_eq!(d.count(5, 2 * SEC), (false, DrainStep::Wait));
    assert_eq!(d.count(7, 19 * SEC), (true, DrainStep::Wait));
    assert_eq!(d.count(7, 38 * SEC), (false, DrainStep::Wait));
    assert_eq!(d.count(7, 39 * SEC), (false, DrainStep::Quiescent));
}

#[test]
fn draining_ends_at_the_cap() {
    let mut d = Drain::new(0, 0, 0);
    let mut t = 0;
    let mut n = 0;
    loop {
        t += 2;
        n += 1;
        let (changed, step) = d.count(n, t * SEC);
        assert!(changed);
        if step != DrainStep::Wait {
            assert_eq!(step, DrainStep::CapHit);
            break;
        }
    }
    assert_eq!(t, 600);
}

#[test]
fn stdout_is_drained_in_bounds() {
    assert!(drains_on(0, true, false));
    assert!(drains_on(1023, false, true));
    assert!(!drains_on(1024, true, true));
    assert!(!drains_on(0, false, false));
}

#[test]
fn reports_carry_every_count() {
    let (run, ..) = drive(4, 4);
    let wall = Json::parse("12.5").unwrap();
    let r = report(&run, DrainStep::CapHit, wall, 9, 1234);
    let v = value(&r.to_json());
    assert_eq!(v["tus_opened"], 2);
    assert_eq!(v["skipped_io_errors"], 2);
    assert_eq!(v["wall_seconds"], 12.5);
    assert_eq!(v["shards_on_disk_after"], 9);
    assert_eq!(v["shards_size_bytes"], 1234);
    assert_eq!(v["cap_fired"], true);
    assert_eq!(
        r.done_line(),
        "[build_full_index] done {\"tus_opened\":2,\"skipped_io_errors\":2,\"wall_seconds\":12.5,\"shards_on_disk_after\":9,\"shards_size_bytes\":1234,\"cap_fired\":true}"
    );
    let r = report(&run, DrainStep::Quiescent, Json::Null, 0, 0);
    assert!(!r.cap_fired);
}

#[test]
fn progress_is_logged() {
    let (run, ..) = drive(4, 3);
    assert_eq!(start_line("/d/c.json", &run), "[build_full_index] cdb=/d/c.json total_tus=4 cap=3 batch=32");
    assert_eq!(before_line(7), "[build_full_index] shards_before=7");
    assert_eq!(
        batch_line(0, &run, "1.2"),
        "[build_full_index] batch=0 tus_opened=2 skipped_io_errors=1 elapsed_s=1.2"
    );
    assert_eq!(draining_line(3, "0.1"), "[build_full_index] draining shards=3 elapsed_s=0.1");
    assert_eq!(drained_line(DrainStep::Wait, 3, "0.1"), None);
    assert_eq!(
        drained_line(DrainStep::Quiescent, 3, "20.0").as_deref(),
        Some("[build_full_index] quiescent shards=3 drain_s=20.0")
    );
    assert_eq!(
        drained_line(DrainStep::CapHit, 3, "600.0").as_deref(),
        Some("[build_full_index] drain_cap_hit shards=3 drain_s=600.0")
    );
}

#[test]
fn log_lines_are_stamped() {
    assert_eq!(log_line(Some((12, 5)), "hello\n\n"), "[t=12.005] hello\n");
    assert_eq!(log_line(Some((12, 50)), "a\nb"), "[t=12.050] a\nb\n");
    assert_eq!(log_line(Some((12, 500)), ""), "[t=12.500] \n");
    assert_eq!(log_line(None, "x"), "[t=?] x\n");
}
