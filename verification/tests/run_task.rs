use mcp_tools::codex_stdio::codex::{ChatMessage, ChatResponse, Choice, Usage};
use mcp_tools::codex_stdio::run_task::{
    chat_request, decide_commit_outcome, diff_candidate, diff_header_paths, dispatch, git_diff_from,
    git_rev_parse_head, git_status_porcelain, named_worktree, parse_args, pre_sha_snapshot_failed, run,
    select_diff, validate_diff_paths_under_worktree, validate_worktree_path, worktree_root_prefix, Args,
    DispatchRun, GitRun, DEFAULT_MAX_TOKENS,
};
use mcp_tools::codex_stdio::{DEFAULT_MODEL, WORKTREE_ROOT_PREFIX};
use mcp_tools::json::Json;
use serde_json::Value;

fn value(j: &Json) -> Value {
    serde_json::from_str(&j.to_text()).unwrap()
}

fn json(s: &str) -> Json {
    Json::parse(s).unwrap()
}

fn args() -> Args {
    Args {
        task_packet: "fix foo".into(),
        worktree_path: "/wt".into(),
        model: "gpt-5.3-codex".into(),
        max_tokens: 4096,
    }
}

fn response(id: &str, content: &str, usage: Option<Usage>) -> ChatResponse {
    ChatResponse {
        id: id.into(),
        model: "gpt-5.3-codex".into(),
        choices: vec![Choice {
            message: ChatMessage { role: "assistant".into(), content: content.into() },
            finish_reason: Some("stop".into()),
        }],
        usage,
    }
}

fn usage(prompt: u64, completion: u64, total: u64) -> Usage {
    Usage {
        prompt_tokens: prompt,
        completion_tokens: completion,
        total_tokens: total,
        cached_prompt_tokens: None,
        reasoning_output_tokens: None,
    }
}

fn clean_run(chat: ChatResponse) -> DispatchRun {
    DispatchRun {
        pre_sha: Ok("a".repeat(40)),
        chat: Ok(chat),
        disk_diff: Some(String::new()),
        canonical: Ok("/wt".into()),
        resolved: Vec::new(),
        post_sha: Some("a".repeat(40)),
        porcelain: Some(String::new()),
    }
}

fn check(diff: &str) -> Result<(), String> {
    let resolved = diff_header_paths(diff).iter().map(|_| None).collect();
    validate_diff_paths_under_worktree(diff, "/wt", &Ok("/wt".to_string()), &resolved)
}

#[test]
fn rejects_relative_worktree_path() {
    let err = validate_worktree_path("relative/path", Ok("/x".into()), "/tmp/wtpool/").unwrap_err();
    assert!(err.contains("absolute"), "got {err:?}");
}

#[test]
fn rejects_nonexistent_path() {
    let err = validate_worktree_path("/no/such/dir/ever", Err("No such file".into()), "/tmp/wtpool/").unwrap_err();
    assert!(err.contains("not on disk"), "got {err:?}");
}

#[test]
fn rejects_path_outside_worktree_root() {
    let prefix = worktree_root_prefix(None);
    let err = validate_worktree_path("/etc", Ok("/etc".into()), &prefix).unwrap_err();
    assert!(err.contains("outside"), "got {err:?}");
    assert!(err.contains("/tmp/wtpool/"), "got {err:?}");
}

#[test]
fn worktrees_are_accepted_by_where_they_lead() {
    let ok = |canon: &str| validate_worktree_path("/tmp/wtpool/x", Ok(canon.into()), "/tmp/wtpool/");
    assert_eq!(ok("/tmp/wtpool/x").unwrap(), "/tmp/wtpool/x");
    assert!(ok("/tmp/wtpool2/x").is_err());
    assert!(ok("/etc").is_err());
    assert_eq!(worktree_root_prefix(Some("/pool")), "/pool");
    assert_eq!(worktree_root_prefix(None), WORKTREE_ROOT_PREFIX);
}

#[test]
fn parse_args_requires_task_packet() {
    let args = json(r#"{"worktree_path": "/tmp/wtpool/wt-03"}"#);
    let err = parse_args(&args, Ok("/tmp/wtpool/wt-03".into()), "/tmp/wtpool/", None).unwrap_err();
    assert!(err.contains("task_packet"), "got {err:?}");
}

#[test]
fn parse_args_rejects_empty_task_packet() {
    let args = json(r#"{"task_packet": "", "worktree_path": "/tmp/wtpool/wt-03"}"#);
    let err = parse_args(&args, Ok("/tmp/wtpool/wt-03".into()), "/tmp/wtpool/", None).unwrap_err();
    assert!(err.contains("non-empty"), "got {err:?}");
}

#[test]
fn parse_args_uses_default_model_and_max_tokens() {
    let args = json(r#"{"task_packet": "fix the null deref in foo.rs:12", "worktree_path": "/tmp/wtpool/wt-03"}"#);
    assert_eq!(named_worktree(&args), Some("/tmp/wtpool/wt-03"));
    let parsed = parse_args(&args, Ok("/tmp/wtpool/wt-03".into()), "/tmp/wtpool/", None).unwrap();
    assert_eq!(parsed.model, DEFAULT_MODEL);
    assert_eq!(parsed.max_tokens, DEFAULT_MAX_TOKENS);
    assert_eq!(DEFAULT_MAX_TOKENS, 131072);
    let parsed = parse_args(&args, Ok("/tmp/wtpool/wt-03".into()), "/tmp/wtpool/", Some("env-model")).unwrap();
    assert_eq!(parsed.model, "env-model");
    let args = json(r#"{"task_packet": "t", "worktree_path": "/tmp/wtpool/w", "model": "m", "max_tokens": 9}"#);
    let parsed = parse_args(&args, Ok("/tmp/wtpool/w".into()), "/tmp/wtpool/", Some("env-model")).unwrap();
    assert_eq!((parsed.model.as_str(), parsed.max_tokens), ("m", 9));
    let args = json(r#"{"task_packet": "t"}"#);
    let err = parse_args(&args, Err("x".into()), "/tmp/wtpool/", None).unwrap_err();
    assert_eq!(err, "codex_run_task requires `worktree_path` (string)");
}

#[test]
fn run_task_rejects_worktree_outside_pool() {
    let args = json(r#"{"task_packet":"hostile","worktree_path":"/etc"}"#);
    let msg = run(&args, Ok("/etc".into()), "/tmp/wtpool/", None, Some("/f.json"), Ok("/c".into())).unwrap_err();
    assert!(msg.contains("outside"), "got msg: {msg:?}");
    assert!(msg.contains("/tmp/wtpool/"), "got msg: {msg:?}");
}

#[test]
fn an_unavailable_backend_is_told() {
    let args = json(r#"{"task_packet":"t","worktree_path":"/tmp/wtpool/w"}"#);
    let msg =
        run(&args, Ok("/tmp/wtpool/w".into()), "/tmp/wtpool/", None, None, Err("nothing there".into())).unwrap_err();
    assert_eq!(
        msg,
        "Codex unavailable: nothing there. Routing skill should fall back to Anthropic tiers."
    );
}

#[test]
fn the_request_names_the_worktree() {
    let r = chat_request(&args());
    assert_eq!(r.messages.len(), 2);
    assert_eq!(r.messages[0].role, "system");
    assert!(r.messages[0].content.contains("Your worktree is `/wt`."));
    assert_eq!(r.messages[1].content, "fix foo");
    assert_eq!(r.max_tokens, Some(4096));
}

#[test]
fn dispatch_uses_codex_self_commit_when_post_sha_diverges() {
    let mut r = clean_run(response("chatcmpl-codex-self-commit", "Committed via bash. See `git log -1`.", None));
    r.post_sha = Some("b".repeat(40));
    r.disk_diff = Some("diff --git a/codex-edit.txt b/codex-edit.txt\n--- /dev/null\n+++ b/codex-edit.txt\n".into());
    let v = value(&dispatch(&args(), &r).expect("dispatch ok"));
    assert_eq!(v["committed_by"].as_str(), Some("codex"));
    assert_eq!(v["commit_sha"].as_str().expect("commit_sha"), "b".repeat(40));
    assert!(v["diff"].as_str().unwrap().starts_with("diff --git"));
}

#[test]
fn dispatch_with_replay_client_returns_diff_and_token_count() {
    let content = "diff --git a/src/foo.rs b/src/foo.rs\n@@ -10,3 +10,3 @@\n-buggy\n+fixed\n";
    let r = clean_run(response("chatcmpl-replay-rt", content, Some(usage(80, 20, 100))));
    let v = value(&dispatch(&args(), &r).unwrap());
    let diff = v["diff"].as_str().unwrap();
    assert!(!diff.is_empty(), "diff empty");
    assert!(diff.contains("diff --git"), "missing diff header: {diff:?}");
    assert_eq!(v["tokens_used"]["total"], 100);
    assert_eq!(v["tokens_used"]["prompt"], 80);
    assert_eq!(v["tokens_used"]["completion"], 20);
    assert!(v["tokens_used_extended"].is_object(), "tokens_used_extended missing");
    assert!(v["tokens_used_extended"]["cached_prompt"].is_null());
    assert!(v["tokens_used_extended"]["reasoning_output"].is_null());
    let log = v["log"].as_str().unwrap();
    assert!(log.contains("chatcmpl-replay-rt"), "log missing id: {log:?}");
    assert!(log.contains("stop"), "log missing finish_reason: {log:?}");
    assert_eq!(v["committed_by"], "none");
    assert!(v["commit_sha"].is_null());
}

#[test]
fn dispatch_emits_extended_axes_when_present_in_usage() {
    let u = Usage {
        prompt_tokens: 13171,
        completion_tokens: 5,
        total_tokens: 13176,
        cached_prompt_tokens: Some(11648),
        reasoning_output_tokens: Some(0),
    };
    let v = value(&dispatch(&args(), &clean_run(response("chatcmpl-extended", "OK", Some(u)))).unwrap());
    assert_eq!(v["tokens_used_extended"]["cached_prompt"], 11648);
    assert_eq!(v["tokens_used_extended"]["reasoning_output"], 0);
}

#[test]
fn dispatch_passes_failures_on() {
    let mut r = clean_run(response("x", "y", None));
    r.chat = Err("codex exec failed (exit 1): boom".into());
    assert_eq!(dispatch(&args(), &r).unwrap_err(), "codex exec failed (exit 1): boom");
    let mut none = response("x", "y", None);
    none.choices.clear();
    assert_eq!(dispatch(&args(), &clean_run(none)).unwrap_err(), "OpenAI returned no choices");
    let mut dirty = clean_run(response("x", "y", None));
    dirty.porcelain = Some("?? a\n".into());
    assert!(dispatch(&args(), &dirty).unwrap_err().contains("codex left 1 dirty files"));
}

#[test]
fn git_rev_parse_head_errs_on_non_git_dir() {
    let out = GitRun::Finished {
        success: false,
        stdout: String::new(),
        stderr: "fatal: not a git repository\n".into(),
    };
    let err = git_rev_parse_head(&out, "/tmp/x").unwrap_err();
    assert!(err.contains("rev-parse") || err.contains("git"), "got {err:?}");
    assert_eq!(err, "git rev-parse HEAD failed in `/tmp/x`: fatal: not a git repository");
}

#[test]
fn git_output_is_read() {
    let ok = |stdout: &str| GitRun::Finished { success: true, stdout: stdout.into(), stderr: String::new() };
    assert_eq!(git_rev_parse_head(&ok("abc\n"), "/w").unwrap(), "abc");
    assert_eq!(git_rev_parse_head(&ok("\n"), "/w").unwrap_err(), "git rev-parse HEAD returned empty stdout");
    assert_eq!(git_status_porcelain(&ok(" M a\n"), "/w").unwrap(), " M a\n");
    assert_eq!(git_diff_from(&ok("diff --git\n"), "/w", "abc").unwrap(), "diff --git\n");
    let gone = || GitRun::SpawnFailed("no git".into());
    assert_eq!(git_rev_parse_head(&gone(), "/w").unwrap_err(), "spawn git rev-parse: no git");
    assert_eq!(git_status_porcelain(&gone(), "/w").unwrap_err(), "spawn git status: no git");
    assert_eq!(git_diff_from(&gone(), "/w", "abc").unwrap_err(), "spawn git diff: no git");
    let bad = GitRun::Finished { success: false, stdout: String::new(), stderr: "bad object".into() };
    assert_eq!(git_diff_from(&bad, "/w", "abc").unwrap_err(), "git diff abc failed in `/w`: bad object");
}

#[test]
fn dispatch_logs_when_pre_sha_snapshot_fails_on_non_git_dir() {
    let mut r = clean_run(response("chatcmpl-pre-sha-none", "Outcome B: no on-disk diff.", Some(usage(1, 1, 2))));
    r.pre_sha = Err("git rev-parse HEAD failed".into());
    r.disk_diff = None;
    r.post_sha = None;
    r.porcelain = None;
    dispatch(&args(), &r).unwrap();
    let note = pre_sha_snapshot_failed("/wt", "git rev-parse HEAD failed");
    assert!(note.contains("pre_sha snapshot failed"));
    assert!(note.contains("replay-mode or broken-worktree"));
}

#[test]
fn validate_diff_paths_accepts_paths_inside_worktree() {
    let diff = "diff --git a/src/foo.rs b/src/foo.rs\n--- a/src/foo.rs\n+++ b/src/foo.rs\n@@ -1,1 +1,1 @@\n-old\n+new\n";
    check(diff).unwrap();
}

#[test]
fn validate_diff_paths_rejects_absolute_path_outside_worktree() {
    let err = check("+++ b//etc/passwd\n").unwrap_err();
    assert!(err.contains("escapes worktree boundary"), "got {err:?}");
    assert!(err.contains("/etc/passwd"), "got {err:?}");
    let err = check("--- a//etc/shadow\n").unwrap_err();
    assert!(err.contains("escapes worktree boundary"), "got {err:?}");
}

#[test]
fn validate_diff_paths_rejects_parent_traversal() {
    let err = check("+++ b/../sibling/file.rs\n").unwrap_err();
    assert!(err.contains("escapes worktree boundary"), "got {err:?}");
    assert!(err.contains("../sibling/file.rs") || err.contains("sibling"), "got {err:?}");
}

#[test]
fn validate_diff_paths_accepts_dev_null_sentinel() {
    check("diff --git a/new.rs b/new.rs\nnew file mode 100644\n--- /dev/null\n+++ b/new.rs\n@@ -0,0 +1,1 @@\n+content\n").unwrap();
    check("diff --git a/old.rs b/old.rs\ndeleted file mode 100644\n--- a/old.rs\n+++ /dev/null\n@@ -1,1 +0,0 @@\n-content\n").unwrap();
}

#[test]
fn validate_diff_paths_accepts_empty_diff() {
    check("").unwrap();
    check("I cannot complete the task because the file does not exist.").unwrap();
}

#[test]
fn links_are_followed_where_the_file_is_there() {
    let diff = "+++ b/link\t2026-01-01\n";
    assert_eq!(diff_header_paths(diff), ["b/link"]);
    assert_eq!(diff_candidate("b/link", "/wt"), "/wt/link");
    let canon = Ok("/wt".to_string());
    validate_diff_paths_under_worktree(diff, "/wt", &canon, &vec![Some("/wt/real".into())]).unwrap();
    let err =
        validate_diff_paths_under_worktree(diff, "/wt", &canon, &vec![Some("/etc/real".into())]).unwrap_err();
    assert_eq!(
        err,
        "diff path escapes worktree boundary: `b/link` resolves to `/etc/real` which is outside `/wt`"
    );
    let err = validate_diff_paths_under_worktree(diff, "/wt", &Err("gone".into()), &Vec::new()).unwrap_err();
    assert_eq!(err, "worktree path `/wt` failed to canonicalize for diff validation: gone");
}

#[test]
fn dispatch_rejects_hostile_diff_via_validator_wiring() {
    let content = "diff --git a//etc/passwd b//etc/passwd\n--- a//etc/passwd\n+++ b//etc/passwd\n@@ -1,1 +1,1 @@\n-root:x:0:0:root:/root:/bin/bash\n+pwned:x:0:0:root:/root:/bin/bash\n";
    let mut r = clean_run(response("chatcmpl-replay-hostile", content, Some(usage(50, 30, 80))));
    r.pre_sha = Err("no git".into());
    r.disk_diff = None;
    r.resolved = vec![Some("/etc/passwd".into()), Some("/etc/passwd".into())];
    let err = dispatch(&args(), &r).unwrap_err();
    assert!(err.contains("escapes worktree boundary"), "expected validator rejection, got: {err:?}");
    assert!(err.contains("/etc/passwd"), "got: {err:?}");
}

#[test]
fn the_diff_on_disk_wins_over_the_words_of_the_model() {
    assert_eq!(select_diff(Some("diff --git"), "words"), "diff --git");
    assert_eq!(select_diff(Some(" \n"), "words"), "words");
    assert_eq!(select_diff(None, "words"), "words");
}

#[test]
fn refuses_when_codex_doesnt_commit_but_worktree_dirty() {
    let err = decide_commit_outcome(Some("aaa"), Some("aaa"), Some("?? dirty.txt\n")).unwrap_err();
    assert!(err.contains("codex left"), "got {err:?}");
    assert!(err.contains("dirty files but did not commit"), "got {err:?}");
    let six = " M 1\n M 2\n M 3\n M 4\n M 5\n M 6\n";
    let err = decide_commit_outcome(None, Some("aaa"), Some(six)).unwrap_err();
    assert!(err.contains("codex left 6 dirty files"));
    assert!(err.ends_with("Files dirty:  M 1 |  M 2 |  M 3 |  M 4 |  M 5"));
}

#[test]
fn passes_through_when_codex_commits() {
    let (commit_sha, committed_by) =
        decide_commit_outcome(Some("aaa"), Some("bbb"), Some("?? dirty.txt\n")).expect("commit outcome");
    assert_eq!(committed_by, "codex");
    assert_eq!(commit_sha.as_deref(), Some("bbb"));
}

#[test]
fn returns_none_when_no_edits() {
    let (commit_sha, committed_by) =
        decide_commit_outcome(Some("aaa"), Some("aaa"), Some("")).expect("commit outcome");
    assert_eq!(committed_by, "none");
    assert!(commit_sha.is_none(), "got {commit_sha:?}");
    assert_eq!(decide_commit_outcome(None, None, None).unwrap(), (None, "none"));
}
