//! The `codex_run_task` tool: checks its arguments, keeps the worker inside its
//! worktree, and reports what the worker did.
//!
//! Nothing here touches the disk or a process. What git, the file system and
//! the codex CLI said comes in as plain values.
use vstd::prelude::*;

use crate::codex_stdio::codex::{
    self, ChatMessage, ChatRequest, ChatRequestView, ChatResponse, ChatResponseView, MessageView,
    Transport, TransportView, Usage,
};
use crate::codex_stdio::{DEFAULT_MODEL, WORKTREE_ROOT_PREFIX};
use crate::json::{self, Json, JsonView};
use crate::path;
use crate::text;

verus! {

/// Ceiling on the output where the caller sets none.
pub const DEFAULT_MAX_TOKENS: u64 = 131_072;

/// Arguments that were checked.
#[derive(Debug)]
pub struct Args {
    /// The prompt.
    pub task_packet: String,
    /// The worktree, with symbolic links resolved.
    pub worktree_path: String,
    /// Name of the model.
    pub model: String,
    /// Ceiling on the output.
    pub max_tokens: u64,
}

/// What [`Args`] stands for.
pub struct ArgsView {
    pub task_packet: Seq<char>,
    pub worktree_path: Seq<char>,
    pub model: Seq<char>,
    pub max_tokens: u64,
}

impl View for Args {
    type V = ArgsView;

    open spec fn view(&self) -> ArgsView {
        ArgsView {
            task_packet: self.task_packet@,
            worktree_path: self.worktree_path@,
            model: self.model@,
            max_tokens: self.max_tokens,
        }
    }
}

/// The value where there is one, else the fallback.
pub open spec fn or_else(v: Option<Seq<char>>, fallback: Seq<char>) -> Seq<char> {
    match v {
        Some(s) => s,
        None => fallback,
    }
}

/// The directory under which every worktree must lie: as configured in
/// `CODEX_STDIO_WORKTREE_ROOT`, else the default.
pub fn worktree_root_prefix(configured: Option<&str>) -> (prefix: String)
    ensures
        prefix@ == or_else(text::opt_str_view(configured), WORKTREE_ROOT_PREFIX@),
{
    match configured {
        Some(p) => p.to_owned(),
        None => WORKTREE_ROOT_PREFIX.to_owned(),
    }
}

/// The worktree, where a path names one. `canonical` is the path with symbolic
/// links resolved, or why it could not be resolved.
pub open spec fn checked_worktree(
    raw: Seq<char>,
    canonical: Result<Seq<char>, Seq<char>>,
    prefix: Seq<char>,
) -> Result<Seq<char>, Seq<char>> {
    if !path::is_absolute(raw) {
        Err(
            "worktree_path must be absolute (got `"@ + raw
                + "`); routing skill must pass a fully-resolved path"@,
        )
    } else {
        match canonical {
            Err(e) => Err("worktree_path `"@ + raw + "` not on disk or unreadable: "@ + e),
            Ok(canon) => if !path::path_starts_with(canon, prefix) {
                Err(
                    "worktree_path `"@ + raw + "` resolves to `"@ + canon + "` which is outside `"@
                        + prefix
                        + "` — Codex worker constrained to the configured worktree root by design"@,
                )
            } else {
                Ok(canon)
            },
        }
    }
}

/// Checks that a worktree lies under the root, after symbolic links and `..`
/// were resolved.
pub fn validate_worktree_path(
    raw: &str,
    canonical: Result<String, String>,
    prefix: &str,
) -> (r: Result<String, String>)
    ensures
        codex::text_result(r) == checked_worktree(raw@, codex::text_result(canonical), prefix@),
{
    if !path::absolute(raw) {
        let mut e = "worktree_path must be absolute (got `".to_owned();
        e.append(raw);
        e.append("`); routing skill must pass a fully-resolved path");
        return Err(e);
    }
    match canonical {
        Err(why) => {
            let mut e = "worktree_path `".to_owned();
            e.append(raw);
            e.append("` not on disk or unreadable: ");
            e.append(why.as_str());
            Err(e)
        },
        Ok(canon) => {
            if !path::starts_with(canon.as_str(), prefix) {
                let mut e = "worktree_path `".to_owned();
                e.append(raw);
                e.append("` resolves to `");
                e.append(canon.as_str());
                e.append("` which is outside `");
                e.append(prefix);
                e.append(
                    "` — Codex worker constrained to the configured worktree root by design",
                );
                Err(e)
            } else {
                Ok(canon)
            }
        },
    }
}

/// The arguments of a call, checked.
pub open spec fn checked_args(
    args: JsonView,
    canonical: Result<Seq<char>, Seq<char>>,
    prefix: Seq<char>,
    env_model: Option<Seq<char>>,
) -> Result<ArgsView, Seq<char>> {
    match json::member_str(args, "task_packet"@) {
        None => Err("codex_run_task requires `task_packet` (string)"@),
        Some(task) => if task.len() == 0 {
            Err("codex_run_task `task_packet` must be non-empty"@)
        } else {
            match json::member_str(args, "worktree_path"@) {
                None => Err("codex_run_task requires `worktree_path` (string)"@),
                Some(raw) => match checked_worktree(raw, canonical, prefix) {
                    Err(e) => Err(e),
                    Ok(worktree) => Ok(
                        ArgsView {
                            task_packet: task,
                            worktree_path: worktree,
                            model: or_else(
                                json::member_str(args, "model"@),
                                or_else(env_model, DEFAULT_MODEL@),
                            ),
                            max_tokens: match json::member_u64(args, "max_tokens"@) {
                                Some(n) => n,
                                None => DEFAULT_MAX_TOKENS,
                            },
                        },
                    ),
                },
            }
        },
    }
}

/// The worktree that a call names, for the file system to resolve.
pub fn named_worktree(args: &Json) -> (r: Option<&str>)
    ensures
        text::opt_str_view(r) == json::member_str(args@, "worktree_path"@),
{
    args.get_str("worktree_path")
}

/// Checks the arguments of a call. `canonical` is the worktree that the call
/// names with symbolic links resolved, or why it could not be resolved.
pub fn parse_args(
    args: &Json,
    canonical: Result<String, String>,
    prefix: &str,
    env_model: Option<&str>,
) -> (r: Result<Args, String>)
    ensures
        match (
            r,
            checked_args(
                args@,
                codex::text_result(canonical),
                prefix@,
                text::opt_str_view(env_model),
            ),
        ) {
            (Ok(a), Ok(v)) => a@ == v,
            (Err(e), Err(f)) => e@ == f,
            _ => false,
        },
{
    let task_packet = match args.get_str("task_packet") {
        None => {
            return Err("codex_run_task requires `task_packet` (string)".to_owned());
        },
        Some(t) => t,
    };
    if task_packet.is_empty() {
        return Err("codex_run_task `task_packet` must be non-empty".to_owned());
    }
    let raw = match args.get_str("worktree_path") {
        None => {
            return Err("codex_run_task requires `worktree_path` (string)".to_owned());
        },
        Some(p) => p,
    };
    let worktree_path = match validate_worktree_path(raw, canonical, prefix) {
        Err(e) => {
            return Err(e);
        },
        Ok(p) => p,
    };
    let model = match args.get_str("model") {
        Some(m) => m.to_owned(),
        None => match env_model {
            Some(m) => m.to_owned(),
            None => DEFAULT_MODEL.to_owned(),
        },
    };
    let max_tokens: u64 = match args.get_u64("max_tokens") {
        Some(n) => n,
        None => DEFAULT_MAX_TOKENS,
    };
    Ok(Args { task_packet: task_packet.to_owned(), worktree_path, model, max_tokens })
}

/// What the worker is told about its place.
pub open spec fn system_prompt(worktree: Seq<char>) -> Seq<char> {
    "You are a Codex worker dispatched by the routing skill. Your worktree is `"@
        + worktree
        + "`. Produce a unified diff that applies cleanly to that worktree, OR an empty diff with a one-line rationale if the task should be deferred (Outcome B). Do not edit files outside the worktree."@
}

/// The request for a task.
pub open spec fn task_request(args: ArgsView) -> ChatRequestView {
    ChatRequestView {
        model: args.model,
        messages: seq![
            MessageView { role: "system"@, content: system_prompt(args.worktree_path) },
            MessageView { role: "user"@, content: args.task_packet },
        ],
        max_tokens: Some(args.max_tokens),
    }
}

/// Builds the request for a task.
pub fn chat_request(args: &Args) -> (r: ChatRequest)
    ensures
        r@ == task_request(args@),
{
    let mut system =
        "You are a Codex worker dispatched by the routing skill. Your worktree is `".to_owned();
    system.append(args.worktree_path.as_str());
    system.append(
        "`. Produce a unified diff that applies cleanly to that worktree, OR an empty diff with a one-line rationale if the task should be deferred (Outcome B). Do not edit files outside the worktree.",
    );
    let first = ChatMessage { role: "system".to_owned(), content: system };
    let second = ChatMessage { role: "user".to_owned(), content: args.task_packet.clone() };
    let messages = vec![first, second];
    assert(codex::message_views(messages@) =~= seq![first@, second@]);
    ChatRequest { model: args.model.clone(), messages, max_tokens: Some(args.max_tokens) }
}

/// How a git command ended.
#[derive(Debug)]
pub enum GitRun {
    /// It could not be started.
    SpawnFailed(String),
    /// It ran.
    Finished {
        success: bool,
        stdout: String,
        stderr: String,
    },
}

/// What a git command printed, or why it failed.
pub open spec fn git_output(run: GitRun, command: Seq<char>, name: Seq<char>, worktree: Seq<char>) -> Result<
    Seq<char>,
    Seq<char>,
> {
    match run {
        GitRun::SpawnFailed(e) => Err("spawn git "@ + command + ": "@ + e@),
        GitRun::Finished { success, stdout, stderr } => if success {
            Ok(stdout@)
        } else {
            Err(
                "git "@ + name + " failed in `"@ + worktree + "`: "@ + text::trimmed(stderr@),
            )
        },
    }
}

fn output_of(run: &GitRun, command: &str, name: &str, worktree: &str) -> (r: Result<String, String>)
    ensures
        codex::text_result(r) == git_output(*run, command@, name@, worktree@),
{
    match run {
        GitRun::SpawnFailed(e) => {
            let mut m = "spawn git ".to_owned();
            m.append(command);
            m.append(": ");
            m.append(e.as_str());
            Err(m)
        },
        GitRun::Finished { success, stdout, stderr } => {
            if *success {
                Ok(stdout.clone())
            } else {
                let mut m = "git ".to_owned();
                m.append(name);
                m.append(" failed in `");
                m.append(worktree);
                m.append("`: ");
                m.append(text::trim(stderr.as_str()).as_str());
                Err(m)
            }
        },
    }
}

/// The commit that `HEAD` names.
pub open spec fn head_of(run: GitRun, worktree: Seq<char>) -> Result<Seq<char>, Seq<char>> {
    match git_output(run, "rev-parse"@, "rev-parse HEAD"@, worktree) {
        Err(e) => Err(e),
        Ok(out) => if text::trimmed(out).len() == 0 {
            Err("git rev-parse HEAD returned empty stdout"@)
        } else {
            Ok(text::trimmed(out))
        },
    }
}

/// Reads the outcome of `git rev-parse HEAD`.
pub fn git_rev_parse_head(run: &GitRun, worktree: &str) -> (r: Result<String, String>)
    ensures
        codex::text_result(r) == head_of(*run, worktree@),
{
    match output_of(run, "rev-parse", "rev-parse HEAD", worktree) {
        Err(e) => Err(e),
        Ok(out) => {
            let sha = text::trim(out.as_str());
            if sha.as_str().is_empty() {
                Err("git rev-parse HEAD returned empty stdout".to_owned())
            } else {
                Ok(sha)
            }
        },
    }
}

/// Reads the outcome of `git status --porcelain`.
pub fn git_status_porcelain(run: &GitRun, worktree: &str) -> (r: Result<String, String>)
    ensures
        codex::text_result(r) == git_output(*run, "status"@, "status --porcelain"@, worktree@),
{
    output_of(run, "status", "status --porcelain", worktree)
}

/// Reads the outcome of `git diff` against a commit.
pub fn git_diff_from(run: &GitRun, worktree: &str, pre_sha: &str) -> (r: Result<String, String>)
    ensures
        codex::text_result(r) == git_output(*run, "diff"@, "diff "@ + pre_sha@, worktree@),
{
    output_of(run, "diff", text::concat("diff ", pre_sha).as_str(), worktree)
}

/// What is logged where `HEAD` could not be read before a task.
pub fn pre_sha_snapshot_failed(worktree: &str, reason: &str) -> (note: String)
    ensures
        note@ == "[codex-stdio] pre_sha snapshot failed for worktree "@ + worktree@
            + "; replay-mode or broken-worktree (model-text capture path active): "@ + reason@,
{
    let mut note = "[codex-stdio] pre_sha snapshot failed for worktree ".to_owned();
    note.append(worktree);
    note.append("; replay-mode or broken-worktree (model-text capture path active): ");
    note.append(reason);
    note
}

/// The diff that is reported: the one on disk where there is any, else what the
/// model wrote.
pub open spec fn chosen_diff(on_disk: Option<Seq<char>>, model_text: Seq<char>) -> Seq<char> {
    match on_disk {
        Some(d) => if text::trimmed(d).len() > 0 {
            d
        } else {
            model_text
        },
        None => model_text,
    }
}

/// Chooses the diff that is reported.
pub fn select_diff(on_disk: Option<&str>, model_text: &str) -> (r: String)
    ensures
        r@ == chosen_diff(text::opt_str_view(on_disk), model_text@),
{
    match on_disk {
        Some(d) => {
            if !text::trim(d).as_str().is_empty() {
                return d.to_owned();
            }
        },
        None => {},
    }
    model_text.to_owned()
}

/// The path in a header line of a diff, where the line is one and names a file.
pub open spec fn header_path(line: Seq<char>) -> Option<Seq<char>> {
    let rest = match text::stripped_prefix(line, "+++ "@) {
        Some(r) => Some(r),
        None => text::stripped_prefix(line, "--- "@),
    };
    match rest {
        None => None,
        Some(r) => {
            let field = text::trimmed(text::split_on(r, '\t')[0]);
            if field == "/dev/null"@ {
                None
            } else {
                Some(field)
            }
        },
    }
}

/// The paths in the header lines of a diff.
pub open spec fn header_paths(lines: Seq<Seq<char>>) -> Seq<Seq<char>>
    decreases lines.len(),
{
    if lines.len() == 0 {
        Seq::empty()
    } else {
        let before = header_paths(lines.drop_last());
        match header_path(lines.last()) {
            Some(p) => before.push(p),
            None => before,
        }
    }
}

/// The path in a header line without the `a/` or `b/` that git puts before it.
pub open spec fn without_side(field: Seq<char>) -> Seq<char> {
    match text::stripped_prefix(field, "a/"@) {
        Some(r) => r,
        None => match text::stripped_prefix(field, "b/"@) {
            Some(r) => r,
            None => field,
        },
    }
}

/// The file that a header path names, seen from the worktree.
pub open spec fn named_file(field: Seq<char>, worktree: Seq<char>) -> Seq<char> {
    path::joined_path(worktree, without_side(field))
}

fn read_header(line: &str) -> (r: Option<String>)
    ensures
        text::opt_view(r) == header_path(line@),
{
    let rest = match text::strip_prefix(line, "+++ ") {
        Some(r) => Some(r),
        None => text::strip_prefix(line, "--- "),
    };
    match rest {
        None => None,
        Some(r) => {
            let fields = text::split(r.as_str(), '\t');
            assert(text::split_on(r@, '\t')[0] == fields@[0]@);
            let field = text::trim(fields[0].as_str());
            if text::str_eq(field.as_str(), "/dev/null") {
                None
            } else {
                Some(field)
            }
        },
    }
}

/// The paths in the header lines of a diff.
pub fn diff_header_paths(diff: &str) -> (r: Vec<String>)
    ensures
        text::views(r@) == header_paths(text::lines_of(diff@)),
{
    let lines = text::lines(diff);
    let ghost listed = text::lines_of(diff@);
    let mut r: Vec<String> = Vec::new();
    let mut i: usize = 0;
    assert(text::views(r@) =~= header_paths(listed.subrange(0, 0)));
    while i < lines.len()
        invariant
            i <= lines@.len(),
            listed == text::views(lines@),
            text::views(r@) == header_paths(listed.subrange(0, i as int)),
        decreases lines@.len() - i,
    {
        let ghost before = r@;
        match read_header(lines[i].as_str()) {
            Some(p) => {
                r.push(p);
                proof {
                    text::lemma_views_push(before, p);
                }
            },
            None => {},
        }
        i += 1;
        proof {
            let seen = listed.subrange(0, i as int);
            assert(seen.drop_last() =~= listed.subrange(0, i - 1));
            assert(seen.last() == lines@[i - 1]@);
        }
    }
    assert(listed.subrange(0, i as int) =~= listed);
    r
}

/// The file that a header path names, seen from the worktree.
pub fn diff_candidate(field: &str, worktree: &str) -> (r: String)
    ensures
        r@ == named_file(field@, worktree@),
{
    match text::strip_prefix(field, "a/") {
        Some(r) => path::join(worktree, r.as_str()),
        None => match text::strip_prefix(field, "b/") {
            Some(r) => path::join(worktree, r.as_str()),
            None => path::join(worktree, field),
        },
    }
}

/// The view of what the file system resolved paths to.
pub open spec fn resolution_views(resolved: Seq<Option<String>>) -> Seq<Option<Seq<char>>> {
    Seq::new(resolved.len(), |i: int| text::opt_view(resolved[i]))
}

/// Where a header path leads: as the file system resolved it, or lexically where
/// it did not.
pub open spec fn leads_to(
    field: Seq<char>,
    i: int,
    resolved: Seq<Option<Seq<char>>>,
    worktree: Seq<char>,
) -> Seq<char> {
    if 0 <= i < resolved.len() && resolved[i] is Some {
        resolved[i]->0
    } else {
        path::lexically_resolved(named_file(field, worktree))
    }
}

/// What is said of a path that leads out of the worktree.
pub open spec fn escape_message(field: Seq<char>, to: Seq<char>, worktree: Seq<char>) -> Seq<char> {
    "diff path escapes worktree boundary: `"@ + field + "` resolves to `"@ + to
        + "` which is outside `"@ + worktree + "`"@
}

/// Whether every header path stays inside the worktree; else what is said of
/// the first that does not.
pub open spec fn checked_paths(
    fields: Seq<Seq<char>>,
    resolved: Seq<Option<Seq<char>>>,
    worktree: Seq<char>,
) -> Result<(), Seq<char>>
    decreases fields.len(),
{
    if fields.len() == 0 {
        Ok(())
    } else {
        match checked_paths(fields.drop_last(), resolved, worktree) {
            Err(e) => Err(e),
            Ok(_) => {
                let field = fields.last();
                let to = leads_to(field, fields.len() - 1, resolved, worktree);
                if path::path_starts_with(to, worktree) {
                    Ok(())
                } else {
                    Err(escape_message(field, to, worktree))
                }
            },
        }
    }
}

/// Whether a diff stays inside the worktree.
pub open spec fn checked_diff(
    diff: Seq<char>,
    worktree: Seq<char>,
    canonical: Result<Seq<char>, Seq<char>>,
    resolved: Seq<Option<Seq<char>>>,
) -> Result<(), Seq<char>> {
    match canonical {
        Err(e) => Err(
            "worktree path `"@ + worktree + "` failed to canonicalize for diff validation: "@ + e,
        ),
        Ok(canon) => checked_paths(header_paths(text::lines_of(diff)), resolved, canon),
    }
}

/// A path that was refused stays refused whatever follows.
proof fn lemma_refusal_sticks(
    fields: Seq<Seq<char>>,
    n: int,
    resolved: Seq<Option<Seq<char>>>,
    worktree: Seq<char>,
)
    requires
        0 <= n <= fields.len(),
        checked_paths(fields.subrange(0, n), resolved, worktree) is Err,
    ensures
        checked_paths(fields, resolved, worktree) == checked_paths(
            fields.subrange(0, n),
            resolved,
            worktree,
        ),
    decreases fields.len() - n,
{
    if n == fields.len() {
        assert(fields.subrange(0, n) =~= fields);
    } else {
        assert(fields.subrange(0, n + 1).drop_last() =~= fields.subrange(0, n));
        lemma_refusal_sticks(fields, n + 1, resolved, worktree);
    }
}

/// Checks that every file that a diff names lies in the worktree. `canonical`
/// is the worktree with symbolic links resolved; `resolved` holds, for each of
/// [`diff_header_paths`], where the file system says that it leads, and nothing
/// for a file that is not there yet.
pub fn validate_diff_paths_under_worktree(
    diff: &str,
    worktree: &str,
    canonical: &Result<String, String>,
    resolved: &Vec<Option<String>>,
) -> (r: Result<(), String>)
    ensures
        match (
            r,
            checked_diff(
                diff@,
                worktree@,
                codex::text_result(*canonical),
                resolution_views(resolved@),
            ),
        ) {
            (Ok(_), Ok(_)) => true,
            (Err(e), Err(f)) => e@ == f,
            _ => false,
        },
{
    let canon = match canonical {
        Err(e) => {
            let mut m = "worktree path `".to_owned();
            m.append(worktree);
            m.append("` failed to canonicalize for diff validation: ");
            m.append(e.as_str());
            return Err(m);
        },
        Ok(c) => c,
    };
    let fields = diff_header_paths(diff);
    let ghost listed = header_paths(text::lines_of(diff@));
    let ghost known = resolution_views(resolved@);
    let mut i: usize = 0;
    assert(checked_paths(listed.subrange(0, 0), known, canon@) is Ok);
    while i < fields.len()
        invariant
            i <= fields@.len(),
            listed == text::views(fields@),
            listed == header_paths(text::lines_of(diff@)),
            known == resolution_views(resolved@),
            codex::text_result(*canonical) == Ok::<Seq<char>, Seq<char>>(canon@),
            checked_paths(listed.subrange(0, i as int), known, canon@) is Ok,
        decreases fields@.len() - i,
    {
        let field = &fields[i];
        let candidate = diff_candidate(field.as_str(), canon.as_str());
        let to = if i < resolved.len() {
            match &resolved[i] {
                Some(p) => p.clone(),
                None => path::lexical_resolve(candidate.as_str()),
            }
        } else {
            path::lexical_resolve(candidate.as_str())
        };
        proof {
            let seen = listed.subrange(0, i + 1);
            assert(seen.drop_last() =~= listed.subrange(0, i as int));
            assert(seen.last() == field@);
            assert(to@ == leads_to(field@, i as int, known, canon@));
        }
        if !path::starts_with(to.as_str(), canon.as_str()) {
            proof {
                lemma_refusal_sticks(listed, i + 1, known, canon@);
            }
            let mut m = "diff path escapes worktree boundary: `".to_owned();
            m.append(field.as_str());
            m.append("` resolves to `");
            m.append(to.as_str());
            m.append("` which is outside `");
            m.append(canon.as_str());
            m.append("`");
            return Err(m);
        }
        i += 1;
    }
    assert(listed.subrange(0, i as int) =~= listed);
    Ok(())
}

/// What became of the worktree: the commit that the worker made, or nothing, or
/// files that it left without a commit.
pub open spec fn commit_outcome(
    pre_sha: Option<Seq<char>>,
    post_sha: Option<Seq<char>>,
    porcelain: Option<Seq<char>>,
) -> Result<(Option<Seq<char>>, Seq<char>), Seq<char>> {
    if pre_sha is Some && post_sha is Some && pre_sha != post_sha {
        Ok((post_sha, "codex"@))
    } else if porcelain is Some && text::trimmed(porcelain->0).len() > 0 {
        let lines = text::lines_of(porcelain->0);
        let shown = if lines.len() < 5 {
            lines.len() as int
        } else {
            5
        };
        Err(
            "codex-stdio: codex left "@ + text::dec(lines.len())
                + " dirty files but did not commit. The shim's manufacture-commit fallback is REFUSED (per feedback_shim_only_commits_when_codex_doesnt structural fix). The orchestrator must instruct codex to run `git add -A && git commit -m <subject>` using the spec's 'Commit message template' section. Files dirty: "@
                + text::joined(lines.subrange(0, shown), " | "@),
        )
    } else {
        Ok((None, "none"@))
    }
}

/// Decides what became of the worktree, from the commits before and after and
/// from what `git status --porcelain` printed.
pub fn decide_commit_outcome(
    pre_sha: Option<&str>,
    post_sha: Option<&str>,
    porcelain: Option<&str>,
) -> (r: Result<(Option<String>, &'static str), String>)
    ensures
        match (
            r,
            commit_outcome(
                text::opt_str_view(pre_sha),
                text::opt_str_view(post_sha),
                text::opt_str_view(porcelain),
            ),
        ) {
            (Ok((sha, by)), Ok((s, b))) => text::opt_view(sha) == s && by@ == b,
            (Err(e), Err(f)) => e@ == f,
            _ => false,
        },
{
    match (pre_sha, post_sha) {
        (Some(pre), Some(post)) => {
            if !text::str_eq(pre, post) {
                return Ok((Some(post.to_owned()), "codex"));
            }
        },
        _ => {},
    }
    match porcelain {
        Some(p) => {
            if !text::trim(p).as_str().is_empty() {
                let lines = text::lines(p);
                assert(text::views(lines@).len() == lines@.len());
                let mut m = "codex-stdio: codex left ".to_owned();
                m.append(text::dec_usize(lines.len()).as_str());
                m.append(
                    " dirty files but did not commit. The shim's manufacture-commit fallback is REFUSED (per feedback_shim_only_commits_when_codex_doesnt structural fix). The orchestrator must instruct codex to run `git add -A && git commit -m <subject>` using the spec's 'Commit message template' section. Files dirty: ",
                );
                m.append(text::join_first(&lines, 5, " | ").as_str());
                return Err(m);
            }
        },
        None => {},
    }
    Ok((None, "none"))
}

/// A task that may be run.
#[derive(Debug)]
pub struct Task {
    pub args: Args,
    pub transport: Transport,
}

/// The task that a call asks for, where it may be run.
pub open spec fn planned_task(
    args: JsonView,
    canonical: Result<Seq<char>, Seq<char>>,
    prefix: Seq<char>,
    env_model: Option<Seq<char>>,
    fixture: Option<Seq<char>>,
    located: Result<Seq<char>, Seq<char>>,
) -> Result<(ArgsView, TransportView), Seq<char>> {
    match checked_args(args, canonical, prefix, env_model) {
        Err(e) => Err(e),
        Ok(a) => match codex::chosen_transport(fixture, located, a.worktree_path) {
            Err(reason) => Err(
                "Codex unavailable: "@ + reason
                    + ". Routing skill should fall back to Anthropic tiers."@,
            ),
            Ok(t) => Ok((a, t)),
        },
    }
}

/// Checks a call and chooses where its response comes from. The arguments are
/// checked first: a worktree outside the root is refused before anything runs.
pub fn run(
    args: &Json,
    canonical: Result<String, String>,
    prefix: &str,
    env_model: Option<&str>,
    fixture: Option<&str>,
    located: Result<String, String>,
) -> (r: Result<Task, String>)
    ensures
        match (
            r,
            planned_task(
                args@,
                codex::text_result(canonical),
                prefix@,
                text::opt_str_view(env_model),
                text::opt_str_view(fixture),
                codex::text_result(located),
            ),
        ) {
            (Ok(task), Ok((a, t))) => task.args@ == a && task.transport@ == t,
            (Err(e), Err(f)) => e@ == f,
            _ => false,
        },
{
    let parsed = match parse_args(args, canonical, prefix, env_model) {
        Err(e) => {
            return Err(e);
        },
        Ok(a) => a,
    };
    match codex::for_worktree(fixture, located, parsed.worktree_path.as_str()) {
        Err(reason) => {
            let mut e = "Codex unavailable: ".to_owned();
            e.append(reason.as_str());
            e.append(". Routing skill should fall back to Anthropic tiers.");
            Err(e)
        },
        Ok(transport) => Ok(Task { args: parsed, transport }),
    }
}

/// What was seen while a task ran.
#[derive(Debug)]
pub struct DispatchRun {
    /// The commit before the task.
    pub pre_sha: Result<String, String>,
    /// The response.
    pub chat: Result<ChatResponse, String>,
    /// The diff against the commit before the task.
    pub disk_diff: Option<String>,
    /// The worktree with symbolic links resolved.
    pub canonical: Result<String, String>,
    /// Where the files that the diff names lead.
    pub resolved: Vec<Option<String>>,
    /// The commit after the task.
    pub post_sha: Option<String>,
    /// What `git status --porcelain` printed.
    pub porcelain: Option<String>,
}

/// The commit before a task, where it is known.
pub open spec fn known_pre(run: DispatchRun) -> Option<Seq<char>> {
    match run.pre_sha {
        Ok(sha) => Some(sha@),
        Err(_) => None,
    }
}

/// The diff of a task: the one on disk counts only where the commit before the
/// task is known.
pub open spec fn task_diff(run: DispatchRun, model_text: Seq<char>) -> Seq<char> {
    chosen_diff(
        if known_pre(run) is Some {
            text::opt_view(run.disk_diff)
        } else {
            None
        },
        model_text,
    )
}

/// An optional number as JSON.
pub open spec fn opt_int(n: Option<u64>) -> JsonView {
    match n {
        Some(k) => json::json_int(k as int),
        None => JsonView::Null,
    }
}

/// An optional string as JSON.
pub open spec fn opt_text(s: Option<Seq<char>>) -> JsonView {
    match s {
        Some(t) => JsonView::Str(t),
        None => JsonView::Null,
    }
}

/// The token counts where there are none.
pub open spec fn no_usage() -> Usage {
    Usage {
        prompt_tokens: 0,
        completion_tokens: 0,
        total_tokens: 0,
        cached_prompt_tokens: None,
        reasoning_output_tokens: None,
    }
}

/// The token counts of a response.
pub open spec fn usage_or_none(usage: Option<Usage>) -> Usage {
    match usage {
        Some(u) => u,
        None => no_usage(),
    }
}

/// The report on a task.
pub open spec fn task_report(
    diff: Seq<char>,
    commit_sha: Option<Seq<char>>,
    committed_by: Seq<char>,
    resp: ChatResponseView,
) -> JsonView {
    let usage = usage_or_none(resp.usage);
    JsonView::Object(
        map![
            "diff"@ => JsonView::Str(diff),
            "commit_sha"@ => opt_text(commit_sha),
            "committed_by"@ => JsonView::Str(committed_by),
            "log"@ => JsonView::Str(
                "model="@ + resp.model + " finish_reason="@ + or_else(
                    resp.choices[0].finish_reason,
                    "unknown"@,
                ) + " response_id="@ + resp.id,
            ),
            "tokens_used"@ => JsonView::Object(
                map![
                    "prompt"@ => json::json_int(usage.prompt_tokens as int),
                    "completion"@ => json::json_int(usage.completion_tokens as int),
                    "total"@ => json::json_int(usage.total_tokens as int),
                ],
            ),
            "tokens_used_extended"@ => JsonView::Object(
                map![
                    "cached_prompt"@ => opt_int(usage.cached_prompt_tokens),
                    "reasoning_output"@ => opt_int(usage.reasoning_output_tokens),
                ],
            ),
        ],
    )
}

/// The outcome of a task.
pub open spec fn dispatch_outcome(args: ArgsView, run: DispatchRun) -> Result<
    JsonView,
    Seq<char>,
> {
    match run.chat {
        Err(e) => Err(e@),
        Ok(resp) => if resp@.choices.len() == 0 {
            Err("OpenAI returned no choices"@)
        } else {
            let diff = task_diff(run, resp@.choices[0].message.content);
            match checked_diff(
                diff,
                args.worktree_path,
                codex::text_result(run.canonical),
                resolution_views(run.resolved@),
            ) {
                Err(e) => Err(e),
                Ok(_) => match commit_outcome(
                    known_pre(run),
                    text::opt_view(run.post_sha),
                    text::opt_view(run.porcelain),
                ) {
                    Err(e) => Err(e),
                    Ok((sha, by)) => Ok(task_report(diff, sha, by, resp@)),
                },
            }
        },
    }
}

fn opt_int_json(n: Option<u64>) -> (r: Json)
    ensures
        r@ == opt_int(n),
{
    match n {
        Some(k) => Json::uint(k),
        None => Json::Null,
    }
}

fn opt_text_json(s: &Option<String>) -> (r: Json)
    ensures
        r@ == opt_text(text::opt_view(*s)),
{
    match s {
        Some(t) => Json::str(t.as_str()),
        None => Json::Null,
    }
}

fn report(
    diff: &str,
    commit_sha: &Option<String>,
    committed_by: &str,
    resp: &ChatResponse,
) -> (r: Json)
    requires
        resp@.choices.len() > 0,
    ensures
        r@ == task_report(diff@, text::opt_view(*commit_sha), committed_by@, resp@),
{
    let choice = &resp.choices[0];
    let usage = match resp.usage {
        Some(u) => u,
        None => Usage {
            prompt_tokens: 0,
            completion_tokens: 0,
            total_tokens: 0,
            cached_prompt_tokens: None,
            reasoning_output_tokens: None,
        },
    };
    let mut log = "model=".to_owned();
    log.append(resp.model.as_str());
    log.append(" finish_reason=");
    match &choice.finish_reason {
        Some(f) => log.append(f.as_str()),
        None => log.append("unknown"),
    }
    log.append(" response_id=");
    log.append(resp.id.as_str());
    let used = Json::object().put("prompt", Json::uint(usage.prompt_tokens)).put(
        "completion",
        Json::uint(usage.completion_tokens),
    ).put("total", Json::uint(usage.total_tokens));
    let extended = Json::object().put("cached_prompt", opt_int_json(usage.cached_prompt_tokens)).put(
        "reasoning_output",
        opt_int_json(usage.reasoning_output_tokens),
    );
    Json::object().put("diff", Json::str(diff)).put("commit_sha", opt_text_json(commit_sha)).put(
        "committed_by",
        Json::str(committed_by),
    ).put("log", Json::Str(log)).put("tokens_used", used).put("tokens_used_extended", extended)
}

/// Turns what was seen while a task ran into its report. A diff that names a
/// file outside the worktree is refused, and so is a worktree left dirty.
pub fn dispatch(args: &Args, run: &DispatchRun) -> (r: Result<Json, String>)
    ensures
        match (r, dispatch_outcome(args@, *run)) {
            (Ok(j), Ok(v)) => j@ == v,
            (Err(e), Err(f)) => e@ == f,
            _ => false,
        },
{
    let resp = match &run.chat {
        Err(e) => {
            return Err(e.clone());
        },
        Ok(resp) => resp,
    };
    if resp.choices.len() == 0 {
        return Err("OpenAI returned no choices".to_owned());
    }
    let model_text = resp.choices[0].message.content.as_str();
    let pre_sha: Option<&str> = match &run.pre_sha {
        Ok(sha) => Some(sha.as_str()),
        Err(_) => None,
    };
    let on_disk: Option<&str> = if pre_sha.is_some() { text::borrowed(&run.disk_diff) } else { None };
    let diff = select_diff(on_disk, model_text);
    match validate_diff_paths_under_worktree(
        diff.as_str(),
        args.worktree_path.as_str(),
        &run.canonical,
        &run.resolved,
    ) {
        Err(e) => {
            return Err(e);
        },
        Ok(_) => {},
    }
    match decide_commit_outcome(pre_sha, text::borrowed(&run.post_sha), text::borrowed(&run.porcelain)) {
        Err(e) => Err(e),
        Ok((sha, by)) => Ok(report(diff.as_str(), &sha, by, resp)),
    }
}

/// Every file that an accepted diff names leads into the worktree.
pub proof fn law_accepted_paths_stay_inside(
    fields: Seq<Seq<char>>,
    resolved: Seq<Option<Seq<char>>>,
    worktree: Seq<char>,
    i: int,
)
    requires
        checked_paths(fields, resolved, worktree) is Ok,
        0 <= i < fields.len(),
    ensures
        path::path_starts_with(leads_to(fields[i], i, resolved, worktree), worktree),
    decreases fields.len(),
{
    if i < fields.len() - 1 {
        law_accepted_paths_stay_inside(fields.drop_last(), resolved, worktree, i);
        assert(fields.drop_last()[i] == fields[i]);
    }
}

/// A diff is refused only for a file that leads out: where every file that it
/// names leads into the worktree, it is accepted.
pub proof fn law_paths_inside_are_accepted(
    fields: Seq<Seq<char>>,
    resolved: Seq<Option<Seq<char>>>,
    worktree: Seq<char>,
)
    requires
        forall|i: int|
            0 <= i < fields.len() ==> path::path_starts_with(
                leads_to(#[trigger] fields[i], i, resolved, worktree),
                worktree,
            ),
    ensures
        checked_paths(fields, resolved, worktree) is Ok,
    decreases fields.len(),
{
    if fields.len() > 0 {
        let before = fields.drop_last();
        assert forall|i: int| 0 <= i < before.len() implies path::path_starts_with(
            leads_to(#[trigger] before[i], i, resolved, worktree),
            worktree,
        ) by {
            assert(before[i] == fields[i]);
        }
        law_paths_inside_are_accepted(before, resolved, worktree);
        assert(fields.last() == fields[fields.len() - 1]);
    }
}

/// A diff for a worktree that is there is accepted exactly where every file that
/// it names leads into the worktree.
pub proof fn law_diff_is_accepted_where_it_stays_inside(
    diff: Seq<char>,
    worktree: Seq<char>,
    canon: Seq<char>,
    resolved: Seq<Option<Seq<char>>>,
)
    ensures
        checked_diff(diff, worktree, Ok(canon), resolved) is Ok <==> ({
            let fields = header_paths(text::lines_of(diff));
            forall|i: int|
                0 <= i < fields.len() ==> path::path_starts_with(
                    leads_to(#[trigger] fields[i], i, resolved, canon),
                    canon,
                )
        }),
{
    let fields = header_paths(text::lines_of(diff));
    if checked_paths(fields, resolved, canon) is Ok {
        assert forall|i: int| 0 <= i < fields.len() implies path::path_starts_with(
            leads_to(#[trigger] fields[i], i, resolved, canon),
            canon,
        ) by {
            law_accepted_paths_stay_inside(fields, resolved, canon, i);
        }
    }
    if forall|i: int|
        0 <= i < fields.len() ==> path::path_starts_with(
            leads_to(#[trigger] fields[i], i, resolved, canon),
            canon,
        ) {
        law_paths_inside_are_accepted(fields, resolved, canon);
    }
}

/// What is reported on a task stays inside the worktree: the report carries the
/// diff of the task, and every file that the diff names leads into the
/// worktree.
pub proof fn law_report_stays_inside(args: ArgsView, run: DispatchRun, i: int)
    requires
        dispatch_outcome(args, run) is Ok,
        0 <= i < header_paths(
            text::lines_of(task_diff(run, run.chat->Ok_0@.choices[0].message.content)),
        ).len(),
    ensures
        ({
            let diff = task_diff(run, run.chat->Ok_0@.choices[0].message.content);
            let fields = header_paths(text::lines_of(diff));
            &&& json::json_get(dispatch_outcome(args, run)->Ok_0, "diff"@) == Some(
                JsonView::Str(diff),
            )
            &&& run.canonical is Ok
            &&& path::path_starts_with(
                leads_to(fields[i], i, resolution_views(run.resolved@), run.canonical->Ok_0@),
                run.canonical->Ok_0@,
            )
        }),
{
    let diff = task_diff(run, run.chat->Ok_0@.choices[0].message.content);
    let fields = header_paths(text::lines_of(diff));
    law_accepted_paths_stay_inside(
        fields,
        resolution_views(run.resolved@),
        run.canonical->Ok_0@,
        i,
    );
    reveal_strlit("diff");
    reveal_strlit("commit_sha");
    reveal_strlit("committed_by");
    reveal_strlit("log");
    reveal_strlit("tokens_used");
    reveal_strlit("tokens_used_extended");
    assert("diff"@.len() == 4 && "commit_sha"@.len() == 10 && "committed_by"@.len() == 12);
    assert("log"@.len() == 3 && "tokens_used"@.len() == 11 && "tokens_used_extended"@.len() == 20);
}

/// A file that is not there yet and that an accepted diff names is reached from
/// the worktree by names alone.
pub proof fn law_new_files_stay_inside(
    fields: Seq<Seq<char>>,
    resolved: Seq<Option<Seq<char>>>,
    worktree: Seq<char>,
    i: int,
    j: int,
)
    requires
        checked_paths(fields, resolved, worktree) is Ok,
        0 <= i < fields.len(),
        i >= resolved.len() || resolved[i] is None,
        path::components(worktree).len() > 0,
        path::components(worktree).last() is Normal,
        path::components(worktree).len() <= j < path::components(
            leads_to(fields[i], i, resolved, worktree),
        ).len(),
    ensures
        path::components(leads_to(fields[i], i, resolved, worktree))[j] is Normal,
{
    law_accepted_paths_stay_inside(fields, resolved, worktree, i);
    path::law_resolved_inside_stays_inside(named_file(fields[i], worktree), worktree);
}

/// A commit is reported only where the worker moved `HEAD`, and then it is the
/// commit that `HEAD` names; files left without a commit are never passed off
/// as one.
pub proof fn law_no_commit_is_made_up(
    pre_sha: Option<Seq<char>>,
    post_sha: Option<Seq<char>>,
    porcelain: Option<Seq<char>>,
)
    ensures
        match commit_outcome(pre_sha, post_sha, porcelain) {
            Ok((Some(sha), by)) => by == "codex"@ && post_sha == Some(sha) && pre_sha is Some
                && pre_sha != post_sha,
            Ok((None, by)) => by == "none"@ && (porcelain is None || text::trimmed(
                porcelain->0,
            ).len() == 0),
            Err(_) => porcelain is Some && text::trimmed(porcelain->0).len() > 0,
        },
{
}

/// A worktree that is accepted lies under the root, and it is the resolved path
/// that is used from there on.
pub proof fn law_accepted_worktree_is_under_root(
    args: JsonView,
    canonical: Result<Seq<char>, Seq<char>>,
    prefix: Seq<char>,
    env_model: Option<Seq<char>>,
)
    requires
        checked_args(args, canonical, prefix, env_model) is Ok,
    ensures
        canonical == Ok::<Seq<char>, Seq<char>>(
            checked_args(args, canonical, prefix, env_model)->Ok_0.worktree_path,
        ),
        path::path_starts_with(
            checked_args(args, canonical, prefix, env_model)->Ok_0.worktree_path,
            prefix,
        ),
{
}

/// The names of a report are all different.
proof fn lemma_report_names()
    ensures
        "diff"@ != "commit_sha"@,
        "diff"@ != "committed_by"@,
        "diff"@ != "log"@,
        "diff"@ != "tokens_used"@,
        "diff"@ != "tokens_used_extended"@,
        "commit_sha"@ != "committed_by"@,
        "commit_sha"@ != "log"@,
        "commit_sha"@ != "tokens_used"@,
        "commit_sha"@ != "tokens_used_extended"@,
        "committed_by"@ != "log"@,
        "committed_by"@ != "tokens_used"@,
        "committed_by"@ != "tokens_used_extended"@,
        "log"@ != "tokens_used"@,
        "log"@ != "tokens_used_extended"@,
        "tokens_used"@ != "tokens_used_extended"@,
        "prompt"@ != "completion"@,
        "prompt"@ != "total"@,
        "completion"@ != "total"@,
        "cached_prompt"@ != "reasoning_output"@,
{
    reveal_strlit("diff");
    reveal_strlit("commit_sha");
    reveal_strlit("committed_by");
    reveal_strlit("log");
    reveal_strlit("tokens_used");
    reveal_strlit("tokens_used_extended");
    reveal_strlit("prompt");
    reveal_strlit("completion");
    reveal_strlit("total");
    reveal_strlit("cached_prompt");
    reveal_strlit("reasoning_output");
    assert("diff"@.len() == 4 && "commit_sha"@.len() == 10 && "committed_by"@.len() == 12);
    assert("log"@.len() == 3 && "tokens_used"@.len() == 11 && "tokens_used_extended"@.len() == 20);
    assert("prompt"@.len() == 6 && "completion"@.len() == 10 && "total"@.len() == 5);
    assert("cached_prompt"@.len() == 13 && "reasoning_output"@.len() == 16);
}

/// A report shows the tokens of its response, each count under its own name,
/// and zeroes where the response has none.
pub proof fn law_report_shows_the_tokens(
    diff: Seq<char>,
    sha: Option<Seq<char>>,
    by: Seq<char>,
    resp: ChatResponseView,
)
    ensures
        ({
            let report = task_report(diff, sha, by, resp);
            let used = json::json_get(report, "tokens_used"@)->0;
            let extended = json::json_get(report, "tokens_used_extended"@)->0;
            &&& resp.usage is Some ==> {
                let u = resp.usage->0;
                &&& json::json_get(used, "prompt"@) == Some(
                    json::json_int(u.prompt_tokens as int),
                )
                &&& json::json_get(used, "completion"@) == Some(
                    json::json_int(u.completion_tokens as int),
                )
                &&& json::json_get(used, "total"@) == Some(json::json_int(u.total_tokens as int))
                &&& json::json_get(extended, "cached_prompt"@) == Some(
                    match u.cached_prompt_tokens {
                        Some(n) => json::json_int(n as int),
                        None => JsonView::Null,
                    },
                )
                &&& json::json_get(extended, "reasoning_output"@) == Some(
                    match u.reasoning_output_tokens {
                        Some(n) => json::json_int(n as int),
                        None => JsonView::Null,
                    },
                )
            }
            &&& resp.usage is None ==> {
                &&& json::json_get(used, "prompt"@) == Some(json::json_int(0))
                &&& json::json_get(used, "completion"@) == Some(json::json_int(0))
                &&& json::json_get(used, "total"@) == Some(json::json_int(0))
                &&& json::json_get(extended, "cached_prompt"@) == Some(JsonView::Null)
                &&& json::json_get(extended, "reasoning_output"@) == Some(JsonView::Null)
            }
        }),
{
    lemma_report_names();
}

/// A report carries the diff, the commit and who made it, and says which model
/// answered, how it finished and under which number.
pub proof fn law_report_carries_diff_and_commit(
    diff: Seq<char>,
    sha: Option<Seq<char>>,
    by: Seq<char>,
    resp: ChatResponseView,
)
    ensures
        ({
            let report = task_report(diff, sha, by, resp);
            &&& json::json_get(report, "diff"@) == Some(JsonView::Str(diff))
            &&& sha is Some ==> json::json_get(report, "commit_sha"@) == Some(
                JsonView::Str(sha->0),
            )
            &&& sha is None ==> json::json_get(report, "commit_sha"@) == Some(JsonView::Null)
            &&& json::json_get(report, "committed_by"@) == Some(JsonView::Str(by))
            &&& resp.choices[0].finish_reason is Some ==> json::json_get(report, "log"@) == Some(
                JsonView::Str(
                    "model="@ + resp.model + " finish_reason="@ + resp.choices[0].finish_reason->0
                        + " response_id="@ + resp.id,
                ),
            )
        }),
{
    lemma_report_names();
}

/// A task whose diff stays inside the worktree and which left nothing without a
/// commit is reported: its diff, the commit after it where that is another than
/// the one before it, and the tokens of its response.
pub proof fn law_task_is_reported(args: ArgsView, run: DispatchRun)
    requires
        run.chat is Ok,
        run.chat->Ok_0@.choices.len() > 0,
        run.canonical is Ok,
        ({
            let fields = header_paths(
                text::lines_of(task_diff(run, run.chat->Ok_0@.choices[0].message.content)),
            );
            forall|i: int|
                0 <= i < fields.len() ==> path::path_starts_with(
                    leads_to(
                        #[trigger] fields[i],
                        i,
                        resolution_views(run.resolved@),
                        run.canonical->Ok_0@,
                    ),
                    run.canonical->Ok_0@,
                )
        }),
    ensures
        ({
            let resp = run.chat->Ok_0@;
            let r = dispatch_outcome(args, run);
            let moved = run.pre_sha is Ok && run.post_sha is Some && run.pre_sha->Ok_0@
                != run.post_sha->0@;
            let dirty = run.porcelain is Some && text::trimmed(run.porcelain->0@).len() > 0;
            &&& moved || !dirty ==> r is Ok && json::json_get(r->Ok_0, "diff"@) == Some(
                JsonView::Str(task_diff(run, resp.choices[0].message.content)),
            )
            &&& moved ==> json::json_get(r->Ok_0, "commit_sha"@) == Some(
                JsonView::Str(run.post_sha->0@),
            ) && json::json_get(r->Ok_0, "committed_by"@) == Some(JsonView::Str("codex"@))
            &&& !moved && !dirty ==> json::json_get(r->Ok_0, "commit_sha"@) == Some(
                JsonView::Null,
            ) && json::json_get(r->Ok_0, "committed_by"@) == Some(JsonView::Str("none"@))
            &&& !moved && dirty ==> r is Err
            &&& (moved || !dirty) && resp.usage is Some ==> {
                let used = json::json_get(r->Ok_0, "tokens_used"@)->0;
                &&& json::json_get(used, "prompt"@) == Some(
                    json::json_int(resp.usage->0.prompt_tokens as int),
                )
                &&& json::json_get(used, "completion"@) == Some(
                    json::json_int(resp.usage->0.completion_tokens as int),
                )
                &&& json::json_get(used, "total"@) == Some(
                    json::json_int(resp.usage->0.total_tokens as int),
                )
            }
        }),
{
    let resp = run.chat->Ok_0@;
    let diff = task_diff(run, resp.choices[0].message.content);
    let fields = header_paths(text::lines_of(diff));
    law_paths_inside_are_accepted(
        fields,
        resolution_views(run.resolved@),
        run.canonical->Ok_0@,
    );
    match commit_outcome(known_pre(run), text::opt_view(run.post_sha), text::opt_view(run.porcelain)) {
        Ok((sha, by)) => {
            law_report_shows_the_tokens(diff, sha, by, resp);
            law_report_carries_diff_and_commit(diff, sha, by, resp);
        },
        Err(_) => {},
    }
}

/// A failed response, a response that says nothing, and a worktree that is not
/// there are never reported as a success.
pub proof fn law_failures_are_not_reported_as_done(args: ArgsView, run: DispatchRun)
    ensures
        run.chat matches Err(e) ==> dispatch_outcome(args, run) == Err::<JsonView, Seq<char>>(e@),
        run.chat matches Ok(resp) && resp@.choices.len() == 0 ==> dispatch_outcome(args, run) is Err,
        run.canonical is Err ==> dispatch_outcome(args, run) is Err,
{
}

/// The diff of a task is the one on disk where the commit before the task is
/// known and that diff holds something, and else what the model wrote, as it
/// stands.
pub proof fn law_diff_on_disk_comes_first(run: DispatchRun, words: Seq<char>)
    ensures
        run.pre_sha is Ok && run.disk_diff is Some && text::trimmed(run.disk_diff->0@).len() > 0
            ==> task_diff(run, words) == run.disk_diff->0@,
        run.pre_sha is Err || run.disk_diff is None || text::trimmed(run.disk_diff->0@).len() == 0
            ==> task_diff(run, words) == words,
{
}

/// Whether a call names a task and a worktree.
pub open spec fn names_task(args: JsonView, task: Seq<char>, raw: Seq<char>) -> bool {
    &&& json::json_get(args, "task_packet"@) == Some(JsonView::Str(task))
    &&& json::json_get(args, "worktree_path"@) == Some(JsonView::Str(raw))
}

/// A call is accepted exactly where it names a task that is not empty and an
/// absolute worktree that resolves to a place under the root. The task is taken
/// as it is, and the worktree as it resolves.
pub proof fn law_call_is_checked(
    args: JsonView,
    task: Seq<char>,
    raw: Seq<char>,
    canonical: Result<Seq<char>, Seq<char>>,
    prefix: Seq<char>,
    env_model: Option<Seq<char>>,
)
    requires
        names_task(args, task, raw),
    ensures
        ({
            let r = checked_args(args, canonical, prefix, env_model);
            &&& r is Ok <==> {
                &&& task.len() > 0
                &&& raw.len() > 0 && raw[0] == '/'
                &&& canonical is Ok
                &&& path::path_starts_with(canonical->Ok_0, prefix)
            }
            &&& r is Ok ==> r->Ok_0.task_packet == task && r->Ok_0.worktree_path == canonical->Ok_0
        }),
{
}

/// A call without a task or without a worktree is refused.
pub proof fn law_call_needs_task_and_worktree(
    args: JsonView,
    canonical: Result<Seq<char>, Seq<char>>,
    prefix: Seq<char>,
    env_model: Option<Seq<char>>,
)
    ensures
        !(json::json_get(args, "task_packet"@) matches Some(JsonView::Str(_))) ==> checked_args(
            args,
            canonical,
            prefix,
            env_model,
        ) is Err,
        !(json::json_get(args, "worktree_path"@) matches Some(JsonView::Str(_))) ==> checked_args(
            args,
            canonical,
            prefix,
            env_model,
        ) is Err,
{
}

/// The model and the ceiling that a call names are used; else the model of the
/// environment, else the defaults.
pub proof fn law_call_sets_model_and_ceiling(
    args: JsonView,
    canonical: Result<Seq<char>, Seq<char>>,
    prefix: Seq<char>,
    env_model: Option<Seq<char>>,
)
    requires
        checked_args(args, canonical, prefix, env_model) is Ok,
    ensures
        ({
            let a = checked_args(args, canonical, prefix, env_model)->Ok_0;
            &&& match json::json_get(args, "model"@) {
                Some(JsonView::Str(m)) => a.model == m,
                _ => true,
            }
            &&& json::json_get(args, "model"@) is None && env_model is Some ==> a.model
                == env_model->0
            &&& json::json_get(args, "model"@) is None && env_model is None ==> a.model
                == "gpt-5.3-codex"@
            &&& match json::json_get(args, "max_tokens"@) {
                Some(JsonView::Number(json::NumberView::Int(n))) => 0 <= n <= u64::MAX
                    ==> a.max_tokens == n,
                _ => true,
            }
            &&& json::json_get(args, "max_tokens"@) is None ==> a.max_tokens == 131_072
        }),
{
}

/// The request for a task asks the model for the task, as it stands, and tells it
/// its worktree.
pub proof fn law_request_carries_the_task(args: ArgsView)
    ensures
        task_request(args).model == args.model,
        task_request(args).max_tokens == Some(args.max_tokens),
        task_request(args).messages.len() == 2,
        task_request(args).messages[0].role == "system"@,
        task_request(args).messages[1].role == "user"@,
        task_request(args).messages[1].content == args.task_packet,
        exists|before: Seq<char>, after: Seq<char>|
            task_request(args).messages[0].content == #[trigger] (before + args.worktree_path
                + after) && before.last() == '`' && after[0] == '`',
{
    let before = "You are a Codex worker dispatched by the routing skill. Your worktree is `"@;
    let after = "`. Produce a unified diff that applies cleanly to that worktree, OR an empty diff with a one-line rationale if the task should be deferred (Outcome B). Do not edit files outside the worktree."@;
    reveal_strlit("You are a Codex worker dispatched by the routing skill. Your worktree is `");
    reveal_strlit(
        "`. Produce a unified diff that applies cleanly to that worktree, OR an empty diff with a one-line rationale if the task should be deferred (Outcome B). Do not edit files outside the worktree.",
    );
    assert(task_request(args).messages[0].content == before + args.worktree_path + after);
    assert(before.last() == '`' && after[0] == '`');
}

/// What git printed is taken as it is where git succeeded; else it is a failure.
/// The commit is what is left of it without white space around, and must not be
/// nothing.
pub proof fn law_git_output_is_taken(
    success: bool,
    stdout: String,
    stderr: String,
    command: Seq<char>,
    name: Seq<char>,
    worktree: Seq<char>,
)
    ensures
        ({
            let run = GitRun::Finished { success, stdout, stderr };
            &&& success ==> git_output(run, command, name, worktree) == Ok::<Seq<char>, Seq<char>>(
                stdout@,
            )
            &&& !success ==> git_output(run, command, name, worktree) is Err
            &&& success && text::trimmed(stdout@).len() > 0 ==> head_of(run, worktree) == Ok::<
                Seq<char>,
                Seq<char>,
            >(text::trimmed(stdout@))
            &&& success && text::trimmed(stdout@).len() == 0 ==> head_of(run, worktree) is Err
            &&& !success ==> head_of(run, worktree) is Err
        }),
{
}

/// Each line of a diff is read for itself: the paths of two diffs put together
/// are those of the first followed by those of the second.
pub proof fn law_header_paths_add_up(a: Seq<Seq<char>>, b: Seq<Seq<char>>)
    ensures
        header_paths(a + b) == header_paths(a) + header_paths(b),
    decreases b.len(),
{
    if b.len() == 0 {
        assert(a + b =~= a);
        assert(header_paths(a) + Seq::<Seq<char>>::empty() =~= header_paths(a));
    } else {
        law_header_paths_add_up(a, b.drop_last());
        assert((a + b).drop_last() =~= a + b.drop_last());
        assert((a + b).last() == b.last());
        match header_path(b.last()) {
            Some(p) => {
                assert((header_paths(a) + header_paths(b.drop_last())).push(p) =~= header_paths(a)
                    + header_paths(b.drop_last()).push(p));
            },
            None => {},
        }
    }
}

/// The files that a diff touches are seen: a header line names what stands
/// behind `+++` or `---`, and a line that begins otherwise names nothing.
pub proof fn law_header_line_names_its_file(field: Seq<char>, line: Seq<char>)
    requires
        field.len() > 0,
        !text::is_white(field[0]),
        !text::is_white(field.last()),
        forall|i: int| 0 <= i < field.len() ==> #[trigger] field[i] != '\t',
        field != "/dev/null"@,
    ensures
        header_path("+++ "@ + field) == Some(field),
        header_path("--- "@ + field) == Some(field),
        header_path("+++ "@ + "/dev/null"@) is None,
        header_path("--- "@ + "/dev/null"@) is None,
        !text::has_prefix(line, "+++ "@) && !text::has_prefix(line, "--- "@) ==> header_path(
            line,
        ) is None,
{
    text::lemma_strip_prefix("+++ "@, field);
    text::lemma_strip_prefix("--- "@, field);
    text::lemma_strip_prefix("+++ "@, "/dev/null"@);
    text::lemma_strip_prefix("--- "@, "/dev/null"@);
    reveal_strlit("+++ ");
    reveal_strlit("--- ");
    reveal_strlit("/dev/null");
    assert(("--- "@ + field)[0] == '-');
    assert(("--- "@ + "/dev/null"@)[0] == '-');
    assert(text::stripped_prefix("--- "@ + field, "+++ "@) is None) by {
        if text::has_prefix("--- "@ + field, "+++ "@) {
            assert(("--- "@ + field).subrange(0, 4)[0] == "+++ "@[0]);
        }
    }
    assert(text::stripped_prefix("--- "@ + "/dev/null"@, "+++ "@) is None) by {
        if text::has_prefix("--- "@ + "/dev/null"@, "+++ "@) {
            assert(("--- "@ + "/dev/null"@).subrange(0, 4)[0] == "+++ "@[0]);
        }
    }
    lemma_uncut(field, '\t');
    lemma_uncut("/dev/null"@, '\t');
    text::lemma_trim_nothing(field);
    text::lemma_trim_nothing("/dev/null"@);
}

/// A text without a separator is one piece.
proof fn lemma_uncut(s: Seq<char>, sep: char)
    requires
        forall|i: int| 0 <= i < s.len() ==> #[trigger] s[i] != sep,
    ensures
        text::split_on(s, sep) == seq![s],
    decreases s.len(),
{
    if s.len() > 0 {
        let before = s.drop_last();
        assert forall|i: int| 0 <= i < before.len() implies #[trigger] before[i] != sep by {
            assert(before[i] == s[i]);
        }
        lemma_uncut(before, sep);
        assert(s.last() == s[s.len() - 1]);
        assert(before.push(s.last()) =~= s);
        assert(seq![before].drop_last().push(before.push(s.last())) =~= seq![s]);
    } else {
        assert(s =~= Seq::empty());
    }
}

/// A file that a diff names is looked for in the worktree, without the side that
/// git puts in front; one named by an absolute path is looked for there.
pub proof fn law_named_file_is_in_the_worktree(name: Seq<char>, worktree: Seq<char>)
    requires
        name.len() > 0,
        worktree.len() > 0,
        worktree.last() != '/',
    ensures
        name[0] != '/' ==> named_file("a/"@ + name, worktree) == worktree + "/"@ + name,
        name[0] != '/' ==> named_file("b/"@ + name, worktree) == worktree + "/"@ + name,
        name[0] == '/' ==> named_file("a/"@ + name, worktree) == name,
        name[0] == '/' ==> named_file("b/"@ + name, worktree) == name,
        name[0] == '/' ==> named_file(name, worktree) == name,
{
    text::lemma_strip_prefix("a/"@, name);
    text::lemma_strip_prefix("b/"@, name);
    reveal_strlit("a/");
    reveal_strlit("b/");
    reveal_strlit("/");
    assert(text::stripped_prefix("b/"@ + name, "a/"@) is None) by {
        if text::has_prefix("b/"@ + name, "a/"@) {
            assert(("b/"@ + name).subrange(0, 2)[0] == "a/"@[0]);
        }
    }
    if name[0] == '/' {
        assert(text::stripped_prefix(name, "a/"@) is None) by {
            if text::has_prefix(name, "a/"@) {
                assert(name.subrange(0, 2)[0] == "a/"@[0]);
            }
        }
        assert(text::stripped_prefix(name, "b/"@) is None) by {
            if text::has_prefix(name, "b/"@) {
                assert(name.subrange(0, 2)[0] == "b/"@[0]);
            }
        }
    }
    assert(worktree.push('/') + name =~= worktree + "/"@ + name);
}

/// The file system has the last word on where a file leads; of a file that is
/// not there the path decides.
pub proof fn law_file_leads_where_it_resolves(
    field: Seq<char>,
    i: int,
    resolved: Seq<Option<Seq<char>>>,
    worktree: Seq<char>,
)
    requires
        0 <= i < resolved.len(),
    ensures
        resolved[i] is Some ==> leads_to(field, i, resolved, worktree) == resolved[i]->0,
        resolved[i] is None ==> leads_to(field, i, resolved, worktree) == path::lexically_resolved(
            named_file(field, worktree),
        ),
{
}

/// A task is planned from the checked arguments and from where its response comes
/// from, and an unavailable backend is told.
pub proof fn law_task_is_planned(
    args: JsonView,
    canonical: Result<Seq<char>, Seq<char>>,
    prefix: Seq<char>,
    env_model: Option<Seq<char>>,
    fixture: Option<Seq<char>>,
    located: Result<Seq<char>, Seq<char>>,
)
    ensures
        ({
            let checked = checked_args(args, canonical, prefix, env_model);
            let planned = planned_task(args, canonical, prefix, env_model, fixture, located);
            let named = fixture is Some && fixture->0.len() > 0;
            &&& checked is Err ==> planned == Err::<(ArgsView, TransportView), Seq<char>>(
                checked->Err_0,
            )
            &&& checked is Ok && (named || located is Ok) ==> planned is Ok && planned->Ok_0.0
                == checked->Ok_0
            &&& checked is Ok && named ==> planned->Ok_0.1 == (TransportView::Replay {
                fixture_path: fixture->0,
            })
            &&& checked is Ok && !named && located is Ok ==> planned->Ok_0.1 == (
            TransportView::Exec {
                binary_path: located->Ok_0,
                worktree_path: checked->Ok_0.worktree_path,
            })
            &&& checked is Ok && !named && located is Err ==> planned is Err
        }),
{
    if checked_args(args, canonical, prefix, env_model) is Ok {
        codex::law_transport_is_chosen(
            fixture,
            located,
            checked_args(args, canonical, prefix, env_model)->Ok_0.worktree_path,
        );
    }
}

/// What stands behind a tab in a header line, such as a time, is no part of the
/// name.
pub proof fn law_header_time_is_no_name(field: Seq<char>, stamp: Seq<char>)
    requires
        field.len() > 0,
        !text::is_white(field[0]),
        !text::is_white(field.last()),
        forall|i: int| 0 <= i < field.len() ==> #[trigger] field[i] != '\t',
        forall|i: int| 0 <= i < stamp.len() ==> #[trigger] stamp[i] != '\t',
    ensures
        header_path("+++ "@ + (field + seq!['\t'] + stamp)) == header_path("+++ "@ + field),
        header_path("--- "@ + (field + seq!['\t'] + stamp)) == header_path("--- "@ + field),
{
    let timed = field + seq!['\t'] + stamp;
    text::lemma_strip_prefix("+++ "@, field);
    text::lemma_strip_prefix("--- "@, field);
    text::lemma_strip_prefix("+++ "@, timed);
    text::lemma_strip_prefix("--- "@, timed);
    reveal_strlit("+++ ");
    reveal_strlit("--- ");
    assert(text::stripped_prefix("--- "@ + field, "+++ "@) is None) by {
        if text::has_prefix("--- "@ + field, "+++ "@) {
            assert(("--- "@ + field).subrange(0, 4)[0] == "+++ "@[0]);
        }
    }
    assert(text::stripped_prefix("--- "@ + timed, "+++ "@) is None) by {
        if text::has_prefix("--- "@ + timed, "+++ "@) {
            assert(("--- "@ + timed).subrange(0, 4)[0] == "+++ "@[0]);
        }
    }
    lemma_uncut(field, '\t');
    lemma_cut_once(field, '\t', stamp);
}

proof fn lemma_cut_once(before: Seq<char>, sep: char, after: Seq<char>)
    requires
        forall|i: int| 0 <= i < before.len() ==> #[trigger] before[i] != sep,
        forall|i: int| 0 <= i < after.len() ==> #[trigger] after[i] != sep,
    ensures
        text::split_on(before + seq![sep] + after, sep) == seq![before, after],
    decreases after.len(),
{
    let whole = before + seq![sep] + after;
    if after.len() == 0 {
        lemma_uncut(before, sep);
        assert(whole.drop_last() =~= before);
        assert(whole.last() == sep);
        assert(after =~= Seq::empty());
        assert(seq![before].push(Seq::empty()) =~= seq![before, after]);
    } else {
        let shorter = after.drop_last();
        assert forall|i: int| 0 <= i < shorter.len() implies #[trigger] shorter[i] != sep by {
            assert(shorter[i] == after[i]);
        }
        lemma_cut_once(before, sep, shorter);
        assert(whole.drop_last() =~= before + seq![sep] + shorter);
        assert(whole.last() == after[after.len() - 1]);
        assert(shorter.push(whole.last()) =~= after);
        assert(seq![before, shorter].drop_last().push(after) =~= seq![before, after]);
    }
}

/// Files that are left changed and not committed are told: how many there are, and
/// the first five, or all where there are no more.
pub proof fn law_uncommitted_files_are_told(sha: Option<Seq<char>>, porcelain: Seq<char>)
    requires
        text::trimmed(porcelain).len() > 0,
    ensures
        ({
            let lines = text::lines_of(porcelain);
            let n = text::dec(lines.len());
            match commit_outcome(sha, sha, Some(porcelain)) {
                Err(words) => {
                    &&& text::has_prefix(words, "codex-stdio: codex left "@ + n)
                    &&& lines.len() <= 5 ==> ends_with(words, text::joined(lines, " | "@))
                    &&& lines.len() > 5 ==> ends_with(
                        words,
                        text::joined(lines.take(5), " | "@),
                    )
                },
                Ok(_) => false,
            }
        }),
        commit_outcome(sha, sha, None) == Ok::<(Option<Seq<char>>, Seq<char>), Seq<char>>(
            (None, "none"@),
        ),
{
    let lines = text::lines_of(porcelain);
    let n = text::dec(lines.len());
    let words = commit_outcome(sha, sha, Some(porcelain))->Err_0;
    let head = "codex-stdio: codex left "@ + n;
    assert(words.subrange(0, head.len() as int) =~= head);
    let shown = if lines.len() < 5 {
        lines.len() as int
    } else {
        5
    };
    let tail = text::joined(lines.subrange(0, shown), " | "@);
    assert(words.subrange(words.len() - tail.len(), words.len() as int) =~= tail);
    if lines.len() <= 5 {
        assert(lines.subrange(0, shown) =~= lines);
    } else {
        assert(lines.subrange(0, shown) =~= lines.take(5));
    }
}

/// Whether a text ends with another.
pub open spec fn ends_with(whole: Seq<char>, tail: Seq<char>) -> bool {
    tail.len() <= whole.len() && whole.subrange(whole.len() - tail.len(), whole.len() as int)
        == tail
}

/// A task that finds no way to Codex is refused with the reason.
pub proof fn law_unavailable_codex_is_told(
    args: JsonView,
    canonical: Result<Seq<char>, Seq<char>>,
    prefix: Seq<char>,
    env_model: Option<Seq<char>>,
    reason: Seq<char>,
)
    requires
        checked_args(args, canonical, prefix, env_model) is Ok,
    ensures
        planned_task(args, canonical, prefix, env_model, None, Err(reason)) == Err::<
            (ArgsView, TransportView),
            Seq<char>,
        >(
            "Codex unavailable: "@ + reason
                + ". Routing skill should fall back to Anthropic tiers."@,
        ),
{
}

/// The arguments of a task are seen as they are.
pub proof fn law_arguments_are_seen_as_they_are(args: Args)
    ensures
        args@.task_packet == args.task_packet@,
        args@.worktree_path == args.worktree_path@,
        args@.model == args.model@,
        args@.max_tokens == args.max_tokens,
{
}

/// A diff that leaves the worktree is refused with the file as the diff names it,
/// where it leads, and the worktree that it should be in.
pub proof fn law_escape_is_told(
    field: Seq<char>,
    resolved: Seq<Option<Seq<char>>>,
    worktree: Seq<char>,
)
    requires
        !path::path_starts_with(leads_to(field, 0, resolved, worktree), worktree),
    ensures
        checked_paths(seq![field], resolved, worktree) == Err::<(), Seq<char>>(
            "diff path escapes worktree boundary: `"@ + field + "` resolves to `"@ + leads_to(
                field,
                0,
                resolved,
                worktree,
            ) + "` which is outside `"@ + worktree + "`"@,
        ),
{
    reveal_with_fuel(checked_paths, 2);
    assert(seq![field].drop_last() =~= Seq::empty());
    assert(seq![field].last() == field);
}

} // verus!
