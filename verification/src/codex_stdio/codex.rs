//! The codex backend: the command line of `codex exec`, its event stream, and
//! the choice between the CLI and a recorded response.
use vstd::prelude::*;

use crate::json::{self, Json, JsonView};
use crate::path;
use crate::text;

verus! {

/// One message of a conversation.
#[derive(Debug)]
pub struct ChatMessage {
    /// `system`, `user` or `assistant`.
    pub role: String,
    /// The text.
    pub content: String,
}

/// One request.
#[derive(Debug)]
pub struct ChatRequest {
    /// Name of the model.
    pub model: String,
    /// The conversation.
    pub messages: Vec<ChatMessage>,
    /// Ceiling on the output.
    pub max_tokens: Option<u64>,
}

/// Token counts.
#[derive(Debug, Clone, Copy, PartialEq, Eq, Structural)]
pub struct Usage {
    /// Input tokens.
    pub prompt_tokens: u64,
    /// Output tokens.
    pub completion_tokens: u64,
    /// Sum of the two.
    pub total_tokens: u64,
    /// Input tokens that came from the prompt cache, where that is known.
    pub cached_prompt_tokens: Option<u64>,
    /// Tokens spent on reasoning, where that is known.
    pub reasoning_output_tokens: Option<u64>,
}

/// One completion.
#[derive(Debug)]
pub struct Choice {
    /// The message of the assistant.
    pub message: ChatMessage,
    /// Why the model stopped.
    pub finish_reason: Option<String>,
}

/// One response.
#[derive(Debug)]
pub struct ChatResponse {
    /// Identifier for audit.
    pub id: String,
    /// Model that answered.
    pub model: String,
    /// The completions; only the first is used.
    pub choices: Vec<Choice>,
    /// Token counts, where they are known.
    pub usage: Option<Usage>,
}

/// What a [`ChatMessage`] stands for.
pub struct MessageView {
    pub role: Seq<char>,
    pub content: Seq<char>,
}

/// What a [`ChatRequest`] stands for.
pub struct ChatRequestView {
    pub model: Seq<char>,
    pub messages: Seq<MessageView>,
    pub max_tokens: Option<u64>,
}

/// What a [`Choice`] stands for.
pub struct ChoiceView {
    pub message: MessageView,
    pub finish_reason: Option<Seq<char>>,
}

/// What a [`ChatResponse`] stands for.
pub struct ChatResponseView {
    pub id: Seq<char>,
    pub model: Seq<char>,
    pub choices: Seq<ChoiceView>,
    pub usage: Option<Usage>,
}

impl View for ChatMessage {
    type V = MessageView;

    open spec fn view(&self) -> MessageView {
        MessageView { role: self.role@, content: self.content@ }
    }
}

/// The views of a sequence of messages.
pub open spec fn message_views(messages: Seq<ChatMessage>) -> Seq<MessageView> {
    Seq::new(messages.len(), |i: int| messages[i]@)
}

impl View for ChatRequest {
    type V = ChatRequestView;

    open spec fn view(&self) -> ChatRequestView {
        ChatRequestView {
            model: self.model@,
            messages: message_views(self.messages@),
            max_tokens: self.max_tokens,
        }
    }
}

impl View for Choice {
    type V = ChoiceView;

    open spec fn view(&self) -> ChoiceView {
        ChoiceView {
            message: self.message@,
            finish_reason: text::opt_view(self.finish_reason),
        }
    }
}

/// The views of a sequence of choices.
pub open spec fn choice_views(choices: Seq<Choice>) -> Seq<ChoiceView> {
    Seq::new(choices.len(), |i: int| choices[i]@)
}

impl View for ChatResponse {
    type V = ChatResponseView;

    open spec fn view(&self) -> ChatResponseView {
        ChatResponseView {
            id: self.id@,
            model: self.model@,
            choices: choice_views(self.choices@),
            usage: self.usage,
        }
    }
}

/// Whether the value of `CODEX_STDIO_SANDBOX_BYPASS` switches the sandbox off.
pub open spec fn bypass_asked(value: Option<Seq<char>>) -> bool {
    match value {
        Some(v) => {
            let word = text::lowered(v);
            word == "1"@ || word == "true"@
        },
        None => false,
    }
}

/// Reads the value of `CODEX_STDIO_SANDBOX_BYPASS`. Only `1`, and `true` in any
/// case, switch the sandbox off; anything else keeps it.
pub fn sandbox_bypass_from_env(value: Option<&str>) -> (r: bool)
    ensures
        r == bypass_asked(text::opt_str_view(value)),
{
    match value {
        Some(v) => {
            let word = text::to_ascii_lowercase(v);
            text::str_eq(word.as_str(), "1") || text::str_eq(word.as_str(), "true")
        },
        None => false,
    }
}

/// The arguments that set the sandbox.
pub open spec fn sandbox_args(bypass: bool) -> Seq<Seq<char>> {
    if bypass {
        seq!["--dangerously-bypass-approvals-and-sandbox"@]
    } else {
        seq!["--sandbox"@, "workspace-write"@]
    }
}

/// The arguments that set the ceiling on the output.
pub open spec fn ceiling_args(max_tokens: Option<u64>) -> Seq<Seq<char>> {
    match max_tokens {
        Some(max) => seq!["-c"@, "model_max_output_tokens="@ + text::dec(max as nat)],
        None => Seq::empty(),
    }
}

/// The arguments of `codex exec`.
pub open spec fn exec_args(
    worktree: Seq<char>,
    out: Seq<char>,
    model: Seq<char>,
    max_tokens: Option<u64>,
    bypass: bool,
) -> Seq<Seq<char>> {
    seq!["exec"@, "--cd"@, worktree] + sandbox_args(bypass) + seq![
        "--skip-git-repo-check"@,
        "--output-last-message"@,
        out,
        "--color"@,
        "never"@,
        "--json"@,
        "-m"@,
        model,
    ] + ceiling_args(max_tokens) + seq!["-"@]
}

/// Appends an argument.
fn push_arg(args: &mut Vec<String>, arg: &str)
    ensures
        text::views(final(args)@) == text::views(old(args)@).push(arg@),
{
    let owned = arg.to_owned();
    proof {
        text::lemma_views_push(args@, owned);
    }
    args.push(owned);
}

/// Builds the arguments of `codex exec`. The sandbox is either set or switched
/// off, never both. The prompt goes to stdin.
pub fn build_codex_exec_args(
    worktree_path: &str,
    out_path: &str,
    model: &str,
    max_tokens: Option<u64>,
    bypass_sandbox: bool,
) -> (args: Vec<String>)
    ensures
        text::views(args@) == exec_args(
            worktree_path@,
            out_path@,
            model@,
            max_tokens,
            bypass_sandbox,
        ),
{
    let mut args: Vec<String> = Vec::new();
    push_arg(&mut args, "exec");
    push_arg(&mut args, "--cd");
    push_arg(&mut args, worktree_path);
    if bypass_sandbox {
        push_arg(&mut args, "--dangerously-bypass-approvals-and-sandbox");
    } else {
        push_arg(&mut args, "--sandbox");
        push_arg(&mut args, "workspace-write");
    }
    push_arg(&mut args, "--skip-git-repo-check");
    push_arg(&mut args, "--output-last-message");
    push_arg(&mut args, out_path);
    push_arg(&mut args, "--color");
    push_arg(&mut args, "never");
    push_arg(&mut args, "--json");
    push_arg(&mut args, "-m");
    push_arg(&mut args, model);
    match max_tokens {
        Some(max) => {
            push_arg(&mut args, "-c");
            let ceiling = text::concat("model_max_output_tokens=", text::dec_u64(max).as_str());
            push_arg(&mut args, ceiling.as_str());
        },
        None => {},
    }
    push_arg(&mut args, "-");
    assert(text::views(args@) =~= exec_args(
        worktree_path@,
        out_path@,
        model@,
        max_tokens,
        bypass_sandbox,
    ));
    args
}

/// The head of a message in the prompt: nothing for the user, the role in
/// brackets for anyone else.
pub open spec fn role_head(role: Seq<char>) -> Seq<char> {
    if role == "user"@ {
        Seq::empty()
    } else {
        "["@ + role + "]\n"@
    }
}

/// The prompt that a conversation amounts to: its messages, with an empty line
/// before each that does not come first.
pub open spec fn prompt_of(messages: Seq<MessageView>) -> Seq<char>
    decreases messages.len(),
{
    if messages.len() == 0 {
        Seq::empty()
    } else {
        let before = prompt_of(messages.drop_last());
        let m = messages.last();
        before + (if before.len() > 0 {
            "\n\n"@
        } else {
            Seq::empty()
        }) + role_head(m.role) + m.content
    }
}

/// Builds the prompt.
pub fn build_prompt(messages: &Vec<ChatMessage>) -> (prompt: String)
    ensures
        prompt@ == prompt_of(message_views(messages@)),
{
    let ghost listed = message_views(messages@);
    let mut prompt = String::new();
    let mut i: usize = 0;
    while i < messages.len()
        invariant
            i <= messages@.len(),
            listed == message_views(messages@),
            prompt@ == prompt_of(listed.subrange(0, i as int)),
        decreases messages@.len() - i,
    {
        let m = &messages[i];
        let ghost before = prompt@;
        let gap = if prompt.as_str().is_empty() { "" } else { "\n\n" };
        prompt.append(gap);
        if !text::str_eq(m.role.as_str(), "user") {
            let mut head = "[".to_owned();
            head.append(m.role.as_str());
            head.append("]\n");
            prompt.append(head.as_str());
        } else {
            prompt.append("");
        }
        prompt.append(m.content.as_str());
        i += 1;
        proof {
            reveal_strlit("");
            assert(""@ =~= Seq::empty());
            let seen = listed.subrange(0, i as int);
            assert(seen.drop_last() =~= listed.subrange(0, i - 1));
            assert(seen.last() == m@);
        }
    }
    assert(listed.subrange(0, i as int) =~= listed);
    prompt
}

/// What the event stream of `codex exec --json` told.
#[derive(Debug)]
pub struct ParsedCodexEvents {
    /// Identifier of the thread.
    pub thread_id: Option<String>,
    /// Token counts of the last turn.
    pub usage: Option<Usage>,
}

/// What [`ParsedCodexEvents`] stands for.
pub struct EventsView {
    pub thread_id: Option<Seq<char>>,
    pub usage: Option<Usage>,
}

impl View for ParsedCodexEvents {
    type V = EventsView;

    open spec fn view(&self) -> EventsView {
        EventsView { thread_id: text::opt_view(self.thread_id), usage: self.usage }
    }
}

/// The number, or zero.
pub open spec fn or_zero(n: Option<u64>) -> u64 {
    match n {
        Some(k) => k,
        None => 0,
    }
}

/// The token counts of a `usage` block.
pub open spec fn usage_of(u: JsonView) -> Usage {
    let input = or_zero(json::member_u64(u, "input_tokens"@));
    let output = or_zero(json::member_u64(u, "output_tokens"@));
    Usage {
        prompt_tokens: input,
        completion_tokens: output,
        total_tokens: input.wrapping_add(output),
        cached_prompt_tokens: json::member_u64(u, "cached_input_tokens"@),
        reasoning_output_tokens: json::member_u64(u, "reasoning_output_tokens"@),
    }
}

/// The token counts that an event carries, where it ends a turn.
pub open spec fn turn_usage(event: JsonView) -> Option<Usage> {
    if json::member_str(event, "type"@) == Some("turn.completed"@) {
        match json::json_get(event, "usage"@) {
            Some(u) => Some(usage_of(u)),
            None => None,
        }
    } else {
        None
    }
}

/// The identifier that an event carries, where it starts a thread.
pub open spec fn started_thread(event: JsonView) -> Option<Seq<char>> {
    if json::member_str(event, "type"@) == Some("thread.started"@) {
        json::member_str(event, "thread_id"@)
    } else {
        None
    }
}

/// What is known after one more event.
pub open spec fn after_event(known: EventsView, event: JsonView) -> EventsView {
    EventsView {
        thread_id: match started_thread(event) {
            Some(id) => Some(id),
            None => known.thread_id,
        },
        usage: match turn_usage(event) {
            Some(u) => Some(u),
            None => known.usage,
        },
    }
}

/// The event on a line, where there is one: a line that begins with a brace and
/// is JSON.
pub open spec fn line_event(line: Seq<char>) -> Option<JsonView> {
    let bare = text::trimmed(line);
    if text::has_prefix(bare, "{"@) {
        match json::json_of_text(bare) {
            Ok(v) => Some(v),
            Err(_) => None,
        }
    } else {
        None
    }
}

/// What a stream of lines tells.
pub open spec fn events_of(lines: Seq<Seq<char>>) -> EventsView
    decreases lines.len(),
{
    if lines.len() == 0 {
        EventsView { thread_id: None, usage: None }
    } else {
        let known = events_of(lines.drop_last());
        match line_event(lines.last()) {
            Some(event) => after_event(known, event),
            None => known,
        }
    }
}

/// Reads the token counts of a `usage` block.
pub fn read_usage(u: &Json) -> (r: Usage)
    ensures
        r == usage_of(u@),
{
    let input: u64 = u.get_u64("input_tokens").unwrap_or(0);
    let output: u64 = u.get_u64("output_tokens").unwrap_or(0);
    Usage {
        prompt_tokens: input,
        completion_tokens: output,
        total_tokens: input.wrapping_add(output),
        cached_prompt_tokens: u.get_u64("cached_input_tokens"),
        reasoning_output_tokens: u.get_u64("reasoning_output_tokens"),
    }
}

fn has_type(event: &Json, name: &str) -> (r: bool)
    ensures
        r == (json::member_str(event@, "type"@) == Some(name@)),
{
    match event.get_str("type") {
        Some(t) => text::str_eq(t, name),
        None => false,
    }
}

/// Takes in one event.
pub fn take_event(known: ParsedCodexEvents, event: &Json) -> (r: ParsedCodexEvents)
    ensures
        r@ == after_event(known@, event@),
{
    let mut known = known;
    if has_type(event, "thread.started") {
        match event.get_str("thread_id") {
            Some(id) => {
                known.thread_id = Some(id.to_owned());
            },
            None => {},
        }
    }
    if has_type(event, "turn.completed") {
        match event.get("usage") {
            Some(u) => {
                known.usage = Some(read_usage(u));
            },
            None => {},
        }
    }
    known
}

/// Reads the event on a line.
fn read_event(line: &str) -> (r: Option<Json>)
    ensures
        match r {
            Some(j) => line_event(line@) == Some(j@),
            None => line_event(line@) is None,
        },
{
    let bare = text::trim(line);
    if !text::starts_with(bare.as_str(), "{") {
        return None;
    }
    match Json::parse(bare.as_str()) {
        Ok(v) => Some(v),
        Err(_) => None,
    }
}

/// Reads the event stream of `codex exec --json`. Lines that are no events are
/// passed over; of several turns the last counts.
pub fn parse_codex_jsonl(stdout: &str) -> (r: ParsedCodexEvents)
    ensures
        r@ == events_of(text::lines_of(stdout@)),
{
    let lines = text::lines(stdout);
    let ghost listed = text::lines_of(stdout@);
    let mut r = ParsedCodexEvents { thread_id: None, usage: None };
    let mut i: usize = 0;
    while i < lines.len()
        invariant
            i <= lines@.len(),
            listed == text::views(lines@),
            r@ == events_of(listed.subrange(0, i as int)),
        decreases lines@.len() - i,
    {
        match read_event(lines[i].as_str()) {
            Some(event) => {
                r = take_event(r, &event);
            },
            None => {},
        }
        i += 1;
        proof {
            let seen = listed.subrange(0, i as int);
            assert(seen.drop_last() =~= listed.subrange(0, i - 1));
            assert(seen.last() == lines@[i - 1]@);
        }
    }
    assert(listed.subrange(0, i as int) =~= listed);
    r
}

/// The text of an event, where it completes a message of the agent.
pub open spec fn agent_text(event: JsonView) -> Option<Seq<char>> {
    if json::member_str(event, "type"@) == Some("item.completed"@) {
        match json::json_get(event, "item"@) {
            Some(item) => if json::member_str(item, "type"@) == Some("agent_message"@) {
                json::member_str(item, "text"@)
            } else {
                None
            },
            None => None,
        }
    } else {
        None
    }
}

/// The last message of the agent in a stream of lines.
pub open spec fn last_agent_text(lines: Seq<Seq<char>>) -> Option<Seq<char>>
    decreases lines.len(),
{
    if lines.len() == 0 {
        None
    } else {
        let said = match line_event(lines.last()) {
            Some(event) => agent_text(event),
            None => None,
        };
        match said {
            Some(t) => Some(t),
            None => last_agent_text(lines.drop_last()),
        }
    }
}

/// Reads the text of an event that completes a message of the agent.
pub fn agent_message_text(event: &Json) -> (r: Option<String>)
    ensures
        text::opt_view(r) == agent_text(event@),
{
    if !has_type(event, "item.completed") {
        return None;
    }
    match event.get("item") {
        Some(item) => if has_type(item, "agent_message") {
            match item.get_str("text") {
                Some(t) => Some(t.to_owned()),
                None => None,
            }
        } else {
            None
        },
        None => None,
    }
}

/// Reads the last message of the agent out of an event stream.
pub fn extract_last_agent_message(stdout: &str) -> (r: Option<String>)
    ensures
        text::opt_view(r) == last_agent_text(text::lines_of(stdout@)),
{
    let lines = text::lines(stdout);
    let ghost listed = text::lines_of(stdout@);
    let mut last: Option<String> = None;
    let mut i: usize = 0;
    while i < lines.len()
        invariant
            i <= lines@.len(),
            listed == text::views(lines@),
            text::opt_view(last) == last_agent_text(listed.subrange(0, i as int)),
        decreases lines@.len() - i,
    {
        match read_event(lines[i].as_str()) {
            Some(event) => match agent_message_text(&event) {
                Some(t) => {
                    last = Some(t);
                },
                None => {},
            },
            None => {},
        }
        i += 1;
        proof {
            let seen = listed.subrange(0, i as int);
            assert(seen.drop_last() =~= listed.subrange(0, i - 1));
            assert(seen.last() == lines@[i - 1]@);
        }
    }
    assert(listed.subrange(0, i as int) =~= listed);
    last
}

/// A response with one finished message.
pub open spec fn single_response(
    id: Seq<char>,
    model: Seq<char>,
    content: Seq<char>,
    usage: Option<Usage>,
) -> ChatResponseView {
    ChatResponseView {
        id,
        model,
        choices: seq![
            ChoiceView {
                message: MessageView { role: "assistant"@, content },
                finish_reason: Some("stop"@),
            },
        ],
        usage,
    }
}

fn respond(id: String, model: String, content: String, usage: Option<Usage>) -> (r: ChatResponse)
    ensures
        r@ == single_response(id@, model@, content@, usage),
{
    let choice = Choice {
        message: ChatMessage { role: "assistant".to_owned(), content },
        finish_reason: Some("stop".to_owned()),
    };
    let choices = vec![choice];
    assert(choice_views(choices@) =~= seq![choice@]);
    ChatResponse { id, model, choices, usage }
}

/// How a run of `codex exec` ended.
#[derive(Debug)]
pub enum ExecRun {
    /// The process could not be started.
    SpawnFailed(String),
    /// The prompt could not be written.
    StdinFailed(String),
    /// The process could not be waited for.
    WaitFailed(String),
    /// The process exited.
    Exited {
        success: bool,
        /// Exit code, where there is one.
        code: Option<i32>,
        stdout: String,
        stderr: String,
        /// The file that the last message was written to, or why it could not
        /// be read.
        last_message: Result<String, String>,
    },
}

/// The view of a result whose both sides are strings.
pub open spec fn text_result(r: Result<String, String>) -> Result<Seq<char>, Seq<char>> {
    match r {
        Ok(s) => Ok(s@),
        Err(e) => Err(e@),
    }
}

/// The identifier, or the one that stands in for it.
pub open spec fn id_or(id: Option<Seq<char>>, fallback: Seq<char>) -> Seq<char> {
    match id {
        Some(i) => i,
        None => fallback,
    }
}

/// The response to a request, from how its run ended.
pub open spec fn chat_outcome(model: Seq<char>, run: ExecRun, pid: u32) -> Result<
    ChatResponseView,
    Seq<char>,
> {
    match run {
        ExecRun::SpawnFailed(e) => Err("spawn codex exec: "@ + e@),
        ExecRun::StdinFailed(e) => Err("write codex stdin: "@ + e@),
        ExecRun::WaitFailed(e) => Err("wait codex exec: "@ + e@),
        ExecRun::Exited { success, code, stdout, stderr, last_message } => if !success {
            Err(
                "codex exec failed (exit "@ + text::dec_int(
                    match code {
                        Some(c) => c as int,
                        None => -1,
                    },
                ) + "): "@ + text::trimmed(stderr@),
            )
        } else {
            match text_result(last_message) {
                Err(e) => Err("read codex output: "@ + e),
                Ok(message) => {
                    let events = events_of(text::lines_of(stdout@));
                    Ok(
                        single_response(
                            id_or(events.thread_id, "codex-exec-"@ + text::dec(pid as nat)),
                            model,
                            message,
                            events.usage,
                        ),
                    )
                },
            }
        },
    }
}

/// Agreement of a response with what it should be.
pub open spec fn response_agrees(
    r: Result<ChatResponse, String>,
    v: Result<ChatResponseView, Seq<char>>,
) -> bool {
    match (r, v) {
        (Ok(a), Ok(b)) => a@ == b,
        (Err(e), Err(f)) => e@ == f,
        _ => false,
    }
}

/// The name of the file that the last message is written to.
pub fn output_file_name(pid: u32) -> (name: String)
    ensures
        name@ == "codex-stdio-out-"@ + text::dec(pid as nat) + ".txt"@,
{
    let mut name = "codex-stdio-out-".to_owned();
    name.append(text::dec_u64(pid as u64).as_str());
    name.append(".txt");
    name
}

/// Turns the end of a run of `codex exec` into a response. A missing or
/// malformed event stream costs the identifier and the token counts, not the
/// response.
pub fn chat(req: &ChatRequest, run: ExecRun, pid: u32) -> (r: Result<ChatResponse, String>)
    ensures
        response_agrees(r, chat_outcome(req@.model, run, pid)),
        match (r, chat_outcome(req@.model, run, pid)) {
            (Ok(response), Ok(told)) => response@ == told,
            (Err(words), Err(told)) => words@ == told,
            _ => false,
        },
{
    match run {
        ExecRun::SpawnFailed(e) => Err(text::concat("spawn codex exec: ", e.as_str())),
        ExecRun::StdinFailed(e) => Err(text::concat("write codex stdin: ", e.as_str())),
        ExecRun::WaitFailed(e) => Err(text::concat("wait codex exec: ", e.as_str())),
        ExecRun::Exited { success, code, stdout, stderr, last_message } => {
            if !success {
                let shown: i64 = match code {
                    Some(c) => c as i64,
                    None => -1,
                };
                let mut e = "codex exec failed (exit ".to_owned();
                e.append(text::dec_i64(shown).as_str());
                e.append("): ");
                e.append(text::trim(stderr.as_str()).as_str());
                return Err(e);
            }
            match last_message {
                Err(e) => Err(text::concat("read codex output: ", e.as_str())),
                Ok(message) => {
                    let events = parse_codex_jsonl(stdout.as_str());
                    let id = match events.thread_id {
                        Some(id) => id,
                        None => text::concat("codex-exec-", text::dec_u64(pid as u64).as_str()),
                    };
                    Ok(respond(id, req.model.clone(), message, events.usage))
                },
            }
        },
    }
}

/// Whether a recording is an event stream: whether its extension is `jsonl`.
pub open spec fn is_event_stream(fixture: Seq<char>) -> bool {
    match path::extension_of(fixture) {
        Some(e) => text::lowered(e) == "jsonl"@,
        None => false,
    }
}

/// Whether a recording is an event stream.
pub fn replays_event_stream(fixture_path: &str) -> (r: bool)
    ensures
        r == is_event_stream(fixture_path@),
{
    match path::extension(fixture_path) {
        Some(e) => text::str_eq(text::to_ascii_lowercase(e.as_str()).as_str(), "jsonl"),
        None => false,
    }
}

/// The response that a recorded event stream holds.
pub open spec fn replayed(body: Seq<char>) -> ChatResponseView {
    let lines = text::lines_of(body);
    let events = events_of(lines);
    single_response(
        id_or(events.thread_id, "codex-replay-no-thread"@),
        Seq::empty(),
        match last_agent_text(lines) {
            Some(t) => t,
            None => Seq::empty(),
        },
        events.usage,
    )
}

/// Reads a recorded event stream.
pub fn replay_jsonl(body: &str) -> (r: ChatResponse)
    ensures
        r@ == replayed(body@),
{
    let events = parse_codex_jsonl(body);
    let content = match extract_last_agent_message(body) {
        Some(t) => t,
        None => String::new(),
    };
    let id = match events.thread_id {
        Some(id) => id,
        None => "codex-replay-no-thread".to_owned(),
    };
    respond(id, String::new(), content, events.usage)
}

/// Where responses come from.
#[derive(Debug)]
pub enum Transport {
    /// A recording.
    Replay {
        fixture_path: String,
    },
    /// The CLI.
    Exec {
        binary_path: String,
        worktree_path: String,
    },
}

/// What a [`Transport`] stands for.
pub enum TransportView {
    Replay { fixture_path: Seq<char> },
    Exec { binary_path: Seq<char>, worktree_path: Seq<char> },
}

impl View for Transport {
    type V = TransportView;

    open spec fn view(&self) -> TransportView {
        match self {
            Transport::Replay { fixture_path } => TransportView::Replay {
                fixture_path: fixture_path@,
            },
            Transport::Exec { binary_path, worktree_path } => TransportView::Exec {
                binary_path: binary_path@,
                worktree_path: worktree_path@,
            },
        }
    }
}

/// Whether `CODEX_STDIO_REPLAY_FIXTURE` names a recording.
pub open spec fn fixture_named(fixture: Option<Seq<char>>) -> bool {
    match fixture {
        Some(f) => f.len() > 0,
        None => false,
    }
}

/// Whether `CODEX_STDIO_REPLAY_FIXTURE` names a recording.
pub fn names_fixture(fixture: Option<&str>) -> (r: bool)
    ensures
        r == fixture_named(text::opt_str_view(fixture)),
{
    match fixture {
        Some(f) => !f.is_empty(),
        None => false,
    }
}

/// Where responses come from: a recording where one is named, else the CLI
/// where it was found.
pub open spec fn chosen_transport(
    fixture: Option<Seq<char>>,
    located: Result<Seq<char>, Seq<char>>,
    worktree: Seq<char>,
) -> Result<TransportView, Seq<char>> {
    if fixture_named(fixture) {
        Ok(TransportView::Replay { fixture_path: fixture->0 })
    } else {
        match located {
            Ok(binary) => Ok(
                TransportView::Exec { binary_path: binary, worktree_path: worktree },
            ),
            Err(e) => Err(e),
        }
    }
}

/// Chooses where responses come from.
pub fn for_worktree(
    fixture: Option<&str>,
    located: Result<String, String>,
    worktree_path: &str,
) -> (r: Result<Transport, String>)
    ensures
        match (
            r,
            chosen_transport(text::opt_str_view(fixture), text_result(located), worktree_path@),
        ) {
            (Ok(a), Ok(b)) => a@ == b,
            (Err(e), Err(f)) => e@ == f,
            _ => false,
        },
{
    match fixture {
        Some(f) => {
            if !f.is_empty() {
                return Ok(Transport::Replay { fixture_path: f.to_owned() });
            }
        },
        None => {},
    }
    match located {
        Ok(binary_path) => Ok(
            Transport::Exec { binary_path, worktree_path: worktree_path.to_owned() },
        ),
        Err(e) => Err(e),
    }
}

/// The usual place of the CLI.
pub const CANONICAL_BINARY: &'static str = "/usr/bin/codex";

/// What was found on disk of the places where the CLI may be.
#[derive(Debug)]
pub struct BinaryProbe {
    /// `CODEX_STDIO_BIN`, and whether it is executable.
    pub custom: Option<(String, bool)>,
    /// What `which codex` printed where it succeeded, and whether that path is
    /// executable.
    pub which: Option<(String, bool)>,
    /// Whether [`CANONICAL_BINARY`] is executable.
    pub canonical: bool,
}

/// The path that `which` printed, where it is executable.
pub open spec fn found_on_path(which: Option<(String, bool)>) -> Option<Seq<char>> {
    match which {
        Some((printed, executable)) => if executable && text::trimmed(printed@).len() > 0 {
            Some(text::trimmed(printed@))
        } else {
            None
        },
        None => None,
    }
}

/// The place of the CLI: the configured one and no other where one is
/// configured, then the one on the path, then the usual one.
pub open spec fn located_binary(probe: BinaryProbe) -> Result<Seq<char>, Seq<char>> {
    match probe.custom {
        Some((custom, executable)) => if executable {
            Ok(custom@)
        } else {
            Err("CODEX_STDIO_BIN points to `"@ + custom@ + "` which is not executable"@)
        },
        None => match found_on_path(probe.which) {
            Some(found) => Ok(found),
            None => if probe.canonical {
                Ok(CANONICAL_BINARY@)
            } else {
                Err(
                    "codex CLI not found (set CODEX_STDIO_BIN or install via npm i -g @openai/codex)"@,
                )
            },
        },
    }
}

/// Finds the CLI.
pub fn locate_codex_binary(probe: &BinaryProbe) -> (r: Result<String, String>)
    ensures
        text_result(r) == located_binary(*probe),
{
    match &probe.custom {
        Some((custom, executable)) => {
            return if *executable {
                Ok(custom.clone())
            } else {
                let mut e = "CODEX_STDIO_BIN points to `".to_owned();
                e.append(custom.as_str());
                e.append("` which is not executable");
                Err(e)
            };
        },
        None => {},
    }
    match &probe.which {
        Some((printed, executable)) => {
            let found = text::trim(printed.as_str());
            if *executable && !found.as_str().is_empty() {
                return Ok(found);
            }
        },
        None => {},
    }
    if probe.canonical {
        return Ok(CANONICAL_BINARY.to_owned());
    }
    Err(
        "codex CLI not found (set CODEX_STDIO_BIN or install via npm i -g @openai/codex)".to_owned(),
    )
}

/// Of several turns the last counts: nothing before it shows, and lines after
/// it that end no turn change nothing.
pub proof fn law_last_turn_counts(lines: Seq<Seq<char>>, k: int)
    requires
        0 <= k < lines.len(),
        line_event(lines[k]) is Some,
        turn_usage(line_event(lines[k])->0) is Some,
        forall|i: int|
            k < i < lines.len() ==> match line_event(#[trigger] lines[i]) {
                Some(event) => turn_usage(event) is None,
                None => true,
            },
    ensures
        events_of(lines).usage == turn_usage(line_event(lines[k])->0),
    decreases lines.len(),
{
    if k < lines.len() - 1 {
        let before = lines.drop_last();
        assert(before[k] == lines[k]);
        assert forall|i: int| k < i < before.len() implies match line_event(#[trigger] before[i]) {
            Some(event) => turn_usage(event) is None,
            None => true,
        } by {
            assert(before[i] == lines[i]);
        }
        law_last_turn_counts(before, k);
        assert(lines.last() == lines[lines.len() - 1]);
    } else {
        assert(lines.last() == lines[k]);
    }
}

/// Noise on the stream changes nothing: a line that is no event can be left out
/// wherever it stands.
pub proof fn law_noise_is_passed_over(before: Seq<Seq<char>>, noise: Seq<char>, after: Seq<Seq<char>>)
    requires
        line_event(noise) is None,
    ensures
        events_of(before.push(noise) + after) == events_of(before + after),
        last_agent_text(before.push(noise) + after) == last_agent_text(before + after),
    decreases after.len(),
{
    if after.len() == 0 {
        assert(before.push(noise) + after =~= before.push(noise));
        assert(before.push(noise).drop_last() =~= before);
        assert(before + after =~= before);
    } else {
        law_noise_is_passed_over(before, noise, after.drop_last());
        let with = before.push(noise) + after;
        let without = before + after;
        assert(with.drop_last() =~= before.push(noise) + after.drop_last());
        assert(without.drop_last() =~= before + after.drop_last());
        assert(with.last() == after.last());
        assert(without.last() == after.last());
    }
}

/// A text that is spelt like none of the sandbox flags.
pub open spec fn no_sandbox_flag(s: Seq<char>) -> bool {
    &&& s != "--dangerously-bypass-approvals-and-sandbox"@
    &&& s != "--sandbox"@
    &&& s != "workspace-write"@
}

/// The sandbox is set or switched off, never both and never neither, as long as
/// no path or model is spelt like one of the flags.
pub proof fn law_sandbox_flags_exclude_each_other(
    worktree: Seq<char>,
    out: Seq<char>,
    model: Seq<char>,
    max_tokens: Option<u64>,
    bypass: bool,
)
    requires
        no_sandbox_flag(worktree),
        no_sandbox_flag(out),
        no_sandbox_flag(model),
    ensures
        exec_args(worktree, out, model, max_tokens, bypass).contains(
            "--dangerously-bypass-approvals-and-sandbox"@,
        ) == bypass,
        exec_args(worktree, out, model, max_tokens, bypass).contains("--sandbox"@) == !bypass,
        exec_args(worktree, out, model, max_tokens, bypass).contains("workspace-write"@)
            == !bypass,
{
    reveal_strlit("exec");
    reveal_strlit("--cd");
    reveal_strlit("--dangerously-bypass-approvals-and-sandbox");
    reveal_strlit("--sandbox");
    reveal_strlit("workspace-write");
    reveal_strlit("--skip-git-repo-check");
    reveal_strlit("--output-last-message");
    reveal_strlit("--color");
    reveal_strlit("never");
    reveal_strlit("--json");
    reveal_strlit("-m");
    reveal_strlit("-c");
    reveal_strlit("model_max_output_tokens=");
    reveal_strlit("-");
    let args = exec_args(worktree, out, model, max_tokens, bypass);
    let off = "--dangerously-bypass-approvals-and-sandbox"@;
    let on = "--sandbox"@;
    let mode = "workspace-write"@;
    assert(off.len() == 42);
    assert(on.len() == 9 && on[0] == '-' && on[2] == 's');
    assert(mode.len() == 15 && mode[0] == 'w');
    assert(off[0] == '-');
    assert("--skip-git-repo-check"@.len() == 21);
    assert("--output-last-message"@.len() == 21);
    if max_tokens is Some {
        assert(ceiling_args(max_tokens)[1][0] == 'm');
    }
    if bypass {
        assert(args[3] == off);
        assert forall|i: int| 0 <= i < args.len() implies args[i] != on && args[i] != mode by {}
    } else {
        assert(args[3] == on);
        assert(args[4] == mode);
        assert forall|i: int| 0 <= i < args.len() implies args[i] != off by {}
    }
}

/// Whether a line of the stream is an event: one that is JSON once white space
/// around it is left out.
pub open spec fn tells(line: Seq<char>, event: JsonView) -> bool {
    text::has_prefix(text::trimmed(line), "{"@) && json::json_of_text(text::trimmed(line))
        == json::read_ok(event)
}

/// Whether an event completes a turn and counts its tokens.
pub open spec fn counts_tokens(event: JsonView) -> bool {
    json::json_get(event, "type"@) == Some(JsonView::Str("turn.completed"@)) && json::json_get(
        event,
        "usage"@,
    ) is Some
}

/// Whether a line completes a turn and counts its tokens.
pub open spec fn line_counts_tokens(line: Seq<char>) -> bool {
    exists|event: JsonView| #[trigger] tells(line, event) && counts_tokens(event)
}

/// The tokens that the last turn counts are the tokens of the stream: input and
/// output as they are counted, and the total is their sum.
pub proof fn law_tokens_are_those_of_the_last_turn(
    lines: Seq<Seq<char>>,
    k: int,
    event: JsonView,
    input: u64,
    output: u64,
)
    requires
        0 <= k < lines.len(),
        tells(lines[k], event),
        counts_tokens(event),
        json::json_get(json::json_get(event, "usage"@)->0, "input_tokens"@) == Some(
            json::json_int(input as int),
        ),
        json::json_get(json::json_get(event, "usage"@)->0, "output_tokens"@) == Some(
            json::json_int(output as int),
        ),
        forall|i: int| k < i < lines.len() ==> !line_counts_tokens(#[trigger] lines[i]),
    ensures
        events_of(lines).usage is Some,
        events_of(lines).usage->0.prompt_tokens == input,
        events_of(lines).usage->0.completion_tokens == output,
        input + output <= u64::MAX ==> events_of(lines).usage->0.total_tokens == input + output,
        events_of(lines).usage->0.cached_prompt_tokens == json::member_u64(
            json::json_get(event, "usage"@)->0,
            "cached_input_tokens"@,
        ),
        events_of(lines).usage->0.reasoning_output_tokens == json::member_u64(
            json::json_get(event, "usage"@)->0,
            "reasoning_output_tokens"@,
        ),
    decreases lines.len(),
{
    let last = lines.len() - 1;
    assert(lines.last() == lines[last]);
    if k < last {
        let before = lines.drop_last();
        assert(before[k] == lines[k]);
        assert forall|i: int| k < i < before.len() implies !line_counts_tokens(
            #[trigger] before[i],
        ) by {
            assert(before[i] == lines[i]);
        }
        law_tokens_are_those_of_the_last_turn(before, k, event, input, output);
        assert(!line_counts_tokens(lines[last]));
        if line_event(lines[last]) is Some {
            assert(tells(lines[last], line_event(lines[last])->0));
        }
    }
}

/// A stream in which no turn counts its tokens has no counts.
pub proof fn law_no_counts_without_a_turn(lines: Seq<Seq<char>>)
    requires
        forall|i: int| 0 <= i < lines.len() ==> !line_counts_tokens(#[trigger] lines[i]),
    ensures
        events_of(lines).usage is None,
    decreases lines.len(),
{
    if lines.len() > 0 {
        let before = lines.drop_last();
        assert forall|i: int| 0 <= i < before.len() implies !line_counts_tokens(
            #[trigger] before[i],
        ) by {
            assert(before[i] == lines[i]);
        }
        law_no_counts_without_a_turn(before);
        assert(!line_counts_tokens(lines[lines.len() - 1]));
        if line_event(lines.last()) is Some {
            assert(tells(lines.last(), line_event(lines.last())->0));
        }
    }
}

/// Whether an event starts a thread and names it.
pub open spec fn names_thread(event: JsonView) -> bool {
    &&& json::json_get(event, "type"@) == Some(JsonView::Str("thread.started"@))
    &&& json::json_get(event, "thread_id"@) matches Some(JsonView::Str(_))
}

/// Whether a line starts a thread and names it.
pub open spec fn line_names_thread(line: Seq<char>) -> bool {
    exists|event: JsonView| #[trigger] tells(line, event) && names_thread(event)
}

/// The thread of a stream is the last that is started in it.
pub proof fn law_thread_is_the_last_started(
    lines: Seq<Seq<char>>,
    k: int,
    event: JsonView,
    id: Seq<char>,
)
    requires
        0 <= k < lines.len(),
        tells(lines[k], event),
        json::json_get(event, "type"@) == Some(JsonView::Str("thread.started"@)),
        json::json_get(event, "thread_id"@) == Some(JsonView::Str(id)),
        forall|i: int| k < i < lines.len() ==> !line_names_thread(#[trigger] lines[i]),
    ensures
        events_of(lines).thread_id == Some(id),
    decreases lines.len(),
{
    let last = lines.len() - 1;
    assert(lines.last() == lines[last]);
    if k < last {
        let before = lines.drop_last();
        assert(before[k] == lines[k]);
        assert forall|i: int| k < i < before.len() implies !line_names_thread(
            #[trigger] before[i],
        ) by {
            assert(before[i] == lines[i]);
        }
        law_thread_is_the_last_started(before, k, event, id);
        assert(!line_names_thread(lines[last]));
        if line_event(lines[last]) is Some {
            assert(tells(lines[last], line_event(lines[last])->0));
        }
    }
}

/// A stream in which no thread is started has none.
pub proof fn law_no_thread_without_a_start(lines: Seq<Seq<char>>)
    requires
        forall|i: int| 0 <= i < lines.len() ==> !line_names_thread(#[trigger] lines[i]),
    ensures
        events_of(lines).thread_id is None,
    decreases lines.len(),
{
    if lines.len() > 0 {
        let before = lines.drop_last();
        assert forall|i: int| 0 <= i < before.len() implies !line_names_thread(
            #[trigger] before[i],
        ) by {
            assert(before[i] == lines[i]);
        }
        law_no_thread_without_a_start(before);
        assert(!line_names_thread(lines[lines.len() - 1]));
        if line_event(lines.last()) is Some {
            assert(tells(lines.last(), line_event(lines.last())->0));
        }
    }
}

/// Whether an event completes a message of the agent.
pub open spec fn says(event: JsonView, words: Seq<char>) -> bool {
    &&& json::json_get(event, "type"@) == Some(JsonView::Str("item.completed"@))
    &&& json::json_get(event, "item"@) is Some
    &&& json::json_get(json::json_get(event, "item"@)->0, "type"@) == Some(
        JsonView::Str("agent_message"@),
    )
    &&& json::json_get(json::json_get(event, "item"@)->0, "text"@) == Some(JsonView::Str(words))
}

/// Whether a line completes a message of the agent.
pub open spec fn line_says(line: Seq<char>) -> bool {
    exists|event: JsonView, words: Seq<char>| #[trigger]
        tells(line, event) && #[trigger] says(event, words)
}

/// The message of a recorded stream is the last that the agent completed.
pub proof fn law_last_message_is_read(
    lines: Seq<Seq<char>>,
    k: int,
    event: JsonView,
    words: Seq<char>,
)
    requires
        0 <= k < lines.len(),
        tells(lines[k], event),
        says(event, words),
        forall|i: int| k < i < lines.len() ==> !line_says(#[trigger] lines[i]),
    ensures
        last_agent_text(lines) == Some(words),
    decreases lines.len(),
{
    let last = lines.len() - 1;
    assert(lines.last() == lines[last]);
    if k < last {
        let before = lines.drop_last();
        assert(before[k] == lines[k]);
        assert forall|i: int| k < i < before.len() implies !line_says(#[trigger] before[i]) by {
            assert(before[i] == lines[i]);
        }
        law_last_message_is_read(before, k, event, words);
        assert(!line_says(lines[last]));
        if line_event(lines[last]) is Some {
            let heard = line_event(lines[last])->0;
            assert(tells(lines[last], heard));
            if agent_text(heard) is Some {
                assert(says(heard, agent_text(heard)->0));
            }
        }
    }
}

/// A run that succeeded and whose last message was read is answered with that
/// message, by the model that was asked, and with the tokens and the thread that
/// its stream tells.
pub proof fn law_run_is_answered_with_what_it_said(
    model: Seq<char>,
    code: Option<i32>,
    stdout: String,
    stderr: String,
    message: String,
    pid: u32,
)
    ensures
        ({
            let run = ExecRun::Exited {
                success: true,
                code,
                stdout,
                stderr,
                last_message: Ok(message),
            };
            let r = chat_outcome(model, run, pid);
            let told = events_of(text::lines_of(stdout@));
            &&& r is Ok
            &&& r->Ok_0.model == model
            &&& r->Ok_0.choices.len() == 1
            &&& r->Ok_0.choices[0].message.role == "assistant"@
            &&& r->Ok_0.choices[0].message.content == message@
            &&& r->Ok_0.choices[0].finish_reason == Some("stop"@)
            &&& r->Ok_0.usage == told.usage
            &&& told.thread_id is Some ==> r->Ok_0.id == told.thread_id->0
            &&& told.thread_id is None ==> r->Ok_0.id == "codex-exec-"@ + text::dec(pid as nat)
        }),
{
}

/// Where a run succeeded, its last message was read, and a line of its stream is
/// the last that counts tokens, the response carries these counts.
pub proof fn law_run_reports_its_tokens(
    model: Seq<char>,
    code: Option<i32>,
    stdout: String,
    stderr: String,
    message: String,
    pid: u32,
    k: int,
    event: JsonView,
    input: u64,
    output: u64,
)
    requires
        0 <= k < text::lines_of(stdout@).len(),
        tells(text::lines_of(stdout@)[k], event),
        counts_tokens(event),
        json::json_get(json::json_get(event, "usage"@)->0, "input_tokens"@) == Some(
            json::json_int(input as int),
        ),
        json::json_get(json::json_get(event, "usage"@)->0, "output_tokens"@) == Some(
            json::json_int(output as int),
        ),
        forall|i: int|
            k < i < text::lines_of(stdout@).len() ==> !line_counts_tokens(
                #[trigger] text::lines_of(stdout@)[i],
            ),
    ensures
        ({
            let run = ExecRun::Exited {
                success: true,
                code,
                stdout,
                stderr,
                last_message: Ok(message),
            };
            let r = chat_outcome(model, run, pid);
            &&& r is Ok
            &&& r->Ok_0.usage is Some
            &&& r->Ok_0.usage->0.prompt_tokens == input
            &&& r->Ok_0.usage->0.completion_tokens == output
            &&& input + output <= u64::MAX ==> r->Ok_0.usage->0.total_tokens == input + output
        }),
{
    law_tokens_are_those_of_the_last_turn(text::lines_of(stdout@), k, event, input, output);
    law_run_is_answered_with_what_it_said(model, code, stdout, stderr, message, pid);
}

/// A run that did not succeed, or whose last message could not be read, gets no
/// response but the reason.
pub proof fn law_failed_run_gets_no_response(model: Seq<char>, run: ExecRun, pid: u32)
    ensures
        chat_outcome(model, run, pid) is Ok <==> {
            &&& run is Exited
            &&& run->success
            &&& run->last_message is Ok
        },
        run matches ExecRun::SpawnFailed(e) ==> chat_outcome(model, run, pid) == Err::<
            ChatResponseView,
            Seq<char>,
        >("spawn codex exec: "@ + e@),
        run matches ExecRun::StdinFailed(e) ==> chat_outcome(model, run, pid) == Err::<
            ChatResponseView,
            Seq<char>,
        >("write codex stdin: "@ + e@),
        run matches ExecRun::WaitFailed(e) ==> chat_outcome(model, run, pid) == Err::<
            ChatResponseView,
            Seq<char>,
        >("wait codex exec: "@ + e@),
{
}

/// A recording is answered with the tokens, the thread and the last message that
/// its stream tells.
pub proof fn law_recording_is_answered_with_what_it_tells(body: Seq<char>)
    ensures
        ({
            let told = events_of(text::lines_of(body));
            let said = last_agent_text(text::lines_of(body));
            &&& replayed(body).usage == told.usage
            &&& told.thread_id is Some ==> replayed(body).id == told.thread_id->0
            &&& told.thread_id is None ==> replayed(body).id == "codex-replay-no-thread"@
            &&& replayed(body).choices.len() == 1
            &&& replayed(body).choices[0].message.role == "assistant"@
            &&& said is Some ==> replayed(body).choices[0].message.content == said->0
            &&& said is None ==> replayed(body).choices[0].message.content.len() == 0
        }),
{
}

/// The prompt holds every message in its order: the text of the user as it is,
/// any other under its role, and an empty line between what was there and what is
/// added.
pub proof fn law_prompt_holds_every_message(messages: Seq<MessageView>, m: MessageView)
    ensures
        prompt_of(Seq::empty()) == Seq::<char>::empty(),
        prompt_of(messages).len() == 0 && m.role == "user"@ ==> prompt_of(messages.push(m))
            == m.content,
        prompt_of(messages).len() == 0 && m.role != "user"@ ==> prompt_of(messages.push(m))
            == "["@ + m.role + "]\n"@ + m.content,
        prompt_of(messages).len() > 0 && m.role == "user"@ ==> prompt_of(messages.push(m))
            == prompt_of(messages) + "\n\n"@ + m.content,
        prompt_of(messages).len() > 0 && m.role != "user"@ ==> prompt_of(messages.push(m))
            == prompt_of(messages) + "\n\n"@ + "["@ + m.role + "]\n"@ + m.content,
{
    assert(messages.push(m).drop_last() =~= messages);
    let before = prompt_of(messages);
    let head = "["@ + m.role + "]\n"@;
    assert(before + Seq::<char>::empty() + Seq::<char>::empty() + m.content =~= before + m.content);
    assert(before + "\n\n"@ + Seq::<char>::empty() + m.content =~= before + "\n\n"@ + m.content);
    assert(before + "\n\n"@ + head + m.content =~= before + "\n\n"@ + "["@ + m.role + "]\n"@
        + m.content);
    if before.len() == 0 {
        assert(before + Seq::<char>::empty() + head + m.content =~= head + m.content);
        assert(before + m.content =~= m.content);
    }
}

/// `codex exec` is told to work in the worktree, to write its last message where
/// it is looked for, and to use the model; the ceiling is set exactly where there
/// is one, and the prompt comes on stdin.
pub proof fn law_exec_is_told_where_and_with_what(
    worktree: Seq<char>,
    out: Seq<char>,
    model: Seq<char>,
    max_tokens: Option<u64>,
    bypass: bool,
)
    ensures
        ({
            let args = exec_args(worktree, out, model, max_tokens, bypass);
            let at: int = if bypass {
                4
            } else {
                5
            };
            &&& args.len() == at + 9 + if max_tokens is Some {
                2int
            } else {
                0int
            }
            &&& args[0] == "exec"@
            &&& args[1] == "--cd"@
            &&& args[2] == worktree
            &&& bypass ==> args[3] == "--dangerously-bypass-approvals-and-sandbox"@
            &&& !bypass ==> args[3] == "--sandbox"@ && args[4] == "workspace-write"@
            &&& args[at] == "--skip-git-repo-check"@
            &&& args[at + 1] == "--output-last-message"@
            &&& args[at + 2] == out
            &&& args[at + 3] == "--color"@
            &&& args[at + 4] == "never"@
            &&& args[at + 5] == "--json"@
            &&& args[at + 6] == "-m"@
            &&& args[at + 7] == model
            &&& max_tokens is Some ==> args[at + 8] == "-c"@ && args[at + 9]
                == "model_max_output_tokens="@ + text::dec(max_tokens->0 as nat)
            &&& args.last() == "-"@
        }),
{
}

/// The sandbox is switched off by `1` and by `true` in any case, and by nothing
/// else.
pub proof fn law_sandbox_is_kept_unless_told(value: Seq<char>)
    ensures
        bypass_asked(None) == false,
        bypass_asked(Some("1"@)),
        text::lowered(value) == "true"@ ==> bypass_asked(Some(value)),
        value != "1"@ && text::lowered(value) != "true"@ ==> !bypass_asked(Some(value)),
{
    reveal_strlit("1");
    assert(text::lowered("1"@) =~= "1"@);
    if text::lowered(value) == "1"@ {
        assert(value.len() == 1);
        assert(text::lowered(value)[0] == text::lower_char(value[0]));
        assert(value[0] == '1') by {
            assert(text::lower_char(value[0]) == '1');
        }
        assert(value =~= "1"@);
    }
}

/// A recording is used where one is named; else the binary that was found is, in
/// the worktree; and where none was found the reason is told.
pub proof fn law_transport_is_chosen(
    fixture: Option<Seq<char>>,
    located: Result<Seq<char>, Seq<char>>,
    worktree: Seq<char>,
)
    ensures
        fixture is Some && fixture->0.len() > 0 ==> chosen_transport(fixture, located, worktree)
            == Ok::<TransportView, Seq<char>>(
            TransportView::Replay { fixture_path: fixture->0 },
        ),
        fixture is None || fixture->0.len() == 0 ==> match located {
            Ok(binary) => chosen_transport(fixture, located, worktree) == Ok::<
                TransportView,
                Seq<char>,
            >(TransportView::Exec { binary_path: binary, worktree_path: worktree }),
            Err(e) => chosen_transport(fixture, located, worktree) == Err::<
                TransportView,
                Seq<char>,
            >(e),
        },
{
}

/// A binary that is configured is used or nothing is; else the one on the path
/// is, and else the usual one; what is not executable is never used.
pub proof fn law_binary_is_located(probe: BinaryProbe)
    ensures
        match (probe.custom, probe.which) {
            (Some((path, executable)), _) => if executable {
                located_binary(probe) == Ok::<Seq<char>, Seq<char>>(path@)
            } else {
                located_binary(probe) is Err
            },
            (None, Some((printed, executable))) => executable && text::trimmed(printed@).len() > 0
                ==> located_binary(probe) == Ok::<Seq<char>, Seq<char>>(text::trimmed(printed@)),
            (None, None) => true,
        },
        match (probe.custom, probe.which) {
            (None, None) | (None, Some((_, false))) => if probe.canonical {
                located_binary(probe) == Ok::<Seq<char>, Seq<char>>("/usr/bin/codex"@)
            } else {
                located_binary(probe) is Err
            },
            _ => true,
        },
{
}

/// A run that failed is told with its exit code, or with -1 where it had none, and
/// with what it wrote to its errors, without white space around it.
pub proof fn law_failed_run_tells_its_code(
    model: Seq<char>,
    code: Option<i32>,
    stdout: String,
    stderr: String,
    last_message: Result<String, String>,
    pid: u32,
)
    ensures
        ({
            let run = ExecRun::Exited { success: false, code, stdout, stderr, last_message };
            let words = text::trimmed(stderr@);
            &&& code is Some ==> chat_outcome(model, run, pid) == Err::<
                ChatResponseView,
                Seq<char>,
            >("codex exec failed (exit "@ + text::dec_int(code->0 as int) + "): "@ + words)
            &&& code is None ==> chat_outcome(model, run, pid) == Err::<
                ChatResponseView,
                Seq<char>,
            >("codex exec failed (exit "@ + text::dec_int(-1) + "): "@ + words)
        }),
        last_message is Err ==> chat_outcome(
            model,
            ExecRun::Exited { success: true, code, stdout, stderr, last_message },
            pid,
        ) == Err::<ChatResponseView, Seq<char>>("read codex output: "@ + last_message->Err_0@),
{
}

/// A recording is an event stream where its name ends in `.jsonl`, in letters of
/// either case, and else a single response.
pub proof fn law_event_streams_are_known_by_name(dir: Seq<char>, stem: Seq<char>, ext: Seq<char>)
    requires
        dir.len() > 0,
        stem.len() > 0,
        forall|i: int| 0 <= i < stem.len() ==> #[trigger] stem[i] != '/',
        forall|i: int| 0 <= i < ext.len() ==> #[trigger] ext[i] != '/' && ext[i] != '.',
        ext.len() > 0,
    ensures
        is_event_stream(dir + seq!['/'] + (stem + seq!['.'] + ext)) <==> text::lowered(ext)
            == "jsonl"@,
        !is_event_stream(dir + seq!['/'] + ext),
{
    path::law_extension_is_behind_the_last_dot(dir, stem, ext);
}

/// Requests and responses are seen as they are: every message and every choice in
/// its place, with the model, the number and the tokens that they hold.
pub proof fn law_exchanges_are_seen_as_they_are(
    req: ChatRequest,
    resp: ChatResponse,
    i: int,
    j: int,
)
    requires
        0 <= i < req.messages@.len(),
        0 <= j < resp.choices@.len(),
    ensures
        req@.model == req.model@,
        req@.max_tokens == req.max_tokens,
        req@.messages.len() == req.messages@.len(),
        req@.messages[i].role == req.messages@[i].role@,
        req@.messages[i].content == req.messages@[i].content@,
        resp@.id == resp.id@,
        resp@.model == resp.model@,
        resp@.usage == resp.usage,
        resp@.choices.len() == resp.choices@.len(),
        resp@.choices[j].message.role == resp.choices@[j].message.role@,
        resp@.choices[j].message.content == resp.choices@[j].message.content@,
        resp.choices@[j].finish_reason is Some ==> resp@.choices[j].finish_reason == Some(
            resp.choices@[j].finish_reason->0@,
        ),
{
}

} // verus!
