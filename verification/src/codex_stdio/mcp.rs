//! The server loop of the codex tools.
use vstd::prelude::*;

use crate::json::{self, Json, JsonView};
use crate::lsp_shim_core::mcp_proto::code;
use crate::rpc::{self, Incoming, IncomingView};
use crate::schema;
use crate::text;

verus! {

/// What is done about a line.
#[derive(Debug)]
pub enum Step {
    /// Nothing.
    Silent,
    /// This is written.
    Reply(Json),
    /// The report on health is made.
    Health {
        id: Json,
        notification: bool,
    },
    /// A task is run.
    RunTask {
        id: Json,
        notification: bool,
        args: Json,
    },
}

/// What a [`Step`] stands for.
pub enum StepView {
    Silent,
    Reply(JsonView),
    Health { id: JsonView, notification: bool },
    RunTask { id: JsonView, notification: bool, args: JsonView },
}

impl View for Step {
    type V = StepView;

    open spec fn view(&self) -> StepView {
        match self {
            Step::Silent => StepView::Silent,
            Step::Reply(r) => StepView::Reply(r@),
            Step::Health { id, notification } => StepView::Health {
                id: id@,
                notification: *notification,
            },
            Step::RunTask { id, notification, args } => StepView::RunTask {
                id: id@,
                notification: *notification,
                args: args@,
            },
        }
    }
}

/// A reply, or nothing to a notification.
pub open spec fn reply_step(notification: bool, reply: JsonView) -> StepView {
    if notification {
        StepView::Silent
    } else {
        StepView::Reply(reply)
    }
}

/// The tools.
pub open spec fn codex_tools() -> JsonView {
    schema::tool_list(
        seq![
            schema::tool_entry(
                "codex_health"@,
                "Reports whether the Codex worker backend can serve requests right now. Callers invoke this before classifying a task to decide whether the Codex tier is in the candidate set. Does NOT round-trip a real OpenAI call."@,
                schema::open_schema(Map::empty()),
            ),
            schema::tool_entry(
                "codex_run_task"@,
                "Dispatch one task packet to OpenAI Chat Completions. Returns {diff, log, tokens_used}. Worktree path MUST canonicalize under the configured worktree-root prefix (default /tmp/wtpool/, override via CODEX_STDIO_WORKTREE_ROOT) — Codex is constrained to operate inside its assigned worktree. Set CODEX_STDIO_REPLAY_FIXTURE=<path> in env to replay a recorded response (test/smoke path)."@,
                schema::strict_schema(
                    map![
                        "task_packet"@ => schema::described_arg(
                            "string"@,
                            "Prompt body sent to the model. Format opaque to this shim; the routing skill is the canonical producer."@,
                        ),
                        "worktree_path"@ => schema::described_arg(
                            "string"@,
                            "Absolute path the Codex worker is constrained to. Validated via canonicalize + prefix check."@,
                        ),
                        "max_tokens"@ => schema::described_arg(
                            "integer"@,
                            "Output ceiling (max_completion_tokens). Default 131072."@,
                        ),
                        "model"@ => schema::described_arg(
                            "string"@,
                            "Override the default model. Defaults to CODEX_STDIO_MODEL env var, then gpt-5.3-codex."@,
                        ),
                    ],
                    seq!["task_packet"@, "worktree_path"@],
                ),
            ),
        ],
    )
}

/// The result of the handshake.
pub fn initialize_result() -> (r: Json)
    ensures
        r@ == schema::handshake("codex-stdio"@),
{
    schema::handshake_result("codex-stdio")
}

/// The list of tools.
pub fn tools_list_result() -> (r: Json)
    ensures
        r@ == codex_tools(),
{
    let health = schema::tool(
        "codex_health",
        "Reports whether the Codex worker backend can serve requests right now. Callers invoke this before classifying a task to decide whether the Codex tier is in the candidate set. Does NOT round-trip a real OpenAI call.",
        schema::schema(Json::object()),
    );
    let args = Json::object().put(
        "task_packet",
        schema::arg_about(
            "string",
            "Prompt body sent to the model. Format opaque to this shim; the routing skill is the canonical producer.",
        ),
    ).put(
        "worktree_path",
        schema::arg_about(
            "string",
            "Absolute path the Codex worker is constrained to. Validated via canonicalize + prefix check.",
        ),
    ).put(
        "max_tokens",
        schema::arg_about("integer", "Output ceiling (max_completion_tokens). Default 131072."),
    ).put(
        "model",
        schema::arg_about(
            "string",
            "Override the default model. Defaults to CODEX_STDIO_MODEL env var, then gpt-5.3-codex.",
        ),
    );
    let required = vec!["task_packet", "worktree_path"];
    assert(schema::slice_views(required@) =~= seq!["task_packet"@, "worktree_path"@]);
    let run_task = schema::tool(
        "codex_run_task",
        "Dispatch one task packet to OpenAI Chat Completions. Returns {diff, log, tokens_used}. Worktree path MUST canonicalize under the configured worktree-root prefix (default /tmp/wtpool/, override via CODEX_STDIO_WORKTREE_ROOT) — Codex is constrained to operate inside its assigned worktree. Set CODEX_STDIO_REPLAY_FIXTURE=<path> in env to replay a recorded response (test/smoke path).",
        schema::schema_requiring(args, required),
    );
    let entries = vec![health, run_task];
    assert(json::json_views(entries@) =~= seq![health@, run_task@]);
    schema::tools(entries)
}

/// What is done about a call of a tool.
pub open spec fn call_step(id: JsonView, notification: bool, params: JsonView) -> StepView {
    match rpc::called_tool(params) {
        None => reply_step(notification, rpc::missing_name_reply(id)),
        Some(name) => if name == "codex_health"@ {
            StepView::Health { id, notification }
        } else if name == "codex_run_task"@ {
            StepView::RunTask { id, notification, args: rpc::call_arguments(params) }
        } else {
            reply_step(notification, rpc::unknown_tool_reply(id, name))
        },
    }
}

/// What is done about a line.
pub open spec fn line_step(asks: IncomingView) -> StepView {
    match asks {
        IncomingView::Silent => StepView::Silent,
        IncomingView::Reply(r) => StepView::Reply(r),
        IncomingView::Initialize { id } => StepView::Reply(
            rpc::success_reply(id, schema::handshake("codex-stdio"@)),
        ),
        IncomingView::ToolsList { id } => StepView::Reply(rpc::success_reply(id, codex_tools())),
        IncomingView::ToolsCall { id, notification, params } => call_step(
            id,
            notification,
            params,
        ),
        IncomingView::Shutdown { id, notification } => reply_step(
            notification,
            rpc::success_reply(id, JsonView::Null),
        ),
        IncomingView::Unknown { id, method } => StepView::Reply(
            rpc::error_reply(
                id,
                code::METHOD_NOT_FOUND,
                "unknown method: "@ + method,
                Some(rpc::kind_data("method_not_found"@)),
            ),
        ),
    }
}

fn reply(notification: bool, response: Json) -> (r: Step)
    ensures
        r@ == reply_step(notification, response@),
{
    if notification {
        Step::Silent
    } else {
        Step::Reply(response)
    }
}

/// Decides what is done about a call of a tool.
pub fn handle_tools_call(id: Json, notification: bool, params: &Json) -> (r: Step)
    ensures
        r@ == call_step(id@, notification, params@),
{
    match params.get_str("name") {
        None => reply(notification, rpc::missing_name(id)),
        Some(name) => {
            if text::str_eq(name, "codex_health") {
                Step::Health { id, notification }
            } else if text::str_eq(name, "codex_run_task") {
                Step::RunTask { id, notification, args: rpc::arguments_of(params) }
            } else {
                reply(notification, rpc::unknown_tool(id, name))
            }
        },
    }
}

/// Decides what is done about what a line asks for.
pub fn handle_incoming(asked: Incoming) -> (r: Step)
    ensures
        r@ == line_step(asked@),
{
    match asked {
        Incoming::Silent => Step::Silent,
        Incoming::Reply(r) => Step::Reply(r),
        Incoming::Initialize { id } => Step::Reply(rpc::success_response(id, initialize_result())),
        Incoming::ToolsList { id } => Step::Reply(rpc::success_response(id, tools_list_result())),
        Incoming::ToolsCall { id, notification, params } => handle_tools_call(
            id,
            notification,
            &params,
        ),
        Incoming::Shutdown { id, notification } => reply(
            notification,
            rpc::success_response(id, Json::Null),
        ),
        Incoming::Unknown { id, method } => {
            let message = text::concat("unknown method: ", method.as_str());
            Step::Reply(
                rpc::error_response(
                    id,
                    code::METHOD_NOT_FOUND,
                    message.as_str(),
                    Some(rpc::error_kind_data("method_not_found")),
                ),
            )
        },
    }
}

/// Decides what is done about a line. An empty one is passed over.
pub fn handle_message(line: &str) -> (r: Step)
    ensures
        r@ == if text::trimmed(line@).len() == 0 {
            StepView::Silent
        } else {
            line_step(rpc::line_asks(text::trimmed(line@)))
        },
{
    let bare = text::trim(line);
    if bare.as_str().is_empty() {
        return Step::Silent;
    }
    handle_incoming(rpc::read_line(bare.as_str()))
}

/// The reply to a tool that ran.
pub open spec fn tool_reply(id: JsonView, result: Result<JsonView, Seq<char>>) -> JsonView {
    match result {
        Ok(payload) => rpc::success_reply(id, rpc::tool_result(payload)),
        Err(e) => rpc::error_reply(
            id,
            code::INTERNAL_ERROR,
            e,
            Some(rpc::kind_data("tool_failure"@)),
        ),
    }
}

/// Makes the reply to a tool that ran; a notification gets none.
pub fn finish_tools_call(id: Json, notification: bool, result: Result<Json, String>) -> (r: Option<
    Json,
>)
    ensures
        json::owned_view(r) == rpc::reply_to(
            notification,
            tool_reply(
                id@,
                match result {
                    Ok(j) => Ok(j@),
                    Err(e) => Err(e@),
                },
            ),
        ),
{
    if notification {
        return None;
    }
    match result {
        Ok(payload) => Some(rpc::success_response(id, rpc::tool_content(&payload))),
        Err(e) => Some(
            rpc::error_response(
                id,
                code::INTERNAL_ERROR,
                e.as_str(),
                Some(rpc::error_kind_data("tool_failure")),
            ),
        ),
    }
}

/// A call goes to the tool that it names: a task with its arguments as they are,
/// the report on health, and for any other name an error.
pub proof fn law_call_goes_to_its_tool(
    id: JsonView,
    notification: bool,
    params: JsonView,
    name: Seq<char>,
    args: JsonView,
)
    requires
        json::json_get(params, "name"@) == Some(JsonView::Str(name)),
    ensures
        name == "codex_run_task"@ && json::json_get(params, "arguments"@) == Some(args)
            ==> call_step(id, notification, params) == (StepView::RunTask {
            id,
            notification,
            args,
        }),
        name == "codex_health"@ ==> call_step(id, notification, params) == (StepView::Health {
            id,
            notification,
        }),
        name != "codex_run_task"@ && name != "codex_health"@ && !notification ==> {
            &&& call_step(id, notification, params) is Reply
            &&& json::json_get(call_step(id, notification, params)->Reply_0, "id"@) == Some(id)
            &&& json::json_get(call_step(id, notification, params)->Reply_0, "error"@) is Some
        },
        line_step(IncomingView::ToolsCall { id, notification, params }) == call_step(
            id,
            notification,
            params,
        ),
{
    reveal_strlit("codex_run_task");
    reveal_strlit("codex_health");
    assert("codex_run_task"@.len() == 14 && "codex_health"@.len() == 12);
    rpc::law_reply_is_one_or_the_other(
        id,
        JsonView::Null,
        code::METHOD_NOT_FOUND,
        "unknown tool: "@ + name,
        Some(rpc::kind_data("unknown_tool"@)),
    );
}

/// A tool that ran is answered under its own number with what came of it: its
/// payload as text, or the words of its failure.
pub proof fn law_tool_is_answered_with_its_outcome(id: JsonView, payload: JsonView, words: Seq<char>)
    ensures
        json::json_get(tool_reply(id, Ok(payload)), "id"@) == Some(id),
        json::json_get(tool_reply(id, Ok(payload)), "error"@) is None,
        json::json_get(tool_reply(id, Ok(payload)), "result"@) == Some(rpc::tool_result(payload)),
        json::json_get(tool_reply(id, Err(words)), "id"@) == Some(id),
        json::json_get(tool_reply(id, Err(words)), "result"@) is None,
        ({
            let body = json::json_get(tool_reply(id, Err(words)), "error"@)->0;
            &&& json::json_get(tool_reply(id, Err(words)), "error"@) is Some
            &&& json::member_str(body, "message"@) == Some(words)
            &&& json::json_get(body, "code"@) == Some(json::json_int(-32603))
            &&& json::member_str(json::json_get(body, "data"@)->0, "error_kind"@) == Some(
                "tool_failure"@,
            )
        }),
{
    rpc::law_reply_is_one_or_the_other(
        id,
        rpc::tool_result(payload),
        code::INTERNAL_ERROR,
        words,
        Some(rpc::kind_data("tool_failure"@)),
    );
}

/// The end of the backend, the handshake and the list of tools are answered under
/// their own number.
pub proof fn law_requests_are_answered(id: JsonView)
    ensures
        line_step(IncomingView::Shutdown { id, notification: false }) == StepView::Reply(
            rpc::success_reply(id, JsonView::Null),
        ),
        line_step(IncomingView::Shutdown { id, notification: true }) == StepView::Silent,
        ({
            let r = line_step(IncomingView::Initialize { id });
            r is Reply && json::json_get(r->Reply_0, "id"@) == Some(id) && json::json_get(
                r->Reply_0,
                "error"@,
            ) is None
        }),
        ({
            let r = line_step(IncomingView::ToolsList { id });
            r is Reply && json::json_get(r->Reply_0, "id"@) == Some(id) && json::json_get(
                r->Reply_0,
                "error"@,
            ) is None
        }),
        line_step(IncomingView::Silent) == StepView::Silent,
        line_step(IncomingView::Reply(id)) == StepView::Reply(id),
{
    rpc::law_reply_is_one_or_the_other(
        id,
        schema::handshake("codex-stdio"@),
        0,
        Seq::empty(),
        None,
    );
    rpc::law_reply_is_one_or_the_other(id, codex_tools(), 0, Seq::empty(), None);
}

/// A tool is listed exactly if it can be called.
pub proof fn law_listed_tools_can_be_called(name: Seq<char>)
    ensures
        schema::lists(codex_tools(), name) <==> name == "codex_health"@ || name
            == "codex_run_task"@,
{
    let items = json::json_get(codex_tools(), "tools"@)->0->Array_0;
    reveal_strlit("name");
    reveal_strlit("description");
    reveal_strlit("inputSchema");
    assert("name"@.len() == 4 && "description"@.len() == 11 && "inputSchema"@.len() == 11);
    assert(items.len() == 2);
    assert(json::json_get(items[0], "name"@) is Some);
    assert(json::json_get(items[1], "name"@) is Some);
}

/// The server presents itself by its name, lists its tools, and answers under the
/// number of the request.
pub proof fn law_server_presents_itself(id: JsonView)
    ensures
        line_step(IncomingView::Initialize { id }) == StepView::Reply(
            rpc::success_reply(id, schema::handshake("codex-stdio"@)),
        ),
        line_step(IncomingView::ToolsList { id }) == StepView::Reply(
            rpc::success_reply(id, codex_tools()),
        ),
{
}

/// A method that there is not is refused by its name.
pub proof fn law_unknown_method_is_named(id: JsonView, method: Seq<char>)
    ensures
        match line_step(IncomingView::Unknown { id, method }) {
            StepView::Reply(r) => rpc::refuses(r, id, -32601, "unknown method: "@ + method),
            _ => false,
        },
{
    rpc::law_reply_is_one_or_the_other(
        id,
        JsonView::Null,
        code::METHOD_NOT_FOUND,
        "unknown method: "@ + method,
        Some(rpc::kind_data("method_not_found"@)),
    );
}

/// A request to shut down is granted under its number, a notification in silence.
pub proof fn law_shutdown_is_granted(id: JsonView)
    ensures
        match line_step(IncomingView::Shutdown { id, notification: false }) {
            StepView::Reply(r) => rpc::grants(r, id, JsonView::Null),
            _ => false,
        },
        line_step(IncomingView::Shutdown { id, notification: true }) == StepView::Silent,
{
    rpc::law_reply_is_one_or_the_other(id, JsonView::Null, 0, Seq::empty(), None);
}

/// The list of tools tells which arguments a task takes and must have.
pub proof fn law_tools_tell_their_arguments()
    ensures
        ({
            let items = json::json_get(codex_tools(), "tools"@)->0->Array_0;
            &&& items.len() == 2
            &&& schema::demands(items[1], seq!["task_packet"@, "worktree_path"@])
            &&& schema::takes(items[1], "task_packet"@, "string"@)
            &&& schema::takes(items[1], "worktree_path"@, "string"@)
            &&& schema::takes(items[1], "max_tokens"@, "integer"@)
            &&& schema::takes(items[1], "model"@, "string"@)
        }),
{
    schema::lemma_entry_members();
    reveal_strlit("task_packet");
    reveal_strlit("worktree_path");
    reveal_strlit("max_tokens");
    reveal_strlit("model");
    assert("task_packet"@.len() == 11 && "worktree_path"@.len() == 13);
    assert("max_tokens"@.len() == 10 && "model"@.len() == 5);
}

} // verus!
