//! The server loop around clangd: which requests go to clangd, and what the
//! others are told.
//!
//! A call passes these gates in order. A call for the status goes around all of
//! them. A call for which no slot is free is refused. A call while the
//! supervisor waits, or has given up, is refused. Before a call is dispatched
//! the child is probed, and an exit is recorded. After it was dispatched its
//! outcome is recorded.
use vstd::prelude::*;

use crate::io_error::{IoError, IoErrorKind, IoErrorView};
use crate::json::{self, Json, JsonView};
use crate::lsp_cpp::answers;
use crate::lsp_cpp::clangd::{self, ChildProbe, Clangd};
use crate::lsp_cpp::error::{self, ShimError, ShimErrorView};
use crate::lsp_cpp::exchange;
use crate::lsp_cpp::full_index::BUILD_FULL_INDEX_DEFAULT_MAX_TUS;
use crate::lsp_cpp::queue::{self, BoundedQueue, QueueView, Slot};
use crate::lsp_cpp::supervisor::{
    self, PolicyView, ReasonView, RestartReason, RetryDecision, SupervisorPolicy, SupervisorState,
    RESTART_WINDOW_NS,
};
use crate::lsp_shim_core::mcp_proto::code;
use crate::rpc::{self, Incoming, IncomingView};
use crate::schema;
use crate::text;

verus! {

/// Seconds after which a call that found no free slot should be made again.
pub const QUEUE_RETRY_AFTER_S: u64 = 1;

/// Code of the error that the supervisor has given up. It lies outside the
/// range that the protocol reserves.
pub const SUPERVISOR_MAX_RETRIES_CODE: i64 = -33000;

/// Nanoseconds in a second.
pub const SECOND_NS: u64 = 1_000_000_000;

/// What is done about a line.
#[derive(Debug)]
pub enum Step {
    /// Nothing.
    Silent,
    /// This is written.
    Reply(Json),
    /// The status is reported.
    Status {
        id: Json,
        notification: bool,
    },
    /// A tool is called.
    Call {
        id: Json,
        notification: bool,
        name: String,
        args: Json,
    },
    /// The backend is ended, and this is written.
    Shutdown {
        reply: Option<Json>,
    },
}

/// What a [`Step`] stands for.
pub enum StepView {
    Silent,
    Reply(JsonView),
    Status { id: JsonView, notification: bool },
    Call { id: JsonView, notification: bool, name: Seq<char>, args: JsonView },
    Shutdown { reply: Option<JsonView> },
}

impl View for Step {
    type V = StepView;

    open spec fn view(&self) -> StepView {
        match self {
            Step::Silent => StepView::Silent,
            Step::Reply(r) => StepView::Reply(r@),
            Step::Status { id, notification } => StepView::Status {
                id: id@,
                notification: *notification,
            },
            Step::Call { id, notification, name, args } => StepView::Call {
                id: id@,
                notification: *notification,
                name: name@,
                args: args@,
            },
            Step::Shutdown { reply } => StepView::Shutdown { reply: json::owned_view(*reply) },
        }
    }
}

fn reply_unless(notification: bool, reply: Json) -> (r: Option<Json>)
    ensures
        json::owned_view(r) == rpc::reply_to(notification, reply@),
{
    if notification {
        None
    } else {
        Some(reply)
    }
}

/// The arguments that name a place.
pub open spec fn place_args() -> Map<Seq<char>, JsonView> {
    map![
        "file"@ => schema::plain_arg("string"@),
        "line"@ => schema::plain_arg("integer"@),
        "column"@ => schema::plain_arg("integer"@),
    ]
}

/// The tools.
pub open spec fn cpp_tools() -> JsonView {
    schema::tool_list(
        seq![
            schema::tool_entry(
                "workspace_symbol"@,
                "Search the indexed C++ workspace for symbols matching `query`. Returns up to N matches with file:line:column locations."@,
                schema::strict_schema(
                    map![
                        "query"@ => schema::described_arg(
                            "string"@,
                            "Substring or fuzzy match against symbol name."@,
                        ),
                    ],
                    seq!["query"@],
                ),
            ),
            schema::tool_entry(
                "definition"@,
                "Resolve the symbol at `file:line:column` to its definition site(s)."@,
                schema::strict_schema(
                    map![
                        "file"@ => schema::described_arg(
                            "string"@,
                            "Absolute path to a .cpp/.h under the indexed project."@,
                        ),
                        "line"@ => schema::described_arg("integer"@, "1-based line number."@),
                        "column"@ => schema::described_arg("integer"@, "1-based column number."@),
                    ],
                    seq!["file"@, "line"@, "column"@],
                ),
            ),
            schema::tool_entry(
                "references"@,
                "Find every reference to the symbol at `file:line:column`."@,
                schema::strict_schema(place_args(), seq!["file"@, "line"@, "column"@]),
            ),
            schema::tool_entry(
                "hover"@,
                "Return clangd's hover documentation for the symbol at `file:line:column`."@,
                schema::strict_schema(place_args(), seq!["file"@, "line"@, "column"@]),
            ),
            schema::tool_entry(
                "lsp_cpp_status"@,
                "Return the supervisor's view of the wrapped clangd subprocess: {clangd_pid, alive, uptime_s, restart_count, last_restart_reason, last_exit_status, supervisor_state, queue_in_flight, queue_capacity, try_wait_total_ns, alive_probe_error?}. The `try_wait_total_ns` field is the cumulative wall cost (nanoseconds) of the supervisor's `Child::try_wait` liveness probe across the wrapper-process lifetime — Standing-Rule-14 perf-window accumulator for the per-request poll cadence; intended for offline regression checks. The `alive_probe_error` field is OPTIONAL: present (string `\"io error: <msg>\"`) only when the OS-level alive probe (`Child::try_wait`) returned an `io::Error`; omitted on the success path. Use this RPC instead of `kill -SIGHUP <wrapper-pid>` to probe wrapper health — sending SIGHUP terminates the wrapper itself (no auto-respawn under stdio MCP) and forces a CC-session restart, as happened on 2026-04-27 ~17:30 Z."@,
                schema::open_schema(Map::empty()),
            ),
            schema::tool_entry(
                "build_full_index"@,
                "Pre-warm clangd's persistent index by feeding the first `max_tus` translation units from the project's compile_commands.json (defaults to 5000 — large monorepos can have 100k+ entries and uncapped runs take many hours). Returns {tus_opened, skipped_io_errors, wall_seconds, shards_on_disk_after, shards_size_bytes}. Blocking call; tail /tmp/lsp-cpp.log for progress while in flight."@,
                schema::open_schema(
                    map![
                        "max_tus"@ => schema::described_arg(
                            "integer"@,
                            "Maximum number of TUs to open (default 5000). Cap exists because the full DB is ~150k TUs and a no-cap run takes many hours. Lower values (e.g. 50) are useful for smoke-testing the wiring."@,
                        ),
                    ],
                ),
            ),
        ],
    )
}

/// The result of the handshake.
pub fn initialize_result() -> (r: Json)
    ensures
        r@ == schema::handshake("lsp-cpp"@),
{
    schema::handshake_result("lsp-cpp")
}

fn place_args_json() -> (r: Json)
    ensures
        r@ == JsonView::Object(place_args()),
{
    Json::object().put("file", schema::arg("string")).put("line", schema::arg("integer")).put(
        "column",
        schema::arg("integer"),
    )
}

fn place_names() -> (r: Vec<&'static str>)
    ensures
        schema::slice_views(r@) == seq!["file"@, "line"@, "column"@],
{
    let r = vec!["file", "line", "column"];
    assert(schema::slice_views(r@) =~= seq!["file"@, "line"@, "column"@]);
    r
}

/// The list of tools.
pub fn tools_list_result() -> (r: Json)
    ensures
        r@ == cpp_tools(),
{
    let query_names = vec!["query"];
    assert(schema::slice_views(query_names@) =~= seq!["query"@]);
    let symbol = schema::tool(
        "workspace_symbol",
        "Search the indexed C++ workspace for symbols matching `query`. Returns up to N matches with file:line:column locations.",
        schema::schema_requiring(
            Json::object().put(
                "query",
                schema::arg_about("string", "Substring or fuzzy match against symbol name."),
            ),
            query_names,
        ),
    );
    let definition = schema::tool(
        "definition",
        "Resolve the symbol at `file:line:column` to its definition site(s).",
        schema::schema_requiring(
            Json::object().put(
                "file",
                schema::arg_about(
                    "string",
                    "Absolute path to a .cpp/.h under the indexed project.",
                ),
            ).put("line", schema::arg_about("integer", "1-based line number.")).put(
                "column",
                schema::arg_about("integer", "1-based column number."),
            ),
            place_names(),
        ),
    );
    let references = schema::tool(
        "references",
        "Find every reference to the symbol at `file:line:column`.",
        schema::schema_requiring(place_args_json(), place_names()),
    );
    let hover = schema::tool(
        "hover",
        "Return clangd's hover documentation for the symbol at `file:line:column`.",
        schema::schema_requiring(place_args_json(), place_names()),
    );
    let status = schema::tool(
        "lsp_cpp_status",
        "Return the supervisor's view of the wrapped clangd subprocess: {clangd_pid, alive, uptime_s, restart_count, last_restart_reason, last_exit_status, supervisor_state, queue_in_flight, queue_capacity, try_wait_total_ns, alive_probe_error?}. The `try_wait_total_ns` field is the cumulative wall cost (nanoseconds) of the supervisor's `Child::try_wait` liveness probe across the wrapper-process lifetime — Standing-Rule-14 perf-window accumulator for the per-request poll cadence; intended for offline regression checks. The `alive_probe_error` field is OPTIONAL: present (string `\"io error: <msg>\"`) only when the OS-level alive probe (`Child::try_wait`) returned an `io::Error`; omitted on the success path. Use this RPC instead of `kill -SIGHUP <wrapper-pid>` to probe wrapper health — sending SIGHUP terminates the wrapper itself (no auto-respawn under stdio MCP) and forces a CC-session restart, as happened on 2026-04-27 ~17:30 Z.",
        schema::schema(Json::object()),
    );
    let build = schema::tool(
        "build_full_index",
        "Pre-warm clangd's persistent index by feeding the first `max_tus` translation units from the project's compile_commands.json (defaults to 5000 — large monorepos can have 100k+ entries and uncapped runs take many hours). Returns {tus_opened, skipped_io_errors, wall_seconds, shards_on_disk_after, shards_size_bytes}. Blocking call; tail /tmp/lsp-cpp.log for progress while in flight.",
        schema::schema(
            Json::object().put(
                "max_tus",
                schema::arg_about(
                    "integer",
                    "Maximum number of TUs to open (default 5000). Cap exists because the full DB is ~150k TUs and a no-cap run takes many hours. Lower values (e.g. 50) are useful for smoke-testing the wiring.",
                ),
            ),
        ),
    );
    let entries = vec![symbol, definition, references, hover, status, build];
    assert(json::json_views(entries@) =~= seq![
        symbol@,
        definition@,
        references@,
        hover@,
        status@,
        build@,
    ]);
    schema::tools(entries)
}

/// What is done about a call: the status goes around every gate.
pub open spec fn call_step(id: JsonView, notification: bool, params: JsonView) -> StepView {
    match rpc::called_tool(params) {
        None => if notification {
            StepView::Silent
        } else {
            StepView::Reply(rpc::missing_name_reply(id))
        },
        Some(name) => if name == "lsp_cpp_status"@ {
            StepView::Status { id, notification }
        } else {
            StepView::Call { id, notification, name, args: rpc::call_arguments(params) }
        },
    }
}

/// What is done about a line.
pub open spec fn line_step(asks: IncomingView) -> StepView {
    match asks {
        IncomingView::Silent => StepView::Silent,
        IncomingView::Reply(r) => StepView::Reply(r),
        IncomingView::Initialize { id } => StepView::Reply(
            rpc::success_reply(id, schema::handshake("lsp-cpp"@)),
        ),
        IncomingView::ToolsList { id } => StepView::Reply(rpc::success_reply(id, cpp_tools())),
        IncomingView::ToolsCall { id, notification, params } => call_step(
            id,
            notification,
            params,
        ),
        IncomingView::Shutdown { id, notification } => StepView::Shutdown {
            reply: rpc::reply_to(notification, rpc::success_reply(id, JsonView::Null)),
        },
        IncomingView::Unknown { id, method } => StepView::Reply(
            rpc::error_reply(id, code::METHOD_NOT_FOUND, "unknown method: "@ + method, None),
        ),
    }
}

/// Decides what is done about a call.
pub fn handle_tools_call(id: Json, notification: bool, params: &Json) -> (r: Step)
    ensures
        r@ == call_step(id@, notification, params@),
{
    match params.get_str("name") {
        None => if notification {
            Step::Silent
        } else {
            Step::Reply(rpc::missing_name(id))
        },
        Some(name) => if text::str_eq(name, "lsp_cpp_status") {
            Step::Status { id, notification }
        } else {
            Step::Call { id, notification, name: name.to_owned(), args: rpc::arguments_of(params) }
        },
    }
}

/// Decides what is done about what a line asks for.
pub fn handle_incoming(asked: Incoming) -> (r: Step)
    ensures
        r@ == line_step(asked@),
{
    match asked {
        Incoming::Silent => Step::Silent,
        Incoming::Reply(r) => Step::Reply(r),
        Incoming::Initialize { id } => Step::Reply(rpc::success_response(id, initialize_result())),
        Incoming::ToolsList { id } => Step::Reply(rpc::success_response(id, tools_list_result())),
        Incoming::ToolsCall { id, notification, params } => handle_tools_call(
            id,
            notification,
            &params,
        ),
        Incoming::Shutdown { id, notification } => Step::Shutdown {
            reply: reply_unless(notification, rpc::success_response(id, Json::Null)),
        },
        Incoming::Unknown { id, method } => {
            let message = text::concat("unknown method: ", method.as_str());
            Step::Reply(
                rpc::error_response(id, code::METHOD_NOT_FOUND, message.as_str(), None),
            )
        },
    }
}

/// Decides what is done about a line. An empty one is passed over.
pub fn handle_message(line: &str) -> (r: Step)
    ensures
        r@ == if text::trimmed(line@).len() == 0 {
            StepView::Silent
        } else {
            line_step(rpc::line_asks(text::trimmed(line@)))
        },
{
    let bare = text::trim(line);
    if bare.as_str().is_empty() {
        return Step::Silent;
    }
    handle_incoming(rpc::read_line(bare.as_str()))
}

/// The tag of the supervisor's state.
pub open spec fn state_tag(state: SupervisorState) -> Seq<char> {
    match state {
        SupervisorState::Stopped => "stopped"@,
        SupervisorState::Running => "running"@,
        SupervisorState::Backoff { .. } => "backoff"@,
        SupervisorState::Failed => "failed"@,
    }
}

/// The tag of the supervisor's state.
pub fn supervisor_state_tag(supervisor: &SupervisorPolicy) -> (tag: &'static str)
    ensures
        tag@ == state_tag(supervisor@.state),
{
    match supervisor.current_state() {
        SupervisorState::Stopped => "stopped",
        SupervisorState::Running => "running",
        SupervisorState::Backoff { .. } => "backoff",
        SupervisorState::Failed => "failed",
    }
}

/// The tag of the last restart.
pub open spec fn last_reason_tag(p: PolicyView) -> Seq<char> {
    match p.last_reason {
        Some(r) => supervisor::reason_tag(r),
        None => "none"@,
    }
}

fn reason_tag_of(supervisor: &SupervisorPolicy) -> (tag: &'static str)
    ensures
        tag@ == last_reason_tag(supervisor@),
{
    match supervisor.last_reason() {
        Some(r) => r.as_tag(),
        None => "none",
    }
}

/// What the status says.
pub open spec fn status_payload(
    pid: Option<u32>,
    last_exit_status: Option<Seq<char>>,
    q: QueueView,
    p: PolicyView,
    alive: Result<bool, IoErrorView>,
    now_ns: u128,
) -> JsonView {
    let plain = map![
        "clangd_pid"@ => match pid {
            Some(n) => json::json_int(n as int),
            None => JsonView::Null,
        },
        "alive"@ => JsonView::Bool(alive == Ok::<bool, IoErrorView>(true)),
        "uptime_s"@ => json::json_int((supervisor::uptime(p, now_ns) / SECOND_NS) as int),
        "restart_count"@ => json::json_int(p.total_restarts as int),
        "last_restart_reason"@ => JsonView::Str(last_reason_tag(p)),
        "last_exit_status"@ => match last_exit_status {
            Some(s) => JsonView::Str(s),
            None => JsonView::Null,
        },
        "supervisor_state"@ => JsonView::Str(state_tag(p.state)),
        "queue_in_flight"@ => json::json_int(q.in_flight as int),
        "queue_capacity"@ => json::json_int(q.capacity as int),
        "try_wait_total_ns"@ => json::json_int(p.probe_ns as int),
    ];
    JsonView::Object(
        match alive {
            Ok(_) => plain,
            Err(e) => plain.insert(
                "alive_probe_error"@,
                JsonView::Str("io error: "@ + e.message),
            ),
        },
    )
}

/// The outcome of a probe in views.
pub open spec fn probe_view(alive: Result<bool, IoError>) -> Result<bool, IoErrorView> {
    match alive {
        Ok(b) => Ok(b),
        Err(e) => Err(e@),
    }
}

/// Makes the status. A probe that failed is told from a child that is gone.
pub fn build_status_payload(
    pid: Option<u32>,
    backend: &Clangd,
    queue: &BoundedQueue,
    supervisor: &SupervisorPolicy,
    alive: Result<bool, IoError>,
    now_ns: u128,
) -> (r: Json)
    ensures
        r@ == status_payload(
            pid,
            backend@.last_exit_status,
            queue@,
            supervisor@,
            probe_view(alive),
            now_ns,
        ),
{
    let is_alive = match &alive {
        Ok(b) => *b,
        Err(_) => false,
    };
    let pid_json = match pid {
        Some(n) => Json::uint(n as u64),
        None => Json::Null,
    };
    let exit_json = match backend.last_exit_status() {
        Some(s) => Json::str(s),
        None => Json::Null,
    };
    let plain = Json::object().put("clangd_pid", pid_json).put("alive", Json::Bool(is_alive)).put(
        "uptime_s",
        Json::uint(supervisor.current_uptime_ns(now_ns) / SECOND_NS),
    ).put("restart_count", Json::uint(supervisor.total_restarts())).put(
        "last_restart_reason",
        Json::str(reason_tag_of(supervisor)),
    ).put("last_exit_status", exit_json).put(
        "supervisor_state",
        Json::str(supervisor_state_tag(supervisor)),
    ).put("queue_in_flight", Json::uint(queue.in_flight() as u64)).put(
        "queue_capacity",
        Json::uint(queue.capacity() as u64),
    ).put("try_wait_total_ns", Json::uint(supervisor.try_wait_total_ns()));
    match alive {
        Ok(_) => plain,
        Err(e) => {
            let words = text::concat("io error: ", e.message.as_str());
            plain.put("alive_probe_error", Json::Str(words))
        },
    }
}

/// The supervisor after a probe took some time.
pub open spec fn after_probe(p: PolicyView, probe_ns: u64) -> PolicyView {
    PolicyView {
        probe_ns: if p.probe_ns + probe_ns <= u64::MAX {
            (p.probe_ns + probe_ns) as u64
        } else {
            u64::MAX
        },
        ..p
    }
}

/// Answers a call for the status, once the child was probed.
pub fn finish_status(
    id: Json,
    notification: bool,
    pid: Option<u32>,
    backend: &Clangd,
    queue: &BoundedQueue,
    supervisor: &mut SupervisorPolicy,
    alive: Result<bool, IoError>,
    probe_ns: u64,
    now_ns: u128,
) -> (r: Option<Json>)
    ensures
        final(supervisor)@ == after_probe(old(supervisor)@, probe_ns),
        json::owned_view(r) == rpc::reply_to(
            notification,
            rpc::success_reply(
                id@,
                rpc::tool_result(
                    status_payload(
                        pid,
                        backend@.last_exit_status,
                        queue@,
                        after_probe(old(supervisor)@, probe_ns),
                        probe_view(alive),
                        now_ns,
                    ),
                ),
            ),
        ),
{
    supervisor.record_try_wait_ns(probe_ns);
    let payload = build_status_payload(pid, backend, queue, supervisor, alive, now_ns);
    reply_unless(notification, rpc::success_response(id, rpc::tool_content(&payload)))
}

/// The refusal of a call for which no slot is free.
pub open spec fn queue_full_reply(id: JsonView, q: QueueView) -> JsonView {
    rpc::error_reply(
        id,
        code::INTERNAL_ERROR,
        "wrapper queue full ("@ + text::dec(q.in_flight) + "/"@ + text::dec(q.capacity)
            + "); retry after "@ + text::dec(QUEUE_RETRY_AFTER_S as nat) + "s"@,
        Some(
            JsonView::Object(
                map![
                    "error_kind"@ => JsonView::Str("queue_depth_exceeded"@),
                    "in_flight"@ => json::json_int(q.in_flight as int),
                    "capacity"@ => json::json_int(q.capacity as int),
                    "retry_after_s"@ => json::json_int(QUEUE_RETRY_AFTER_S as int),
                ],
            ),
        ),
    )
}

fn queue_full(id: Json, queue: &BoundedQueue) -> (r: Json)
    ensures
        r@ == queue_full_reply(id@, queue@),
{
    let mut message = text::concat(
        "wrapper queue full (",
        text::dec_usize(queue.in_flight()).as_str(),
    );
    message.append("/");
    message.append(text::dec_usize(queue.capacity()).as_str());
    message.append("); retry after ");
    message.append(text::dec_u64(QUEUE_RETRY_AFTER_S).as_str());
    message.append("s");
    let data = Json::object().put("error_kind", Json::str("queue_depth_exceeded")).put(
        "in_flight",
        Json::uint(queue.in_flight() as u64),
    ).put("capacity", Json::uint(queue.capacity() as u64)).put(
        "retry_after_s",
        Json::uint(QUEUE_RETRY_AFTER_S),
    );
    rpc::error_response(id, code::INTERNAL_ERROR, message.as_str(), Some(data))
}

/// The refusal of a call while the supervisor waits.
pub open spec fn backoff_reply(id: JsonView, p: PolicyView, wait_ns: u64) -> JsonView {
    let wait_s = wait_ns / SECOND_NS;
    rpc::error_reply(
        id,
        code::INTERNAL_ERROR,
        "clangd is restarting (backoff "@ + text::dec(wait_s as nat)
            + " s); retry after the supervisor finishes its respawn cycle"@,
        Some(
            JsonView::Object(
                map![
                    "error_kind"@ => JsonView::Str("supervisor_backoff"@),
                    "retry_after_s"@ => json::json_int(wait_s as int),
                    "supervisor_state"@ => JsonView::Str(state_tag(p.state)),
                ],
            ),
        ),
    )
}

fn backing_off(id: Json, supervisor: &SupervisorPolicy, wait_ns: u64) -> (r: Json)
    ensures
        r@ == backoff_reply(id@, supervisor@, wait_ns),
{
    let wait_s: u64 = wait_ns / SECOND_NS;
    let mut message = text::concat(
        "clangd is restarting (backoff ",
        text::dec_u64(wait_s).as_str(),
    );
    message.append(" s); retry after the supervisor finishes its respawn cycle");
    let data = Json::object().put("error_kind", Json::str("supervisor_backoff")).put(
        "retry_after_s",
        Json::uint(wait_s),
    ).put("supervisor_state", Json::str(supervisor_state_tag(supervisor)));
    rpc::error_response(id, code::INTERNAL_ERROR, message.as_str(), Some(data))
}

/// The refusal of a call once the supervisor has given up.
pub open spec fn given_up_reply(id: JsonView, p: PolicyView, retry_after_ns: u64) -> JsonView {
    let retry_s = retry_after_ns / SECOND_NS;
    rpc::error_reply(
        id,
        SUPERVISOR_MAX_RETRIES_CODE,
        "clangd has crashed "@ + text::dec(p.total_restarts as nat) + " times in the last "@
            + text::dec((RESTART_WINDOW_NS / SECOND_NS) as nat)
            + "s — supervisor giving up; window expires in "@ + text::dec(retry_s as nat) + "s"@,
        Some(
            JsonView::Object(
                map![
                    "error_kind"@ => JsonView::Str("supervisor_max_retries"@),
                    "retry_after_s"@ => json::json_int(retry_s as int),
                    "total_restarts"@ => json::json_int(p.total_restarts as int),
                    "last_restart_reason"@ => JsonView::Str(last_reason_tag(p)),
                ],
            ),
        ),
    )
}

fn given_up(id: Json, supervisor: &SupervisorPolicy, retry_after_ns: u64) -> (r: Json)
    ensures
        r@ == given_up_reply(id@, supervisor@, retry_after_ns),
{
    let retry_s: u64 = retry_after_ns / SECOND_NS;
    let window_s: u64 = RESTART_WINDOW_NS / SECOND_NS;
    let mut message = text::concat(
        "clangd has crashed ",
        text::dec_u64(supervisor.total_restarts()).as_str(),
    );
    message.append(" times in the last ");
    message.append(text::dec_u64(window_s).as_str());
    message.append("s — supervisor giving up; window expires in ");
    message.append(text::dec_u64(retry_s).as_str());
    message.append("s");
    let data = Json::object().put("error_kind", Json::str("supervisor_max_retries")).put(
        "retry_after_s",
        Json::uint(retry_s),
    ).put("total_restarts", Json::uint(supervisor.total_restarts())).put(
        "last_restart_reason",
        Json::str(reason_tag_of(supervisor)),
    );
    rpc::error_response(id, SUPERVISOR_MAX_RETRIES_CODE, message.as_str(), Some(data))
}

/// How far a call that was admitted has come.
#[derive(Debug)]
enum Progress {
    /// The child is to be probed.
    Admitted(Slot),
    /// The tool runs.
    Running(Slot),
    /// It was answered, and its slot is given back.
    Answered,
}

/// A call that was admitted, on its way to its answer.
#[derive(Debug)]
pub struct Call {
    id: Json,
    notification: bool,
    name: String,
    args: Json,
    progress: Progress,
}

/// How far a call that was admitted has come.
pub enum Stage {
    Admitted,
    Running,
    Answered,
}

/// What a [`Call`] stands for.
pub struct CallView {
    pub id: JsonView,
    pub notification: bool,
    pub name: Seq<char>,
    pub args: JsonView,
    pub stage: Stage,
}

impl View for Call {
    type V = CallView;

    closed spec fn view(&self) -> CallView {
        CallView {
            id: self.id@,
            notification: self.notification,
            name: self.name@,
            args: self.args@,
            stage: match self.progress {
                Progress::Admitted(_) => Stage::Admitted,
                Progress::Running(_) => Stage::Running,
                Progress::Answered => Stage::Answered,
            },
        }
    }
}

/// Whether a call may go to clangd.
#[derive(Debug)]
pub enum Admission {
    /// It may, and holds a slot until it is answered. The child is probed next.
    Admitted {
        call: Call,
    },
    /// It may not; this is written.
    Refused {
        reply: Option<Json>,
    },
}

/// The refusal of a call, if it is refused, and what it leaves behind.
pub open spec fn admission(id: JsonView, q: QueueView, p: PolicyView, now_ns: u128) -> (
    Option<JsonView>,
    QueueView,
    PolicyView,
) {
    let (taken, free) = queue::acquire_step(q);
    let (after, decision) = supervisor::retry_step(p, now_ns);
    if !free {
        (Some(queue_full_reply(id, q)), q, p)
    } else {
        match decision {
            RetryDecision::Proceed => (None, taken, after),
            RetryDecision::Wait { wait_ns } => (
                Some(backoff_reply(id, after, wait_ns)),
                queue::release_step(taken),
                after,
            ),
            RetryDecision::Fail { retry_after_ns } => (
                Some(given_up_reply(id, after, retry_after_ns)),
                queue::release_step(taken),
                after,
            ),
        }
    }
}

/// Decides whether a call may go to clangd.
pub fn pass_gates(
    id: Json,
    notification: bool,
    name: String,
    args: Json,
    queue: &mut BoundedQueue,
    supervisor: &mut SupervisorPolicy,
    now_ns: u128,
) -> (r: Admission)
    ensures
        final(queue)@ == admission(id@, old(queue)@, old(supervisor)@, now_ns).1,
        final(supervisor)@ == admission(id@, old(queue)@, old(supervisor)@, now_ns).2,
        queue::queue_inv(old(queue)@) ==> queue::queue_inv(final(queue)@),
        match (r, admission(id@, old(queue)@, old(supervisor)@, now_ns).0) {
            (Admission::Admitted { call }, None) => call@ == (CallView {
                id: id@,
                notification,
                name: name@,
                args: args@,
                stage: Stage::Admitted,
            }),
            (Admission::Refused { reply }, Some(refusal)) => json::owned_view(reply) == rpc::reply_to(
                notification,
                refusal,
            ),
            _ => false,
        },
{
    let slot = match queue.try_acquire() {
        Some(slot) => slot,
        None => {
            return Admission::Refused { reply: reply_unless(notification, queue_full(id, queue)) };
        },
    };
    match supervisor.should_retry(now_ns) {
        RetryDecision::Proceed => {
            let progress = Progress::Admitted(slot);
            Admission::Admitted { call: Call { id, notification, name, args, progress } }
        },
        RetryDecision::Wait { wait_ns } => {
            queue.release(slot);
            Admission::Refused {
                reply: reply_unless(notification, backing_off(id, supervisor, wait_ns)),
            }
        },
        RetryDecision::Fail { retry_after_ns } => {
            queue.release(slot);
            Admission::Refused {
                reply: reply_unless(notification, given_up(id, supervisor, retry_after_ns)),
            }
        },
    }
}

/// Why clangd is gone, by the status it exited with.
pub open spec fn exit_reason(status: Option<Seq<char>>) -> ReasonView {
    match status {
        None => ReasonView::WaitFailed { message: "child gone, status unknown"@ },
        Some(s) => match text::stripped_prefix(s, "code="@) {
            Some(rest) => if rest == "?"@ {
                ReasonView::WaitFailed { message: "platform did not provide exit status"@ }
            } else {
                match text::signed_number(rest) {
                    Some(code) => ReasonView::ChildExited { code },
                    None => signal_reason(s),
                }
            },
            None => signal_reason(s),
        },
    }
}

/// Why clangd is gone, by a status that tells no exit code.
pub open spec fn signal_reason(s: Seq<char>) -> ReasonView {
    match text::stripped_prefix(s, "signal="@) {
        Some(rest) => match text::signed_number(rest) {
            Some(signal) => ReasonView::ChildSignaled { signal },
            None => ReasonView::WaitFailed { message: "unparsed exit status "@ + text::quoted(s) },
        },
        None => ReasonView::WaitFailed { message: "unparsed exit status "@ + text::quoted(s) },
    }
}

/// Tells why clangd is gone.
pub fn exit_status_to_reason(status: Option<&str>) -> (r: RestartReason)
    ensures
        r@ == exit_reason(text::opt_str_view(status)),
{
    let s = match status {
        Some(s) => s,
        None => {
            return RestartReason::WaitFailed { message: "child gone, status unknown".to_owned() };
        },
    };
    match text::strip_prefix(s, "code=") {
        Some(rest) => {
            if text::str_eq(rest.as_str(), "?") {
                return RestartReason::WaitFailed {
                    message: "platform did not provide exit status".to_owned(),
                };
            }
            match text::parse_i32(rest.as_str()) {
                Some(code) => {
                    return RestartReason::ChildExited { code };
                },
                None => {},
            }
        },
        None => {},
    }
    match text::strip_prefix(s, "signal=") {
        Some(rest) => match text::parse_i32(rest.as_str()) {
            Some(signal) => {
                return RestartReason::ChildSignaled { signal };
            },
            None => {},
        },
        None => {},
    }
    RestartReason::WaitFailed {
        message: text::concat("unparsed exit status ", text::quote(s).as_str()),
    }
}

/// The supervisor after the child was probed before a dispatch: a child that
/// exited counts as an exit. Where there is no child, nothing exited.
pub open spec fn probed(p: PolicyView, probe: ChildProbe, probe_ns: u64, now_ns: u128) -> PolicyView {
    let timed = after_probe(p, probe_ns);
    match probe {
        ChildProbe::Exited { code, signal } => supervisor::after_exit(
            timed,
            now_ns,
            exit_reason(Some(clangd::exit_status_text(code, signal))),
        ),
        _ => timed,
    }
}

/// Records what a probe before a dispatch found.
pub fn record_probe(
    supervisor: &mut SupervisorPolicy,
    probe: &ChildProbe,
    probe_ns: u64,
    now_ns: u128,
)
    ensures
        final(supervisor)@ == probed(old(supervisor)@, *probe, probe_ns, now_ns),
{
    supervisor.record_try_wait_ns(probe_ns);
    match probe {
        ChildProbe::Exited { code, signal } => {
            let status = clangd::format_exit_status(*code, *signal);
            supervisor.record_exit(exit_status_to_reason(Some(status.as_str())), now_ns);
        },
        _ => {},
    }
}

/// What a tool is asked.
#[derive(Debug)]
pub enum Tool {
    WorkspaceSymbol {
        query: String,
    },
    Definition {
        file: String,
        line: u32,
        column: u32,
    },
    References {
        file: String,
        line: u32,
        column: u32,
    },
    Hover {
        file: String,
        line: u32,
        column: u32,
    },
    BuildFullIndex {
        max_tus: usize,
    },
}

/// What a [`Tool`] stands for.
pub enum ToolView {
    WorkspaceSymbol { query: Seq<char> },
    Definition { file: Seq<char>, line: u32, column: u32 },
    References { file: Seq<char>, line: u32, column: u32 },
    Hover { file: Seq<char>, line: u32, column: u32 },
    BuildFullIndex { max_tus: usize },
}

impl View for Tool {
    type V = ToolView;

    open spec fn view(&self) -> ToolView {
        match self {
            Tool::WorkspaceSymbol { query } => ToolView::WorkspaceSymbol { query: query@ },
            Tool::Definition { file, line, column } => ToolView::Definition {
                file: file@,
                line: *line,
                column: *column,
            },
            Tool::References { file, line, column } => ToolView::References {
                file: file@,
                line: *line,
                column: *column,
            },
            Tool::Hover { file, line, column } => ToolView::Hover {
                file: file@,
                line: *line,
                column: *column,
            },
            Tool::BuildFullIndex { max_tus } => ToolView::BuildFullIndex { max_tus: *max_tus },
        }
    }
}

/// A place that arguments name, or what is wrong with them.
pub open spec fn place_in(args: JsonView) -> Result<(Seq<char>, u32, u32), Seq<char>> {
    match (
        json::member_str(args, "file"@),
        json::member_u64(args, "line"@),
        json::member_u64(args, "column"@),
    ) {
        (None, _, _) => Err("missing `file` (string)"@),
        (_, None, _) => Err("missing `line` (integer)"@),
        (_, _, None) => Err("missing `column` (integer)"@),
        (Some(file), Some(line), Some(column)) => Ok(
            (file, answers::low_word(line), answers::low_word(column)),
        ),
    }
}

/// A number of files cut to the width of a machine word.
pub open spec fn low_usize(n: u64) -> usize {
    if n <= usize::MAX {
        n as usize
    } else {
        (n as int % 0x1_0000_0000) as usize
    }
}

/// How many files arguments ask for, or what is wrong with them.
pub open spec fn files_asked(args: JsonView) -> Result<usize, Seq<char>> {
    let n = match json::member_u64(args, "max_tus"@) {
        Some(n) => low_usize(n),
        None => BUILD_FULL_INDEX_DEFAULT_MAX_TUS,
    };
    if n == 0 {
        Err("build_full_index `max_tus` must be > 0"@)
    } else {
        Ok(n)
    }
}

/// What arguments search for, or what is wrong with them.
pub open spec fn query_in(args: JsonView) -> Result<Seq<char>, Seq<char>> {
    match json::member_str(args, "query"@) {
        None => Err("workspace_symbol requires `query` (string)"@),
        Some(q) => if q.len() == 0 {
            Err("workspace_symbol `query` must not be empty"@)
        } else {
            Ok(q)
        },
    }
}

/// What a call asks: `None` where there is no such tool, and what is wrong with
/// its arguments where something is.
pub open spec fn asked_tool(name: Seq<char>, args: JsonView) -> Option<
    Result<ToolView, Seq<char>>,
> {
    if name == "workspace_symbol"@ {
        Some(
            match query_in(args) {
                Ok(query) => Ok(ToolView::WorkspaceSymbol { query }),
                Err(words) => Err(words),
            },
        )
    } else if name == "definition"@ {
        Some(
            match place_in(args) {
                Ok((file, line, column)) => Ok(ToolView::Definition { file, line, column }),
                Err(words) => Err(words),
            },
        )
    } else if name == "references"@ {
        Some(
            match place_in(args) {
                Ok((file, line, column)) => Ok(ToolView::References { file, line, column }),
                Err(words) => Err(words),
            },
        )
    } else if name == "hover"@ {
        Some(
            match place_in(args) {
                Ok((file, line, column)) => Ok(ToolView::Hover { file, line, column }),
                Err(words) => Err(words),
            },
        )
    } else if name == "build_full_index"@ {
        Some(
            match files_asked(args) {
                Ok(max_tus) => Ok(ToolView::BuildFullIndex { max_tus }),
                Err(words) => Err(words),
            },
        )
    } else {
        None
    }
}

fn read_query(args: &Json) -> (r: Result<String, ShimError>)
    ensures
        match (r, query_in(args@)) {
            (Ok(q), Ok(v)) => q@ == v,
            (Err(e), Err(words)) => e@ == ShimErrorView::Protocol(words),
            _ => false,
        },
{
    match args.get_str("query") {
        None => Err(ShimError::protocol("workspace_symbol requires `query` (string)")),
        Some(q) => if q.is_empty() {
            Err(ShimError::protocol("workspace_symbol `query` must not be empty"))
        } else {
            Ok(q.to_owned())
        },
    }
}

fn read_place(args: &Json) -> (r: Result<(String, u32, u32), ShimError>)
    ensures
        match (r, place_in(args@)) {
            (Ok((file, line, column)), Ok(v)) => (file@, line, column) == v,
            (Err(e), Err(words)) => e@ == ShimErrorView::Protocol(words),
            _ => false,
        },
{
    let file = match args.get_str("file") {
        Some(f) => f,
        None => {
            return Err(ShimError::protocol("missing `file` (string)"));
        },
    };
    let line: u64 = match args.get_u64("line") {
        Some(n) => n,
        None => {
            return Err(ShimError::protocol("missing `line` (integer)"));
        },
    };
    let column: u64 = match args.get_u64("column") {
        Some(n) => n,
        None => {
            return Err(ShimError::protocol("missing `column` (integer)"));
        },
    };
    Ok((file.to_owned(), answers::cut_to_u32(line), answers::cut_to_u32(column)))
}

fn read_max_tus(args: &Json) -> (r: Result<usize, ShimError>)
    ensures
        match (r, files_asked(args@)) {
            (Ok(n), Ok(v)) => n == v,
            (Err(e), Err(words)) => e@ == ShimErrorView::Protocol(words),
            _ => false,
        },
{
    let n: usize = match args.get_u64("max_tus") {
        Some(n) => if n <= usize::MAX as u64 {
            n as usize
        } else {
            (n % 0x1_0000_0000) as usize
        },
        None => BUILD_FULL_INDEX_DEFAULT_MAX_TUS,
    };
    if n == 0 {
        Err(ShimError::protocol("build_full_index `max_tus` must be > 0"))
    } else {
        Ok(n)
    }
}

/// Reads what a call asks. `None` where there is no such tool.
pub fn read_call(name: &str, args: &Json) -> (r: Option<Result<Tool, ShimError>>)
    ensures
        match (r, asked_tool(name@, args@)) {
            (None, None) => true,
            (Some(Ok(t)), Some(Ok(v))) => t@ == v,
            (Some(Err(e)), Some(Err(words))) => e@ == ShimErrorView::Protocol(words),
            _ => false,
        },
{
    if text::str_eq(name, "workspace_symbol") {
        match read_query(args) {
            Ok(query) => Some(Ok(Tool::WorkspaceSymbol { query })),
            Err(e) => Some(Err(e)),
        }
    } else if text::str_eq(name, "definition") {
        match read_place(args) {
            Ok((file, line, column)) => Some(Ok(Tool::Definition { file, line, column })),
            Err(e) => Some(Err(e)),
        }
    } else if text::str_eq(name, "references") {
        match read_place(args) {
            Ok((file, line, column)) => Some(Ok(Tool::References { file, line, column })),
            Err(e) => Some(Err(e)),
        }
    } else if text::str_eq(name, "hover") {
        match read_place(args) {
            Ok((file, line, column)) => Some(Ok(Tool::Hover { file, line, column })),
            Err(e) => Some(Err(e)),
        }
    } else if text::str_eq(name, "build_full_index") {
        match read_max_tus(args) {
            Ok(max_tus) => Some(Ok(Tool::BuildFullIndex { max_tus })),
            Err(e) => Some(Err(e)),
        }
    } else {
        None
    }
}

/// Whether a failure means that clangd is gone, and why. A timeout does not: a
/// clangd that is alive but slow is left alone.
pub open spec fn fatal_reason(e: ShimErrorView) -> Option<ReasonView> {
    match e {
        ShimErrorView::Io(io) => if io.kind == IoErrorKind::BrokenPipe || io.kind
            == IoErrorKind::UnexpectedEof || io.kind == IoErrorKind::ConnectionAborted || io.kind
            == IoErrorKind::ConnectionReset {
            Some(ReasonView::BrokenPipe)
        } else {
            None
        },
        ShimErrorView::ClangdExited { status, .. } => Some(exit_reason(Some(status))),
        _ => None,
    }
}

/// The view of an optional reason.
pub open spec fn opt_reason(r: Option<RestartReason>) -> Option<ReasonView> {
    match r {
        Some(r) => Some(r@),
        None => None,
    }
}

/// Tells whether a failure means that clangd is gone.
pub fn classify_request_error(e: &ShimError) -> (r: Option<RestartReason>)
    ensures
        opt_reason(r) == fatal_reason(e@),
{
    match e {
        ShimError::Io(io) => {
            if io.kind == IoErrorKind::BrokenPipe || io.kind == IoErrorKind::UnexpectedEof
                || io.kind == IoErrorKind::ConnectionAborted || io.kind
                == IoErrorKind::ConnectionReset {
                Some(RestartReason::BrokenPipe)
            } else {
                None
            }
        },
        ShimError::ClangdExited { status, .. } => Some(
            exit_status_to_reason(Some(status.as_str())),
        ),
        _ => None,
    }
}

/// The supervisor after a dispatch: a success proves clangd alive, a failure
/// that means it is gone counts as an exit, any other changes nothing.
pub open spec fn after_dispatch(
    p: PolicyView,
    result: Result<JsonView, ShimErrorView>,
    now_ns: u128,
) -> PolicyView {
    match result {
        Ok(_) => supervisor::after_spawn(p, now_ns),
        Err(e) => match fatal_reason(e) {
            Some(reason) => supervisor::after_exit(p, now_ns, reason),
            None => p,
        },
    }
}

/// Records the outcome of a dispatch.
pub fn record_dispatch_outcome(
    supervisor: &mut SupervisorPolicy,
    result: &Result<Json, ShimError>,
    now_ns: u128,
)
    ensures
        final(supervisor)@ == after_dispatch(
            old(supervisor)@,
            exchange::json_outcome(*result),
            now_ns,
        ),
{
    match result {
        Ok(_) => supervisor.record_spawn(now_ns),
        Err(e) => {
            match classify_request_error(e) {
                Some(reason) => supervisor.record_exit(reason, now_ns),
                None => {},
            }
        },
    }
}

/// The reply to a call that was dispatched.
pub open spec fn tool_reply(id: JsonView, result: Result<JsonView, ShimErrorView>) -> JsonView {
    match result {
        Ok(payload) => rpc::success_reply(id, rpc::tool_result(payload)),
        Err(e) => rpc::error_reply(
            id,
            code::INTERNAL_ERROR,
            error::error_text(e),
            Some(rpc::kind_data(error::error_tag(e))),
        ),
    }
}

/// Answers a call that was dispatched, and gives its slot back.
pub fn finish_call(
    id: Json,
    notification: bool,
    slot: Slot,
    result: Result<Json, ShimError>,
    queue: &mut BoundedQueue,
    supervisor: &mut SupervisorPolicy,
    now_ns: u128,
) -> (r: Option<Json>)
    ensures
        final(queue)@ == queue::release_step(old(queue)@),
        queue::queue_inv(old(queue)@) ==> queue::queue_inv(final(queue)@),
        final(supervisor)@ == after_dispatch(
            old(supervisor)@,
            exchange::json_outcome(result),
            now_ns,
        ),
        json::owned_view(r) == rpc::reply_to(
            notification,
            tool_reply(id@, exchange::json_outcome(result)),
        ),
{
    record_dispatch_outcome(supervisor, &result, now_ns);
    queue.release(slot);
    let reply = match result {
        Ok(payload) => rpc::success_response(id, rpc::tool_content(&payload)),
        Err(e) => {
            let message = e.message();
            let data = rpc::error_kind_data(e.error_kind());
            rpc::error_response(id, code::INTERNAL_ERROR, message.as_str(), Some(data))
        },
    };
    reply_unless(notification, reply)
}

/// Answers a call of a tool that there is not, and gives its slot back.
pub fn finish_unknown(
    id: Json,
    notification: bool,
    name: &str,
    slot: Slot,
    queue: &mut BoundedQueue,
) -> (r: Option<Json>)
    ensures
        final(queue)@ == queue::release_step(old(queue)@),
        queue::queue_inv(old(queue)@) ==> queue::queue_inv(final(queue)@),
        json::owned_view(r) == rpc::reply_to(notification, rpc::unknown_tool_reply(id@, name@)),
{
    queue.release(slot);
    reply_unless(notification, rpc::unknown_tool(id, name))
}

/// What happens to a call that was admitted.
#[derive(Debug)]
pub enum CallEvent {
    /// The child was probed.
    Probed {
        probe: ChildProbe,
        probe_ns: u64,
        now_ns: u128,
    },
    /// The tool ran.
    Ran {
        result: Result<Json, ShimError>,
        now_ns: u128,
    },
}

/// What a [`CallEvent`] stands for.
pub enum CallEventView {
    Probed { probe: ChildProbe, probe_ns: u64, now_ns: u128 },
    Ran { result: Result<JsonView, ShimErrorView>, now_ns: u128 },
}

impl View for CallEvent {
    type V = CallEventView;

    open spec fn view(&self) -> CallEventView {
        match self {
            CallEvent::Probed { probe, probe_ns, now_ns } => CallEventView::Probed {
                probe: *probe,
                probe_ns: *probe_ns,
                now_ns: *now_ns,
            },
            CallEvent::Ran { result, now_ns } => CallEventView::Ran {
                result: exchange::json_outcome(*result),
                now_ns: *now_ns,
            },
        }
    }
}

/// What is done about a call that was admitted.
#[derive(Debug)]
pub enum CallAction {
    /// The tool is run.
    Run {
        tool: Tool,
    },
    /// The call is over, and this is written.
    Finish {
        reply: Option<Json>,
    },
    /// Nothing: the event was not due.
    Ignore,
}

/// What a [`CallAction`] stands for.
pub enum CallActionView {
    Run { tool: ToolView },
    Finish { reply: Option<JsonView> },
    Ignore,
}

impl View for CallAction {
    type V = CallActionView;

    open spec fn view(&self) -> CallActionView {
        match self {
            CallAction::Run { tool } => CallActionView::Run { tool: tool@ },
            CallAction::Finish { reply } => CallActionView::Finish {
                reply: json::owned_view(*reply),
            },
            CallAction::Ignore => CallActionView::Ignore,
        }
    }
}

/// The server around one call that was admitted.
pub struct CallState {
    pub call: CallView,
    pub queue: QueueView,
    pub policy: PolicyView,
}

/// The server once the call is answered.
pub open spec fn answered(s: CallState, policy: PolicyView) -> CallState {
    CallState {
        call: CallView { stage: Stage::Answered, ..s.call },
        queue: queue::release_step(s.queue),
        policy,
    }
}

/// What an event leads to: first the child is probed, and the probe recorded;
/// a call that makes sense is run; then it is answered, its outcome is recorded
/// and its slot given back.
pub open spec fn event_step(s: CallState, event: CallEventView) -> (CallState, CallActionView) {
    match (s.call.stage, event) {
        (Stage::Admitted, CallEventView::Probed { probe, probe_ns, now_ns }) => {
            let policy = probed(s.policy, probe, probe_ns, now_ns);
            match asked_tool(s.call.name, s.call.args) {
                None => (
                    answered(s, policy),
                    CallActionView::Finish {
                        reply: rpc::reply_to(
                            s.call.notification,
                            rpc::unknown_tool_reply(s.call.id, s.call.name),
                        ),
                    },
                ),
                Some(Err(words)) => (
                    answered(s, policy),
                    CallActionView::Finish {
                        reply: rpc::reply_to(
                            s.call.notification,
                            tool_reply(s.call.id, Err(ShimErrorView::Protocol(words))),
                        ),
                    },
                ),
                Some(Ok(tool)) => (
                    CallState {
                        call: CallView { stage: Stage::Running, ..s.call },
                        policy,
                        ..s
                    },
                    CallActionView::Run { tool },
                ),
            }
        },
        (Stage::Running, CallEventView::Ran { result, now_ns }) => (
            answered(s, after_dispatch(s.policy, result, now_ns)),
            CallActionView::Finish {
                reply: rpc::reply_to(s.call.notification, tool_reply(s.call.id, result)),
            },
        ),
        _ => (s, CallActionView::Ignore),
    }
}

impl Call {
    /// Takes in what happened to the call, and tells what is done about it.
    pub fn step(
        self,
        event: CallEvent,
        queue: &mut BoundedQueue,
        supervisor: &mut SupervisorPolicy,
    ) -> (r: (Call, CallAction))
        ensures
            event_step(
                CallState { call: self@, queue: old(queue)@, policy: old(supervisor)@ },
                event@,
            ) == (
                CallState { call: r.0@, queue: final(queue)@, policy: final(supervisor)@ },
                r.1@,
            ),
            queue::queue_inv(old(queue)@) ==> queue::queue_inv(final(queue)@),
    {
        let Call { id, notification, name, args, progress } = self;
        match (progress, event) {
            (Progress::Admitted(slot), CallEvent::Probed { probe, probe_ns, now_ns }) => {
                record_probe(supervisor, &probe, probe_ns, now_ns);
                match read_call(name.as_str(), &args) {
                    None => {
                        let reply = finish_unknown(
                            id.clone(),
                            notification,
                            name.as_str(),
                            slot,
                            queue,
                        );
                        let progress = Progress::Answered;
                        (Call { id, notification, name, args, progress }, CallAction::Finish { reply })
                    },
                    Some(Err(e)) => {
                        let reply = finish_call(
                            id.clone(),
                            notification,
                            slot,
                            Err(e),
                            queue,
                            supervisor,
                            now_ns,
                        );
                        let progress = Progress::Answered;
                        (Call { id, notification, name, args, progress }, CallAction::Finish { reply })
                    },
                    Some(Ok(tool)) => {
                        let progress = Progress::Running(slot);
                        (Call { id, notification, name, args, progress }, CallAction::Run { tool })
                    },
                }
            },
            (Progress::Running(slot), CallEvent::Ran { result, now_ns }) => {
                let reply = finish_call(
                    id.clone(),
                    notification,
                    slot,
                    result,
                    queue,
                    supervisor,
                    now_ns,
                );
                let progress = Progress::Answered;
                (Call { id, notification, name, args, progress }, CallAction::Finish { reply })
            },
            (progress, _) => (Call { id, notification, name, args, progress }, CallAction::Ignore),
        }
    }
}

/// The server after some events.
pub open spec fn after_events(s: CallState, events: Seq<CallEventView>) -> CallState
    decreases events.len(),
{
    if events.len() == 0 {
        s
    } else {
        event_step(after_events(s, events.drop_last()), events.last()).0
    }
}

/// What the last of some events leads to.
pub open spec fn last_action(s: CallState, events: Seq<CallEventView>) -> CallActionView {
    event_step(after_events(s, events.drop_last()), events.last()).1
}

/// How often some events finish a call.
pub open spec fn finishes(s: CallState, events: Seq<CallEventView>) -> nat
    decreases events.len(),
{
    if events.len() == 0 {
        0
    } else {
        finishes(s, events.drop_last()) + if last_action(s, events) is Finish {
            1nat
        } else {
            0nat
        }
    }
}

/// How often some events run the tool of a call.
pub open spec fn runs(s: CallState, events: Seq<CallEventView>) -> nat
    decreases events.len(),
{
    if events.len() == 0 {
        0
    } else {
        runs(s, events.drop_last()) + if last_action(s, events) is Run {
            1nat
        } else {
            0nat
        }
    }
}

/// Whatever happens to a call that was admitted, in whatever order: its tool is
/// run at most once and only in answer to a probe of the child, it is finished
/// at most once, and its slot is given back exactly when it is finished.
pub proof fn law_call_is_finished_once(s: CallState, events: Seq<CallEventView>)
    requires
        s.call.stage is Admitted,
    ensures
        runs(s, events) <= 1,
        finishes(s, events) <= 1,
        after_events(s, events).call.stage is Admitted <==> finishes(s, events) == 0 && runs(
            s,
            events,
        ) == 0,
        after_events(s, events).call.stage is Answered <==> finishes(s, events) == 1,
        after_events(s, events).queue == if finishes(s, events) == 1 {
            queue::release_step(s.queue)
        } else {
            s.queue
        },
        events.len() > 0 && last_action(s, events) is Run ==> events.last() is Probed,
        events.len() > 0 && last_action(s, events) is Finish ==> events.last() is Probed || runs(
            s,
            events,
        ) == 1,
    decreases events.len(),
{
    if events.len() > 0 {
        law_call_is_finished_once(s, events.drop_last());
    }
}

/// One probe, and one run of the tool where there is something to run, finish a
/// call that was admitted: nothing else is waited for.
pub proof fn law_admitted_call_is_answered(
    s: CallState,
    probe: ChildProbe,
    probe_ns: u64,
    probed_ns: u128,
    result: Result<JsonView, ShimErrorView>,
    ran_ns: u128,
)
    requires
        s.call.stage is Admitted,
    ensures
        ({
            let events = seq![
                CallEventView::Probed { probe, probe_ns, now_ns: probed_ns },
                CallEventView::Ran { result, now_ns: ran_ns },
            ];
            &&& finishes(s, events) == 1
            &&& after_events(s, events).call.stage is Answered
            &&& after_events(s, events).queue == queue::release_step(s.queue)
        }),
{
    let events = seq![
        CallEventView::Probed { probe, probe_ns, now_ns: probed_ns },
        CallEventView::Ran { result, now_ns: ran_ns },
    ];
    assert(events.drop_last() =~= seq![events[0]]);
    assert(events.drop_last().drop_last() =~= Seq::empty());
    reveal_with_fuel(after_events, 3);
    reveal_with_fuel(finishes, 3);
}

/// The supervisor counts an exit before a dispatch exactly where a child
/// exited. In particular the first call of a session, before which there was no
/// child, leaves the count and the state as they are.
pub proof fn law_only_a_child_can_exit(
    p: PolicyView,
    probe: ChildProbe,
    probe_ns: u64,
    now_ns: u128,
)
    ensures
        probe is Exited ==> probed(p, probe, probe_ns, now_ns).total_restarts
            == p.total_restarts.wrapping_add(1),
        !(probe is Exited) ==> probed(p, probe, probe_ns, now_ns) == after_probe(p, probe_ns),
        probe is NoChild ==> probed(p, probe, probe_ns, now_ns).state == p.state && probed(
            p,
            probe,
            probe_ns,
            now_ns,
        ).total_restarts == p.total_restarts,
{
}

/// A call for the status is never gated: it is answered by its step alone,
/// which looks neither at the queue nor at the supervisor.
pub proof fn law_status_goes_around_the_gates(id: JsonView, notification: bool, params: JsonView)
    requires
        rpc::called_tool(params) == Some("lsp_cpp_status"@),
    ensures
        call_step(id, notification, params) == (StepView::Status { id, notification }),
{
}

/// The handshake, the list of tools and the end of the backend are never
/// gated: no call comes of them.
pub proof fn law_handshake_goes_around_the_gates(asks: IncomingView)
    requires
        !(asks is ToolsCall),
    ensures
        !(line_step(asks) is Call),
        asks is Initialize || asks is ToolsList ==> line_step(asks) is Reply,
{
}

/// A call that is refused leaves the queue as it was, and one that is admitted
/// leaves it as it was once it has been answered: no slot leaks.
pub proof fn law_no_slot_leaks(id: JsonView, q: QueueView, p: PolicyView, now_ns: u128)
    requires
        queue::queue_inv(q),
    ensures
        ({
            let (refusal, after, _) = admission(id, q, p, now_ns);
            if refusal is Some {
                after == q
            } else {
                after.in_flight == q.in_flight + 1 && queue::release_step(after) == q
            }
        }),
{
}

/// A full queue sheds load before the supervisor is asked, and the supervisor
/// refuses exactly while it waits or has given up.
pub proof fn law_gates_in_order(id: JsonView, q: QueueView, p: PolicyView, now_ns: u128)
    ensures
        q.in_flight >= q.capacity ==> admission(id, q, p, now_ns) == (
            Some(queue_full_reply(id, q)),
            q,
            p,
        ),
        q.in_flight < q.capacity ==> (admission(id, q, p, now_ns).0 is None <==>
            supervisor::retry_step(p, now_ns).1 is Proceed),
{
}

/// A success takes the supervisor to `Running` from every state, so the next
/// call is not refused; in particular a backoff ends with the first success.
pub proof fn law_success_ends_backoff(
    p: PolicyView,
    payload: JsonView,
    now_ns: u128,
    later_ns: u128,
)
    ensures
        after_dispatch(p, Ok(payload), now_ns).state is Running,
        supervisor::retry_step(after_dispatch(p, Ok(payload), now_ns), later_ns).1 is Proceed,
{
}

/// A clangd that is alive but slow never counts as an exit, and neither do bad
/// arguments; a broken pipe, an end of stream and a seen exit always do.
pub proof fn law_only_death_counts(p: PolicyView, e: ShimErrorView, now_ns: u128)
    ensures
        e is RequestTimeout || e is ClangdBusy || e is InitializeTimeout || e is Protocol
            ==> after_dispatch(p, Err(e), now_ns) == p,
        e is ClangdExited ==> after_dispatch(p, Err(e), now_ns).total_restarts
            == p.total_restarts.wrapping_add(1),
        (e matches ShimErrorView::Io(io) && (io.kind == IoErrorKind::BrokenPipe || io.kind
            == IoErrorKind::UnexpectedEof)) ==> after_dispatch(p, Err(e), now_ns).last_reason
            == Some(ReasonView::BrokenPipe),
{
}

/// The status that a child exited with, put in words, tells the reason again:
/// an exit code, a signal, or that there was neither.
pub proof fn law_exit_status_tells_the_reason(code: i32, signal: i32)
    ensures
        exit_reason(Some(clangd::exit_status_text(Some(code), None))) == (ReasonView::ChildExited {
            code,
        }),
        exit_reason(Some(clangd::exit_status_text(None, Some(signal)))) == (
        ReasonView::ChildSignaled { signal }),
        exit_reason(Some(clangd::exit_status_text(None, None))) == (ReasonView::WaitFailed {
            message: "platform did not provide exit status"@,
        }),
{
    reveal_strlit("code=");
    reveal_strlit("signal=");
    reveal_strlit("code=?");
    reveal_strlit("?");
    text::lemma_strip_prefix("code="@, text::dec_int(code as int));
    text::lemma_strip_prefix("signal="@, text::dec_int(signal as int));
    text::lemma_strip_prefix("code="@, "?"@);
    text::lemma_signed_dec(code);
    text::lemma_signed_dec(signal);
    assert(text::dec_int(code as int) != "?"@) by {
        if text::dec_int(code as int) == "?"@ {
            assert(text::signed_number("?"@) == Some(code));
            assert("?"@.drop_last() =~= Seq::empty());
            reveal_with_fuel(text::digits_value, 2);
        }
    }
    let killed = clangd::exit_status_text(None, Some(signal));
    assert(killed[0] == 's');
    assert(text::stripped_prefix(killed, "code="@) is None) by {
        assert(killed.subrange(0, 5)[0] == 's');
    }
    assert("code=?"@ =~= "code="@ + "?"@);
}

/// Whether arguments name a place.
pub open spec fn names_place(args: JsonView, file: Seq<char>, line: u32, column: u32) -> bool {
    &&& json::json_get(args, "file"@) == Some(JsonView::Str(file))
    &&& json::json_get(args, "line"@) == Some(json::json_int(line as int))
    &&& json::json_get(args, "column"@) == Some(json::json_int(column as int))
}


/// The names of the tools are all different.
proof fn lemma_tool_names()
    ensures
        "workspace_symbol"@ != "definition"@,
        "workspace_symbol"@ != "references"@,
        "workspace_symbol"@ != "hover"@,
        "workspace_symbol"@ != "build_full_index"@,
        "definition"@ != "references"@,
        "definition"@ != "hover"@,
        "definition"@ != "build_full_index"@,
        "references"@ != "hover"@,
        "references"@ != "build_full_index"@,
        "hover"@ != "build_full_index"@,
{
    reveal_strlit("workspace_symbol");
    reveal_strlit("definition");
    reveal_strlit("references");
    reveal_strlit("hover");
    reveal_strlit("build_full_index");
    assert("workspace_symbol"@.len() == 16 && "definition"@.len() == 10);
    assert("references"@.len() == 10 && "hover"@.len() == 5 && "build_full_index"@.len() == 16);
    assert("workspace_symbol"@[0] != "build_full_index"@[0]);
    assert("definition"@[0] != "references"@[0]);
}

/// A call asks for the tool that it names, with the file, line and column that it
/// gives, as they are.
pub proof fn law_call_asks_about_its_place(args: JsonView, file: Seq<char>, line: u32, column: u32)
    requires
        names_place(args, file, line, column),
    ensures
        asked_tool("definition"@, args) == Some(
            Ok::<ToolView, Seq<char>>(ToolView::Definition { file, line, column }),
        ),
        asked_tool("references"@, args) == Some(
            Ok::<ToolView, Seq<char>>(ToolView::References { file, line, column }),
        ),
        asked_tool("hover"@, args) == Some(
            Ok::<ToolView, Seq<char>>(ToolView::Hover { file, line, column }),
        ),
{
    lemma_tool_names();
    assert(line as int % 0x1_0000_0000 == line);
    assert(column as int % 0x1_0000_0000 == column);
}

/// A call about a place that lacks its file, its line or its column is told so.
pub proof fn law_call_needs_its_place(name: Seq<char>, args: JsonView)
    requires
        name == "definition"@ || name == "references"@ || name == "hover"@,
        !(json::json_get(args, "file"@) matches Some(JsonView::Str(_))) || json::member_u64(
            args,
            "line"@,
        ) is None || json::member_u64(args, "column"@) is None,
    ensures
        asked_tool(name, args) matches Some(Err(_)),
{
    lemma_tool_names();
}

/// A search asks for its query, which must not be empty; filling the index takes
/// the number of files that is asked for, which must not be zero, and five
/// thousand where none is; and there are no other tools.
pub proof fn law_call_asks_for_what_it_names(args: JsonView, query: Seq<char>, n: usize, name: Seq<char>)
    ensures
        json::json_get(args, "query"@) == Some(JsonView::Str(query)) && query.len() > 0
            ==> asked_tool("workspace_symbol"@, args) == Some(
            Ok::<ToolView, Seq<char>>(ToolView::WorkspaceSymbol { query }),
        ),
        json::json_get(args, "query"@) == Some(JsonView::Str(Seq::empty())) ==> (asked_tool(
            "workspace_symbol"@,
            args,
        ) matches Some(Err(_))),
        !(json::json_get(args, "query"@) matches Some(JsonView::Str(_))) ==> (asked_tool(
            "workspace_symbol"@,
            args,
        ) matches Some(Err(_))),
        json::json_get(args, "max_tus"@) == Some(json::json_int(n as int)) && n > 0 && n
            <= u64::MAX ==> asked_tool("build_full_index"@, args) == Some(
            Ok::<ToolView, Seq<char>>(ToolView::BuildFullIndex { max_tus: n }),
        ),
        json::json_get(args, "max_tus"@) == Some(json::json_int(0)) ==> (asked_tool(
            "build_full_index"@,
            args,
        ) matches Some(Err(_))),
        json::json_get(args, "max_tus"@) is None ==> asked_tool("build_full_index"@, args) == Some(
            Ok::<ToolView, Seq<char>>(ToolView::BuildFullIndex { max_tus: 5000 }),
        ),
        name != "definition"@ && name != "references"@ && name != "hover"@ && name
            != "workspace_symbol"@ && name != "build_full_index"@ ==> asked_tool(name, args) is None,
{
    lemma_tool_names();
}

/// A call of a tool goes to its tool with its arguments as they are, and the
/// status goes its own way.
pub proof fn law_call_carries_its_arguments(
    id: JsonView,
    notification: bool,
    params: JsonView,
    name: Seq<char>,
    args: JsonView,
)
    requires
        json::json_get(params, "name"@) == Some(JsonView::Str(name)),
    ensures
        name != "lsp_cpp_status"@ && json::json_get(params, "arguments"@) == Some(args)
            ==> call_step(id, notification, params) == (StepView::Call {
            id,
            notification,
            name,
            args,
        }),
        name == "lsp_cpp_status"@ ==> call_step(id, notification, params) == (StepView::Status {
            id,
            notification,
        }),
        line_step(IncomingView::ToolsCall { id, notification, params }) == call_step(
            id,
            notification,
            params,
        ),
{
}

/// A call that was admitted runs the tool that it asks for, with the place that
/// it names, and is answered with what came of it, under its own number: the
/// payload as text, or the failure in words and by its tag.
pub proof fn law_call_is_answered_with_its_outcome(
    s: CallState,
    probe: ChildProbe,
    probe_ns: u64,
    probed_ns: u128,
    tool: ToolView,
    result: Result<JsonView, ShimErrorView>,
    ran_ns: u128,
)
    requires
        s.call.stage is Admitted,
        !s.call.notification,
        asked_tool(s.call.name, s.call.args) == Some(Ok::<ToolView, Seq<char>>(tool)),
    ensures
        ({
            let (running, run) = event_step(
                s,
                CallEventView::Probed { probe, probe_ns, now_ns: probed_ns },
            );
            let (done, finish) = event_step(running, CallEventView::Ran { result, now_ns: ran_ns });
            &&& run == (CallActionView::Run { tool })
            &&& finish is Finish
            &&& finish->reply is Some
            &&& json::json_get(finish->reply->0, "id"@) == Some(s.call.id)
            &&& result is Ok ==> {
                &&& json::json_get(finish->reply->0, "error"@) is None
                &&& json::json_get(finish->reply->0, "result"@) == Some(
                    rpc::tool_result(result->Ok_0),
                )
            }
            &&& result is Err ==> {
                let e = json::json_get(finish->reply->0, "error"@)->0;
                &&& json::json_get(finish->reply->0, "result"@) is None
                &&& json::json_get(finish->reply->0, "error"@) is Some
                &&& json::member_str(e, "message"@) == Some(error::error_text(result->Err_0))
                &&& json::member_str(json::json_get(e, "data"@)->0, "error_kind"@) == Some(
                    error::error_tag(result->Err_0),
                )
                &&& json::json_get(e, "code"@) == Some(json::json_int(-32603))
            }
        }),
{
    match result {
        Ok(payload) => {
            rpc::law_reply_is_one_or_the_other(
                s.call.id,
                rpc::tool_result(payload),
                code::INTERNAL_ERROR,
                Seq::empty(),
                None,
            );
        },
        Err(e) => {
            rpc::law_reply_is_one_or_the_other(
                s.call.id,
                JsonView::Null,
                code::INTERNAL_ERROR,
                error::error_text(e),
                Some(rpc::kind_data(error::error_tag(e))),
            );
        },
    }
}

/// A call of a tool that there is not, or with arguments that make no sense, is
/// answered with an error under its own number, and nothing is run.
pub proof fn law_senseless_call_is_answered(s: CallState, probe: ChildProbe, probe_ns: u64, now_ns: u128)
    requires
        s.call.stage is Admitted,
        !s.call.notification,
        !(asked_tool(s.call.name, s.call.args) matches Some(Ok(_))),
    ensures
        ({
            let (done, finish) = event_step(s, CallEventView::Probed { probe, probe_ns, now_ns });
            &&& finish is Finish
            &&& finish->reply is Some
            &&& json::json_get(finish->reply->0, "id"@) == Some(s.call.id)
            &&& json::json_get(finish->reply->0, "error"@) is Some
            &&& json::json_get(finish->reply->0, "result"@) is None
        }),
{
    match asked_tool(s.call.name, s.call.args) {
        Some(Err(words)) => {
            let e = ShimErrorView::Protocol(words);
            rpc::law_reply_is_one_or_the_other(
                s.call.id,
                JsonView::Null,
                code::INTERNAL_ERROR,
                error::error_text(e),
                Some(rpc::kind_data(error::error_tag(e))),
            );
        },
        _ => {
            rpc::law_reply_is_one_or_the_other(
                s.call.id,
                JsonView::Null,
                code::METHOD_NOT_FOUND,
                "unknown tool: "@ + s.call.name,
                Some(rpc::kind_data("unknown_tool"@)),
            );
        },
    }
}

/// A call that is refused is told why, under its own number: that the queue is
/// full, that clangd restarts, or that the supervisor has given up.
pub proof fn law_refusals_are_told(id: JsonView, q: QueueView, p: PolicyView, now_ns: u128)
    requires
        admission(id, q, p, now_ns).0 is Some,
    ensures
        ({
            let reply = admission(id, q, p, now_ns).0->0;
            let e = json::json_get(reply, "error"@)->0;
            let kind = json::member_str(json::json_get(e, "data"@)->0, "error_kind"@);
            let decision = supervisor::retry_step(p, now_ns).1;
            &&& json::json_get(reply, "id"@) == Some(id)
            &&& json::json_get(reply, "result"@) is None
            &&& q.in_flight >= q.capacity ==> kind == Some("queue_depth_exceeded"@)
            &&& q.in_flight < q.capacity && decision is Wait ==> kind == Some(
                "supervisor_backoff"@,
            ) && json::member_u64(json::json_get(e, "data"@)->0, "retry_after_s"@) == Some(
                (decision->wait_ns / 1_000_000_000) as u64,
            )
            &&& q.in_flight < q.capacity && decision is Fail ==> kind == Some(
                "supervisor_max_retries"@,
            ) && json::member_u64(json::json_get(e, "data"@)->0, "retry_after_s"@) == Some(
                (decision->retry_after_ns / 1_000_000_000) as u64,
            )
        }),
{
    let (after, decision) = supervisor::retry_step(p, now_ns);
    reveal_strlit("error_kind");
    reveal_strlit("in_flight");
    reveal_strlit("capacity");
    reveal_strlit("retry_after_s");
    reveal_strlit("supervisor_state");
    reveal_strlit("total_restarts");
    reveal_strlit("last_restart_reason");
    assert("error_kind"@.len() == 10 && "in_flight"@.len() == 9 && "capacity"@.len() == 8);
    assert("retry_after_s"@.len() == 13 && "supervisor_state"@.len() == 16);
    assert("total_restarts"@.len() == 14 && "last_restart_reason"@.len() == 19);
    let reply = admission(id, q, p, now_ns).0->0;
    let body = json::json_get(reply, "error"@)->0;
    reveal_strlit("jsonrpc");
    reveal_strlit("id");
    reveal_strlit("error");
    reveal_strlit("result");
    reveal_strlit("code");
    reveal_strlit("message");
    reveal_strlit("data");
    assert("jsonrpc"@.len() == 7 && "id"@.len() == 2 && "error"@.len() == 5);
    assert("result"@.len() == 6 && "code"@.len() == 4 && "message"@.len() == 7);
    assert("data"@.len() == 4 && "code"@[0] != "data"@[0]);
}

/// The status tells what is: the process, whether it is alive, for how long it
/// has been in its state, how often and why it was restarted, and how full the
/// queue is.
pub proof fn law_status_tells_what_is(
    pid: Option<u32>,
    status: Option<Seq<char>>,
    q: QueueView,
    p: PolicyView,
    alive: Result<bool, IoErrorView>,
    now_ns: u128,
)
    ensures
        ({
            let v = status_payload(pid, status, q, p, alive, now_ns);
            &&& pid is Some ==> json::json_get(v, "clangd_pid"@) == Some(
                json::json_int(pid->0 as int),
            )
            &&& pid is None ==> json::json_get(v, "clangd_pid"@) == Some(JsonView::Null)
            &&& json::json_get(v, "alive"@) == Some(
                JsonView::Bool(alive == Ok::<bool, IoErrorView>(true)),
            )
            &&& json::json_get(v, "uptime_s"@) == Some(
                json::json_int((supervisor::uptime(p, now_ns) / 1_000_000_000) as int),
            )
            &&& json::json_get(v, "restart_count"@) == Some(json::json_int(p.total_restarts as int))
            &&& p.last_reason is Some ==> json::json_get(v, "last_restart_reason"@) == Some(
                JsonView::Str(supervisor::reason_tag(p.last_reason->0)),
            )
            &&& p.last_reason is None ==> json::json_get(v, "last_restart_reason"@) == Some(
                JsonView::Str("none"@),
            )
            &&& status is Some ==> json::json_get(v, "last_exit_status"@) == Some(
                JsonView::Str(status->0),
            )
            &&& status is None ==> json::json_get(v, "last_exit_status"@) == Some(JsonView::Null)
            &&& json::json_get(v, "supervisor_state"@) == Some(
                JsonView::Str(
                    match p.state {
                        SupervisorState::Stopped => "stopped"@,
                        SupervisorState::Running => "running"@,
                        SupervisorState::Backoff { .. } => "backoff"@,
                        SupervisorState::Failed => "failed"@,
                    },
                ),
            )
            &&& json::json_get(v, "queue_in_flight"@) == Some(json::json_int(q.in_flight as int))
            &&& json::json_get(v, "queue_capacity"@) == Some(json::json_int(q.capacity as int))
            &&& json::json_get(v, "try_wait_total_ns"@) == Some(json::json_int(p.probe_ns as int))
            &&& alive is Ok ==> json::json_get(v, "alive_probe_error"@) is None
            &&& alive is Err ==> json::json_get(v, "alive_probe_error"@) == Some(
                JsonView::Str("io error: "@ + alive->Err_0.message),
            )
        }),
{
    reveal_strlit("clangd_pid");
    reveal_strlit("alive");
    reveal_strlit("uptime_s");
    reveal_strlit("restart_count");
    reveal_strlit("last_restart_reason");
    reveal_strlit("last_exit_status");
    reveal_strlit("supervisor_state");
    reveal_strlit("queue_in_flight");
    reveal_strlit("queue_capacity");
    reveal_strlit("try_wait_total_ns");
    reveal_strlit("alive_probe_error");
    assert("clangd_pid"@.len() == 10 && "alive"@.len() == 5 && "uptime_s"@.len() == 8);
    assert("restart_count"@.len() == 13 && "last_restart_reason"@.len() == 19);
    assert("last_exit_status"@.len() == 16 && "supervisor_state"@.len() == 16);
    assert("queue_in_flight"@.len() == 15 && "queue_capacity"@.len() == 14);
    assert("try_wait_total_ns"@.len() == 17 && "alive_probe_error"@.len() == 17);
    assert("last_exit_status"@[0] != "supervisor_state"@[0]);
    assert("try_wait_total_ns"@[0] != "alive_probe_error"@[0]);
}

/// Failures that mean that clangd is gone are counted as that, by their reason,
/// and no other failure is.
pub proof fn law_gone_is_told_from_slow(e: ShimErrorView)
    ensures
        e matches ShimErrorView::Io(io) ==> (fatal_reason(e) is Some <==> io.kind
            == IoErrorKind::BrokenPipe || io.kind == IoErrorKind::UnexpectedEof || io.kind
            == IoErrorKind::ConnectionAborted || io.kind == IoErrorKind::ConnectionReset),
        e is Io && fatal_reason(e) is Some ==> fatal_reason(e) == Some(ReasonView::BrokenPipe),
        e is ClangdExited ==> fatal_reason(e) is Some,
        !(e is Io) && !(e is ClangdExited) ==> fatal_reason(e) is None,
{
}

/// The time of probes adds up, and a probe changes nothing else.
pub proof fn law_probe_time_adds_up(p: PolicyView, probe_ns: u64)
    ensures
        p.probe_ns + probe_ns <= u64::MAX ==> after_probe(p, probe_ns).probe_ns == p.probe_ns
            + probe_ns,
        after_probe(p, probe_ns).state == p.state,
        after_probe(p, probe_ns).history == p.history,
        after_probe(p, probe_ns).total_restarts == p.total_restarts,
        after_probe(p, probe_ns).backoff == p.backoff,
        after_probe(p, probe_ns).last_spawn == p.last_spawn,
        after_probe(p, probe_ns).entered == p.entered,
        after_probe(p, probe_ns).last_reason == p.last_reason,
{
}

/// A refusal tells the numbers behind it: a full queue how many calls it has and
/// how many it can have, a backoff that it is one, and giving up how often clangd
/// was restarted and why the last time, under a code of its own.
pub proof fn law_refusals_tell_their_numbers(
    id: JsonView,
    q: QueueView,
    p: PolicyView,
    wait_ns: u64,
)
    ensures
        ({
            let e = json::json_get(queue_full_reply(id, q), "error"@)->0;
            let data = json::json_get(e, "data"@)->0;
            &&& json::json_get(e, "code"@) == Some(json::json_int(-32603))
            &&& json::json_get(data, "in_flight"@) == Some(json::json_int(q.in_flight as int))
            &&& json::json_get(data, "capacity"@) == Some(json::json_int(q.capacity as int))
            &&& json::json_get(data, "retry_after_s"@) == Some(
                json::json_int(QUEUE_RETRY_AFTER_S as int),
            )
        }),
        ({
            let e = json::json_get(backoff_reply(id, p, wait_ns), "error"@)->0;
            let data = json::json_get(e, "data"@)->0;
            &&& json::json_get(e, "code"@) == Some(json::json_int(-32603))
            &&& p.state is Backoff ==> json::json_get(data, "supervisor_state"@) == Some(
                JsonView::Str("backoff"@),
            )
        }),
        ({
            let e = json::json_get(given_up_reply(id, p, wait_ns), "error"@)->0;
            let data = json::json_get(e, "data"@)->0;
            &&& json::json_get(e, "code"@) == Some(json::json_int(-33000))
            &&& json::json_get(data, "total_restarts"@) == Some(
                json::json_int(p.total_restarts as int),
            )
            &&& json::json_get(data, "last_restart_reason"@) == Some(
                JsonView::Str(
                    match p.last_reason {
                        Some(r) => supervisor::reason_tag(r),
                        None => "none"@,
                    },
                ),
            )
        }),
{
    reveal_strlit("error_kind");
    reveal_strlit("in_flight");
    reveal_strlit("capacity");
    reveal_strlit("retry_after_s");
    reveal_strlit("supervisor_state");
    reveal_strlit("total_restarts");
    reveal_strlit("last_restart_reason");
    assert("error_kind"@.len() == 10 && "in_flight"@.len() == 9 && "capacity"@.len() == 8);
    assert("retry_after_s"@.len() == 13 && "supervisor_state"@.len() == 16);
    assert("total_restarts"@.len() == 14 && "last_restart_reason"@.len() == 19);
    reveal_strlit("jsonrpc");
    reveal_strlit("id");
    reveal_strlit("error");
    reveal_strlit("code");
    reveal_strlit("message");
    reveal_strlit("data");
    assert("jsonrpc"@.len() == 7 && "id"@.len() == 2 && "error"@.len() == 5);
    assert("code"@.len() == 4 && "message"@.len() == 7);
    assert("data"@.len() == 4 && "code"@[0] != "data"@[0]);
}

/// The tools of the server are all different.
proof fn lemma_served_names()
    ensures
        "workspace_symbol"@ != "definition"@,
        "workspace_symbol"@ != "references"@,
        "workspace_symbol"@ != "hover"@,
        "workspace_symbol"@ != "build_full_index"@,
        "definition"@ != "references"@,
        "definition"@ != "hover"@,
        "definition"@ != "build_full_index"@,
        "references"@ != "hover"@,
        "references"@ != "build_full_index"@,
        "hover"@ != "build_full_index"@,
        "lsp_cpp_status"@ != "workspace_symbol"@,
        "lsp_cpp_status"@ != "definition"@,
        "lsp_cpp_status"@ != "references"@,
        "lsp_cpp_status"@ != "hover"@,
        "lsp_cpp_status"@ != "build_full_index"@,
{
    reveal_strlit("workspace_symbol");
    reveal_strlit("definition");
    reveal_strlit("references");
    reveal_strlit("hover");
    reveal_strlit("build_full_index");
    reveal_strlit("lsp_cpp_status");
    assert("workspace_symbol"@.len() == 16 && "definition"@.len() == 10);
    assert("references"@.len() == 10 && "hover"@.len() == 5 && "build_full_index"@.len() == 16);
    assert("lsp_cpp_status"@.len() == 14);
    assert("workspace_symbol"@[0] != "build_full_index"@[0]);
    assert("definition"@[0] != "references"@[0]);
}

/// A tool is listed exactly if it can be called.
pub proof fn law_listed_tools_can_be_called(name: Seq<char>, args: JsonView)
    ensures
        schema::lists(cpp_tools(), name) <==> name == "lsp_cpp_status"@ || asked_tool(
            name,
            args,
        ) is Some,
{
    let items = json::json_get(cpp_tools(), "tools"@)->0->Array_0;
    lemma_served_names();
    assert forall|i: int| 0 <= i < items.len() implies json::json_get(
        #[trigger] items[i],
        "name"@,
    ) is Some by {
        reveal_strlit("name");
        reveal_strlit("description");
        reveal_strlit("inputSchema");
        assert("name"@.len() == 4 && "description"@.len() == 11 && "inputSchema"@.len() == 11);
    }
    reveal_strlit("name");
    reveal_strlit("description");
    reveal_strlit("inputSchema");
    assert("name"@.len() == 4 && "description"@.len() == 11 && "inputSchema"@.len() == 11);
    assert(items.len() == 6);
    assert(json::json_get(items[0], "name"@) is Some);
    assert(json::json_get(items[1], "name"@) is Some);
    assert(json::json_get(items[2], "name"@) is Some);
    assert(json::json_get(items[3], "name"@) is Some);
    assert(json::json_get(items[4], "name"@) is Some);
    assert(json::json_get(items[5], "name"@) is Some);
}

/// The server presents itself by its name, lists its tools, and answers under the
/// number of the request.
pub proof fn law_server_presents_itself(id: JsonView)
    ensures
        line_step(IncomingView::Initialize { id }) == StepView::Reply(
            rpc::success_reply(id, schema::handshake("lsp-cpp"@)),
        ),
        line_step(IncomingView::ToolsList { id }) == StepView::Reply(
            rpc::success_reply(id, cpp_tools()),
        ),
{
}

/// A call that lacks a part of its place is told which: the file first, then the
/// line, then the column.
pub proof fn law_missing_part_is_named(name: Seq<char>, args: JsonView)
    requires
        name == "definition"@ || name == "references"@ || name == "hover"@,
    ensures
        json::member_str(args, "file"@) is None ==> asked_tool(name, args) == Some(
            Err::<ToolView, Seq<char>>("missing `file` (string)"@),
        ),
        json::member_str(args, "file"@) is Some && json::member_u64(args, "line"@) is None
            ==> asked_tool(name, args) == Some(
            Err::<ToolView, Seq<char>>("missing `line` (integer)"@),
        ),
        json::member_str(args, "file"@) is Some && json::member_u64(args, "line"@) is Some
            && json::member_u64(args, "column"@) is None ==> asked_tool(name, args) == Some(
            Err::<ToolView, Seq<char>>("missing `column` (integer)"@),
        ),
{
    lemma_served_names();
}

/// A method that there is not is refused by its name.
pub proof fn law_unknown_method_is_named(id: JsonView, method: Seq<char>)
    ensures
        match line_step(IncomingView::Unknown { id, method }) {
            StepView::Reply(r) => rpc::refuses(r, id, -32601, "unknown method: "@ + method),
            _ => false,
        },
{
    rpc::law_reply_is_one_or_the_other(
        id,
        JsonView::Null,
        code::METHOD_NOT_FOUND,
        "unknown method: "@ + method,
        None,
    );
}

/// A request to shut down is granted under its number, a notification in silence;
/// either way the server shuts down.
pub proof fn law_shutdown_is_granted(id: JsonView)
    ensures
        match line_step(IncomingView::Shutdown { id, notification: false }) {
            StepView::Shutdown { reply: Some(r) } => rpc::grants(r, id, JsonView::Null),
            _ => false,
        },
        line_step(IncomingView::Shutdown { id, notification: true }) == (StepView::Shutdown {
            reply: None,
        }),
{
    rpc::law_reply_is_one_or_the_other(id, JsonView::Null, 0, Seq::empty(), None);
}

/// What a call came to reaches the supervisor: success is a child that runs, a dead
/// child is one exit more, and a late answer is nothing.
pub proof fn law_outcome_reaches_the_supervisor(
    s: CallState,
    payload: JsonView,
    e: ShimErrorView,
    now_ns: u128,
)
    requires
        s.call.stage == Stage::Running,
    ensures
        ({
            let done = event_step(s, CallEventView::Ran { result: Ok(payload), now_ns }).0;
            done.policy.state == SupervisorState::Running && done.policy.total_restarts
                == s.policy.total_restarts
        }),
        ({
            let done = event_step(s, CallEventView::Ran { result: Err(e), now_ns }).0;
            &&& e is ClangdExited ==> done.policy.total_restarts
                == s.policy.total_restarts.wrapping_add(1) && !(done.policy.state is Running)
            &&& e is ClangdBusy || e is RequestTimeout || e is Protocol ==> done.policy == s.policy
        }),
{
}

/// Time spent looking at the child never overflows its sum.
pub proof fn law_probe_time_stops_at_its_limit(p: PolicyView, probe_ns: u64)
    ensures
        p.probe_ns + probe_ns > u64::MAX ==> after_probe(p, probe_ns).probe_ns == u64::MAX,
        after_probe(p, probe_ns).probe_ns >= p.probe_ns,
{
}

/// A tool that is asked for is seen as it is.
pub proof fn law_tool_is_seen_as_it_is(tool: Tool)
    ensures
        match tool {
            Tool::Definition { file, line, column } => tool@ == (ToolView::Definition {
                file: file@,
                line,
                column,
            }),
            Tool::References { file, line, column } => tool@ == (ToolView::References {
                file: file@,
                line,
                column,
            }),
            Tool::Hover { file, line, column } => tool@ == (ToolView::Hover {
                file: file@,
                line,
                column,
            }),
            Tool::WorkspaceSymbol { query } => tool@ == (ToolView::WorkspaceSymbol {
                query: query@,
            }),
            Tool::BuildFullIndex { max_tus } => tool@ == (ToolView::BuildFullIndex { max_tus }),
        },
{
}

/// The list of tools tells which arguments a tool takes and must have: a search its
/// query, a question about a place the file, the line and the column.
pub proof fn law_tools_tell_their_arguments()
    ensures
        ({
            let items = json::json_get(cpp_tools(), "tools"@)->0->Array_0;
            &&& items.len() == 6
            &&& schema::demands(items[0], seq!["query"@])
            &&& schema::takes(items[0], "query"@, "string"@)
            &&& schema::demands(items[1], seq!["file"@, "line"@, "column"@])
            &&& schema::takes(items[1], "file"@, "string"@)
            &&& schema::takes(items[1], "line"@, "integer"@)
            &&& schema::takes(items[1], "column"@, "integer"@)
            &&& schema::demands(items[2], seq!["file"@, "line"@, "column"@])
            &&& schema::takes(items[2], "file"@, "string"@)
            &&& schema::takes(items[2], "line"@, "integer"@)
            &&& schema::takes(items[2], "column"@, "integer"@)
            &&& schema::demands(items[3], seq!["file"@, "line"@, "column"@])
            &&& schema::takes(items[3], "file"@, "string"@)
            &&& schema::takes(items[3], "line"@, "integer"@)
            &&& schema::takes(items[3], "column"@, "integer"@)
            &&& schema::takes(items[5], "max_tus"@, "integer"@)
        }),
{
    schema::lemma_entry_members();
}

} // verus!
