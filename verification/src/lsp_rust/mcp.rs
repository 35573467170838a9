//! The server loop around rust-analyzer.
use vstd::prelude::*;

use crate::json::{self, Json, JsonView};
use crate::lsp_messages::{self, Question, QuestionView};
use crate::lsp_rust::lsp::{self, LspErrorView, LspShimError};
use crate::lsp_shim_core::mcp_proto::code;
use crate::rpc::{self, Incoming, IncomingView};
use crate::schema;
use crate::text;

verus! {

/// What a tool is asked.
#[derive(Debug)]
pub enum Tool {
    Definition {
        file: String,
        line: u32,
        column: u32,
    },
    References {
        file: String,
        line: u32,
        column: u32,
    },
    Hover {
        file: String,
        line: u32,
        column: u32,
    },
    WorkspaceSymbols {
        query: String,
    },
    Diagnostics {
        file: String,
    },
    WaitForIndexing,
}

/// What a [`Tool`] stands for.
pub enum ToolView {
    Definition { file: Seq<char>, line: u32, column: u32 },
    References { file: Seq<char>, line: u32, column: u32 },
    Hover { file: Seq<char>, line: u32, column: u32 },
    WorkspaceSymbols { query: Seq<char> },
    Diagnostics { file: Seq<char> },
    WaitForIndexing,
}

impl View for Tool {
    type V = ToolView;

    open spec fn view(&self) -> ToolView {
        match self {
            Tool::Definition { file, line, column } => ToolView::Definition {
                file: file@,
                line: *line,
                column: *column,
            },
            Tool::References { file, line, column } => ToolView::References {
                file: file@,
                line: *line,
                column: *column,
            },
            Tool::Hover { file, line, column } => ToolView::Hover {
                file: file@,
                line: *line,
                column: *column,
            },
            Tool::WorkspaceSymbols { query } => ToolView::WorkspaceSymbols { query: query@ },
            Tool::Diagnostics { file } => ToolView::Diagnostics { file: file@ },
            Tool::WaitForIndexing => ToolView::WaitForIndexing,
        }
    }
}

/// The question that a tool comes to; waiting for the index is none.
pub open spec fn tool_question(tool: ToolView) -> Option<QuestionView> {
    match tool {
        ToolView::Definition { file, line, column } => Some(
            lsp_messages::asks_definition(file, line, column),
        ),
        ToolView::References { file, line, column } => Some(
            lsp_messages::asks_references(file, line, column),
        ),
        ToolView::Hover { file, line, column } => Some(
            lsp_messages::asks_hover(file, line, column),
        ),
        ToolView::WorkspaceSymbols { query } => Some(lsp_messages::asks_symbols(query)),
        ToolView::Diagnostics { file } => Some(lsp_messages::asks_diagnostics(file)),
        ToolView::WaitForIndexing => None,
    }
}

impl Tool {
    /// The question that the tool comes to.
    pub fn question(&self) -> (r: Option<Question>)
        ensures
            match (r, tool_question(self@)) {
                (Some(q), Some(v)) => q@ == v,
                (None, None) => true,
                _ => false,
            },
    {
        match self {
            Tool::Definition { file, line, column } => Some(
                Question::definition(file.as_str(), *line, *column),
            ),
            Tool::References { file, line, column } => Some(
                Question::references(file.as_str(), *line, *column),
            ),
            Tool::Hover { file, line, column } => Some(
                Question::hover(file.as_str(), *line, *column),
            ),
            Tool::WorkspaceSymbols { query } => Some(Question::symbols(query.as_str())),
            Tool::Diagnostics { file } => Some(Question::diagnostics(file.as_str())),
            Tool::WaitForIndexing => None,
        }
    }
}

/// What is done about a line.
#[derive(Debug)]
pub enum Step {
    /// Nothing.
    Silent,
    /// This is written.
    Reply(Json),
    /// A tool is called.
    Call {
        id: Json,
        notification: bool,
        tool: Tool,
    },
    /// The backend is ended, and this is written.
    Shutdown {
        reply: Option<Json>,
    },
}

/// What a [`Step`] stands for.
pub enum StepView {
    Silent,
    Reply(JsonView),
    Call { id: JsonView, notification: bool, tool: ToolView },
    Shutdown { reply: Option<JsonView> },
}

impl View for Step {
    type V = StepView;

    open spec fn view(&self) -> StepView {
        match self {
            Step::Silent => StepView::Silent,
            Step::Reply(r) => StepView::Reply(r@),
            Step::Call { id, notification, tool } => StepView::Call {
                id: id@,
                notification: *notification,
                tool: tool@,
            },
            Step::Shutdown { reply } => StepView::Shutdown { reply: json::owned_view(*reply) },
        }
    }
}

/// The arguments that name a place.
pub open spec fn place_args() -> Map<Seq<char>, JsonView> {
    map![
        "file"@ => schema::plain_arg("string"@),
        "line"@ => schema::plain_arg("integer"@),
        "column"@ => schema::plain_arg("integer"@),
    ]
}

/// The tools.
pub open spec fn rust_tools() -> JsonView {
    schema::tool_list(
        seq![
            schema::tool_entry(
                "definition"@,
                "Resolve the symbol at `file:line:column` (1-based) to its definition site(s) via rust-analyzer's textDocument/definition."@,
                schema::strict_schema(
                    map![
                        "file"@ => schema::described_arg(
                            "string"@,
                            "Absolute path to a .rs file under the indexed workspace."@,
                        ),
                        "line"@ => schema::described_arg("integer"@, "1-based line number."@),
                        "column"@ => schema::described_arg("integer"@, "1-based column number."@),
                    ],
                    seq!["file"@, "line"@, "column"@],
                ),
            ),
            schema::tool_entry(
                "references"@,
                "Find every reference to the symbol at `file:line:column` via rust-analyzer's textDocument/references."@,
                schema::strict_schema(place_args(), seq!["file"@, "line"@, "column"@]),
            ),
            schema::tool_entry(
                "hover"@,
                "Return rust-analyzer's hover documentation for the symbol at `file:line:column`."@,
                schema::strict_schema(place_args(), seq!["file"@, "line"@, "column"@]),
            ),
            schema::tool_entry(
                "workspace_symbols"@,
                "Fuzzy workspace-wide symbol search via workspace/symbol."@,
                schema::strict_schema(
                    map![
                        "query"@ => schema::described_arg(
                            "string"@,
                            "Substring or fuzzy match against symbol name."@,
                        ),
                    ],
                    seq!["query"@],
                ),
            ),
            schema::tool_entry(
                "diagnostics"@,
                "Pull current diagnostic set for one file via textDocument/diagnostic (LSP 3.17 pull-diagnostics)."@,
                schema::strict_schema(
                    map!["file"@ => schema::plain_arg("string"@)],
                    seq!["file"@],
                ),
            ),
            schema::tool_entry(
                "wait_for_indexing"@,
                "Block until rust-analyzer's symbol-index output stabilises across two successive samples. Replaces zeenix wrapper's stderr substring scan with an explicit protocol-driven poll."@,
                schema::open_schema(Map::empty()),
            ),
        ],
    )
}

/// The result of the handshake.
pub fn initialize_result() -> (r: Json)
    ensures
        r@ == schema::handshake("lsp-rust"@),
{
    schema::handshake_result("lsp-rust")
}

fn place_args_json() -> (r: Json)
    ensures
        r@ == JsonView::Object(place_args()),
{
    Json::object().put("file", schema::arg("string")).put("line", schema::arg("integer")).put(
        "column",
        schema::arg("integer"),
    )
}

fn place_names() -> (r: Vec<&'static str>)
    ensures
        schema::slice_views(r@) == seq!["file"@, "line"@, "column"@],
{
    let r = vec!["file", "line", "column"];
    assert(schema::slice_views(r@) =~= seq!["file"@, "line"@, "column"@]);
    r
}

/// The list of tools.
pub fn tools_list_result() -> (r: Json)
    ensures
        r@ == rust_tools(),
{
    let definition = schema::tool(
        "definition",
        "Resolve the symbol at `file:line:column` (1-based) to its definition site(s) via rust-analyzer's textDocument/definition.",
        schema::schema_requiring(
            Json::object().put(
                "file",
                schema::arg_about(
                    "string",
                    "Absolute path to a .rs file under the indexed workspace.",
                ),
            ).put("line", schema::arg_about("integer", "1-based line number.")).put(
                "column",
                schema::arg_about("integer", "1-based column number."),
            ),
            place_names(),
        ),
    );
    let references = schema::tool(
        "references",
        "Find every reference to the symbol at `file:line:column` via rust-analyzer's textDocument/references.",
        schema::schema_requiring(place_args_json(), place_names()),
    );
    let hover = schema::tool(
        "hover",
        "Return rust-analyzer's hover documentation for the symbol at `file:line:column`.",
        schema::schema_requiring(place_args_json(), place_names()),
    );
    let query_names = vec!["query"];
    assert(schema::slice_views(query_names@) =~= seq!["query"@]);
    let symbols = schema::tool(
        "workspace_symbols",
        "Fuzzy workspace-wide symbol search via workspace/symbol.",
        schema::schema_requiring(
            Json::object().put(
                "query",
                schema::arg_about("string", "Substring or fuzzy match against symbol name."),
            ),
            query_names,
        ),
    );
    let file_names = vec!["file"];
    assert(schema::slice_views(file_names@) =~= seq!["file"@]);
    let diagnostics = schema::tool(
        "diagnostics",
        "Pull current diagnostic set for one file via textDocument/diagnostic (LSP 3.17 pull-diagnostics).",
        schema::schema_requiring(
            Json::object().put("file", schema::arg("string")),
            file_names,
        ),
    );
    let wait = schema::tool(
        "wait_for_indexing",
        "Block until rust-analyzer's symbol-index output stabilises across two successive samples. Replaces zeenix wrapper's stderr substring scan with an explicit protocol-driven poll.",
        schema::schema(Json::object()),
    );
    let entries = vec![definition, references, hover, symbols, diagnostics, wait];
    assert(json::json_views(entries@) =~= seq![
        definition@,
        references@,
        hover@,
        symbols@,
        diagnostics@,
        wait@,
    ]);
    schema::tools(entries)
}

/// A number of an argument cut to 32 bits.
pub open spec fn low_word(n: u64) -> u32 {
    (n as int % 0x1_0000_0000) as u32
}

/// A place that arguments name, or what is wrong with them.
pub open spec fn place_in(args: JsonView) -> Result<(Seq<char>, u32, u32), Seq<char>> {
    match (
        json::member_str(args, "file"@),
        json::member_u64(args, "line"@),
        json::member_u64(args, "column"@),
    ) {
        (None, _, _) => Err("missing `file` (string)"@),
        (_, None, _) => Err("missing `line` (integer)"@),
        (_, _, None) => Err("missing `column` (integer)"@),
        (Some(file), Some(line), Some(column)) => Ok((file, low_word(line), low_word(column))),
    }
}

/// What a call asks: `None` where there is no such tool, and what is wrong with
/// its arguments where something is.
pub open spec fn asked_tool(name: Seq<char>, args: JsonView) -> Option<
    Result<ToolView, Seq<char>>,
> {
    if name == "definition"@ {
        Some(
            match place_in(args) {
                Ok((file, line, column)) => Ok(ToolView::Definition { file, line, column }),
                Err(words) => Err(words),
            },
        )
    } else if name == "references"@ {
        Some(
            match place_in(args) {
                Ok((file, line, column)) => Ok(ToolView::References { file, line, column }),
                Err(words) => Err(words),
            },
        )
    } else if name == "hover"@ {
        Some(
            match place_in(args) {
                Ok((file, line, column)) => Ok(ToolView::Hover { file, line, column }),
                Err(words) => Err(words),
            },
        )
    } else if name == "workspace_symbols"@ {
        Some(
            match json::member_str(args, "query"@) {
                Some(query) => Ok(ToolView::WorkspaceSymbols { query }),
                None => Err("workspace_symbols requires `query` (string)"@),
            },
        )
    } else if name == "diagnostics"@ {
        Some(
            match json::member_str(args, "file"@) {
                Some(file) => Ok(ToolView::Diagnostics { file }),
                None => Err("diagnostics requires `file` (string)"@),
            },
        )
    } else if name == "wait_for_indexing"@ {
        Some(Ok(ToolView::WaitForIndexing))
    } else {
        None
    }
}

fn read_place(args: &Json) -> (r: Result<(String, u32, u32), LspShimError>)
    ensures
        match (r, place_in(args@)) {
            (Ok((file, line, column)), Ok(v)) => (file@, line, column) == v,
            (Err(e), Err(words)) => e@ == LspErrorView::Protocol(words),
            _ => false,
        },
{
    let file = match args.get_str("file") {
        Some(f) => f,
        None => {
            return Err(LspShimError::protocol("missing `file` (string)"));
        },
    };
    let line: u64 = match args.get_u64("line") {
        Some(n) => n,
        None => {
            return Err(LspShimError::protocol("missing `line` (integer)"));
        },
    };
    let column: u64 = match args.get_u64("column") {
        Some(n) => n,
        None => {
            return Err(LspShimError::protocol("missing `column` (integer)"));
        },
    };
    Ok((file.to_owned(), (line % 0x1_0000_0000) as u32, (column % 0x1_0000_0000) as u32))
}

/// Reads what a call asks. `None` where there is no such tool.
pub fn read_call(name: &str, args: &Json) -> (r: Option<Result<Tool, LspShimError>>)
    ensures
        match (r, asked_tool(name@, args@)) {
            (None, None) => true,
            (Some(Ok(t)), Some(Ok(v))) => t@ == v,
            (Some(Err(e)), Some(Err(words))) => e@ == LspErrorView::Protocol(words),
            _ => false,
        },
{
    if text::str_eq(name, "definition") {
        match read_place(args) {
            Ok((file, line, column)) => Some(Ok(Tool::Definition { file, line, column })),
            Err(e) => Some(Err(e)),
        }
    } else if text::str_eq(name, "references") {
        match read_place(args) {
            Ok((file, line, column)) => Some(Ok(Tool::References { file, line, column })),
            Err(e) => Some(Err(e)),
        }
    } else if text::str_eq(name, "hover") {
        match read_place(args) {
            Ok((file, line, column)) => Some(Ok(Tool::Hover { file, line, column })),
            Err(e) => Some(Err(e)),
        }
    } else if text::str_eq(name, "workspace_symbols") {
        match args.get_str("query") {
            Some(query) => Some(Ok(Tool::WorkspaceSymbols { query: query.to_owned() })),
            None => Some(
                Err(LspShimError::protocol("workspace_symbols requires `query` (string)")),
            ),
        }
    } else if text::str_eq(name, "diagnostics") {
        match args.get_str("file") {
            Some(file) => Some(Ok(Tool::Diagnostics { file: file.to_owned() })),
            None => Some(Err(LspShimError::protocol("diagnostics requires `file` (string)"))),
        }
    } else if text::str_eq(name, "wait_for_indexing") {
        Some(Ok(Tool::WaitForIndexing))
    } else {
        None
    }
}

/// The data of a failure: its tag and, of an error that the server reported, the
/// code and when to try again.
pub open spec fn failure_data(e: LspErrorView) -> JsonView {
    let plain = map!["error_kind"@ => JsonView::Str(lsp::error_tag(e))];
    JsonView::Object(
        match e {
            LspErrorView::Lsp { code, retry_after_ms, .. } => {
                let coded = plain.insert("lsp_code"@, json::json_int(code as int));
                match retry_after_ms {
                    Some(ms) => coded.insert("retry_after_ms"@, json::json_int(ms as int)),
                    None => coded,
                }
            },
            _ => plain,
        },
    )
}

fn failure_json(e: &LspShimError) -> (r: Json)
    ensures
        r@ == failure_data(e@),
{
    let plain = Json::object().put("error_kind", Json::str(e.error_kind()));
    match e {
        LspShimError::Lsp { code, retry_after_ms, .. } => {
            let coded = plain.put("lsp_code", Json::integer(*code));
            match retry_after_ms {
                Some(ms) => coded.put("retry_after_ms", Json::uint(*ms)),
                None => coded,
            }
        },
        _ => plain,
    }
}

/// The reply to a tool that ran.
pub open spec fn tool_reply(id: JsonView, result: Result<JsonView, LspErrorView>) -> JsonView {
    match result {
        Ok(payload) => rpc::success_reply(id, rpc::tool_result(payload)),
        Err(e) => rpc::error_reply(
            id,
            code::INTERNAL_ERROR,
            lsp::error_text(e),
            Some(failure_data(e)),
        ),
    }
}

fn answer(id: Json, result: lsp::Result<Json>) -> (r: Json)
    ensures
        r@ == tool_reply(id@, lsp::outcome(result)),
{
    match result {
        Ok(payload) => rpc::success_response(id, rpc::tool_content(&payload)),
        Err(e) => {
            let message = e.message();
            let data = failure_json(&e);
            rpc::error_response(id, code::INTERNAL_ERROR, message.as_str(), Some(data))
        },
    }
}

/// Makes the reply to a tool that ran; a notification gets none.
pub fn finish_call(id: Json, notification: bool, result: lsp::Result<Json>) -> (r: Option<Json>)
    ensures
        json::owned_view(r) == rpc::reply_to(notification, tool_reply(id@, lsp::outcome(result))),
{
    if notification {
        None
    } else {
        Some(answer(id, result))
    }
}

/// A reply, or nothing to a notification.
pub open spec fn reply_step(notification: bool, reply: JsonView) -> StepView {
    if notification {
        StepView::Silent
    } else {
        StepView::Reply(reply)
    }
}

fn reply(notification: bool, response: Json) -> (r: Step)
    ensures
        r@ == reply_step(notification, response@),
{
    if notification {
        Step::Silent
    } else {
        Step::Reply(response)
    }
}

/// What is done about a call.
pub open spec fn call_step(id: JsonView, notification: bool, params: JsonView) -> StepView {
    match rpc::called_tool(params) {
        None => reply_step(notification, rpc::missing_name_reply(id)),
        Some(name) => match asked_tool(name, rpc::call_arguments(params)) {
            None => reply_step(notification, rpc::unknown_tool_reply(id, name)),
            Some(Ok(tool)) => StepView::Call { id, notification, tool },
            Some(Err(words)) => reply_step(
                notification,
                tool_reply(id, Err(LspErrorView::Protocol(words))),
            ),
        },
    }
}

/// Decides what is done about a call.
pub fn handle_tools_call(id: Json, notification: bool, params: &Json) -> (r: Step)
    ensures
        r@ == call_step(id@, notification, params@),
{
    match params.get_str("name") {
        None => reply(notification, rpc::missing_name(id)),
        Some(name) => {
            let args = rpc::arguments_of(params);
            match read_call(name, &args) {
                None => reply(notification, rpc::unknown_tool(id, name)),
                Some(Ok(tool)) => Step::Call { id, notification, tool },
                Some(Err(e)) => reply(notification, answer(id, Err(e))),
            }
        },
    }
}

/// What is done about a line.
pub open spec fn line_step(asks: IncomingView) -> StepView {
    match asks {
        IncomingView::Silent => StepView::Silent,
        IncomingView::Reply(r) => StepView::Reply(r),
        IncomingView::Initialize { id } => StepView::Reply(
            rpc::success_reply(id, schema::handshake("lsp-rust"@)),
        ),
        IncomingView::ToolsList { id } => StepView::Reply(rpc::success_reply(id, rust_tools())),
        IncomingView::ToolsCall { id, notification, params } => call_step(
            id,
            notification,
            params,
        ),
        IncomingView::Shutdown { id, notification } => StepView::Shutdown {
            reply: rpc::reply_to(notification, rpc::success_reply(id, JsonView::Null)),
        },
        IncomingView::Unknown { id, method } => StepView::Reply(
            rpc::error_reply(
                id,
                code::METHOD_NOT_FOUND,
                "unknown method: "@ + method,
                Some(rpc::kind_data("method_not_found"@)),
            ),
        ),
    }
}

/// Decides what is done about what a line asks for.
pub fn handle_incoming(asked: Incoming) -> (r: Step)
    ensures
        r@ == line_step(asked@),
{
    match asked {
        Incoming::Silent => Step::Silent,
        Incoming::Reply(r) => Step::Reply(r),
        Incoming::Initialize { id } => Step::Reply(rpc::success_response(id, initialize_result())),
        Incoming::ToolsList { id } => Step::Reply(rpc::success_response(id, tools_list_result())),
        Incoming::ToolsCall { id, notification, params } => handle_tools_call(
            id,
            notification,
            &params,
        ),
        Incoming::Shutdown { id, notification } => Step::Shutdown {
            reply: if notification {
                None
            } else {
                Some(rpc::success_response(id, Json::Null))
            },
        },
        Incoming::Unknown { id, method } => {
            let message = text::concat("unknown method: ", method.as_str());
            Step::Reply(
                rpc::error_response(
                    id,
                    code::METHOD_NOT_FOUND,
                    message.as_str(),
                    Some(rpc::error_kind_data("method_not_found")),
                ),
            )
        },
    }
}

/// Decides what is done about a line. An empty one is passed over.
pub fn handle_message(line: &str) -> (r: Step)
    ensures
        r@ == if text::trimmed(line@).len() == 0 {
            StepView::Silent
        } else {
            line_step(rpc::line_asks(text::trimmed(line@)))
        },
{
    let bare = text::trim(line);
    if bare.as_str().is_empty() {
        return Step::Silent;
    }
    handle_incoming(rpc::read_line(bare.as_str()))
}

/// The handshake and the list of tools are answered without the backend.
pub proof fn law_handshake_needs_no_backend(asks: IncomingView)
    ensures
        line_step(asks) is Call ==> asks is ToolsCall,
        line_step(asks) is Shutdown <==> asks is Shutdown,
{
}

/// Every tool that runs gets an answer or an error, and no failure passes for a
/// `null` answer: the error carries the tag of the failure.
pub proof fn law_failures_are_tagged(id: JsonView, e: LspErrorView)
    ensures
        json::json_get(tool_reply(id, Err(e)), "result"@) is None,
        json::member_str(failure_data(e), "error_kind"@) == Some(lsp::error_tag(e)),
        e matches LspErrorView::Lsp { code, .. } ==> json::json_get(failure_data(e), "lsp_code"@)
            == Some(json::json_int(code as int)),
{
    rpc::law_reply_is_one_or_the_other(
        id,
        JsonView::Null,
        code::INTERNAL_ERROR,
        lsp::error_text(e),
        Some(failure_data(e)),
    );
    reveal_strlit("error_kind");
    reveal_strlit("lsp_code");
    reveal_strlit("retry_after_ms");
    assert("error_kind"@.len() == 10 && "lsp_code"@.len() == 8 && "retry_after_ms"@.len() == 14);
}

/// Whether arguments name a place.
pub open spec fn names_place(args: JsonView, file: Seq<char>, line: u32, column: u32) -> bool {
    &&& json::json_get(args, "file"@) == Some(JsonView::Str(file))
    &&& json::json_get(args, "line"@) == Some(json::json_int(line as int))
    &&& json::json_get(args, "column"@) == Some(json::json_int(column as int))
}


/// The names of the tools are all different.
proof fn lemma_tool_names()
    ensures
        "definition"@ != "references"@,
        "definition"@ != "hover"@,
        "definition"@ != "workspace_symbols"@,
        "definition"@ != "diagnostics"@,
        "definition"@ != "wait_for_indexing"@,
        "references"@ != "hover"@,
        "references"@ != "workspace_symbols"@,
        "references"@ != "diagnostics"@,
        "references"@ != "wait_for_indexing"@,
        "hover"@ != "workspace_symbols"@,
        "hover"@ != "diagnostics"@,
        "hover"@ != "wait_for_indexing"@,
        "workspace_symbols"@ != "diagnostics"@,
        "workspace_symbols"@ != "wait_for_indexing"@,
        "diagnostics"@ != "wait_for_indexing"@,
{
    reveal_strlit("definition");
    reveal_strlit("references");
    reveal_strlit("hover");
    reveal_strlit("workspace_symbols");
    reveal_strlit("diagnostics");
    reveal_strlit("wait_for_indexing");
    assert("definition"@.len() == 10 && "references"@.len() == 10 && "hover"@.len() == 5);
    assert("workspace_symbols"@.len() == 17 && "diagnostics"@.len() == 11);
    assert("wait_for_indexing"@.len() == 17);
    assert("definition"@[0] != "references"@[0]);
    assert("workspace_symbols"@[1] != "wait_for_indexing"@[1]);
}

/// A call about a place asks the server about that place: the question of its
/// tool names the file, and the line and the column counted from zero.
pub proof fn law_call_asks_about_its_place(
    name: Seq<char>,
    args: JsonView,
    file: Seq<char>,
    line: u32,
    column: u32,
)
    requires
        names_place(args, file, line, column),
        line >= 1,
        column >= 1,
        name == "definition"@ || name == "references"@ || name == "hover"@,
    ensures
        asked_tool(name, args) matches Some(Ok(_)),
        ({
            let question = tool_question(asked_tool(name, args)->0->Ok_0);
            &&& question is Some
            &&& lsp_messages::names_place(question->0.params, file, line - 1, column - 1)
            &&& question->0.method == "textDocument/"@ + name
        }),
{
    lemma_tool_names();
    assert(line as int % 0x1_0000_0000 == line);
    assert(column as int % 0x1_0000_0000 == column);
    lsp_messages::law_question_names_its_place(file, line, column);
    reveal_strlit("textDocument/");
    reveal_strlit("definition");
    reveal_strlit("references");
    reveal_strlit("hover");
    reveal_strlit("textDocument/definition");
    reveal_strlit("textDocument/references");
    reveal_strlit("textDocument/hover");
    assert("textDocument/"@ + "definition"@ =~= "textDocument/definition"@);
    assert("textDocument/"@ + "references"@ =~= "textDocument/references"@);
    assert("textDocument/"@ + "hover"@ =~= "textDocument/hover"@);
}

/// A search asks the server for its query, and a call for diagnostics for those
/// of its file.
pub proof fn law_call_asks_for_what_it_names(args: JsonView, query: Seq<char>, file: Seq<char>, name: Seq<char>)
    ensures
        json::json_get(args, "query"@) == Some(JsonView::Str(query)) ==> {
            &&& asked_tool("workspace_symbols"@, args) matches Some(Ok(tool))
            &&& tool_question(tool) matches Some(q)
            &&& q.method == "workspace/symbol"@
            &&& json::json_get(q.params, "query"@) == Some(JsonView::Str(query))
        },
        json::json_get(args, "file"@) == Some(JsonView::Str(file)) ==> {
            &&& asked_tool("diagnostics"@, args) matches Some(Ok(tool))
            &&& tool_question(tool) matches Some(q)
            &&& q.method == "textDocument/diagnostic"@
            &&& json::json_get(json::json_get(q.params, "textDocument"@)->0, "uri"@) == Some(
                JsonView::Str("file://"@ + file),
            )
        },
        asked_tool("wait_for_indexing"@, args) == Some(
            Ok::<ToolView, Seq<char>>(ToolView::WaitForIndexing),
        ),
        !(json::json_get(args, "query"@) matches Some(JsonView::Str(_))) ==> (asked_tool(
            "workspace_symbols"@,
            args,
        ) matches Some(Err(_))),
        !(json::json_get(args, "file"@) matches Some(JsonView::Str(_))) ==> (asked_tool(
            "diagnostics"@,
            args,
        ) matches Some(Err(_))),
        name != "definition"@ && name != "references"@ && name != "hover"@ && name
            != "workspace_symbols"@ && name != "diagnostics"@ && name != "wait_for_indexing"@
            ==> asked_tool(name, args) is None,
{
    lemma_tool_names();
    lsp_messages::law_searches_name_what_they_seek(query, file);
}

/// A call about a place that lacks its file, its line or its column is told so.
pub proof fn law_call_needs_its_place(name: Seq<char>, args: JsonView)
    requires
        name == "definition"@ || name == "references"@ || name == "hover"@,
        !(json::json_get(args, "file"@) matches Some(JsonView::Str(_))) || json::member_u64(
            args,
            "line"@,
        ) is None || json::member_u64(args, "column"@) is None,
    ensures
        asked_tool(name, args) matches Some(Err(_)),
{
    lemma_tool_names();
}

/// A call goes to the tool that it names, with its number; one for a tool that
/// there is not is answered with an error.
pub proof fn law_call_goes_to_its_tool(id: JsonView, notification: bool, params: JsonView, name: Seq<char>)
    requires
        json::json_get(params, "name"@) == Some(JsonView::Str(name)),
        json::json_get(params, "arguments"@) is Some,
    ensures
        ({
            let args = json::json_get(params, "arguments"@)->0;
            &&& asked_tool(name, args) matches Some(Ok(tool)) ==> call_step(id, notification, params)
                == (StepView::Call { id, notification, tool })
            &&& !(asked_tool(name, args) matches Some(Ok(_))) && !notification ==> {
                &&& call_step(id, notification, params) is Reply
                &&& json::json_get(call_step(id, notification, params)->Reply_0, "id"@) == Some(id)
                &&& json::json_get(call_step(id, notification, params)->Reply_0, "error"@) is Some
            }
            &&& line_step(IncomingView::ToolsCall { id, notification, params }) == call_step(
                id,
                notification,
                params,
            )
        }),
{
    let args = json::json_get(params, "arguments"@)->0;
    match asked_tool(name, args) {
        Some(Err(words)) => {
            let e = LspErrorView::Protocol(words);
            rpc::law_reply_is_one_or_the_other(
                id,
                JsonView::Null,
                code::INTERNAL_ERROR,
                lsp::error_text(e),
                Some(failure_data(e)),
            );
        },
        None => {
            rpc::law_reply_is_one_or_the_other(
                id,
                JsonView::Null,
                code::METHOD_NOT_FOUND,
                "unknown tool: "@ + name,
                Some(rpc::kind_data("unknown_tool"@)),
            );
        },
        _ => {},
    }
}

/// A tool that ran is answered under its own number with what came of it: its
/// payload as text, or the failure in words, by its tag and, of an error that the
/// server reported, with the code and when to try again.
pub proof fn law_tool_is_answered_with_its_outcome(id: JsonView, payload: JsonView, e: LspErrorView)
    ensures
        json::json_get(tool_reply(id, Ok(payload)), "id"@) == Some(id),
        json::json_get(tool_reply(id, Ok(payload)), "error"@) is None,
        json::json_get(tool_reply(id, Ok(payload)), "result"@) == Some(rpc::tool_result(payload)),
        json::json_get(tool_reply(id, Err(e)), "id"@) == Some(id),
        json::json_get(tool_reply(id, Err(e)), "result"@) is None,
        ({
            let body = json::json_get(tool_reply(id, Err(e)), "error"@)->0;
            let data = json::json_get(body, "data"@)->0;
            &&& json::json_get(tool_reply(id, Err(e)), "error"@) is Some
            &&& json::member_str(body, "message"@) == Some(lsp::error_text(e))
            &&& json::json_get(body, "code"@) == Some(json::json_int(-32603))
            &&& json::member_str(data, "error_kind"@) == Some(lsp::error_tag(e))
            &&& match e {
                LspErrorView::Lsp { code, retry_after_ms, .. } => {
                    &&& json::json_get(data, "lsp_code"@) == Some(json::json_int(code as int))
                    &&& retry_after_ms is Some ==> json::json_get(data, "retry_after_ms"@) == Some(
                        json::json_int(retry_after_ms->0 as int),
                    )
                    &&& retry_after_ms is None ==> json::json_get(data, "retry_after_ms"@) is None
                },
                _ => json::json_get(data, "lsp_code"@) is None,
            }
        }),
{
    rpc::law_reply_is_one_or_the_other(
        id,
        rpc::tool_result(payload),
        code::INTERNAL_ERROR,
        lsp::error_text(e),
        Some(failure_data(e)),
    );
    reveal_strlit("error_kind");
    reveal_strlit("lsp_code");
    reveal_strlit("retry_after_ms");
    assert("error_kind"@.len() == 10 && "lsp_code"@.len() == 8 && "retry_after_ms"@.len() == 14);
}

/// The tools of the server are all different.
proof fn lemma_served_names()
    ensures
        "definition"@ != "references"@,
        "definition"@ != "hover"@,
        "definition"@ != "workspace_symbols"@,
        "definition"@ != "diagnostics"@,
        "definition"@ != "wait_for_indexing"@,
        "references"@ != "hover"@,
        "references"@ != "workspace_symbols"@,
        "references"@ != "diagnostics"@,
        "references"@ != "wait_for_indexing"@,
        "hover"@ != "workspace_symbols"@,
        "hover"@ != "diagnostics"@,
        "hover"@ != "wait_for_indexing"@,
        "workspace_symbols"@ != "diagnostics"@,
        "workspace_symbols"@ != "wait_for_indexing"@,
        "diagnostics"@ != "wait_for_indexing"@,
{
    reveal_strlit("definition");
    reveal_strlit("references");
    reveal_strlit("hover");
    reveal_strlit("workspace_symbols");
    reveal_strlit("diagnostics");
    reveal_strlit("wait_for_indexing");
    assert("definition"@.len() == 10 && "references"@.len() == 10 && "hover"@.len() == 5);
    assert("workspace_symbols"@.len() == 17 && "diagnostics"@.len() == 11);
    assert("wait_for_indexing"@.len() == 17);
    assert("workspace_symbols"@[1] != "wait_for_indexing"@[1]);
    assert("definition"@[0] != "references"@[0]);
}

/// A tool is listed exactly if it can be called.
pub proof fn law_listed_tools_can_be_called(name: Seq<char>, args: JsonView)
    ensures
        schema::lists(rust_tools(), name) <==> asked_tool(name, args) is Some,
{
    let items = json::json_get(rust_tools(), "tools"@)->0->Array_0;
    lemma_served_names();
    reveal_strlit("name");
    reveal_strlit("description");
    reveal_strlit("inputSchema");
    assert("name"@.len() == 4 && "description"@.len() == 11 && "inputSchema"@.len() == 11);
    assert(items.len() == 6);
    assert(json::json_get(items[0], "name"@) is Some);
    assert(json::json_get(items[1], "name"@) is Some);
    assert(json::json_get(items[2], "name"@) is Some);
    assert(json::json_get(items[3], "name"@) is Some);
    assert(json::json_get(items[4], "name"@) is Some);
    assert(json::json_get(items[5], "name"@) is Some);
}

/// The server presents itself by its name, lists its tools, and answers under the
/// number of the request.
pub proof fn law_server_presents_itself(id: JsonView)
    ensures
        line_step(IncomingView::Initialize { id }) == StepView::Reply(
            rpc::success_reply(id, schema::handshake("lsp-rust"@)),
        ),
        line_step(IncomingView::ToolsList { id }) == StepView::Reply(
            rpc::success_reply(id, rust_tools()),
        ),
{
}

/// A call that lacks a part of its place is told which: the file first, then the
/// line, then the column.
pub proof fn law_missing_part_is_named(name: Seq<char>, args: JsonView)
    requires
        name == "definition"@ || name == "references"@ || name == "hover"@,
    ensures
        json::member_str(args, "file"@) is None ==> asked_tool(name, args) == Some(
            Err::<ToolView, Seq<char>>("missing `file` (string)"@),
        ),
        json::member_str(args, "file"@) is Some && json::member_u64(args, "line"@) is None
            ==> asked_tool(name, args) == Some(
            Err::<ToolView, Seq<char>>("missing `line` (integer)"@),
        ),
        json::member_str(args, "file"@) is Some && json::member_u64(args, "line"@) is Some
            && json::member_u64(args, "column"@) is None ==> asked_tool(name, args) == Some(
            Err::<ToolView, Seq<char>>("missing `column` (integer)"@),
        ),
{
    lemma_served_names();
}

/// A method that there is not is refused by its name.
pub proof fn law_unknown_method_is_named(id: JsonView, method: Seq<char>)
    ensures
        match line_step(IncomingView::Unknown { id, method }) {
            StepView::Reply(r) => rpc::refuses(r, id, -32601, "unknown method: "@ + method),
            _ => false,
        },
{
    rpc::law_reply_is_one_or_the_other(
        id,
        JsonView::Null,
        code::METHOD_NOT_FOUND,
        "unknown method: "@ + method,
        Some(rpc::kind_data("method_not_found"@)),
    );
}

/// A request to shut down is granted under its number, a notification in silence;
/// either way the server shuts down.
pub proof fn law_shutdown_is_granted(id: JsonView)
    ensures
        match line_step(IncomingView::Shutdown { id, notification: false }) {
            StepView::Shutdown { reply: Some(r) } => rpc::grants(r, id, JsonView::Null),
            _ => false,
        },
        line_step(IncomingView::Shutdown { id, notification: true }) == (StepView::Shutdown {
            reply: None,
        }),
{
    rpc::law_reply_is_one_or_the_other(id, JsonView::Null, 0, Seq::empty(), None);
}

/// A call that makes no sense is refused under its number, with the words of what is
/// wrong with it.
pub proof fn law_senseless_call_is_refused(id: JsonView, params: JsonView, words: Seq<char>)
    requires
        rpc::called_tool(params) is Some,
        asked_tool(rpc::called_tool(params)->0, rpc::call_arguments(params)) == Some(
            Err::<ToolView, Seq<char>>(words),
        ),
    ensures
        match call_step(id, false, params) {
            StepView::Reply(r) => rpc::refuses(r, id, -32603, "LSP protocol error: "@ + words),
            _ => false,
        },
        call_step(id, true, params) == StepView::Silent,
{
    rpc::law_reply_is_one_or_the_other(
        id,
        JsonView::Null,
        code::INTERNAL_ERROR,
        "LSP protocol error: "@ + words,
        Some(failure_data(LspErrorView::Protocol(words))),
    );
}

/// A tool that is asked for is seen as it is.
pub proof fn law_tool_is_seen_as_it_is(tool: Tool)
    ensures
        match tool {
            Tool::Definition { file, line, column } => tool@ == (ToolView::Definition {
                file: file@,
                line,
                column,
            }),
            Tool::References { file, line, column } => tool@ == (ToolView::References {
                file: file@,
                line,
                column,
            }),
            Tool::Hover { file, line, column } => tool@ == (ToolView::Hover {
                file: file@,
                line,
                column,
            }),
            Tool::WorkspaceSymbols { query } => tool@ == (ToolView::WorkspaceSymbols {
                query: query@,
            }),
            Tool::Diagnostics { file } => tool@ == (ToolView::Diagnostics { file: file@ }),
            Tool::WaitForIndexing => tool@ is WaitForIndexing,
        },
{
}

/// The list of tools tells which arguments a tool takes and must have: a question
/// about a place the file, the line and the column, a search its query, and the
/// diagnostics their file.
pub proof fn law_tools_tell_their_arguments()
    ensures
        ({
            let items = json::json_get(rust_tools(), "tools"@)->0->Array_0;
            &&& items.len() == 6
            &&& schema::demands(items[0], seq!["file"@, "line"@, "column"@])
            &&& schema::takes(items[0], "file"@, "string"@)
            &&& schema::takes(items[0], "line"@, "integer"@)
            &&& schema::takes(items[0], "column"@, "integer"@)
            &&& schema::demands(items[1], seq!["file"@, "line"@, "column"@])
            &&& schema::takes(items[1], "file"@, "string"@)
            &&& schema::takes(items[1], "line"@, "integer"@)
            &&& schema::takes(items[1], "column"@, "integer"@)
            &&& schema::demands(items[2], seq!["file"@, "line"@, "column"@])
            &&& schema::takes(items[2], "file"@, "string"@)
            &&& schema::takes(items[2], "line"@, "integer"@)
            &&& schema::takes(items[2], "column"@, "integer"@)
            &&& schema::demands(items[3], seq!["query"@])
            &&& schema::takes(items[3], "query"@, "string"@)
            &&& schema::demands(items[4], seq!["file"@])
            &&& schema::takes(items[4], "file"@, "string"@)
        }),
{
    schema::lemma_entry_members();
}

} // verus!
