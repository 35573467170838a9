//! The outer protocol that all servers share: JSON-RPC 2.0 requests, one on a
//! line, and their replies.
use vstd::prelude::*;

use crate::json::{self, Json, JsonView};
use crate::lsp_shim_core::mcp_proto::{code, method};
use crate::text;

verus! {

/// The reply to a request that succeeded.
pub open spec fn success_reply(id: JsonView, result: JsonView) -> JsonView {
    JsonView::Object(
        map!["jsonrpc"@ => JsonView::Str("2.0"@), "id"@ => id, "result"@ => result],
    )
}

/// The body of an error.
pub open spec fn error_body(code: i64, message: Seq<char>, data: Option<JsonView>) -> JsonView {
    let plain = map!["code"@ => json::json_int(code as int), "message"@ => JsonView::Str(message)];
    JsonView::Object(
        match data {
            Some(d) => plain.insert("data"@, d),
            None => plain,
        },
    )
}

/// The reply to a request that failed.
pub open spec fn error_reply(
    id: JsonView,
    code: i64,
    message: Seq<char>,
    data: Option<JsonView>,
) -> JsonView {
    JsonView::Object(
        map![
            "jsonrpc"@ => JsonView::Str("2.0"@),
            "id"@ => id,
            "error"@ => error_body(code, message, data),
        ],
    )
}

/// The reply to a request that succeeded.
pub fn success_response(id: Json, result: Json) -> (r: Json)
    ensures
        r@ == success_reply(id@, result@),
{
    Json::object().put("jsonrpc", Json::str("2.0")).put("id", id).put("result", result)
}

/// The reply to a request that failed.
pub fn error_response(id: Json, code: i64, message: &str, data: Option<Json>) -> (r: Json)
    ensures
        r@ == error_reply(id@, code, message@, json::owned_view(data)),
{
    let plain = Json::object().put("code", Json::integer(code)).put(
        "message",
        Json::str(message),
    );
    let error = match data {
        Some(d) => plain.put("data", d),
        None => plain,
    };
    Json::object().put("jsonrpc", Json::str("2.0")).put("id", id).put("error", error)
}

/// An object with one member that is a string.
pub open spec fn tagged(key: Seq<char>, value: Seq<char>) -> JsonView {
    JsonView::Object(map![key => JsonView::Str(value)])
}

/// The data of an error that has a kind.
pub open spec fn kind_data(kind: Seq<char>) -> JsonView {
    tagged("error_kind"@, kind)
}

/// The data of an error that has a kind.
pub fn error_kind_data(kind: &str) -> (r: Json)
    ensures
        r@ == kind_data(kind@),
{
    Json::object().put("error_kind", Json::str(kind))
}

/// The result of a tool: its payload as indented text.
pub open spec fn tool_result(payload: JsonView) -> JsonView {
    JsonView::Object(
        map![
            "content"@ => JsonView::Array(
                seq![
                    JsonView::Object(
                        map![
                            "type"@ => JsonView::Str("text"@),
                            "text"@ => JsonView::Str(json::json_pretty(payload)),
                        ],
                    ),
                ],
            ),
            "isError"@ => JsonView::Bool(false),
        ],
    )
}

/// The result of a tool: its payload as indented text.
pub fn tool_content(payload: &Json) -> (r: Json)
    ensures
        r@ == tool_result(payload@),
{
    let part = Json::object().put("type", Json::str("text")).put(
        "text",
        Json::Str(payload.to_pretty()),
    );
    let items = vec![part];
    assert(json::json_views(items@) =~= seq![part@]);
    Json::object().put("content", Json::array(items)).put("isError", Json::Bool(false))
}

/// What a line on stdin asks for.
#[derive(Debug)]
pub enum Incoming {
    /// Nothing, and nothing is replied.
    Silent,
    /// Nothing but this reply.
    Reply(Json),
    /// The handshake.
    Initialize {
        id: Json,
    },
    /// The list of tools.
    ToolsList {
        id: Json,
    },
    /// A tool. A notification runs the tool and gets no reply.
    ToolsCall {
        id: Json,
        notification: bool,
        params: Json,
    },
    /// The end of the backend.
    Shutdown {
        id: Json,
        notification: bool,
    },
    /// A method that no server has.
    Unknown {
        id: Json,
        method: String,
    },
}

/// What an [`Incoming`] stands for.
pub enum IncomingView {
    Silent,
    Reply(JsonView),
    Initialize { id: JsonView },
    ToolsList { id: JsonView },
    ToolsCall { id: JsonView, notification: bool, params: JsonView },
    Shutdown { id: JsonView, notification: bool },
    Unknown { id: JsonView, method: Seq<char> },
}

impl View for Incoming {
    type V = IncomingView;

    open spec fn view(&self) -> IncomingView {
        match self {
            Incoming::Silent => IncomingView::Silent,
            Incoming::Reply(r) => IncomingView::Reply(r@),
            Incoming::Initialize { id } => IncomingView::Initialize { id: id@ },
            Incoming::ToolsList { id } => IncomingView::ToolsList { id: id@ },
            Incoming::ToolsCall { id, notification, params } => IncomingView::ToolsCall {
                id: id@,
                notification: *notification,
                params: params@,
            },
            Incoming::Shutdown { id, notification } => IncomingView::Shutdown {
                id: id@,
                notification: *notification,
            },
            Incoming::Unknown { id, method } => IncomingView::Unknown { id: id@, method: method@ },
        }
    }
}

/// A member, or `null` where it is missing.
pub open spec fn member_or_null(v: JsonView, key: Seq<char>) -> JsonView {
    match json::json_get(v, key) {
        Some(m) => m,
        None => JsonView::Null,
    }
}

/// What a request asks for. A request without an `id` is a notification, which
/// never gets a reply.
pub open spec fn request_asks(request: JsonView) -> IncomingView {
    let id = member_or_null(request, "id"@);
    let notification = json::json_get(request, "id"@) is None;
    match json::member_str(request, "method"@) {
        None => if notification {
            IncomingView::Silent
        } else {
            IncomingView::Reply(
                error_reply(id, code::INVALID_PARAMS, "missing `method` field"@, None),
            )
        },
        Some(name) => if name == method::INITIALIZE@ {
            if notification {
                IncomingView::Silent
            } else {
                IncomingView::Initialize { id }
            }
        } else if name == method::INITIALIZED@ {
            IncomingView::Silent
        } else if name == method::TOOLS_LIST@ {
            if notification {
                IncomingView::Silent
            } else {
                IncomingView::ToolsList { id }
            }
        } else if name == method::TOOLS_CALL@ {
            IncomingView::ToolsCall {
                id,
                notification,
                params: member_or_null(request, "params"@),
            }
        } else if name == method::SHUTDOWN@ {
            IncomingView::Shutdown { id, notification }
        } else if notification {
            IncomingView::Silent
        } else {
            IncomingView::Unknown { id, method: name }
        },
    }
}

/// What a line asks for.
pub open spec fn line_asks(line: Seq<char>) -> IncomingView {
    match json::json_of_text(line) {
        Ok(request) => request_asks(request),
        Err(words) => IncomingView::Reply(
            error_reply(
                JsonView::Null,
                code::PARSE_ERROR,
                "malformed JSON: "@ + words,
                None,
            ),
        ),
    }
}

fn copy_or_null(v: Option<&Json>) -> (r: Json)
    ensures
        r@ == match json::opt_json_view(v) {
            Some(m) => m,
            None => JsonView::Null,
        },
{
    match v {
        Some(m) => m.clone(),
        None => Json::Null,
    }
}

/// Tells what a request asks for.
pub fn classify(request: &Json) -> (r: Incoming)
    ensures
        r@ == request_asks(request@),
{
    let id = copy_or_null(request.get("id"));
    let notification = request.get("id").is_none();
    let name = match request.get_str("method") {
        None => {
            return if notification {
                Incoming::Silent
            } else {
                Incoming::Reply(
                    error_response(id, code::INVALID_PARAMS, "missing `method` field", None),
                )
            };
        },
        Some(name) => name,
    };
    if text::str_eq(name, method::INITIALIZE) {
        if notification {
            Incoming::Silent
        } else {
            Incoming::Initialize { id }
        }
    } else if text::str_eq(name, method::INITIALIZED) {
        Incoming::Silent
    } else if text::str_eq(name, method::TOOLS_LIST) {
        if notification {
            Incoming::Silent
        } else {
            Incoming::ToolsList { id }
        }
    } else if text::str_eq(name, method::TOOLS_CALL) {
        let params = copy_or_null(request.get("params"));
        Incoming::ToolsCall { id, notification, params }
    } else if text::str_eq(name, method::SHUTDOWN) {
        Incoming::Shutdown { id, notification }
    } else if notification {
        Incoming::Silent
    } else {
        Incoming::Unknown { id, method: name.to_owned() }
    }
}

/// Reads one line, already trimmed.
pub fn read_line(line: &str) -> (r: Incoming)
    ensures
        r@ == line_asks(line@),
{
    match Json::parse(line) {
        Ok(request) => classify(&request),
        Err(words) => {
            let message = text::concat("malformed JSON: ", words.as_str());
            Incoming::Reply(error_response(Json::Null, code::PARSE_ERROR, message.as_str(), None))
        },
    }
}

/// The reply that is written: none to a notification.
pub open spec fn reply_to(notification: bool, reply: JsonView) -> Option<JsonView> {
    if notification {
        None
    } else {
        Some(reply)
    }
}

/// The name of the tool that a call asks for.
pub open spec fn called_tool(params: JsonView) -> Option<Seq<char>> {
    json::member_str(params, "name"@)
}

/// The arguments of a call: an empty object where there are none.
pub open spec fn call_arguments(params: JsonView) -> JsonView {
    match json::json_get(params, "arguments"@) {
        Some(args) => args,
        None => JsonView::Object(Map::empty()),
    }
}

/// The arguments of a call.
pub fn arguments_of(params: &Json) -> (r: Json)
    ensures
        r@ == call_arguments(params@),
{
    match params.get("arguments") {
        Some(args) => args.clone(),
        None => Json::object(),
    }
}

/// The reply to a call that names no tool.
pub open spec fn missing_name_reply(id: JsonView) -> JsonView {
    error_reply(id, code::INVALID_PARAMS, "tools/call missing `name`"@, None)
}

/// The reply to a call of a tool that the server does not have.
pub open spec fn unknown_tool_reply(id: JsonView, name: Seq<char>) -> JsonView {
    error_reply(
        id,
        code::METHOD_NOT_FOUND,
        "unknown tool: "@ + name,
        Some(kind_data("unknown_tool"@)),
    )
}

/// The reply to a call that names no tool.
pub fn missing_name(id: Json) -> (r: Json)
    ensures
        r@ == missing_name_reply(id@),
{
    error_response(id, code::INVALID_PARAMS, "tools/call missing `name`", None)
}

/// The reply to a call of a tool that the server does not have.
pub fn unknown_tool(id: Json, name: &str) -> (r: Json)
    ensures
        r@ == unknown_tool_reply(id@, name@),
{
    let message = text::concat("unknown tool: ", name);
    error_response(
        id,
        code::METHOD_NOT_FOUND,
        message.as_str(),
        Some(error_kind_data("unknown_tool")),
    )
}

/// A reply is an answer or an error and never both: an error carries no
/// `result` that could pass for a silent `null`, and an answer no `error`.
pub proof fn law_reply_is_one_or_the_other(
    id: JsonView,
    result: JsonView,
    code: i64,
    message: Seq<char>,
    data: Option<JsonView>,
)
    ensures
        json::json_get(success_reply(id, result), "id"@) == Some(id),
        json::json_get(success_reply(id, result), "result"@) == Some(result),
        json::json_get(success_reply(id, result), "error"@) is None,
        json::json_get(error_reply(id, code, message, data), "id"@) == Some(id),
        json::json_get(error_reply(id, code, message, data), "error"@) == Some(
            error_body(code, message, data),
        ),
        json::json_get(error_reply(id, code, message, data), "result"@) is None,
        json::json_get(error_body(code, message, data), "code"@) == Some(
            json::json_int(code as int),
        ),
        json::member_str(error_body(code, message, data), "message"@) == Some(message),
        json::json_get(error_body(code, message, data), "data"@) == data,
{
    reveal_strlit("jsonrpc");
    reveal_strlit("id");
    reveal_strlit("result");
    reveal_strlit("error");
    reveal_strlit("code");
    reveal_strlit("message");
    reveal_strlit("data");
    assert("jsonrpc"@.len() == 7 && "id"@.len() == 2 && "result"@.len() == 6 && "error"@.len() == 5);
    assert("code"@.len() == 4 && "message"@.len() == 7 && "data"@.len() == 4);
    assert("code"@[0] != "data"@[0]);
}

/// No notification is ever replied to: it asks for nothing, or for a tool or
/// the end of the backend with the reply held back.
pub proof fn law_notification_gets_no_reply(request: JsonView)
    requires
        json::json_get(request, "id"@) is None,
    ensures
        match request_asks(request) {
            IncomingView::Silent => true,
            IncomingView::ToolsCall { notification, .. } => notification,
            IncomingView::Shutdown { notification, .. } => notification,
            _ => false,
        },
{
}

/// Malformed input is answered with a parse error under a `null` id.
pub proof fn law_malformed_line_is_answered(line: Seq<char>)
    requires
        json::json_of_text(line) is Err,
    ensures
        line_asks(line) == IncomingView::Reply(
            error_reply(
                JsonView::Null,
                code::PARSE_ERROR,
                "malformed JSON: "@ + json::json_of_text(line)->Err_0,
                None,
            ),
        ),
{
}

/// Whether a request names a method.
pub open spec fn names_method(request: JsonView, name: Seq<char>) -> bool {
    json::json_get(request, "method"@) == Some(JsonView::Str(name))
}

/// The methods of the protocol are all different.
proof fn lemma_methods()
    ensures
        "initialize"@ != "notifications/initialized"@,
        "initialize"@ != "tools/list"@,
        "initialize"@ != "tools/call"@,
        "initialize"@ != "shutdown"@,
        "notifications/initialized"@ != "tools/list"@,
        "notifications/initialized"@ != "tools/call"@,
        "notifications/initialized"@ != "shutdown"@,
        "tools/list"@ != "tools/call"@,
        "tools/list"@ != "shutdown"@,
        "tools/call"@ != "shutdown"@,
{
    reveal_strlit("initialize");
    reveal_strlit("notifications/initialized");
    reveal_strlit("tools/list");
    reveal_strlit("tools/call");
    reveal_strlit("shutdown");
    assert("initialize"@.len() == 10 && "notifications/initialized"@.len() == 25);
    assert("tools/list"@.len() == 10 && "tools/call"@.len() == 10 && "shutdown"@.len() == 8);
    assert("initialize"@[0] != "tools/list"@[0]);
    assert("initialize"@[0] != "tools/call"@[0]);
    assert("tools/list"@[6] != "tools/call"@[6]);
}

/// A request under a number gets what its method asks for, under that number and
/// with what it carries.
pub proof fn law_requests_ask_by_method(request: JsonView, id: JsonView, params: JsonView)
    requires
        json::json_get(request, "id"@) == Some(id),
    ensures
        names_method(request, "initialize"@) ==> request_asks(request)
            == (IncomingView::Initialize { id }),
        names_method(request, "notifications/initialized"@) ==> request_asks(request)
            == IncomingView::Silent,
        names_method(request, "tools/list"@) ==> request_asks(request)
            == (IncomingView::ToolsList { id }),
        names_method(request, "tools/call"@) && json::json_get(request, "params"@) == Some(params)
            ==> request_asks(request) == (IncomingView::ToolsCall {
            id,
            notification: false,
            params,
        }),
        names_method(request, "tools/call"@) && json::json_get(request, "params"@) is None
            ==> request_asks(request) == (IncomingView::ToolsCall {
            id,
            notification: false,
            params: JsonView::Null,
        }),
        names_method(request, "shutdown"@) ==> request_asks(request) == (IncomingView::Shutdown {
            id,
            notification: false,
        }),
        !(json::json_get(request, "method"@) matches Some(JsonView::Str(_))) ==> request_asks(
            request,
        ) is Reply,
{
    lemma_methods();
}

/// A request under a number for any other method is told that there is no such
/// method.
pub proof fn law_other_methods_are_unknown(request: JsonView, id: JsonView, name: Seq<char>)
    requires
        json::json_get(request, "id"@) == Some(id),
        names_method(request, name),
        name != "initialize"@,
        name != "notifications/initialized"@,
        name != "tools/list"@,
        name != "tools/call"@,
        name != "shutdown"@,
    ensures
        request_asks(request) == (IncomingView::Unknown { id, method: name }),
{
}

/// A notification that calls a tool, or ends the backend, is carried out like a
/// request, with the reply held back; any other is passed over.
pub proof fn law_notifications_ask_by_method(request: JsonView, params: JsonView)
    requires
        json::json_get(request, "id"@) is None,
    ensures
        names_method(request, "tools/call"@) && json::json_get(request, "params"@) == Some(params)
            ==> request_asks(request) == (IncomingView::ToolsCall {
            id: JsonView::Null,
            notification: true,
            params,
        }),
        names_method(request, "shutdown"@) ==> request_asks(request) == (IncomingView::Shutdown {
            id: JsonView::Null,
            notification: true,
        }),
        !names_method(request, "tools/call"@) && !names_method(request, "shutdown"@)
            ==> request_asks(request) == IncomingView::Silent,
{
    lemma_methods();
}

/// A line that is JSON asks for what its value asks for.
pub proof fn law_line_asks_what_its_value_asks(line: Seq<char>, request: JsonView)
    requires
        json::json_of_text(line) == json::read_ok(request),
    ensures
        line_asks(line) == request_asks(request),
{
}

/// A call names its tool and carries its arguments as they are; without any it
/// carries an empty object.
pub proof fn law_call_names_tool_and_arguments(params: JsonView, name: Seq<char>, args: JsonView)
    ensures
        json::json_get(params, "name"@) == Some(JsonView::Str(name)) ==> called_tool(params)
            == Some(name),
        !(json::json_get(params, "name"@) matches Some(JsonView::Str(_))) ==> called_tool(
            params,
        ) is None,
        json::json_get(params, "arguments"@) == Some(args) ==> call_arguments(params) == args,
        json::json_get(params, "arguments"@) is None ==> call_arguments(params)
            == JsonView::Object(Map::empty()),
{
}

/// The result of a tool is its payload as text, in the one piece of content, and
/// no error.
pub proof fn law_tool_result_shows_the_payload(payload: JsonView)
    ensures
        ({
            let content = json::json_get(tool_result(payload), "content"@)->0;
            &&& content is Array
            &&& content->Array_0.len() == 1
            &&& json::json_get(content->Array_0[0], "type"@) == Some(JsonView::Str("text"@))
            &&& json::json_get(content->Array_0[0], "text"@) == Some(
                JsonView::Str(json::json_pretty(payload)),
            )
            &&& json::json_get(tool_result(payload), "isError"@) == Some(JsonView::Bool(false))
        }),
{
    reveal_strlit("content");
    reveal_strlit("isError");
    reveal_strlit("type");
    reveal_strlit("text");
    assert("content"@[0] != "isError"@[0]);
    assert("type"@[1] != "text"@[1]);
}

/// Every reply is in version two of the protocol, and a request gets its reply.
pub proof fn law_replies_are_in_the_protocol(
    id: JsonView,
    result: JsonView,
    code: i64,
    message: Seq<char>,
    data: Option<JsonView>,
)
    ensures
        json::json_get(success_reply(id, result), "jsonrpc"@) == Some(JsonView::Str("2.0"@)),
        json::json_get(error_reply(id, code, message, data), "jsonrpc"@) == Some(
            JsonView::Str("2.0"@),
        ),
        reply_to(false, result) == Some(result),
        reply_to(true, result) is None,
{
    reveal_strlit("jsonrpc");
    reveal_strlit("id");
    reveal_strlit("result");
    reveal_strlit("error");
    assert("jsonrpc"@.len() == 7 && "id"@.len() == 2 && "result"@.len() == 6 && "error"@.len() == 5);
}

/// Whether a reply refuses the request under a number, with a code and a message.
pub open spec fn refuses(reply: JsonView, id: JsonView, code: int, message: Seq<char>) -> bool {
    &&& json::json_get(reply, "id"@) == Some(id)
    &&& json::json_get(reply, "result"@) is None
    &&& json::json_get(reply, "error"@) is Some
    &&& json::json_get(json::json_get(reply, "error"@)->0, "code"@) == Some(json::json_int(code))
    &&& json::json_get(json::json_get(reply, "error"@)->0, "message"@) == Some(
        JsonView::Str(message),
    )
}

/// A request that cannot be served is refused under its own number, with the
/// code that the protocol has for the fault and a message that names it.
pub proof fn law_refusals_name_the_fault(
    id: JsonView,
    name: Seq<char>,
    request: JsonView,
    line: Seq<char>,
)
    ensures
        refuses(unknown_tool_reply(id, name), id, -32601, "unknown tool: "@ + name),
        refuses(missing_name_reply(id), id, -32602, "tools/call missing `name`"@),
        json::json_get(request, "id"@) == Some(id) && json::member_str(request, "method"@) is None
            ==> match request_asks(request) {
            IncomingView::Reply(r) => refuses(r, id, -32602, "missing `method` field"@),
            _ => false,
        },
        json::json_of_text(line) is Err ==> match line_asks(line) {
            IncomingView::Reply(r) => refuses(
                r,
                JsonView::Null,
                -32700,
                "malformed JSON: "@ + json::json_of_text(line)->Err_0,
            ),
            _ => false,
        },
{
    law_reply_is_one_or_the_other(
        id,
        JsonView::Null,
        code::METHOD_NOT_FOUND,
        "unknown tool: "@ + name,
        Some(kind_data("unknown_tool"@)),
    );
    law_reply_is_one_or_the_other(
        id,
        JsonView::Null,
        code::INVALID_PARAMS,
        "tools/call missing `name`"@,
        None,
    );
    law_reply_is_one_or_the_other(
        id,
        JsonView::Null,
        code::INVALID_PARAMS,
        "missing `method` field"@,
        None,
    );
    if json::json_of_text(line) is Err {
        law_reply_is_one_or_the_other(
            JsonView::Null,
            JsonView::Null,
            code::PARSE_ERROR,
            "malformed JSON: "@ + json::json_of_text(line)->Err_0,
            None,
        );
    }
}

/// Whether a reply grants the request under a number, with a result.
pub open spec fn grants(reply: JsonView, id: JsonView, result: JsonView) -> bool {
    &&& json::json_get(reply, "id"@) == Some(id)
    &&& json::json_get(reply, "result"@) == Some(result)
    &&& json::json_get(reply, "error"@) is None
}

} // verus!
