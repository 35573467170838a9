//! Messages to a language server, and the clock arithmetic of waiting for an
//! answer.
use vstd::prelude::*;

use crate::json::{self, Json, JsonView};
use crate::text;

verus! {

/// Nanoseconds in a second.
pub const NS_PER_S: u128 = 1_000_000_000;

/// A request.
pub open spec fn request_message(id: int, method: Seq<char>, params: JsonView) -> JsonView {
    JsonView::Object(
        map![
            "jsonrpc"@ => JsonView::Str("2.0"@),
            "id"@ => json::json_int(id),
            "method"@ => JsonView::Str(method),
            "params"@ => params,
        ],
    )
}

/// A notification.
pub open spec fn notification_message(method: Seq<char>, params: JsonView) -> JsonView {
    JsonView::Object(
        map![
            "jsonrpc"@ => JsonView::Str("2.0"@),
            "method"@ => JsonView::Str(method),
            "params"@ => params,
        ],
    )
}

fn numbered(id: Json, method: &str, params: Json) -> (r: Json)
    requires
        id@ is Number,
        id@->Number_0 is Int,
    ensures
        r@ == request_message(id@->Number_0->Int_0, method@, params@),
{
    Json::object().put("jsonrpc", Json::str("2.0")).put("id", id).put("method", Json::str(method)).put(
        "params",
        params,
    )
}

/// Makes a request under a signed number.
pub fn request(id: i64, method: &str, params: Json) -> (r: Json)
    ensures
        r@ == request_message(id as int, method@, params@),
{
    numbered(Json::integer(id), method, params)
}

/// Makes a request under an unsigned number.
pub fn request_unsigned(id: u64, method: &str, params: Json) -> (r: Json)
    ensures
        r@ == request_message(id as int, method@, params@),
{
    numbered(Json::uint(id), method, params)
}

/// Makes a notification.
pub fn notification(method: &str, params: Json) -> (r: Json)
    ensures
        r@ == notification_message(method@, params@),
{
    Json::object().put("jsonrpc", Json::str("2.0")).put("method", Json::str(method)).put(
        "params",
        params,
    )
}

/// The address of a file.
pub open spec fn file_uri(path: Seq<char>) -> Seq<char> {
    "file://"@ + path
}

/// The address of a file.
pub fn uri_of(path: &str) -> (r: String)
    ensures
        r@ == file_uri(path@),
{
    text::concat("file://", path)
}

/// What names a document.
pub open spec fn document(uri: Seq<char>) -> JsonView {
    JsonView::Object(map!["uri"@ => JsonView::Str(uri)])
}

/// Makes what names a document.
fn document_json(uri: &str) -> (r: Json)
    ensures
        r@ == document(uri@),
{
    Json::object().put("uri", Json::str(uri))
}

/// The message that opens a document.
pub open spec fn open_message(uri: Seq<char>, content: Seq<char>) -> JsonView {
    notification_message(
        "textDocument/didOpen"@,
        JsonView::Object(
            map![
                "textDocument"@ => JsonView::Object(
                    map![
                        "uri"@ => JsonView::Str(uri),
                        "languageId"@ => JsonView::Str("cpp"@),
                        "version"@ => json::json_int(1),
                        "text"@ => JsonView::Str(content),
                    ],
                ),
            ],
        ),
    )
}

/// The message that closes a document.
pub open spec fn close_message(uri: Seq<char>) -> JsonView {
    notification_message(
        "textDocument/didClose"@,
        JsonView::Object(map!["textDocument"@ => document(uri)]),
    )
}

/// Makes the message that opens a document.
pub fn did_open(uri: &str, content: &str) -> (r: Json)
    ensures
        r@ == open_message(uri@, content@),
{
    let doc = Json::object().put("uri", Json::str(uri)).put("languageId", Json::str("cpp")).put(
        "version",
        Json::uint(1),
    ).put("text", Json::str(content));
    notification("textDocument/didOpen", Json::object().put("textDocument", doc))
}

/// Makes the message that closes a document.
pub fn did_close(uri: &str) -> (r: Json)
    ensures
        r@ == close_message(uri@),
{
    notification(
        "textDocument/didClose",
        Json::object().put("textDocument", document_json(uri)),
    )
}

/// A number counted from one, counted from zero; zero stays.
pub open spec fn zero_based(n: u32) -> int {
    if n == 0 {
        0
    } else {
        n - 1
    }
}

/// A place in the terms of the protocol.
pub open spec fn position(line: u32, column: u32) -> JsonView {
    JsonView::Object(
        map![
            "line"@ => json::json_int(zero_based(line)),
            "character"@ => json::json_int(zero_based(column)),
        ],
    )
}

/// What a question about a place asks.
pub open spec fn position_params(path: Seq<char>, line: u32, column: u32) -> JsonView {
    JsonView::Object(
        map!["textDocument"@ => document(file_uri(path)), "position"@ => position(line, column)],
    )
}

/// What a question about references asks: the declaration counts as one.
pub open spec fn references_params(path: Seq<char>, line: u32, column: u32) -> JsonView {
    JsonView::Object(
        map![
            "textDocument"@ => document(file_uri(path)),
            "position"@ => position(line, column),
            "context"@ => JsonView::Object(map!["includeDeclaration"@ => JsonView::Bool(true)]),
        ],
    )
}

/// What a search asks.
pub open spec fn query_params(query: Seq<char>) -> JsonView {
    JsonView::Object(map!["query"@ => JsonView::Str(query)])
}

fn zero_based_number(n: u32) -> (r: Json)
    ensures
        r@ == json::json_int(zero_based(n)),
{
    if n == 0 {
        Json::uint(0)
    } else {
        Json::uint((n - 1) as u64)
    }
}

fn position_json(line: u32, column: u32) -> (r: Json)
    ensures
        r@ == position(line, column),
{
    Json::object().put("line", zero_based_number(line)).put("character", zero_based_number(column))
}

/// Makes what a question about a place asks.
fn position_question(path: &str, line: u32, column: u32) -> (r: Json)
    ensures
        r@ == position_params(path@, line, column),
{
    let uri = uri_of(path);
    Json::object().put("textDocument", document_json(uri.as_str())).put(
        "position",
        position_json(line, column),
    )
}

/// Makes what a question about references asks.
fn references_question(path: &str, line: u32, column: u32) -> (r: Json)
    ensures
        r@ == references_params(path@, line, column),
{
    let uri = uri_of(path);
    Json::object().put("textDocument", document_json(uri.as_str())).put(
        "position",
        position_json(line, column),
    ).put("context", Json::object().put("includeDeclaration", Json::Bool(true)))
}

/// Makes what a search asks.
fn query_question(query: &str) -> (r: Json)
    ensures
        r@ == query_params(query@),
{
    Json::object().put("query", Json::str(query))
}

/// The moment some seconds after another.
pub open spec fn moment_after(now_ns: u128, seconds: u64) -> u128 {
    if now_ns + seconds * NS_PER_S > u128::MAX {
        u128::MAX
    } else {
        (now_ns + seconds * NS_PER_S) as u128
    }
}

/// The moment some seconds after another.
pub fn deadline(now_ns: u128, seconds: u64) -> (r: u128)
    ensures
        r == moment_after(now_ns, seconds),
{
    assert(0 <= seconds * NS_PER_S <= u64::MAX * NS_PER_S) by (nonlinear_arith)
        requires
            0 <= seconds <= u64::MAX,
            NS_PER_S == 1_000_000_000,
    ;
    let span: u128 = (seconds as u128) * NS_PER_S;
    if span > u128::MAX - now_ns {
        u128::MAX
    } else {
        now_ns + span
    }
}

/// A question to a language server: the method of the request, and what it
/// asks.
#[derive(Debug)]
pub struct Question {
    pub method: String,
    pub params: Json,
}

/// What a [`Question`] stands for.
pub struct QuestionView {
    pub method: Seq<char>,
    pub params: JsonView,
}

impl View for Question {
    type V = QuestionView;

    open spec fn view(&self) -> QuestionView {
        QuestionView { method: self.method@, params: self.params@ }
    }
}

/// Where the symbol at a place is defined.
pub open spec fn asks_definition(path: Seq<char>, line: u32, column: u32) -> QuestionView {
    QuestionView {
        method: "textDocument/definition"@,
        params: position_params(path, line, column),
    }
}

/// Where the symbol at a place is used.
pub open spec fn asks_references(path: Seq<char>, line: u32, column: u32) -> QuestionView {
    QuestionView {
        method: "textDocument/references"@,
        params: references_params(path, line, column),
    }
}

/// What is documented of the symbol at a place.
pub open spec fn asks_hover(path: Seq<char>, line: u32, column: u32) -> QuestionView {
    QuestionView { method: "textDocument/hover"@, params: position_params(path, line, column) }
}

/// Which symbols of the workspace match.
pub open spec fn asks_symbols(query: Seq<char>) -> QuestionView {
    QuestionView { method: "workspace/symbol"@, params: query_params(query) }
}

/// Which diagnostics a file has.
pub open spec fn asks_diagnostics(path: Seq<char>) -> QuestionView {
    QuestionView {
        method: "textDocument/diagnostic"@,
        params: JsonView::Object(map!["textDocument"@ => document(file_uri(path))]),
    }
}

impl Question {
    /// Asks where the symbol at a place is defined.
    pub fn definition(path: &str, line: u32, column: u32) -> (q: Self)
        ensures
            q@ == asks_definition(path@, line, column),
    {
        Question {
            method: "textDocument/definition".to_owned(),
            params: position_question(path, line, column),
        }
    }

    /// Asks where the symbol at a place is used.
    pub fn references(path: &str, line: u32, column: u32) -> (q: Self)
        ensures
            q@ == asks_references(path@, line, column),
    {
        Question {
            method: "textDocument/references".to_owned(),
            params: references_question(path, line, column),
        }
    }

    /// Asks what is documented of the symbol at a place.
    pub fn hover(path: &str, line: u32, column: u32) -> (q: Self)
        ensures
            q@ == asks_hover(path@, line, column),
    {
        Question {
            method: "textDocument/hover".to_owned(),
            params: position_question(path, line, column),
        }
    }

    /// Asks which symbols of the workspace match.
    pub fn symbols(query: &str) -> (q: Self)
        ensures
            q@ == asks_symbols(query@),
    {
        Question { method: "workspace/symbol".to_owned(), params: query_question(query) }
    }

    /// Asks which diagnostics a file has.
    pub fn diagnostics(path: &str) -> (q: Self)
        ensures
            q@ == asks_diagnostics(path@),
    {
        let uri = uri_of(path);
        Question {
            method: "textDocument/diagnostic".to_owned(),
            params: Json::object().put("textDocument", document_json(uri.as_str())),
        }
    }
}

/// The names under which a message and a question are read are all different.
proof fn lemma_names()
    ensures
        "jsonrpc"@ != "id"@,
        "jsonrpc"@ != "method"@,
        "jsonrpc"@ != "params"@,
        "id"@ != "method"@,
        "id"@ != "params"@,
        "method"@ != "params"@,
        "textDocument"@ != "position"@,
        "textDocument"@ != "context"@,
        "position"@ != "context"@,
        "line"@ != "character"@,
        "uri"@ != "languageId"@,
        "uri"@ != "version"@,
        "uri"@ != "text"@,
        "languageId"@ != "version"@,
        "languageId"@ != "text"@,
        "version"@ != "text"@,
{
    reveal_strlit("jsonrpc");
    reveal_strlit("id");
    reveal_strlit("method");
    reveal_strlit("params");
    reveal_strlit("textDocument");
    reveal_strlit("position");
    reveal_strlit("context");
    reveal_strlit("line");
    reveal_strlit("character");
    reveal_strlit("uri");
    reveal_strlit("languageId");
    reveal_strlit("version");
    reveal_strlit("text");
    assert("method"@[0] != "params"@[0]);
    assert("jsonrpc"@.len() == 7 && "id"@.len() == 2 && "method"@.len() == 6);
    assert("textDocument"@.len() == 12 && "position"@.len() == 8 && "context"@.len() == 7);
    assert("line"@.len() == 4 && "character"@.len() == 9);
    assert("uri"@.len() == 3 && "languageId"@.len() == 10 && "version"@.len() == 7);
    assert("text"@.len() == 4);
}

/// A place is asked about by the address of its file and by its line and
/// column, each one less than counted from one, each under its own name.
pub proof fn law_question_names_its_place(path: Seq<char>, line: u32, column: u32)
    requires
        line >= 1,
        column >= 1,
    ensures
        names_place(asks_definition(path, line, column).params, path, line - 1, column - 1),
        names_place(asks_references(path, line, column).params, path, line - 1, column - 1),
        names_place(asks_hover(path, line, column).params, path, line - 1, column - 1),
        asks_definition(path, line, column).method == "textDocument/definition"@,
        asks_references(path, line, column).method == "textDocument/references"@,
        asks_hover(path, line, column).method == "textDocument/hover"@,
{
    lemma_names();
}

/// Whether the members of a question name a place in the terms of the protocol.
pub open spec fn names_place(params: JsonView, path: Seq<char>, line: int, column: int) -> bool {
    &&& json::json_get(params, "textDocument"@) is Some
    &&& json::json_get(json::json_get(params, "textDocument"@)->0, "uri"@) == Some(
        JsonView::Str("file://"@ + path),
    )
    &&& json::json_get(params, "position"@) is Some
    &&& json::json_get(json::json_get(params, "position"@)->0, "line"@) == Some(
        json::json_int(line),
    )
    &&& json::json_get(json::json_get(params, "position"@)->0, "character"@) == Some(
        json::json_int(column),
    )
}

/// A line or column zero, which there is not, is asked about as the first, and
/// it does not touch the other.
pub proof fn law_zero_is_the_first(path: Seq<char>, line: u32, column: u32)
    requires
        line >= 1,
        column >= 1,
    ensures
        asks_definition(path, 0, column) == asks_definition(path, 1, column),
        asks_definition(path, line, 0) == asks_definition(path, line, 1),
        asks_references(path, 0, column) == asks_references(path, 1, column),
        asks_references(path, line, 0) == asks_references(path, line, 1),
        asks_hover(path, 0, column) == asks_hover(path, 1, column),
        asks_hover(path, line, 0) == asks_hover(path, line, 1),
{
}

/// Definition, references and documentation of one place ask about one document
/// and one position, and a question about references asks for the declaration
/// too.
pub proof fn law_one_place_one_position(path: Seq<char>, line: u32, column: u32)
    ensures
        ({
            let definition = asks_definition(path, line, column).params;
            let references = asks_references(path, line, column).params;
            let hover = asks_hover(path, line, column).params;
            &&& definition == hover
            &&& json::json_get(definition, "position"@) == json::json_get(references, "position"@)
            &&& json::json_get(definition, "textDocument"@) == json::json_get(
                references,
                "textDocument"@,
            )
            &&& json::json_get(definition, "context"@) is None
            &&& json::json_get(references, "context"@) is Some
            &&& json::json_get(
                json::json_get(references, "context"@)->0,
                "includeDeclaration"@,
            ) == Some(JsonView::Bool(true))
        }),
{
    lemma_names();
}

/// Different places are asked about differently.
pub proof fn law_places_are_told_apart(
    path: Seq<char>,
    line: u32,
    column: u32,
    other_path: Seq<char>,
    other_line: u32,
    other_column: u32,
)
    requires
        line >= 1,
        column >= 1,
        other_line >= 1,
        other_column >= 1,
        path != other_path || line != other_line || column != other_column,
    ensures
        asks_definition(path, line, column) != asks_definition(
            other_path,
            other_line,
            other_column,
        ),
        asks_references(path, line, column) != asks_references(
            other_path,
            other_line,
            other_column,
        ),
        asks_hover(path, line, column) != asks_hover(other_path, other_line, other_column),
{
    law_question_names_its_place(path, line, column);
    law_question_names_its_place(other_path, other_line, other_column);
    let one = json::json_int(line - 1);
    let other = json::json_int(other_line - 1);
    assert(one->Number_0->Int_0 == line - 1 && other->Number_0->Int_0 == other_line - 1);
    let one = json::json_int(column - 1);
    let other = json::json_int(other_column - 1);
    assert(one->Number_0->Int_0 == column - 1 && other->Number_0->Int_0 == other_column - 1);
    let a = "file://"@ + path;
    let b = "file://"@ + other_path;
    text::lemma_strip_prefix("file://"@, path);
    text::lemma_strip_prefix("file://"@, other_path);
    assert(path != other_path ==> a != b);
}

/// A search asks for its query, and the diagnostics of a file ask for the file,
/// under the methods of the protocol.
pub proof fn law_searches_name_what_they_seek(query: Seq<char>, path: Seq<char>)
    ensures
        asks_symbols(query).method == "workspace/symbol"@,
        json::json_get(asks_symbols(query).params, "query"@) == Some(JsonView::Str(query)),
        asks_diagnostics(path).method == "textDocument/diagnostic"@,
        json::json_get(asks_diagnostics(path).params, "textDocument"@) is Some,
        json::json_get(
            json::json_get(asks_diagnostics(path).params, "textDocument"@)->0,
            "uri"@,
        ) == Some(JsonView::Str("file://"@ + path)),
{
}

/// A request carries its number, its method and what it asks; a notification
/// carries the same without a number.
pub proof fn law_messages_carry_their_parts(id: int, method: Seq<char>, params: JsonView)
    ensures
        json::json_get(request_message(id, method, params), "jsonrpc"@) == Some(
            JsonView::Str("2.0"@),
        ),
        json::json_get(request_message(id, method, params), "id"@) == Some(json::json_int(id)),
        json::json_get(request_message(id, method, params), "method"@) == Some(
            JsonView::Str(method),
        ),
        json::json_get(request_message(id, method, params), "params"@) == Some(params),
        json::json_get(notification_message(method, params), "jsonrpc"@) == Some(
            JsonView::Str("2.0"@),
        ),
        json::json_get(notification_message(method, params), "id"@) is None,
        json::json_get(notification_message(method, params), "method"@) == Some(
            JsonView::Str(method),
        ),
        json::json_get(notification_message(method, params), "params"@) == Some(params),
{
    lemma_names();
}

/// The message that opens a document carries its address and its whole text as
/// C++; the one that closes it names the same document.
pub proof fn law_documents_are_opened_and_closed(uri: Seq<char>, content: Seq<char>)
    ensures
        ({
            let opened = json::json_get(open_message(uri, content), "params"@)->0;
            let closed = json::json_get(close_message(uri), "params"@)->0;
            let document = json::json_get(opened, "textDocument"@)->0;
            let named = json::json_get(closed, "textDocument"@)->0;
            &&& json::json_get(open_message(uri, content), "method"@) == Some(
                JsonView::Str("textDocument/didOpen"@),
            )
            &&& json::json_get(close_message(uri), "method"@) == Some(
                JsonView::Str("textDocument/didClose"@),
            )
            &&& json::json_get(open_message(uri, content), "id"@) is None
            &&& json::json_get(close_message(uri), "id"@) is None
            &&& json::json_get(document, "uri"@) == Some(JsonView::Str(uri))
            &&& json::json_get(document, "text"@) == Some(JsonView::Str(content))
            &&& json::json_get(document, "languageId"@) == Some(JsonView::Str("cpp"@))
            &&& json::json_get(document, "version"@) == Some(json::json_int(1))
            &&& json::json_get(named, "uri"@) == Some(JsonView::Str(uri))
        }),
{
    lemma_names();
}

/// A deadline lies its seconds after now, at the end of the clock at the latest.
pub proof fn law_deadline_is_its_seconds_away(now_ns: u128, seconds: u64)
    ensures
        now_ns + seconds * 1_000_000_000 <= u128::MAX ==> moment_after(now_ns, seconds) - now_ns
            == seconds * 1_000_000_000,
        now_ns + seconds * 1_000_000_000 > u128::MAX ==> moment_after(now_ns, seconds)
            == u128::MAX,
{
}

/// A question is seen as it is.
pub proof fn law_question_is_seen_as_it_is(q: Question)
    ensures
        q@.method == q.method@,
        q@.params == q.params@,
{
}

} // verus!
