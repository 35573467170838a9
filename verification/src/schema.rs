//! Descriptions of tools: names, texts and the schemas of their arguments.
use vstd::prelude::*;

use crate::json::{self, Json, JsonView};

verus! {

/// Version that the servers report.
pub const VERSION: &'static str = "0.1.0";

/// The result of the handshake.
pub open spec fn handshake(server: Seq<char>) -> JsonView {
    JsonView::Object(
        map![
            "protocolVersion"@ => JsonView::Str("2024-11-05"@),
            "capabilities"@ => JsonView::Object(
                map!["tools"@ => JsonView::Object(Map::empty())],
            ),
            "serverInfo"@ => JsonView::Object(
                map!["name"@ => JsonView::Str(server), "version"@ => JsonView::Str(VERSION@)],
            ),
        ],
    )
}

/// The result of the handshake.
pub fn handshake_result(server: &str) -> (r: Json)
    ensures
        r@ == handshake(server@),
{
    let capabilities = Json::object().put("tools", Json::object());
    let info = Json::object().put("name", Json::str(server)).put("version", Json::str(VERSION));
    Json::object().put("protocolVersion", Json::str("2024-11-05")).put(
        "capabilities",
        capabilities,
    ).put("serverInfo", info)
}

/// An argument of a type.
pub open spec fn plain_arg(kind: Seq<char>) -> JsonView {
    JsonView::Object(map!["type"@ => JsonView::Str(kind)])
}

/// An argument of a type, with a description.
pub open spec fn described_arg(kind: Seq<char>, description: Seq<char>) -> JsonView {
    JsonView::Object(
        map!["type"@ => JsonView::Str(kind), "description"@ => JsonView::Str(description)],
    )
}

/// A list of names.
pub open spec fn names(list: Seq<Seq<char>>) -> JsonView {
    JsonView::Array(Seq::new(list.len(), |i: int| JsonView::Str(list[i])))
}

/// The schema of arguments that are all optional.
pub open spec fn open_schema(args: Map<Seq<char>, JsonView>) -> JsonView {
    JsonView::Object(
        map!["type"@ => JsonView::Str("object"@), "properties"@ => JsonView::Object(args)],
    )
}

/// The schema of arguments of which some are required.
pub open spec fn strict_schema(
    args: Map<Seq<char>, JsonView>,
    required: Seq<Seq<char>>,
) -> JsonView {
    JsonView::Object(
        map![
            "type"@ => JsonView::Str("object"@),
            "properties"@ => JsonView::Object(args),
            "required"@ => names(required),
        ],
    )
}

/// The entry of a tool.
pub open spec fn tool_entry(
    name: Seq<char>,
    description: Seq<char>,
    schema: JsonView,
) -> JsonView {
    JsonView::Object(
        map![
            "name"@ => JsonView::Str(name),
            "description"@ => JsonView::Str(description),
            "inputSchema"@ => schema,
        ],
    )
}

/// The list of tools.
pub open spec fn tool_list(tools: Seq<JsonView>) -> JsonView {
    JsonView::Object(map!["tools"@ => JsonView::Array(tools)])
}

/// An argument of a type.
pub fn arg(kind: &str) -> (r: Json)
    ensures
        r@ == plain_arg(kind@),
{
    Json::object().put("type", Json::str(kind))
}

/// An argument of a type, with a description.
pub fn arg_about(kind: &str, description: &str) -> (r: Json)
    ensures
        r@ == described_arg(kind@, description@),
{
    Json::object().put("type", Json::str(kind)).put("description", Json::str(description))
}

/// The views of a list of string slices.
pub open spec fn slice_views(list: Seq<&str>) -> Seq<Seq<char>> {
    Seq::new(list.len(), |i: int| list[i]@)
}

fn name_list(list: Vec<&str>) -> (r: Json)
    ensures
        r@ == names(slice_views(list@)),
{
    let mut items: Vec<Json> = Vec::new();
    let mut i: usize = 0;
    while i < list.len()
        invariant
            i <= list@.len(),
            items@.len() == i,
            forall|j: int| 0 <= j < i ==> (#[trigger] items@[j])@ == JsonView::Str(list@[j]@),
        decreases list@.len() - i,
    {
        items.push(Json::str(list[i]));
        i += 1;
    }
    assert(json::json_views(items@) =~= names(slice_views(list@))->Array_0);
    Json::array(items)
}

/// The schema of arguments that are all optional.
pub fn schema(args: Json) -> (r: Json)
    requires
        args@ is Object,
    ensures
        r@ == open_schema(args@->Object_0),
{
    Json::object().put("type", Json::str("object")).put("properties", args)
}

/// The schema of arguments of which some are required.
pub fn schema_requiring(args: Json, required: Vec<&str>) -> (r: Json)
    requires
        args@ is Object,
    ensures
        r@ == strict_schema(args@->Object_0, slice_views(required@)),
{
    Json::object().put("type", Json::str("object")).put("properties", args).put(
        "required",
        name_list(required),
    )
}

/// The entry of a tool.
pub fn tool(name: &str, description: &str, schema: Json) -> (r: Json)
    ensures
        r@ == tool_entry(name@, description@, schema@),
{
    Json::object().put("name", Json::str(name)).put("description", Json::str(description)).put(
        "inputSchema",
        schema,
    )
}

/// The list of tools.
pub fn tools(entries: Vec<Json>) -> (r: Json)
    ensures
        r@ == tool_list(json::json_views(entries@)),
{
    Json::object().put("tools", Json::array(entries))
}

/// The handshake tells who the server is, which version of the protocol it speaks
/// and that it has tools.
pub proof fn law_handshake_tells_who_answers(server: Seq<char>)
    ensures
        json::json_get(handshake(server), "protocolVersion"@) == Some(
            JsonView::Str("2024-11-05"@),
        ),
        json::json_get(handshake(server), "serverInfo"@) is Some,
        json::json_get(json::json_get(handshake(server), "serverInfo"@)->0, "name"@) == Some(
            JsonView::Str(server),
        ),
        json::json_get(json::json_get(handshake(server), "serverInfo"@)->0, "version"@) == Some(
            JsonView::Str(VERSION@),
        ),
        json::json_get(handshake(server), "capabilities"@) is Some,
        json::json_get(json::json_get(handshake(server), "capabilities"@)->0, "tools"@) is Some,
{
    reveal_strlit("protocolVersion");
    reveal_strlit("capabilities");
    reveal_strlit("serverInfo");
    reveal_strlit("name");
    reveal_strlit("version");
    assert("protocolVersion"@.len() == 15 && "capabilities"@.len() == 12);
    assert("serverInfo"@.len() == 10 && "name"@.len() == 4 && "version"@.len() == 7);
}

/// A tool is listed with its name, its text and its schema; the schema holds each
/// argument and names those that a call must have, all of them and in order.
pub proof fn law_tool_is_listed_as_made(
    name: Seq<char>,
    description: Seq<char>,
    args: Map<Seq<char>, JsonView>,
    required: Seq<Seq<char>>,
    kind: Seq<char>,
    words: Seq<char>,
    i: int,
)
    requires
        0 <= i < required.len(),
    ensures
        ({
            let schema = strict_schema(args, required);
            let entry = tool_entry(name, description, schema);
            &&& json::json_get(entry, "name"@) == Some(JsonView::Str(name))
            &&& json::json_get(entry, "description"@) == Some(JsonView::Str(description))
            &&& json::json_get(entry, "inputSchema"@) == Some(schema)
            &&& json::json_get(schema, "type"@) == Some(JsonView::Str("object"@))
            &&& json::json_get(schema, "properties"@) == Some(JsonView::Object(args))
            &&& match json::json_get(schema, "required"@) {
                Some(JsonView::Array(listed)) => listed.len() == required.len() && listed[i]
                    == JsonView::Str(required[i]),
                _ => false,
            }
        }),
        json::json_get(open_schema(args), "properties"@) == Some(JsonView::Object(args)),
        json::json_get(open_schema(args), "required"@) is None,
        json::json_get(plain_arg(kind), "type"@) == Some(JsonView::Str(kind)),
        json::json_get(described_arg(kind, words), "type"@) == Some(JsonView::Str(kind)),
        json::json_get(described_arg(kind, words), "description"@) == Some(JsonView::Str(words)),
{
    reveal_strlit("name");
    reveal_strlit("description");
    reveal_strlit("inputSchema");
    reveal_strlit("type");
    reveal_strlit("properties");
    reveal_strlit("required");
    assert("name"@.len() == 4 && "description"@.len() == 11 && "inputSchema"@.len() == 11);
    assert("type"@.len() == 4 && "properties"@.len() == 10 && "required"@.len() == 8);
    assert("description"@[0] != "inputSchema"@[0]);
}

/// Whether a list of tools has one of a name.
pub open spec fn lists(tools: JsonView, name: Seq<char>) -> bool {
    match json::json_get(tools, "tools"@) {
        Some(JsonView::Array(items)) => exists|i: int|
            0 <= i < items.len() && json::json_get(#[trigger] items[i], "name"@) == Some(
                JsonView::Str(name),
            ),
        _ => false,
    }
}

/// The name of an entry is the one it was made with.
pub proof fn lemma_entry_name(name: Seq<char>, description: Seq<char>, schema: JsonView)
    ensures
        json::json_get(tool_entry(name, description, schema), "name"@) == Some(
            JsonView::Str(name),
        ),
{
    reveal_strlit("name");
    reveal_strlit("description");
    reveal_strlit("inputSchema");
    assert("name"@.len() == 4 && "description"@.len() == 11 && "inputSchema"@.len() == 11);
}

/// Whether an entry of a list of tools demands exactly some arguments.
pub open spec fn demands(entry: JsonView, args: Seq<Seq<char>>) -> bool {
    match json::json_get(entry, "inputSchema"@) {
        Some(schema) => match json::json_get(schema, "required"@) {
            Some(JsonView::Array(listed)) => listed.len() == args.len() && forall|i: int|
                0 <= i < listed.len() ==> #[trigger] listed[i] == JsonView::Str(args[i]),
            _ => false,
        },
        None => false,
    }
}

/// Whether an entry of a list of tools takes an argument of a type.
pub open spec fn takes(entry: JsonView, arg: Seq<char>, kind: Seq<char>) -> bool {
    match json::json_get(entry, "inputSchema"@) {
        Some(schema) => match json::json_get(schema, "properties"@) {
            Some(args) => match json::json_get(args, arg) {
                Some(a) => json::json_get(a, "type"@) == Some(JsonView::Str(kind)),
                None => false,
            },
            None => false,
        },
        None => false,
    }
}

/// The names of which an entry is made are all different.
pub proof fn lemma_entry_members()
    ensures
        "name"@ != "description"@,
        "name"@ != "inputSchema"@,
        "description"@ != "inputSchema"@,
        "type"@ != "properties"@,
        "type"@ != "required"@,
        "properties"@ != "required"@,
        "type"@ != "description"@,
        "file"@ != "line"@,
        "file"@ != "column"@,
        "line"@ != "column"@,
{
    reveal_strlit("name");
    reveal_strlit("description");
    reveal_strlit("inputSchema");
    reveal_strlit("type");
    reveal_strlit("properties");
    reveal_strlit("required");
    reveal_strlit("file");
    reveal_strlit("line");
    reveal_strlit("column");
    assert("name"@.len() == 4 && "description"@.len() == 11 && "inputSchema"@.len() == 11);
    assert("type"@.len() == 4 && "properties"@.len() == 10 && "required"@.len() == 8);
    assert("description"@[0] != "inputSchema"@[0]);
    assert("file"@.len() == 4 && "line"@.len() == 4 && "column"@.len() == 6);
    assert("file"@[0] != "line"@[0]);
}

} // verus!
