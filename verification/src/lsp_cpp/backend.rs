//! What a language-server backend offers.
use vstd::prelude::*;

use crate::json::{self, Json, JsonView};
use crate::lsp_cpp::error::ShimError;
use crate::text;

verus! {

/// A place in a source file.
#[derive(Debug, Clone, PartialEq, Eq)]
pub struct Location {
    /// Absolute path, without a scheme.
    pub path: String,
    /// Line, counted from one.
    pub line: u32,
    /// Column, counted from one.
    pub column: u32,
}

/// A symbol.
#[derive(Debug, Clone, PartialEq, Eq)]
pub struct Symbol {
    /// Name.
    pub name: String,
    /// Kind, as the protocol numbers it.
    pub kind: u32,
    /// Where it is defined.
    pub location: Location,
    /// What it is defined in.
    pub container: Option<String>,
}

/// Documentation of a symbol.
#[derive(Debug, Clone, PartialEq, Eq)]
pub struct Hover {
    /// Text or markdown.
    pub contents: String,
}

/// What a [`Location`] stands for.
pub struct LocationView {
    pub path: Seq<char>,
    pub line: u32,
    pub column: u32,
}

/// What a [`Symbol`] stands for.
pub struct SymbolView {
    pub name: Seq<char>,
    pub kind: u32,
    pub location: LocationView,
    pub container: Option<Seq<char>>,
}

impl View for Location {
    type V = LocationView;

    open spec fn view(&self) -> LocationView {
        LocationView { path: self.path@, line: self.line, column: self.column }
    }
}

impl View for Symbol {
    type V = SymbolView;

    open spec fn view(&self) -> SymbolView {
        SymbolView {
            name: self.name@,
            kind: self.kind,
            location: self.location@,
            container: text::opt_view(self.container),
        }
    }
}

/// The views of a sequence of places.
pub open spec fn location_views(list: Seq<Location>) -> Seq<LocationView> {
    Seq::new(list.len(), |i: int| list[i]@)
}

/// The views of a sequence of symbols.
pub open spec fn symbol_views(list: Seq<Symbol>) -> Seq<SymbolView> {
    Seq::new(list.len(), |i: int| list[i]@)
}

/// A place as JSON.
pub open spec fn location_json(l: LocationView) -> JsonView {
    JsonView::Object(
        map![
            "path"@ => JsonView::Str(l.path),
            "line"@ => json::json_int(l.line as int),
            "column"@ => json::json_int(l.column as int),
        ],
    )
}

/// A symbol as JSON.
pub open spec fn symbol_json(s: SymbolView) -> JsonView {
    JsonView::Object(
        map![
            "name"@ => JsonView::Str(s.name),
            "kind"@ => json::json_int(s.kind as int),
            "location"@ => location_json(s.location),
            "container"@ => match s.container {
                Some(c) => JsonView::Str(c),
                None => JsonView::Null,
            },
        ],
    )
}

/// Documentation as JSON, `null` where there is none.
pub open spec fn hover_json(contents: Option<Seq<char>>) -> JsonView {
    match contents {
        Some(c) => JsonView::Object(map!["contents"@ => JsonView::Str(c)]),
        None => JsonView::Null,
    }
}

impl Location {
    /// The place as JSON.
    pub fn to_json(&self) -> (r: Json)
        ensures
            r@ == location_json(self@),
    {
        Json::object().put("path", Json::str(self.path.as_str())).put(
            "line",
            Json::uint(self.line as u64),
        ).put("column", Json::uint(self.column as u64))
    }
}

impl Symbol {
    /// The symbol as JSON.
    pub fn to_json(&self) -> (r: Json)
        ensures
            r@ == symbol_json(self@),
    {
        let container = match &self.container {
            Some(c) => Json::str(c.as_str()),
            None => Json::Null,
        };
        Json::object().put("name", Json::str(self.name.as_str())).put(
            "kind",
            Json::uint(self.kind as u64),
        ).put("location", self.location.to_json()).put("container", container)
    }
}

/// Places as JSON.
pub fn locations_to_json(list: &Vec<Location>) -> (r: Json)
    ensures
        r@ == JsonView::Array(
            Seq::new(list@.len(), |i: int| location_json(location_views(list@)[i])),
        ),
{
    let ghost wanted = Seq::new(list@.len(), |i: int| location_json(location_views(list@)[i]));
    let mut items: Vec<Json> = Vec::new();
    let mut i: usize = 0;
    while i < list.len()
        invariant
            i <= list@.len(),
            items@.len() == i,
            forall|j: int| 0 <= j < i ==> (#[trigger] items@[j])@ == location_json(list@[j]@),
        decreases list@.len() - i,
    {
        items.push(list[i].to_json());
        i += 1;
    }
    assert(json::json_views(items@) =~= wanted);
    Json::array(items)
}

/// Symbols as JSON.
pub fn symbols_to_json(list: &Vec<Symbol>) -> (r: Json)
    ensures
        r@ == JsonView::Array(
            Seq::new(list@.len(), |i: int| symbol_json(symbol_views(list@)[i])),
        ),
{
    let ghost wanted = Seq::new(list@.len(), |i: int| symbol_json(symbol_views(list@)[i]));
    let mut items: Vec<Json> = Vec::new();
    let mut i: usize = 0;
    while i < list.len()
        invariant
            i <= list@.len(),
            items@.len() == i,
            forall|j: int| 0 <= j < i ==> (#[trigger] items@[j])@ == symbol_json(list@[j]@),
        decreases list@.len() - i,
    {
        items.push(list[i].to_json());
        i += 1;
    }
    assert(json::json_views(items@) =~= wanted);
    Json::array(items)
}

/// The view of optional documentation.
pub open spec fn hover_view(hover: Option<Hover>) -> Option<Seq<char>> {
    match hover {
        Some(h) => Some(h.contents@),
        None => None,
    }
}

/// Documentation as JSON.
pub fn hover_to_json(hover: &Option<Hover>) -> (r: Json)
    ensures
        r@ == hover_json(hover_view(*hover)),
{
    match hover {
        Some(h) => Json::object().put("contents", Json::str(h.contents.as_str())),
        None => Json::Null,
    }
}

/// Operations that every language-server backend has. The connection has a
/// state, so each takes the backend exclusively.
pub trait LspBackend {
    /// Starts the server and does the handshake, unless that was done already.
    fn spawn(&mut self) -> Result<(), ShimError>;

    /// Finds where the symbol at a place is defined.
    fn definition(&mut self, path: &str, line: u32, column: u32) -> Result<
        Vec<Location>,
        ShimError,
    >;

    /// Finds every reference to the symbol at a place.
    fn references(&mut self, path: &str, line: u32, column: u32) -> Result<
        Vec<Location>,
        ShimError,
    >;

    /// Finds the documentation of the symbol at a place.
    fn hover(&mut self, path: &str, line: u32, column: u32) -> Result<Option<Hover>, ShimError>;

    /// Searches the workspace for symbols.
    fn workspace_symbol(&mut self, query: &str) -> Result<Vec<Symbol>, ShimError>;

    /// Ends the server.
    fn shutdown(&mut self) -> Result<(), ShimError>;
}

/// Places, symbols and documentation are written with every part under its own
/// name.
pub proof fn law_answers_are_written_in_full(l: LocationView, s: SymbolView, words: Seq<char>)
    ensures
        json::json_get(location_json(l), "path"@) == Some(JsonView::Str(l.path)),
        json::json_get(location_json(l), "line"@) == Some(json::json_int(l.line as int)),
        json::json_get(location_json(l), "column"@) == Some(json::json_int(l.column as int)),
        json::json_get(symbol_json(s), "name"@) == Some(JsonView::Str(s.name)),
        json::json_get(symbol_json(s), "kind"@) == Some(json::json_int(s.kind as int)),
        json::json_get(symbol_json(s), "location"@) == Some(location_json(s.location)),
        s.container is None ==> json::json_get(symbol_json(s), "container"@) == Some(JsonView::Null),
        s.container is Some ==> json::json_get(symbol_json(s), "container"@) == Some(
            JsonView::Str(s.container->0),
        ),
        json::json_get(hover_json(Some(words)), "contents"@) == Some(JsonView::Str(words)),
        hover_json(None) == JsonView::Null,
{
    reveal_strlit("path");
    reveal_strlit("line");
    reveal_strlit("column");
    reveal_strlit("name");
    reveal_strlit("kind");
    reveal_strlit("location");
    reveal_strlit("container");
    assert("path"@[0] != "line"@[0]);
    assert("name"@[0] != "kind"@[0]);
    assert("column"@.len() == 6 && "location"@.len() == 8 && "container"@.len() == 9);
}

/// A place, a symbol and a hover are seen as they are, and so is each of a list.
pub proof fn law_answers_are_seen_as_they_are(
    places: Seq<Location>,
    symbols: Seq<Symbol>,
    hover: Hover,
    i: int,
    j: int,
)
    requires
        0 <= i < places.len(),
        0 <= j < symbols.len(),
    ensures
        location_views(places).len() == places.len(),
        location_views(places)[i].path == places[i].path@,
        location_views(places)[i].line == places[i].line,
        location_views(places)[i].column == places[i].column,
        symbol_views(symbols).len() == symbols.len(),
        symbol_views(symbols)[j].name == symbols[j].name@,
        symbol_views(symbols)[j].kind == symbols[j].kind,
        symbol_views(symbols)[j].location.path == symbols[j].location.path@,
        symbol_views(symbols)[j].location.line == symbols[j].location.line,
        symbol_views(symbols)[j].location.column == symbols[j].location.column,
        symbols[j].container is Some ==> symbol_views(symbols)[j].container == Some(
            symbols[j].container->0@,
        ),
        symbols[j].container is None ==> symbol_views(symbols)[j].container is None,
        hover_view(Some(hover)) == Some(hover.contents@),
        hover_view(None) is None,
{
}

} // verus!
