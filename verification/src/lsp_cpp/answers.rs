//! What clangd's answers mean.
use vstd::prelude::*;

use crate::json::{self, Json, JsonView};
use crate::lsp_cpp::backend::{self, Hover, Location, LocationView, Symbol, SymbolView};
use crate::lsp_messages;
use crate::rpc;
use crate::text;

verus! {

/// A number of the protocol cut to 32 bits.
pub open spec fn low_word(n: u64) -> u32 {
    (n as int % 0x1_0000_0000) as u32
}

pub(crate) fn cut_to_u32(n: u64) -> (r: u32)
    ensures
        r == low_word(n),
{
    (n % 0x1_0000_0000) as u32
}

/// A line or column of the protocol, which counts from zero, counted from one.
pub open spec fn one_based(n: u64) -> u32 {
    low_word(n).wrapping_add(1)
}

/// A path without the scheme of a file.
pub open spec fn path_of_uri(uri: Seq<char>) -> Seq<char> {
    match text::stripped_prefix(uri, "file://"@) {
        Some(rest) => rest,
        None => uri,
    }
}

/// The place that a value tells, where it tells one: a `uri` that is a string
/// and a `range` whose `start` has a `line` and a `character`.
pub open spec fn location_of(v: JsonView) -> Option<LocationView> {
    let start = rpc::member_or_null(rpc::member_or_null(v, "range"@), "start"@);
    match (
        json::member_str(v, "uri"@),
        json::member_u64(start, "line"@),
        json::member_u64(start, "character"@),
    ) {
        (Some(uri), Some(line), Some(column)) => Some(
            LocationView {
                path: path_of_uri(uri),
                line: one_based(line),
                column: one_based(column),
            },
        ),
        _ => None,
    }
}

/// The places that a list tells; items that tell none are left out.
pub open spec fn listed_locations(items: Seq<JsonView>) -> Seq<LocationView>
    decreases items.len(),
{
    if items.len() == 0 {
        Seq::empty()
    } else {
        let before = listed_locations(items.drop_last());
        match location_of(items.last()) {
            Some(l) => before.push(l),
            None => before,
        }
    }
}

/// The places that an answer tells: a list, one, or none.
pub open spec fn locations_in(v: JsonView) -> Seq<LocationView> {
    match v {
        JsonView::Array(items) => listed_locations(items),
        JsonView::Object(_) => match location_of(v) {
            Some(l) => seq![l],
            None => Seq::empty(),
        },
        _ => Seq::empty(),
    }
}

/// The view of an optional place.
pub open spec fn opt_location(l: Option<Location>) -> Option<LocationView> {
    match l {
        Some(l) => Some(l@),
        None => None,
    }
}

fn start_of(v: &Json) -> (r: Option<&Json>)
    ensures
        match r {
            Some(s) => s@ == rpc::member_or_null(rpc::member_or_null(v@, "range"@), "start"@),
            None => rpc::member_or_null(rpc::member_or_null(v@, "range"@), "start"@) is Null,
        },
{
    match v.get("range") {
        Some(range) => range.get("start"),
        None => None,
    }
}

/// Reads one place.
pub fn parse_one_location(value: &Json) -> (r: Option<Location>)
    ensures
        opt_location(r) == location_of(value@),
{
    let uri = match value.get_str("uri") {
        Some(u) => u,
        None => {
            return None;
        },
    };
    let start = match start_of(value) {
        Some(s) => s,
        None => {
            return None;
        },
    };
    let line: u64 = match start.get_u64("line") {
        Some(n) => n,
        None => {
            return None;
        },
    };
    let column: u64 = match start.get_u64("character") {
        Some(n) => n,
        None => {
            return None;
        },
    };
    let path = match text::strip_prefix(uri, "file://") {
        Some(rest) => rest,
        None => uri.to_owned(),
    };
    Some(
        Location {
            path,
            line: cut_to_u32(line).wrapping_add(1),
            column: cut_to_u32(column).wrapping_add(1),
        },
    )
}

/// Reads the places in an answer.
pub fn parse_locations(value: &Json) -> (r: Vec<Location>)
    ensures
        backend::location_views(r@) == locations_in(value@),
{
    let mut r: Vec<Location> = Vec::new();
    assert(backend::location_views(r@) =~= Seq::empty());
    match value.as_array() {
        Some(items) => {
            let ghost listed = json::json_views(items@);
            let mut i: usize = 0;
            assert(listed.subrange(0, 0) =~= Seq::empty());
            while i < items.len()
                invariant
                    i <= items@.len(),
                    listed == json::json_views(items@),
                    backend::location_views(r@) == listed_locations(listed.subrange(0, i as int)),
                decreases items@.len() - i,
            {
                let ghost before = r@;
                match parse_one_location(&items[i]) {
                    Some(l) => {
                        r.push(l);
                        assert(backend::location_views(r@) =~= backend::location_views(
                            before,
                        ).push(l@));
                    },
                    None => {},
                }
                i += 1;
                proof {
                    let seen = listed.subrange(0, i as int);
                    assert(seen.drop_last() =~= listed.subrange(0, i - 1));
                    assert(seen.last() == items@[i - 1]@);
                }
            }
            assert(listed.subrange(0, i as int) =~= listed);
        },
        None => {
            if value.is_object() {
                match parse_one_location(value) {
                    Some(l) => {
                        r.push(l);
                        assert(backend::location_views(r@) =~= seq![l@]);
                    },
                    None => {},
                }
            }
        },
    }
    r
}

/// The text of one part of a hover: a string, or the `value` of an object.
pub open spec fn hover_part(v: JsonView) -> Option<Seq<char>> {
    match json::json_str(v) {
        Some(s) => Some(s),
        None => json::member_str(v, "value"@),
    }
}

/// The texts of the parts of a hover.
pub open spec fn hover_parts(items: Seq<JsonView>) -> Seq<Seq<char>>
    decreases items.len(),
{
    if items.len() == 0 {
        Seq::empty()
    } else {
        let before = hover_parts(items.drop_last());
        match hover_part(items.last()) {
            Some(s) => before.push(s),
            None => before,
        }
    }
}

/// The text of a hover.
pub open spec fn hover_text(contents: JsonView) -> Seq<char> {
    match contents {
        JsonView::Str(s) => s,
        JsonView::Object(_) => match json::member_str(contents, "value"@) {
            Some(s) => s,
            None => Seq::empty(),
        },
        JsonView::Array(items) => text::joined(hover_parts(items), "\n"@),
        _ => Seq::empty(),
    }
}

/// The documentation in an answer; none where the answer is `null` or holds no
/// text.
pub open spec fn hover_in(v: JsonView) -> Option<Seq<char>> {
    let contents = hover_text(rpc::member_or_null(v, "contents"@));
    if contents.len() == 0 {
        None
    } else {
        Some(contents)
    }
}

fn read_hover_part(v: &Json) -> (r: Option<&str>)
    ensures
        text::opt_str_view(r) == hover_part(v@),
{
    match v.as_str() {
        Some(s) => Some(s),
        None => v.get_str("value"),
    }
}

fn read_hover_parts(items: &Vec<Json>) -> (r: Vec<String>)
    ensures
        text::views(r@) == hover_parts(json::json_views(items@)),
{
    let ghost listed = json::json_views(items@);
    let mut parts: Vec<String> = Vec::new();
    let mut i: usize = 0;
    assert(text::views(parts@) =~= hover_parts(listed.subrange(0, 0)));
    while i < items.len()
        invariant
            i <= items@.len(),
            listed == json::json_views(items@),
            text::views(parts@) == hover_parts(listed.subrange(0, i as int)),
        decreases items@.len() - i,
    {
        let ghost before = parts@;
        match read_hover_part(&items[i]) {
            Some(s) => {
                let owned = s.to_owned();
                proof {
                    text::lemma_views_push(before, owned);
                }
                parts.push(owned);
            },
            None => {},
        }
        i += 1;
        proof {
            let seen = listed.subrange(0, i as int);
            assert(seen.drop_last() =~= listed.subrange(0, i - 1));
            assert(seen.last() == items@[i - 1]@);
        }
    }
    assert(listed.subrange(0, i as int) =~= listed);
    parts
}

/// Reads the documentation in an answer.
pub fn parse_hover(value: &Json) -> (r: Option<Hover>)
    ensures
        backend::hover_view(r) == hover_in(value@),
{
    let contents = match value.get("contents") {
        Some(c) => {
            match c.as_str() {
                Some(s) => s.to_owned(),
                None => match c.as_array() {
                    Some(items) => {
                        let parts = read_hover_parts(items);
                        assert(text::views(parts@).subrange(0, parts@.len() as int) =~= text::views(
                            parts@,
                        ));
                        text::join_first(&parts, parts.len(), "\n")
                    },
                    None => match c.get_str("value") {
                        Some(s) => s.to_owned(),
                        None => String::new(),
                    },
                },
            }
        },
        None => String::new(),
    };
    if contents.as_str().is_empty() {
        None
    } else {
        Some(Hover { contents })
    }
}

/// The symbol that a value tells, where it has a name, a kind and a place.
pub open spec fn symbol_of(v: JsonView) -> Option<SymbolView> {
    match (
        json::member_str(v, "name"@),
        json::member_u64(v, "kind"@),
        location_of(rpc::member_or_null(v, "location"@)),
    ) {
        (Some(name), Some(kind), Some(location)) => Some(
            SymbolView {
                name,
                kind: low_word(kind),
                location,
                container: json::member_str(v, "containerName"@),
            },
        ),
        _ => None,
    }
}

/// The symbols that a list tells; items that tell none are left out.
pub open spec fn listed_symbols(items: Seq<JsonView>) -> Seq<SymbolView>
    decreases items.len(),
{
    if items.len() == 0 {
        Seq::empty()
    } else {
        let before = listed_symbols(items.drop_last());
        match symbol_of(items.last()) {
            Some(s) => before.push(s),
            None => before,
        }
    }
}

/// The symbols in an answer.
pub open spec fn symbols_in(v: JsonView) -> Seq<SymbolView> {
    match v {
        JsonView::Array(items) => listed_symbols(items),
        _ => Seq::empty(),
    }
}

/// The view of an optional symbol.
pub open spec fn opt_symbol(s: Option<Symbol>) -> Option<SymbolView> {
    match s {
        Some(s) => Some(s@),
        None => None,
    }
}

fn parse_one_symbol(v: &Json) -> (r: Option<Symbol>)
    ensures
        opt_symbol(r) == symbol_of(v@),
{
    let name = match v.get_str("name") {
        Some(n) => n.to_owned(),
        None => {
            return None;
        },
    };
    let kind: u32 = match v.get_u64("kind") {
        Some(k) => cut_to_u32(k),
        None => {
            return None;
        },
    };
    let location = match v.get("location") {
        Some(l) => match parse_one_location(l) {
            Some(l) => l,
            None => {
                return None;
            },
        },
        None => {
            return None;
        },
    };
    let container = match v.get_str("containerName") {
        Some(c) => Some(c.to_owned()),
        None => None,
    };
    Some(Symbol { name, kind, location, container })
}

/// Reads the symbols in an answer.
pub fn parse_symbols(value: &Json) -> (r: Vec<Symbol>)
    ensures
        backend::symbol_views(r@) == symbols_in(value@),
{
    let mut r: Vec<Symbol> = Vec::new();
    assert(backend::symbol_views(r@) =~= Seq::empty());
    match value.as_array() {
        Some(items) => {
            let ghost listed = json::json_views(items@);
            let mut i: usize = 0;
            assert(listed.subrange(0, 0) =~= Seq::empty());
            while i < items.len()
                invariant
                    i <= items@.len(),
                    listed == json::json_views(items@),
                    backend::symbol_views(r@) == listed_symbols(listed.subrange(0, i as int)),
                decreases items@.len() - i,
            {
                let ghost before = r@;
                match parse_one_symbol(&items[i]) {
                    Some(s) => {
                        r.push(s);
                        assert(backend::symbol_views(r@) =~= backend::symbol_views(before).push(
                            s@,
                        ));
                    },
                    None => {},
                }
                i += 1;
                proof {
                    let seen = listed.subrange(0, i as int);
                    assert(seen.drop_last() =~= listed.subrange(0, i - 1));
                    assert(seen.last() == items@[i - 1]@);
                }
            }
            assert(listed.subrange(0, i as int) =~= listed);
        },
        None => {},
    }
    r
}

/// Whether a value tells a place in the terms of the protocol: an address, and
/// a range that starts at a line and a character.
pub open spec fn tells_place(v: JsonView, uri: Seq<char>, line: u64, character: u64) -> bool {
    &&& json::json_get(v, "uri"@) == Some(JsonView::Str(uri))
    &&& json::json_get(v, "range"@) is Some
    &&& json::json_get(json::json_get(v, "range"@)->0, "start"@) is Some
    &&& json::json_get(json::json_get(json::json_get(v, "range"@)->0, "start"@)->0, "line"@)
        == Some(json::json_int(line as int))
    &&& json::json_get(json::json_get(json::json_get(v, "range"@)->0, "start"@)->0, "character"@)
        == Some(json::json_int(character as int))
}

/// A place that is told is read: the path is the address without `file://`, and
/// line and column are each one more than told, each from its own member.
pub proof fn law_told_place_is_read(v: JsonView, path: Seq<char>, line: u64, character: u64)
    requires
        line < u32::MAX,
        character < u32::MAX,
    ensures
        tells_place(v, "file://"@ + path, line, character) ==> location_of(v) == Some(
            LocationView { path, line: (line + 1) as u32, column: (character + 1) as u32 },
        ),
        tells_place(v, path, line, character) && !text::has_prefix(path, "file://"@)
            ==> location_of(v) == Some(
            LocationView { path, line: (line + 1) as u32, column: (character + 1) as u32 },
        ),
{
    text::lemma_strip_prefix("file://"@, path);
    assert(line as int % 0x1_0000_0000 == line);
    assert(character as int % 0x1_0000_0000 == character);
}

/// A place is read only where one is told: without an address that is a text, or
/// without a line and a character that are numbers, there is none.
pub proof fn law_nothing_is_read_that_is_not_told(v: JsonView)
    ensures
        location_of(v) is Some <==> exists|uri: Seq<char>, line: u64, character: u64| #[trigger]
            tells_place(v, uri, line, character),
{
    if location_of(v) is Some {
        let uri = json::member_str(v, "uri"@)->0;
        let start = rpc::member_or_null(rpc::member_or_null(v, "range"@), "start"@);
        let line = json::member_u64(start, "line"@)->0;
        let character = json::member_u64(start, "character"@)->0;
        assert(tells_place(v, uri, line, character));
    }
}

/// A list is read item by item and in order: the places of two lists put
/// together are those of the first followed by those of the second.
pub proof fn law_places_of_lists_add_up(a: Seq<JsonView>, b: Seq<JsonView>)
    ensures
        listed_locations(a + b) == listed_locations(a) + listed_locations(b),
        locations_in(JsonView::Array(a + b)) == locations_in(JsonView::Array(a)) + locations_in(
            JsonView::Array(b),
        ),
    decreases b.len(),
{
    if b.len() == 0 {
        assert(a + b =~= a);
        assert(listed_locations(a) + Seq::<LocationView>::empty() =~= listed_locations(a));
    } else {
        law_places_of_lists_add_up(a, b.drop_last());
        assert((a + b).drop_last() =~= a + b.drop_last());
        assert((a + b).last() == b.last());
        match location_of(b.last()) {
            Some(l) => {
                assert((listed_locations(a) + listed_locations(b.drop_last())).push(l)
                    =~= listed_locations(a) + listed_locations(b.drop_last()).push(l));
            },
            None => {},
        }
    }
}

/// Whether a value tells a place in a file, with numbers that fit when counted
/// from one.
pub open spec fn tells_small_place(
    v: JsonView,
    path: Seq<char>,
    line: u64,
    character: u64,
) -> bool {
    line < u32::MAX && character < u32::MAX && tells_place(v, "file://"@ + path, line, character)
}

/// Where every item of a list tells a place, each is read, in its own position:
/// none is lost, none is added and none is taken twice, however often one file
/// or one place is named.
pub proof fn law_every_place_is_read(
    items: Seq<JsonView>,
    paths: Seq<Seq<char>>,
    lines: Seq<u64>,
    characters: Seq<u64>,
)
    requires
        paths.len() == items.len(),
        lines.len() == items.len(),
        characters.len() == items.len(),
        forall|i: int|
            0 <= i < items.len() ==> tells_small_place(
                #[trigger] items[i],
                paths[i],
                lines[i],
                characters[i],
            ),
    ensures
        locations_in(JsonView::Array(items)).len() == items.len(),
        forall|i: int|
            #![trigger locations_in(JsonView::Array(items))[i]]
            0 <= i < items.len() ==> {
                let l = locations_in(JsonView::Array(items))[i];
                l.path == paths[i] && l.line == lines[i] + 1 && l.column == characters[i] + 1
            },
    decreases items.len(),
{
    if items.len() > 0 {
        let n = items.len() - 1;
        let before = items.drop_last();
        let places = paths.drop_last();
        let rows = lines.drop_last();
        let columns = characters.drop_last();
        assert forall|i: int| 0 <= i < before.len() implies tells_small_place(
            #[trigger] before[i],
            places[i],
            rows[i],
            columns[i],
        ) by {
            assert(before[i] == items[i]);
            assert(places[i] == paths[i] && rows[i] == lines[i] && columns[i] == characters[i]);
        }
        law_every_place_is_read(before, places, rows, columns);
        assert(items[n] == items.last());
        law_told_place_is_read(items[n], paths[n], lines[n], characters[n]);
        assert forall|i: int|
            #![trigger locations_in(JsonView::Array(items))[i]]
            0 <= i < items.len() implies ({
            let l = locations_in(JsonView::Array(items))[i];
            l.path == paths[i] && l.line == lines[i] + 1 && l.column == characters[i] + 1
        }) by {
            if i < n {
                assert(locations_in(JsonView::Array(items))[i] == locations_in(
                    JsonView::Array(before),
                )[i]);
            }
        }
    }
}

/// An answer that is one place is read as a list of that one, and an answer that
/// is neither a list nor an object tells none.
pub proof fn law_single_place_is_a_list_of_one(v: JsonView)
    ensures
        v is Object ==> locations_in(v) == locations_in(JsonView::Array(seq![v])),
        locations_in(JsonView::Null) == Seq::<LocationView>::empty(),
        locations_in(JsonView::Array(Seq::empty())) == Seq::<LocationView>::empty(),
        !(v is Object) && !(v is Array) ==> locations_in(v) == Seq::<LocationView>::empty(),
{
    let one = seq![v];
    assert(one.drop_last() =~= Seq::empty());
    assert(one.last() == v);
    reveal_with_fuel(listed_locations, 2);
    match location_of(v) {
        Some(l) => {
            assert(Seq::<LocationView>::empty().push(l) =~= seq![l]);
        },
        None => {},
    }
}

/// A place that was read can be asked about: the question names the position
/// that the answer told.
pub proof fn law_read_place_is_asked_about(v: JsonView, path: Seq<char>, line: u64, character: u64)
    requires
        line < u32::MAX,
        character < u32::MAX,
        tells_place(v, "file://"@ + path, line, character),
    ensures
        location_of(v) is Some,
        lsp_messages::names_place(
            lsp_messages::asks_definition(
                location_of(v)->0.path,
                location_of(v)->0.line,
                location_of(v)->0.column,
            ).params,
            path,
            line as int,
            character as int,
        ),
{
    law_told_place_is_read(v, path, line, character);
    lsp_messages::law_question_names_its_place(path, (line + 1) as u32, (character + 1) as u32);
}

/// Documentation is read in each of its shapes: a text as it is, marked-up
/// content by its `value`, and a list part by part with a line end between two.
/// Where there is no text there is none.
pub proof fn law_hover_is_read(answer: JsonView, words: Seq<char>)
    requires
        words.len() > 0,
    ensures
        json::json_get(answer, "contents"@) == Some(JsonView::Str(words)) ==> hover_in(answer)
            == Some(words),
        (json::json_get(answer, "contents"@) matches Some(c) && json::json_get(c, "value"@) == Some(
            JsonView::Str(words),
        )) ==> hover_in(answer) == Some(words),
        json::json_get(answer, "contents"@) is None ==> hover_in(answer) is None,
        json::json_get(answer, "contents"@) == Some(JsonView::Null) ==> hover_in(answer) is None,
        json::json_get(answer, "contents"@) == Some(JsonView::Str(Seq::empty())) ==> hover_in(
            answer,
        ) is None,
        hover_in(JsonView::Null) is None,
        hover_in(answer) is Some ==> hover_in(answer)->0.len() > 0,
{
}

/// The parts of documentation that are texts, or hold one, are joined in order
/// with a line end between each and the next.
pub proof fn law_hover_parts_are_joined(answer: JsonView, items: Seq<JsonView>, texts: Seq<Seq<char>>)
    requires
        json::json_get(answer, "contents"@) == Some(JsonView::Array(items)),
        items.len() == texts.len(),
        text::joined(texts, "\n"@).len() > 0,
        forall|i: int|
            0 <= i < items.len() ==> #[trigger] items[i] == JsonView::Str(texts[i])
                || json::json_get(items[i], "value"@) == Some(JsonView::Str(texts[i])),
    ensures
        hover_in(answer) == Some(text::joined(texts, "\n"@)),
{
    lemma_hover_parts(items, texts);
}

proof fn lemma_hover_parts(items: Seq<JsonView>, texts: Seq<Seq<char>>)
    requires
        items.len() == texts.len(),
        forall|i: int|
            0 <= i < items.len() ==> #[trigger] items[i] == JsonView::Str(texts[i])
                || json::json_get(items[i], "value"@) == Some(JsonView::Str(texts[i])),
    ensures
        hover_parts(items) == texts,
    decreases items.len(),
{
    if items.len() > 0 {
        let before = items.drop_last();
        assert forall|i: int| 0 <= i < before.len() implies #[trigger] before[i] == JsonView::Str(
            texts.drop_last()[i],
        ) || json::json_get(before[i], "value"@) == Some(
            JsonView::Str(texts.drop_last()[i]),
        ) by {
            assert(before[i] == items[i]);
        }
        lemma_hover_parts(before, texts.drop_last());
        assert(items[items.len() - 1] == items.last());
        assert(texts.drop_last().push(texts.last()) =~= texts);
    } else {
        assert(texts =~= Seq::empty());
    }
}

/// Parts of documentation that hold no text are left out, and the others keep
/// their order.
pub proof fn law_hover_parts_add_up(a: Seq<JsonView>, b: Seq<JsonView>)
    ensures
        hover_parts(a + b) == hover_parts(a) + hover_parts(b),
        hover_parts(seq![JsonView::Null]) == Seq::<Seq<char>>::empty(),
    decreases b.len(),
{
    let one = seq![JsonView::Null];
    assert(one.drop_last() =~= Seq::empty());
    reveal_with_fuel(hover_parts, 2);
    if b.len() == 0 {
        assert(a + b =~= a);
        assert(hover_parts(a) + Seq::<Seq<char>>::empty() =~= hover_parts(a));
    } else {
        law_hover_parts_add_up(a, b.drop_last());
        assert((a + b).drop_last() =~= a + b.drop_last());
        assert((a + b).last() == b.last());
        match hover_part(b.last()) {
            Some(s) => {
                assert((hover_parts(a) + hover_parts(b.drop_last())).push(s) =~= hover_parts(a)
                    + hover_parts(b.drop_last()).push(s));
            },
            None => {},
        }
    }
}

/// A symbol is read by its name, its kind and its place; what it is defined in
/// is told where that is a text.
pub proof fn law_told_symbol_is_read(
    v: JsonView,
    name: Seq<char>,
    kind: u64,
    path: Seq<char>,
    line: u64,
    character: u64,
)
    requires
        json::json_get(v, "name"@) == Some(JsonView::Str(name)),
        json::json_get(v, "kind"@) == Some(json::json_int(kind as int)),
        json::json_get(v, "location"@) is Some,
        tells_place(
            json::json_get(v, "location"@)->0,
            "file://"@ + path,
            line,
            character,
        ),
        kind <= u32::MAX,
        line < u32::MAX,
        character < u32::MAX,
    ensures
        symbol_of(v) is Some,
        symbol_of(v)->0.name == name,
        symbol_of(v)->0.kind == kind,
        symbol_of(v)->0.location.path == path,
        symbol_of(v)->0.location.line == line + 1,
        symbol_of(v)->0.location.column == character + 1,
        json::json_get(v, "containerName"@) is None ==> symbol_of(v)->0.container is None,
        json::json_get(v, "containerName"@) matches Some(JsonView::Str(c)) ==> symbol_of(
            v,
        )->0.container == Some(c),
{
    law_told_place_is_read(json::json_get(v, "location"@)->0, path, line, character);
    assert(kind as int % 0x1_0000_0000 == kind);
}

/// A symbol without a name, without a kind or without a place is none.
pub proof fn law_symbol_needs_its_parts(v: JsonView)
    ensures
        symbol_of(v) is Some <==> {
            &&& json::json_get(v, "name"@) matches Some(JsonView::Str(_))
            &&& json::json_get(v, "kind"@) matches Some(k) && json::json_u64(k) is Some
            &&& json::json_get(v, "location"@) matches Some(l) && location_of(l) is Some
        },
        !(v is Array) ==> symbols_in(v) == Seq::<SymbolView>::empty(),
{
}

/// The symbols of two lists put together are those of the first followed by
/// those of the second, and a list of one symbol tells that one.
pub proof fn law_symbols_of_lists_add_up(a: Seq<JsonView>, b: Seq<JsonView>)
    ensures
        symbols_in(JsonView::Array(a + b)) == symbols_in(JsonView::Array(a)) + symbols_in(
            JsonView::Array(b),
        ),
        b.len() == 1 && symbol_of(b[0]) is Some ==> symbols_in(JsonView::Array(b)) == seq![
            symbol_of(b[0])->0,
        ],
        b.len() == 1 && symbol_of(b[0]) is None ==> symbols_in(JsonView::Array(b)).len() == 0,
    decreases b.len(),
{
    reveal_with_fuel(listed_symbols, 2);
    if b.len() == 1 {
        assert(b.drop_last() =~= Seq::empty());
        assert(b.last() == b[0]);
        match symbol_of(b[0]) {
            Some(s) => {
                assert(Seq::<SymbolView>::empty().push(s) =~= seq![s]);
            },
            None => {},
        }
    }
    if b.len() == 0 {
        assert(a + b =~= a);
        assert(listed_symbols(a) + Seq::<SymbolView>::empty() =~= listed_symbols(a));
    } else {
        law_symbols_of_lists_add_up(a, b.drop_last());
        assert((a + b).drop_last() =~= a + b.drop_last());
        assert((a + b).last() == b.last());
        match symbol_of(b.last()) {
            Some(s) => {
                assert((listed_symbols(a) + listed_symbols(b.drop_last())).push(s)
                    =~= listed_symbols(a) + listed_symbols(b.drop_last()).push(s));
            },
            None => {},
        }
    }
}

/// Where every item of a list tells a symbol, each is read, in its own position.
pub proof fn law_every_symbol_is_read(items: Seq<JsonView>)
    requires
        forall|i: int| 0 <= i < items.len() ==> symbol_of(#[trigger] items[i]) is Some,
    ensures
        symbols_in(JsonView::Array(items)).len() == items.len(),
        forall|i: int|
            0 <= i < items.len() ==> #[trigger] symbols_in(JsonView::Array(items))[i] == symbol_of(
                items[i],
            )->0,
    decreases items.len(),
{
    if items.len() > 0 {
        let before = items.drop_last();
        assert forall|i: int| 0 <= i < before.len() implies symbol_of(
            #[trigger] before[i],
        ) is Some by {
            assert(before[i] == items[i]);
        }
        law_every_symbol_is_read(before);
        assert(items[items.len() - 1] == items.last());
        assert forall|i: int| 0 <= i < items.len() implies #[trigger] symbols_in(
            JsonView::Array(items),
        )[i] == symbol_of(items[i])->0 by {
            if i < before.len() {
                assert(symbols_in(JsonView::Array(before))[i] == symbol_of(before[i])->0);
            }
        }
    }
}

} // verus!
