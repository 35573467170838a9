//! Arguments of the rust-analyzer command line.
use vstd::prelude::*;

use crate::json::{self, Json, JsonView};
use crate::lsp_rust::lsp::{self, LspErrorView, LspShimError};
use crate::text;

verus! {

/// The failure that a location has no column.
pub open spec fn no_column(s: Seq<char>) -> Seq<char> {
    "bad location "@ + text::quoted(s) + ": expected file:line:col"@
}

/// The failure that a location has no line.
pub open spec fn no_line(s: Seq<char>) -> Seq<char> {
    "bad location "@ + text::quoted(s) + ": missing line"@
}

/// The failure that a number is none.
pub open spec fn bad_number(what: Seq<char>, s: Seq<char>, fault: text::IntFault) -> Seq<char> {
    "bad "@ + what + " "@ + text::quoted(s) + ": "@ + text::fault_text(fault)
}

/// The file, line and column that `file:line:column` names, or what is wrong
/// with it. Only the last two colons count, so a path may hold more.
pub open spec fn location_in(s: Seq<char>) -> Result<(Seq<char>, u32, u32), Seq<char>> {
    match text::split_last(s, ':') {
        None => Err(no_column(s)),
        Some((rest, column_text)) => match text::split_last(rest, ':') {
            None => Err(no_line(s)),
            Some((file, line_text)) => match (
                text::parse_uint(line_text, u32::MAX as nat),
                text::parse_uint(column_text, u32::MAX as nat),
            ) {
                (Err(fault), _) => Err(bad_number("line"@, line_text, fault)),
                (_, Err(fault)) => Err(bad_number("column"@, column_text, fault)),
                (Ok(line), Ok(column)) => Ok((file, line as u32, column as u32)),
            },
        },
    }
}

fn bad_location(s: &str, why: &str) -> (e: LspShimError)
    ensures
        e@ == LspErrorView::Protocol("bad location "@ + text::quoted(s@) + why@),
{
    let mut words = text::concat("bad location ", text::quote(s).as_str());
    words.append(why);
    LspShimError::Protocol(words)
}

fn not_a_number(what: &str, s: &str, fault: text::IntFault) -> (e: LspShimError)
    ensures
        e@ == LspErrorView::Protocol(bad_number(what@, s@, fault)),
{
    let mut words = text::concat("bad ", what);
    words.append(" ");
    words.append(text::quote(s).as_str());
    words.append(": ");
    words.append(fault.message());
    LspShimError::Protocol(words)
}

/// Reads a location.
pub fn parse_location(s: &str) -> (r: Result<(String, u32, u32), LspShimError>)
    ensures
        match (r, location_in(s@)) {
            (Ok((file, line, column)), Ok(v)) => (file@, line, column) == v,
            (Err(e), Err(words)) => e@ == LspErrorView::Protocol(words),
            _ => false,
        },
{
    let (rest, column_text) = match text::rsplit_once(s, ':') {
        Some(cut) => cut,
        None => {
            return Err(bad_location(s, ": expected file:line:col"));
        },
    };
    let (file, line_text) = match text::rsplit_once(rest.as_str(), ':') {
        Some(cut) => cut,
        None => {
            return Err(bad_location(s, ": missing line"));
        },
    };
    let line: u32 = match text::parse_u32(line_text.as_str()) {
        Ok(n) => n,
        Err(fault) => {
            return Err(not_a_number("line", line_text.as_str(), fault));
        },
    };
    let column: u32 = match text::parse_u32(column_text.as_str()) {
        Ok(n) => n,
        Err(fault) => {
            return Err(not_a_number("column", column_text.as_str(), fault));
        },
    };
    Ok((file, line, column))
}

/// A place that is written out is read back.
pub proof fn law_location_round_trip(file: Seq<char>, line: u32, column: u32)
    ensures
        location_in(
            file + seq![':'] + text::dec(line as nat) + seq![':'] + text::dec(column as nat),
        ) == Ok::<(Seq<char>, u32, u32), Seq<char>>((file, line, column)),
{
    let head = file + seq![':'] + text::dec(line as nat);
    text::lemma_parse_dec(line as nat, u32::MAX as nat);
    text::lemma_parse_dec(column as nat, u32::MAX as nat);
    text::lemma_dec_is_digits(line as nat);
    text::lemma_dec_is_digits(column as nat);
    text::lemma_split_last_join(head, ':', text::dec(column as nat));
    text::lemma_split_last_join(file, ':', text::dec(line as nat));
}

/// The workspace root: from the command line, else from its variable, else the
/// current directory.
pub fn resolve_workspace(
    flag: Option<String>,
    variable: Option<String>,
    current_dir: Option<String>,
) -> (r: Option<String>)
    ensures
        r == match (flag, variable) {
            (Some(w), _) => Some(w),
            (None, Some(w)) => Some(w),
            (None, None) => current_dir,
        },
{
    match flag {
        Some(w) => Some(w),
        None => match variable {
            Some(w) => Some(w),
            None => current_dir,
        },
    }
}

/// A failure as it is written to the terminal.
pub open spec fn failure_report(error: Seq<char>, kind: Seq<char>) -> JsonView {
    JsonView::Object(map!["error"@ => JsonView::Str(error), "kind"@ => JsonView::Str(kind)])
}

fn report(error: &str, kind: &str) -> (r: Json)
    ensures
        r@ == failure_report(error@, kind@),
{
    Json::object().put("error", Json::str(error)).put("kind", Json::str(kind))
}

/// What is written where there is no workspace root.
pub fn no_workspace() -> (r: Json)
    ensures
        r@ == failure_report(
            "no workspace root resolvable; pass --workspace or set LSP_PROJECT"@,
            "internal"@,
        ),
{
    report("no workspace root resolvable; pass --workspace or set LSP_PROJECT", "internal")
}

/// What is written of a failure.
pub fn failure(e: &LspShimError) -> (r: Json)
    ensures
        r@ == failure_report(lsp::error_text(e@), lsp::error_tag(e@)),
{
    report(e.message().as_str(), e.error_kind())
}

/// What is written of a server loop that ended in an input/output failure.
pub fn serve_failure(words: &str) -> (r: Json)
    ensures
        r@ == failure_report(words@, "io"@),
{
    report(words, "io")
}

/// A failure is reported with its words and its kind.
pub proof fn law_report_tells_words_and_kind(words: Seq<char>, kind: Seq<char>)
    ensures
        json::json_get(failure_report(words, kind), "error"@) == Some(JsonView::Str(words)),
        json::json_get(failure_report(words, kind), "kind"@) == Some(JsonView::Str(kind)),
{
    reveal_strlit("error");
    reveal_strlit("kind");
    assert("error"@.len() == 5 && "kind"@.len() == 4);
}

/// A place without a colon, or with only one, is refused and quoted; so is a line or
/// a column that is no number.
pub proof fn law_bad_places_are_quoted(file: Seq<char>, line: Seq<char>, column: Seq<char>, n: u32)
    requires
        forall|i: int| 0 <= i < file.len() ==> #[trigger] file[i] != ':',
        forall|i: int| 0 <= i < line.len() ==> #[trigger] line[i] != ':',
        forall|i: int| 0 <= i < column.len() ==> #[trigger] column[i] != ':',
    ensures
        location_in(file) == Err::<(Seq<char>, u32, u32), Seq<char>>(
            "bad location "@ + text::quoted(file) + ": expected file:line:col"@,
        ),
        location_in(file + seq![':'] + line) == Err::<(Seq<char>, u32, u32), Seq<char>>(
            "bad location "@ + text::quoted(file + seq![':'] + line) + ": missing line"@,
        ),
        text::parse_uint(line, u32::MAX as nat) matches Err(fault) ==> location_in(
            file + seq![':'] + line + seq![':'] + column,
        ) == Err::<(Seq<char>, u32, u32), Seq<char>>(
            "bad "@ + "line"@ + " "@ + text::quoted(line) + ": "@ + text::fault_text(fault),
        ),
        text::parse_uint(column, u32::MAX as nat) matches Err(fault) ==> location_in(
            file + seq![':'] + text::dec(n as nat) + seq![':'] + column,
        ) == Err::<(Seq<char>, u32, u32), Seq<char>>(
            "bad "@ + "column"@ + " "@ + text::quoted(column) + ": "@ + text::fault_text(fault),
        ),
{
    text::law_no_separator_no_cut(file, ':');
    text::lemma_split_last_join(file, ':', line);
    text::lemma_split_last_join(file + seq![':'] + line, ':', column);
    text::lemma_parse_dec(n as nat, u32::MAX as nat);
    text::lemma_dec_is_digits(n as nat);
    text::lemma_split_last_join(file, ':', text::dec(n as nat));
    text::lemma_split_last_join(file + seq![':'] + text::dec(n as nat), ':', column);
}

} // verus!
