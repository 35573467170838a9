//! Arguments of the clangd command line.
use vstd::prelude::*;

use crate::json::{self, Json, JsonView};
use crate::lsp_cpp::backend::{self, Symbol, SymbolView};
use crate::lsp_cpp::clangd::{self, IndexMode, IndexModeView};
use crate::lsp_cpp::error::{self, ShimError, ShimErrorView};
use crate::lsp_cpp::full_index::BUILD_FULL_INDEX_DEFAULT_MAX_TUS;
use crate::text;

verus! {

/// Project root where none is named.
pub const DEFAULT_PROJECT: &'static str = "/path/to/project";

/// Symbol that the probe searches for.
pub const PROBE_QUERY: &'static str = "FFrame";

/// Kind of index mode that the command line names.
#[derive(Debug, Clone, Copy, PartialEq, Eq, Structural)]
pub enum ModeFlag {
    Narrow,
    Full,
    Hybrid,
}

/// What the options and the other arguments say.
#[derive(Debug)]
pub struct Flags {
    pub project: Option<String>,
    pub mode: Option<ModeFlag>,
    pub index_file: Option<String>,
    pub max_tus: Option<usize>,
    pub positional: Vec<String>,
}

/// What [`Flags`] stand for.
#[verifier::ext_equal]
pub struct FlagsView {
    pub project: Option<Seq<char>>,
    pub mode: Option<ModeFlag>,
    pub index_file: Option<Seq<char>>,
    pub max_tus: Option<usize>,
    pub positional: Seq<Seq<char>>,
}

impl View for Flags {
    type V = FlagsView;

    open spec fn view(&self) -> FlagsView {
        FlagsView {
            project: text::opt_view(self.project),
            mode: self.mode,
            index_file: text::opt_view(self.index_file),
            max_tus: self.max_tus,
            positional: text::views(self.positional@),
        }
    }
}

/// Why nothing is run.
#[derive(Debug)]
pub enum Stop {
    /// Help was asked for.
    Help,
    /// There is no subcommand.
    Usage,
    /// An argument makes no sense.
    Bad(String),
    /// There is no such subcommand.
    UnknownCommand(String),
}

/// What a [`Stop`] stands for.
pub enum StopView {
    Help,
    Usage,
    Bad(Seq<char>),
    UnknownCommand(Seq<char>),
}

impl View for Stop {
    type V = StopView;

    open spec fn view(&self) -> StopView {
        match self {
            Stop::Help => StopView::Help,
            Stop::Usage => StopView::Usage,
            Stop::Bad(m) => StopView::Bad(m@),
            Stop::UnknownCommand(c) => StopView::UnknownCommand(c@),
        }
    }
}

/// The argument at a place; an empty one behind the last.
pub open spec fn value_at(args: Seq<Seq<char>>, i: int) -> Seq<char> {
    if 0 <= i < args.len() {
        args[i]
    } else {
        Seq::empty()
    }
}

/// The index mode that a word names.
pub open spec fn mode_named(word: Seq<char>) -> Option<ModeFlag> {
    if word == "narrow"@ {
        Some(ModeFlag::Narrow)
    } else if word == "full"@ {
        Some(ModeFlag::Full)
    } else if word == "hybrid"@ {
        Some(ModeFlag::Hybrid)
    } else {
        None
    }
}

/// A positive number of files.
pub open spec fn positive(word: Seq<char>) -> Option<usize> {
    match text::parse_uint(word, usize::MAX as nat) {
        Ok(n) => if n > 0 {
            Some(n as usize)
        } else {
            None
        },
        Err(_) => None,
    }
}

/// What the arguments from one place on add to what was read before it. The last
/// of several equal options counts, and an option without a value has an empty
/// one.
pub open spec fn flags_from(args: Seq<Seq<char>>, i: int, so_far: FlagsView) -> Result<
    FlagsView,
    StopView,
>
    decreases args.len() + 1 - i,
{
    if i < 0 || i >= args.len() {
        Ok(so_far)
    } else {
        let word = args[i];
        let value = value_at(args, i + 1);
        if word == "--project"@ {
            flags_from(args, i + 2, FlagsView { project: Some(value), ..so_far })
        } else if word == "--max-tus"@ {
            match positive(value) {
                Some(n) => flags_from(args, i + 2, FlagsView { max_tus: Some(n), ..so_far }),
                None => Err(
                    StopView::Bad(
                        "--max-tus expects a positive integer, got "@ + text::quoted(value),
                    ),
                ),
            }
        } else if word == "--mode"@ {
            match mode_named(value) {
                Some(m) => flags_from(args, i + 2, FlagsView { mode: Some(m), ..so_far }),
                None => Err(
                    StopView::Bad(
                        "unknown --mode "@ + text::quoted(value)
                            + " (expected narrow|full|hybrid)"@,
                    ),
                ),
            }
        } else if word == "--index-file"@ {
            flags_from(args, i + 2, FlagsView { index_file: Some(value), ..so_far })
        } else if word == "-h"@ || word == "--help"@ {
            Err(StopView::Help)
        } else {
            flags_from(
                args,
                i + 1,
                FlagsView { positional: so_far.positional.push(word), ..so_far },
            )
        }
    }
}

/// Nothing read yet.
pub open spec fn no_flags() -> FlagsView {
    FlagsView {
        project: None,
        mode: None,
        index_file: None,
        max_tus: None,
        positional: Seq::empty(),
    }
}

fn word_at(args: &Vec<String>, i: usize) -> (r: String)
    ensures
        r@ == value_at(text::views(args@), i as int),
{
    if i < args.len() {
        args[i].clone()
    } else {
        String::new()
    }
}

fn read_mode(word: &str) -> (r: Option<ModeFlag>)
    ensures
        r == mode_named(word@),
{
    if text::str_eq(word, "narrow") {
        Some(ModeFlag::Narrow)
    } else if text::str_eq(word, "full") {
        Some(ModeFlag::Full)
    } else if text::str_eq(word, "hybrid") {
        Some(ModeFlag::Hybrid)
    } else {
        None
    }
}

fn read_positive(word: &str) -> (r: Option<usize>)
    ensures
        r == positive(word@),
{
    match text::parse_usize(word) {
        Ok(n) => if n > 0 {
            Some(n)
        } else {
            None
        },
        Err(_) => None,
    }
}

/// Reads the arguments behind the name of the program.
pub fn parse_flags(args: &Vec<String>) -> (r: Result<Flags, Stop>)
    ensures
        match (r, flags_from(text::views(args@), 0, no_flags())) {
            (Ok(f), Ok(v)) => f@ == v,
            (Err(e), Err(v)) => e@ == v,
            _ => false,
        },
{
    let ghost words = text::views(args@);
    let mut flags = Flags {
        project: None,
        mode: None,
        index_file: None,
        max_tus: None,
        positional: Vec::new(),
    };
    assert(flags@ =~= no_flags());
    let mut i: usize = 0;
    while i < args.len()
        invariant
            words == text::views(args@),
            i <= args@.len(),
            flags_from(words, i as int, flags@) == flags_from(words, 0, no_flags()),
        decreases args@.len() - i,
    {
        let ghost at = i;
        let word = args[i].as_str();
        assert(word@ == words[i as int]);
        let step: usize = if i + 1 < args.len() {
            2
        } else {
            1
        };
        if text::str_eq(word, "--project") {
            let value = word_at(args, i + 1);
            flags.project = Some(value);
            i = i + step;
        } else if text::str_eq(word, "--max-tus") {
            let value = word_at(args, i + 1);
            match read_positive(value.as_str()) {
                Some(n) => {
                    flags.max_tus = Some(n);
                    i = i + step;
                },
                None => {
                    return Err(
                        Stop::Bad(
                            text::concat(
                                "--max-tus expects a positive integer, got ",
                                text::quote(value.as_str()).as_str(),
                            ),
                        ),
                    );
                },
            }
        } else if text::str_eq(word, "--mode") {
            let value = word_at(args, i + 1);
            match read_mode(value.as_str()) {
                Some(m) => {
                    flags.mode = Some(m);
                    i = i + step;
                },
                None => {
                    let mut words = text::concat(
                        "unknown --mode ",
                        text::quote(value.as_str()).as_str(),
                    );
                    words.append(" (expected narrow|full|hybrid)");
                    return Err(Stop::Bad(words));
                },
            }
        } else if text::str_eq(word, "--index-file") {
            let value = word_at(args, i + 1);
            flags.index_file = Some(value);
            i = i + step;
        } else if text::str_eq(word, "-h") || text::str_eq(word, "--help") {
            return Err(Stop::Help);
        } else {
            let owned = args[i].clone();
            proof {
                text::lemma_views_push(flags.positional@, owned);
            }
            flags.positional.push(owned);
            i = i + 1;
        }
        proof {
            if at + 1 == words.len() {
                assert(flags_from(words, at + 2, flags@) == flags_from(words, at + 1, flags@));
            }
        }
    }
    Ok(flags)
}

/// The index mode in effect: its kind from the command line, else from its
/// variable; its file from the command line, else from its variable, else the
/// default.
pub open spec fn effective_mode(
    mode: Option<ModeFlag>,
    file: Option<Seq<char>>,
    env_mode: Option<Seq<char>>,
    env_file: Option<Seq<char>>,
    home: Option<Seq<char>>,
) -> IndexModeView {
    let index_file = match file {
        Some(f) => f,
        None => clangd::index_file_path(env_file, home),
    };
    match mode {
        Some(ModeFlag::Narrow) => IndexModeView::Narrow,
        Some(ModeFlag::Full) => IndexModeView::Full { index_file },
        Some(ModeFlag::Hybrid) => IndexModeView::Hybrid { index_file },
        None => match clangd::configured_mode(env_mode, env_file, home) {
            IndexModeView::Narrow => IndexModeView::Narrow,
            IndexModeView::Full { .. } => IndexModeView::Full { index_file },
            IndexModeView::Hybrid { .. } => IndexModeView::Hybrid { index_file },
        },
    }
}

/// Resolves the index mode in effect.
pub fn resolve_mode(
    flags: &Flags,
    env_mode: Option<&str>,
    env_file: Option<&str>,
    home: Option<&str>,
) -> (r: IndexMode)
    ensures
        r@ == effective_mode(
            flags.mode,
            text::opt_view(flags.index_file),
            text::opt_str_view(env_mode),
            text::opt_str_view(env_file),
            text::opt_str_view(home),
        ),
{
    let file = match &flags.index_file {
        Some(f) => Some(f.as_str()),
        None => env_file,
    };
    let mode = match flags.mode {
        Some(ModeFlag::Narrow) => Some("narrow"),
        Some(ModeFlag::Full) => Some("full"),
        Some(ModeFlag::Hybrid) => Some("hybrid"),
        None => env_mode,
    };
    proof {
        reveal_strlit("narrow");
        reveal_strlit("full");
        reveal_strlit("hybrid");
        assert("narrow"@.len() == 6 && "full"@.len() == 4 && "hybrid"@.len() == 6);
        assert("narrow"@[0] != "hybrid"@[0]);
    }
    IndexMode::from_env(mode, file, home)
}

/// The project root: from the command line, else from its variable, else the
/// default.
pub fn resolve_project(flag: Option<&str>, variable: Option<&str>) -> (r: String)
    ensures
        r@ == match (flag, variable) {
            (Some(p), _) => p@,
            (None, Some(p)) => p@,
            (None, None) => DEFAULT_PROJECT@,
        },
{
    match flag {
        Some(p) => p.to_owned(),
        None => match variable {
            Some(p) => p.to_owned(),
            None => DEFAULT_PROJECT.to_owned(),
        },
    }
}

/// What is run.
#[derive(Debug)]
pub enum CppCommand {
    Probe,
    WorkspaceSymbol {
        query: String,
    },
    Definition {
        file: String,
        line: u32,
        column: u32,
    },
    References {
        file: String,
        line: u32,
        column: u32,
    },
    Hover {
        file: String,
        line: u32,
        column: u32,
    },
    BuildFullIndex {
        max_tus: usize,
    },
    ServeMcp,
}

/// What a [`CppCommand`] stands for.
pub enum CommandView {
    Probe,
    WorkspaceSymbol { query: Seq<char> },
    Definition { file: Seq<char>, line: u32, column: u32 },
    References { file: Seq<char>, line: u32, column: u32 },
    Hover { file: Seq<char>, line: u32, column: u32 },
    BuildFullIndex { max_tus: usize },
    ServeMcp,
}

impl View for CppCommand {
    type V = CommandView;

    open spec fn view(&self) -> CommandView {
        match self {
            CppCommand::Probe => CommandView::Probe,
            CppCommand::WorkspaceSymbol { query } => CommandView::WorkspaceSymbol { query: query@ },
            CppCommand::Definition { file, line, column } => CommandView::Definition {
                file: file@,
                line: *line,
                column: *column,
            },
            CppCommand::References { file, line, column } => CommandView::References {
                file: file@,
                line: *line,
                column: *column,
            },
            CppCommand::Hover { file, line, column } => CommandView::Hover {
                file: file@,
                line: *line,
                column: *column,
            },
            CppCommand::BuildFullIndex { max_tus } => CommandView::BuildFullIndex {
                max_tus: *max_tus,
            },
            CppCommand::ServeMcp => CommandView::ServeMcp,
        }
    }
}

/// The failure that a number is none.
pub open spec fn bad_number(what: Seq<char>, s: Seq<char>, fault: text::IntFault) -> Seq<char> {
    "bad "@ + what + " "@ + text::quoted(s) + ": "@ + text::fault_text(fault)
}

/// The place that arguments behind a subcommand name, or what is wrong with
/// them.
pub open spec fn place_in(rest: Seq<Seq<char>>) -> Result<(Seq<char>, u32, u32), Seq<char>> {
    if rest.len() < 3 {
        Err("expected <file> <line> <column>"@)
    } else {
        match (
            text::parse_uint(rest[1], u32::MAX as nat),
            text::parse_uint(rest[2], u32::MAX as nat),
        ) {
            (Err(fault), _) => Err(bad_number("line"@, rest[1], fault)),
            (_, Err(fault)) => Err(bad_number("column"@, rest[2], fault)),
            (Ok(line), Ok(column)) => Ok((rest[0], line as u32, column as u32)),
        }
    }
}

/// What a subcommand and the arguments behind it run; `None` where there is no
/// such subcommand.
pub open spec fn named_command(
    command: Seq<char>,
    rest: Seq<Seq<char>>,
    max_tus: Option<usize>,
) -> Option<Result<CommandView, Seq<char>>> {
    if command == "probe"@ {
        Some(Ok(CommandView::Probe))
    } else if command == "workspace-symbol"@ {
        let query = value_at(rest, 0);
        Some(
            if query.len() == 0 {
                Err("workspace-symbol requires a query"@)
            } else {
                Ok(CommandView::WorkspaceSymbol { query })
            },
        )
    } else if command == "definition"@ {
        Some(
            match place_in(rest) {
                Ok((file, line, column)) => Ok(CommandView::Definition { file, line, column }),
                Err(words) => Err(words),
            },
        )
    } else if command == "references"@ {
        Some(
            match place_in(rest) {
                Ok((file, line, column)) => Ok(CommandView::References { file, line, column }),
                Err(words) => Err(words),
            },
        )
    } else if command == "hover"@ {
        Some(
            match place_in(rest) {
                Ok((file, line, column)) => Ok(CommandView::Hover { file, line, column }),
                Err(words) => Err(words),
            },
        )
    } else if command == "build-full-index"@ {
        Some(
            Ok(
                CommandView::BuildFullIndex {
                    max_tus: match max_tus {
                        Some(n) => n,
                        None => BUILD_FULL_INDEX_DEFAULT_MAX_TUS,
                    },
                },
            ),
        )
    } else if command == "serve-mcp"@ {
        Some(Ok(CommandView::ServeMcp))
    } else {
        None
    }
}

/// What the flags run: a command, a failure of its arguments, or nothing.
pub open spec fn chosen_command(flags: FlagsView) -> Result<
    Result<CommandView, Seq<char>>,
    StopView,
> {
    if flags.positional.len() == 0 {
        Err(StopView::Usage)
    } else {
        match named_command(flags.positional[0], flags.positional.drop_first(), flags.max_tus) {
            Some(r) => Ok(r),
            None => Err(StopView::UnknownCommand(flags.positional[0])),
        }
    }
}

fn not_a_number(what: &str, s: &str, fault: text::IntFault) -> (e: ShimError)
    ensures
        e@ == ShimErrorView::Protocol(bad_number(what@, s@, fault)),
{
    let mut words = text::concat("bad ", what);
    words.append(" ");
    words.append(text::quote(s).as_str());
    words.append(": ");
    words.append(fault.message());
    ShimError::Protocol(words)
}

fn read_place(words: &Vec<String>) -> (r: Result<(String, u32, u32), ShimError>)
    requires
        words@.len() > 0,
    ensures
        match (r, place_in(text::views(words@).drop_first())) {
            (Ok((file, line, column)), Ok(v)) => (file@, line, column) == v,
            (Err(e), Err(m)) => e@ == ShimErrorView::Protocol(m),
            _ => false,
        },
{
    if words.len() < 4 {
        return Err(ShimError::protocol("expected <file> <line> <column>"));
    }
    let line: u32 = match text::parse_u32(words[2].as_str()) {
        Ok(n) => n,
        Err(fault) => {
            return Err(not_a_number("line", words[2].as_str(), fault));
        },
    };
    let column: u32 = match text::parse_u32(words[3].as_str()) {
        Ok(n) => n,
        Err(fault) => {
            return Err(not_a_number("column", words[3].as_str(), fault));
        },
    };
    Ok((words[1].clone(), line, column))
}

/// Decides what is run.
pub fn choose_command(flags: &Flags) -> (r: Result<Result<CppCommand, ShimError>, Stop>)
    ensures
        match (r, chosen_command(flags@)) {
            (Err(s), Err(v)) => s@ == v,
            (Ok(Ok(c)), Ok(Ok(v))) => c@ == v,
            (Ok(Err(e)), Ok(Err(words))) => e@ == ShimErrorView::Protocol(words),
            _ => false,
        },
{
    let words = &flags.positional;
    if words.len() == 0 {
        return Err(Stop::Usage);
    }
    let command = words[0].as_str();
    if text::str_eq(command, "probe") {
        Ok(Ok(CppCommand::Probe))
    } else if text::str_eq(command, "workspace-symbol") {
        let query = word_at(words, 1);
        if query.as_str().is_empty() {
            Ok(Err(ShimError::protocol("workspace-symbol requires a query")))
        } else {
            Ok(Ok(CppCommand::WorkspaceSymbol { query }))
        }
    } else if text::str_eq(command, "definition") {
        match read_place(words) {
            Ok((file, line, column)) => Ok(Ok(CppCommand::Definition { file, line, column })),
            Err(e) => Ok(Err(e)),
        }
    } else if text::str_eq(command, "references") {
        match read_place(words) {
            Ok((file, line, column)) => Ok(Ok(CppCommand::References { file, line, column })),
            Err(e) => Ok(Err(e)),
        }
    } else if text::str_eq(command, "hover") {
        match read_place(words) {
            Ok((file, line, column)) => Ok(Ok(CppCommand::Hover { file, line, column })),
            Err(e) => Ok(Err(e)),
        }
    } else if text::str_eq(command, "build-full-index") {
        let max_tus: usize = match flags.max_tus {
            Some(n) => n,
            None => BUILD_FULL_INDEX_DEFAULT_MAX_TUS,
        };
        Ok(Ok(CppCommand::BuildFullIndex { max_tus }))
    } else if text::str_eq(command, "serve-mcp") {
        Ok(Ok(CppCommand::ServeMcp))
    } else {
        Err(Stop::UnknownCommand(words[0].clone()))
    }
}

/// What the probe prints.
pub open spec fn probe_report(symbols: Seq<SymbolView>) -> JsonView {
    JsonView::Object(
        map![
            "probe"@ => JsonView::Str(PROBE_QUERY@),
            "hits"@ => json::json_int(symbols.len() as int),
            "first"@ => if symbols.len() > 0 {
                backend::symbol_json(symbols[0])
            } else {
                JsonView::Null
            },
        ],
    )
}

/// Makes what the probe prints.
pub fn report_probe(symbols: &Vec<Symbol>) -> (r: Json)
    ensures
        r@ == probe_report(backend::symbol_views(symbols@)),
{
    let first = if symbols.len() > 0 {
        symbols[0].to_json()
    } else {
        Json::Null
    };
    Json::object().put("probe", Json::str(PROBE_QUERY)).put(
        "hits",
        Json::uint(symbols.len() as u64),
    ).put("first", first)
}

/// Makes what is written of a failure.
pub fn failure(e: &ShimError) -> (r: Json)
    ensures
        r@ == JsonView::Object(
            map![
                "error"@ => JsonView::Str(error::error_text(e@)),
                "kind"@ => JsonView::Str(error::error_tag(e@)),
            ],
        ),
{
    Json::object().put("error", Json::Str(e.message())).put("kind", Json::str(e.error_kind()))
}

/// Arguments are read from where they stand: what comes before does not matter.
proof fn lemma_read_from(args: Seq<Seq<char>>, i: int, so_far: FlagsView)
    requires
        0 <= i <= args.len(),
    ensures
        flags_from(args, i, so_far) == flags_from(args.subrange(i, args.len() as int), 0, so_far),
    decreases args.len() - i,
{
    let rest = args.subrange(i, args.len() as int);
    if i < args.len() {
        assert(rest[0] == args[i]);
        assert(value_at(rest, 1) == value_at(args, i + 1));
        assert forall|step: int, f: FlagsView| 1 <= step <= 2 implies #[trigger] flags_from(
            args,
            i + step,
            f,
        ) == flags_from(rest, step, f) by {
            if i + step <= args.len() {
                lemma_read_from(args, i + step, f);
                lemma_read_from(rest, step, f);
                assert(rest.subrange(step, rest.len() as int) =~= args.subrange(
                    i + step,
                    args.len() as int,
                ));
            }
        }
        let value = value_at(args, i + 1);
        assert(flags_from(args, i + 2, FlagsView { project: Some(value), ..so_far }) == flags_from(
            rest,
            2,
            FlagsView { project: Some(value), ..so_far },
        ));
        assert(flags_from(args, i + 2, FlagsView { index_file: Some(value), ..so_far })
            == flags_from(rest, 2, FlagsView { index_file: Some(value), ..so_far }));
        match positive(value) {
            Some(n) => {
                assert(flags_from(args, i + 2, FlagsView { max_tus: Some(n), ..so_far })
                    == flags_from(rest, 2, FlagsView { max_tus: Some(n), ..so_far }));
            },
            None => {},
        }
        match mode_named(value) {
            Some(m) => {
                assert(flags_from(args, i + 2, FlagsView { mode: Some(m), ..so_far })
                    == flags_from(rest, 2, FlagsView { mode: Some(m), ..so_far }));
            },
            None => {},
        }
        let pushed = FlagsView { positional: so_far.positional.push(args[i]), ..so_far };
        assert(flags_from(args, i + 1, pushed) == flags_from(rest, 1, pushed));
    }
}

/// The options are all different, and so are the index modes.
proof fn lemma_options()
    ensures
        "--project"@ != "--max-tus"@,
        "--project"@ != "--mode"@,
        "--project"@ != "--index-file"@,
        "--project"@ != "-h"@,
        "--project"@ != "--help"@,
        "--max-tus"@ != "--mode"@,
        "--max-tus"@ != "--index-file"@,
        "--max-tus"@ != "-h"@,
        "--max-tus"@ != "--help"@,
        "--mode"@ != "--index-file"@,
        "--mode"@ != "-h"@,
        "--mode"@ != "--help"@,
        "--index-file"@ != "-h"@,
        "--index-file"@ != "--help"@,
        "narrow"@ != "full"@,
        "narrow"@ != "hybrid"@,
        "full"@ != "hybrid"@,
{
    reveal_strlit("--project");
    reveal_strlit("--max-tus");
    reveal_strlit("--mode");
    reveal_strlit("--index-file");
    reveal_strlit("-h");
    reveal_strlit("--help");
    reveal_strlit("narrow");
    reveal_strlit("full");
    reveal_strlit("hybrid");
    assert("--project"@.len() == 9 && "--max-tus"@.len() == 9 && "--mode"@.len() == 6);
    assert("--index-file"@.len() == 12 && "-h"@.len() == 2 && "--help"@.len() == 6);
    assert("narrow"@.len() == 6 && "full"@.len() == 4 && "hybrid"@.len() == 6);
    assert("--project"@[2] != "--max-tus"@[2]);
    assert("--mode"@[2] != "--help"@[2]);
    assert("narrow"@[0] != "hybrid"@[0]);
}

/// An option sets what it is for to the value behind it, whatever was read before
/// it, and nothing else; the arguments behind that are read as if it were not
/// there. Of several equal options the last counts.
pub proof fn law_options_set_their_values(
    rest: Seq<Seq<char>>,
    value: Seq<char>,
    n: usize,
    f: FlagsView,
)
    requires
        n > 0,
    ensures
        flags_from(seq!["--project"@, value] + rest, 0, f) == flags_from(
            rest,
            0,
            FlagsView { project: Some(value), ..f },
        ),
        flags_from(seq!["--index-file"@, value] + rest, 0, f) == flags_from(
            rest,
            0,
            FlagsView { index_file: Some(value), ..f },
        ),
        flags_from(seq!["--max-tus"@, text::dec(n as nat)] + rest, 0, f) == flags_from(
            rest,
            0,
            FlagsView { max_tus: Some(n), ..f },
        ),
        flags_from(seq!["--mode"@, "narrow"@] + rest, 0, f) == flags_from(
            rest,
            0,
            FlagsView { mode: Some(ModeFlag::Narrow), ..f },
        ),
        flags_from(seq!["--mode"@, "full"@] + rest, 0, f) == flags_from(
            rest,
            0,
            FlagsView { mode: Some(ModeFlag::Full), ..f },
        ),
        flags_from(seq!["--mode"@, "hybrid"@] + rest, 0, f) == flags_from(
            rest,
            0,
            FlagsView { mode: Some(ModeFlag::Hybrid), ..f },
        ),
{
    lemma_options();
    text::lemma_parse_dec(n as nat, usize::MAX as nat);
    lemma_two_in_front("--project"@, value, rest, FlagsView { project: Some(value), ..f });
    lemma_two_in_front("--index-file"@, value, rest, FlagsView { index_file: Some(value), ..f });
    lemma_two_in_front(
        "--max-tus"@,
        text::dec(n as nat),
        rest,
        FlagsView { max_tus: Some(n), ..f },
    );
    lemma_two_in_front(
        "--mode"@,
        "narrow"@,
        rest,
        FlagsView { mode: Some(ModeFlag::Narrow), ..f },
    );
    lemma_two_in_front("--mode"@, "full"@, rest, FlagsView { mode: Some(ModeFlag::Full), ..f });
    lemma_two_in_front(
        "--mode"@,
        "hybrid"@,
        rest,
        FlagsView { mode: Some(ModeFlag::Hybrid), ..f },
    );
}

proof fn lemma_two_in_front(word: Seq<char>, value: Seq<char>, rest: Seq<Seq<char>>, f: FlagsView)
    ensures
        (seq![word, value] + rest)[0] == word,
        value_at(seq![word, value] + rest, 1) == value,
        flags_from(seq![word, value] + rest, 2, f) == flags_from(rest, 0, f),
{
    let args = seq![word, value] + rest;
    lemma_read_from(args, 2, f);
    assert(args.subrange(2, args.len() as int) =~= rest);
}

/// Help is given where it is asked for; an index mode that there is not, and a
/// number of files that is none, are refused.
pub proof fn law_senseless_options_are_refused(rest: Seq<Seq<char>>, value: Seq<char>, f: FlagsView)
    ensures
        flags_from(seq!["-h"@] + rest, 0, f) == Err::<FlagsView, StopView>(StopView::Help),
        flags_from(seq!["--help"@] + rest, 0, f) == Err::<FlagsView, StopView>(StopView::Help),
        value != "narrow"@ && value != "full"@ && value != "hybrid"@ ==> (flags_from(
            seq!["--mode"@, value] + rest,
            0,
            f,
        ) matches Err(StopView::Bad(_))),
        text::parse_uint(value, usize::MAX as nat) is Err || text::parse_uint(
            value,
            usize::MAX as nat,
        )->Ok_0 == 0 ==> (flags_from(seq!["--max-tus"@, value] + rest, 0, f) matches Err(
            StopView::Bad(_),
        )),
{
    lemma_options();
    assert((seq!["-h"@] + rest)[0] == "-h"@);
    assert((seq!["--help"@] + rest)[0] == "--help"@);
    lemma_two_in_front("--mode"@, value, rest, f);
    lemma_two_in_front("--max-tus"@, value, rest, f);
    reveal_strlit("-h");
    reveal_strlit("--help");
}

/// Whether a word is an option.
pub open spec fn is_option(word: Seq<char>) -> bool {
    word == "--project"@ || word == "--max-tus"@ || word == "--mode"@ || word == "--index-file"@
        || word == "-h"@ || word == "--help"@
}

/// Words that are no options are kept, all of them and in order.
pub proof fn law_other_words_are_kept(words: Seq<Seq<char>>, f: FlagsView)
    requires
        forall|i: int| 0 <= i < words.len() ==> !is_option(#[trigger] words[i]),
    ensures
        flags_from(words, 0, f) == Ok::<FlagsView, StopView>(
            FlagsView { positional: f.positional + words, ..f },
        ),
    decreases words.len(),
{
    if words.len() == 0 {
        assert(f.positional + words =~= f.positional);
    } else {
        let rest = words.subrange(1, words.len() as int);
        assert(!is_option(words[0]));
        assert forall|i: int| 0 <= i < rest.len() implies !is_option(#[trigger] rest[i]) by {
            assert(rest[i] == words[i + 1]);
        }
        let g = FlagsView { positional: f.positional.push(words[0]), ..f };
        law_other_words_are_kept(rest, g);
        lemma_read_from(words, 1, g);
        assert(f.positional.push(words[0]) + rest =~= f.positional + words);
    }
}

/// The subcommands are all different.
proof fn lemma_commands()
    ensures
        "probe"@ != "workspace-symbol"@,
        "probe"@ != "definition"@,
        "probe"@ != "references"@,
        "probe"@ != "hover"@,
        "probe"@ != "build-full-index"@,
        "probe"@ != "serve-mcp"@,
        "workspace-symbol"@ != "definition"@,
        "workspace-symbol"@ != "references"@,
        "workspace-symbol"@ != "hover"@,
        "workspace-symbol"@ != "build-full-index"@,
        "workspace-symbol"@ != "serve-mcp"@,
        "definition"@ != "references"@,
        "definition"@ != "hover"@,
        "definition"@ != "build-full-index"@,
        "definition"@ != "serve-mcp"@,
        "references"@ != "hover"@,
        "references"@ != "build-full-index"@,
        "references"@ != "serve-mcp"@,
        "hover"@ != "build-full-index"@,
        "hover"@ != "serve-mcp"@,
        "build-full-index"@ != "serve-mcp"@,
{
    reveal_strlit("probe");
    reveal_strlit("workspace-symbol");
    reveal_strlit("definition");
    reveal_strlit("references");
    reveal_strlit("hover");
    reveal_strlit("build-full-index");
    reveal_strlit("serve-mcp");
    assert("probe"@.len() == 5 && "workspace-symbol"@.len() == 16 && "definition"@.len() == 10);
    assert("references"@.len() == 10 && "hover"@.len() == 5 && "build-full-index"@.len() == 16);
    assert("serve-mcp"@.len() == 9);
    assert("probe"@[0] != "hover"@[0]);
    assert("workspace-symbol"@[0] != "build-full-index"@[0]);
    assert("definition"@[0] != "references"@[0]);
}

/// A subcommand about a place runs with the file, the line and the column behind
/// it; without all three, or with something else for a number, it is refused.
pub proof fn law_subcommand_takes_its_place(
    file: Seq<char>,
    line: u32,
    column: u32,
    more: Seq<Seq<char>>,
    max_tus: Option<usize>,
)
    ensures
        ({
            let rest = seq![file, text::dec(line as nat), text::dec(column as nat)] + more;
            &&& named_command("definition"@, rest, max_tus) == Some(
                Ok::<CommandView, Seq<char>>(CommandView::Definition { file, line, column }),
            )
            &&& named_command("references"@, rest, max_tus) == Some(
                Ok::<CommandView, Seq<char>>(CommandView::References { file, line, column }),
            )
            &&& named_command("hover"@, rest, max_tus) == Some(
                Ok::<CommandView, Seq<char>>(CommandView::Hover { file, line, column }),
            )
        }),
        more.len() < 3 ==> (named_command("definition"@, more, max_tus) matches Some(Err(_)))
            && (named_command("references"@, more, max_tus) matches Some(Err(_)))
            && (named_command("hover"@, more, max_tus) matches Some(Err(_))),
{
    lemma_commands();
    let rest = seq![file, text::dec(line as nat), text::dec(column as nat)] + more;
    assert(rest[0] == file && rest[1] == text::dec(line as nat) && rest[2] == text::dec(
        column as nat,
    ));
    text::lemma_parse_dec(line as nat, u32::MAX as nat);
    text::lemma_parse_dec(column as nat, u32::MAX as nat);
}

/// A search runs with the word behind it, filling the index with the number of
/// files that was set or five thousand, and a word that is no subcommand runs
/// nothing.
pub proof fn law_subcommand_runs_what_it_names(
    query: Seq<char>,
    rest: Seq<Seq<char>>,
    max_tus: Option<usize>,
    flags: FlagsView,
)
    ensures
        query.len() > 0 ==> named_command("workspace-symbol"@, seq![query] + rest, max_tus) == Some(
            Ok::<CommandView, Seq<char>>(CommandView::WorkspaceSymbol { query }),
        ),
        named_command("workspace-symbol"@, Seq::empty(), max_tus) matches Some(Err(_)),
        max_tus is Some ==> named_command("build-full-index"@, rest, max_tus) == Some(
            Ok::<CommandView, Seq<char>>(CommandView::BuildFullIndex { max_tus: max_tus->0 }),
        ),
        max_tus is None ==> named_command("build-full-index"@, rest, max_tus) == Some(
            Ok::<CommandView, Seq<char>>(CommandView::BuildFullIndex { max_tus: 5000 }),
        ),
        named_command("probe"@, rest, max_tus) == Some(
            Ok::<CommandView, Seq<char>>(CommandView::Probe),
        ),
        named_command("serve-mcp"@, rest, max_tus) == Some(
            Ok::<CommandView, Seq<char>>(CommandView::ServeMcp),
        ),
        flags.positional.len() == 0 ==> chosen_command(flags) == Err::<
            Result<CommandView, Seq<char>>,
            StopView,
        >(StopView::Usage),
        flags.positional.len() > 0 ==> ({
            let named = named_command(
                flags.positional[0],
                flags.positional.subrange(1, flags.positional.len() as int),
                flags.max_tus,
            );
            &&& named is Some ==> chosen_command(flags) == Ok::<
                Result<CommandView, Seq<char>>,
                StopView,
            >(named->0)
            &&& named is None ==> chosen_command(flags) == Err::<
                Result<CommandView, Seq<char>>,
                StopView,
            >(StopView::UnknownCommand(flags.positional[0]))
        }),
{
    lemma_commands();
    assert((seq![query] + rest)[0] == query);
    if flags.positional.len() > 0 {
        assert(flags.positional.drop_first() =~= flags.positional.subrange(
            1,
            flags.positional.len() as int,
        ));
    }
}

/// The index mode of the command line wins over its variable, and the file of
/// the command line over its own.
pub proof fn law_command_line_sets_the_index_mode(
    file: Seq<char>,
    env_mode: Option<Seq<char>>,
    env_file: Option<Seq<char>>,
    home: Option<Seq<char>>,
)
    ensures
        effective_mode(Some(ModeFlag::Narrow), Some(file), env_mode, env_file, home)
            == IndexModeView::Narrow,
        effective_mode(Some(ModeFlag::Full), Some(file), env_mode, env_file, home) == (
        IndexModeView::Full { index_file: file }),
        effective_mode(Some(ModeFlag::Hybrid), Some(file), env_mode, env_file, home) == (
        IndexModeView::Hybrid { index_file: file }),
        effective_mode(None, None, env_mode, env_file, home) == clangd::configured_mode(
            env_mode,
            env_file,
            home,
        ),
        env_file is Some ==> effective_mode(Some(ModeFlag::Full), None, env_mode, env_file, home)
            == (IndexModeView::Full { index_file: env_file->0 }),
        env_file is Some ==> effective_mode(Some(ModeFlag::Hybrid), None, env_mode, env_file, home)
            == (IndexModeView::Hybrid { index_file: env_file->0 }),
{
}

/// The probe tells how many symbols were found, and the first.
pub proof fn law_probe_tells_the_hits(symbols: Seq<SymbolView>)
    ensures
        json::json_get(probe_report(symbols), "probe"@) == Some(JsonView::Str("FFrame"@)),
        json::json_get(probe_report(symbols), "hits"@) == Some(
            json::json_int(symbols.len() as int),
        ),
        symbols.len() > 0 ==> json::json_get(probe_report(symbols), "first"@) == Some(
            backend::symbol_json(symbols[0]),
        ),
        symbols.len() == 0 ==> json::json_get(probe_report(symbols), "first"@) == Some(
            JsonView::Null,
        ),
{
    reveal_strlit("probe");
    reveal_strlit("hits");
    reveal_strlit("first");
    assert("probe"@[0] != "first"@[0]);
    assert("probe"@.len() == 5 && "hits"@.len() == 4 && "first"@.len() == 5);
}

/// What is refused is quoted: a mode or a count with its option, a line or a column
/// with what is wrong with it.
pub proof fn law_refused_words_are_quoted(
    rest: Seq<Seq<char>>,
    value: Seq<char>,
    f: FlagsView,
    file: Seq<char>,
    n: u32,
    max_tus: Option<usize>,
)
    ensures
        value != "narrow"@ && value != "full"@ && value != "hybrid"@ ==> flags_from(
            seq!["--mode"@, value] + rest,
            0,
            f,
        ) == Err::<FlagsView, StopView>(
            StopView::Bad(
                "unknown --mode "@ + text::quoted(value) + " (expected narrow|full|hybrid)"@,
            ),
        ),
        text::parse_uint(value, usize::MAX as nat) is Err ==> flags_from(
            seq!["--max-tus"@, value] + rest,
            0,
            f,
        ) == Err::<FlagsView, StopView>(
            StopView::Bad("--max-tus expects a positive integer, got "@ + text::quoted(value)),
        ),
        text::parse_uint(value, u32::MAX as nat) matches Err(fault) ==> {
            let words = text::quoted(value) + ": "@ + text::fault_text(fault);
            &&& named_command("definition"@, seq![file, value, text::dec(n as nat)], max_tus)
                == Some(Err::<CommandView, Seq<char>>("bad line "@ + words))
            &&& named_command("definition"@, seq![file, text::dec(n as nat), value], max_tus)
                == Some(Err::<CommandView, Seq<char>>("bad column "@ + words))
            &&& named_command("references"@, seq![file, value, text::dec(n as nat)], max_tus)
                == Some(Err::<CommandView, Seq<char>>("bad line "@ + words))
            &&& named_command("hover"@, seq![file, text::dec(n as nat), value], max_tus) == Some(
                Err::<CommandView, Seq<char>>("bad column "@ + words),
            )
        },
{
    lemma_options();
    lemma_commands();
    lemma_two_in_front("--mode"@, value, rest, f);
    lemma_two_in_front("--max-tus"@, value, rest, f);
    text::lemma_parse_dec(n as nat, u32::MAX as nat);
    match text::parse_uint(value, u32::MAX as nat) {
        Err(fault) => {
            let words = text::quoted(value) + ": "@ + text::fault_text(fault);
            reveal_strlit("bad ");
            reveal_strlit("line");
            reveal_strlit("column");
            reveal_strlit(" ");
            reveal_strlit("bad line ");
            reveal_strlit("bad column ");
            assert(bad_number("line"@, value, fault) =~= "bad line "@ + words);
            assert(bad_number("column"@, value, fault) =~= "bad column "@ + words);
            let a = seq![file, value, text::dec(n as nat)];
            let b = seq![file, text::dec(n as nat), value];
            assert(a.len() == 3 && a[1] == value && a[2] == text::dec(n as nat));
            assert(b.len() == 3 && b[2] == value && b[1] == text::dec(n as nat));
        },
        Ok(_) => {},
    }
}

/// Without options nothing is set, and every word is kept.
pub proof fn law_without_options_nothing_is_set(words: Seq<Seq<char>>)
    requires
        forall|i: int| 0 <= i < words.len() ==> !is_option(#[trigger] words[i]),
    ensures
        match flags_from(words, 0, no_flags()) {
            Ok(f) => f.project is None && f.mode is None && f.index_file is None && f.max_tus
                is None && f.positional == words,
            Err(_) => false,
        },
{
    law_other_words_are_kept(words, no_flags());
    assert(Seq::<Seq<char>>::empty() + words =~= words);
}

/// Flags and subcommands are seen as they are.
pub proof fn law_command_is_seen_as_it_is(flags: Flags, command: CppCommand)
    ensures
        flags.project is Some ==> flags@.project == Some(flags.project->0@),
        flags.project is None ==> flags@.project is None,
        flags@.mode == flags.mode,
        flags.index_file is Some ==> flags@.index_file == Some(flags.index_file->0@),
        flags.index_file is None ==> flags@.index_file is None,
        flags@.max_tus == flags.max_tus,
        flags@.positional == text::views(flags.positional@),
        match command {
            CppCommand::Definition { file, line, column } => command@ == (CommandView::Definition {
                file: file@,
                line,
                column,
            }),
            CppCommand::References { file, line, column } => command@ == (CommandView::References {
                file: file@,
                line,
                column,
            }),
            CppCommand::Hover { file, line, column } => command@ == (CommandView::Hover {
                file: file@,
                line,
                column,
            }),
            CppCommand::WorkspaceSymbol { query } => command@ == (CommandView::WorkspaceSymbol {
                query: query@,
            }),
            CppCommand::BuildFullIndex { max_tus } => command@ == (CommandView::BuildFullIndex {
                max_tus,
            }),
            CppCommand::Probe => command@ is Probe,
            CppCommand::ServeMcp => command@ is ServeMcp,
        },
{
}

} // verus!
