use mcp_tools::lsp_cpp::answers::parse_symbols;
use mcp_tools::lsp_cpp::clangd::IndexMode;
use mcp_tools::lsp_cpp::cli::{
    choose_command, failure, parse_flags, report_probe, resolve_mode, resolve_project, CppCommand, Flags,
    ModeFlag, Stop,
};
use mcp_tools::lsp_cpp::error::ShimError;
use mcp_tools::json::Json;
use serde_json::Value;

fn words(list: &[&str]) -> Vec<String> {
    list.iter().map(|s| s.to_string()).collect()
}

fn flags(list: &[&str]) -> Flags {
    parse_flags(&words(list)).expect("arguments make sense")
}

fn value(j: &Json) -> Value {
    serde_json::from_str(&j.to_text()).unwrap()
}

#[test]
fn options_may_stand_anywhere() {
    let f = flags(&["definition", "--project", "/p", "/a.cpp", "--mode", "hybrid", "3", "4", "--max-tus", "7"]);
    assert_eq!(f.project.as_deref(), Some("/p"));
    assert_eq!(f.mode, Some(ModeFlag::Hybrid));
    assert_eq!(f.max_tus, Some(7));
    assert_eq!(f.positional, ["definition", "/a.cpp", "3", "4"]);
    match choose_command(&f) {
        Ok(Ok(CppCommand::Definition { file, line: 3, column: 4 })) => assert_eq!(file, "/a.cpp"),
        other => panic!("got {other:?}"),
    }
}

#[test]
fn an_option_without_a_value_has_an_empty_one() {
    assert_eq!(flags(&["probe", "--project"]).project.as_deref(), Some(""));
    assert_eq!(flags(&["probe", "--index-file"]).index_file.as_deref(), Some(""));
    match parse_flags(&words(&["probe", "--mode"])) {
        Err(Stop::Bad(m)) => assert_eq!(m, "unknown --mode \"\" (expected narrow|full|hybrid)"),
        other => panic!("got {other:?}"),
    }
}

#[test]
fn bad_options_are_refused() {
    for bad in ["0", "x", "-1", ""] {
        match parse_flags(&words(&["--max-tus", bad])) {
            Err(Stop::Bad(m)) => assert_eq!(m, format!("--max-tus expects a positive integer, got {bad:?}")),
            other => panic!("got {other:?}"),
        }
    }
    match parse_flags(&words(&["--mode", "wide"])) {
        Err(Stop::Bad(m)) => assert_eq!(m, "unknown --mode \"wide\" (expected narrow|full|hybrid)"),
        other => panic!("got {other:?}"),
    }
    assert!(matches!(parse_flags(&words(&["probe", "-h", "--mode", "wide"])), Err(Stop::Help)));
    assert!(matches!(parse_flags(&words(&["--help"])), Err(Stop::Help)));
    assert!(matches!(choose_command(&flags(&[])), Err(Stop::Usage)));
    match choose_command(&flags(&["dance"])) {
        Err(Stop::UnknownCommand(c)) => assert_eq!(c, "dance"),
        other => panic!("got {other:?}"),
    }
}

#[test]
fn commands_check_their_arguments() {
    let fails = |list: &[&str]| match choose_command(&flags(list)) {
        Ok(Err(ShimError::Protocol(m))) => m,
        other => panic!("got {other:?}"),
    };
    assert_eq!(fails(&["workspace-symbol"]), "workspace-symbol requires a query");
    assert_eq!(fails(&["hover", "/a", "1"]), "expected <file> <line> <column>");
    assert_eq!(fails(&["hover", "/a", "x", "1"]), "bad line \"x\": invalid digit found in string");
    assert_eq!(
        fails(&["references", "/a", "1", "99999999999"]),
        "bad column \"99999999999\": number too large to fit in target type"
    );
    assert_eq!(fails(&["hover", "/a", "", "1"]), "bad line \"\": cannot parse integer from empty string");
    assert!(matches!(choose_command(&flags(&["probe"])), Ok(Ok(CppCommand::Probe))));
    assert!(matches!(choose_command(&flags(&["serve-mcp"])), Ok(Ok(CppCommand::ServeMcp))));
    assert!(matches!(
        choose_command(&flags(&["build-full-index"])),
        Ok(Ok(CppCommand::BuildFullIndex { max_tus: 5000 }))
    ));
    assert!(matches!(
        choose_command(&flags(&["build-full-index", "--max-tus", "50"])),
        Ok(Ok(CppCommand::BuildFullIndex { max_tus: 50 }))
    ));
    match choose_command(&flags(&["workspace-symbol", "FFrame"])) {
        Ok(Ok(CppCommand::WorkspaceSymbol { query })) => assert_eq!(query, "FFrame"),
        other => panic!("got {other:?}"),
    }
}

#[test]
fn the_command_line_wins_over_the_environment() {
    let full = |f: &str| IndexMode::Full { index_file: f.into() };
    let hybrid = |f: &str| IndexMode::Hybrid { index_file: f.into() };
    let f = flags(&["--mode", "full", "--index-file", "/cli"]);
    assert_eq!(resolve_mode(&f, Some("narrow"), Some("/env"), None), full("/cli"));
    let f = flags(&["--mode", "full"]);
    assert_eq!(resolve_mode(&f, Some("hybrid"), Some("/env"), None), full("/env"));
    assert_eq!(resolve_mode(&f, None, None, Some("/h")), full("/h/.cache/lsp-cpp-full-index/index.idx"));
    let f = flags(&["--mode", "narrow", "--index-file", "/cli"]);
    assert_eq!(resolve_mode(&f, Some("full"), Some("/env"), None), IndexMode::Narrow);
    let f = flags(&["--index-file", "/cli"]);
    assert_eq!(resolve_mode(&f, Some("hybrid"), Some("/env"), None), hybrid("/cli"));
    assert_eq!(resolve_mode(&flags(&[]), None, Some("/env"), None), IndexMode::Narrow);
    assert_eq!(resolve_project(Some("/a"), Some("/b")), "/a");
    assert_eq!(resolve_project(None, Some("/b")), "/b");
    assert_eq!(resolve_project(None, None), "/path/to/project");
}

#[test]
fn results_are_printed_as_json() {
    let none = value(&report_probe(&Vec::new()));
    assert_eq!(none["probe"], "FFrame");
    assert_eq!(none["hits"], 0);
    assert_eq!(none["first"], Value::Null);
    let list = Json::parse(
        r#"[{"name":"FFrame","kind":23,"location":{"uri":"file:///s.h","range":{"start":{"line":1,"character":1}}}}]"#,
    )
    .unwrap();
    let one = value(&report_probe(&parse_symbols(&list)));
    assert_eq!(one["hits"], 1);
    assert_eq!(one["first"]["name"], "FFrame");
    let e = value(&failure(&ShimError::NoIndexFile { path: "/i".into() }));
    assert_eq!(e["kind"], "no_index_file");
    assert!(e["error"].as_str().unwrap().contains("/i"));
}
