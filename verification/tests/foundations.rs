use std::path::Path;

use mcp_tools::json::Json;
use mcp_tools::lsp_cpp::compat as cpp_compat;
use mcp_tools::lsp_rust::compat as rust_compat;
use mcp_tools::lsp_shim_core::compat::{env_or_legacy, DeprecationNotes};
use mcp_tools::path;
use mcp_tools::text::{
    join_first, lines, parse_i32, parse_u32, parse_u64, parse_usize, rsplit_once, split,
    split_at_crlf, starts_with, strip_prefix, to_ascii_lowercase, trim, IntFault,
};

#[test]
fn older_names_are_told_once() {
    let mut notes = DeprecationNotes::new();
    let old = || Some("v".to_string());
    let r = env_or_legacy("NEW", "OLD", None, old(), &mut notes);
    assert_eq!(r.value.as_deref(), Some("v"));
    assert_eq!(r.note.as_deref(), Some("note: OLD is deprecated, use NEW"));
    let r = env_or_legacy("NEW", "OLD", None, old(), &mut notes);
    assert_eq!((r.value.as_deref(), r.note), (Some("v"), None));
    let r = env_or_legacy("NEW2", "OLD2", None, old(), &mut notes);
    assert!(r.note.is_some());
    let r = env_or_legacy("NEW3", "OLD3", Some("w".into()), old(), &mut notes);
    assert_eq!((r.value.as_deref(), r.note), (Some("w"), None));
    let r = env_or_legacy("NEW4", "OLD4", None, None, &mut notes);
    assert_eq!((r.value, r.note), (None, None));
}

#[test]
fn each_server_knows_its_variables() {
    let mut notes = DeprecationNotes::new();
    let old = || Some("v".to_string());
    let note = |r: mcp_tools::lsp_shim_core::compat::EnvReading| r.note.unwrap();
    assert_eq!(
        note(cpp_compat::project_env(None, old(), &mut notes)),
        "note: LURE_LSP_PROJECT is deprecated, use LSP_PROJECT"
    );
    assert!(note(cpp_compat::index_mode_env(None, old(), &mut notes)).contains("LSP_CPP_INDEX_MODE"));
    assert!(note(cpp_compat::index_file_env(None, old(), &mut notes)).contains("LSP_CPP_INDEX_FILE"));
    assert!(note(cpp_compat::live_test_env(None, old(), &mut notes)).contains("LSP_CPP_LIVE_TEST"));
    assert_eq!(rust_compat::project_env(None, old(), &mut notes).note, None);
    assert!(note(rust_compat::rust_analyzer_env(None, old(), &mut notes)).contains("LSP_RUST_ANALYZER"));
    assert!(note(rust_compat::timeout_env(None, old(), &mut notes)).contains("LSP_TIMEOUT_SECS"));
    assert!(note(rust_compat::log_file_env(None, old(), &mut notes)).contains("LSP_LOG_FILE"));
}

#[test]
fn numbers_are_read_as_the_standard_library_reads_them() {
    for s in ["0", "7", "+7", "007", "18446744073709551615", "18446744073709551616", "", "+", "-", "-1", " 1", "1x", "٣"] {
        assert_eq!(parse_u64(s).ok(), s.parse::<u64>().ok(), "{s:?}");
        assert_eq!(parse_usize(s).ok(), s.parse::<usize>().ok(), "{s:?}");
        assert_eq!(parse_u32(s).ok(), s.parse::<u32>().ok(), "{s:?}");
        assert_eq!(parse_i32(s), s.parse::<i32>().ok(), "{s:?}");
        if let (Err(a), Err(b)) = (parse_u64(s), s.parse::<u64>()) {
            assert_eq!(a.message(), b.to_string(), "{s:?}");
        }
    }
    for s in ["-2147483648", "-2147483649", "2147483647", "2147483648", "-+5", "--5", "-0", "+-5"] {
        assert_eq!(parse_i32(s), s.parse::<i32>().ok(), "{s:?}");
    }
    assert_eq!(parse_u64("x"), Err(IntFault::InvalidDigit));
}

#[test]
fn text_is_cut_as_the_standard_library_cuts_it() {
    for s in ["", "a", ",", "a,b", ",a,,b,", "ä,ö"] {
        assert_eq!(split(s, ','), s.split(',').collect::<Vec<_>>(), "{s:?}");
        let cut = rsplit_once(s, ',');
        let wanted = s.rsplit_once(',').map(|(a, b)| (a.to_string(), b.to_string()));
        assert_eq!(cut, wanted, "{s:?}");
    }
    for s in ["", "a", "a\n", "a\r\nb", "\n\n", "a\r", "a\nb\n"] {
        assert_eq!(lines(s), s.lines().collect::<Vec<_>>(), "{s:?}");
        assert_eq!(split_at_crlf(s), s.split("\r\n").collect::<Vec<_>>(), "{s:?}");
    }
    for s in ["", " a ", "\t\u{a0}x\u{3000}\n", "\u{200b}x", "no"] {
        assert_eq!(trim(s), s.trim(), "{s:?}");
    }
    assert_eq!(strip_prefix("file:///x", "file://").as_deref(), Some("/x"));
    assert_eq!(strip_prefix("fil", "file://"), None);
    assert!(starts_with("abc", "ab") && !starts_with("abc", "b"));
    assert_eq!(to_ascii_lowercase("ÄBc"), "Äbc");
    let parts = vec!["a".to_string(), "b".to_string(), "c".to_string()];
    assert_eq!(join_first(&parts, 2, "-"), "a-b");
    assert_eq!(join_first(&parts, 9, "-"), "a-b-c");
    assert_eq!(join_first(&Vec::new(), 3, "-"), "");
}

#[test]
fn paths_are_handled_as_the_standard_library_handles_them() {
    let all = ["", "/", "a", "/a", "a/", "/a/b", "/a//b", "/a/./b", "./a", "a/..", "/a/b.idx", "/a/.idx", "..", "/a/b."];
    for p in all {
        assert_eq!(path::absolute(p), Path::new(p).is_absolute(), "{p:?}");
        let extension = Path::new(p).extension().map(|e| e.to_str().unwrap().to_string());
        assert_eq!(path::extension(p), extension, "{p:?}");
        for q in all {
            assert_eq!(path::starts_with(p, q), Path::new(p).starts_with(q), "{p:?} {q:?}");
            assert_eq!(path::join(p, q), Path::new(p).join(q).to_str().unwrap(), "{p:?} {q:?}");
        }
    }
    assert!(path::has_name("/a/b//c/", "b") && path::has_name("a", "a"));
    assert!(!path::has_name("/a/bc", "b") && !path::has_name("/a/..", "..") && !path::has_name("/", ""));
    assert_eq!(path::lexical_resolve("/wt/a/../b/./c"), "/wt/b/c");
    assert_eq!(path::lexical_resolve("/wt/../../etc"), "/../etc");
    assert_eq!(path::lexical_resolve("../x"), "../x");
    for p in ["/wt/a/../b/./c", "/wt/../../etc", "../x", "a/./b/../..", "/", "", "//a//b/"] {
        let once = path::lexical_resolve(p);
        assert_eq!(path::lexical_resolve(&once), once, "{p:?}");
        assert_eq!(path::absolute(&once), path::absolute(p), "{p:?}");
    }
    assert!(!path::starts_with(&path::lexical_resolve("/wt/../etc/passwd"), "/wt"));
}

#[test]
fn values_are_read_and_written() {
    let text = r#"{"b":[1,-2,2.5,true,null,"q\"é"],"a":{"x":18446744073709551615}}"#;
    let v = Json::parse(text).unwrap();
    let wanted: serde_json::Value = serde_json::from_str(text).unwrap();
    assert_eq!(v.to_text(), serde_json::to_string(&wanted).unwrap());
    assert_eq!(v.to_pretty(), serde_json::to_string_pretty(&wanted).unwrap());
    assert_eq!(v.get("a").unwrap().get_u64("x"), Some(u64::MAX));
    let items = v.get("b").unwrap().as_array().unwrap();
    assert_eq!(items[0].as_i64(), Some(1));
    assert_eq!(items[1].as_i64(), Some(-2));
    assert_eq!(items[1].as_u64(), None);
    assert_eq!(items[2].as_u64(), None);
    assert_eq!(items[5].as_str(), Some("q\"é"));
    assert!(items[4].is_null());
    assert!(v.is_object());
    assert_eq!(v.clone().to_text(), v.to_text());
    assert_eq!(Json::parse_bytes(text.as_bytes()).unwrap().to_text(), v.to_text());
    assert_eq!(Json::parse("{").unwrap_err(), serde_json::from_str::<serde_json::Value>("{").unwrap_err().to_string());
    assert!(Json::parse_bytes(b"\xff").is_err());
}

#[test]
fn later_members_win() {
    let v = Json::object().put("k", Json::uint(1)).put("k", Json::integer(-2));
    assert_eq!(v.get("k").unwrap().as_i64(), Some(-2));
    assert_eq!(v.to_text(), r#"{"k":-2}"#);
    assert_eq!(Json::parse(r#"{"k":1,"k":2}"#).unwrap().get_u64("k"), Some(2));
    assert_eq!(Json::array(vec![Json::str("a"), Json::Null]).to_text(), r#"["a",null]"#);
}
