use mcp_tools::io_error::{IoError, IoErrorKind};
use mcp_tools::json::Json;
use mcp_tools::lsp_cpp::error::ShimError;
use mcp_tools::lsp_cpp::jsonrpc;
use mcp_tools::lsp_shim_core::framing::{
    encode_frame, header_line, parse_content_length, parse_response, recv_frame, send_frame, HeaderStep,
    Request, RpcOutcome, LSP_ERROR_CONTENT_MODIFIED, LSP_ERROR_SERVER_CANCELLED,
};
use mcp_tools::lsp_shim_core::mcp_proto::{code, method};
use serde_json::Value;

fn value(j: &Json) -> Value {
    serde_json::from_str(&j.to_text()).expect("text of a value is JSON")
}

fn initialize() -> Json {
    Json::parse(r#"{"jsonrpc":"2.0","id":1,"method":"initialize","params":{"processId":null}}"#).unwrap()
}

#[test]
fn encode_frame_emits_content_length_header_then_body() {
    let req = Request {
        jsonrpc: "2.0",
        id: 7,
        method: "textDocument/definition".into(),
        params: Json::parse(r#"{"textDocument": {"uri": "file:///a.rs"}}"#).unwrap(),
    };
    let bytes = encode_frame(&req).unwrap();
    let s = std::str::from_utf8(&bytes).unwrap();
    assert!(s.starts_with("Content-Length: "), "missing Content-Length prefix: {s}");
    let (header, body) = s.split_once("\r\n\r\n").expect("header/body separator");
    let declared: usize = header.strip_prefix("Content-Length: ").unwrap().parse().unwrap();
    assert_eq!(declared, body.len(), "Content-Length must match body byte length");
    let parsed: Value = serde_json::from_str(body).unwrap();
    assert_eq!(parsed["id"], 7);
    assert_eq!(parsed["method"], "textDocument/definition");
    assert_eq!(
        body,
        r#"{"jsonrpc":"2.0","id":7,"method":"textDocument/definition","params":{"textDocument":{"uri":"file:///a.rs"}}}"#
    );
}

#[test]
fn encoded_requests_read_back() {
    let params = Json::parse(r#"{"query":"größe","n":[1,-2,null]}"#).unwrap();
    let req = Request { jsonrpc: "2.0", id: u64::MAX, method: "m/ö".into(), params };
    let mut bytes = encode_frame(&req).unwrap();
    let whole = bytes.len();
    let header = std::str::from_utf8(&bytes).unwrap().split("\r\n\r\n").next().unwrap().to_string();
    let declared = parse_content_length(&format!("{header}\r\n\r\n")).unwrap();
    assert_eq!(declared, whole - header.len() - 4);
    bytes.extend_from_slice(b"more");
    let (read, used) = recv_frame(&bytes).unwrap();
    assert_eq!(used, whole);
    assert_eq!(read.get_str("jsonrpc"), Some("2.0"));
    assert_eq!(read.get_u64("id"), Some(u64::MAX));
    assert_eq!(read.get_str("method"), Some("m/ö"));
    assert_eq!(read.get("params").unwrap().to_text(), req.params.to_text());
}

#[test]
fn parse_content_length_extracts_numeric_value() {
    let headers = "Content-Length: 137\r\nContent-Type: utf-8\r\n";
    assert_eq!(parse_content_length(headers).unwrap(), 137);
}

#[test]
fn parse_content_length_rejects_missing_header() {
    let headers = "Content-Type: utf-8\r\n";
    let err = parse_content_length(headers).unwrap_err();
    assert_eq!(err.kind(), IoErrorKind::InvalidData);
    assert!(err.message().contains("missing Content-Length"), "unexpected msg: {}", err.message());
}

#[test]
fn parse_content_length_rejects_non_numeric() {
    let headers = "Content-Length: not-a-number\r\n";
    let err = parse_content_length(headers).unwrap_err();
    assert_eq!(err.kind(), IoErrorKind::InvalidData);
}

#[test]
fn parse_response_distinguishes_null_result_from_error() {
    let null_body = br#"{"jsonrpc":"2.0","id":1,"result":null}"#;
    match parse_response(null_body).unwrap() {
        RpcOutcome::Result(v) => assert!(v.is_null()),
        RpcOutcome::Error { .. } => panic!("null result misclassified as error"),
    }
    let err_body = br#"{"jsonrpc":"2.0","id":2,"error":{"code":-32801,"message":"content modified"}}"#;
    match parse_response(err_body).unwrap() {
        RpcOutcome::Error { code, message, .. } => {
            assert_eq!(code, LSP_ERROR_CONTENT_MODIFIED);
            assert!(message.contains("content modified"));
        }
        RpcOutcome::Result(_) => panic!("error response misclassified as result"),
    }
}

#[test]
fn parse_response_preserves_error_data_payload() {
    let body = br#"{"jsonrpc":"2.0","id":3,"error":{"code":-32603,"message":"internal","data":{"detail":"index reset"}}}"#;
    match parse_response(body).unwrap() {
        RpcOutcome::Error { code, message, data } => {
            assert_eq!(code, -32603);
            assert_eq!(message, "internal");
            let data = data.expect("data field preserved");
            assert_eq!(data.get_str("detail"), Some("index reset"));
        }
        RpcOutcome::Result(_) => panic!("error misclassified"),
    }
}

#[test]
fn parse_response_rejects_non_json_body() {
    let err = parse_response(b"not-json-at-all").unwrap_err();
    assert_eq!(err.kind(), IoErrorKind::InvalidData);
    assert!(err.message().starts_with("response not valid JSON: "));
}

#[test]
fn parse_response_rejects_what_is_no_response() {
    for body in [
        br#"{"id":1,"result":null}"#.as_slice(),
        br#"[1,2]"#.as_slice(),
        br#"{"jsonrpc":"2.0","id":1,"error":{"code":"x","message":"m"}}"#.as_slice(),
    ] {
        assert_eq!(parse_response(body).unwrap_err().kind(), IoErrorKind::InvalidData);
    }
}

#[test]
fn retry_codes_match_lsp_spec() {
    assert_eq!(LSP_ERROR_CONTENT_MODIFIED, -32801);
    assert_eq!(LSP_ERROR_SERVER_CANCELLED, -32802);
}

#[test]
fn send_recv_frame_round_trip() {
    let payload = initialize();
    let buf = send_frame(&payload);
    let (read, used) = recv_frame(&buf).expect("recv ok");
    assert_eq!(used, buf.len());
    assert_eq!(value(&payload), value(&read));
}

#[test]
fn recv_frame_missing_content_length_errors() {
    let err = recv_frame(b"\r\n{}").expect_err("must fail");
    assert_eq!(err.kind(), IoErrorKind::InvalidData);
}

#[test]
fn recv_frame_truncated_body_eof() {
    let err = recv_frame(b"Content-Length: 100\r\n\r\n{}").expect_err("must fail");
    assert_eq!(err.kind(), IoErrorKind::UnexpectedEof);
}

#[test]
fn recv_frame_takes_one_message_of_several() {
    let first = initialize();
    let second = Json::parse(r#"{"k":["é", 1.5, true]}"#).unwrap();
    let mut bytes = send_frame(&first);
    bytes.extend(send_frame(&second));
    let (a, used) = recv_frame(&bytes).unwrap();
    assert_eq!(value(&a), value(&first));
    let (b, rest) = recv_frame(&bytes[used..]).unwrap();
    assert_eq!(value(&b), value(&second));
    assert_eq!(used + rest, bytes.len());
}

#[test]
fn recv_frame_reads_past_other_headers() {
    let bytes = b"Content-Type: utf-8\r\nContent-Length: 2\r\n\r\n{}rest";
    let (v, used) = recv_frame(bytes).unwrap();
    assert!(v.is_object());
    assert_eq!(used, bytes.len() - 4);
    let err = recv_frame(b"Content-Length: 3\r\n\r\n{x}").expect_err("must fail");
    assert_eq!(err.kind(), IoErrorKind::InvalidData);
    assert!(err.message().starts_with("bad JSON body: "));
    let err = recv_frame(b"").expect_err("must fail");
    assert_eq!(err.kind(), IoErrorKind::UnexpectedEof);
}

#[test]
fn header_lines_are_taken_one_by_one() {
    assert!(matches!(header_line(None, "Content-Length: 12\r\n"), HeaderStep::More(Some(12))));
    assert!(matches!(header_line(Some(12), "Content-Type: x\r\n"), HeaderStep::More(Some(12))));
    assert!(matches!(header_line(Some(12), "\r\n"), HeaderStep::Body(12)));
}

#[test]
fn method_names_match_mcp_spec() {
    assert_eq!(method::INITIALIZE, "initialize");
    assert_eq!(method::INITIALIZED, "notifications/initialized");
    assert_eq!(method::TOOLS_LIST, "tools/list");
    assert_eq!(method::TOOLS_CALL, "tools/call");
    assert_eq!(method::SHUTDOWN, "shutdown");
}

#[test]
fn error_codes_match_jsonrpc_spec() {
    assert_eq!(code::PARSE_ERROR, -32700);
    assert_eq!(code::METHOD_NOT_FOUND, -32601);
    assert_eq!(code::INVALID_PARAMS, -32602);
    assert_eq!(code::INTERNAL_ERROR, -32603);
}

#[test]
fn round_trip_through_in_memory_buffer() {
    let payload = initialize();
    let buf = jsonrpc::send(&payload);
    let (read, used) = jsonrpc::recv(&buf).expect("recv ok");
    assert_eq!(used, buf.len());
    assert_eq!(value(&payload), value(&read));
}

#[test]
fn missing_content_length_returns_protocol_error() {
    let err = jsonrpc::recv(b"\r\n{}").expect_err("must fail without Content-Length");
    assert!(matches!(err, ShimError::Protocol(_)), "got {err:?}");
}

#[test]
fn truncated_body_surfaces_io_error() {
    let err = jsonrpc::recv(b"Content-Length: 100\r\n\r\n{}").expect_err("must fail on truncated body");
    assert!(matches!(err, ShimError::Io(_)), "got {err:?}");
}

#[test]
fn framing_failures_are_sorted_by_kind() {
    let broken = jsonrpc::into_shim_error(IoError::new(IoErrorKind::BrokenPipe, "gone"));
    assert!(matches!(broken, ShimError::Io(_)));
    let bad = jsonrpc::into_shim_error(IoError::new(IoErrorKind::InvalidData, "bad"));
    assert_eq!(bad.message(), "clangd JSON-RPC error: bad");
}
