//! Failures that a caller of the clangd server can see.
use vstd::prelude::*;

use crate::io_error::{IoError, IoErrorView};
use crate::text;

verus! {

/// A failure. Each kind that a caller can tell apart has its own variant, so
/// that nothing fails with a silent `null`.
#[derive(Debug)]
pub enum ShimError {
    /// The clangd binary is not there.
    ClangdMissing {
        /// Path that was probed.
        path: String,
    },
    /// There is no compilation database.
    NoCompileCommands {
        /// Project root that was searched.
        root: String,
    },
    /// The index file that the index mode asks for is not there.
    NoIndexFile {
        /// Path that was probed.
        path: String,
    },
    /// clangd did not answer the handshake in time.
    InitializeTimeout {
        /// Timeout in seconds.
        timeout_s: u64,
        /// Log of clangd.
        log_path: String,
    },
    /// clangd did not answer a request in time.
    RequestTimeout {
        /// Method of the request.
        method: String,
        /// Timeout in seconds.
        timeout_s: u64,
        /// Log of clangd.
        log_path: String,
    },
    /// clangd did not answer in time but is alive.
    ClangdBusy {
        /// Method of the request.
        method: String,
        /// Timeout in seconds.
        timeout_s: u64,
        /// What clangd is doing; empty where that is not known.
        current_status: String,
        /// Log of clangd.
        log_path: String,
    },
    /// Too many requests are in flight.
    QueueDepthExceeded {
        /// Requests in flight.
        in_flight: usize,
        /// Requests that fit.
        capacity: usize,
        /// When to try again.
        retry_after_s: u64,
    },
    /// clangd exited.
    ClangdExited {
        /// Exit status.
        status: String,
        /// Log of clangd.
        log_path: String,
    },
    /// Bad framing or a bad payload.
    Protocol(String),
    /// Input or output failed.
    Io(IoError),
    /// JSON could not be read or written.
    Json(String),
}

/// What a [`ShimError`] stands for.
pub enum ShimErrorView {
    ClangdMissing { path: Seq<char> },
    NoCompileCommands { root: Seq<char> },
    NoIndexFile { path: Seq<char> },
    InitializeTimeout { timeout_s: u64, log_path: Seq<char> },
    RequestTimeout { method: Seq<char>, timeout_s: u64, log_path: Seq<char> },
    ClangdBusy {
        method: Seq<char>,
        timeout_s: u64,
        current_status: Seq<char>,
        log_path: Seq<char>,
    },
    QueueDepthExceeded { in_flight: usize, capacity: usize, retry_after_s: u64 },
    ClangdExited { status: Seq<char>, log_path: Seq<char> },
    Protocol(Seq<char>),
    Io(IoErrorView),
    Json(Seq<char>),
}

impl View for ShimError {
    type V = ShimErrorView;

    open spec fn view(&self) -> ShimErrorView {
        match self {
            ShimError::ClangdMissing { path } => ShimErrorView::ClangdMissing { path: path@ },
            ShimError::NoCompileCommands { root } => ShimErrorView::NoCompileCommands {
                root: root@,
            },
            ShimError::NoIndexFile { path } => ShimErrorView::NoIndexFile { path: path@ },
            ShimError::InitializeTimeout { timeout_s, log_path } => {
                ShimErrorView::InitializeTimeout { timeout_s: *timeout_s, log_path: log_path@ }
            },
            ShimError::RequestTimeout { method, timeout_s, log_path } => {
                ShimErrorView::RequestTimeout {
                    method: method@,
                    timeout_s: *timeout_s,
                    log_path: log_path@,
                }
            },
            ShimError::ClangdBusy { method, timeout_s, current_status, log_path } => {
                ShimErrorView::ClangdBusy {
                    method: method@,
                    timeout_s: *timeout_s,
                    current_status: current_status@,
                    log_path: log_path@,
                }
            },
            ShimError::QueueDepthExceeded { in_flight, capacity, retry_after_s } => {
                ShimErrorView::QueueDepthExceeded {
                    in_flight: *in_flight,
                    capacity: *capacity,
                    retry_after_s: *retry_after_s,
                }
            },
            ShimError::ClangdExited { status, log_path } => ShimErrorView::ClangdExited {
                status: status@,
                log_path: log_path@,
            },
            ShimError::Protocol(m) => ShimErrorView::Protocol(m@),
            ShimError::Io(e) => ShimErrorView::Io(e@),
            ShimError::Json(m) => ShimErrorView::Json(m@),
        }
    }
}

/// The one-line message of a failure.
pub open spec fn error_text(e: ShimErrorView) -> Seq<char> {
    match e {
        ShimErrorView::ClangdMissing { path } => "clangd binary not found (looked at "@ + path
            + "); install clangd-19 or set CLANGD_BIN"@,
        ShimErrorView::NoCompileCommands { root } => "compile_commands.json not found under "@
            + root
            + "; run a compile_commands narrowing helper or generate the full DB first"@,
        ShimErrorView::NoIndexFile { path } => "pre-built clangd index file not found at "@ + path
            + "; build it with `clangd-indexer` or set LSP_CPP_INDEX_MODE=narrow to skip"@,
        ShimErrorView::InitializeTimeout { timeout_s, log_path } => {
            "clangd initialize handshake timed out after "@ + text::dec(timeout_s as nat)
                + "s; clangd log at "@ + log_path
        },
        ShimErrorView::RequestTimeout { method, timeout_s, log_path } => {
            "clangd request timed out after "@ + text::dec(timeout_s as nat) + "s ("@ + method
                + "); see "@ + log_path + " for last heartbeat"@
        },
        ShimErrorView::ClangdBusy { method, timeout_s, current_status, log_path } => {
            "clangd busy after "@ + text::dec(timeout_s as nat) + "s ("@ + method + "); status="@
                + current_status + "; log: "@ + log_path
        },
        ShimErrorView::QueueDepthExceeded { in_flight, capacity, retry_after_s } => {
            "clangd-wrapper queue full ("@ + text::dec(in_flight as nat) + "/"@ + text::dec(
                capacity as nat,
            ) + "); retry after "@ + text::dec(retry_after_s as nat)
                + "s — this is wrapper-side load shedding, clangd may be healthy"@
        },
        ShimErrorView::ClangdExited { status, log_path } => {
            "clangd exited unexpectedly (status="@ + status + "); log: "@ + log_path
        },
        ShimErrorView::Protocol(m) => "clangd JSON-RPC error: "@ + m,
        ShimErrorView::Io(e) => "I/O error: "@ + e.message,
        ShimErrorView::Json(m) => "JSON error: "@ + m,
    }
}

/// The stable tag of a failure.
pub open spec fn error_tag(e: ShimErrorView) -> Seq<char> {
    match e {
        ShimErrorView::ClangdMissing { .. } => "clangd_missing"@,
        ShimErrorView::NoCompileCommands { .. } => "no_compile_commands"@,
        ShimErrorView::NoIndexFile { .. } => "no_index_file"@,
        ShimErrorView::InitializeTimeout { .. } => "initialize_timeout"@,
        ShimErrorView::RequestTimeout { .. } => "request_timeout"@,
        ShimErrorView::ClangdBusy { .. } => "clangd_busy"@,
        ShimErrorView::QueueDepthExceeded { .. } => "queue_depth_exceeded"@,
        ShimErrorView::ClangdExited { .. } => "clangd_exited"@,
        ShimErrorView::Protocol(_) => "protocol"@,
        ShimErrorView::Io(_) => "io"@,
        ShimErrorView::Json(_) => "json"@,
    }
}

impl ShimError {
    /// A failure of the protocol.
    pub fn protocol(message: &str) -> (e: Self)
        ensures
            e@ == ShimErrorView::Protocol(message@),
    {
        ShimError::Protocol(message.to_owned())
    }

    /// The one-line message.
    pub fn message(&self) -> (m: String)
        ensures
            m@ == error_text(self@),
    {
        match self {
            ShimError::ClangdMissing { path } => {
                let mut m = "clangd binary not found (looked at ".to_owned();
                m.append(path.as_str());
                m.append("); install clangd-19 or set CLANGD_BIN");
                m
            },
            ShimError::NoCompileCommands { root } => {
                let mut m = "compile_commands.json not found under ".to_owned();
                m.append(root.as_str());
                m.append(
                    "; run a compile_commands narrowing helper or generate the full DB first",
                );
                m
            },
            ShimError::NoIndexFile { path } => {
                let mut m = "pre-built clangd index file not found at ".to_owned();
                m.append(path.as_str());
                m.append(
                    "; build it with `clangd-indexer` or set LSP_CPP_INDEX_MODE=narrow to skip",
                );
                m
            },
            ShimError::InitializeTimeout { timeout_s, log_path } => {
                let mut m = "clangd initialize handshake timed out after ".to_owned();
                m.append(text::dec_u64(*timeout_s).as_str());
                m.append("s; clangd log at ");
                m.append(log_path.as_str());
                m
            },
            ShimError::RequestTimeout { method, timeout_s, log_path } => {
                let mut m = "clangd request timed out after ".to_owned();
                m.append(text::dec_u64(*timeout_s).as_str());
                m.append("s (");
                m.append(method.as_str());
                m.append("); see ");
                m.append(log_path.as_str());
                m.append(" for last heartbeat");
                m
            },
            ShimError::ClangdBusy { method, timeout_s, current_status, log_path } => {
                let mut m = "clangd busy after ".to_owned();
                m.append(text::dec_u64(*timeout_s).as_str());
                m.append("s (");
                m.append(method.as_str());
                m.append("); status=");
                m.append(current_status.as_str());
                m.append("; log: ");
                m.append(log_path.as_str());
                m
            },
            ShimError::QueueDepthExceeded { in_flight, capacity, retry_after_s } => {
                let mut m = "clangd-wrapper queue full (".to_owned();
                m.append(text::dec_usize(*in_flight).as_str());
                m.append("/");
                m.append(text::dec_usize(*capacity).as_str());
                m.append("); retry after ");
                m.append(text::dec_u64(*retry_after_s).as_str());
                m.append("s — this is wrapper-side load shedding, clangd may be healthy");
                m
            },
            ShimError::ClangdExited { status, log_path } => {
                let mut m = "clangd exited unexpectedly (status=".to_owned();
                m.append(status.as_str());
                m.append("); log: ");
                m.append(log_path.as_str());
                m
            },
            ShimError::Protocol(p) => text::concat("clangd JSON-RPC error: ", p.as_str()),
            ShimError::Io(e) => text::concat("I/O error: ", e.message()),
            ShimError::Json(p) => text::concat("JSON error: ", p.as_str()),
        }
    }

    /// The stable tag, the same on every transport.
    pub fn error_kind(&self) -> (tag: &'static str)
        ensures
            tag@ == error_tag(self@),
    {
        match self {
            ShimError::ClangdMissing { .. } => "clangd_missing",
            ShimError::NoCompileCommands { .. } => "no_compile_commands",
            ShimError::NoIndexFile { .. } => "no_index_file",
            ShimError::InitializeTimeout { .. } => "initialize_timeout",
            ShimError::RequestTimeout { .. } => "request_timeout",
            ShimError::ClangdBusy { .. } => "clangd_busy",
            ShimError::QueueDepthExceeded { .. } => "queue_depth_exceeded",
            ShimError::ClangdExited { .. } => "clangd_exited",
            ShimError::Protocol(_) => "protocol",
            ShimError::Io(_) => "io",
            ShimError::Json(_) => "json",
        }
    }
}

/// Result of an operation of the clangd server.
pub type Result<T> = std::result::Result<T, ShimError>;

/// Whether a text holds another.
pub open spec fn holds(whole: Seq<char>, part: Seq<char>) -> bool {
    exists|before: Seq<char>, after: Seq<char>| whole == #[trigger] (before + part + after)
}

proof fn lemma_holds(before: Seq<char>, part: Seq<char>, after: Seq<char>)
    ensures
        holds(before + part + after, part),
        holds(before + part, part),
{
    assert(before + part =~= before + part + Seq::<char>::empty());
}

/// The message of a failure names what it is about: paths, methods, times and
/// the words it was told in.
pub proof fn law_messages_name_what_failed(e: ShimErrorView)
    ensures
        match e {
            ShimErrorView::ClangdMissing { path } => holds(error_text(e), path),
            ShimErrorView::NoCompileCommands { root } => holds(error_text(e), root),
            ShimErrorView::NoIndexFile { path } => holds(error_text(e), path),
            ShimErrorView::InitializeTimeout { timeout_s, log_path } => holds(
                error_text(e),
                text::dec(timeout_s as nat),
            ) && holds(error_text(e), log_path),
            ShimErrorView::RequestTimeout { method, timeout_s, log_path } => holds(
                error_text(e),
                text::dec(timeout_s as nat),
            ) && holds(error_text(e), method) && holds(error_text(e), log_path),
            ShimErrorView::ClangdBusy { method, timeout_s, current_status, log_path } => holds(
                error_text(e),
                text::dec(timeout_s as nat),
            ) && holds(error_text(e), method) && holds(error_text(e), current_status) && holds(
                error_text(e),
                log_path,
            ),
            ShimErrorView::QueueDepthExceeded { in_flight, capacity, retry_after_s } => holds(
                error_text(e),
                text::dec(in_flight as nat) + "/"@ + text::dec(capacity as nat),
            ) && holds(error_text(e), text::dec(retry_after_s as nat)),
            ShimErrorView::ClangdExited { status, log_path } => holds(error_text(e), status)
                && holds(error_text(e), log_path),
            ShimErrorView::Protocol(m) => error_text(e) == "clangd JSON-RPC error: "@ + m,
            ShimErrorView::Io(io) => error_text(e) == "I/O error: "@ + io.message,
            ShimErrorView::Json(m) => error_text(e) == "JSON error: "@ + m,
        },
{
    let t = error_text(e);
    match e {
        ShimErrorView::ClangdMissing { path } => {
            lemma_holds(
                "clangd binary not found (looked at "@,
                path,
                "); install clangd-19 or set CLANGD_BIN"@,
            );
        },
        ShimErrorView::NoCompileCommands { root } => {
            lemma_holds(
                "compile_commands.json not found under "@,
                root,
                "; run a compile_commands narrowing helper or generate the full DB first"@,
            );
        },
        ShimErrorView::NoIndexFile { path } => {
            lemma_holds(
                "pre-built clangd index file not found at "@,
                path,
                "; build it with `clangd-indexer` or set LSP_CPP_INDEX_MODE=narrow to skip"@,
            );
        },
        ShimErrorView::InitializeTimeout { timeout_s, log_path } => {
            let a = "clangd initialize handshake timed out after "@;
            let b = "s; clangd log at "@;
            let n = text::dec(timeout_s as nat);
            lemma_holds(a, n, b + log_path);
            assert(a + n + (b + log_path) =~= t);
            lemma_holds(a + n + b, log_path, Seq::empty());
        },
        ShimErrorView::RequestTimeout { method, timeout_s, log_path } => {
            let a = "clangd request timed out after "@;
            let n = text::dec(timeout_s as nat);
            let b = "s ("@;
            let c = "); see "@;
            let d = " for last heartbeat"@;
            lemma_holds(a, n, b + method + c + log_path + d);
            assert(a + n + (b + method + c + log_path + d) =~= t);
            lemma_holds(a + n + b, method, c + log_path + d);
            assert(a + n + b + method + (c + log_path + d) =~= t);
            lemma_holds(a + n + b + method + c, log_path, d);
        },
        ShimErrorView::ClangdBusy { method, timeout_s, current_status, log_path } => {
            let a = "clangd busy after "@;
            let n = text::dec(timeout_s as nat);
            let b = "s ("@;
            let c = "); status="@;
            let d = "; log: "@;
            lemma_holds(a, n, b + method + c + current_status + d + log_path);
            assert(a + n + (b + method + c + current_status + d + log_path) =~= t);
            lemma_holds(a + n + b, method, c + current_status + d + log_path);
            assert(a + n + b + method + (c + current_status + d + log_path) =~= t);
            lemma_holds(a + n + b + method + c, current_status, d + log_path);
            assert(a + n + b + method + c + current_status + (d + log_path) =~= t);
            lemma_holds(a + n + b + method + c + current_status + d, log_path, Seq::empty());
        },
        ShimErrorView::QueueDepthExceeded { in_flight, capacity, retry_after_s } => {
            let a = "clangd-wrapper queue full ("@;
            let load = text::dec(in_flight as nat) + "/"@ + text::dec(capacity as nat);
            let b = "); retry after "@;
            let n = text::dec(retry_after_s as nat);
            let c = "s — this is wrapper-side load shedding, clangd may be healthy"@;
            lemma_holds(a, load, b + n + c);
            assert(a + load + (b + n + c) =~= t);
            lemma_holds(a + load + b, n, c);
            assert(a + load + b + n + c =~= t);
        },
        ShimErrorView::ClangdExited { status, log_path } => {
            let a = "clangd exited unexpectedly (status="@;
            let b = "); log: "@;
            lemma_holds(a, status, b + log_path);
            assert(a + status + (b + log_path) =~= t);
            lemma_holds(a + status + b, log_path, Seq::empty());
        },
        _ => {},
    }
}

/// The tag of a failure tells which failure it is.
pub proof fn law_tags_tell_the_failures_apart(e: ShimErrorView)
    ensures
        e is ClangdMissing <==> error_tag(e) == "clangd_missing"@,
        e is NoCompileCommands <==> error_tag(e) == "no_compile_commands"@,
        e is NoIndexFile <==> error_tag(e) == "no_index_file"@,
        e is InitializeTimeout <==> error_tag(e) == "initialize_timeout"@,
        e is RequestTimeout <==> error_tag(e) == "request_timeout"@,
        e is ClangdBusy <==> error_tag(e) == "clangd_busy"@,
        e is QueueDepthExceeded <==> error_tag(e) == "queue_depth_exceeded"@,
        e is ClangdExited <==> error_tag(e) == "clangd_exited"@,
        e is Protocol <==> error_tag(e) == "protocol"@,
        e is Io <==> error_tag(e) == "io"@,
        e is Json <==> error_tag(e) == "json"@,
{
    reveal_strlit("clangd_missing");
    reveal_strlit("no_compile_commands");
    reveal_strlit("no_index_file");
    reveal_strlit("initialize_timeout");
    reveal_strlit("request_timeout");
    reveal_strlit("clangd_busy");
    reveal_strlit("queue_depth_exceeded");
    reveal_strlit("clangd_exited");
    reveal_strlit("protocol");
    reveal_strlit("io");
    reveal_strlit("json");
    assert("clangd_missing"@.len() == 14 && "no_compile_commands"@.len() == 19);
    assert("no_index_file"@.len() == 13 && "initialize_timeout"@.len() == 18);
    assert("request_timeout"@.len() == 15 && "clangd_busy"@.len() == 11);
    assert("queue_depth_exceeded"@.len() == 20 && "clangd_exited"@.len() == 13);
    assert("protocol"@.len() == 8 && "io"@.len() == 2 && "json"@.len() == 4);
    assert("no_index_file"@[0] != "clangd_exited"@[0]);
}

} // verus!
