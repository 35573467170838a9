//! The client of rust-analyzer as far as it decides and computes: settings, the
//! handshake, requests with their retries, and waiting for the index.
use vstd::prelude::*;
use vstd::utf8::*;

use crate::io_error::{IoError, IoErrorView};
use crate::json::{self, Json, JsonView};
use crate::lsp_messages::{self, Question};
use crate::lsp_shim_core::framing::{
    self, RpcOutcome, RpcView, LSP_ERROR_CONTENT_MODIFIED, LSP_ERROR_SERVER_CANCELLED,
};
use crate::schema;
use crate::text;

verus! {

/// Seconds within which a request must be answered where nothing is configured.
pub const DEFAULT_TIMEOUT_SECS: u64 = 60;

/// Seconds within which the handshake must be answered.
pub const INITIALIZE_TIMEOUT_SECS: u64 = 15;

/// Log of rust-analyzer where nothing is configured.
pub const DEFAULT_LOG_PATH: &'static str = "/tmp/lsp-rust.log";

/// Attempts that a request gets while the server reports a transient error.
pub const RETRY_BUDGET: u32 = 3;

/// Milliseconds between two attempts.
pub const RETRY_BACKOFF_MS: u64 = 500;

/// Milliseconds between two samples of the index.
pub const INDEX_POLL_MS: u64 = 500;

/// Seconds that rust-analyzer gets to end by itself.
pub const SHUTDOWN_GRACE_S: u64 = 1;

/// Milliseconds between two looks at whether it has ended.
pub const SHUTDOWN_POLL_MS: u64 = 25;

/// A failure. Each kind that a caller can tell apart has its own variant.
#[derive(Debug)]
pub enum LspShimError {
    /// rust-analyzer could not be started.
    Spawn {
        /// Binary that was tried.
        binary: String,
        /// What went wrong.
        source: IoError,
    },
    /// rust-analyzer reported an error.
    Lsp {
        /// Code, as the server reported it.
        code: i64,
        /// Message of the server.
        message: String,
        /// When to try again, where the error is transient.
        retry_after_ms: Option<u64>,
    },
    /// rust-analyzer did not answer in time.
    Timeout {
        /// Method of the request.
        method: String,
        /// Timeout in seconds.
        timeout_s: u64,
        /// Log of rust-analyzer.
        log_path: String,
    },
    /// Bad framing or a bad payload.
    Protocol(String),
    /// Input or output failed.
    Io(IoError),
    /// JSON could not be read or written.
    Json(String),
    /// Anything else.
    Internal(String),
}

/// What an [`LspShimError`] stands for.
pub enum LspErrorView {
    Spawn { binary: Seq<char>, source: IoErrorView },
    Lsp { code: i64, message: Seq<char>, retry_after_ms: Option<u64> },
    Timeout { method: Seq<char>, timeout_s: u64, log_path: Seq<char> },
    Protocol(Seq<char>),
    Io(IoErrorView),
    Json(Seq<char>),
    Internal(Seq<char>),
}

impl View for LspShimError {
    type V = LspErrorView;

    open spec fn view(&self) -> LspErrorView {
        match self {
            LspShimError::Spawn { binary, source } => LspErrorView::Spawn {
                binary: binary@,
                source: source@,
            },
            LspShimError::Lsp { code, message, retry_after_ms } => LspErrorView::Lsp {
                code: *code,
                message: message@,
                retry_after_ms: *retry_after_ms,
            },
            LspShimError::Timeout { method, timeout_s, log_path } => LspErrorView::Timeout {
                method: method@,
                timeout_s: *timeout_s,
                log_path: log_path@,
            },
            LspShimError::Protocol(words) => LspErrorView::Protocol(words@),
            LspShimError::Io(e) => LspErrorView::Io(e@),
            LspShimError::Json(words) => LspErrorView::Json(words@),
            LspShimError::Internal(words) => LspErrorView::Internal(words@),
        }
    }
}

/// A span of whole seconds in words.
pub open spec fn span_text(seconds: u64) -> Seq<char> {
    if seconds == 0 {
        "0ns"@
    } else {
        text::dec(seconds as nat) + "s"@
    }
}

fn span(seconds: u64) -> (r: String)
    ensures
        r@ == span_text(seconds),
{
    if seconds == 0 {
        "0ns".to_owned()
    } else {
        text::concat(text::dec_u64(seconds).as_str(), "s")
    }
}

/// A failure in words.
pub open spec fn error_text(e: LspErrorView) -> Seq<char> {
    match e {
        LspErrorView::Spawn { binary, source } => "rust-analyzer spawn failed (binary="@ + binary
            + "): "@ + source.message,
        LspErrorView::Lsp { code, message, .. } => "rust-analyzer LSP error "@ + text::dec_int(
            code as int,
        ) + ": "@ + message,
        LspErrorView::Timeout { method, timeout_s, log_path } => "LSP request "@ + method
            + " timed out after "@ + span_text(timeout_s) + "; log="@ + log_path,
        LspErrorView::Protocol(words) => "LSP protocol error: "@ + words,
        LspErrorView::Io(e) => "I/O error: "@ + e.message,
        LspErrorView::Json(words) => "JSON error: "@ + words,
        LspErrorView::Internal(words) => "internal error: "@ + words,
    }
}

/// The tag of a failure.
pub open spec fn error_tag(e: LspErrorView) -> Seq<char> {
    match e {
        LspErrorView::Spawn { .. } => "spawn"@,
        LspErrorView::Lsp { .. } => "lsp"@,
        LspErrorView::Timeout { .. } => "timeout"@,
        LspErrorView::Protocol(_) => "protocol"@,
        LspErrorView::Io(_) => "io"@,
        LspErrorView::Json(_) => "json"@,
        LspErrorView::Internal(_) => "internal"@,
    }
}

impl LspShimError {
    /// A failure of the protocol.
    pub fn protocol(words: &str) -> (e: Self)
        ensures
            e@ == LspErrorView::Protocol(words@),
    {
        LspShimError::Protocol(words.to_owned())
    }

    /// The failure in words.
    pub fn message(&self) -> (m: String)
        ensures
            m@ == error_text(self@),
    {
        match self {
            LspShimError::Spawn { binary, source } => {
                let mut m = text::concat("rust-analyzer spawn failed (binary=", binary.as_str());
                m.append("): ");
                m.append(source.message());
                m
            },
            LspShimError::Lsp { code, message, .. } => {
                let mut m = text::concat("rust-analyzer LSP error ", text::dec_i64(*code).as_str());
                m.append(": ");
                m.append(message.as_str());
                m
            },
            LspShimError::Timeout { method, timeout_s, log_path } => {
                let mut m = text::concat("LSP request ", method.as_str());
                m.append(" timed out after ");
                m.append(span(*timeout_s).as_str());
                m.append("; log=");
                m.append(log_path.as_str());
                m
            },
            LspShimError::Protocol(words) => text::concat("LSP protocol error: ", words.as_str()),
            LspShimError::Io(e) => text::concat("I/O error: ", e.message()),
            LspShimError::Json(words) => text::concat("JSON error: ", words.as_str()),
            LspShimError::Internal(words) => text::concat("internal error: ", words.as_str()),
        }
    }

    /// The tag of the failure.
    pub fn error_kind(&self) -> (tag: &'static str)
        ensures
            tag@ == error_tag(self@),
    {
        match self {
            LspShimError::Spawn { .. } => "spawn",
            LspShimError::Lsp { .. } => "lsp",
            LspShimError::Timeout { .. } => "timeout",
            LspShimError::Protocol(_) => "protocol",
            LspShimError::Io(_) => "io",
            LspShimError::Json(_) => "json",
            LspShimError::Internal(_) => "internal",
        }
    }
}

/// Outcome of an operation.
pub type Result<T> = std::result::Result<T, LspShimError>;

/// The outcome of a request in views.
pub open spec fn outcome(r: Result<Json>) -> std::result::Result<JsonView, LspErrorView> {
    match r {
        Ok(j) => Ok(j@),
        Err(e) => Err(e@),
    }
}

/// Values of the variables that settings come from.
#[derive(Debug)]
pub struct RustAnalyzerEnv {
    pub binary: Option<String>,
    pub timeout: Option<String>,
    pub log_file: Option<String>,
}

/// The timeout: from the command line, else from its variable where that is a
/// number, else the default.
pub open spec fn chosen_timeout(cli: Option<u64>, env: Option<Seq<char>>) -> u64 {
    match (cli, env) {
        (Some(s), _) => s,
        (None, Some(value)) => match text::parse_uint(value, u64::MAX as nat) {
            Ok(n) => n as u64,
            Err(_) => DEFAULT_TIMEOUT_SECS,
        },
        (None, None) => DEFAULT_TIMEOUT_SECS,
    }
}

/// The log: from its variable, else the default.
pub open spec fn chosen_log(env: Option<Seq<char>>) -> Seq<char> {
    match env {
        Some(value) => value,
        None => DEFAULT_LOG_PATH@,
    }
}

/// The state of the client that is not a process or a pipe.
#[derive(Debug)]
pub struct RustAnalyzerClient {
    workspace: String,
    binary: String,
    log_path: String,
    timeout_s: u64,
    next_id: u64,
    ready: bool,
}

/// What a [`RustAnalyzerClient`] stands for.
pub struct ClientView {
    pub workspace: Seq<char>,
    pub binary: Seq<char>,
    pub log_path: Seq<char>,
    pub timeout_s: u64,
    /// Number of the next request.
    pub next_id: u64,
    /// Whether the last handshake was completed.
    pub ready: bool,
}

impl View for RustAnalyzerClient {
    type V = ClientView;

    closed spec fn view(&self) -> ClientView {
        ClientView {
            workspace: self.workspace@,
            binary: self.binary@,
            log_path: self.log_path@,
            timeout_s: self.timeout_s,
            next_id: self.next_id,
            ready: self.ready,
        }
    }
}

/// Whether rust-analyzer has to be started.
pub open spec fn spawn_wanted(v: ClientView, child: bool) -> bool {
    !(child && v.ready)
}

/// The client once a start has begun: from then on it is not ready.
pub open spec fn start_begun(v: ClientView) -> ClientView {
    ClientView { ready: false, ..v }
}

/// The client once a handshake has begun.
pub open spec fn handshake_begun(v: ClientView) -> ClientView {
    ClientView { next_id: v.next_id.wrapping_add(1), ready: false, ..v }
}

/// The client once a handshake was completed.
pub open spec fn handshake_made(v: ClientView) -> ClientView {
    ClientView { ready: true, ..v }
}

/// The client once a request was made.
pub open spec fn request_made(v: ClientView) -> ClientView {
    ClientView { next_id: v.next_id.wrapping_add(1), ..v }
}

/// Starting rust-analyzer again does nothing after the first success: from a
/// completed handshake on, requests leave nothing to start as long as there is a
/// child. Before that, and without a child, there is.
pub proof fn law_spawn_is_done_once(v: ClientView)
    ensures
        !spawn_wanted(handshake_made(v), true),
        !spawn_wanted(v, true) ==> !spawn_wanted(request_made(v), true),
        spawn_wanted(handshake_begun(v), true),
        spawn_wanted(v, false),
        !v.ready ==> spawn_wanted(v, true),
{
}

/// A client that has sent nothing yet.
pub open spec fn fresh_client(
    workspace: Seq<char>,
    cli_timeout: Option<u64>,
    env: RustAnalyzerEnv,
) -> ClientView {
    ClientView {
        workspace,
        binary: match text::opt_view(env.binary) {
            Some(b) => b,
            None => "rust-analyzer"@,
        },
        log_path: chosen_log(text::opt_view(env.log_file)),
        timeout_s: chosen_timeout(cli_timeout, text::opt_view(env.timeout)),
        next_id: 1,
        ready: false,
    }
}

/// What the handshake tells rust-analyzer.
pub open spec fn initialize_params(pid: u32, workspace: Seq<char>) -> JsonView {
    let fixed = JsonView::Object(map!["dynamicRegistration"@ => JsonView::Bool(false)]);
    JsonView::Object(
        map![
            "processId"@ => json::json_int(pid as int),
            "rootUri"@ => JsonView::Str(lsp_messages::file_uri(workspace)),
            "capabilities"@ => JsonView::Object(
                map![
                    "workspace"@ => JsonView::Object(
                        map![
                            "symbol"@ => fixed,
                            "diagnostic"@ => JsonView::Object(
                                map!["refreshSupport"@ => JsonView::Bool(false)],
                            ),
                        ],
                    ),
                    "textDocument"@ => JsonView::Object(
                        map![
                            "definition"@ => JsonView::Object(Map::empty()),
                            "references"@ => JsonView::Object(Map::empty()),
                            "hover"@ => JsonView::Object(
                                map![
                                    "contentFormat"@ => JsonView::Array(
                                        seq![
                                            JsonView::Str("plaintext"@),
                                            JsonView::Str("markdown"@),
                                        ],
                                    ),
                                ],
                            ),
                            "diagnostic"@ => fixed,
                        ],
                    ),
                ],
            ),
            "clientInfo"@ => JsonView::Object(
                map![
                    "name"@ => JsonView::Str("lsp-rust"@),
                    "version"@ => JsonView::Str(schema::VERSION@),
                ],
            ),
        ],
    )
}

fn static_registration() -> (r: Json)
    ensures
        r@ == JsonView::Object(map!["dynamicRegistration"@ => JsonView::Bool(false)]),
{
    Json::object().put("dynamicRegistration", Json::Bool(false))
}

fn handshake_params(pid: u32, workspace: &str) -> (r: Json)
    ensures
        r@ == initialize_params(pid, workspace@),
{
    let formats = vec![Json::str("plaintext"), Json::str("markdown")];
    assert(json::json_views(formats@) =~= seq![
        JsonView::Str("plaintext"@),
        JsonView::Str("markdown"@),
    ]);
    let space = Json::object().put("symbol", static_registration()).put(
        "diagnostic",
        Json::object().put("refreshSupport", Json::Bool(false)),
    );
    let documents = Json::object().put("definition", Json::object()).put(
        "references",
        Json::object(),
    ).put("hover", Json::object().put("contentFormat", Json::array(formats))).put(
        "diagnostic",
        static_registration(),
    );
    let capabilities = Json::object().put("workspace", space).put("textDocument", documents);
    let info = Json::object().put("name", Json::str("lsp-rust")).put(
        "version",
        Json::str(schema::VERSION),
    );
    Json::object().put("processId", Json::uint(pid as u64)).put(
        "rootUri",
        Json::Str(lsp_messages::uri_of(workspace)),
    ).put("capabilities", capabilities).put("clientInfo", info)
}

/// What an awaited answer is for.
#[derive(Debug, Clone, Copy, PartialEq, Eq, Structural)]
pub enum Purpose {
    /// The handshake.
    Handshake,
    /// A request.
    Request,
}

/// Waiting for one answer.
#[derive(Debug)]
pub struct Exchange {
    purpose: Purpose,
    id: u64,
    method: String,
    timeout_s: u64,
    log_path: String,
    deadline_ns: u128,
}

/// What an [`Exchange`] stands for.
pub struct ExchangeView {
    pub purpose: Purpose,
    pub id: u64,
    pub method: Seq<char>,
    pub timeout_s: u64,
    pub log_path: Seq<char>,
    pub deadline_ns: u128,
}

impl View for Exchange {
    type V = ExchangeView;

    closed spec fn view(&self) -> ExchangeView {
        ExchangeView {
            purpose: self.purpose,
            id: self.id,
            method: self.method@,
            timeout_s: self.timeout_s,
            log_path: self.log_path@,
            deadline_ns: self.deadline_ns,
        }
    }
}

/// What happens while an answer is awaited.
#[derive(Debug)]
pub enum Heard {
    /// The clock was read.
    Clock {
        now_ns: u128,
    },
    /// A message came, or reading one failed.
    Message(std::result::Result<Json, IoError>),
}

/// What a [`Heard`] stands for.
pub enum HeardView {
    Clock { now_ns: u128 },
    Message(std::result::Result<JsonView, IoErrorView>),
}

impl View for Heard {
    type V = HeardView;

    open spec fn view(&self) -> HeardView {
        match self {
            Heard::Clock { now_ns } => HeardView::Clock { now_ns: *now_ns },
            Heard::Message(Ok(j)) => HeardView::Message(Ok(j@)),
            Heard::Message(Err(e)) => HeardView::Message(Err(e@)),
        }
    }
}

/// What is done next.
#[derive(Debug)]
pub enum Listening {
    /// The clock is read.
    CheckClock,
    /// A message is read.
    Read,
    /// The answer is here, or waiting failed.
    Done(Result<Json>),
}

/// What a [`Listening`] stands for.
pub enum ListeningView {
    CheckClock,
    Read,
    Done(std::result::Result<JsonView, LspErrorView>),
}

impl View for Listening {
    type V = ListeningView;

    open spec fn view(&self) -> ListeningView {
        match self {
            Listening::CheckClock => ListeningView::CheckClock,
            Listening::Read => ListeningView::Read,
            Listening::Done(r) => ListeningView::Done(outcome(*r)),
        }
    }
}

/// The number of a message.
pub open spec fn message_id(message: JsonView) -> Option<u64> {
    match json::json_get(message, "id"@) {
        Some(id) => json::json_u64(id),
        None => None,
    }
}

/// What the answer to the handshake says.
pub open spec fn handshake_answer(message: JsonView) -> std::result::Result<
    JsonView,
    LspErrorView,
> {
    match json::json_get(message, "error"@) {
        Some(err) => Err(
            LspErrorView::Protocol("rust-analyzer initialize error: "@ + json::json_text(err)),
        ),
        None => Ok(JsonView::Null),
    }
}

/// What a response says of a request: the answer, the error that the server
/// reported, or that it is no response.
pub open spec fn response_says(
    method: Seq<char>,
    response: std::result::Result<RpcView, IoErrorView>,
) -> std::result::Result<JsonView, LspErrorView> {
    match response {
        Err(e) => Err(LspErrorView::Protocol("parse "@ + method + ": "@ + e.message)),
        Ok(RpcView::Result(v)) => Ok(v),
        Ok(RpcView::Error { code, message, .. }) => Err(
            LspErrorView::Lsp { code, message, retry_after_ms: None },
        ),
    }
}

/// What the answer to a request says.
pub open spec fn request_answer(method: Seq<char>, message: JsonView) -> std::result::Result<
    JsonView,
    LspErrorView,
> {
    response_says(method, framing::parsed_response(encode_utf8(json::json_text(message))))
}

/// What is said before the words of a read that failed.
pub open spec fn read_failure(purpose: Purpose, method: Seq<char>) -> Seq<char> {
    match purpose {
        Purpose::Handshake => "initialize recv: "@,
        Purpose::Request => "recv "@ + method + ": "@,
    }
}

/// What is done next while an answer is awaited. Messages under another number,
/// or under none, are passed over.
pub open spec fn listen(x: ExchangeView, heard: HeardView) -> ListeningView {
    match heard {
        HeardView::Clock { now_ns } => if now_ns > x.deadline_ns {
            ListeningView::Done(
                Err(
                    LspErrorView::Timeout {
                        method: x.method,
                        timeout_s: x.timeout_s,
                        log_path: x.log_path,
                    },
                ),
            )
        } else {
            ListeningView::Read
        },
        HeardView::Message(Err(e)) => ListeningView::Done(
            Err(LspErrorView::Protocol(read_failure(x.purpose, x.method) + e.message)),
        ),
        HeardView::Message(Ok(message)) => if message_id(message) != Some(x.id) {
            ListeningView::CheckClock
        } else {
            ListeningView::Done(
                match x.purpose {
                    Purpose::Handshake => handshake_answer(message),
                    Purpose::Request => request_answer(x.method, message),
                },
            )
        },
    }
}

fn read_response(method: &str, message: &Json) -> (r: Result<Json>)
    ensures
        outcome(r) == request_answer(method@, message@),
        json::plain_within(message@, json::read_back_depth()) ==> reads_back(message@),
{
    let body = message.to_text();
    match framing::parse_response(body.as_str().as_bytes()) {
        Err(e) => {
            let mut words = text::concat("parse ", method);
            words.append(": ");
            words.append(e.message());
            Err(LspShimError::Protocol(words))
        },
        Ok(RpcOutcome::Result(v)) => Ok(v),
        Ok(RpcOutcome::Error { code, message, .. }) => Err(
            LspShimError::Lsp { code, message, retry_after_ms: None },
        ),
    }
}

impl Exchange {
    fn read_failed(&self, e: &IoError) -> (r: LspShimError)
        ensures
            r@ == LspErrorView::Protocol(read_failure(self@.purpose, self@.method) + e@.message),
    {
        let mut words = match self.purpose {
            Purpose::Handshake => "initialize recv: ".to_owned(),
            Purpose::Request => {
                let mut words = text::concat("recv ", self.method.as_str());
                words.append(": ");
                words
            },
        };
        words.append(e.message());
        LspShimError::Protocol(words)
    }

    /// Decides what is done next.
    pub fn step(&self, heard: Heard) -> (next: Listening)
        ensures
            next@ == listen(self@, heard@),
            match heard@ {
                HeardView::Message(Ok(message)) => self@.purpose == Purpose::Request
                    && json::plain_within(message, json::read_back_depth()) && carries_result(
                    message,
                    self@.id,
                ) ==> next@ == ListeningView::Done(Ok(json::json_get(message, "result"@)->0)),
                _ => true,
            },
    {
        match heard {
            Heard::Clock { now_ns } => {
                if now_ns > self.deadline_ns {
                    Listening::Done(
                        Err(
                            LspShimError::Timeout {
                                method: self.method.clone(),
                                timeout_s: self.timeout_s,
                                log_path: self.log_path.clone(),
                            },
                        ),
                    )
                } else {
                    Listening::Read
                }
            },
            Heard::Message(Err(e)) => Listening::Done(Err(self.read_failed(&e))),
            Heard::Message(Ok(message)) => {
                proof {
                    if json::plain_within(message@, json::read_back_depth()) && reads_back(message@) {
                        law_answer_is_handed_back(self@, message@, 0, Seq::empty());
                    }
                }
                let ours = match message.get("id") {
                    Some(id) => match id.as_u64() {
                        Some(n) => n == self.id,
                        None => false,
                    },
                    None => false,
                };
                if !ours {
                    return Listening::CheckClock;
                }
                match self.purpose {
                    Purpose::Handshake => match message.get("error") {
                        Some(err) => {
                            let words = text::concat(
                                "rust-analyzer initialize error: ",
                                err.to_text().as_str(),
                            );
                            Listening::Done(Err(LspShimError::Protocol(words)))
                        },
                        None => Listening::Done(Ok(Json::Null)),
                    },
                    Purpose::Request => Listening::Done(
                        read_response(self.method.as_str(), &message),
                    ),
                }
            },
        }
    }
}

/// A request that is about to be sent.
#[derive(Debug)]
pub struct Pending {
    /// Number of the request.
    pub id: u64,
    /// Its method.
    pub method: String,
    /// The message.
    pub message: Json,
}

impl RustAnalyzerClient {
    /// The timeout: the command line wins over the variable, and the variable
    /// over the default.
    pub fn resolve_timeout(cli_override: Option<u64>, env_value: Option<&str>) -> (s: u64)
        ensures
            s == chosen_timeout(cli_override, text::opt_str_view(env_value)),
    {
        match cli_override {
            Some(s) => {
                return s;
            },
            None => {},
        }
        match env_value {
            Some(value) => match text::parse_u64(value) {
                Ok(n) => n,
                Err(_) => DEFAULT_TIMEOUT_SECS,
            },
            None => DEFAULT_TIMEOUT_SECS,
        }
    }

    /// The log.
    pub fn resolve_log_path(env_value: Option<&str>) -> (r: String)
        ensures
            r@ == chosen_log(text::opt_str_view(env_value)),
    {
        match env_value {
            Some(value) => value.to_owned(),
            None => DEFAULT_LOG_PATH.to_owned(),
        }
    }

    /// A client for a workspace.
    pub fn new(workspace: &str, cli_timeout: Option<u64>, env: &RustAnalyzerEnv) -> (r: Self)
        ensures
            r@ == fresh_client(workspace@, cli_timeout, *env),
    {
        let binary = match &env.binary {
            Some(b) => b.clone(),
            None => "rust-analyzer".to_owned(),
        };
        let timeout = match &env.timeout {
            Some(t) => Some(t.as_str()),
            None => None,
        };
        let log_file = match &env.log_file {
            Some(l) => Some(l.as_str()),
            None => None,
        };
        RustAnalyzerClient {
            workspace: workspace.to_owned(),
            binary,
            log_path: Self::resolve_log_path(log_file),
            timeout_s: Self::resolve_timeout(cli_timeout, timeout),
            next_id: 1,
            ready: false,
        }
    }

    /// Log of rust-analyzer.
    pub fn log_path(&self) -> (r: &str)
        ensures
            r@ == self@.log_path,
    {
        self.log_path.as_str()
    }

    /// Binary of rust-analyzer.
    pub fn binary(&self) -> (r: &str)
        ensures
            r@ == self@.binary,
    {
        self.binary.as_str()
    }

    /// Seconds within which a request must be answered.
    pub fn timeout(&self) -> (s: u64)
        ensures
            s == self@.timeout_s,
    {
        self.timeout_s
    }

    fn next_request_id(&mut self) -> (id: u64)
        ensures
            id == old(self)@.next_id,
            final(self)@ == request_made(old(self)@),
    {
        let id: u64 = self.next_id;
        self.next_id = id.wrapping_add(1);
        id
    }

    /// The failure that rust-analyzer could not be started.
    pub fn launch_failed(&self, source: IoError) -> (e: LspShimError)
        ensures
            e@ == (LspErrorView::Spawn { binary: self@.binary, source: source@ }),
    {
        LspShimError::Spawn { binary: self.binary.clone(), source }
    }

    /// Begins a start. Until its handshake is completed there is no use in the
    /// child.
    pub fn begin_start(&mut self)
        ensures
            final(self)@ == start_begun(old(self)@),
    {
        self.ready = false;
    }

    /// Begins the handshake.
    pub fn handshake(&mut self, pid: u32) -> (r: Pending)
        ensures
            r.id == old(self)@.next_id,
            r.method@ == "initialize"@,
            r.message@ == lsp_messages::request_message(
                r.id as int,
                "initialize"@,
                initialize_params(pid, old(self)@.workspace),
            ),
            final(self)@ == handshake_begun(old(self)@),
    {
        let id: u64 = self.next_request_id();
        self.ready = false;
        let params = handshake_params(pid, self.workspace.as_str());
        Pending {
            id,
            method: "initialize".to_owned(),
            message: lsp_messages::request_unsigned(id, "initialize", params),
        }
    }

    /// Waiting for the answer to the handshake, from the moment it was sent.
    pub fn handshake_sent(&self, id: u64, now_ns: u128) -> (r: Exchange)
        ensures
            r@ == (ExchangeView {
                purpose: Purpose::Handshake,
                id,
                method: "initialize"@,
                timeout_s: INITIALIZE_TIMEOUT_SECS,
                log_path: self@.log_path,
                deadline_ns: lsp_messages::moment_after(now_ns, INITIALIZE_TIMEOUT_SECS),
            }),
    {
        Exchange {
            purpose: Purpose::Handshake,
            id,
            method: "initialize".to_owned(),
            timeout_s: INITIALIZE_TIMEOUT_SECS,
            log_path: self.log_path.clone(),
            deadline_ns: lsp_messages::deadline(now_ns, INITIALIZE_TIMEOUT_SECS),
        }
    }

    /// Completes the handshake, once it was answered and that was acknowledged.
    pub fn handshake_completed(&mut self)
        ensures
            final(self)@ == handshake_made(old(self)@),
    {
        self.ready = true;
    }

    /// Whether rust-analyzer has to be started: not where there is a child whose
    /// handshake was completed. A child whose handshake failed is no use.
    pub fn spawn_needed(&self, child: bool) -> (r: bool)
        ensures
            r == spawn_wanted(self@, child),
    {
        !(child && self.ready)
    }

    /// Makes a request.
    pub fn request(&mut self, method: &str, params: Json) -> (r: Pending)
        ensures
            r.id == old(self)@.next_id,
            r.method@ == method@,
            r.message@ == lsp_messages::request_message(r.id as int, method@, params@),
            final(self)@ == request_made(old(self)@),
    {
        let id: u64 = self.next_request_id();
        Pending {
            id,
            method: method.to_owned(),
            message: lsp_messages::request_unsigned(id, method, params),
        }
    }

    /// Waiting for the answer to a request, from the moment it was sent.
    pub fn request_sent(&self, pending: &Pending, now_ns: u128) -> (r: Exchange)
        ensures
            r@ == (ExchangeView {
                purpose: Purpose::Request,
                id: pending.id,
                method: pending.method@,
                timeout_s: self@.timeout_s,
                log_path: self@.log_path,
                deadline_ns: lsp_messages::moment_after(now_ns, self@.timeout_s),
            }),
    {
        Exchange {
            purpose: Purpose::Request,
            id: pending.id,
            method: pending.method.clone(),
            timeout_s: self.timeout_s,
            log_path: self.log_path.clone(),
            deadline_ns: lsp_messages::deadline(now_ns, self.timeout_s),
        }
    }
}

/// The failure that a pipe to rust-analyzer is missing right after the start.
pub fn pipe_missing(pipe: &str) -> (e: LspShimError)
    ensures
        e@ == LspErrorView::Protocol("rust-analyzer "@ + pipe@ + " handle missing"@),
{
    let mut words = text::concat("rust-analyzer ", pipe);
    words.append(" handle missing");
    LspShimError::Protocol(words)
}

/// The failure that a pipe to rust-analyzer is not there when it is needed.
pub fn pipe_not_ready(pipe: &str) -> (e: LspShimError)
    ensures
        e@ == LspErrorView::Protocol(pipe@ + " not initialised"@),
{
    let words = text::concat(pipe, " not initialised");
    LspShimError::Protocol(words)
}

/// Whether a code stands for a transient error.
pub open spec fn transient(code: i64) -> bool {
    code == LSP_ERROR_CONTENT_MODIFIED || code == LSP_ERROR_SERVER_CANCELLED
}

/// What is done about the outcome of an attempt.
#[derive(Debug)]
pub enum Retry {
    /// It is the outcome of the request.
    Return(Result<Json>),
    /// The request is made again after [`RETRY_BACKOFF_MS`].
    Again,
}

/// What a [`Retry`] stands for.
pub enum RetryView {
    Return(std::result::Result<JsonView, LspErrorView>),
    Again,
}

impl View for Retry {
    type V = RetryView;

    open spec fn view(&self) -> RetryView {
        match self {
            Retry::Return(r) => RetryView::Return(outcome(*r)),
            Retry::Again => RetryView::Again,
        }
    }
}

/// What is done about the outcome of an attempt, the first of which has number
/// zero. A transient error is tried again while attempts are left; with the
/// last it is reported, with a hint when to try again.
pub open spec fn after_attempt(
    attempt: u32,
    got: std::result::Result<JsonView, LspErrorView>,
) -> RetryView {
    match got {
        Err(LspErrorView::Lsp { code, message, .. }) => if !transient(code) {
            RetryView::Return(got)
        } else if attempt + 1 < RETRY_BUDGET {
            RetryView::Again
        } else {
            RetryView::Return(
                Err(LspErrorView::Lsp { code, message, retry_after_ms: Some(RETRY_BACKOFF_MS) }),
            )
        },
        _ => RetryView::Return(got),
    }
}

/// Decides what is done about the outcome of an attempt.
pub fn request_with_retry(attempt: u32, got: Result<Json>) -> (r: Retry)
    ensures
        r@ == after_attempt(attempt, outcome(got)),
{
    match got {
        Err(LspShimError::Lsp { code, message, retry_after_ms }) => {
            if code == LSP_ERROR_CONTENT_MODIFIED || code == LSP_ERROR_SERVER_CANCELLED {
                if attempt < RETRY_BUDGET - 1 {
                    Retry::Again
                } else {
                    Retry::Return(
                        Err(
                            LspShimError::Lsp {
                                code,
                                message,
                                retry_after_ms: Some(RETRY_BACKOFF_MS),
                            },
                        ),
                    )
                }
            } else {
                Retry::Return(Err(LspShimError::Lsp { code, message, retry_after_ms }))
            }
        },
        other => Retry::Return(other),
    }
}

/// What a request comes to when its attempts, from one number on, have these
/// outcomes, and how many of them are made.
pub open spec fn retried(
    attempt: u32,
    outcomes: Seq<std::result::Result<JsonView, LspErrorView>>,
) -> (Option<std::result::Result<JsonView, LspErrorView>>, nat)
    decreases outcomes.len(),
{
    if outcomes.len() == 0 {
        (None, 0)
    } else {
        match after_attempt(attempt, outcomes[0]) {
            RetryView::Return(r) => (Some(r), 1),
            RetryView::Again => {
                let (later, made) = retried((attempt + 1) as u32, outcomes.drop_first());
                (later, made + 1)
            },
        }
    }
}

/// A request is over after three attempts at the latest. Anything but a
/// transient error ends it at once and comes back unchanged; a transient error
/// that outlasts the attempts comes back with its own code and a hint when to
/// try again.
pub proof fn law_retry_is_bounded(outcomes: Seq<std::result::Result<JsonView, LspErrorView>>)
    requires
        outcomes.len() >= RETRY_BUDGET,
    ensures
        retried(0, outcomes).0 is Some,
        1 <= retried(0, outcomes).1 <= RETRY_BUDGET,
        !(outcomes[0] matches Err(LspErrorView::Lsp { code, .. }) && transient(code)) ==> retried(
            0,
            outcomes,
        ) == (Some(outcomes[0]), 1nat),
        retried(0, outcomes).0->0 matches Err(LspErrorView::Lsp { code, retry_after_ms, .. })
            && transient(code) ==> retried(0, outcomes).1 == RETRY_BUDGET && retried(
            0,
            outcomes,
        ).0->0->Err_0->retry_after_ms == Some(RETRY_BACKOFF_MS),
{
    reveal_with_fuel(retried, 4);
    let second = outcomes.drop_first();
    let third = second.drop_first();
    assert(second[0] == outcomes[1]);
    assert(third[0] == outcomes[2]);
}

/// Waiting for the index to settle.
#[derive(Debug)]
pub struct Indexing {
    deadline_ns: u128,
    last: Option<String>,
}

/// What an [`Indexing`] stands for.
pub struct IndexingView {
    pub deadline_ns: u128,
    /// Text of the last sample.
    pub last: Option<Seq<char>>,
}

impl View for Indexing {
    type V = IndexingView;

    closed spec fn view(&self) -> IndexingView {
        IndexingView { deadline_ns: self.deadline_ns, last: text::opt_view(self.last) }
    }
}

/// What is done about a sample.
#[derive(Debug)]
pub enum Sampled {
    /// Waiting is over.
    Return(Result<Json>),
    /// Another sample is taken after [`INDEX_POLL_MS`].
    Again,
}

/// What a [`Sampled`] stands for.
pub enum SampledView {
    Return(std::result::Result<JsonView, LspErrorView>),
    Again,
}

impl View for Sampled {
    type V = SampledView;

    open spec fn view(&self) -> SampledView {
        match self {
            Sampled::Return(r) => SampledView::Return(outcome(*r)),
            Sampled::Again => SampledView::Again,
        }
    }
}

/// What is reported of an index that has settled.
pub open spec fn settled_report() -> JsonView {
    JsonView::Object(
        map!["status"@ => JsonView::Str("indexing_settled"@), "samples"@ => json::json_int(2)],
    )
}

/// What a sample tells of the index: an error that the server reports counts as
/// an empty sample.
pub open spec fn sample_text(
    got: std::result::Result<JsonView, LspErrorView>,
) -> std::result::Result<Seq<char>, LspErrorView> {
    match got {
        Ok(v) => Ok(json::json_text(v)),
        Err(LspErrorView::Lsp { .. }) => Ok(json::json_text(JsonView::Null)),
        Err(e) => Err(e),
    }
}

/// What is done about a sample: the index has settled when two samples in a row
/// are the same.
pub open spec fn after_sample(
    s: IndexingView,
    got: std::result::Result<JsonView, LspErrorView>,
) -> (IndexingView, SampledView) {
    match sample_text(got) {
        Err(e) => (s, SampledView::Return(Err(e))),
        Ok(digest) => if s.last == Some(digest) {
            (s, SampledView::Return(Ok(settled_report())))
        } else {
            (IndexingView { last: Some(digest), ..s }, SampledView::Again)
        },
    }
}

impl Indexing {
    /// Takes in a sample and decides what is done about it.
    pub fn sampled(&mut self, got: Result<Json>) -> (r: Sampled)
        ensures
            (final(self)@, r@) == after_sample(old(self)@, outcome(got)),
    {
        let digest = match got {
            Ok(v) => v.to_text(),
            Err(LspShimError::Lsp { .. }) => Json::Null.to_text(),
            Err(other) => {
                return Sampled::Return(Err(other));
            },
        };
        let same = match &self.last {
            Some(last) => text::str_eq(last.as_str(), digest.as_str()),
            None => false,
        };
        if same {
            Sampled::Return(
                Ok(
                    Json::object().put("status", Json::str("indexing_settled")).put(
                        "samples",
                        Json::uint(2),
                    ),
                ),
            )
        } else {
            self.last = Some(digest);
            Sampled::Again
        }
    }

    /// Whether another sample is taken, by the clock.
    pub fn goes_on(&self, now_ns: u128) -> (r: bool)
        ensures
            r == (now_ns < self@.deadline_ns),
    {
        now_ns < self.deadline_ns
    }
}

impl RustAnalyzerClient {
    /// Begins waiting for the index to settle.
    pub fn wait_for_indexing(&self, now_ns: u128) -> (r: Indexing)
        ensures
            r@ == (IndexingView {
                deadline_ns: lsp_messages::moment_after(now_ns, self@.timeout_s),
                last: None,
            }),
    {
        Indexing { deadline_ns: lsp_messages::deadline(now_ns, self.timeout_s), last: None }
    }

    /// The failure that the index did not settle in time.
    pub fn indexing_expired(&self) -> (e: LspShimError)
        ensures
            e@ == (LspErrorView::Timeout {
                method: "wait_for_indexing"@,
                timeout_s: self@.timeout_s,
                log_path: self@.log_path,
            }),
    {
        LspShimError::Timeout {
            method: "wait_for_indexing".to_owned(),
            timeout_s: self.timeout_s,
            log_path: self.log_path.clone(),
        }
    }
}

/// What waiting for the index comes to after some samples, where the clock did
/// not run out.
pub open spec fn samples_say(
    s: IndexingView,
    samples: Seq<std::result::Result<JsonView, LspErrorView>>,
) -> Option<std::result::Result<JsonView, LspErrorView>>
    decreases samples.len(),
{
    if samples.len() == 0 {
        None
    } else {
        match after_sample(s, samples[0]) {
            (_, SampledView::Return(r)) => Some(r),
            (t, SampledView::Again) => samples_say(t, samples.drop_first()),
        }
    }
}

/// Two equal answers in a row settle the wait, and as long as successive answers
/// differ it goes on.
pub proof fn law_two_equal_samples_settle(
    s: IndexingView,
    first: JsonView,
    second: JsonView,
)
    requires
        s.last is None,
    ensures
        json::json_text(first) == json::json_text(second) ==> samples_say(
            s,
            seq![Ok::<JsonView, LspErrorView>(first), Ok::<JsonView, LspErrorView>(second)],
        ) == Some(Ok::<JsonView, LspErrorView>(settled_report())),
        json::json_text(first) != json::json_text(second) ==> samples_say(
            s,
            seq![Ok::<JsonView, LspErrorView>(first), Ok::<JsonView, LspErrorView>(second)],
        ) is None,
{
    reveal_with_fuel(samples_say, 3);
    let both = seq![Ok::<JsonView, LspErrorView>(first), Ok::<JsonView, LspErrorView>(second)];
    assert(both.drop_first()[0] == both[1]);
    assert(both.drop_first().drop_first().len() == 0);
}

/// The command line wins over the variable and the variable over the default.
pub proof fn law_timeout_precedence(cli: u64, env: Option<Seq<char>>, number: u64)
    ensures
        chosen_timeout(Some(cli), env) == cli,
        chosen_timeout(None, Some(text::dec(number as nat))) == number,
        chosen_timeout(None, None) == DEFAULT_TIMEOUT_SECS,
{
    text::lemma_parse_dec(number as nat, u64::MAX as nat);
}

/// A reported error is never taken for an answer, and a `null` answer never for
/// an error.
pub proof fn law_null_is_an_answer(method: Seq<char>, response: RpcView)
    ensures
        response_says(method, Ok(RpcView::Result(JsonView::Null))) == Ok::<JsonView, LspErrorView>(
            JsonView::Null,
        ),
        response is Error <==> response_says(method, Ok(response)) is Err,
{
}

impl RustAnalyzerClient {
    /// Asks where the symbol at a place is defined.
    pub fn definition(&self, file: &str, line: u32, column: u32) -> (q: Question)
        ensures
            q@ == lsp_messages::asks_definition(file@, line, column),
    {
        Question::definition(file, line, column)
    }

    /// Asks where the symbol at a place is used.
    pub fn references(&self, file: &str, line: u32, column: u32) -> (q: Question)
        ensures
            q@ == lsp_messages::asks_references(file@, line, column),
    {
        Question::references(file, line, column)
    }

    /// Asks what is documented of the symbol at a place.
    pub fn hover(&self, file: &str, line: u32, column: u32) -> (q: Question)
        ensures
            q@ == lsp_messages::asks_hover(file@, line, column),
    {
        Question::hover(file, line, column)
    }

    /// Asks which symbols of the workspace match.
    pub fn workspace_symbols(&self, query: &str) -> (q: Question)
        ensures
            q@ == lsp_messages::asks_symbols(query@),
    {
        Question::symbols(query)
    }

    /// Asks which diagnostics a file has.
    pub fn diagnostics(&self, file: &str) -> (q: Question)
        ensures
            q@ == lsp_messages::asks_diagnostics(file@),
    {
        Question::diagnostics(file)
    }
}

/// Whether a message answers a request with a result.
pub open spec fn carries_result(message: JsonView, id: u64) -> bool {
    &&& json::json_get(message, "id"@) == Some(json::json_int(id as int))
    &&& json::json_get(message, "jsonrpc"@) is Some
    &&& json::json_get(message, "error"@) is None
    &&& json::json_get(message, "result"@) is Some
}

/// Whether a message answers a request with an error.
pub open spec fn carries_error(message: JsonView, id: u64, code: i64, words: Seq<char>) -> bool {
    &&& json::json_get(message, "id"@) == Some(json::json_int(id as int))
    &&& json::json_get(message, "jsonrpc"@) is Some
    &&& json::json_get(message, "error"@) is Some
    &&& json::json_get(json::json_get(message, "error"@)->0, "code"@) == Some(
        json::json_int(code as int),
    )
    &&& json::json_get(json::json_get(message, "error"@)->0, "message"@) == Some(
        JsonView::Str(words),
    )
}

/// Whether a message reads back as it is written. [`Json::to_text`] says of
/// which messages that is known.
pub open spec fn reads_back(message: JsonView) -> bool {
    json::json_of_bytes(encode_utf8(json::json_text(message))) == json::read_ok(message)
}

/// A message under the awaited number ends the wait: with its result as it is,
/// whatever it is, or with the error that the server reports, by its own code and
/// words. A message under another number, or under none, does not.
pub proof fn law_answer_is_handed_back(x: ExchangeView, message: JsonView, code: i64, words: Seq<char>)
    ensures
        x.purpose == Purpose::Request && reads_back(message) && carries_result(message, x.id)
            ==> listen(x, HeardView::Message(Ok(message))) == ListeningView::Done(
            Ok(json::json_get(message, "result"@)->0),
        ),
        x.purpose == Purpose::Request && reads_back(message) && carries_error(
            message,
            x.id,
            code,
            words,
        ) ==> listen(x, HeardView::Message(Ok(message))) == ListeningView::Done(
            Err(LspErrorView::Lsp { code, message: words, retry_after_ms: None }),
        ),
        json::json_get(message, "id"@) != Some(json::json_int(x.id as int)) ==> listen(
            x,
            HeardView::Message(Ok(message)),
        ) == ListeningView::CheckClock,
{
    framing::law_body_says_what_its_value_says(
        encode_utf8(json::json_text(message)),
        message,
    );
    if json::json_get(message, "jsonrpc"@) is Some {
        framing::law_response_says_what_it_carries(message, code, words);
    }
    assert(json::json_int(x.id as int)->Number_0->Int_0 == x.id);
    match json::json_get(message, "id"@) {
        Some(JsonView::Number(json::NumberView::Int(i))) => {
            assert(0 <= i <= u64::MAX ==> (i as u64) as int == i);
        },
        _ => {},
    }
}

/// The handshake is answered where a message under its number reports no error,
/// and refused in the words of the server where it reports one.
pub proof fn law_handshake_answer(x: ExchangeView, message: JsonView)
    requires
        x.purpose == Purpose::Handshake,
        json::json_get(message, "id"@) == Some(json::json_int(x.id as int)),
    ensures
        json::json_get(message, "error"@) is None ==> (listen(x, HeardView::Message(Ok(message)))
            matches ListeningView::Done(Ok(_))),
        json::json_get(message, "error"@) is Some ==> listen(x, HeardView::Message(Ok(message)))
            == ListeningView::Done(
            Err(
                LspErrorView::Protocol(
                    "rust-analyzer initialize error: "@ + json::json_text(
                        json::json_get(message, "error"@)->0,
                    ),
                ),
            ),
        ),
{
}

/// The wait goes on up to its deadline and no longer, and says what was waited
/// for when it is over. A read that fails ends it.
pub proof fn law_wait_ends_at_its_deadline(x: ExchangeView, now_ns: u128, failure: IoErrorView)
    ensures
        now_ns <= x.deadline_ns ==> listen(x, HeardView::Clock { now_ns }) == ListeningView::Read,
        now_ns > x.deadline_ns ==> listen(x, HeardView::Clock { now_ns }) == ListeningView::Done(
            Err(
                LspErrorView::Timeout {
                    method: x.method,
                    timeout_s: x.timeout_s,
                    log_path: x.log_path,
                },
            ),
        ),
        listen(x, HeardView::Message(Err(failure))) matches ListeningView::Done(Err(e))
            && e is Protocol,
{
}

/// Exactly the two codes of the protocol for a request that may be made again
/// are transient.
pub proof fn law_transient_codes(code: i64)
    ensures
        transient(code) <==> code == -32801 || code == -32802,
{
}

/// Whether the outcome of an attempt is a transient error.
pub open spec fn is_transient(got: std::result::Result<JsonView, LspErrorView>) -> bool {
    got matches Err(LspErrorView::Lsp { code, .. }) && (code == -32801 || code == -32802)
}

/// Transient errors are passed over and the first outcome that is none comes
/// back unchanged, as long as no more than three attempts are made for it; three
/// transient errors come back as the last of them, with when to try again.
pub proof fn law_transient_errors_are_retried(
    outcomes: Seq<std::result::Result<JsonView, LspErrorView>>,
    k: int,
)
    requires
        0 <= k < outcomes.len(),
        k < 3,
        forall|i: int| 0 <= i < k ==> is_transient(#[trigger] outcomes[i]),
    ensures
        !is_transient(outcomes[k]) ==> retried(0, outcomes) == (Some(outcomes[k]), (k + 1) as nat),
        k == 2 && is_transient(outcomes[k]) ==> {
            &&& retried(0, outcomes).1 == 3
            &&& retried(0, outcomes).0 == Some(
                Err::<JsonView, LspErrorView>(
                    LspErrorView::Lsp {
                        code: outcomes[k]->Err_0->Lsp_code,
                        message: outcomes[k]->Err_0->Lsp_message,
                        retry_after_ms: Some(500),
                    },
                ),
            )
        },
{
    reveal_with_fuel(retried, 4);
    if k >= 1 {
        assert(is_transient(outcomes[0]));
        assert(outcomes.drop_first()[0] == outcomes[1]);
    }
    if k >= 2 {
        assert(is_transient(outcomes[1]));
        assert(outcomes.drop_first().drop_first()[0] == outcomes[2]);
    }
}

/// The index has settled exactly where an answer is the same as the one before
/// it; else that answer is remembered and another is taken.
pub proof fn law_index_settles_on_a_repeat(s: IndexingView, got: JsonView)
    ensures
        s.last == Some(json::json_text(got)) ==> (after_sample(s, Ok(got)).1 matches
            SampledView::Return(Ok(_))),
        s.last != Some(json::json_text(got)) ==> {
            &&& after_sample(s, Ok(got)).1 == SampledView::Again
            &&& after_sample(s, Ok(got)).0.last == Some(json::json_text(got))
            &&& after_sample(s, Ok(got)).0.deadline_ns == s.deadline_ns
        },
{
}

/// An error that the server reports counts as an empty answer; any other failure
/// ends the wait and comes back unchanged.
pub proof fn law_index_wait_fails_with_the_failure(s: IndexingView, e: LspErrorView)
    ensures
        e is Lsp ==> after_sample(s, Err(e)) == after_sample(s, Ok(JsonView::Null)),
        !(e is Lsp) ==> after_sample(s, Err(e)) == (s, SampledView::Return(Err(e))),
{
}

/// A client takes its settings from where they are given: the workspace it is
/// told, the binary and the log from their variables, else the defaults.
pub proof fn law_settings_are_taken(workspace: Seq<char>, timeout: Option<u64>, env: RustAnalyzerEnv)
    ensures
        fresh_client(workspace, timeout, env).workspace == workspace,
        env.binary is Some ==> fresh_client(workspace, timeout, env).binary == env.binary->0@,
        env.binary is None ==> fresh_client(workspace, timeout, env).binary == "rust-analyzer"@,
        env.log_file is Some ==> fresh_client(workspace, timeout, env).log_path == env.log_file->0@,
        env.log_file is None ==> fresh_client(workspace, timeout, env).log_path
            == "/tmp/lsp-rust.log"@,
        timeout is Some ==> fresh_client(workspace, timeout, env).timeout_s == timeout->0,
        !fresh_client(workspace, timeout, env).ready,
{
}

/// The handshake names the workspace that the client is for.
pub proof fn law_handshake_names_the_workspace(pid: u32, workspace: Seq<char>)
    ensures
        json::json_get(initialize_params(pid, workspace), "processId"@) == Some(
            json::json_int(pid as int),
        ),
        json::json_get(initialize_params(pid, workspace), "rootUri"@) == Some(
            JsonView::Str("file://"@ + workspace),
        ),
{
    reveal_strlit("processId");
    reveal_strlit("rootUri");
    reveal_strlit("capabilities");
    reveal_strlit("clientInfo");
    assert("processId"@.len() == 9 && "rootUri"@.len() == 7 && "capabilities"@.len() == 12);
    assert("clientInfo"@.len() == 10);
}

/// Every failure says of itself what it is about.
pub proof fn law_failures_tell_their_kind(e: LspErrorView)
    ensures
        e is Spawn <==> error_tag(e) == "spawn"@,
        e is Timeout <==> error_tag(e) == "timeout"@,
        e is Protocol <==> error_tag(e) == "protocol"@,
        e is Io <==> error_tag(e) == "io"@,
        e is Lsp <==> error_tag(e) == "lsp"@,
        e is Json <==> error_tag(e) == "json"@,
        e is Internal <==> error_tag(e) == "internal"@,
{
    reveal_strlit("spawn");
    reveal_strlit("timeout");
    reveal_strlit("protocol");
    reveal_strlit("io");
    reveal_strlit("lsp");
    reveal_strlit("json");
    reveal_strlit("internal");
    assert("protocol"@[0] != "internal"@[0]);
    assert("spawn"@.len() == 5 && "timeout"@.len() == 7 && "protocol"@.len() == 8);
    assert("io"@.len() == 2 && "lsp"@.len() == 3 && "json"@.len() == 4 && "internal"@.len() == 8);
}

/// The message of a failure names what it is about, and the words it was told in.
pub proof fn law_messages_name_what_failed(e: LspErrorView)
    ensures
        match e {
            LspErrorView::Spawn { binary, source } => error_text(e)
                == "rust-analyzer spawn failed (binary="@ + binary + "): "@ + source.message,
            LspErrorView::Lsp { code, message, .. } => error_text(e)
                == "rust-analyzer LSP error "@ + text::dec_int(code as int) + ": "@ + message,
            LspErrorView::Timeout { method, timeout_s, log_path } => {
                &&& timeout_s > 0 ==> error_text(e) == "LSP request "@ + method
                    + " timed out after "@ + (text::dec(timeout_s as nat) + "s"@) + "; log="@
                    + log_path
                &&& timeout_s == 0 ==> error_text(e) == "LSP request "@ + method
                    + " timed out after "@ + "0ns"@ + "; log="@ + log_path
            },
            LspErrorView::Protocol(words) => error_text(e) == "LSP protocol error: "@ + words,
            LspErrorView::Io(io) => error_text(e) == "I/O error: "@ + io.message,
            LspErrorView::Json(words) => error_text(e) == "JSON error: "@ + words,
            LspErrorView::Internal(words) => error_text(e) == "internal error: "@ + words,
        },
{
}

/// A reading that fails ends the wait with the words of the failure, behind what was
/// being read.
pub proof fn law_failed_reading_is_told(x: ExchangeView, e: IoErrorView)
    ensures
        x.purpose == Purpose::Handshake ==> listen(x, HeardView::Message(Err(e)))
            == ListeningView::Done(Err(LspErrorView::Protocol("initialize recv: "@ + e.message))),
        x.purpose == Purpose::Request ==> listen(x, HeardView::Message(Err(e)))
            == ListeningView::Done(
            Err(LspErrorView::Protocol("recv "@ + x.method + ": "@ + e.message)),
        ),
{
}

/// The time for a request is the one of the command line, else the one of the
/// environment where that is a number, else a minute.
pub proof fn law_timeout_is_chosen(seconds: u64, other: Option<Seq<char>>, words: Seq<char>)
    ensures
        chosen_timeout(Some(seconds), other) == seconds,
        chosen_timeout(None, Some(text::dec(seconds as nat))) == seconds,
        text::parse_uint(words, u64::MAX as nat) is Err ==> chosen_timeout(None, Some(words)) == 60,
        chosen_timeout(None, None) == 60,
{
    text::lemma_parse_dec(seconds as nat, u64::MAX as nat);
}

/// A handshake that is answered without an error has nothing to hand back.
pub proof fn law_handshake_hands_nothing_back(message: JsonView)
    ensures
        json::json_get(message, "error"@) is None ==> handshake_answer(message) == Ok::<
            JsonView,
            LspErrorView,
        >(JsonView::Null),
        json::json_get(message, "error"@) is Some ==> handshake_answer(message) is Err,
{
}

/// The handshake says what the client can take: symbols, definitions, references,
/// and a hover in plain text or, failing that, in Markdown; nothing is registered
/// later.
pub proof fn law_handshake_says_what_is_taken(pid: u32, root: Seq<char>)
    ensures
        ({
            let can = json::json_get(initialize_params(pid, root), "capabilities"@)->0;
            let workspace = json::json_get(can, "workspace"@)->0;
            let documents = json::json_get(can, "textDocument"@)->0;
            &&& json::json_get(json::json_get(workspace, "symbol"@)->0, "dynamicRegistration"@)
                == Some(JsonView::Bool(false))
            &&& json::json_get(documents, "definition"@) is Some
            &&& json::json_get(documents, "references"@) is Some
            &&& json::json_get(json::json_get(documents, "hover"@)->0, "contentFormat"@) == Some(
                JsonView::Array(seq![JsonView::Str("plaintext"@), JsonView::Str("markdown"@)]),
            )
            &&& json::json_get(json::json_get(workspace, "diagnostic"@)->0, "refreshSupport"@) == Some(
                JsonView::Bool(false),
            )
            &&& json::json_get(json::json_get(documents, "diagnostic"@)->0, "dynamicRegistration"@)
                == Some(JsonView::Bool(false))
        }),
{
    reveal_strlit("processId");
    reveal_strlit("rootUri");
    reveal_strlit("capabilities");
    reveal_strlit("workspace");
    reveal_strlit("textDocument");
    reveal_strlit("symbol");
    reveal_strlit("definition");
    reveal_strlit("references");
    reveal_strlit("hover");
    assert("processId"@.len() == 9 && "rootUri"@.len() == 7 && "capabilities"@.len() == 12);
    assert("workspace"@.len() == 9 && "textDocument"@.len() == 12 && "symbol"@.len() == 6);
    assert("definition"@.len() == 10 && "references"@.len() == 10 && "hover"@.len() == 5);
    assert("definition"@[0] != "references"@[0]);
    reveal_strlit("clientInfo");
    reveal_strlit("diagnostic");
    assert("clientInfo"@.len() == 10 && "diagnostic"@.len() == 10);
    assert("diagnostic"@[1] != "definition"@[1]);
    assert("diagnostic"@[0] != "references"@[0]);
}

/// An index that has settled is reported as such, after two samples.
pub proof fn law_settled_index_is_reported(s: IndexingView, got: JsonView)
    requires
        s.last == Some(json::json_text(got)),
    ensures
        match after_sample(s, Ok(got)).1 {
            SampledView::Return(Ok(report)) => {
                &&& json::json_get(report, "status"@) == Some(JsonView::Str("indexing_settled"@))
                &&& json::json_get(report, "samples"@) == Some(json::json_int(2))
            },
            _ => false,
        },
{
    reveal_strlit("status");
    reveal_strlit("samples");
    assert("status"@.len() == 6 && "samples"@.len() == 7);
}

/// A response that cannot be read is told with the method that it answers.
pub proof fn law_unreadable_response_names_its_method(method: Seq<char>, e: IoErrorView)
    ensures
        response_says(method, Err(e)) == Err::<JsonView, LspErrorView>(
            LspErrorView::Protocol("parse "@ + method + ": "@ + e.message),
        ),
{
}

} // verus!
