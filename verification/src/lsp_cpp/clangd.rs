//! The clangd backend as far as it decides and computes: settings, the command
//! line, the handshake, requests, and what the answers mean.
//!
//! Processes, pipes, files and clocks are handled elsewhere; what they said
//! comes in as plain values.
use vstd::prelude::*;

use crate::io_error::{IoError, IoErrorKind, IoErrorView};
use crate::json::{self, Json, JsonView};
use crate::lsp_cpp::error::{ShimError, ShimErrorView};
use crate::lsp_cpp::exchange::{self, Exchange, ExchangeView};
use crate::lsp_messages::{self, Question};
use crate::path;
use crate::text;

verus! {

/// Variable that lists headers to open right after the handshake.
pub const SEED_HEADERS_ENV: &'static str = "LSP_CPP_SEED_HEADERS";

/// Seconds within which a request must be answered.
pub const DEFAULT_REQUEST_TIMEOUT_S: u64 = 60;

/// Seconds within which the handshake must be answered.
pub const DEFAULT_INITIALIZE_TIMEOUT_S: u64 = 10;

/// Seconds that a search of the workspace gets at least.
pub const WORKSPACE_SYMBOL_TIMEOUT_S: u64 = 90;

/// The paths in a comma-separated list: trimmed, without the empty ones.
pub open spec fn listed_paths(pieces: Seq<Seq<char>>) -> Seq<Seq<char>>
    decreases pieces.len(),
{
    if pieces.len() == 0 {
        Seq::empty()
    } else {
        let before = listed_paths(pieces.drop_last());
        let piece = text::trimmed(pieces.last());
        if piece.len() == 0 {
            before
        } else {
            before.push(piece)
        }
    }
}

/// The headers that [`SEED_HEADERS_ENV`] lists.
pub open spec fn seed_headers(raw: Option<Seq<char>>) -> Seq<Seq<char>> {
    match raw {
        Some(list) => listed_paths(text::split_on(list, ',')),
        None => Seq::empty(),
    }
}

/// Reads [`SEED_HEADERS_ENV`].
pub fn seed_headers_from_env(raw: Option<&str>) -> (r: Vec<String>)
    ensures
        text::views(r@) == seed_headers(text::opt_str_view(raw)),
{
    let mut r: Vec<String> = Vec::new();
    match raw {
        Some(list) => {
            let pieces = text::split(list, ',');
            let ghost cut = text::split_on(list@, ',');
            let mut i: usize = 0;
            assert(text::views(r@) =~= listed_paths(cut.subrange(0, 0)));
            while i < pieces.len()
                invariant
                    i <= pieces@.len(),
                    cut == text::views(pieces@),
                    text::views(r@) == listed_paths(cut.subrange(0, i as int)),
                decreases pieces@.len() - i,
            {
                let ghost before = r@;
                let piece = text::trim(pieces[i].as_str());
                if !piece.as_str().is_empty() {
                    r.push(piece);
                    proof {
                        text::lemma_views_push(before, piece);
                    }
                }
                i += 1;
                proof {
                    let seen = cut.subrange(0, i as int);
                    assert(seen.drop_last() =~= cut.subrange(0, i - 1));
                    assert(seen.last() == pieces@[i - 1]@);
                }
            }
            assert(cut.subrange(0, i as int) =~= cut);
        },
        None => {
            assert(text::views(r@) =~= Seq::empty());
        },
    }
    r
}

/// The headers that are opened for an Unreal Engine project.
pub open spec fn ue_headers(root: Seq<char>) -> Seq<Seq<char>> {
    seq![
        path::joined_path(root, "Engine/Source/Runtime/Engine/Classes/GameFramework/Actor.h"@),
        path::joined_path(root, "Engine/Source/Runtime/Engine/Classes/Components/SceneComponent.h"@),
        path::joined_path(
            root,
            "Engine/Source/Runtime/Engine/Classes/Components/PrimitiveComponent.h"@,
        ),
        path::joined_path(root, "Engine/Source/Runtime/Engine/Classes/Components/ActorComponent.h"@),
        path::joined_path(root, "Engine/Source/Runtime/Engine/Classes/Kismet/GameplayStatics.h"@),
        path::joined_path(root, "Engine/Source/Runtime/Engine/Classes/Sound/SoundBase.h"@),
        path::joined_path(
            root,
            "Engine/Source/Runtime/Engine/Classes/Materials/MaterialInstance.h"@,
        ),
        path::joined_path(
            root,
            "Engine/Source/Runtime/Engine/Classes/Materials/MaterialInstanceDynamic.h"@,
        ),
        path::joined_path(root, "Engine/Source/Runtime/Engine/Classes/Engine/DataTable.h"@),
        path::joined_path(
            root,
            "Engine/Source/Runtime/Engine/Classes/Kismet/DataTableFunctionLibrary.h"@,
        ),
        path::joined_path(root, "Engine/Source/Runtime/AIModule/Classes/AIController.h"@),
        path::joined_path(root, "Engine/Source/Runtime/InputCore/Classes/InputCoreTypes.h"@),
    ]
}

fn push_joined(list: &mut Vec<String>, root: &str, part: &str)
    ensures
        text::views(final(list)@) == text::views(old(list)@).push(
            path::joined_path(root@, part@),
        ),
{
    let joined = path::join(root, part);
    proof {
        text::lemma_views_push(list@, joined);
    }
    list.push(joined);
}

/// The headers that are opened for an Unreal Engine project where none are
/// listed.
pub fn ue_default_seed_headers(project_root: &str) -> (r: Vec<String>)
    ensures
        text::views(r@) == ue_headers(project_root@),
{
    let mut r: Vec<String> = Vec::new();
    push_joined(
        &mut r,
        project_root,
        "Engine/Source/Runtime/Engine/Classes/GameFramework/Actor.h",
    );
    push_joined(
        &mut r,
        project_root,
        "Engine/Source/Runtime/Engine/Classes/Components/SceneComponent.h",
    );
    push_joined(
        &mut r,
        project_root,
        "Engine/Source/Runtime/Engine/Classes/Components/PrimitiveComponent.h",
    );
    push_joined(
        &mut r,
        project_root,
        "Engine/Source/Runtime/Engine/Classes/Components/ActorComponent.h",
    );
    push_joined(
        &mut r,
        project_root,
        "Engine/Source/Runtime/Engine/Classes/Kismet/GameplayStatics.h",
    );
    push_joined(
        &mut r,
        project_root,
        "Engine/Source/Runtime/Engine/Classes/Sound/SoundBase.h",
    );
    push_joined(
        &mut r,
        project_root,
        "Engine/Source/Runtime/Engine/Classes/Materials/MaterialInstance.h",
    );
    push_joined(
        &mut r,
        project_root,
        "Engine/Source/Runtime/Engine/Classes/Materials/MaterialInstanceDynamic.h",
    );
    push_joined(
        &mut r,
        project_root,
        "Engine/Source/Runtime/Engine/Classes/Engine/DataTable.h",
    );
    push_joined(
        &mut r,
        project_root,
        "Engine/Source/Runtime/Engine/Classes/Kismet/DataTableFunctionLibrary.h",
    );
    push_joined(
        &mut r,
        project_root,
        "Engine/Source/Runtime/AIModule/Classes/AIController.h",
    );
    push_joined(
        &mut r,
        project_root,
        "Engine/Source/Runtime/InputCore/Classes/InputCoreTypes.h",
    );
    assert(text::views(r@) =~= ue_headers(project_root@));
    r
}

/// The headers that are opened: those listed, else those of an Unreal Engine
/// project where a directory of the root is named so, else none.
pub open spec fn chosen_headers(raw: Option<Seq<char>>, root: Seq<char>) -> Seq<Seq<char>> {
    if seed_headers(raw).len() > 0 {
        seed_headers(raw)
    } else if path::components(root).contains(path::ComponentView::Normal("UnrealEngine"@)) {
        ue_headers(root)
    } else {
        Seq::empty()
    }
}

/// Chooses the headers that are opened.
pub fn effective_seed_headers(raw: Option<&str>, project_root: &str) -> (r: Vec<String>)
    ensures
        text::views(r@) == chosen_headers(text::opt_str_view(raw), project_root@),
{
    let listed = seed_headers_from_env(raw);
    assert(text::views(listed@).len() == listed@.len());
    if listed.len() > 0 {
        return listed;
    }
    if path::has_name(project_root, "UnrealEngine") {
        return ue_default_seed_headers(project_root);
    }
    let none: Vec<String> = Vec::new();
    assert(text::views(none@) =~= Seq::empty());
    none
}

/// Where clangd's index comes from.
#[derive(Debug, Clone, PartialEq, Eq)]
pub enum IndexMode {
    /// Built while clangd runs.
    Narrow,
    /// Read from a file, and nothing else.
    Full {
        /// The file.
        index_file: String,
    },
    /// Read from a file, with the gaps filled while clangd runs.
    Hybrid {
        /// The file.
        index_file: String,
    },
}

/// What an [`IndexMode`] stands for.
pub enum IndexModeView {
    Narrow,
    Full { index_file: Seq<char> },
    Hybrid { index_file: Seq<char> },
}

impl View for IndexMode {
    type V = IndexModeView;

    open spec fn view(&self) -> IndexModeView {
        match self {
            IndexMode::Narrow => IndexModeView::Narrow,
            IndexMode::Full { index_file } => IndexModeView::Full { index_file: index_file@ },
            IndexMode::Hybrid { index_file } => IndexModeView::Hybrid { index_file: index_file@ },
        }
    }
}

/// The index file: as configured, else in the cache of the home directory.
pub open spec fn index_file_path(file: Option<Seq<char>>, home: Option<Seq<char>>) -> Seq<char> {
    match file {
        Some(f) => f,
        None => path::joined_path(
            match home {
                Some(h) => h,
                None => "/root"@,
            },
            ".cache/lsp-cpp-full-index/index.idx"@,
        ),
    }
}

/// The index mode that is configured.
pub open spec fn configured_mode(
    mode: Option<Seq<char>>,
    file: Option<Seq<char>>,
    home: Option<Seq<char>>,
) -> IndexModeView {
    if mode == Some("full"@) {
        IndexModeView::Full { index_file: index_file_path(file, home) }
    } else if mode == Some("hybrid"@) {
        IndexModeView::Hybrid { index_file: index_file_path(file, home) }
    } else {
        IndexModeView::Narrow
    }
}

fn is_word(value: Option<&str>, word: &str) -> (r: bool)
    ensures
        r == (text::opt_str_view(value) == Some(word@)),
{
    match value {
        Some(v) => text::str_eq(v, word),
        None => false,
    }
}

fn index_file_of(file: Option<&str>, home: Option<&str>) -> (r: String)
    ensures
        r@ == index_file_path(text::opt_str_view(file), text::opt_str_view(home)),
{
    match file {
        Some(f) => f.to_owned(),
        None => {
            let base = match home {
                Some(h) => h,
                None => "/root",
            };
            path::join(base, ".cache/lsp-cpp-full-index/index.idx")
        },
    }
}

impl IndexMode {
    /// Reads the index mode from the values of its variables. Anything but
    /// `full` and `hybrid` is narrow.
    pub fn from_env(mode: Option<&str>, file: Option<&str>, home: Option<&str>) -> (r: Self)
        ensures
            r@ == configured_mode(
                text::opt_str_view(mode),
                text::opt_str_view(file),
                text::opt_str_view(home),
            ),
    {
        if is_word(mode, "full") {
            IndexMode::Full { index_file: index_file_of(file, home) }
        } else if is_word(mode, "hybrid") {
            IndexMode::Hybrid { index_file: index_file_of(file, home) }
        } else {
            IndexMode::Narrow
        }
    }
}

/// An exit status in words: `code=N`, `signal=N`, or `code=?`.
pub open spec fn exit_status_text(code: Option<i32>, signal: Option<i32>) -> Seq<char> {
    match (code, signal) {
        (Some(c), _) => "code="@ + text::dec_int(c as int),
        (None, Some(s)) => "signal="@ + text::dec_int(s as int),
        (None, None) => "code=?"@,
    }
}

/// Puts an exit status in words.
pub fn format_exit_status(code: Option<i32>, signal: Option<i32>) -> (r: String)
    ensures
        r@ == exit_status_text(code, signal),
{
    match (code, signal) {
        (Some(c), _) => text::concat("code=", text::dec_i64(c as i64).as_str()),
        (None, Some(s)) => text::concat("signal=", text::dec_i64(s as i64).as_str()),
        (None, None) => "code=?".to_owned(),
    }
}

/// Number of workers where none is configured: half of the processors, and at
/// least two.
pub open spec fn half_of_cpus(cpus: Option<usize>) -> u32 {
    let n = match cpus {
        Some(k) => (k as int % 0x1_0000_0000) as u32,
        None => 4,
    };
    if n / 2 < 2 {
        2
    } else {
        n / 2
    }
}

/// Number of workers where none is configured.
pub fn default_clangd_jobs(cpus: Option<usize>) -> (jobs: u32)
    ensures
        jobs == half_of_cpus(cpus),
{
    let n: u32 = match cpus {
        Some(k) => ((k as u64) % 0x1_0000_0000) as u32,
        None => 4,
    };
    if n / 2 < 2 {
        2
    } else {
        n / 2
    }
}

/// Values of the variables and of the machine that settings come from.
#[derive(Debug)]
pub struct ClangdEnv {
    pub clangd_bin: Option<String>,
    pub clangd_log: Option<String>,
    pub clangd_jobs: Option<String>,
    pub cpus: Option<usize>,
    pub index_mode: Option<String>,
    pub index_file: Option<String>,
    pub home: Option<String>,
}

/// The state of the backend that is not a process or a pipe.
#[derive(Debug)]
pub struct Clangd {
    project_root: String,
    clangd_bin: String,
    log_path: String,
    jobs: u32,
    request_timeout_s: u64,
    initialize_timeout_s: u64,
    index_mode: IndexMode,
    next_id: i64,
    last_exit_status: Option<String>,
    unrecorded: Option<(Option<i32>, Option<i32>)>,
    ready: bool,
}

/// What a [`Clangd`] stands for.
pub struct ClangdView {
    pub project_root: Seq<char>,
    pub clangd_bin: Seq<char>,
    pub log_path: Seq<char>,
    pub jobs: u32,
    pub request_timeout_s: u64,
    pub initialize_timeout_s: u64,
    pub index_mode: IndexModeView,
    /// Number of the next request.
    pub next_id: i64,
    /// Exit status of the last child that was seen to exit.
    pub last_exit_status: Option<Seq<char>>,
    /// Exit code and signal of a child that was seen to exit, until the exit is
    /// handed on.
    pub unrecorded: Option<(Option<i32>, Option<i32>)>,
    /// Whether the last handshake was completed.
    pub ready: bool,
}

impl View for Clangd {
    type V = ClangdView;

    closed spec fn view(&self) -> ClangdView {
        ClangdView {
            project_root: self.project_root@,
            clangd_bin: self.clangd_bin@,
            log_path: self.log_path@,
            jobs: self.jobs,
            request_timeout_s: self.request_timeout_s,
            initialize_timeout_s: self.initialize_timeout_s,
            index_mode: self.index_mode@,
            next_id: self.next_id,
            last_exit_status: text::opt_view(self.last_exit_status),
            unrecorded: self.unrecorded,
            ready: self.ready,
        }
    }
}

/// The value, or the fallback.
pub open spec fn or_default(v: Option<String>, fallback: Seq<char>) -> Seq<char> {
    match v {
        Some(s) => s@,
        None => fallback,
    }
}

/// The number of workers: as configured where that is a number, else half of
/// the processors.
pub open spec fn configured_jobs(jobs: Option<String>, cpus: Option<usize>) -> u32 {
    match jobs {
        Some(s) => match text::parse_uint(s@, u32::MAX as nat) {
            Ok(n) => n as u32,
            Err(_) => half_of_cpus(cpus),
        },
        None => half_of_cpus(cpus),
    }
}

/// A backend that has sent nothing yet.
pub open spec fn fresh_clangd(project_root: Seq<char>, env: ClangdEnv) -> ClangdView {
    ClangdView {
        project_root,
        clangd_bin: or_default(env.clangd_bin, "clangd-19"@),
        log_path: or_default(env.clangd_log, "/tmp/clangd.log"@),
        jobs: configured_jobs(env.clangd_jobs, env.cpus),
        request_timeout_s: DEFAULT_REQUEST_TIMEOUT_S,
        initialize_timeout_s: DEFAULT_INITIALIZE_TIMEOUT_S,
        index_mode: configured_mode(
            text::opt_view(env.index_mode),
            text::opt_view(env.index_file),
            text::opt_view(env.home),
        ),
        next_id: 1,
        last_exit_status: None,
        unrecorded: None,
        ready: false,
    }
}

fn owned_or(v: &Option<String>, fallback: &str) -> (r: String)
    ensures
        r@ == or_default(*v, fallback@),
{
    match v {
        Some(s) => s.clone(),
        None => fallback.to_owned(),
    }
}

/// What a probe of the child found.
#[derive(Debug)]
pub enum ChildProbe {
    /// There is no child.
    NoChild,
    /// It runs.
    Running,
    /// It exited.
    Exited {
        code: Option<i32>,
        signal: Option<i32>,
    },
    /// The probe failed.
    Failed(IoError),
}

/// Seconds within which a request must be answered.
pub open spec fn timeout_for(method: Seq<char>, configured: u64) -> u64 {
    if method == "workspace/symbol"@ && configured < WORKSPACE_SYMBOL_TIMEOUT_S {
        WORKSPACE_SYMBOL_TIMEOUT_S
    } else {
        configured
    }
}

/// What it means that a request was not answered in time: a clangd that is
/// alive is busy, one that is gone has exited. A probe that failed proves
/// nothing against it.
pub open spec fn timeout_meaning(
    method: Seq<char>,
    timeout_s: u64,
    log_path: Seq<char>,
    probe: ChildProbe,
) -> ShimErrorView {
    if probe is Running || probe is Failed {
        ShimErrorView::ClangdBusy {
            method,
            timeout_s,
            current_status: Seq::empty(),
            log_path,
        }
    } else {
        ShimErrorView::ClangdExited { status: "exited_during_request"@, log_path }
    }
}

/// The backend after a look at the child: an exit is remembered.
pub open spec fn after_look(v: ClangdView, probe: ChildProbe) -> ClangdView {
    match probe {
        ChildProbe::Exited { code, signal } => ClangdView {
            last_exit_status: Some(exit_status_text(code, signal)),
            unrecorded: Some((code, signal)),
            ..v
        },
        _ => v,
    }
}

/// What the supervisor is told of a probe before a dispatch: an exit that was
/// seen and not handed on yet, else what the probe found.
pub open spec fn due(v: ClangdView, probe: ChildProbe) -> ChildProbe {
    match v.unrecorded {
        Some((code, signal)) => ChildProbe::Exited { code, signal },
        None => probe,
    }
}

/// Whether clangd has to be started.
pub open spec fn spawn_wanted(v: ClangdView, child: bool) -> bool {
    !(child && v.ready)
}

/// The backend once a start has begun: from then on it is not ready.
pub open spec fn start_begun(v: ClangdView) -> ClangdView {
    ClangdView { ready: false, ..v }
}

/// The backend once a handshake has begun.
pub open spec fn handshake_begun(v: ClangdView) -> ClangdView {
    ClangdView { next_id: v.next_id.wrapping_add(1), ready: false, ..v }
}

/// The backend once a handshake was completed.
pub open spec fn handshake_made(v: ClangdView) -> ClangdView {
    ClangdView { ready: true, ..v }
}

/// The backend once an exit that was seen is handed on.
pub open spec fn handed_on(v: ClangdView) -> ClangdView {
    ClangdView { unrecorded: None, ..v }
}

/// The backend once a request was made.
pub open spec fn request_made(v: ClangdView) -> ClangdView {
    ClangdView { next_id: v.next_id.wrapping_add(1), ..v }
}

impl Clangd {
    /// A backend for the project in a directory.
    pub fn new(project_root: &str, env: &ClangdEnv) -> (r: Self)
        ensures
            r@ == fresh_clangd(project_root@, *env),
    {
        let jobs: u32 = match &env.clangd_jobs {
            Some(s) => match text::parse_u32(s.as_str()) {
                Ok(n) => n,
                Err(_) => default_clangd_jobs(env.cpus),
            },
            None => default_clangd_jobs(env.cpus),
        };
        Clangd {
            project_root: project_root.to_owned(),
            clangd_bin: owned_or(&env.clangd_bin, "clangd-19"),
            log_path: owned_or(&env.clangd_log, "/tmp/clangd.log"),
            jobs,
            request_timeout_s: DEFAULT_REQUEST_TIMEOUT_S,
            initialize_timeout_s: DEFAULT_INITIALIZE_TIMEOUT_S,
            index_mode: IndexMode::from_env(
                text::borrowed(&env.index_mode),
                text::borrowed(&env.index_file),
                text::borrowed(&env.home),
            ),
            next_id: 1,
            last_exit_status: None,
            unrecorded: None,
            ready: false,
        }
    }

    /// The backend with another index mode.
    pub fn with_index_mode(self, mode: IndexMode) -> (r: Self)
        ensures
            r@ == (ClangdView { index_mode: mode@, ..self@ }),
    {
        let mut r = self;
        r.index_mode = mode;
        r
    }

    /// Project root.
    pub fn root(&self) -> (r: &str)
        ensures
            r@ == self@.project_root,
    {
        self.project_root.as_str()
    }

    /// Log of clangd.
    pub fn log(&self) -> (r: &str)
        ensures
            r@ == self@.log_path,
    {
        self.log_path.as_str()
    }

    /// Index mode.
    pub fn index_mode(&self) -> (r: &IndexMode)
        ensures
            r@ == self@.index_mode,
    {
        &self.index_mode
    }

    /// Exit status of the last child that was seen to exit.
    pub fn last_exit_status(&self) -> (r: Option<&str>)
        ensures
            text::opt_str_view(r) == self@.last_exit_status,
    {
        text::borrowed(&self.last_exit_status)
    }

    /// Number for the next request.
    pub fn next_request_id(&mut self) -> (id: i64)
        ensures
            id == old(self)@.next_id,
            final(self)@ == request_made(old(self)@),
    {
        let id: i64 = self.next_id;
        self.next_id = id.wrapping_add(1);
        id
    }

    /// Takes in a probe of the child: whether it is alive, and if it exited with
    /// which status. Without a child nothing is alive, but nothing exited.
    pub fn is_alive(&mut self, probe: &ChildProbe) -> (r: Result<bool, IoError>)
        ensures
            final(self)@ == after_look(old(self)@, *probe),
            match (r, probe) {
                (Ok(alive), ChildProbe::NoChild) => !alive,
                (Ok(alive), ChildProbe::Running) => alive,
                (Ok(alive), ChildProbe::Exited { .. }) => !alive,
                (Err(e), ChildProbe::Failed(f)) => e@ == f@,
                _ => false,
            },
    {
        match probe {
            ChildProbe::NoChild => Ok(false),
            ChildProbe::Running => Ok(true),
            ChildProbe::Exited { code, signal } => {
                self.last_exit_status = Some(format_exit_status(*code, *signal));
                self.unrecorded = Some((*code, *signal));
                Ok(false)
            },
            ChildProbe::Failed(e) => Err(IoError::new(e.kind(), e.message())),
        }
    }

    /// What the supervisor is told of a probe before a dispatch. An exit that
    /// was seen while the status was reported is handed on here, once.
    pub fn due_probe(&mut self, probe: ChildProbe) -> (r: ChildProbe)
        ensures
            r == due(old(self)@, probe),
            final(self)@ == handed_on(old(self)@),
    {
        let seen = self.unrecorded;
        self.unrecorded = None;
        match seen {
            Some((code, signal)) => ChildProbe::Exited { code, signal },
            None => probe,
        }
    }

    /// Whether clangd has to be started: not where there is a child whose
    /// handshake was completed. A child whose handshake failed is no use.
    pub fn spawn_needed(&self, child: bool) -> (r: bool)
        ensures
            r == spawn_wanted(self@, child),
    {
        !(child && self.ready)
    }

    /// Seconds within which a request must be answered. A search of the
    /// workspace gets more, because the first ones run while headers are still
    /// being parsed.
    pub fn request_timeout_for_method(&self, method: &str) -> (s: u64)
        ensures
            s == timeout_for(method@, self@.request_timeout_s),
    {
        if text::str_eq(method, "workspace/symbol") && self.request_timeout_s
            < WORKSPACE_SYMBOL_TIMEOUT_S {
            WORKSPACE_SYMBOL_TIMEOUT_S
        } else {
            self.request_timeout_s
        }
    }

    /// Decides what it means that a request was not answered in time.
    pub fn classify_timeout(&self, method: &str, timeout_s: u64, probe: &ChildProbe) -> (e:
        ShimError)
        ensures
            e@ == timeout_meaning(method@, timeout_s, self@.log_path, *probe),
    {
        let alive = match probe {
            ChildProbe::Running => true,
            ChildProbe::Failed(_) => true,
            ChildProbe::NoChild => false,
            ChildProbe::Exited { .. } => false,
        };
        if alive {
            ShimError::ClangdBusy {
                method: method.to_owned(),
                timeout_s,
                current_status: String::new(),
                log_path: self.log_path.clone(),
            }
        } else {
            ShimError::ClangdExited {
                status: "exited_during_request".to_owned(),
                log_path: self.log_path.clone(),
            }
        }
    }
}

/// The narrow compilation database of a project.
pub open spec fn narrow_database(root: Seq<char>) -> Seq<char> {
    path::joined_path(root, "compile_commands.narrow.json"@)
}

/// The full compilation database of a project.
pub open spec fn full_database(root: Seq<char>) -> Seq<char> {
    path::joined_path(root, "compile_commands.json"@)
}

/// Path of the narrow compilation database.
pub fn narrow_database_path(root: &str) -> (r: String)
    ensures
        r@ == narrow_database(root@),
{
    path::join(root, "compile_commands.narrow.json")
}

/// Path of the full compilation database.
pub fn full_database_path(root: &str) -> (r: String)
    ensures
        r@ == full_database(root@),
{
    path::join(root, "compile_commands.json")
}

/// A text, or a failure, in views.
pub open spec fn text_outcome(r: Result<String, ShimError>) -> Result<Seq<char>, ShimErrorView> {
    match r {
        Ok(s) => Ok(s@),
        Err(e) => Err(e@),
    }
}

/// The directory that clangd is told to find a compilation database in: the
/// project root, where either database is there.
pub open spec fn commands_dir(root: Seq<char>, narrow: bool, full: bool) -> Result<
    Seq<char>,
    ShimErrorView,
> {
    if narrow || full {
        Ok(root)
    } else {
        Err(ShimErrorView::NoCompileCommands { root })
    }
}

/// How clangd is started.
#[derive(Debug)]
pub struct LaunchCommand {
    pub binary: String,
    pub args: Vec<String>,
}

/// The arguments that clangd is started with.
pub open spec fn clangd_args(jobs: u32, dir: Seq<char>, mode: IndexModeView) -> Seq<Seq<char>> {
    let common = seq![
        "--header-insertion=never"@,
        "--clang-tidy=false"@,
        "--pch-storage=disk"@,
        "-j="@ + text::dec(jobs as nat),
        "--compile-commands-dir="@ + dir,
    ];
    match mode {
        IndexModeView::Narrow => common.push("--background-index"@).push(
            "--background-index-priority=background"@,
        ),
        IndexModeView::Full { index_file } => common.push("--index-file="@ + index_file),
        IndexModeView::Hybrid { index_file } => common.push("--index-file="@ + index_file).push(
            "--background-index"@,
        ).push("--background-index-priority=background"@),
    }
}

/// The index file that an index mode reads.
pub open spec fn index_file_in(mode: IndexModeView) -> Option<Seq<char>> {
    match mode {
        IndexModeView::Narrow => None,
        IndexModeView::Full { index_file } => Some(index_file),
        IndexModeView::Hybrid { index_file } => Some(index_file),
    }
}

/// Why clangd cannot be started although there is a compilation database: its
/// log cannot be opened, or its index file is not there.
pub open spec fn launch_obstacle(
    log_failure: Option<IoErrorView>,
    mode: IndexModeView,
    index_file_there: bool,
) -> Option<ShimErrorView> {
    match (log_failure, index_file_in(mode)) {
        (Some(e), _) => Some(ShimErrorView::Io(e)),
        (None, Some(file)) => if index_file_there {
            None
        } else {
            Some(ShimErrorView::NoIndexFile { path: file })
        },
        (None, None) => None,
    }
}

/// The view of an optional input/output failure.
pub open spec fn opt_io(e: Option<IoError>) -> Option<IoErrorView> {
    match e {
        Some(e) => Some(e@),
        None => None,
    }
}

/// What it means that clangd could not be started.
pub open spec fn launch_failure(binary: Seq<char>, e: IoErrorView) -> ShimErrorView {
    if e.kind == IoErrorKind::NotFound {
        ShimErrorView::ClangdMissing { path: binary }
    } else {
        ShimErrorView::Io(e)
    }
}

/// What the handshake tells clangd.
pub open spec fn initialize_params(pid: u32, root: Seq<char>) -> JsonView {
    JsonView::Object(
        map![
            "processId"@ => json::json_int(pid as int),
            "rootUri"@ => JsonView::Str(lsp_messages::file_uri(root)),
            "capabilities"@ => JsonView::Object(
                map![
                    "workspace"@ => JsonView::Object(
                        map![
                            "symbol"@ => JsonView::Object(
                                map!["dynamicRegistration"@ => JsonView::Bool(false)],
                            ),
                        ],
                    ),
                    "textDocument"@ => JsonView::Object(
                        map![
                            "definition"@ => JsonView::Object(Map::empty()),
                            "references"@ => JsonView::Object(Map::empty()),
                            "hover"@ => JsonView::Object(
                                map![
                                    "contentFormat"@ => JsonView::Array(
                                        seq![
                                            JsonView::Str("plaintext"@),
                                            JsonView::Str("markdown"@),
                                        ],
                                    ),
                                ],
                            ),
                        ],
                    ),
                ],
            ),
        ],
    )
}

fn handshake_params(pid: u32, root: &str) -> (r: Json)
    ensures
        r@ == initialize_params(pid, root@),
{
    let formats = vec![Json::str("plaintext"), Json::str("markdown")];
    assert(json::json_views(formats@) =~= seq![
        JsonView::Str("plaintext"@),
        JsonView::Str("markdown"@),
    ]);
    let workspace = Json::object().put(
        "symbol",
        Json::object().put("dynamicRegistration", Json::Bool(false)),
    );
    let documents = Json::object().put("definition", Json::object()).put(
        "references",
        Json::object(),
    ).put("hover", Json::object().put("contentFormat", Json::array(formats)));
    let capabilities = Json::object().put("workspace", workspace).put("textDocument", documents);
    Json::object().put("processId", Json::uint(pid as u64)).put(
        "rootUri",
        Json::Str(lsp_messages::uri_of(root)),
    ).put("capabilities", capabilities)
}

/// A request that is about to be sent.
#[derive(Debug)]
pub struct Pending {
    /// Number of the request.
    pub id: i64,
    /// Its method.
    pub method: String,
    /// Seconds within which it must be answered.
    pub timeout_s: u64,
    /// The message.
    pub message: Json,
}

/// What a [`Pending`] stands for.
pub struct PendingView {
    pub id: i64,
    pub method: Seq<char>,
    pub timeout_s: u64,
    pub message: JsonView,
}

impl View for Pending {
    type V = PendingView;

    open spec fn view(&self) -> PendingView {
        PendingView {
            id: self.id,
            method: self.method@,
            timeout_s: self.timeout_s,
            message: self.message@,
        }
    }
}

impl Pending {
    /// Waiting for the answer, from the moment the message was sent.
    pub fn sent(&self, now_ns: u128) -> (r: Exchange)
        ensures
            r@ == (ExchangeView {
                id: self@.id,
                refusal: "clangd error response to "@ + self@.method + ": "@,
                deadline_ns: lsp_messages::moment_after(now_ns, self@.timeout_s),
            }),
    {
        let mut refusal = text::concat("clangd error response to ", self.method.as_str());
        refusal.append(": ");
        Exchange {
            id: self.id,
            refusal,
            deadline_ns: lsp_messages::deadline(now_ns, self.timeout_s),
        }
    }
}

impl Clangd {
    /// Finds the directory that clangd is told to find a compilation database
    /// in. Either database will do.
    pub fn resolve_compile_commands_dir(root: &str, narrow: bool, full: bool) -> (r: Result<
        String,
        ShimError,
    >)
        ensures
            text_outcome(r) == commands_dir(root@, narrow, full),
    {
        if narrow || full {
            Ok(root.to_owned())
        } else {
            Err(ShimError::NoCompileCommands { root: root.to_owned() })
        }
    }

    /// The index file that has to be there before clangd is started.
    pub fn wanted_index_file(&self) -> (r: Option<&str>)
        ensures
            text::opt_str_view(r) == index_file_in(self@.index_mode),
    {
        match &self.index_mode {
            IndexMode::Narrow => None,
            IndexMode::Full { index_file } => Some(index_file.as_str()),
            IndexMode::Hybrid { index_file } => Some(index_file.as_str()),
        }
    }

    /// Decides how clangd is started.
    pub fn launch_command(
        &self,
        dir: &str,
        log_failure: Option<IoError>,
        index_file_there: bool,
    ) -> (r: Result<LaunchCommand, ShimError>)
        ensures
            match (
                r,
                launch_obstacle(opt_io(log_failure), self@.index_mode, index_file_there),
            ) {
                (Ok(c), None) => c.binary@ == self@.clangd_bin && text::views(c.args@)
                    == clangd_args(self@.jobs, dir@, self@.index_mode),
                (Err(e), Some(o)) => e@ == o,
                _ => false,
            },
    {
        match log_failure {
            Some(e) => {
                return Err(ShimError::Io(e));
            },
            None => {},
        }
        match self.wanted_index_file() {
            Some(file) => {
                if !index_file_there {
                    return Err(ShimError::NoIndexFile { path: file.to_owned() });
                }
            },
            None => {},
        }
        let mut args: Vec<String> = Vec::new();
        args.push("--header-insertion=never".to_owned());
        args.push("--clang-tidy=false".to_owned());
        args.push("--pch-storage=disk".to_owned());
        args.push(text::concat("-j=", text::dec_u64(self.jobs as u64).as_str()));
        args.push(text::concat("--compile-commands-dir=", dir));
        match self.wanted_index_file() {
            Some(file) => {
                args.push(text::concat("--index-file=", file));
            },
            None => {},
        }
        let background = match &self.index_mode {
            IndexMode::Full { .. } => false,
            _ => true,
        };
        if background {
            args.push("--background-index".to_owned());
            args.push("--background-index-priority=background".to_owned());
        }
        assert(text::views(args@) =~= clangd_args(self@.jobs, dir@, self@.index_mode));
        Ok(LaunchCommand { binary: self.clangd_bin.clone(), args })
    }

    /// Begins a start. Until its handshake is completed there is no use in the
    /// child.
    pub fn begin_start(&mut self)
        ensures
            final(self)@ == start_begun(old(self)@),
    {
        self.ready = false;
    }

    /// Tells what it means that clangd could not be started.
    pub fn launch_failed(&self, e: IoError) -> (r: ShimError)
        ensures
            r@ == launch_failure(self@.clangd_bin, e@),
    {
        if e.kind == IoErrorKind::NotFound {
            ShimError::ClangdMissing { path: self.clangd_bin.clone() }
        } else {
            ShimError::Io(e)
        }
    }

    /// Begins the handshake: the number and the message.
    pub fn handshake(&mut self, pid: u32) -> (r: (i64, Json))
        ensures
            r.0 == old(self)@.next_id,
            r.1@ == lsp_messages::request_message(
                r.0 as int,
                "initialize"@,
                initialize_params(pid, old(self)@.project_root),
            ),
            final(self)@ == handshake_begun(old(self)@),
    {
        let id: i64 = self.next_request_id();
        self.ready = false;
        let params = handshake_params(pid, self.root());
        (id, lsp_messages::request(id, "initialize", params))
    }

    /// Waiting for the answer to the handshake, from the moment it was sent.
    pub fn handshake_sent(&self, id: i64, now_ns: u128) -> (r: Exchange)
        ensures
            r@ == (ExchangeView {
                id,
                refusal: "clangd initialize error: "@,
                deadline_ns: lsp_messages::moment_after(now_ns, self@.initialize_timeout_s),
            }),
    {
        Exchange {
            id,
            refusal: "clangd initialize error: ".to_owned(),
            deadline_ns: lsp_messages::deadline(now_ns, self.initialize_timeout_s),
        }
    }

    /// Completes the handshake, once it was answered and that was acknowledged.
    pub fn handshake_completed(&mut self)
        ensures
            final(self)@ == handshake_made(old(self)@),
    {
        self.ready = true;
    }

    /// The failure of a handshake that was not answered in time.
    pub fn handshake_expired(&self) -> (e: ShimError)
        ensures
            e@ == (ShimErrorView::InitializeTimeout {
                timeout_s: self@.initialize_timeout_s,
                log_path: self@.log_path,
            }),
    {
        ShimError::InitializeTimeout {
            timeout_s: self.initialize_timeout_s,
            log_path: self.log_path.clone(),
        }
    }

    /// Makes a request.
    pub fn request(&mut self, method: &str, params: Json) -> (r: Pending)
        ensures
            r@ == (PendingView {
                id: old(self)@.next_id,
                method: method@,
                timeout_s: timeout_for(method@, old(self)@.request_timeout_s),
                message: lsp_messages::request_message(old(self)@.next_id as int, method@, params@),
            }),
            final(self)@ == request_made(old(self)@),
    {
        let id: i64 = self.next_request_id();
        Pending {
            id,
            method: method.to_owned(),
            timeout_s: self.request_timeout_for_method(method),
            message: lsp_messages::request(id, method, params),
        }
    }
}

impl Clangd {
    /// Asks where the symbol at a place is defined.
    pub fn definition(&self, file: &str, line: u32, column: u32) -> (q: Question)
        ensures
            q@ == lsp_messages::asks_definition(file@, line, column),
    {
        Question::definition(file, line, column)
    }

    /// Asks where the symbol at a place is used.
    pub fn references(&self, file: &str, line: u32, column: u32) -> (q: Question)
        ensures
            q@ == lsp_messages::asks_references(file@, line, column),
    {
        Question::references(file, line, column)
    }

    /// Asks what is documented of the symbol at a place.
    pub fn hover(&self, file: &str, line: u32, column: u32) -> (q: Question)
        ensures
            q@ == lsp_messages::asks_hover(file@, line, column),
    {
        Question::hover(file, line, column)
    }

    /// Asks which symbols of the workspace match.
    pub fn workspace_symbol(&self, query: &str) -> (q: Question)
        ensures
            q@ == lsp_messages::asks_symbols(query@),
    {
        Question::symbols(query)
    }
}

/// The failure that a pipe to clangd is missing right after the start.
pub fn pipe_missing(pipe: &str) -> (e: ShimError)
    ensures
        e@ == ShimErrorView::Protocol("clangd "@ + pipe@ + " handle missing"@),
{
    let mut words = text::concat("clangd ", pipe);
    words.append(" handle missing");
    ShimError::Protocol(words)
}

/// The failure that a pipe to clangd is not there when it is needed.
pub fn pipe_not_ready(pipe: &str) -> (e: ShimError)
    ensures
        e@ == ShimErrorView::Protocol("clangd "@ + pipe@ + " not initialised"@),
{
    let mut words = text::concat("clangd ", pipe);
    words.append(" not initialised");
    ShimError::Protocol(words)
}

/// What is done about a header that is to be opened.
#[derive(Debug)]
pub enum Seeding {
    /// This is logged, and the next header is taken.
    Skip {
        line: String,
    },
    /// This is sent.
    Open {
        message: Json,
    },
}

/// Decides what is done about a header, by its content or by why that could not
/// be read.
pub fn seed_header(header: &str, content: Result<&str, &str>) -> (r: Seeding)
    ensures
        match (r, content) {
            (Seeding::Open { message }, Ok(text)) => message@ == lsp_messages::open_message(
                lsp_messages::file_uri(header@),
                text@,
            ),
            (Seeding::Skip { line }, Err(words)) => line@ == "lsp-cpp seed-didOpen: skip "@
                + header@ + " (read failed: "@ + words@ + ")"@,
            _ => false,
        },
{
    match content {
        Ok(text) => {
            let uri = lsp_messages::uri_of(header);
            Seeding::Open { message: lsp_messages::did_open(uri.as_str(), text) }
        },
        Err(words) => {
            let mut line = "lsp-cpp seed-didOpen: skip ".to_owned();
            line.append(header);
            line.append(" (read failed: ");
            line.append(words);
            line.append(")");
            Seeding::Skip { line }
        },
    }
}

/// The line that is logged once a header was sent, or could not be.
pub fn seeded_line(header: &str, failure: Option<&str>) -> (line: String)
    ensures
        line@ == match failure {
            None => "lsp-cpp seed-didOpen: opened "@ + header@,
            Some(words) => "lsp-cpp seed-didOpen: notify failed for "@ + header@ + ": "@ + words@,
        },
{
    match failure {
        None => text::concat("lsp-cpp seed-didOpen: opened ", header),
        Some(words) => {
            let mut line = text::concat("lsp-cpp seed-didOpen: notify failed for ", header);
            line.append(": ");
            line.append(words);
            line
        },
    }
}

/// Seconds that clangd gets to end by itself.
pub const SHUTDOWN_GRACE_S: u64 = 2;

/// Milliseconds between two looks at whether it has ended.
pub const SHUTDOWN_POLL_MS: u64 = 50;

/// What is done about a clangd that was told to end.
#[derive(Debug, Clone, Copy, PartialEq, Eq, Structural)]
pub enum Ending {
    /// It has ended.
    Over,
    /// It is killed.
    Kill,
    /// It gets more time.
    Sleep,
}

/// What is done about a clangd that was told to end: it gets its grace, and is
/// killed after it.
pub open spec fn ending_at(exited: bool, now_ns: u128, deadline_ns: u128) -> Ending {
    if exited {
        Ending::Over
    } else if now_ns > deadline_ns {
        Ending::Kill
    } else {
        Ending::Sleep
    }
}

/// Decides what is done about a clangd that was told to end.
pub fn ending(exited: bool, now_ns: u128, deadline_ns: u128) -> (r: Ending)
    ensures
        r == ending_at(exited, now_ns, deadline_ns),
{
    if exited {
        Ending::Over
    } else if now_ns > deadline_ns {
        Ending::Kill
    } else {
        Ending::Sleep
    }
}

/// A clangd that was told to end is gone or killed once its grace is over:
/// whatever it does, waiting for it ends.
pub proof fn law_ending_is_bounded(exited: bool, sent_ns: u128, now_ns: u128)
    requires
        now_ns > lsp_messages::moment_after(sent_ns, SHUTDOWN_GRACE_S),
    ensures
        ending_at(exited, now_ns, lsp_messages::moment_after(sent_ns, SHUTDOWN_GRACE_S))
            != Ending::Sleep,
{
}

/// Starting clangd again does nothing after the first success: from a completed
/// handshake on, requests and looks at the child leave nothing to start as long
/// as there is a child. Before that, and without a child, there is.
pub proof fn law_spawn_is_done_once(v: ClangdView, probe: ChildProbe)
    ensures
        !spawn_wanted(handshake_made(v), true),
        !spawn_wanted(v, true) ==> !spawn_wanted(request_made(v), true) && !spawn_wanted(
            after_look(v, probe),
            true,
        ) && !spawn_wanted(handshake_made(v), true),
        spawn_wanted(handshake_begun(v), true),
        spawn_wanted(v, false),
        !v.ready ==> spawn_wanted(v, true),
{
}

/// An exit is handed on exactly once, whether it was seen just before the
/// dispatch or earlier, and no exit is handed on that no probe saw.
pub proof fn law_exit_is_handed_on_once(
    v: ClangdView,
    code: Option<i32>,
    signal: Option<i32>,
    probe: ChildProbe,
)
    requires
        v.unrecorded is None,
        !(probe is Exited),
    ensures
        due(after_look(v, ChildProbe::Exited { code, signal }), probe) == (ChildProbe::Exited {
            code,
            signal,
        }),
        due(handed_on(after_look(v, ChildProbe::Exited { code, signal })), probe) == probe,
        due(after_look(v, probe), probe) == probe,
{
}

/// A query that timed out never counts clangd as gone unless the probe saw it
/// gone, and never as busy if the probe saw that.
pub proof fn law_busy_is_not_broken(
    method: Seq<char>,
    timeout_s: u64,
    log_path: Seq<char>,
    probe: ChildProbe,
)
    ensures
        probe is Exited || probe is NoChild <==> timeout_meaning(method, timeout_s, log_path, probe)
            == (ShimErrorView::ClangdExited { status: "exited_during_request"@, log_path }),
        probe is Running || probe is Failed <==> timeout_meaning(method, timeout_s, log_path, probe)
            is ClangdBusy,
        !(timeout_meaning(method, timeout_s, log_path, probe) is RequestTimeout),
{
}

/// The listed headers are the pieces between commas, without white space around
/// them and in order; an empty piece is none.
pub proof fn law_listed_headers_add_up(pieces: Seq<Seq<char>>, piece: Seq<char>)
    ensures
        listed_paths(Seq::empty()) == Seq::<Seq<char>>::empty(),
        text::trimmed(piece).len() > 0 ==> listed_paths(pieces.push(piece)) == listed_paths(
            pieces,
        ).push(text::trimmed(piece)),
        text::trimmed(piece).len() == 0 ==> listed_paths(pieces.push(piece)) == listed_paths(
            pieces,
        ),
        seed_headers(None) == Seq::<Seq<char>>::empty(),
        seed_headers(Some(piece)) == listed_paths(text::split_on(piece, ',')),
{
    assert(pieces.push(piece).drop_last() =~= pieces);
}

/// Headers that are listed are opened and no others; where none are, those of an
/// Unreal Engine project are where a directory of the root has that name, each
/// under the root.
pub proof fn law_listed_headers_come_first(raw: Option<Seq<char>>, root: Seq<char>)
    ensures
        seed_headers(raw).len() > 0 ==> chosen_headers(raw, root) == seed_headers(raw),
        seed_headers(raw).len() == 0 && !path::components(root).contains(
            path::ComponentView::Normal("UnrealEngine"@),
        ) ==> chosen_headers(raw, root).len() == 0,
        seed_headers(raw).len() == 0 && path::components(root).contains(
            path::ComponentView::Normal("UnrealEngine"@),
        ) ==> chosen_headers(raw, root).len() == 12,
{
}

/// The arguments of clangd carry the workers and the directory; the index is
/// built while it runs unless the mode reads a file and nothing else, and the
/// file is read exactly where the mode has one.
pub proof fn law_clangd_is_told_its_index(jobs: u32, dir: Seq<char>, mode: IndexModeView)
    ensures
        ({
            let args = clangd_args(jobs, dir, mode);
            &&& args.contains("-j="@ + text::dec(jobs as nat))
            &&& args.contains("--compile-commands-dir="@ + dir)
            &&& args.contains("--header-insertion=never"@)
            &&& args.contains("--clang-tidy=false"@)
            &&& args.contains("--pch-storage=disk"@)
            &&& !(mode is Full) ==> args.contains("--background-index"@) && args.contains(
                "--background-index-priority=background"@,
            )
            &&& match mode {
                IndexModeView::Narrow => args.len() == 7,
                IndexModeView::Full { index_file } => args.len() == 6 && args.contains(
                    "--index-file="@ + index_file,
                ),
                IndexModeView::Hybrid { index_file } => args.len() == 8 && args.contains(
                    "--index-file="@ + index_file,
                ),
            }
        }),
{
    let args = clangd_args(jobs, dir, mode);
    assert(args[0] == "--header-insertion=never"@);
    assert(args[1] == "--clang-tidy=false"@);
    assert(args[2] == "--pch-storage=disk"@);
    assert(args[3] == "-j="@ + text::dec(jobs as nat));
    assert(args[4] == "--compile-commands-dir="@ + dir);
    match mode {
        IndexModeView::Narrow => {
            assert(args[5] == "--background-index"@);
            assert(args[6] == "--background-index-priority=background"@);
        },
        IndexModeView::Full { index_file } => {
            assert(args[5] == "--index-file="@ + index_file);
        },
        IndexModeView::Hybrid { index_file } => {
            assert(args[5] == "--index-file="@ + index_file);
            assert(args[6] == "--background-index"@);
            assert(args[7] == "--background-index-priority=background"@);
        },
    }
}

/// clangd is started only where a database is there, its log opens and the index
/// file of its mode is there; each obstacle is told as what it is.
pub proof fn law_obstacles_are_told(
    root: Seq<char>,
    narrow: bool,
    full: bool,
    log_failure: Option<IoErrorView>,
    mode: IndexModeView,
    there: bool,
)
    ensures
        commands_dir(root, narrow, full) is Ok <==> narrow || full,
        commands_dir(root, narrow, full) is Ok ==> commands_dir(root, narrow, full)->Ok_0 == root,
        commands_dir(root, narrow, full) is Err ==> commands_dir(root, narrow, full)->Err_0 == (
        ShimErrorView::NoCompileCommands { root }),
        launch_obstacle(log_failure, mode, there) is None <==> log_failure is None && (mode is Narrow
            || there),
        log_failure is Some ==> launch_obstacle(log_failure, mode, there) == Some(
            ShimErrorView::Io(log_failure->0),
        ),
        log_failure is None && !there ==> match mode {
            IndexModeView::Narrow => true,
            IndexModeView::Full { index_file } => launch_obstacle(log_failure, mode, there) == Some(
                ShimErrorView::NoIndexFile { path: index_file },
            ),
            IndexModeView::Hybrid { index_file } => launch_obstacle(log_failure, mode, there)
                == Some(ShimErrorView::NoIndexFile { path: index_file }),
        },
{
}

/// A binary that is not there is told as that, and any other failure as it is.
pub proof fn law_missing_binary_is_told(binary: Seq<char>, e: IoErrorView)
    ensures
        e.kind == IoErrorKind::NotFound ==> launch_failure(binary, e) == (
        ShimErrorView::ClangdMissing { path: binary }),
        e.kind != IoErrorKind::NotFound ==> launch_failure(binary, e) == ShimErrorView::Io(e),
{
}

/// The index mode is the one that its variable names, with the file that is
/// configured or the one in the cache of the home directory; anything else is
/// narrow.
pub proof fn law_index_mode_is_configured(mode: Seq<char>, file: Option<Seq<char>>, home: Seq<char>)
    requires
        home.len() > 0,
        home.last() != '/',
    ensures
        file is Some ==> {
            &&& configured_mode(Some("full"@), file, Some(home)) == (IndexModeView::Full {
                index_file: file->0,
            })
            &&& configured_mode(Some("hybrid"@), file, Some(home)) == (IndexModeView::Hybrid {
                index_file: file->0,
            })
        },
        configured_mode(Some("full"@), None, Some(home)) == (IndexModeView::Full {
            index_file: home + "/.cache/lsp-cpp-full-index/index.idx"@,
        }),
        configured_mode(Some("hybrid"@), None, Some(home)) == (IndexModeView::Hybrid {
            index_file: home + "/.cache/lsp-cpp-full-index/index.idx"@,
        }),
        mode != "full"@ && mode != "hybrid"@ ==> configured_mode(Some(mode), file, Some(home))
            == IndexModeView::Narrow,
        configured_mode(None, file, Some(home)) == IndexModeView::Narrow,
{
    reveal_strlit("full");
    reveal_strlit("hybrid");
    assert("full"@.len() == 4 && "hybrid"@.len() == 6);
    reveal_strlit(".cache/lsp-cpp-full-index/index.idx");
    reveal_strlit("/.cache/lsp-cpp-full-index/index.idx");
    assert(home.push('/') + ".cache/lsp-cpp-full-index/index.idx"@ =~= home
        + "/.cache/lsp-cpp-full-index/index.idx"@);
}

/// A backend takes its settings from where they are given, and the defaults
/// where they are not.
pub proof fn law_settings_are_taken(root: Seq<char>, env: ClangdEnv, n: u32, cpus: usize)
    requires
        cpus <= u32::MAX,
    ensures
        fresh_clangd(root, env).project_root == root,
        env.clangd_bin is Some ==> fresh_clangd(root, env).clangd_bin == env.clangd_bin->0@,
        env.clangd_bin is None ==> fresh_clangd(root, env).clangd_bin == "clangd-19"@,
        env.clangd_log is Some ==> fresh_clangd(root, env).log_path == env.clangd_log->0@,
        env.clangd_log is None ==> fresh_clangd(root, env).log_path == "/tmp/clangd.log"@,
        fresh_clangd(root, env).request_timeout_s == 60,
        fresh_clangd(root, env).initialize_timeout_s == 10,
        env.clangd_jobs is Some && env.clangd_jobs->0@ == text::dec(n as nat) ==> fresh_clangd(
            root,
            env,
        ).jobs == n,
        env.clangd_jobs is None && env.cpus == Some(cpus) && cpus >= 4 ==> fresh_clangd(
            root,
            env,
        ).jobs == cpus / 2,
        env.clangd_jobs is None && env.cpus == Some(cpus) && cpus < 4 ==> fresh_clangd(
            root,
            env,
        ).jobs == 2,
        !fresh_clangd(root, env).ready,
        fresh_clangd(root, env).next_id == 1,
{
    text::lemma_parse_dec(n as nat, u32::MAX as nat);
    assert(cpus as int % 0x1_0000_0000 == cpus);
}

/// A search of the workspace gets ninety seconds at least, and anything else
/// what is configured.
pub proof fn law_searches_get_more_time(method: Seq<char>, configured: u64)
    ensures
        method == "workspace/symbol"@ && configured < 90 ==> timeout_for(method, configured) == 90,
        method == "workspace/symbol"@ && configured >= 90 ==> timeout_for(method, configured)
            == configured,
        method != "workspace/symbol"@ ==> timeout_for(method, configured) == configured,
{
}

/// A request that was not answered in time is told with what was asked, how long
/// it waited and where the log is.
pub proof fn law_late_answers_are_told(
    method: Seq<char>,
    timeout_s: u64,
    log_path: Seq<char>,
    probe: ChildProbe,
)
    ensures
        match timeout_meaning(method, timeout_s, log_path, probe) {
            ShimErrorView::ClangdBusy { method: m, timeout_s: s, log_path: l, .. } => m == method
                && s == timeout_s && l == log_path,
            ShimErrorView::ClangdExited { log_path: l, .. } => l == log_path,
            _ => false,
        },
{
}

/// The handshake names the project that the backend is for.
pub proof fn law_handshake_names_the_project(pid: u32, root: Seq<char>)
    ensures
        json::json_get(initialize_params(pid, root), "processId"@) == Some(
            json::json_int(pid as int),
        ),
        json::json_get(initialize_params(pid, root), "rootUri"@) == Some(
            JsonView::Str("file://"@ + root),
        ),
{
    reveal_strlit("processId");
    reveal_strlit("rootUri");
    reveal_strlit("capabilities");
    assert("processId"@.len() == 9 && "rootUri"@.len() == 7 && "capabilities"@.len() == 12);
}

/// An exit is remembered as it was: by its code, else by its signal; and nothing
/// else is touched by a look at the child.
pub proof fn law_exit_is_remembered(v: ClangdView, code: i32, signal: i32, probe: ChildProbe)
    ensures
        after_look(v, ChildProbe::Exited { code: Some(code), signal: None }).last_exit_status
            == Some("code="@ + text::dec_int(code as int)),
        after_look(v, ChildProbe::Exited { code: None, signal: Some(signal) }).last_exit_status
            == Some("signal="@ + text::dec_int(signal as int)),
        !(probe is Exited) ==> after_look(v, probe) == v,
        after_look(v, probe).next_id == v.next_id,
        after_look(v, probe).ready == v.ready,
        after_look(v, probe).project_root == v.project_root,
{
}

/// Requests are numbered one after the other, and a request changes nothing
/// else.
pub proof fn law_requests_are_numbered(v: ClangdView)
    requires
        v.next_id < i64::MAX,
    ensures
        request_made(v).next_id == v.next_id + 1,
        handshake_begun(v).next_id == v.next_id + 1,
        request_made(v).ready == v.ready,
        request_made(v).last_exit_status == v.last_exit_status,
        request_made(v).unrecorded == v.unrecorded,
        request_made(v).index_mode == v.index_mode,
{
}

/// A request that clangd is late with names no status, for none is known, and a
/// clangd that is gone is told as such.
pub proof fn law_busy_and_gone_are_told_apart(
    method: Seq<char>,
    timeout_s: u64,
    log_path: Seq<char>,
    code: Option<i32>,
    signal: Option<i32>,
)
    ensures
        timeout_meaning(method, timeout_s, log_path, ChildProbe::Running) == (
        ShimErrorView::ClangdBusy {
            method,
            timeout_s,
            current_status: Seq::empty(),
            log_path,
        }),
        timeout_meaning(method, timeout_s, log_path, ChildProbe::Exited { code, signal }) == (
        ShimErrorView::ClangdExited { status: "exited_during_request"@, log_path }),
{
}

/// Without a count of processors two jobs are run.
pub proof fn law_jobs_are_never_fewer_than_two(root: Seq<char>, env: ClangdEnv)
    ensures
        env.clangd_jobs is None ==> fresh_clangd(root, env).jobs >= 2,
        env.clangd_jobs is None && env.cpus is None ==> fresh_clangd(root, env).jobs == 2,
{
}

/// A child that is asked to end is over once it has exited; one that has not is
/// waited for up to its deadline and killed after it.
pub proof fn law_ending_waits_for_its_deadline(now_ns: u128, deadline_ns: u128)
    ensures
        ending_at(true, now_ns, deadline_ns) == Ending::Over,
        now_ns <= deadline_ns ==> ending_at(false, now_ns, deadline_ns) == Ending::Sleep,
        now_ns > deadline_ns ==> ending_at(false, now_ns, deadline_ns) == Ending::Kill,
{
}

/// Without a home the index is looked for in that of root.
pub proof fn law_index_file_without_a_home()
    ensures
        configured_mode(Some("full"@), None, None) == configured_mode(
            Some("full"@),
            None,
            Some("/root"@),
        ),
        configured_mode(Some("hybrid"@), None, None) == configured_mode(
            Some("hybrid"@),
            None,
            Some("/root"@),
        ),
{
}

/// The headers that are opened in the engine's own tree are twelve, and each is a
/// header below its runtime sources.
pub proof fn law_engine_headers_are_in_its_tree(root: Seq<char>, i: int)
    requires
        root.len() > 0,
        root.last() != '/',
        0 <= i < 12,
    ensures
        ue_headers(root).len() == 12,
        text::has_prefix(ue_headers(root)[i], root + "/Engine/Source/Runtime/"@),
        ue_headers(root)[i].last() == 'h',
{
    let words = engine_header(i);
    assert(ue_headers(root)[i] == root.push('/') + words) by {
        lemma_engine_header(i);
    }
    lemma_engine_header(i);
    reveal_strlit("/Engine/Source/Runtime/");
    reveal_strlit("Engine/Source/Runtime/");
    let base = root + "/Engine/Source/Runtime/"@;
    let head = "Engine/Source/Runtime/"@;
    assert(words.subrange(0, head.len() as int) =~= head);
    assert(words =~= head + words.subrange(head.len() as int, words.len() as int));
    assert((root.push('/') + words).subrange(0, base.len() as int) =~= base) by {
        assert forall|k: int| 0 <= k < base.len() implies #[trigger] (root.push('/') + words)[k]
            == base[k] by {
            if k > root.len() {
                assert(words[k - root.len() - 1] == head[k - root.len() - 1]);
            }
        }
    }
}

/// One of the headers, below the root.
spec fn engine_header(i: int) -> Seq<char> {
    if i == 0 {
        "Engine/Source/Runtime/Engine/Classes/GameFramework/Actor.h"@
    } else if i == 1 {
        "Engine/Source/Runtime/Engine/Classes/Components/SceneComponent.h"@
    } else if i == 2 {
        "Engine/Source/Runtime/Engine/Classes/Components/PrimitiveComponent.h"@
    } else if i == 3 {
        "Engine/Source/Runtime/Engine/Classes/Components/ActorComponent.h"@
    } else if i == 4 {
        "Engine/Source/Runtime/Engine/Classes/Kismet/GameplayStatics.h"@
    } else if i == 5 {
        "Engine/Source/Runtime/Engine/Classes/Sound/SoundBase.h"@
    } else if i == 6 {
        "Engine/Source/Runtime/Engine/Classes/Materials/MaterialInstance.h"@
    } else if i == 7 {
        "Engine/Source/Runtime/Engine/Classes/Materials/MaterialInstanceDynamic.h"@
    } else if i == 8 {
        "Engine/Source/Runtime/Engine/Classes/Engine/DataTable.h"@
    } else if i == 9 {
        "Engine/Source/Runtime/Engine/Classes/Kismet/DataTableFunctionLibrary.h"@
    } else if i == 10 {
        "Engine/Source/Runtime/AIModule/Classes/AIController.h"@
    } else {
        "Engine/Source/Runtime/InputCore/Classes/InputCoreTypes.h"@
    }
}

proof fn lemma_engine_header(i: int)
    requires
        0 <= i < 12,
    ensures
        engine_header(i).len() > 22,
        engine_header(i)[0] == 'E',
        engine_header(i).last() == 'h',
        text::has_prefix(engine_header(i), "Engine/Source/Runtime/"@),
{
    reveal_strlit("Engine/Source/Runtime/");
    reveal_strlit("Engine/Source/Runtime/Engine/Classes/GameFramework/Actor.h");
    reveal_strlit("Engine/Source/Runtime/Engine/Classes/Components/SceneComponent.h");
    reveal_strlit("Engine/Source/Runtime/Engine/Classes/Components/PrimitiveComponent.h");
    reveal_strlit("Engine/Source/Runtime/Engine/Classes/Components/ActorComponent.h");
    reveal_strlit("Engine/Source/Runtime/Engine/Classes/Kismet/GameplayStatics.h");
    reveal_strlit("Engine/Source/Runtime/Engine/Classes/Sound/SoundBase.h");
    reveal_strlit("Engine/Source/Runtime/Engine/Classes/Materials/MaterialInstance.h");
    reveal_strlit("Engine/Source/Runtime/Engine/Classes/Materials/MaterialInstanceDynamic.h");
    reveal_strlit("Engine/Source/Runtime/Engine/Classes/Engine/DataTable.h");
    reveal_strlit("Engine/Source/Runtime/Engine/Classes/Kismet/DataTableFunctionLibrary.h");
    reveal_strlit("Engine/Source/Runtime/AIModule/Classes/AIController.h");
    reveal_strlit("Engine/Source/Runtime/InputCore/Classes/InputCoreTypes.h");
    let s = engine_header(i);
    let head = "Engine/Source/Runtime/"@;
    assert(head.len() == 22);
    assert(s.subrange(0, 22) =~= head);
}

/// The handshake says what the client can take: symbols, definitions, references,
/// and a hover in plain text or, failing that, in Markdown; nothing is registered
/// later.
pub proof fn law_handshake_says_what_is_taken(pid: u32, root: Seq<char>)
    ensures
        ({
            let can = json::json_get(initialize_params(pid, root), "capabilities"@)->0;
            let workspace = json::json_get(can, "workspace"@)->0;
            let documents = json::json_get(can, "textDocument"@)->0;
            &&& json::json_get(json::json_get(workspace, "symbol"@)->0, "dynamicRegistration"@)
                == Some(JsonView::Bool(false))
            &&& json::json_get(documents, "definition"@) is Some
            &&& json::json_get(documents, "references"@) is Some
            &&& json::json_get(json::json_get(documents, "hover"@)->0, "contentFormat"@) == Some(
                JsonView::Array(seq![JsonView::Str("plaintext"@), JsonView::Str("markdown"@)]),
            )
        }),
{
    reveal_strlit("processId");
    reveal_strlit("rootUri");
    reveal_strlit("capabilities");
    reveal_strlit("workspace");
    reveal_strlit("textDocument");
    reveal_strlit("symbol");
    reveal_strlit("definition");
    reveal_strlit("references");
    reveal_strlit("hover");
    assert("processId"@.len() == 9 && "rootUri"@.len() == 7 && "capabilities"@.len() == 12);
    assert("workspace"@.len() == 9 && "textDocument"@.len() == 12 && "symbol"@.len() == 6);
    assert("definition"@.len() == 10 && "references"@.len() == 10 && "hover"@.len() == 5);
    assert("definition"@[0] != "references"@[0]);
}

} // verus!
