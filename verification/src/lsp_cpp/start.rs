//! Starting clangd: the process, the handshake, and the headers that are opened
//! first.
//!
//! A start is a machine. It says what is to be done, is told what came of it,
//! and says what is to be done next, until it is over.
use vstd::prelude::*;

use crate::io_error::{IoError, IoErrorKind, IoErrorView};
use crate::json::{self, Json, JsonView};
use crate::lsp_cpp::clangd::{self, ChildProbe, Clangd, ClangdView, LaunchCommand};
use crate::lsp_cpp::error::{ShimError, ShimErrorView};
use crate::lsp_cpp::exchange::{self, Exchange, ExchangeView, Heard, HeardView, Listening, ListeningView};
use crate::lsp_messages;
use crate::text;

verus! {

/// How far a start has come.
#[derive(Debug)]
pub enum Start {
    /// It is looked for a compilation database.
    Finding,
    /// The log is opened.
    Opening {
        /// Where the compilation database is.
        dir: String,
    },
    /// The process is started.
    Launching,
    /// The handshake is sent.
    Greeting {
        /// Its number.
        id: i64,
    },
    /// The handshake awaits its answer.
    Waiting {
        exchange: Exchange,
    },
    /// The answer is acknowledged.
    Acknowledging,
    /// The first headers are opened.
    Seeding,
    /// Nothing is left to do.
    Over,
}

/// What a [`Start`] stands for.
pub enum StartView {
    Finding,
    Opening { dir: Seq<char> },
    Launching,
    Greeting { id: i64 },
    Waiting { exchange: ExchangeView },
    Acknowledging,
    Seeding,
    Over,
}

impl View for Start {
    type V = StartView;

    open spec fn view(&self) -> StartView {
        match self {
            Start::Finding => StartView::Finding,
            Start::Opening { dir } => StartView::Opening { dir: dir@ },
            Start::Launching => StartView::Launching,
            Start::Greeting { id } => StartView::Greeting { id: *id },
            Start::Waiting { exchange } => StartView::Waiting { exchange: exchange@ },
            Start::Acknowledging => StartView::Acknowledging,
            Start::Seeding => StartView::Seeding,
            Start::Over => StartView::Over,
        }
    }
}

/// A success, or a failure, in views.
pub open spec fn outcome_view(r: Result<(), ShimError>) -> Result<(), ShimErrorView> {
    match r {
        Ok(_) => Ok(()),
        Err(e) => Err(e@),
    }
}

/// What happens during a start.
#[derive(Debug)]
pub enum StartEvent {
    /// It was looked whether the two compilation databases are there.
    Found {
        narrow: bool,
        full: bool,
    },
    /// The log was opened or could not be, and it was looked whether the index
    /// file is there.
    Opened {
        failure: Option<IoError>,
        index_file_there: bool,
    },
    /// The process could not be started.
    NotLaunched(IoError),
    /// The process was started, with these pipes.
    Launched {
        /// Number of the process that starts it.
        own_pid: u32,
        stdin: bool,
        stdout: bool,
    },
    /// A message was sent, or could not be.
    Sent {
        result: Result<(), ShimError>,
        now_ns: u128,
    },
    /// Something happened while the answer was awaited.
    Heard(Heard),
    /// The headers were opened, as far as they could be.
    Seeded,
}

/// What a [`StartEvent`] stands for.
pub enum StartEventView {
    Found { narrow: bool, full: bool },
    Opened { failure: Option<IoErrorView>, index_file_there: bool },
    NotLaunched(IoErrorView),
    Launched { own_pid: u32, stdin: bool, stdout: bool },
    Sent { result: Result<(), ShimErrorView>, now_ns: u128 },
    Heard(HeardView),
    Seeded,
}

impl View for StartEvent {
    type V = StartEventView;

    open spec fn view(&self) -> StartEventView {
        match self {
            StartEvent::Found { narrow, full } => StartEventView::Found {
                narrow: *narrow,
                full: *full,
            },
            StartEvent::Opened { failure, index_file_there } => StartEventView::Opened {
                failure: clangd::opt_io(*failure),
                index_file_there: *index_file_there,
            },
            StartEvent::NotLaunched(e) => StartEventView::NotLaunched(e@),
            StartEvent::Launched { own_pid, stdin, stdout } => StartEventView::Launched {
                own_pid: *own_pid,
                stdin: *stdin,
                stdout: *stdout,
            },
            StartEvent::Sent { result, now_ns } => StartEventView::Sent {
                result: outcome_view(*result),
                now_ns: *now_ns,
            },
            StartEvent::Heard(heard) => StartEventView::Heard(heard@),
            StartEvent::Seeded => StartEventView::Seeded,
        }
    }
}

/// What is done next.
#[derive(Debug)]
pub enum StartAction {
    /// It is looked whether the two compilation databases are there.
    Find,
    /// The log is opened, and it is looked whether the index file is there.
    Open,
    /// The process is started.
    Launch {
        command: LaunchCommand,
    },
    /// A message is sent.
    Send {
        message: Json,
    },
    /// The clock is read.
    CheckClock,
    /// A message is read.
    Read,
    /// The first headers are opened.
    Seed,
    /// The start is over.
    Done(Result<(), ShimError>),
    /// Nothing: the event was not awaited.
    Ignore,
}

/// What a [`StartAction`] stands for.
pub enum StartActionView {
    Find,
    Open,
    Launch { binary: Seq<char>, args: Seq<Seq<char>> },
    Send { message: JsonView },
    CheckClock,
    Read,
    Seed,
    Done(Result<(), ShimErrorView>),
    Ignore,
}

impl View for StartAction {
    type V = StartActionView;

    open spec fn view(&self) -> StartActionView {
        match self {
            StartAction::Find => StartActionView::Find,
            StartAction::Open => StartActionView::Open,
            StartAction::Launch { command } => StartActionView::Launch {
                binary: command.binary@,
                args: text::views(command.args@),
            },
            StartAction::Send { message } => StartActionView::Send { message: message@ },
            StartAction::CheckClock => StartActionView::CheckClock,
            StartAction::Read => StartActionView::Read,
            StartAction::Seed => StartActionView::Seed,
            StartAction::Done(r) => StartActionView::Done(outcome_view(*r)),
            StartAction::Ignore => StartActionView::Ignore,
        }
    }
}

/// How far a start has come, what is done next, and the backend.
pub struct StartStep {
    pub start: StartView,
    pub action: StartActionView,
    pub backend: ClangdView,
}

/// The end of a start.
pub open spec fn ended(r: Result<(), ShimErrorView>, v: ClangdView) -> StartStep {
    StartStep { start: StartView::Over, action: StartActionView::Done(r), backend: v }
}

/// The beginning of a start. It is over at once where there is a child whose
/// handshake was completed.
pub open spec fn start_made(v: ClangdView, child: bool) -> StartStep {
    if clangd::spawn_wanted(v, child) {
        StartStep {
            start: StartView::Finding,
            action: StartActionView::Find,
            backend: clangd::start_begun(v),
        }
    } else {
        ended(Ok(()), v)
    }
}

/// The failure that a pipe is missing right after the start.
pub open spec fn missing_pipe(pipe: Seq<char>) -> ShimErrorView {
    ShimErrorView::Protocol("clangd "@ + pipe + " handle missing"@)
}

/// What follows an event in a start. An event that was not awaited changes
/// nothing.
pub open spec fn start_step(start: StartView, event: StartEventView, v: ClangdView) -> StartStep {
    match (start, event) {
        (
            StartView::Finding,
            StartEventView::Found { narrow, full },
        ) => match clangd::commands_dir(v.project_root, narrow, full) {
            Err(e) => ended(Err(e), v),
            Ok(dir) => StartStep {
                start: StartView::Opening { dir },
                action: StartActionView::Open,
                backend: v,
            },
        },
        (
            StartView::Opening { dir },
            StartEventView::Opened { failure, index_file_there },
        ) => match clangd::launch_obstacle(failure, v.index_mode, index_file_there) {
            Some(e) => ended(Err(e), v),
            None => StartStep {
                start: StartView::Launching,
                action: StartActionView::Launch {
                    binary: v.clangd_bin,
                    args: clangd::clangd_args(v.jobs, dir, v.index_mode),
                },
                backend: v,
            },
        },
        (StartView::Launching, StartEventView::NotLaunched(e)) => ended(
            Err(clangd::launch_failure(v.clangd_bin, e)),
            v,
        ),
        (StartView::Launching, StartEventView::Launched { own_pid, stdin, stdout }) => if !stdin {
            ended(Err(missing_pipe("stdin"@)), v)
        } else if !stdout {
            ended(Err(missing_pipe("stdout"@)), v)
        } else {
            StartStep {
                start: StartView::Greeting { id: v.next_id },
                action: StartActionView::Send {
                    message: lsp_messages::request_message(
                        v.next_id as int,
                        "initialize"@,
                        clangd::initialize_params(own_pid, v.project_root),
                    ),
                },
                backend: clangd::handshake_begun(v),
            }
        },
        (StartView::Greeting { id }, StartEventView::Sent { result, now_ns }) => match result {
            Err(e) => ended(Err(e), v),
            Ok(_) => StartStep {
                start: StartView::Waiting {
                    exchange: ExchangeView {
                        id,
                        refusal: "clangd initialize error: "@,
                        deadline_ns: lsp_messages::moment_after(now_ns, v.initialize_timeout_s),
                    },
                },
                action: StartActionView::CheckClock,
                backend: v,
            },
        },
        (StartView::Waiting { exchange }, StartEventView::Heard(heard)) => match exchange::listen(
            exchange,
            heard,
        ) {
            ListeningView::CheckClock => StartStep {
                start,
                action: StartActionView::CheckClock,
                backend: v,
            },
            ListeningView::Read => StartStep { start, action: StartActionView::Read, backend: v },
            ListeningView::Expired => ended(
                Err(
                    ShimErrorView::InitializeTimeout {
                        timeout_s: v.initialize_timeout_s,
                        log_path: v.log_path,
                    },
                ),
                v,
            ),
            ListeningView::Done(Err(e)) => ended(Err(e), v),
            ListeningView::Done(Ok(_)) => StartStep {
                start: StartView::Acknowledging,
                action: StartActionView::Send {
                    message: lsp_messages::notification_message(
                        "initialized"@,
                        JsonView::Object(Map::empty()),
                    ),
                },
                backend: v,
            },
        },
        (StartView::Acknowledging, StartEventView::Sent { result, .. }) => match result {
            Err(e) => ended(Err(e), v),
            Ok(_) => StartStep {
                start: StartView::Seeding,
                action: StartActionView::Seed,
                backend: v,
            },
        },
        (StartView::Seeding, StartEventView::Seeded) => ended(Ok(()), clangd::handshake_made(v)),
        _ => StartStep { start, action: StartActionView::Ignore, backend: v },
    }
}

impl Clangd {
    /// Starts clangd, unless there is a child whose handshake was completed.
    pub fn spawn(&mut self, child: bool) -> (r: (Start, StartAction))
        ensures
            start_made(old(self)@, child) == (StartStep {
                start: r.0@,
                action: r.1@,
                backend: final(self)@,
            }),
    {
        if self.spawn_needed(child) {
            self.begin_start();
            (Start::Finding, StartAction::Find)
        } else {
            (Start::Over, StartAction::Done(Ok(())))
        }
    }
}

fn failed(e: ShimError) -> (r: (Start, StartAction))
    ensures
        r.0@ == StartView::Over,
        r.1@ == StartActionView::Done(Err(e@)),
{
    (Start::Over, StartAction::Done(Err(e)))
}

impl Start {
    /// Decides what follows an event.
    pub fn step(self, event: StartEvent, clangd: &mut Clangd) -> (r: (Start, StartAction))
        ensures
            start_step(self@, event@, old(clangd)@) == (StartStep {
                start: r.0@,
                action: r.1@,
                backend: final(clangd)@,
            }),
    {
        match (self, event) {
            (Start::Finding, StartEvent::Found { narrow, full }) => {
                match Clangd::resolve_compile_commands_dir(clangd.root(), narrow, full) {
                    Err(e) => failed(e),
                    Ok(dir) => (Start::Opening { dir }, StartAction::Open),
                }
            },
            (Start::Opening { dir }, StartEvent::Opened { failure, index_file_there }) => {
                match clangd.launch_command(dir.as_str(), failure, index_file_there) {
                    Err(e) => failed(e),
                    Ok(command) => (Start::Launching, StartAction::Launch { command }),
                }
            },
            (Start::Launching, StartEvent::NotLaunched(e)) => failed(clangd.launch_failed(e)),
            (Start::Launching, StartEvent::Launched { own_pid, stdin, stdout }) => {
                if !stdin {
                    failed(clangd::pipe_missing("stdin"))
                } else if !stdout {
                    failed(clangd::pipe_missing("stdout"))
                } else {
                    let (id, message) = clangd.handshake(own_pid);
                    (Start::Greeting { id }, StartAction::Send { message })
                }
            },
            (Start::Greeting { id }, StartEvent::Sent { result, now_ns }) => {
                match result {
                    Err(e) => failed(e),
                    Ok(_) => {
                        let exchange = clangd.handshake_sent(id, now_ns);
                        (Start::Waiting { exchange }, StartAction::CheckClock)
                    },
                }
            },
            (Start::Waiting { exchange }, StartEvent::Heard(heard)) => {
                match exchange.step(heard) {
                    Listening::CheckClock => (Start::Waiting { exchange }, StartAction::CheckClock),
                    Listening::Read => (Start::Waiting { exchange }, StartAction::Read),
                    Listening::Expired => failed(clangd.handshake_expired()),
                    Listening::Done(Err(e)) => failed(e),
                    Listening::Done(Ok(_)) => {
                        let message = lsp_messages::notification("initialized", Json::object());
                        (Start::Acknowledging, StartAction::Send { message })
                    },
                }
            },
            (Start::Acknowledging, StartEvent::Sent { result, .. }) => {
                match result {
                    Err(e) => failed(e),
                    Ok(_) => (Start::Seeding, StartAction::Seed),
                }
            },
            (Start::Seeding, StartEvent::Seeded) => {
                clangd.handshake_completed();
                (Start::Over, StartAction::Done(Ok(())))
            },
            (start, _) => (start, StartAction::Ignore),
        }
    }
}

/// A start after some events.
pub open spec fn start_run(v: ClangdView, child: bool, events: Seq<StartEventView>) -> StartStep
    decreases events.len(),
{
    if events.len() == 0 {
        start_made(v, child)
    } else {
        let before = start_run(v, child, events.drop_last());
        start_step(before.start, events.last(), before.backend)
    }
}

/// What a start has come to after some events, if it is over.
pub open spec fn start_outcome(
    v: ClangdView,
    child: bool,
    events: Seq<StartEventView>,
) -> Option<Result<(), ShimErrorView>>
    decreases events.len(),
{
    let earlier = if events.len() == 0 {
        None
    } else {
        start_outcome(v, child, events.drop_last())
    };
    match (earlier, start_run(v, child, events).action) {
        (Some(r), _) => Some(r),
        (None, StartActionView::Done(r)) => Some(r),
        (None, _) => None,
    }
}

/// Whether the event at a place answers the handshake that the start has sent.
pub open spec fn answered_at(
    v: ClangdView,
    child: bool,
    events: Seq<StartEventView>,
    i: int,
) -> bool {
    match (start_run(v, child, events.take(i)).start, events[i]) {
        (StartView::Waiting { exchange }, StartEventView::Heard(heard)) => exchange::listen(
            exchange,
            heard,
        ) matches ListeningView::Done(Ok(_)),
        _ => false,
    }
}

/// Whether the event at a place is that the answer was acknowledged.
pub open spec fn acknowledged_at(
    v: ClangdView,
    child: bool,
    events: Seq<StartEventView>,
    i: int,
) -> bool {
    match (start_run(v, child, events.take(i)).start, events[i]) {
        (StartView::Acknowledging, StartEventView::Sent { result, .. }) => result is Ok,
        _ => false,
    }
}

/// Whether a handshake was answered during a start.
pub open spec fn handshake_answered(
    v: ClangdView,
    child: bool,
    events: Seq<StartEventView>,
) -> bool {
    exists|i: int| 0 <= i < events.len() && #[trigger] answered_at(v, child, events, i)
}

/// Whether a handshake was completed during a start: answered, and the answer
/// acknowledged after that.
pub open spec fn handshake_completed(
    v: ClangdView,
    child: bool,
    events: Seq<StartEventView>,
) -> bool {
    exists|i: int, j: int|
        0 <= i < j < events.len() && #[trigger] answered_at(v, child, events, i)
            && #[trigger] acknowledged_at(v, child, events, j)
}

/// What happened during a start stays so when more happens.
proof fn lemma_more_events(
    v: ClangdView,
    child: bool,
    events: Seq<StartEventView>,
    event: StartEventView,
)
    ensures
        handshake_answered(v, child, events) ==> handshake_answered(v, child, events.push(event)),
        handshake_completed(v, child, events) ==> handshake_completed(v, child, events.push(event)),
{
    let more = events.push(event);
    assert forall|i: int| 0 <= i < events.len() implies answered_at(v, child, more, i)
        == #[trigger] answered_at(v, child, events, i) && acknowledged_at(v, child, more, i)
        == acknowledged_at(v, child, events, i) by {
        assert(more.take(i) =~= events.take(i));
    }
    if handshake_answered(v, child, events) {
        let i = choose|i: int|
            0 <= i < events.len() && #[trigger] answered_at(v, child, events, i);
        assert(answered_at(v, child, more, i));
    }
    if handshake_completed(v, child, events) {
        let (i, j) = choose|i: int, j: int|
            0 <= i < j < events.len() && #[trigger] answered_at(v, child, events, i)
                && #[trigger] acknowledged_at(v, child, events, j);
        assert(answered_at(v, child, events, j) == answered_at(v, child, more, j));
        assert(answered_at(v, child, more, i) && acknowledged_at(v, child, more, j));
    }
}

/// A start that was wanted is in a stage that it can only have reached by what
/// happened in it, and the backend is ready only after its success.
proof fn lemma_stages(v: ClangdView, child: bool, events: Seq<StartEventView>)
    requires
        clangd::spawn_wanted(v, child),
    ensures
        ({
            let run = start_run(v, child, events);
            let outcome = start_outcome(v, child, events);
            &&& run.start is Acknowledging ==> handshake_answered(v, child, events)
            &&& run.start is Seeding ==> handshake_completed(v, child, events)
            &&& outcome == Some(Ok::<(), ShimErrorView>(())) ==> handshake_completed(
                v,
                child,
                events,
            )
            &&& outcome is Some <==> run.start is Over
            &&& run.backend.ready <==> outcome == Some(Ok::<(), ShimErrorView>(()))
        }),
    decreases events.len(),
{
    if events.len() > 0 {
        let before = events.drop_last();
        let event = events.last();
        lemma_stages(v, child, before);
        lemma_more_events(v, child, before, event);
        assert(before.push(event) =~= events);
        let i = events.len() - 1;
        assert(events.take(i) =~= before);
        let earlier = start_run(v, child, before);
        let run = start_run(v, child, events);
        if run.start is Acknowledging && !(earlier.start is Acknowledging) {
            assert(answered_at(v, child, events, i));
        }
        if run.start is Seeding && !(earlier.start is Seeding) {
            let k = choose|k: int|
                0 <= k < before.len() && #[trigger] answered_at(v, child, before, k);
            assert(events.take(k) =~= before.take(k));
            assert(answered_at(v, child, events, k));
            assert(acknowledged_at(v, child, events, i));
        }
    }
}

/// A start that was wanted succeeds only where a handshake is completed during
/// it, and only then is there a backend that need not be started again. A start
/// that failed, or is not over yet, leaves one that has to be started, whether
/// there is a child or not.
pub proof fn law_start_needs_a_handshake(
    v: ClangdView,
    child: bool,
    events: Seq<StartEventView>,
    later_child: bool,
)
    requires
        clangd::spawn_wanted(v, child),
    ensures
        start_outcome(v, child, events) == Some(Ok::<(), ShimErrorView>(())) ==> (
        handshake_completed(v, child, events) && !clangd::spawn_wanted(
            start_run(v, child, events).backend,
            true,
        )),
        start_outcome(v, child, events) != Some(Ok::<(), ShimErrorView>(()))
            ==> clangd::spawn_wanted(start_run(v, child, events).backend, later_child),
{
    lemma_stages(v, child, events);
}

/// A start ends once: what happens after its end changes nothing, neither what
/// it came to nor the backend, and asks for nothing.
pub proof fn law_start_ends_once(
    v: ClangdView,
    child: bool,
    events: Seq<StartEventView>,
    event: StartEventView,
)
    requires
        start_outcome(v, child, events) is Some,
    ensures
        start_outcome(v, child, events.push(event)) == start_outcome(v, child, events),
        start_run(v, child, events.push(event)) == (StartStep {
            action: StartActionView::Ignore,
            ..start_run(v, child, events)
        }),
{
    lemma_over(v, child, events);
    assert(events.push(event).drop_last() =~= events);
}

/// A start with an outcome is over.
proof fn lemma_over(v: ClangdView, child: bool, events: Seq<StartEventView>)
    ensures
        start_outcome(v, child, events) is Some <==> start_run(v, child, events).start is Over,
    decreases events.len(),
{
    if events.len() > 0 {
        lemma_over(v, child, events.drop_last());
    }
}

/// What is done with a backend.
pub enum BackendUse {
    /// A request is made.
    Requested,
    /// It is looked at the child.
    Looked { probe: ChildProbe },
    /// An exit that was seen is handed on.
    HandedOn,
    /// clangd is started.
    Started { child: bool, events: Seq<StartEventView> },
}

/// The backend after it was used.
pub open spec fn after_use(v: ClangdView, used: BackendUse) -> ClangdView {
    match used {
        BackendUse::Requested => clangd::request_made(v),
        BackendUse::Looked { probe } => clangd::after_look(v, probe),
        BackendUse::HandedOn => clangd::handed_on(v),
        BackendUse::Started { child, events } => start_run(v, child, events).backend,
    }
}

/// The backend after it was used some times.
pub open spec fn after_uses(v: ClangdView, uses: Seq<BackendUse>) -> ClangdView
    decreases uses.len(),
{
    if uses.len() == 0 {
        v
    } else {
        after_use(after_uses(v, uses.drop_last()), uses.last())
    }
}

/// Whether one of the uses is a start that succeeds.
pub open spec fn starts_in(v: ClangdView, uses: Seq<BackendUse>) -> bool
    decreases uses.len(),
{
    if uses.len() == 0 {
        false
    } else {
        starts_in(v, uses.drop_last()) || match uses.last() {
            BackendUse::Started { child, events } => start_outcome(
                after_uses(v, uses.drop_last()),
                child,
                events,
            ) == Some(Ok::<(), ShimErrorView>(())),
            _ => false,
        }
    }
}

/// Whatever is done with a backend that is not ready, it does not get ready
/// unless a start succeeds.
proof fn lemma_not_ready(v: ClangdView, uses: Seq<BackendUse>)
    requires
        !v.ready,
        !starts_in(v, uses),
    ensures
        !after_uses(v, uses).ready,
    decreases uses.len(),
{
    if uses.len() > 0 {
        let before = uses.drop_last();
        lemma_not_ready(v, before);
        match uses.last() {
            BackendUse::Started { child, events } => {
                lemma_stages(after_uses(v, before), child, events);
            },
            _ => {},
        }
    }
}

/// A backend is fresh, or its last start failed. However it is used since, with
/// requests, looks at the child, exits handed on and starts that fail, the next
/// start does something, whether there is a child or not, and it succeeds only
/// where a handshake is completed during it.
pub proof fn law_start_after_failures_needs_a_handshake(
    v: ClangdView,
    uses: Seq<BackendUse>,
    child: bool,
    events: Seq<StartEventView>,
)
    requires
        !v.ready,
        !starts_in(v, uses),
    ensures
        clangd::spawn_wanted(after_uses(v, uses), child),
        start_outcome(after_uses(v, uses), child, events) == Some(Ok::<(), ShimErrorView>(()))
            ==> handshake_completed(after_uses(v, uses), child, events),
{
    lemma_not_ready(v, uses);
    lemma_stages(after_uses(v, uses), child, events);
}

/// A start failed, in its handshake or before it. Until a start succeeds, a child
/// that is left over is not taken for one that serves: starting again does
/// something, and succeeds only by a handshake of its own.
pub proof fn law_failed_start_is_made_again(
    v: ClangdView,
    first_child: bool,
    first: Seq<StartEventView>,
    uses: Seq<BackendUse>,
    child: bool,
    events: Seq<StartEventView>,
)
    requires
        start_outcome(v, first_child, first) matches Some(Err(_)),
        !starts_in(start_run(v, first_child, first).backend, uses),
    ensures
        ({
            let later = after_uses(start_run(v, first_child, first).backend, uses);
            &&& clangd::spawn_wanted(later, child)
            &&& start_outcome(later, child, events) == Some(Ok::<(), ShimErrorView>(()))
                ==> handshake_completed(later, child, events)
        }),
{
    lemma_only_wanted_fails(v, first_child, first);
    lemma_stages(v, first_child, first);
    law_start_after_failures_needs_a_handshake(
        start_run(v, first_child, first).backend,
        uses,
        child,
        events,
    );
}

/// A start that was not wanted succeeds at once, and changes nothing.
proof fn lemma_only_wanted_fails(v: ClangdView, child: bool, events: Seq<StartEventView>)
    ensures
        !clangd::spawn_wanted(v, child) ==> start_outcome(v, child, events) == Some(
            Ok::<(), ShimErrorView>(()),
        ) && start_run(v, child, events).backend == v,
    decreases events.len(),
{
    if events.len() > 0 {
        lemma_only_wanted_fails(v, child, events.drop_last());
        lemma_over(v, child, events.drop_last());
    }
}

/// Once a handshake has begun, and until one is completed, clangd has to be
/// started, whether there is a child or not, however the backend is used.
pub proof fn law_begun_handshake_is_no_start(v: ClangdView, uses: Seq<BackendUse>, child: bool)
    requires
        !starts_in(clangd::handshake_begun(v), uses),
    ensures
        clangd::spawn_wanted(after_uses(clangd::handshake_begun(v), uses), child),
{
    lemma_not_ready(clangd::handshake_begun(v), uses);
}

/// Whether a use is no start without a child.
pub open spec fn keeps_child(used: BackendUse) -> bool {
    match used {
        BackendUse::Started { child, .. } => child,
        _ => true,
    }
}

/// After a success starting again does nothing, as long as there is a child:
/// however the backend was used since, it succeeds at once and leaves the
/// backend as it is.
pub proof fn law_start_after_success_does_nothing(v: ClangdView, uses: Seq<BackendUse>)
    requires
        v.ready,
        forall|i: int| 0 <= i < uses.len() ==> keeps_child(#[trigger] uses[i]),
    ensures
        start_made(after_uses(v, uses), true) == ended(Ok(()), after_uses(v, uses)),
    decreases uses.len(),
{
    if uses.len() > 0 {
        let before = uses.drop_last();
        assert forall|i: int| 0 <= i < before.len() implies keeps_child(#[trigger] before[i]) by {
            assert(before[i] == uses[i]);
        }
        law_start_after_success_does_nothing(v, before);
        assert(keeps_child(uses[uses.len() - 1]));
        match uses.last() {
            BackendUse::Started { child, events } => {
                lemma_only_wanted_fails(after_uses(v, before), child, events);
            },
            _ => {},
        }
    }
}

/// Whether a step ends the start with an outcome.
pub open spec fn ends_with(step: StartStep, r: Result<(), ShimErrorView>) -> bool {
    step.action == StartActionView::Done(r) && step.start is Over
}

/// A start looks for the database of the project, opens its log, and launches the
/// binary that is configured, with that database; what stands in the way ends it
/// and is told.
pub proof fn law_start_launches_what_is_configured(
    v: ClangdView,
    narrow: bool,
    full: bool,
    dir: Seq<char>,
    there: bool,
    e: IoErrorView,
)
    ensures
        ({
            let found = start_step(
                StartView::Finding,
                StartEventView::Found { narrow, full },
                v,
            );
            &&& narrow || full ==> found.start == (StartView::Opening { dir: v.project_root })
                && found.action is Open && found.backend == v
            &&& !narrow && !full ==> ends_with(
                found,
                Err(ShimErrorView::NoCompileCommands { root: v.project_root }),
            )
        }),
        ({
            let opened = start_step(
                StartView::Opening { dir },
                StartEventView::Opened { failure: None, index_file_there: there },
                v,
            );
            &&& v.index_mode is Narrow || there ==> {
                &&& opened.start is Launching
                &&& opened.action is Launch
                &&& opened.action->binary == v.clangd_bin
                &&& opened.action->args.contains("--compile-commands-dir="@ + dir)
                &&& opened.action->args.contains("-j="@ + text::dec(v.jobs as nat))
                &&& opened.backend == v
            }
            &&& !there ==> match v.index_mode {
                clangd::IndexModeView::Narrow => true,
                clangd::IndexModeView::Full { index_file } => ends_with(
                    opened,
                    Err(ShimErrorView::NoIndexFile { path: index_file }),
                ),
                clangd::IndexModeView::Hybrid { index_file } => ends_with(
                    opened,
                    Err(ShimErrorView::NoIndexFile { path: index_file }),
                ),
            }
        }),
        ends_with(
            start_step(
                StartView::Opening { dir },
                StartEventView::Opened { failure: Some(e), index_file_there: there },
                v,
            ),
            Err(ShimErrorView::Io(e)),
        ),
{
    let args = clangd::clangd_args(v.jobs, dir, v.index_mode);
    assert(args[4] == "--compile-commands-dir="@ + dir);
    assert(args[3] == "-j="@ + text::dec(v.jobs as nat));
}

/// A child that runs is greeted with the project, under the next number, and waited
/// for as long as is configured; one that does not, or lacks a pipe, ends the start.
pub proof fn law_start_greets_the_child(
    v: ClangdView,
    own_pid: u32,
    id: i64,
    now_ns: u128,
    e: IoErrorView,
)
    ensures
        ({
            let launched = start_step(
                StartView::Launching,
                StartEventView::Launched { own_pid, stdin: true, stdout: true },
                v,
            );
            let message = launched.action->message;
            &&& launched.start == (StartView::Greeting { id: v.next_id })
            &&& launched.action is Send
            &&& json::json_get(message, "method"@) == Some(JsonView::Str("initialize"@))
            &&& json::json_get(message, "id"@) == Some(json::json_int(v.next_id as int))
            &&& json::json_get(message, "params"@) == Some(
                clangd::initialize_params(own_pid, v.project_root),
            )
        }),
        ends_with(
            start_step(
                StartView::Launching,
                StartEventView::Launched { own_pid, stdin: false, stdout: true },
                v,
            ),
            Err(ShimErrorView::Protocol("clangd "@ + "stdin"@ + " handle missing"@)),
        ),
        ends_with(
            start_step(
                StartView::Launching,
                StartEventView::Launched { own_pid, stdin: true, stdout: false },
                v,
            ),
            Err(ShimErrorView::Protocol("clangd "@ + "stdout"@ + " handle missing"@)),
        ),
        e.kind == IoErrorKind::NotFound ==> ends_with(
            start_step(StartView::Launching, StartEventView::NotLaunched(e), v),
            Err(ShimErrorView::ClangdMissing { path: v.clangd_bin }),
        ),
        e.kind != IoErrorKind::NotFound ==> ends_with(
            start_step(StartView::Launching, StartEventView::NotLaunched(e), v),
            Err(ShimErrorView::Io(e)),
        ),
        ({
            let sent = start_step(
                StartView::Greeting { id },
                StartEventView::Sent { result: Ok(()), now_ns },
                v,
            );
            &&& sent.action is CheckClock
            &&& sent.start is Waiting
            &&& sent.start->exchange.id == id
            &&& now_ns + v.initialize_timeout_s * 1_000_000_000 <= u128::MAX
                ==> sent.start->exchange.deadline_ns == now_ns + v.initialize_timeout_s
                * 1_000_000_000
        }),
{
    lsp_messages::law_messages_carry_their_parts(
        v.next_id as int,
        "initialize"@,
        clangd::initialize_params(own_pid, v.project_root),
    );
    lsp_messages::law_deadline_is_its_seconds_away(now_ns, v.initialize_timeout_s);
}

/// An answer to the greeting is acknowledged, and a start is over with success, the
/// backend ready, once the headers have been opened; an answer that does not come,
/// or is an error, ends the start with it.
pub proof fn law_start_ends_with_the_handshake(
    v: ClangdView,
    x: ExchangeView,
    heard: HeardView,
    now_ns: u128,
    e: ShimErrorView,
)
    ensures
        ({
            let step = start_step(
                StartView::Waiting { exchange: x },
                StartEventView::Heard(heard),
                v,
            );
            match exchange::listen(x, heard) {
                ListeningView::Done(Ok(_)) => {
                    &&& step.start is Acknowledging
                    &&& step.action is Send
                    &&& json::json_get(step.action->message, "method"@) == Some(
                        JsonView::Str("initialized"@),
                    )
                    &&& json::json_get(step.action->message, "id"@) is None
                },
                ListeningView::Done(Err(failure)) => ends_with(step, Err(failure)),
                ListeningView::Expired => ends_with(
                    step,
                    Err(
                        ShimErrorView::InitializeTimeout {
                            timeout_s: v.initialize_timeout_s,
                            log_path: v.log_path,
                        },
                    ),
                ),
                ListeningView::Read => step.action is Read && step.start == (
                StartView::Waiting { exchange: x }),
                ListeningView::CheckClock => step.action is CheckClock && step.start == (
                StartView::Waiting { exchange: x }),
            }
        }),
        start_step(
            StartView::Acknowledging,
            StartEventView::Sent { result: Ok(()), now_ns },
            v,
        ).action is Seed,
        ends_with(
            start_step(
                StartView::Acknowledging,
                StartEventView::Sent { result: Err(e), now_ns },
                v,
            ),
            Err(e),
        ),
        ends_with(start_step(StartView::Seeding, StartEventView::Seeded, v), Ok(())),
        start_step(StartView::Seeding, StartEventView::Seeded, v).backend.ready,
{
    lsp_messages::law_messages_carry_their_parts(
        0,
        "initialized"@,
        JsonView::Object(Map::empty()),
    );
}

} // verus!
