//! Starting rust-analyzer: the process and the handshake.
//!
//! A start is a machine. It says what is to be done, is told what came of it,
//! and says what is to be done next, until it is over.
use vstd::prelude::*;

use crate::io_error::{IoError, IoErrorView};
use crate::json::{self, Json, JsonView};
use crate::lsp_messages;
use crate::lsp_rust::lsp::{
    self, ClientView, Exchange, ExchangeView, Heard, HeardView, Listening, ListeningView, LspErrorView,
    LspShimError, Purpose, RustAnalyzerClient,
};

verus! {

/// How far a start has come.
#[derive(Debug)]
pub enum Start {
    /// The log is opened.
    Opening,
    /// The process is started.
    Launching,
    /// The handshake is sent.
    Greeting {
        /// Its number.
        id: u64,
    },
    /// The handshake awaits its answer.
    Waiting {
        exchange: Exchange,
    },
    /// The answer is acknowledged.
    Acknowledging,
    /// Nothing is left to do.
    Over,
}

/// What a [`Start`] stands for.
pub enum StartView {
    Opening,
    Launching,
    Greeting { id: u64 },
    Waiting { exchange: ExchangeView },
    Acknowledging,
    Over,
}

impl View for Start {
    type V = StartView;

    open spec fn view(&self) -> StartView {
        match self {
            Start::Opening => StartView::Opening,
            Start::Launching => StartView::Launching,
            Start::Greeting { id } => StartView::Greeting { id: *id },
            Start::Waiting { exchange } => StartView::Waiting { exchange: exchange@ },
            Start::Acknowledging => StartView::Acknowledging,
            Start::Over => StartView::Over,
        }
    }
}

/// A success, or a failure, in views.
pub open spec fn outcome_view(r: Result<(), LspShimError>) -> Result<(), LspErrorView> {
    match r {
        Ok(_) => Ok(()),
        Err(e) => Err(e@),
    }
}

/// What happens during a start.
#[derive(Debug)]
pub enum StartEvent {
    /// The log was opened, or could not be.
    Opened {
        failure: Option<IoError>,
    },
    /// The process could not be started.
    NotLaunched(IoError),
    /// The process was started, with these pipes.
    Launched {
        /// Number of the process that starts it.
        own_pid: u32,
        stdin: bool,
        stdout: bool,
    },
    /// A message was sent, or could not be.
    Sent {
        result: Result<(), LspShimError>,
        now_ns: u128,
    },
    /// Something happened while the answer was awaited.
    Heard(Heard),
}

/// What a [`StartEvent`] stands for.
pub enum StartEventView {
    Opened { failure: Option<IoErrorView> },
    NotLaunched(IoErrorView),
    Launched { own_pid: u32, stdin: bool, stdout: bool },
    Sent { result: Result<(), LspErrorView>, now_ns: u128 },
    Heard(HeardView),
}

impl View for StartEvent {
    type V = StartEventView;

    open spec fn view(&self) -> StartEventView {
        match self {
            StartEvent::Opened { failure } => StartEventView::Opened {
                failure: match failure {
                    Some(e) => Some(e@),
                    None => None,
                },
            },
            StartEvent::NotLaunched(e) => StartEventView::NotLaunched(e@),
            StartEvent::Launched { own_pid, stdin, stdout } => StartEventView::Launched {
                own_pid: *own_pid,
                stdin: *stdin,
                stdout: *stdout,
            },
            StartEvent::Sent { result, now_ns } => StartEventView::Sent {
                result: outcome_view(*result),
                now_ns: *now_ns,
            },
            StartEvent::Heard(heard) => StartEventView::Heard(heard@),
        }
    }
}

/// What is done next.
#[derive(Debug)]
pub enum StartAction {
    /// The log is opened.
    Open,
    /// The process is started.
    Launch {
        binary: String,
    },
    /// A message is sent.
    Send {
        message: Json,
    },
    /// The clock is read.
    CheckClock,
    /// A message is read.
    Read,
    /// The start is over.
    Done(Result<(), LspShimError>),
    /// Nothing: the event was not awaited.
    Ignore,
}

/// What a [`StartAction`] stands for.
pub enum StartActionView {
    Open,
    Launch { binary: Seq<char> },
    Send { message: JsonView },
    CheckClock,
    Read,
    Done(Result<(), LspErrorView>),
    Ignore,
}

impl View for StartAction {
    type V = StartActionView;

    open spec fn view(&self) -> StartActionView {
        match self {
            StartAction::Open => StartActionView::Open,
            StartAction::Launch { binary } => StartActionView::Launch { binary: binary@ },
            StartAction::Send { message } => StartActionView::Send { message: message@ },
            StartAction::CheckClock => StartActionView::CheckClock,
            StartAction::Read => StartActionView::Read,
            StartAction::Done(r) => StartActionView::Done(outcome_view(*r)),
            StartAction::Ignore => StartActionView::Ignore,
        }
    }
}

/// How far a start has come, what is done next, and the client.
pub struct StartStep {
    pub start: StartView,
    pub action: StartActionView,
    pub client: ClientView,
}

/// The end of a start.
pub open spec fn ended(r: Result<(), LspErrorView>, v: ClientView) -> StartStep {
    StartStep { start: StartView::Over, action: StartActionView::Done(r), client: v }
}

/// The beginning of a start. It is over at once where there is a child whose
/// handshake was completed.
pub open spec fn start_made(v: ClientView, child: bool) -> StartStep {
    if lsp::spawn_wanted(v, child) {
        StartStep {
            start: StartView::Opening,
            action: StartActionView::Open,
            client: lsp::start_begun(v),
        }
    } else {
        ended(Ok(()), v)
    }
}

/// The failure that a pipe is missing right after the start.
pub open spec fn missing_pipe(pipe: Seq<char>) -> LspErrorView {
    LspErrorView::Protocol("rust-analyzer "@ + pipe + " handle missing"@)
}

/// What follows an event in a start. An event that was not awaited changes
/// nothing.
pub open spec fn start_step(start: StartView, event: StartEventView, v: ClientView) -> StartStep {
    match (start, event) {
        (StartView::Opening, StartEventView::Opened { failure }) => match failure {
            Some(e) => ended(Err(LspErrorView::Io(e)), v),
            None => StartStep {
                start: StartView::Launching,
                action: StartActionView::Launch { binary: v.binary },
                client: v,
            },
        },
        (StartView::Launching, StartEventView::NotLaunched(e)) => ended(
            Err(LspErrorView::Spawn { binary: v.binary, source: e }),
            v,
        ),
        (StartView::Launching, StartEventView::Launched { own_pid, stdin, stdout }) => if !stdin {
            ended(Err(missing_pipe("stdin"@)), v)
        } else if !stdout {
            ended(Err(missing_pipe("stdout"@)), v)
        } else {
            StartStep {
                start: StartView::Greeting { id: v.next_id },
                action: StartActionView::Send {
                    message: lsp_messages::request_message(
                        v.next_id as int,
                        "initialize"@,
                        lsp::initialize_params(own_pid, v.workspace),
                    ),
                },
                client: lsp::handshake_begun(v),
            }
        },
        (StartView::Greeting { id }, StartEventView::Sent { result, now_ns }) => match result {
            Err(e) => ended(Err(e), v),
            Ok(_) => StartStep {
                start: StartView::Waiting {
                    exchange: ExchangeView {
                        purpose: Purpose::Handshake,
                        id,
                        method: "initialize"@,
                        timeout_s: lsp::INITIALIZE_TIMEOUT_SECS,
                        log_path: v.log_path,
                        deadline_ns: lsp_messages::moment_after(
                            now_ns,
                            lsp::INITIALIZE_TIMEOUT_SECS,
                        ),
                    },
                },
                action: StartActionView::CheckClock,
                client: v,
            },
        },
        (StartView::Waiting { exchange }, StartEventView::Heard(heard)) => match lsp::listen(
            exchange,
            heard,
        ) {
            ListeningView::CheckClock => StartStep {
                start,
                action: StartActionView::CheckClock,
                client: v,
            },
            ListeningView::Read => StartStep { start, action: StartActionView::Read, client: v },
            ListeningView::Done(Err(e)) => ended(Err(e), v),
            ListeningView::Done(Ok(_)) => StartStep {
                start: StartView::Acknowledging,
                action: StartActionView::Send {
                    message: lsp_messages::notification_message(
                        "initialized"@,
                        JsonView::Object(Map::empty()),
                    ),
                },
                client: v,
            },
        },
        (StartView::Acknowledging, StartEventView::Sent { result, .. }) => match result {
            Err(e) => ended(Err(e), v),
            Ok(_) => ended(Ok(()), lsp::handshake_made(v)),
        },
        _ => StartStep { start, action: StartActionView::Ignore, client: v },
    }
}

impl RustAnalyzerClient {
    /// Starts rust-analyzer, unless there is a child whose handshake was
    /// completed.
    pub fn spawn(&mut self, child: bool) -> (r: (Start, StartAction))
        ensures
            start_made(old(self)@, child) == (StartStep {
                start: r.0@,
                action: r.1@,
                client: final(self)@,
            }),
    {
        if self.spawn_needed(child) {
            self.begin_start();
            (Start::Opening, StartAction::Open)
        } else {
            (Start::Over, StartAction::Done(Ok(())))
        }
    }
}

fn failed(e: LspShimError) -> (r: (Start, StartAction))
    ensures
        r.0@ == StartView::Over,
        r.1@ == StartActionView::Done(Err(e@)),
{
    (Start::Over, StartAction::Done(Err(e)))
}

impl Start {
    /// Decides what follows an event.
    pub fn step(self, event: StartEvent, client: &mut RustAnalyzerClient) -> (r: (
        Start,
        StartAction,
    ))
        ensures
            start_step(self@, event@, old(client)@) == (StartStep {
                start: r.0@,
                action: r.1@,
                client: final(client)@,
            }),
    {
        match (self, event) {
            (Start::Opening, StartEvent::Opened { failure }) => {
                match failure {
                    Some(e) => failed(LspShimError::Io(e)),
                    None => {
                        let binary = client.binary().to_owned();
                        (Start::Launching, StartAction::Launch { binary })
                    },
                }
            },
            (Start::Launching, StartEvent::NotLaunched(e)) => failed(client.launch_failed(e)),
            (Start::Launching, StartEvent::Launched { own_pid, stdin, stdout }) => {
                if !stdin {
                    failed(lsp::pipe_missing("stdin"))
                } else if !stdout {
                    failed(lsp::pipe_missing("stdout"))
                } else {
                    let pending = client.handshake(own_pid);
                    let id: u64 = pending.id;
                    (Start::Greeting { id }, StartAction::Send { message: pending.message })
                }
            },
            (Start::Greeting { id }, StartEvent::Sent { result, now_ns }) => {
                match result {
                    Err(e) => failed(e),
                    Ok(_) => {
                        let exchange = client.handshake_sent(id, now_ns);
                        (Start::Waiting { exchange }, StartAction::CheckClock)
                    },
                }
            },
            (Start::Waiting { exchange }, StartEvent::Heard(heard)) => {
                match exchange.step(heard) {
                    Listening::CheckClock => (Start::Waiting { exchange }, StartAction::CheckClock),
                    Listening::Read => (Start::Waiting { exchange }, StartAction::Read),
                    Listening::Done(Err(e)) => failed(e),
                    Listening::Done(Ok(_)) => {
                        let message = lsp_messages::notification("initialized", Json::object());
                        (Start::Acknowledging, StartAction::Send { message })
                    },
                }
            },
            (Start::Acknowledging, StartEvent::Sent { result, .. }) => {
                match result {
                    Err(e) => failed(e),
                    Ok(_) => {
                        client.handshake_completed();
                        (Start::Over, StartAction::Done(Ok(())))
                    },
                }
            },
            (start, _) => (start, StartAction::Ignore),
        }
    }
}

/// A start after some events.
pub open spec fn start_run(v: ClientView, child: bool, events: Seq<StartEventView>) -> StartStep
    decreases events.len(),
{
    if events.len() == 0 {
        start_made(v, child)
    } else {
        let before = start_run(v, child, events.drop_last());
        start_step(before.start, events.last(), before.client)
    }
}

/// What a start has come to after some events, if it is over.
pub open spec fn start_outcome(
    v: ClientView,
    child: bool,
    events: Seq<StartEventView>,
) -> Option<Result<(), LspErrorView>>
    decreases events.len(),
{
    let earlier = if events.len() == 0 {
        None
    } else {
        start_outcome(v, child, events.drop_last())
    };
    match (earlier, start_run(v, child, events).action) {
        (Some(r), _) => Some(r),
        (None, StartActionView::Done(r)) => Some(r),
        (None, _) => None,
    }
}

/// Whether the event at a place answers the handshake that the start has sent.
pub open spec fn answered_at(
    v: ClientView,
    child: bool,
    events: Seq<StartEventView>,
    i: int,
) -> bool {
    match (start_run(v, child, events.take(i)).start, events[i]) {
        (StartView::Waiting { exchange }, StartEventView::Heard(heard)) => lsp::listen(
            exchange,
            heard,
        ) matches ListeningView::Done(Ok(_)),
        _ => false,
    }
}

/// Whether the event at a place is that the answer was acknowledged.
pub open spec fn acknowledged_at(
    v: ClientView,
    child: bool,
    events: Seq<StartEventView>,
    i: int,
) -> bool {
    match (start_run(v, child, events.take(i)).start, events[i]) {
        (StartView::Acknowledging, StartEventView::Sent { result, .. }) => result is Ok,
        _ => false,
    }
}

/// Whether a handshake was answered during a start.
pub open spec fn handshake_answered(
    v: ClientView,
    child: bool,
    events: Seq<StartEventView>,
) -> bool {
    exists|i: int| 0 <= i < events.len() && #[trigger] answered_at(v, child, events, i)
}

/// Whether a handshake was completed during a start: answered, and the answer
/// acknowledged after that.
pub open spec fn handshake_completed(
    v: ClientView,
    child: bool,
    events: Seq<StartEventView>,
) -> bool {
    exists|i: int, j: int|
        0 <= i < j < events.len() && #[trigger] answered_at(v, child, events, i)
            && #[trigger] acknowledged_at(v, child, events, j)
}

/// What happened during a start stays so when more happens.
proof fn lemma_more_events(
    v: ClientView,
    child: bool,
    events: Seq<StartEventView>,
    event: StartEventView,
)
    ensures
        handshake_answered(v, child, events) ==> handshake_answered(v, child, events.push(event)),
        handshake_completed(v, child, events) ==> handshake_completed(v, child, events.push(event)),
{
    let more = events.push(event);
    assert forall|i: int| 0 <= i < events.len() implies answered_at(v, child, more, i)
        == #[trigger] answered_at(v, child, events, i) && acknowledged_at(v, child, more, i)
        == acknowledged_at(v, child, events, i) by {
        assert(more.take(i) =~= events.take(i));
    }
    if handshake_answered(v, child, events) {
        let i = choose|i: int|
            0 <= i < events.len() && #[trigger] answered_at(v, child, events, i);
        assert(answered_at(v, child, more, i));
    }
    if handshake_completed(v, child, events) {
        let (i, j) = choose|i: int, j: int|
            0 <= i < j < events.len() && #[trigger] answered_at(v, child, events, i)
                && #[trigger] acknowledged_at(v, child, events, j);
        assert(answered_at(v, child, events, j) == answered_at(v, child, more, j));
        assert(answered_at(v, child, more, i) && acknowledged_at(v, child, more, j));
    }
}

/// A start that was wanted is in a stage that it can only have reached by what
/// happened in it, and the client is ready only after its success.
proof fn lemma_stages(v: ClientView, child: bool, events: Seq<StartEventView>)
    requires
        lsp::spawn_wanted(v, child),
    ensures
        ({
            let run = start_run(v, child, events);
            let outcome = start_outcome(v, child, events);
            &&& run.start is Acknowledging ==> handshake_answered(v, child, events)
            &&& outcome == Some(Ok::<(), LspErrorView>(())) ==> handshake_completed(
                v,
                child,
                events,
            )
            &&& outcome is Some <==> run.start is Over
            &&& run.client.ready <==> outcome == Some(Ok::<(), LspErrorView>(()))
        }),
    decreases events.len(),
{
    if events.len() > 0 {
        let before = events.drop_last();
        let event = events.last();
        lemma_stages(v, child, before);
        lemma_more_events(v, child, before, event);
        assert(before.push(event) =~= events);
        let i = events.len() - 1;
        assert(events.take(i) =~= before);
        let earlier = start_run(v, child, before);
        let run = start_run(v, child, events);
        if run.start is Acknowledging && !(earlier.start is Acknowledging) {
            assert(answered_at(v, child, events, i));
        }
        if run.client.ready && !earlier.client.ready {
            let k = choose|k: int|
                0 <= k < before.len() && #[trigger] answered_at(v, child, before, k);
            assert(events.take(k) =~= before.take(k));
            assert(answered_at(v, child, events, k));
            assert(acknowledged_at(v, child, events, i));
        }
    }
}

/// A start that was wanted succeeds only where a handshake is completed during
/// it, and only then is there a client that need not be started again. A start
/// that failed, or is not over yet, leaves one that has to be started, whether
/// there is a child or not.
pub proof fn law_start_needs_a_handshake(
    v: ClientView,
    child: bool,
    events: Seq<StartEventView>,
    later_child: bool,
)
    requires
        lsp::spawn_wanted(v, child),
    ensures
        start_outcome(v, child, events) == Some(Ok::<(), LspErrorView>(())) ==> (
        handshake_completed(v, child, events) && !lsp::spawn_wanted(
            start_run(v, child, events).client,
            true,
        )),
        start_outcome(v, child, events) != Some(Ok::<(), LspErrorView>(()))
            ==> lsp::spawn_wanted(start_run(v, child, events).client, later_child),
{
    lemma_stages(v, child, events);
}

/// A start ends once: what happens after its end changes nothing, neither what
/// it came to nor the client, and asks for nothing.
pub proof fn law_start_ends_once(
    v: ClientView,
    child: bool,
    events: Seq<StartEventView>,
    event: StartEventView,
)
    requires
        start_outcome(v, child, events) is Some,
    ensures
        start_outcome(v, child, events.push(event)) == start_outcome(v, child, events),
        start_run(v, child, events.push(event)) == (StartStep {
            action: StartActionView::Ignore,
            ..start_run(v, child, events)
        }),
{
    lemma_over(v, child, events);
    assert(events.push(event).drop_last() =~= events);
}

/// A start with an outcome is over.
proof fn lemma_over(v: ClientView, child: bool, events: Seq<StartEventView>)
    ensures
        start_outcome(v, child, events) is Some <==> start_run(v, child, events).start is Over,
    decreases events.len(),
{
    if events.len() > 0 {
        lemma_over(v, child, events.drop_last());
    }
}

/// What is done with a client.
pub enum ClientUse {
    /// A request is made.
    Requested,
    /// rust-analyzer is started.
    Started { child: bool, events: Seq<StartEventView> },
}

/// The client after it was used.
pub open spec fn after_use(v: ClientView, used: ClientUse) -> ClientView {
    match used {
        ClientUse::Requested => lsp::request_made(v),
        ClientUse::Started { child, events } => start_run(v, child, events).client,
    }
}

/// The client after it was used some times.
pub open spec fn after_uses(v: ClientView, uses: Seq<ClientUse>) -> ClientView
    decreases uses.len(),
{
    if uses.len() == 0 {
        v
    } else {
        after_use(after_uses(v, uses.drop_last()), uses.last())
    }
}

/// Whether one of the uses is a start that succeeds.
pub open spec fn starts_in(v: ClientView, uses: Seq<ClientUse>) -> bool
    decreases uses.len(),
{
    if uses.len() == 0 {
        false
    } else {
        starts_in(v, uses.drop_last()) || match uses.last() {
            ClientUse::Started { child, events } => start_outcome(
                after_uses(v, uses.drop_last()),
                child,
                events,
            ) == Some(Ok::<(), LspErrorView>(())),
            _ => false,
        }
    }
}

/// Whatever is done with a client that is not ready, it does not get ready
/// unless a start succeeds.
proof fn lemma_not_ready(v: ClientView, uses: Seq<ClientUse>)
    requires
        !v.ready,
        !starts_in(v, uses),
    ensures
        !after_uses(v, uses).ready,
    decreases uses.len(),
{
    if uses.len() > 0 {
        let before = uses.drop_last();
        lemma_not_ready(v, before);
        match uses.last() {
            ClientUse::Started { child, events } => {
                lemma_stages(after_uses(v, before), child, events);
            },
            _ => {},
        }
    }
}

/// A client is fresh, or its last start failed. However it is used since, with
/// requests and starts that fail, the next start does something, whether there
/// is a child or not, and it succeeds only where a handshake is completed during
/// it.
pub proof fn law_start_after_failures_needs_a_handshake(
    v: ClientView,
    uses: Seq<ClientUse>,
    child: bool,
    events: Seq<StartEventView>,
)
    requires
        !v.ready,
        !starts_in(v, uses),
    ensures
        lsp::spawn_wanted(after_uses(v, uses), child),
        start_outcome(after_uses(v, uses), child, events) == Some(Ok::<(), LspErrorView>(()))
            ==> handshake_completed(after_uses(v, uses), child, events),
{
    lemma_not_ready(v, uses);
    lemma_stages(after_uses(v, uses), child, events);
}

/// A start failed, in its handshake or before it. Until a start succeeds, a child
/// that is left over is not taken for one that serves: starting again does
/// something, and succeeds only by a handshake of its own.
pub proof fn law_failed_start_is_made_again(
    v: ClientView,
    first_child: bool,
    first: Seq<StartEventView>,
    uses: Seq<ClientUse>,
    child: bool,
    events: Seq<StartEventView>,
)
    requires
        start_outcome(v, first_child, first) matches Some(Err(_)),
        !starts_in(start_run(v, first_child, first).client, uses),
    ensures
        ({
            let later = after_uses(start_run(v, first_child, first).client, uses);
            &&& lsp::spawn_wanted(later, child)
            &&& start_outcome(later, child, events) == Some(Ok::<(), LspErrorView>(()))
                ==> handshake_completed(later, child, events)
        }),
{
    lemma_only_wanted_fails(v, first_child, first);
    lemma_stages(v, first_child, first);
    law_start_after_failures_needs_a_handshake(
        start_run(v, first_child, first).client,
        uses,
        child,
        events,
    );
}

/// A start that was not wanted succeeds at once, and changes nothing.
proof fn lemma_only_wanted_fails(v: ClientView, child: bool, events: Seq<StartEventView>)
    ensures
        !lsp::spawn_wanted(v, child) ==> start_outcome(v, child, events) == Some(
            Ok::<(), LspErrorView>(()),
        ) && start_run(v, child, events).client == v,
    decreases events.len(),
{
    if events.len() > 0 {
        lemma_only_wanted_fails(v, child, events.drop_last());
        lemma_over(v, child, events.drop_last());
    }
}

/// Once a handshake has begun, and until one is completed, rust-analyzer has to
/// be started, whether there is a child or not, however the client is used.
pub proof fn law_begun_handshake_is_no_start(v: ClientView, uses: Seq<ClientUse>, child: bool)
    requires
        !starts_in(lsp::handshake_begun(v), uses),
    ensures
        lsp::spawn_wanted(after_uses(lsp::handshake_begun(v), uses), child),
{
    lemma_not_ready(lsp::handshake_begun(v), uses);
}

/// Whether a use is no start without a child.
pub open spec fn keeps_child(used: ClientUse) -> bool {
    match used {
        ClientUse::Started { child, .. } => child,
        _ => true,
    }
}

/// After a success starting again does nothing, as long as there is a child:
/// however the client was used since, it succeeds at once and leaves the
/// client as it is.
pub proof fn law_start_after_success_does_nothing(v: ClientView, uses: Seq<ClientUse>)
    requires
        v.ready,
        forall|i: int| 0 <= i < uses.len() ==> keeps_child(#[trigger] uses[i]),
    ensures
        start_made(after_uses(v, uses), true) == ended(Ok(()), after_uses(v, uses)),
    decreases uses.len(),
{
    if uses.len() > 0 {
        let before = uses.drop_last();
        assert forall|i: int| 0 <= i < before.len() implies keeps_child(#[trigger] before[i]) by {
            assert(before[i] == uses[i]);
        }
        law_start_after_success_does_nothing(v, before);
        assert(keeps_child(uses[uses.len() - 1]));
        match uses.last() {
            ClientUse::Started { child, events } => {
                lemma_only_wanted_fails(after_uses(v, before), child, events);
            },
            _ => {},
        }
    }
}

/// Whether a step ends the start with an outcome.
pub open spec fn ends_with(step: StartStep, r: Result<(), LspErrorView>) -> bool {
    step.action == StartActionView::Done(r) && step.start is Over
}

/// A start opens its log, launches the binary that is configured, and greets it
/// with the workspace, under the next number; what stands in the way ends it and is
/// told.
pub proof fn law_start_launches_and_greets(
    v: ClientView,
    own_pid: u32,
    id: u64,
    now_ns: u128,
    e: IoErrorView,
)
    ensures
        ({
            let opened = start_step(
                StartView::Opening,
                StartEventView::Opened { failure: None },
                v,
            );
            &&& opened.start is Launching
            &&& opened.action == (StartActionView::Launch { binary: v.binary })
        }),
        ends_with(
            start_step(StartView::Opening, StartEventView::Opened { failure: Some(e) }, v),
            Err(LspErrorView::Io(e)),
        ),
        ends_with(
            start_step(StartView::Launching, StartEventView::NotLaunched(e), v),
            Err(LspErrorView::Spawn { binary: v.binary, source: e }),
        ),
        ({
            let launched = start_step(
                StartView::Launching,
                StartEventView::Launched { own_pid, stdin: true, stdout: true },
                v,
            );
            let message = launched.action->message;
            &&& launched.start == (StartView::Greeting { id: v.next_id })
            &&& launched.action is Send
            &&& json::json_get(message, "method"@) == Some(JsonView::Str("initialize"@))
            &&& json::json_get(message, "id"@) == Some(json::json_int(v.next_id as int))
            &&& json::json_get(message, "params"@) == Some(
                lsp::initialize_params(own_pid, v.workspace),
            )
        }),
        ends_with(
            start_step(
                StartView::Launching,
                StartEventView::Launched { own_pid, stdin: false, stdout: true },
                v,
            ),
            Err(LspErrorView::Protocol("rust-analyzer "@ + "stdin"@ + " handle missing"@)),
        ),
        ends_with(
            start_step(
                StartView::Launching,
                StartEventView::Launched { own_pid, stdin: true, stdout: false },
                v,
            ),
            Err(LspErrorView::Protocol("rust-analyzer "@ + "stdout"@ + " handle missing"@)),
        ),
        ({
            let sent = start_step(
                StartView::Greeting { id },
                StartEventView::Sent { result: Ok(()), now_ns },
                v,
            );
            &&& sent.action is CheckClock
            &&& sent.start is Waiting
            &&& sent.start->exchange.id == id
            &&& sent.start->exchange.purpose == Purpose::Handshake
            &&& sent.start->exchange.method == "initialize"@
            &&& sent.start->exchange.timeout_s == 15
            &&& sent.start->exchange.log_path == v.log_path
            &&& now_ns + 15_000_000_000 <= u128::MAX ==> sent.start->exchange.deadline_ns
                == now_ns + 15_000_000_000
        }),
{
    lsp_messages::law_messages_carry_their_parts(
        v.next_id as int,
        "initialize"@,
        lsp::initialize_params(own_pid, v.workspace),
    );
    lsp_messages::law_deadline_is_its_seconds_away(now_ns, 15);
}

/// An answer to the greeting is acknowledged, and the start is over with success,
/// the client ready, once that is sent; an answer that is an error, or does not
/// come, ends the start with it.
pub proof fn law_start_ends_with_the_handshake(
    v: ClientView,
    x: ExchangeView,
    heard: HeardView,
    now_ns: u128,
    e: LspErrorView,
)
    ensures
        ({
            let step = start_step(
                StartView::Waiting { exchange: x },
                StartEventView::Heard(heard),
                v,
            );
            match lsp::listen(x, heard) {
                ListeningView::Done(Ok(_)) => {
                    &&& step.start is Acknowledging
                    &&& step.action is Send
                    &&& json::json_get(step.action->message, "method"@) == Some(
                        JsonView::Str("initialized"@),
                    )
                    &&& json::json_get(step.action->message, "id"@) is None
                },
                ListeningView::Done(Err(failure)) => ends_with(step, Err(failure)),
                ListeningView::Read => step.action is Read && step.start == (
                StartView::Waiting { exchange: x }),
                ListeningView::CheckClock => step.action is CheckClock && step.start == (
                StartView::Waiting { exchange: x }),
            }
        }),
        ends_with(
            start_step(
                StartView::Acknowledging,
                StartEventView::Sent { result: Ok(()), now_ns },
                v,
            ),
            Ok(()),
        ),
        start_step(
            StartView::Acknowledging,
            StartEventView::Sent { result: Ok(()), now_ns },
            v,
        ).client.ready,
        ends_with(
            start_step(
                StartView::Acknowledging,
                StartEventView::Sent { result: Err(e), now_ns },
                v,
            ),
            Err(e),
        ),
{
    lsp_messages::law_messages_carry_their_parts(
        0,
        "initialized"@,
        JsonView::Object(Map::empty()),
    );
}

} // verus!
