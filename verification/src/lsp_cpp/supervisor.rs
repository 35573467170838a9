//! Restart policy for the long-lived clangd child.
//!
//! The policy is pure data: counters, timestamps and a state label. Whoever
//! owns the child process tells it what happened and at what time, and asks
//! before each request whether to go on.
//!
//! ```text
//!   Stopped --spawn--> Running --exit--> Backoff(d) --d elapsed--> Stopped
//!                                   \--> Failed --window slides--> Stopped
//! ```
//!
//! Times are nanoseconds on a monotonic clock whose origin does not matter.
use vstd::prelude::*;

verus! {

/// Backoff after the first crash, in nanoseconds. Doubled on each further
/// crash up to [`MAX_BACKOFF_NS`].
pub const INITIAL_BACKOFF_NS: u64 = 1_000_000_000;

/// Cap on the backoff.
pub const MAX_BACKOFF_NS: u64 = 16_000_000_000;

/// An uptime of at least this long starts the backoff curve again at
/// [`INITIAL_BACKOFF_NS`].
pub const HEALTHY_UPTIME_RESET_NS: u64 = 60_000_000_000;

/// Sliding window over which restarts are counted.
pub const RESTART_WINDOW_NS: u64 = 300_000_000_000;

/// Number of restarts inside the window at which the policy gives up until
/// the window slides on.
pub const MAX_RESTARTS_IN_WINDOW: usize = 5;

/// Logical state of the supervised child.
#[derive(Debug, Clone, Copy, PartialEq, Eq, Structural)]
pub enum SupervisorState {
    /// No child: nothing was spawned yet, or a backoff or a failed window is
    /// over.
    Stopped,
    /// A child was spawned and is believed alive.
    Running,
    /// The child exited; the next spawn waits.
    Backoff {
        /// Length of the wait, counted from the exit.
        duration_ns: u64,
    },
    /// Too many restarts inside the window.
    Failed,
}

/// Why the most recent restart happened.
#[derive(Debug, Clone, PartialEq, Eq)]
pub enum RestartReason {
    /// First spawn.
    InitialSpawn,
    /// The child exited with a code.
    ChildExited {
        /// The exit code.
        code: i32,
    },
    /// The child was killed by a signal.
    ChildSignaled {
        /// The signal number, `0` where it is not known.
        signal: i32,
    },
    /// The liveness probe itself failed.
    WaitFailed {
        /// What the probe reported.
        message: String,
    },
    /// A request ended in a broken pipe or an unexpected end of stream.
    BrokenPipe,
}

/// What [`RestartReason`] stands for.
pub enum ReasonView {
    InitialSpawn,
    ChildExited { code: i32 },
    ChildSignaled { signal: i32 },
    WaitFailed { message: Seq<char> },
    BrokenPipe,
}

impl View for RestartReason {
    type V = ReasonView;

    open spec fn view(&self) -> ReasonView {
        match self {
            RestartReason::InitialSpawn => ReasonView::InitialSpawn,
            RestartReason::ChildExited { code } => ReasonView::ChildExited { code: *code },
            RestartReason::ChildSignaled { signal } => ReasonView::ChildSignaled { signal: *signal },
            RestartReason::WaitFailed { message } => ReasonView::WaitFailed { message: message@ },
            RestartReason::BrokenPipe => ReasonView::BrokenPipe,
        }
    }
}

/// The tag under which a reason is reported.
pub open spec fn reason_tag(reason: ReasonView) -> Seq<char> {
    match reason {
        ReasonView::InitialSpawn => "initial_spawn"@,
        ReasonView::ChildExited { .. } => "child_exited"@,
        ReasonView::ChildSignaled { .. } => "child_signaled"@,
        ReasonView::WaitFailed { .. } => "wait_failed"@,
        ReasonView::BrokenPipe => "broken_pipe"@,
    }
}

impl RestartReason {
    /// Stable tag for the status payload.
    pub fn as_tag(&self) -> (tag: &'static str)
        ensures
            tag@ == reason_tag(self@),
    {
        match self {
            RestartReason::InitialSpawn => "initial_spawn",
            RestartReason::ChildExited { .. } => "child_exited",
            RestartReason::ChildSignaled { .. } => "child_signaled",
            RestartReason::WaitFailed { .. } => "wait_failed",
            RestartReason::BrokenPipe => "broken_pipe",
        }
    }
}

/// Answer of the policy at a request boundary.
#[derive(Debug, Clone, Copy, PartialEq, Eq, Structural)]
pub enum RetryDecision {
    /// Go on with the request.
    Proceed,
    /// The child is dead and its backoff is not over.
    Wait {
        /// What is left of the backoff.
        wait_ns: u64,
    },
    /// The restart budget is used up.
    Fail {
        /// Time until the oldest counted restart leaves the window.
        retry_after_ns: u64,
    },
}

/// What a [`SupervisorPolicy`] knows.
#[verifier::ext_equal]
pub struct PolicyView {
    pub state: SupervisorState,
    /// Times of the restarts that still count, in the order of their recording.
    pub history: Seq<u128>,
    pub last_spawn: Option<u128>,
    /// When the current state was entered; `None` before the first spawn.
    pub entered: Option<u128>,
    pub last_reason: Option<ReasonView>,
    pub total_restarts: u64,
    /// Backoff of the latest crash, `0` when none counts.
    pub backoff: u64,
    pub probe_ns: u64,
}

/// A fresh policy: nothing spawned, nothing counted.
pub open spec fn fresh_policy() -> PolicyView {
    PolicyView {
        state: SupervisorState::Stopped,
        history: Seq::empty(),
        last_spawn: None,
        entered: None,
        last_reason: None,
        total_restarts: 0,
        backoff: 0,
        probe_ns: 0,
    }
}

/// Time from `then` to `now`, nothing if the clock went back, kept modulo the
/// width of a nanosecond counter.
pub open spec fn elapsed(now: u128, since: u128) -> u64 {
    if now >= since {
        ((now - since) % 0x1_0000_0000_0000_0000) as u64
    } else {
        0
    }
}

/// A restart at `ts` still counts at `now`.
pub open spec fn in_window(now: u128, ts: u128) -> bool {
    now - ts <= RESTART_WINDOW_NS
}

/// The restarts of `history` that still count at `now`.
pub open spec fn pruned(history: Seq<u128>, now: u128) -> Seq<u128> {
    history.filter(|ts: u128| in_window(now, ts))
}

/// Backoff of a crash that follows one with backoff `previous`.
pub open spec fn doubled_backoff(previous: u64) -> u64 {
    if previous < INITIAL_BACKOFF_NS {
        INITIAL_BACKOFF_NS
    } else if previous > MAX_BACKOFF_NS / 2 {
        MAX_BACKOFF_NS
    } else {
        (2 * previous) as u64
    }
}

/// Uptime of the child that exits at `now`.
pub open spec fn exit_uptime(p: PolicyView, now: u128) -> u64 {
    match p.last_spawn {
        Some(spawned) => elapsed(now, spawned),
        None => 0,
    }
}

/// Backoff that an exit at `now` leads to.
pub open spec fn next_backoff(p: PolicyView, now: u128) -> u64 {
    if exit_uptime(p, now) >= HEALTHY_UPTIME_RESET_NS {
        INITIAL_BACKOFF_NS
    } else {
        doubled_backoff(p.backoff)
    }
}

/// The policy after a spawn at `now`.
pub open spec fn after_spawn(p: PolicyView, now: u128) -> PolicyView {
    PolicyView {
        state: SupervisorState::Running,
        last_spawn: Some(now),
        entered: Some(now),
        last_reason: if p.last_spawn is None {
            Some(ReasonView::InitialSpawn)
        } else {
            p.last_reason
        },
        ..p
    }
}

/// The policy after the child exited at `now`.
pub open spec fn after_exit(p: PolicyView, now: u128, reason: ReasonView) -> PolicyView {
    let history = pruned(p.history.push(now), now);
    let backoff = next_backoff(p, now);
    PolicyView {
        state: if history.len() >= MAX_RESTARTS_IN_WINDOW {
            SupervisorState::Failed
        } else {
            SupervisorState::Backoff { duration_ns: backoff }
        },
        history,
        entered: Some(now),
        last_reason: Some(reason),
        total_restarts: p.total_restarts.wrapping_add(1),
        backoff,
        ..p
    }
}

/// Time for which the policy has been in its state.
pub open spec fn uptime(p: PolicyView, now: u128) -> u64 {
    match p.entered {
        Some(entered) => elapsed(now, entered),
        None => 0,
    }
}

/// What is left of the window for the oldest counted restart.
pub open spec fn window_left(history: Seq<u128>, now: u128) -> u64 {
    let oldest = if history.len() > 0 { history[0] } else { now };
    if elapsed(now, oldest) >= RESTART_WINDOW_NS {
        0
    } else {
        (RESTART_WINDOW_NS - elapsed(now, oldest)) as u64
    }
}

/// The decision at `now` and the policy after it was taken.
pub open spec fn retry_step(p: PolicyView, now: u128) -> (PolicyView, RetryDecision) {
    match p.state {
        SupervisorState::Stopped | SupervisorState::Running => (p, RetryDecision::Proceed),
        SupervisorState::Backoff { duration_ns } => {
            if uptime(p, now) >= duration_ns {
                (
                    PolicyView { state: SupervisorState::Stopped, entered: Some(now), ..p },
                    RetryDecision::Proceed,
                )
            } else {
                (p, RetryDecision::Wait { wait_ns: (duration_ns - uptime(p, now)) as u64 })
            }
        },
        SupervisorState::Failed => {
            let history = pruned(p.history, now);
            if history.len() < MAX_RESTARTS_IN_WINDOW {
                (
                    PolicyView {
                        state: SupervisorState::Stopped,
                        history,
                        entered: Some(now),
                        backoff: 0,
                        ..p
                    },
                    RetryDecision::Proceed,
                )
            } else {
                (
                    PolicyView { history, ..p },
                    RetryDecision::Fail { retry_after_ns: window_left(history, now) },
                )
            }
        },
    }
}

/// Exact elapsed nanoseconds between two clock readings.
fn elapsed_ns(now: u128, since: u128) -> (ns: u64)
    ensures
        ns == elapsed(now, since),
{
    (now.saturating_sub(since) % 0x1_0000_0000_0000_0000) as u64
}

/// Restart policy. It holds no process handle and reads no clock.
#[derive(Debug)]
pub struct SupervisorPolicy {
    state: SupervisorState,
    restart_history_ns: Vec<u128>,
    last_spawn_ns: Option<u128>,
    state_entered_ns: Option<u128>,
    last_reason: Option<RestartReason>,
    total_restarts: u64,
    current_backoff_ns: u64,
    try_wait_total_ns: u64,
}

impl View for SupervisorPolicy {
    type V = PolicyView;

    closed spec fn view(&self) -> PolicyView {
        PolicyView {
            state: self.state,
            history: self.restart_history_ns@,
            last_spawn: self.last_spawn_ns,
            entered: self.state_entered_ns,
            last_reason: match self.last_reason {
                Some(reason) => Some(reason@),
                None => None,
            },
            total_restarts: self.total_restarts,
            backoff: self.current_backoff_ns,
            probe_ns: self.try_wait_total_ns,
        }
    }
}

impl SupervisorPolicy {
    /// A policy that has seen nothing yet.
    pub fn new() -> (policy: Self)
        ensures
            policy@ == fresh_policy(),
    {
        SupervisorPolicy {
            state: SupervisorState::Stopped,
            restart_history_ns: Vec::new(),
            last_spawn_ns: None,
            state_entered_ns: None,
            last_reason: None,
            total_restarts: 0,
            current_backoff_ns: 0,
            try_wait_total_ns: 0,
        }
    }

    /// The current state.
    pub fn current_state(&self) -> (state: &SupervisorState)
        ensures
            *state == self@.state,
    {
        &self.state
    }

    /// Number of exits ever recorded. It does not decay with the window.
    pub fn total_restarts(&self) -> (n: u64)
        ensures
            n == self@.total_restarts,
    {
        self.total_restarts
    }

    /// The most recent restart reason.
    pub fn last_reason(&self) -> (reason: Option<&RestartReason>)
        ensures
            match reason {
                Some(r) => self@.last_reason == Some(r@),
                None => self@.last_reason is None,
            },
    {
        self.last_reason.as_ref()
    }

    /// Backoff of the latest crash, `0` when none counts.
    pub fn current_backoff_ns(&self) -> (ns: u64)
        ensures
            ns == self@.backoff,
    {
        self.current_backoff_ns
    }

    /// Total time spent in liveness probes.
    pub fn try_wait_total_ns(&self) -> (ns: u64)
        ensures
            ns == self@.probe_ns,
    {
        self.try_wait_total_ns
    }

    /// Adds the cost of one liveness probe; the total sticks at its maximum.
    pub fn record_try_wait_ns(&mut self, ns: u64)
        ensures
            final(self)@ == (PolicyView {
                probe_ns: if old(self)@.probe_ns + ns <= u64::MAX {
                    (old(self)@.probe_ns + ns) as u64
                } else {
                    u64::MAX
                },
                ..old(self)@
            }),
    {
        self.try_wait_total_ns = self.try_wait_total_ns.saturating_add(ns);
    }

    /// Time since the current state was entered, whatever the state; zero
    /// before the first spawn.
    pub fn current_uptime_ns(&self, now_ns: u128) -> (ns: u64)
        ensures
            ns == uptime(self@, now_ns),
    {
        match self.state_entered_ns {
            Some(anchor_ns) => elapsed_ns(now_ns, anchor_ns),
            None => 0,
        }
    }

    /// Records a successful spawn at `now_ns`.
    pub fn record_spawn(&mut self, now_ns: u128)
        ensures
            final(self)@ == after_spawn(old(self)@, now_ns),
    {
        let is_initial = self.last_spawn_ns.is_none();
        self.last_spawn_ns = Some(now_ns);
        self.state_entered_ns = Some(now_ns);
        self.state = SupervisorState::Running;
        if is_initial {
            self.last_reason = Some(RestartReason::InitialSpawn);
        }
    }

    /// Records that the child exited, seen at `now_ns`.
    pub fn record_exit(&mut self, reason: RestartReason, now_ns: u128)
        ensures
            final(self)@ == after_exit(old(self)@, now_ns, reason@),
    {
        let uptime_ns: u64 = match self.last_spawn_ns {
            Some(spawn_ns) => elapsed_ns(now_ns, spawn_ns),
            None => 0,
        };
        let next_backoff_ns: u64 = if uptime_ns >= HEALTHY_UPTIME_RESET_NS {
            INITIAL_BACKOFF_NS
        } else if self.current_backoff_ns < INITIAL_BACKOFF_NS {
            INITIAL_BACKOFF_NS
        } else if self.current_backoff_ns > MAX_BACKOFF_NS / 2 {
            MAX_BACKOFF_NS
        } else {
            2 * self.current_backoff_ns
        };

        self.total_restarts = self.total_restarts.wrapping_add(1);
        self.last_reason = Some(reason);
        self.restart_history_ns.push(now_ns);
        self.prune_history(now_ns);
        self.current_backoff_ns = next_backoff_ns;
        self.state_entered_ns = Some(now_ns);
        if self.restart_history_ns.len() >= MAX_RESTARTS_IN_WINDOW {
            self.state = SupervisorState::Failed;
        } else {
            self.state = SupervisorState::Backoff { duration_ns: next_backoff_ns };
        }
    }

    /// Decides, before a request is dispatched at `now_ns`, whether to go on.
    /// A backoff or a failed window that is over takes the policy back to
    /// `Stopped`; otherwise the state stays as it is.
    pub fn should_retry(&mut self, now_ns: u128) -> (decision: RetryDecision)
        ensures
            (final(self)@, decision) == retry_step(old(self)@, now_ns),
    {
        match self.state {
            SupervisorState::Stopped | SupervisorState::Running => RetryDecision::Proceed,
            SupervisorState::Backoff { duration_ns } => {
                let elapsed: u64 = self.current_uptime_ns(now_ns);
                if elapsed >= duration_ns {
                    self.state = SupervisorState::Stopped;
                    self.state_entered_ns = Some(now_ns);
                    RetryDecision::Proceed
                } else {
                    RetryDecision::Wait { wait_ns: duration_ns - elapsed }
                }
            },
            SupervisorState::Failed => {
                self.prune_history(now_ns);
                if self.restart_history_ns.len() < MAX_RESTARTS_IN_WINDOW {
                    self.state = SupervisorState::Stopped;
                    self.state_entered_ns = Some(now_ns);
                    self.current_backoff_ns = 0;
                    RetryDecision::Proceed
                } else {
                    let oldest: u128 = self.restart_history_ns[0];
                    let gone: u64 = elapsed_ns(now_ns, oldest);
                    RetryDecision::Fail { retry_after_ns: RESTART_WINDOW_NS.saturating_sub(gone) }
                }
            },
        }
    }

    /// Drops the restarts that no longer count at `now_ns`.
    fn prune_history(&mut self, now_ns: u128)
        ensures
            final(self)@ == (PolicyView {
                history: pruned(old(self)@.history, now_ns),
                ..old(self)@
            }),
    {
        let ghost counts = |ts: u128| in_window(now_ns, ts);
        let mut kept: Vec<u128> = Vec::new();
        let mut i: usize = 0;
        while i < self.restart_history_ns.len()
            invariant
                i <= self.restart_history_ns.len(),
                counts == (|ts: u128| in_window(now_ns, ts)),
                kept@ == self.restart_history_ns@.subrange(0, i as int).filter(counts),
            decreases self.restart_history_ns.len() - i,
        {
            let ts: u128 = self.restart_history_ns[i];
            proof {
                let seen = self.restart_history_ns@.subrange(0, i + 1);
                assert(seen.drop_last() =~= self.restart_history_ns@.subrange(0, i as int));
                assert(seen.last() == ts);
                reveal(Seq::filter);
            }
            if now_ns.saturating_sub(ts) <= RESTART_WINDOW_NS as u128 {
                kept.push(ts);
            }
            i += 1;
        }
        assert(self.restart_history_ns@.subrange(0, i as int) =~= self.restart_history_ns@);
        self.restart_history_ns = kept;
    }
}

/// What holds of a policy at all times: the backoff stays on its curve, each
/// state has its anchor, and the budget decides between `Backoff` and `Failed`.
pub open spec fn policy_inv(p: PolicyView) -> bool {
    &&& p.backoff == 0 || INITIAL_BACKOFF_NS <= p.backoff <= MAX_BACKOFF_NS
    &&& !(p.state is Stopped) ==> p.entered is Some
    &&& p.state is Running ==> p.last_spawn is Some
    &&& p.state is Failed ==> p.history.len() >= MAX_RESTARTS_IN_WINDOW
    &&& p.state matches SupervisorState::Backoff { duration_ns } ==> {
        &&& duration_ns == p.backoff
        &&& duration_ns >= INITIAL_BACKOFF_NS
        &&& p.history.len() < MAX_RESTARTS_IN_WINDOW
    }
}

/// Every operation keeps [`policy_inv`], and a fresh policy has it.
pub proof fn law_policy_invariant(p: PolicyView, now: u128, reason: ReasonView)
    requires
        policy_inv(p),
    ensures
        policy_inv(fresh_policy()),
        policy_inv(after_spawn(p, now)),
        policy_inv(after_exit(p, now, reason)),
        policy_inv(retry_step(p, now).0),
{
}

/// Backoff after a number of crashes, none of which followed a healthy uptime.
pub open spec fn backoff_after(crashes: nat) -> u64
    decreases crashes,
{
    if crashes == 0 {
        0
    } else {
        doubled_backoff(backoff_after((crashes - 1) as nat))
    }
}

/// The curve is 1, 2, 4, 8 and 16 seconds and stays at 16 seconds.
pub proof fn law_backoff_curve(crashes: nat)
    ensures
        backoff_after(1) == 1_000_000_000,
        backoff_after(2) == 2_000_000_000,
        backoff_after(3) == 4_000_000_000,
        backoff_after(4) == 8_000_000_000,
        crashes >= 5 ==> backoff_after(crashes) == 16_000_000_000,
    decreases crashes,
{
    reveal_with_fuel(backoff_after, 6);
    if crashes > 5 {
        law_backoff_curve((crashes - 1) as nat);
    }
}

/// One spawn followed by one exit.
pub struct Cycle {
    pub spawned: u128,
    pub exited: u128,
    pub reason: ReasonView,
}

/// The policy after a run of spawns and exits.
pub open spec fn after_cycles(p: PolicyView, cycles: Seq<Cycle>) -> PolicyView
    decreases cycles.len(),
{
    if cycles.len() == 0 {
        p
    } else {
        let c = cycles.last();
        after_exit(
            after_spawn(after_cycles(p, cycles.drop_last()), c.spawned),
            c.exited,
            c.reason,
        )
    }
}

/// A run of crashes without a healthy uptime among them climbs the backoff
/// curve; one healthy uptime starts the curve again.
pub proof fn law_crash_run_backoff(cycles: Seq<Cycle>, healthy: Cycle)
    requires
        forall|i: int|
            #![trigger cycles[i]]
            0 <= i < cycles.len() ==> elapsed(cycles[i].exited, cycles[i].spawned)
                < HEALTHY_UPTIME_RESET_NS,
        elapsed(healthy.exited, healthy.spawned) >= HEALTHY_UPTIME_RESET_NS,
    ensures
        after_cycles(fresh_policy(), cycles).backoff == backoff_after(cycles.len()),
        after_cycles(fresh_policy(), cycles.push(healthy)).backoff == INITIAL_BACKOFF_NS,
    decreases cycles.len(),
{
    if cycles.len() > 0 {
        let before = cycles.drop_last();
        assert forall|i: int|
            #![trigger before[i]]
            0 <= i < before.len() implies elapsed(before[i].exited, before[i].spawned)
            < HEALTHY_UPTIME_RESET_NS by {
            assert(before[i] == cycles[i]);
        }
        law_crash_run_backoff(before, healthy);
        assert(cycles.last() == cycles[cycles.len() - 1]);
    }
    assert(cycles.push(healthy).drop_last() =~= cycles);
}

/// Filtering keeps a sequence whole when the predicate holds throughout.
proof fn lemma_filter_all<A>(s: Seq<A>, keep: spec_fn(A) -> bool)
    requires
        forall|i: int| 0 <= i < s.len() ==> keep(#[trigger] s[i]),
    ensures
        s.filter(keep) == s,
    decreases s.len(),
{
    reveal(Seq::filter);
    if s.len() > 0 {
        assert forall|i: int| 0 <= i < s.drop_last().len() implies keep(
            #[trigger] s.drop_last()[i],
        ) by {
            assert(s.drop_last()[i] == s[i]);
        }
        lemma_filter_all(s.drop_last(), keep);
        assert(keep(s[s.len() - 1]));
        assert(s.drop_last().push(s.last()) =~= s);
    }
}

/// Filtering leaves nothing when the predicate fails throughout.
proof fn lemma_filter_none<A>(s: Seq<A>, keep: spec_fn(A) -> bool)
    requires
        forall|i: int| 0 <= i < s.len() ==> !keep(#[trigger] s[i]),
    ensures
        s.filter(keep).len() == 0,
    decreases s.len(),
{
    reveal(Seq::filter);
    if s.len() > 0 {
        assert forall|i: int| 0 <= i < s.drop_last().len() implies !keep(
            #[trigger] s.drop_last()[i],
        ) by {
            assert(s.drop_last()[i] == s[i]);
        }
        lemma_filter_none(s.drop_last(), keep);
        assert(!keep(s[s.len() - 1]));
    }
}

/// Filtering drops at least one element when the predicate fails on the first.
proof fn lemma_filter_drops_first<A>(s: Seq<A>, keep: spec_fn(A) -> bool)
    requires
        s.len() > 0,
        !keep(s[0]),
    ensures
        s.filter(keep).len() < s.len(),
    decreases s.len(),
{
    reveal(Seq::filter);
    if s.len() > 1 {
        assert(s.drop_last()[0] == s[0]);
        lemma_filter_drops_first(s.drop_last(), keep);
    } else {
        lemma_filter_none(s.drop_last(), keep);
        assert(s.last() == s[0]);
    }
}

/// Crashes that all lie inside one window are all counted, and the policy
/// fails exactly from the fifth on.
pub proof fn law_crashes_in_window_fail(cycles: Seq<Cycle>)
    requires
        cycles.len() > 0,
        forall|i: int, j: int|
            0 <= i <= j < cycles.len() ==> (#[trigger] cycles[i]).exited
                <= (#[trigger] cycles[j]).exited,
        cycles.last().exited - cycles[0].exited <= RESTART_WINDOW_NS,
    ensures
        after_cycles(fresh_policy(), cycles).history == Seq::new(
            cycles.len(),
            |i: int| cycles[i].exited,
        ),
        after_cycles(fresh_policy(), cycles).state is Failed <==> cycles.len()
            >= MAX_RESTARTS_IN_WINDOW,
        cycles.len() < MAX_RESTARTS_IN_WINDOW ==> after_cycles(
            fresh_policy(),
            cycles,
        ).state is Backoff,
    decreases cycles.len(),
{
    let before = cycles.drop_last();
    let now = cycles.last().exited;
    let counted = after_cycles(fresh_policy(), before).history.push(now);
    if before.len() > 0 {
        assert forall|i: int, j: int| 0 <= i <= j < before.len() implies (
        #[trigger] before[i]).exited <= (#[trigger] before[j]).exited by {
            assert(before[i] == cycles[i]);
            assert(before[j] == cycles[j]);
        }
        assert(before.last() == cycles[cycles.len() - 2]);
        assert(before[0] == cycles[0]);
        assert(cycles[cycles.len() - 2].exited <= cycles[cycles.len() - 1].exited);
        law_crashes_in_window_fail(before);
    }
    assert(counted =~= Seq::new(cycles.len(), |i: int| cycles[i].exited));
    assert forall|i: int| 0 <= i < counted.len() implies in_window(now, #[trigger] counted[i]) by {
        assert(cycles[0].exited <= cycles[i].exited);
    }
    lemma_filter_all(counted, |ts: u128| in_window(now, ts));
}

/// What a policy is told, and when.
pub enum PolicyEvent {
    /// A child was spawned.
    Spawned { now: u128 },
    /// A child exited.
    Exited { now: u128, reason: ReasonView },
    /// Whether to go on was asked.
    Asked { now: u128 },
}

/// When a policy was told something.
pub open spec fn event_time(event: PolicyEvent) -> u128 {
    match event {
        PolicyEvent::Spawned { now } => now,
        PolicyEvent::Exited { now, .. } => now,
        PolicyEvent::Asked { now } => now,
    }
}

/// The policy after it was told something.
pub open spec fn after_event(p: PolicyView, event: PolicyEvent) -> PolicyView {
    match event {
        PolicyEvent::Spawned { now } => after_spawn(p, now),
        PolicyEvent::Exited { now, reason } => after_exit(p, now, reason),
        PolicyEvent::Asked { now } => retry_step(p, now).0,
    }
}

/// A fresh policy after a run of events.
pub open spec fn after_run(events: Seq<PolicyEvent>) -> PolicyView
    decreases events.len(),
{
    if events.len() == 0 {
        fresh_policy()
    } else {
        after_event(after_run(events.drop_last()), events.last())
    }
}

/// The times of the exits in a run.
pub open spec fn exit_times(events: Seq<PolicyEvent>) -> Seq<u128>
    decreases events.len(),
{
    if events.len() == 0 {
        Seq::empty()
    } else {
        match events.last() {
            PolicyEvent::Exited { now, .. } => exit_times(events.drop_last()).push(now),
            _ => exit_times(events.drop_last()),
        }
    }
}

/// A run on a clock that does not go back.
pub open spec fn in_time_order(events: Seq<PolicyEvent>) -> bool {
    forall|i: int, j: int|
        0 <= i <= j < events.len() ==> event_time(#[trigger] events[i]) <= event_time(
            #[trigger] events[j],
        )
}

/// What is dropped early would have been dropped later.
proof fn lemma_pruned_twice(history: Seq<u128>, early: u128, late: u128)
    requires
        early <= late,
    ensures
        pruned(pruned(history, early), late) == pruned(history, late),
    decreases history.len(),
{
    reveal(Seq::filter);
    if history.len() > 0 {
        lemma_pruned_twice(history.drop_last(), early, late);
        let kept = pruned(history.drop_last(), early);
        assert(kept.push(history.last()).drop_last() =~= kept);
    }
}

/// A restart more is kept where it still counts.
proof fn lemma_pruned_push(history: Seq<u128>, ts: u128, now: u128)
    ensures
        pruned(history.push(ts), now) == if in_window(now, ts) {
            pruned(history, now).push(ts)
        } else {
            pruned(history, now)
        },
{
    reveal(Seq::filter);
    assert(history.push(ts).drop_last() =~= history);
}

/// From the last event on, the restarts that count are the exits that lie in
/// the window.
proof fn lemma_history_is_exits(events: Seq<PolicyEvent>, now: u128)
    requires
        in_time_order(events),
        events.len() > 0 ==> event_time(events.last()) <= now,
    ensures
        pruned(after_run(events).history, now) == pruned(exit_times(events), now),
    decreases events.len(),
{
    if events.len() > 0 {
        let before = events.drop_last();
        let last = events[events.len() - 1];
        assert(last == events.last());
        assert forall|i: int, j: int| 0 <= i <= j < before.len() implies event_time(
            #[trigger] before[i],
        ) <= event_time(#[trigger] before[j]) by {
            assert(before[i] == events[i]);
            assert(before[j] == events[j]);
        }
        if before.len() > 0 {
            assert(before.last() == events[events.len() - 2]);
        }
        let at = event_time(last);
        lemma_history_is_exits(before, now);
        let history = after_run(before).history;
        match last {
            PolicyEvent::Spawned { .. } => {},
            PolicyEvent::Exited { .. } => {
                lemma_pruned_twice(history.push(at), at, now);
                lemma_pruned_push(history, at, now);
                lemma_pruned_push(exit_times(before), at, now);
            },
            PolicyEvent::Asked { .. } => {
                lemma_pruned_twice(history, at, now);
            },
        }
    }
}

/// Of every run on a clock that does not go back: right after an exit the policy
/// has failed exactly where at least five exits lie in the window that ends
/// with it, and else it backs off.
pub proof fn law_five_exits_in_any_window_fail(events: Seq<PolicyEvent>)
    requires
        in_time_order(events),
        events.len() > 0,
        events.last() is Exited,
    ensures
        ({
            let now = event_time(events.last());
            let exits = pruned(exit_times(events), now).len();
            &&& after_run(events).history == pruned(exit_times(events), now)
            &&& after_run(events).state is Failed <==> exits >= MAX_RESTARTS_IN_WINDOW
            &&& after_run(events).state is Backoff <==> exits < MAX_RESTARTS_IN_WINDOW
        }),
{
    let now = event_time(events.last());
    lemma_history_is_exits(events, now);
    let history = after_run(events.drop_last()).history.push(now);
    lemma_pruned_twice(history, now, now);
}

/// `Failed` is not for ever: once every counted restart has left the window
/// the policy starts afresh.
pub proof fn law_failed_window_expires(p: PolicyView, now: u128)
    requires
        p.state is Failed,
        forall|i: int|
            0 <= i < p.history.len() ==> now - #[trigger] p.history[i] > RESTART_WINDOW_NS,
    ensures
        retry_step(p, now).1 is Proceed,
        retry_step(p, now).0.state is Stopped,
        retry_step(p, now).0.backoff == 0,
        uptime(retry_step(p, now).0, now) == 0,
{
    assert forall|i: int| 0 <= i < p.history.len() implies !(|ts: u128| in_window(now, ts))(
        #[trigger] p.history[i],
    ) by {}
    lemma_filter_none(p.history, |ts: u128| in_window(now, ts));
}

/// The hint of a refusal is positive only inside the window, never longer than
/// it, and sound for a budget that was just used up: right after the hinted
/// time the policy proceeds.
pub proof fn law_retry_after_is_sound(p: PolicyView, now: u128)
    requires
        p.state is Failed,
        retry_step(p, now).1 is Fail,
        now + RESTART_WINDOW_NS < u128::MAX,
    ensures
        retry_step(p, now).1->retry_after_ns <= RESTART_WINDOW_NS,
        retry_step(p, now).0.state is Failed,
        pruned(p.history, now).len() == MAX_RESTARTS_IN_WINDOW && pruned(p.history, now)[0] <= now
            ==> retry_step(
            retry_step(p, now).0,
            (now + retry_step(p, now).1->retry_after_ns + 1) as u128,
        ).1 is Proceed,
{
    let history = pruned(p.history, now);
    let after = retry_step(p, now).0;
    let later = (now + retry_step(p, now).1->retry_after_ns + 1) as u128;
    if history.len() == MAX_RESTARTS_IN_WINDOW && history[0] <= now {
        broadcast use vstd::seq_lib::group_filter_ensures;

        assert(in_window(now, history[0]));
        lemma_filter_drops_first(history, |ts: u128| in_window(later, ts));
    }
}

/// A wait is positive, at most the whole backoff, leaves the policy as it is,
/// and after exactly that time the policy proceeds from `Stopped`.
pub proof fn law_wait_then_proceed(p: PolicyView, now: u128)
    requires
        policy_inv(p),
        retry_step(p, now).1 is Wait,
        p.entered->0 <= now,
        now - p.entered->0 < 0x1_0000_0000_0000_0000,
        now + MAX_BACKOFF_NS <= u128::MAX,
    ensures
        0 < retry_step(p, now).1->wait_ns <= p.backoff,
        retry_step(p, now).0 == p,
        retry_step(p, (now + retry_step(p, now).1->wait_ns) as u128).1 is Proceed,
        retry_step(p, (now + retry_step(p, now).1->wait_ns) as u128).0.state is Stopped,
{
}

/// The decision never touches the counters, and asking a stopped or running
/// policy changes nothing.
pub proof fn law_retry_observes(p: PolicyView, now: u128)
    ensures
        retry_step(p, now).0.total_restarts == p.total_restarts,
        retry_step(p, now).0.last_reason == p.last_reason,
        retry_step(p, now).0.last_spawn == p.last_spawn,
        retry_step(p, now).0.probe_ns == p.probe_ns,
        p.state is Stopped || p.state is Running ==> retry_step(p, now) == (
            p,
            RetryDecision::Proceed,
        ),
{
}

/// The exits of a run that lie at most three hundred seconds before a moment.
pub open spec fn recent_exits(events: Seq<PolicyEvent>, now: u128) -> nat
    decreases events.len(),
{
    if events.len() == 0 {
        0
    } else {
        recent_exits(events.drop_last(), now) + match events.last() {
            PolicyEvent::Exited { now: at, .. } => if now - at <= 300_000_000_000 {
                1nat
            } else {
                0nat
            },
            _ => 0nat,
        }
    }
}

proof fn lemma_recent_exits(events: Seq<PolicyEvent>, now: u128)
    ensures
        pruned(exit_times(events), now).len() == recent_exits(events, now),
    decreases events.len(),
{
    if events.len() > 0 {
        lemma_recent_exits(events.drop_last(), now);
        match events.last() {
            PolicyEvent::Exited { now: at, .. } => {
                lemma_pruned_push(exit_times(events.drop_last()), at, now);
            },
            _ => {},
        }
    } else {
        reveal(Seq::filter);
    }
}

/// Of every run on a clock that does not go back: right after an exit the policy
/// has given up exactly where the last three hundred seconds saw five exits or
/// more, and else it waits.
pub proof fn law_fifth_exit_in_five_minutes_gives_up(events: Seq<PolicyEvent>)
    requires
        in_time_order(events),
        events.len() > 0,
        events.last() is Exited,
    ensures
        ({
            let now = events.last()->Exited_now;
            &&& recent_exits(events, now) >= 5 ==> after_run(events).state
                == SupervisorState::Failed
            &&& recent_exits(events, now) < 5 ==> after_run(events).state is Backoff
        }),
{
    let now = event_time(events.last());
    law_five_exits_in_any_window_fail(events);
    lemma_recent_exits(events, now);
}

/// Number of the exits of a run.
pub open spec fn exit_count(events: Seq<PolicyEvent>) -> nat
    decreases events.len(),
{
    if events.len() == 0 {
        0
    } else {
        exit_count(events.drop_last()) + if events.last() is Exited {
            1nat
        } else {
            0nat
        }
    }
}

/// The count of restarts is the number of exits ever told, and the last reason
/// is that of the last exit.
pub proof fn law_every_exit_is_counted(events: Seq<PolicyEvent>)
    requires
        events.len() <= u64::MAX,
    ensures
        after_run(events).total_restarts == exit_count(events),
        exit_count(events) <= events.len(),
        events.len() > 0 && events.last() is Exited ==> after_run(events).last_reason == Some(
            events.last()->reason,
        ),
        events.len() > 0 && events.last() is Asked ==> after_run(events).last_reason == after_run(
            events.drop_last(),
        ).last_reason,
    decreases events.len(),
{
    if events.len() > 0 {
        law_every_exit_is_counted(events.drop_last());
    }
}

/// After an exit the policy makes every request wait until its backoff is over,
/// by what is left of it, and from then on lets them go on.
pub proof fn law_backoff_is_waited_out(p: PolicyView, exit: u128, reason: ReasonView, now: u128)
    requires
        after_exit(p, exit, reason).state is Backoff,
        exit <= now,
        now - exit <= u64::MAX,
    ensures
        ({
            let q = after_exit(p, exit, reason);
            let wait = q.backoff;
            &&& now - exit < wait ==> retry_step(q, now) == (
                q,
                RetryDecision::Wait { wait_ns: (wait - (now - exit)) as u64 },
            )
            &&& now - exit >= wait ==> retry_step(q, now).1 == RetryDecision::Proceed && retry_step(
                q,
                now,
            ).0.state == SupervisorState::Stopped
        }),
{
    assert((now - exit) % 0x1_0000_0000_0000_0000 == now - exit);
}

/// The first backoff is one second, each crash doubles it up to sixteen, and a
/// child that lived a minute or longer starts it again.
pub proof fn law_backoff_doubles(p: PolicyView, exit: u128, reason: ReasonView)
    requires
        p.last_spawn is Some,
        p.last_spawn->0 <= exit,
        exit - p.last_spawn->0 <= u64::MAX,
        policy_inv(p),
    ensures
        ({
            let lived = exit - p.last_spawn->0;
            let next = after_exit(p, exit, reason).backoff;
            &&& lived >= 60_000_000_000 ==> next == 1_000_000_000
            &&& lived < 60_000_000_000 && p.backoff == 0 ==> next == 1_000_000_000
            &&& lived < 60_000_000_000 && 0 < p.backoff <= 8_000_000_000 ==> next == 2 * p.backoff
            &&& lived < 60_000_000_000 && p.backoff > 8_000_000_000 ==> next == 16_000_000_000
        }),
{
    assert((exit - p.last_spawn->0) % 0x1_0000_0000_0000_0000 == exit - p.last_spawn->0);
}

/// A spawn takes the policy to `Running` at its own time, and every request then
/// goes on.
pub proof fn law_spawned_child_is_running(p: PolicyView, now: u128, later: u128)
    ensures
        after_spawn(p, now).state == SupervisorState::Running,
        retry_step(after_spawn(p, now), later).1 == RetryDecision::Proceed,
        after_spawn(p, now).history == p.history,
        after_spawn(p, now).total_restarts == p.total_restarts,
        now <= later && later - now <= u64::MAX ==> uptime(after_spawn(p, now), later) == later
            - now,
{
    if now <= later && later - now <= u64::MAX {
        assert((later - now) % 0x1_0000_0000_0000_0000 == later - now);
    }
}

/// Each reason has its own tag.
pub proof fn law_reasons_are_told_apart(a: ReasonView, b: ReasonView)
    ensures
        reason_tag(a) == reason_tag(b) <==> {
            ||| a is InitialSpawn && b is InitialSpawn
            ||| a is ChildExited && b is ChildExited
            ||| a is ChildSignaled && b is ChildSignaled
            ||| a is WaitFailed && b is WaitFailed
            ||| a is BrokenPipe && b is BrokenPipe
        },
{
    reveal_strlit("initial_spawn");
    reveal_strlit("child_exited");
    reveal_strlit("child_signaled");
    reveal_strlit("wait_failed");
    reveal_strlit("broken_pipe");
    assert("initial_spawn"@.len() == 13 && "child_exited"@.len() == 12);
    assert("child_signaled"@.len() == 14 && "wait_failed"@.len() == 11);
    assert("broken_pipe"@.len() == 11);
    assert("wait_failed"@[0] != "broken_pipe"@[0]);
}

/// The first spawn is the initial one; a later one leaves the reason of the last
/// exit as it was.
pub proof fn law_first_spawn_is_the_initial_one(p: PolicyView, now: u128, later: u128)
    ensures
        p.last_spawn is None ==> after_spawn(p, now).last_reason == Some(ReasonView::InitialSpawn),
        p.last_spawn is Some ==> after_spawn(p, now).last_reason == p.last_reason,
        after_spawn(after_spawn(p, now), later).last_reason == after_spawn(p, now).last_reason,
        after_spawn(p, now).last_spawn == Some(now),
        after_spawn(p, now).backoff == p.backoff,
{
}

/// A child that exits before one was ever spawned has no uptime, so the wait doubles
/// as for one that crashed at once.
pub proof fn law_exit_without_spawn_is_a_crash(p: PolicyView, now: u128, reason: ReasonView)
    requires
        p.last_spawn is None,
    ensures
        p.backoff == 0 ==> after_exit(p, now, reason).backoff == 1_000_000_000,
        1_000_000_000 <= p.backoff <= 8_000_000_000 ==> after_exit(p, now, reason).backoff == 2
            * p.backoff,
{
}

} // verus!
