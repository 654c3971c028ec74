//! The connection supervisor: a bounded-retry state machine.
//!
//! The supervisor owns the sensor connection's lifecycle. It starts in
//! `Connecting`, runs the ingestion loop while `Active`, and on any
//! disconnect enters `Backoff`, where it attempts to reconnect up to a
//! configured number of consecutive failures before giving up for good.
//!
//! The retry counter is conservative: a successful reconnect alone does not
//! reset it; only sustained connectivity observed while `Active` does. The
//! counter therefore bounds consecutive failed attempts between two
//! confirmations of a live connection.
//!
//! The machine itself is a plain value; the surrounding task feeds it one
//! event at a time and performs whatever `SupervisorAction` comes back
//! (subscribe, race the ingestion loop against the watchdog, attempt a
//! reconnect, or report the fatal condition).

use vstd::prelude::*;

verus! {

/// Where the supervisor stands in the connection lifecycle.
#[derive(Clone, Copy, Debug, PartialEq, Eq, Structural)]
pub enum SupervisorState {
    /// The link is (re)established; a subscription is being set up.
    Connecting,
    /// The ingestion loop is running, raced against the liveness watchdog.
    Active,
    /// The link is down; reconnection is being attempted.
    Backoff,
    /// The retry budget is exhausted. Terminal.
    GivenUp,
}

/// One signal consumed by the supervisor. Per cycle exactly one of the
/// raced signals (`IngestionTerminated`, `WatchdogDisconnect`) is consumed;
/// the loser of the race is abandoned.
#[derive(Clone, Copy, Debug, PartialEq, Eq, Structural)]
pub enum SupervisorEvent {
    /// The subscription is open and the ingestion loop has started.
    SubscriptionEstablished,
    /// The subscription could not be opened; the link counts as down.
    SubscriptionFailed,
    /// The watchdog saw a live connection: connectivity is sustained.
    ConnectivityConfirmed,
    /// The ingestion loop stopped (transport drop or decode fault).
    IngestionTerminated,
    /// The watchdog observed the disconnect first.
    WatchdogDisconnect,
    /// A reconnect attempt succeeded.
    ReconnectSucceeded,
    /// A reconnect attempt failed.
    ReconnectFailed,
}

/// What the surrounding task should do after a step.
#[derive(Clone, Copy, Debug, PartialEq, Eq, Structural)]
pub enum SupervisorAction {
    /// Resolve the characteristic and open the subscription.
    Subscribe,
    /// Run the ingestion loop raced against the liveness watchdog.
    Monitor,
    /// Attempt one reconnect.
    AttemptReconnect,
    /// Stop: surface the fatal condition to the operator.
    ReportFatal,
}

/// The supervisor's entire state: lifecycle phase, consecutive failed
/// reconnect attempts so far, and the configured attempt budget.
#[derive(Clone, Copy, Debug, PartialEq, Eq, Structural)]
pub struct ConnectionSupervisor {
    pub state: SupervisorState,
    pub retries: u32,
    pub max_retries: u32,
}

impl ConnectionSupervisor {
    /// The states the machine actually reaches: the counter never exceeds
    /// the budget and is strictly below it until the machine gives up.
    pub open spec fn wf(self) -> bool {
        &&& self.max_retries >= 1
        &&& self.retries <= self.max_retries
        &&& !(self.state is GivenUp) ==> self.retries < self.max_retries
    }

    /// The transition table. Events that cannot occur in the current state
    /// leave the machine unchanged; `GivenUp` absorbs everything.
    pub open spec fn spec_step(self, event: SupervisorEvent) -> ConnectionSupervisor {
        match (self.state, event) {
            (SupervisorState::Connecting, SupervisorEvent::SubscriptionEstablished) => {
                ConnectionSupervisor { state: SupervisorState::Active, ..self }
            },
            (SupervisorState::Connecting, SupervisorEvent::SubscriptionFailed) => {
                ConnectionSupervisor { state: SupervisorState::Backoff, ..self }
            },
            (SupervisorState::Active, SupervisorEvent::ConnectivityConfirmed) => {
                ConnectionSupervisor { retries: 0, ..self }
            },
            (SupervisorState::Active, SupervisorEvent::IngestionTerminated) => {
                ConnectionSupervisor { state: SupervisorState::Backoff, ..self }
            },
            (SupervisorState::Active, SupervisorEvent::WatchdogDisconnect) => {
                ConnectionSupervisor { state: SupervisorState::Backoff, ..self }
            },
            (SupervisorState::Backoff, SupervisorEvent::ReconnectSucceeded) => {
                ConnectionSupervisor { state: SupervisorState::Connecting, ..self }
            },
            (SupervisorState::Backoff, SupervisorEvent::ReconnectFailed) => {
                if self.retries + 1 < self.max_retries {
                    ConnectionSupervisor {
                        retries: (self.retries + 1) as u32,
                        ..self
                    }
                } else if self.retries < self.max_retries {
                    ConnectionSupervisor {
                        state: SupervisorState::GivenUp,
                        retries: (self.retries + 1) as u32,
                        ..self
                    }
                } else {
                    ConnectionSupervisor { state: SupervisorState::GivenUp, ..self }
                }
            },
            _ => self,
        }
    }

    /// The action owed in each state.
    pub open spec fn spec_action(self) -> SupervisorAction {
        match self.state {
            SupervisorState::Connecting => SupervisorAction::Subscribe,
            SupervisorState::Active => SupervisorAction::Monitor,
            SupervisorState::Backoff => SupervisorAction::AttemptReconnect,
            SupervisorState::GivenUp => SupervisorAction::ReportFatal,
        }
    }

    /// A fresh supervisor for a session that has just connected once:
    /// `Connecting`, with the whole retry budget ahead of it.
    pub fn new(max_retries: u32) -> (s: Self)
        requires
            max_retries >= 1,
        ensures
            s == (ConnectionSupervisor {
                state: SupervisorState::Connecting,
                retries: 0,
                max_retries,
            }),
            s.wf(),
    {
        ConnectionSupervisor { state: SupervisorState::Connecting, retries: 0, max_retries }
    }

    /// Consume one event and say what to do next.
    pub fn step(&mut self, event: SupervisorEvent) -> (a: SupervisorAction)
        ensures
            *final(self) == old(self).spec_step(event),
            a == final(self).spec_action(),
            old(self).wf() ==> final(self).wf(),
    {
        match (self.state, event) {
            (SupervisorState::Connecting, SupervisorEvent::SubscriptionEstablished) => {
                self.state = SupervisorState::Active;
            },
            (SupervisorState::Connecting, SupervisorEvent::SubscriptionFailed) => {
                self.state = SupervisorState::Backoff;
            },
            (SupervisorState::Active, SupervisorEvent::ConnectivityConfirmed) => {
                self.retries = 0;
            },
            (SupervisorState::Active, SupervisorEvent::IngestionTerminated) => {
                self.state = SupervisorState::Backoff;
            },
            (SupervisorState::Active, SupervisorEvent::WatchdogDisconnect) => {
                self.state = SupervisorState::Backoff;
            },
            (SupervisorState::Backoff, SupervisorEvent::ReconnectSucceeded) => {
                self.state = SupervisorState::Connecting;
            },
            (SupervisorState::Backoff, SupervisorEvent::ReconnectFailed) => {
                if self.retries < self.max_retries {
                    self.retries = self.retries + 1;
                }
                if self.retries >= self.max_retries {
                    self.state = SupervisorState::GivenUp;
                }
            },
            _ => {},
        }
        self.action()
    }

    /// The action owed in the current state.
    pub fn action(&self) -> (a: SupervisorAction)
        ensures
            a == self.spec_action(),
    {
        match self.state {
            SupervisorState::Connecting => SupervisorAction::Subscribe,
            SupervisorState::Active => SupervisorAction::Monitor,
            SupervisorState::Backoff => SupervisorAction::AttemptReconnect,
            SupervisorState::GivenUp => SupervisorAction::ReportFatal,
        }
    }

    /// Whether the supervisor has stopped for good.
    pub fn has_given_up(&self) -> (b: bool)
        ensures
            b == (self.state is GivenUp),
    {
        matches!(self.state, SupervisorState::GivenUp)
    }
}

/// The machine after a whole sequence of events, applied in order.
pub open spec fn spec_run(s: ConnectionSupervisor, events: Seq<SupervisorEvent>)
    -> ConnectionSupervisor
    decreases events.len(),
{
    if events.len() == 0 {
        s
    } else {
        spec_run(s.spec_step(events[0]), events.skip(1))
    }
}

/// The same event, `n` times over.
pub open spec fn repeated(event: SupervisorEvent, n: nat) -> Seq<SupervisorEvent> {
    Seq::new(n, |i: int| event)
}

/// Every step preserves well-formedness.
pub proof fn lemma_step_preserves_wf(s: ConnectionSupervisor, event: SupervisorEvent)
    requires
        s.wf(),
    ensures
        s.spec_step(event).wf(),
{
}

/// Law: once the supervisor has given up, it stays given up under every
/// further event, and no state it passes through asks for a reconnect
/// attempt (its one owed action is to report the fatal condition).
pub proof fn lemma_given_up_is_terminal(s: ConnectionSupervisor, events: Seq<SupervisorEvent>)
    requires
        s.state is GivenUp,
    ensures
        spec_run(s, events).state is GivenUp,
        spec_run(s, events).spec_action() == SupervisorAction::ReportFatal,
    decreases events.len(),
{
    if events.len() > 0 {
        lemma_given_up_is_terminal(s.spec_step(events[0]), events.skip(1));
    }
}

/// Running a single event is one step of the transition table.
pub proof fn lemma_run_one(s: ConnectionSupervisor, e: SupervisorEvent)
    ensures
        spec_run(s, seq![e]) == s.spec_step(e),
{
    reveal_with_fuel(spec_run, 2);
    assert(seq![e][0] == e);
    assert(seq![e].skip(1) =~= Seq::<SupervisorEvent>::empty());
}

/// Running a concatenation is running the two halves in turn.
pub proof fn lemma_run_append(
    s: ConnectionSupervisor,
    a: Seq<SupervisorEvent>,
    b: Seq<SupervisorEvent>,
)
    ensures
        spec_run(s, a + b) == spec_run(spec_run(s, a), b),
    decreases a.len(),
{
    if a.len() == 0 {
        assert(a + b =~= b);
    } else {
        assert((a + b)[0] == a[0]);
        assert((a + b).skip(1) =~= a.skip(1) + b);
        lemma_run_append(s.spec_step(a[0]), a.skip(1), b);
    }
}

/// While fewer consecutive failures have happened than the budget allows,
/// the machine is still in `Backoff` and has counted every one of them.
pub proof fn lemma_still_backoff(s: ConnectionSupervisor, j: nat)
    requires
        s.wf(),
        s.state is Backoff,
        s.retries + j < s.max_retries,
    ensures
        spec_run(s, repeated(SupervisorEvent::ReconnectFailed, j)).state is Backoff,
        spec_run(s, repeated(SupervisorEvent::ReconnectFailed, j)).retries == s.retries + j,
        spec_run(s, repeated(SupervisorEvent::ReconnectFailed, j)).max_retries == s.max_retries,
    decreases j,
{
    if j == 0 {
        assert(repeated(SupervisorEvent::ReconnectFailed, 0) =~= Seq::empty());
    } else {
        let t = s.spec_step(SupervisorEvent::ReconnectFailed);
        let evs = repeated(SupervisorEvent::ReconnectFailed, j);
        assert(evs[0] == SupervisorEvent::ReconnectFailed);
        assert(evs.skip(1) =~= repeated(SupervisorEvent::ReconnectFailed, (j - 1) as nat));
        assert(spec_run(s, evs) == spec_run(t, evs.skip(1)));
        lemma_still_backoff(t, (j - 1) as nat);
    }
}

/// Law: from `Backoff`, consecutive failed reconnect attempts exhaust the
/// remaining budget exactly. With `n` failures still allowed, the machine
/// is still in `Backoff` (still retrying) after any fewer than `n`
/// consecutive failures, and gives up on the `n`-th; in particular a fresh
/// counter tolerates exactly the configured maximum.
pub proof fn lemma_retry_exhaustion(s: ConnectionSupervisor, n: nat)
    requires
        s.wf(),
        s.state is Backoff,
        n == s.max_retries - s.retries,
    ensures
        forall|j: nat|
            j < n ==> (#[trigger] spec_run(s, repeated(SupervisorEvent::ReconnectFailed, j)))
                .state is Backoff,
        spec_run(s, repeated(SupervisorEvent::ReconnectFailed, n)).state is GivenUp,
        spec_run(s, repeated(SupervisorEvent::ReconnectFailed, n)).retries == s.max_retries,
{
    assert forall|j: nat| j < n implies (#[trigger] spec_run(
        s,
        repeated(SupervisorEvent::ReconnectFailed, j),
    )).state is Backoff by {
        lemma_still_backoff(s, j);
    }
    let before = repeated(SupervisorEvent::ReconnectFailed, (n - 1) as nat);
    let last = seq![SupervisorEvent::ReconnectFailed];
    assert(repeated(SupervisorEvent::ReconnectFailed, n) =~= before + last);
    lemma_run_append(s, before, last);
    lemma_still_backoff(s, (n - 1) as nat);
    let u = spec_run(s, before);
    lemma_run_one(u, SupervisorEvent::ReconnectFailed);
}

/// Law: a successful reconnect followed by sustained connectivity resets
/// the counter. From `Backoff` the machine walks back to `Active`, the
/// watchdog's confirmation zeroes the counter, and a later disconnect then
/// has the whole budget of consecutive failures ahead of it again.
pub proof fn lemma_sustained_connectivity_resets(s: ConnectionSupervisor)
    requires
        s.wf(),
        s.state is Backoff,
    ensures
        ({
            let t = spec_run(
                s,
                seq![
                    SupervisorEvent::ReconnectSucceeded,
                    SupervisorEvent::SubscriptionEstablished,
                    SupervisorEvent::ConnectivityConfirmed,
                ],
            );
            &&& t.state is Active
            &&& t.retries == 0
            &&& t.max_retries == s.max_retries
            &&& t.wf()
            &&& ({
                let b = t.spec_step(SupervisorEvent::IngestionTerminated);
                &&& forall|j: nat|
                    j < s.max_retries ==> (#[trigger] spec_run(
                        b,
                        repeated(SupervisorEvent::ReconnectFailed, j),
                    )).state is Backoff
                &&& spec_run(
                    b,
                    repeated(SupervisorEvent::ReconnectFailed, s.max_retries as nat),
                ).state is GivenUp
            })
        }),
{
    let events = seq![
        SupervisorEvent::ReconnectSucceeded,
        SupervisorEvent::SubscriptionEstablished,
        SupervisorEvent::ConnectivityConfirmed,
    ];
    let s1 = s.spec_step(SupervisorEvent::ReconnectSucceeded);
    let s2 = s1.spec_step(SupervisorEvent::SubscriptionEstablished);
    let s3 = s2.spec_step(SupervisorEvent::ConnectivityConfirmed);
    let tail1 = seq![
        SupervisorEvent::SubscriptionEstablished,
        SupervisorEvent::ConnectivityConfirmed,
    ];
    let tail2 = seq![SupervisorEvent::ConnectivityConfirmed];
    assert(events[0] == SupervisorEvent::ReconnectSucceeded);
    assert(events.skip(1) =~= tail1);
    assert(spec_run(s, events) == spec_run(s1, tail1));
    assert(tail1[0] == SupervisorEvent::SubscriptionEstablished);
    assert(tail1.skip(1) =~= tail2);
    assert(spec_run(s1, tail1) == spec_run(s2, tail2));
    lemma_run_one(s2, SupervisorEvent::ConnectivityConfirmed);
    assert(spec_run(s2, tail2) == s3);
    let b = s3.spec_step(SupervisorEvent::IngestionTerminated);
    lemma_retry_exhaustion(b, s.max_retries as nat);
}

} // verus!
