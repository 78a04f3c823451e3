//! The decisions of the session supervisor, as a state machine from the last outcome to the
//! next thing to do. The caller performs each action (connect, wait, read the handshake
//! file, take or release exclusive access) and reports what came of it.
use vstd::prelude::*;

verus! {

/// Where the supervisor stands.
#[derive(Clone, Copy, Debug, PartialEq, Eq, Structural)]
pub enum SupervisorState {
    /// No session yet: the caller constructing the driver waits.
    Bootstrapping,
    /// A session is live and requests run against it.
    Live,
    /// The session went stale: exclusive access is held and requests wait.
    Recovering,
}

/// What came of the last action.
#[derive(Clone, Copy, Debug, PartialEq, Eq, Structural)]
pub enum SupervisorEvent {
    /// Locating, reading, building or probing failed.
    AttemptFailed,
    /// A new session was built and answered the probe.
    AttemptSucceeded,
    /// The handshake file was read again; `reload` says whether it is gone or changed.
    HandshakeChecked { reload: bool },
}

/// What to do next.
#[derive(Clone, Copy, Debug, PartialEq, Eq, Structural)]
pub enum SupervisorAction {
    /// Locate the process, read its handshake, build a session and probe it.
    Attempt,
    /// Wait one retry interval, then attempt again.
    WaitThenAttempt,
    /// Hand the new session to the waiting caller and start watching the handshake file.
    Publish,
    /// Wait one poll interval, then read the handshake file again.
    WaitThenCheck,
    /// Take exclusive access to the session, then attempt a new one.
    LockThenAttempt,
    /// Put the new session in place of the old, release exclusive access, wait one poll
    /// interval, then read the handshake file again.
    SwapThenWait,
}

/// The next state and action, or `None` when the event cannot follow in that state.
pub open spec fn transition(state: SupervisorState, event: SupervisorEvent) -> Option<
    (SupervisorState, SupervisorAction),
> {
    match (state, event) {
        (SupervisorState::Bootstrapping, SupervisorEvent::AttemptFailed) => Some(
            (SupervisorState::Bootstrapping, SupervisorAction::WaitThenAttempt),
        ),
        (SupervisorState::Bootstrapping, SupervisorEvent::AttemptSucceeded) => Some(
            (SupervisorState::Live, SupervisorAction::Publish),
        ),
        (SupervisorState::Live, SupervisorEvent::HandshakeChecked { reload }) => {
            if reload {
                Some((SupervisorState::Recovering, SupervisorAction::LockThenAttempt))
            } else {
                Some((SupervisorState::Live, SupervisorAction::WaitThenCheck))
            }
        },
        (SupervisorState::Recovering, SupervisorEvent::AttemptFailed) => Some(
            (SupervisorState::Recovering, SupervisorAction::WaitThenAttempt),
        ),
        (SupervisorState::Recovering, SupervisorEvent::AttemptSucceeded) => Some(
            (SupervisorState::Live, SupervisorAction::SwapThenWait),
        ),
        _ => None,
    }
}

/// The state after a run of events, with the actions taken, or `None` when one of them
/// cannot follow.
pub open spec fn run(state: SupervisorState, events: Seq<SupervisorEvent>) -> Option<
    (SupervisorState, Seq<SupervisorAction>),
>
    decreases events.len(),
{
    if events.len() == 0 {
        Some((state, Seq::empty()))
    } else {
        match run(state, events.drop_last()) {
            Some((mid, actions)) => match transition(mid, events.last()) {
                Some((next, action)) => Some((next, actions.push(action))),
                None => None,
            },
            None => None,
        }
    }
}

/// Requests may run only against a live session.
pub open spec fn admits_requests(state: SupervisorState) -> bool {
    state == SupervisorState::Live
}

/// `n` copies of `x`.
pub open spec fn repeat<T>(x: T, n: nat) -> Seq<T> {
    Seq::new(n, |i: int| x)
}

impl SupervisorState {
    /// The state a driver starts in, and the first action.
    pub fn start() -> (r: (SupervisorState, SupervisorAction))
        ensures
            r == (SupervisorState::Bootstrapping, SupervisorAction::Attempt),
    {
        (SupervisorState::Bootstrapping, SupervisorAction::Attempt)
    }

    /// The next state and action after `event`, or `None` when `event` cannot follow.
    pub fn step(self, event: SupervisorEvent) -> (r: Option<(SupervisorState, SupervisorAction)>)
        ensures
            r == transition(self, event),
    {
        match (self, event) {
            (SupervisorState::Bootstrapping, SupervisorEvent::AttemptFailed) => Some(
                (SupervisorState::Bootstrapping, SupervisorAction::WaitThenAttempt),
            ),
            (SupervisorState::Bootstrapping, SupervisorEvent::AttemptSucceeded) => Some(
                (SupervisorState::Live, SupervisorAction::Publish),
            ),
            (SupervisorState::Live, SupervisorEvent::HandshakeChecked { reload }) => {
                if reload {
                    Some((SupervisorState::Recovering, SupervisorAction::LockThenAttempt))
                } else {
                    Some((SupervisorState::Live, SupervisorAction::WaitThenCheck))
                }
            },
            (SupervisorState::Recovering, SupervisorEvent::AttemptFailed) => Some(
                (SupervisorState::Recovering, SupervisorAction::WaitThenAttempt),
            ),
            (SupervisorState::Recovering, SupervisorEvent::AttemptSucceeded) => Some(
                (SupervisorState::Live, SupervisorAction::SwapThenWait),
            ),
            _ => None,
        }
    }

    /// Whether requests may run in this state.
    pub fn admits_requests(self) -> (r: bool)
        ensures
            r == admits_requests(self),
    {
        self == SupervisorState::Live
    }
}

/// Failed attempts keep a state that retries where it is, one wait and retry for each.
proof fn lemma_failures_stay(state: SupervisorState, n: nat)
    requires
        state == SupervisorState::Bootstrapping || state == SupervisorState::Recovering,
    ensures
        run(state, repeat(SupervisorEvent::AttemptFailed, n)) == Some(
            (state, repeat(SupervisorAction::WaitThenAttempt, n)),
        ),
    decreases n,
{
    if n > 0 {
        let events = repeat(SupervisorEvent::AttemptFailed, n);
        assert(events.drop_last() =~= repeat(SupervisorEvent::AttemptFailed, (n - 1) as nat));
        lemma_failures_stay(state, (n - 1) as nat);
        assert(repeat(SupervisorAction::WaitThenAttempt, (n - 1) as nat).push(
            SupervisorAction::WaitThenAttempt,
        ) =~= repeat(SupervisorAction::WaitThenAttempt, n));
    }
}

/// Bootstrapping retries forever: after any number `n` of failed attempts the driver is
/// still bootstrapping, having waited and retried once per failure and handed nothing to the
/// waiting caller; the next success makes it live and hands the session over.
pub proof fn lemma_bootstrap_retries(n: nat)
    ensures
        run(SupervisorState::Bootstrapping, repeat(SupervisorEvent::AttemptFailed, n)) == Some(
            (SupervisorState::Bootstrapping, repeat(SupervisorAction::WaitThenAttempt, n)),
        ),
        run(
            SupervisorState::Bootstrapping,
            repeat(SupervisorEvent::AttemptFailed, n).push(SupervisorEvent::AttemptSucceeded),
        ) == Some(
            (
                SupervisorState::Live,
                repeat(SupervisorAction::WaitThenAttempt, n).push(SupervisorAction::Publish),
            ),
        ),
{
    lemma_failures_stay(SupervisorState::Bootstrapping, n);
    let events = repeat(SupervisorEvent::AttemptFailed, n).push(SupervisorEvent::AttemptSucceeded);
    assert(events.drop_last() =~= repeat(SupervisorEvent::AttemptFailed, n));
}

/// Running `a` then `b` is running `a + b`.
proof fn lemma_run_append(state: SupervisorState, a: Seq<SupervisorEvent>, b: Seq<SupervisorEvent>)
    ensures
        run(state, a + b) == match run(state, a) {
            Some((mid, x)) => match run(mid, b) {
                Some((last, y)) => Some((last, x + y)),
                None => None,
            },
            None => None,
        },
    decreases b.len(),
{
    if b.len() == 0 {
        assert(a + b =~= a);
        if let Some((mid, x)) = run(state, a) {
            assert(x + Seq::<SupervisorAction>::empty() =~= x);
        }
    } else {
        assert((a + b).drop_last() =~= a + b.drop_last());
        assert((a + b).last() == b.last());
        lemma_run_append(state, a, b.drop_last());
        if let Some((mid, x)) = run(state, a) {
            if let Some((m2, y)) = run(mid, b.drop_last()) {
                if let Some((last, act)) = transition(m2, b.last()) {
                    assert((x + y).push(act) =~= x + y.push(act));
                }
            }
        }
    }
}

/// Recovery holds exclusive access throughout: once a check finds the handshake gone or
/// changed, any number `n` of failed attempts leaves the supervisor recovering, so no
/// request runs, and the next success swaps the new session in and makes it live again.
pub proof fn lemma_recovery_blocks_requests(n: nat)
    ensures
        ({
            let checked = seq![SupervisorEvent::HandshakeChecked { reload: true }];
            &&& run(SupervisorState::Live, checked + repeat(SupervisorEvent::AttemptFailed, n))
                == Some(
                (
                    SupervisorState::Recovering,
                    seq![SupervisorAction::LockThenAttempt] + repeat(
                        SupervisorAction::WaitThenAttempt,
                        n,
                    ),
                ),
            )
            &&& !admits_requests(SupervisorState::Recovering)
            &&& run(
                SupervisorState::Live,
                (checked + repeat(SupervisorEvent::AttemptFailed, n)).push(
                    SupervisorEvent::AttemptSucceeded,
                ),
            ) == Some(
                (
                    SupervisorState::Live,
                    (seq![SupervisorAction::LockThenAttempt] + repeat(
                        SupervisorAction::WaitThenAttempt,
                        n,
                    )).push(SupervisorAction::SwapThenWait),
                ),
            )
        }),
{
    let checked = seq![SupervisorEvent::HandshakeChecked { reload: true }];
    let fails = repeat(SupervisorEvent::AttemptFailed, n);
    assert(checked.drop_last() =~= Seq::<SupervisorEvent>::empty());
    assert(run(SupervisorState::Live, Seq::<SupervisorEvent>::empty()) == Some(
        (SupervisorState::Live, Seq::<SupervisorAction>::empty()),
    ));
    assert(checked.last() == SupervisorEvent::HandshakeChecked { reload: true });
    assert(run(SupervisorState::Live, checked) == Some(
        (SupervisorState::Recovering, Seq::<SupervisorAction>::empty().push(SupervisorAction::LockThenAttempt)),
    ));
    assert(Seq::<SupervisorAction>::empty().push(SupervisorAction::LockThenAttempt) =~= seq![SupervisorAction::LockThenAttempt]);
    lemma_failures_stay(SupervisorState::Recovering, n);
    lemma_run_append(SupervisorState::Live, checked, fails);
    assert((checked + fails).push(SupervisorEvent::AttemptSucceeded).drop_last() =~= checked + fails);
}

} // verus!
