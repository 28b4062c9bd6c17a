//! The decisions of a trace session: given the state and what the target
//! did, the next state and what to do next. Whoever runs the session
//! performs the action (attach, wait, resume, read registers) and reports
//! the outcome as the next event.

use vstd::prelude::*;

verus! {

#[derive(PartialEq, Eq, Structural, Clone, Copy, Debug)]
pub enum TraceState {
    /// Not attached yet.
    Detached,
    /// Attached; the target's first stop is awaited.
    Attached,
    /// The next stop is a syscall entry.
    AwaitingEntryStop,
    /// The next stop is a syscall exit.
    AwaitingExitStop,
    /// The target has exited.
    Exited,
    /// The session ended with an error.
    Failed,
}

#[derive(PartialEq, Eq, Structural, Clone, Copy, Debug)]
pub enum TraceError {
    /// The target does not exist, or tracing it is not permitted.
    AttachError,
    /// The target exited before its first stop.
    AlreadyExitedError,
}

/// What the target, or the operator, did since the last action.
#[derive(PartialEq, Eq, Structural, Clone, Copy, Debug)]
pub enum TraceEvent {
    AttachSucceeded,
    AttachFailed,
    /// The target stopped.
    Stopped,
    /// The target exited.
    TargetExited,
    /// The operator asked to stop tracing.
    Canceled,
}

#[derive(PartialEq, Eq, Structural, Clone, Copy, Debug)]
pub enum Action {
    /// Wait for the target's first stop.
    AwaitInitialStop,
    /// Resume the target to its next syscall stop, and wait for it.
    Resume,
    /// The target stands at a syscall exit: decode its registers, then
    /// resume it to its next syscall stop and wait for it.
    DecodeAndResume,
    /// Detach from the target; the session is over.
    Detach,
    /// The session is over with this error; wait for nothing more.
    Fail(TraceError),
    /// The session is over.
    Finish,
}

/// The next state and action, from a state and an event.
pub open spec fn transition(s: TraceState, e: TraceEvent) -> (TraceState, Action) {
    match (s, e) {
        (TraceState::Detached, TraceEvent::AttachSucceeded) => (
            TraceState::Attached,
            Action::AwaitInitialStop,
        ),
        (TraceState::Detached, TraceEvent::AttachFailed) => (
            TraceState::Failed,
            Action::Fail(TraceError::AttachError),
        ),
        (TraceState::Attached, TraceEvent::Stopped) => (
            TraceState::AwaitingEntryStop,
            Action::Resume,
        ),
        (TraceState::Attached, TraceEvent::TargetExited) => (
            TraceState::Exited,
            Action::Fail(TraceError::AlreadyExitedError),
        ),
        (TraceState::AwaitingEntryStop, TraceEvent::Stopped) => (
            TraceState::AwaitingExitStop,
            Action::Resume,
        ),
        (TraceState::AwaitingExitStop, TraceEvent::Stopped) => (
            TraceState::AwaitingEntryStop,
            Action::DecodeAndResume,
        ),
        (TraceState::AwaitingEntryStop, TraceEvent::TargetExited) => (
            TraceState::Exited,
            Action::Finish,
        ),
        (TraceState::AwaitingExitStop, TraceEvent::TargetExited) => (
            TraceState::Exited,
            Action::Finish,
        ),
        (TraceState::Attached, TraceEvent::Canceled) => (TraceState::Detached, Action::Detach),
        (TraceState::AwaitingEntryStop, TraceEvent::Canceled) => (
            TraceState::Detached,
            Action::Detach,
        ),
        (TraceState::AwaitingExitStop, TraceEvent::Canceled) => (
            TraceState::Detached,
            Action::Detach,
        ),
        _ => (s, Action::Finish),
    }
}

/// The state and actions after `n` stops, from state `s`.
pub open spec fn after_stops(s: TraceState, n: nat) -> (TraceState, Seq<Action>)
    decreases n,
{
    if n == 0 {
        (s, Seq::empty())
    } else {
        let (s1, acts) = after_stops(s, (n - 1) as nat);
        let (s2, a) = transition(s1, TraceEvent::Stopped);
        (s2, acts.push(a))
    }
}

/// How many of the actions decode a syscall.
pub open spec fn decode_count(acts: Seq<Action>) -> nat
    decreases acts.len(),
{
    if acts.len() == 0 {
        0
    } else {
        decode_count(acts.drop_last()) + if acts.last() == Action::DecodeAndResume {
            1nat
        } else {
            0nat
        }
    }
}

/// Stops alternate between entry and exit, starting with an entry: of `n`
/// stops after the first resume, the even-numbered (from zero) are entries,
/// only resumed, and the others exits, decoded; so `n / 2` are decoded.
pub proof fn lemma_stops_alternate(n: nat)
    ensures
        after_stops(TraceState::AwaitingEntryStop, n).1.len() == n,
        forall|i: int|
            0 <= i < n ==> #[trigger] after_stops(TraceState::AwaitingEntryStop, n).1[i] == if i
                % 2 == 0 {
                Action::Resume
            } else {
                Action::DecodeAndResume
            },
        decode_count(after_stops(TraceState::AwaitingEntryStop, n).1) == n / 2,
        after_stops(TraceState::AwaitingEntryStop, n).0 == if n % 2 == 0 {
            TraceState::AwaitingEntryStop
        } else {
            TraceState::AwaitingExitStop
        },
    decreases n,
{
    if n > 0 {
        lemma_stops_alternate((n - 1) as nat);
        let acts = after_stops(TraceState::AwaitingEntryStop, n).1;
        assert(acts.drop_last() =~= after_stops(TraceState::AwaitingEntryStop, (n - 1) as nat).1);
    }
}

/// The state and actions after the events `es`, from state `s`.
pub open spec fn run(s: TraceState, es: Seq<TraceEvent>) -> (TraceState, Seq<Action>)
    decreases es.len(),
{
    if es.len() == 0 {
        (s, Seq::empty())
    } else {
        let (s1, acts) = run(s, es.drop_last());
        let (s2, a) = transition(s1, es.last());
        (s2, acts.push(a))
    }
}

/// Whether an action has the caller wait for the target.
pub open spec fn waits(a: Action) -> bool {
    a == Action::AwaitInitialStop || a == Action::Resume || a == Action::DecodeAndResume
}

/// A failed attach ends the session with `AttachError`, and whatever comes
/// after, no action has the caller wait for the target.
pub proof fn lemma_failed_attach_never_waits(es: Seq<TraceEvent>)
    requires
        es.len() > 0,
        es[0] == TraceEvent::AttachFailed,
    ensures
        run(TraceState::Detached, es).1.len() == es.len(),
        run(TraceState::Detached, es).1[0] == Action::Fail(TraceError::AttachError),
        run(TraceState::Detached, es).0 == TraceState::Failed,
        forall|i: int|
            0 <= i < es.len() ==> !waits(#[trigger] run(TraceState::Detached, es).1[i]),
    decreases es.len(),
{
    let acts = run(TraceState::Detached, es).1;
    if es.len() > 1 {
        lemma_failed_attach_never_waits(es.drop_last());
        assert(es.drop_last()[0] == es[0]);
        assert(acts.drop_last() =~= run(TraceState::Detached, es.drop_last()).1);
        assert(acts[0] == acts.drop_last()[0]);
        assert forall|i: int| 0 <= i < es.len() implies !waits(#[trigger] acts[i]) by {
            if i < es.len() - 1 {
                assert(acts[i] == acts.drop_last()[i]);
            }
        }
    } else {
        assert(es.drop_last() =~= Seq::<TraceEvent>::empty());
        assert(run(TraceState::Detached, es.drop_last()).1 =~= Seq::<Action>::empty());
        assert(acts =~= seq![Action::Fail(TraceError::AttachError)]);
    }
}

/// A target that exits before its first stop ends the session with
/// `AlreadyExitedError`, not `AttachError`.
pub proof fn lemma_exit_before_first_stop()
    ensures
        run(TraceState::Detached, seq![TraceEvent::AttachSucceeded, TraceEvent::TargetExited]).1
            == seq![Action::AwaitInitialStop, Action::Fail(TraceError::AlreadyExitedError)],
        run(TraceState::Detached, seq![TraceEvent::AttachSucceeded, TraceEvent::TargetExited]).0
            == TraceState::Exited,
{
    let es = seq![TraceEvent::AttachSucceeded, TraceEvent::TargetExited];
    assert(es.drop_last() =~= seq![TraceEvent::AttachSucceeded]);
    assert(es.drop_last().drop_last() =~= Seq::<TraceEvent>::empty());
    reveal_with_fuel(run, 3);
    assert(run(TraceState::Detached, es).1 =~= seq![
        Action::AwaitInitialStop,
        Action::Fail(TraceError::AlreadyExitedError),
    ]);
}

pub struct TraceController {
    state: TraceState,
}

impl TraceController {
    pub closed spec fn spec_state(&self) -> TraceState {
        self.state
    }

    pub fn new() -> (r: TraceController)
        ensures
            r.spec_state() == TraceState::Detached,
    {
        TraceController { state: TraceState::Detached }
    }

    pub fn state(&self) -> (s: TraceState)
        ensures
            s == self.spec_state(),
    {
        self.state
    }

    /// Takes one event and says what to do next.
    pub fn on_event(&mut self, e: TraceEvent) -> (a: Action)
        ensures
            (final(self).spec_state(), a) == transition(old(self).spec_state(), e),
    {
        let (s, a) = match (self.state, e) {
            (TraceState::Detached, TraceEvent::AttachSucceeded) => (
                TraceState::Attached,
                Action::AwaitInitialStop,
            ),
            (TraceState::Detached, TraceEvent::AttachFailed) => (
                TraceState::Failed,
                Action::Fail(TraceError::AttachError),
            ),
            (TraceState::Attached, TraceEvent::Stopped) => (
                TraceState::AwaitingEntryStop,
                Action::Resume,
            ),
            (TraceState::Attached, TraceEvent::TargetExited) => (
                TraceState::Exited,
                Action::Fail(TraceError::AlreadyExitedError),
            ),
            (TraceState::AwaitingEntryStop, TraceEvent::Stopped) => (
                TraceState::AwaitingExitStop,
                Action::Resume,
            ),
            (TraceState::AwaitingExitStop, TraceEvent::Stopped) => (
                TraceState::AwaitingEntryStop,
                Action::DecodeAndResume,
            ),
            (TraceState::AwaitingEntryStop, TraceEvent::TargetExited) => (
                TraceState::Exited,
                Action::Finish,
            ),
            (TraceState::AwaitingExitStop, TraceEvent::TargetExited) => (
                TraceState::Exited,
                Action::Finish,
            ),
            (TraceState::Attached, TraceEvent::Canceled) => (
                TraceState::Detached,
                Action::Detach,
            ),
            (TraceState::AwaitingEntryStop, TraceEvent::Canceled) => (
                TraceState::Detached,
                Action::Detach,
            ),
            (TraceState::AwaitingExitStop, TraceEvent::Canceled) => (
                TraceState::Detached,
                Action::Detach,
            ),
            _ => (self.state, Action::Finish),
        };
        self.state = s;
        a
    }
}

} // verus!
