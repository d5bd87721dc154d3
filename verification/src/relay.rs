//! The established stream, and the signals that end it.

use vstd::prelude::*;

verus! {

/// How a stream ended.
#[derive(Clone, Copy, Debug, PartialEq, Eq, Structural)]
pub enum RelayEnd {
    /// Both directions were copied to their ends: so many bytes from the
    /// client, so many to it.
    Copied(u64, u64),
    /// Copying failed.
    CopyFailed,
    Cancelled,
    ContainerExited,
}

/// Copying failed; its error is the one to report.
#[derive(Clone, Copy, Debug, PartialEq, Eq, Structural)]
pub struct CopyError;

/// The end of a stream is an error only where copying failed.
pub fn relay_result(end: &RelayEnd) -> (result: Result<(), CopyError>)
    ensures
        result is Err <==> *end == RelayEnd::CopyFailed,
{
    match end {
        RelayEnd::CopyFailed => Err(CopyError),
        _ => Ok(()),
    }
}

/// What comes of watching a stop signal.
#[derive(Clone, Copy, Debug, PartialEq, Eq, Structural)]
pub enum SignalEvent {
    /// The value that the signal has now.
    Seen(bool),
    /// The signal has a new value.
    Changed,
    /// Nobody can give the signal any more.
    Closed,
}

/// Waiting for a stop signal.
#[derive(Clone, Copy, Debug, PartialEq, Eq, Structural)]
pub enum Cancellation {
    /// The value that the signal has now is to be looked at.
    Look,
    /// A new value is to be waited for.
    Wait,
    /// The wait is over.
    Over,
}

/// Waiting after an event. One that is not waited for changes nothing.
pub open spec fn signalled(wait: Cancellation, event: SignalEvent) -> Cancellation {
    match (wait, event) {
        (Cancellation::Look, SignalEvent::Seen(stop)) => if stop {
            Cancellation::Over
        } else {
            Cancellation::Wait
        },
        (Cancellation::Wait, SignalEvent::Changed) => Cancellation::Look,
        (Cancellation::Wait, SignalEvent::Closed) => Cancellation::Over,
        _ => wait,
    }
}

impl Cancellation {
    /// Begins to wait: with a look at the value that is there already.
    pub fn new() -> (wait: Cancellation)
        ensures
            wait == Cancellation::Look,
    {
        Cancellation::Look
    }

    /// Takes the wait one step further.
    pub fn advance(self, event: SignalEvent) -> (next: Cancellation)
        ensures
            next == signalled(self, event),
    {
        match (self, event) {
            (Cancellation::Look, SignalEvent::Seen(stop)) => {
                if stop {
                    Cancellation::Over
                } else {
                    Cancellation::Wait
                }
            },
            (Cancellation::Wait, SignalEvent::Changed) => Cancellation::Look,
            (Cancellation::Wait, SignalEvent::Closed) => Cancellation::Over,
            (wait, _) => wait,
        }
    }
}

/// Waiting after a history of events.
pub open spec fn waited(history: Seq<SignalEvent>) -> Cancellation
    decreases history.len(),
{
    if history.len() == 0 {
        Cancellation::Look
    } else {
        signalled(waited(history.drop_last()), history.last())
    }
}

proof fn over_stays_over(history: Seq<SignalEvent>, later: Seq<SignalEvent>)
    requires
        waited(history) == Cancellation::Over,
    ensures
        waited(history + later) == Cancellation::Over,
    decreases later.len(),
{
    if later.len() == 0 {
        assert(history + later =~= history);
    } else {
        over_stays_over(history, later.drop_last());
        assert((history + later).drop_last() =~= history + later.drop_last());
        assert((history + later).last() == later.last());
    }
}

/// A stop that was given before anybody waited ends the wait at the first look,
/// and the loss of the one who could give it ends the wait after that look.
/// Whatever comes later changes neither.
pub proof fn stop_already_given_is_seen(later: Seq<SignalEvent>)
    ensures
        waited(seq![SignalEvent::Seen(true)] + later) == Cancellation::Over,
        waited(seq![SignalEvent::Seen(false), SignalEvent::Closed] + later) == Cancellation::Over,
{
    reveal_with_fuel(waited, 3);
    let given = seq![SignalEvent::Seen(true)];
    assert(given.drop_last() =~= Seq::<SignalEvent>::empty());
    over_stays_over(given, later);
    let lost = seq![SignalEvent::Seen(false), SignalEvent::Closed];
    assert(lost.drop_last() =~= seq![SignalEvent::Seen(false)]);
    assert(seq![SignalEvent::Seen(false)].drop_last() =~= Seq::<SignalEvent>::empty());
    over_stays_over(lost, later);
}

/// The wait is over only after a stop was seen or nobody could give one any
/// more, and it stays over.
pub proof fn wait_ends_for_a_reason(history: Seq<SignalEvent>)
    requires
        waited(history) == Cancellation::Over,
    ensures
        history.contains(SignalEvent::Seen(true)) || history.contains(SignalEvent::Closed),
        forall|event: SignalEvent| signalled(waited(history), event) == Cancellation::Over,
    decreases history.len(),
{
    let before = history.drop_last();
    if waited(before) == Cancellation::Over {
        wait_ends_for_a_reason(before);
        if before.contains(SignalEvent::Seen(true)) {
            let i = choose|i: int| 0 <= i < before.len() && before[i] == SignalEvent::Seen(true);
            assert(history[i] == SignalEvent::Seen(true));
        } else {
            let i = choose|i: int| 0 <= i < before.len() && before[i] == SignalEvent::Closed;
            assert(history[i] == SignalEvent::Closed);
        }
    } else {
        assert(history[history.len() - 1] == history.last());
    }
}

/// Whatever happened before, a stop is seen at the next look, and each look that
/// finds none is followed by waiting for a new value.
pub proof fn every_stop_is_seen(history: Seq<SignalEvent>)
    requires
        waited(history) == Cancellation::Look,
    ensures
        waited(history.push(SignalEvent::Seen(true))) == Cancellation::Over,
        waited(history.push(SignalEvent::Seen(false))) == Cancellation::Wait,
        waited(history.push(SignalEvent::Seen(false)).push(SignalEvent::Changed)) == Cancellation::Look,
{
    assert(history.push(SignalEvent::Seen(true)).drop_last() =~= history);
    let seen = history.push(SignalEvent::Seen(false));
    assert(seen.drop_last() =~= history);
    assert(seen.push(SignalEvent::Changed).drop_last() =~= seen);
}

/// The wait moves only so: a look that finds a stop, or the loss of the signal
/// while a new value is waited for, ends it. A look that finds none begins to wait
/// for a new value, and a new value is looked at. Nothing else changes it.
pub proof fn waits_move_for_a_reason(wait: Cancellation, event: SignalEvent)
    ensures
        ({
            let next = signalled(wait, event);
            &&& next is Over && !(wait is Over) <==> (wait is Look && event == SignalEvent::Seen(true)) || (wait is Wait
                && event is Closed)
            &&& next is Wait && !(wait is Wait) <==> wait is Look && event == SignalEvent::Seen(false)
            &&& next is Look && !(wait is Look) <==> wait is Wait && event is Changed
        }),
{
}

} // verus!
