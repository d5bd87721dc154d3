//! The owner's way to its own container: the startup hook, then the port.

use crate::target::Target;
use crate::text::{decimal, decimal_text, join};
use vstd::prelude::*;

verus! {

/// The time between two attempts to connect to the container, in milliseconds.
pub const RETRY_DELAY_MS: u64 = 50;

/// The request that invokes the startup hook.
#[derive(Debug, PartialEq, Eq)]
pub struct HookRequest {
    pub object_name: String,
    pub url: String,
    pub method: String,
    pub body: Vec<u8>,
    pub headers: Vec<(String, String)>,
}

/// Builds the request that invokes the startup hook of a target. Its body is
/// empty, and it has no headers.
pub fn hook_request(target: &Target) -> (request: HookRequest)
    ensures
        request.object_name@ == target@.object_name,
        request.url@ == "http://celld.internal"@ + target@.startup_path,
        request.method@ == "POST"@,
        request.body@.len() == 0,
        request.headers@.len() == 0,
{
    HookRequest {
        object_name: target.object_name.clone(),
        url: join("http://celld.internal", target.startup_path.as_str()),
        method: "POST".to_string(),
        body: Vec::new(),
        headers: Vec::new(),
    }
}

/// What the startup hook answered.
#[derive(Clone, Copy, Debug, PartialEq, Eq, Structural)]
pub struct HookAnswer {
    pub status: u16,
    pub body_is_empty: bool,
    /// The hook opened a websocket.
    pub websocket: bool,
    /// The hook streams its body.
    pub stream: bool,
}

/// The one answer with which a hook reports success.
pub open spec fn is_empty_204(answer: HookAnswer) -> bool {
    answer.status == 204 && answer.body_is_empty && !answer.websocket && !answer.stream
}

/// What comes back from the outside.
#[derive(Clone, Copy, Debug, PartialEq, Eq, Structural)]
pub enum LocalEvent {
    /// Whether one of the owner's connections was free.
    Slot(bool),
    /// Whether the node has a runtime for cells.
    Runtime(bool),
    /// The hook answered.
    Answered(HookAnswer),
    /// The hook failed.
    HookFailed,
    /// Whether the engine for containers is there.
    Engine(bool),
    /// The current run of the object's container, where it has one.
    Container(Option<u64>),
    /// Whether the container runs, and in which run.
    Inspected(bool, u64),
    /// Whether a connection to the port came about.
    Dialed(bool),
    /// The time between two attempts has passed.
    Paused,
    /// The owner gives the request up.
    Cancelled,
}

/// Why there is no connection to the container.
#[derive(Clone, Copy, Debug, PartialEq, Eq, Structural)]
pub enum LocalError {
    OwnerLimit,
    NoRuntime,
    StartupCancelled,
    /// The hook failed; its error is the one to report.
    HookFailed,
    /// The hook answered with this status, or with more than a status.
    HookRejected(u16),
    /// The engine is not there; its error is the one to report.
    NoEngine,
    NoContainer,
    Stopped,
    ReadinessCancelled,
    Restarted,
}

/// The words that report an error, where they are this library's own.
pub open spec fn local_message(error: LocalError) -> Option<Seq<char>> {
    match error {
        LocalError::OwnerLimit => Some("TCP owner connection limit reached"@),
        LocalError::NoRuntime => Some("no cell runtime"@),
        LocalError::StartupCancelled => Some("TCP startup cancelled"@),
        LocalError::HookFailed => None,
        LocalError::HookRejected(status) => Some(
            "TCP startup hook must return an empty 204 response (received "@ + decimal_text(status as nat) + ")"@,
        ),
        LocalError::NoEngine => None,
        LocalError::NoContainer => Some("TCP target has no container"@),
        LocalError::Stopped => Some("container stopped during TCP establishment"@),
        LocalError::ReadinessCancelled => Some("TCP readiness cancelled"@),
        LocalError::Restarted => Some("container restarted during TCP establishment"@),
    }
}

impl LocalError {
    /// The words that report the error, where they are this library's own.
    pub fn message(&self) -> (message: Option<String>)
        ensures
            message is Some <==> local_message(*self) is Some,
            message is Some ==> message->0@ == local_message(*self)->0,
            *self matches LocalError::HookRejected(status) ==> message is Some && message->0@
                == "TCP startup hook must return an empty 204 response (received "@ + decimal_text(status as nat) + ")"@,
    {
        match self {
            LocalError::OwnerLimit => Some("TCP owner connection limit reached".to_string()),
            LocalError::NoRuntime => Some("no cell runtime".to_string()),
            LocalError::StartupCancelled => Some("TCP startup cancelled".to_string()),
            LocalError::HookFailed => None,
            LocalError::HookRejected(status) => {
                let start = join(
                    "TCP startup hook must return an empty 204 response (received ",
                    decimal(*status as u64).as_str(),
                );
                Some(join(start.as_str(), ")"))
            },
            LocalError::NoEngine => None,
            LocalError::NoContainer => Some("TCP target has no container".to_string()),
            LocalError::Stopped => Some("container stopped during TCP establishment".to_string()),
            LocalError::ReadinessCancelled => Some("TCP readiness cancelled".to_string()),
            LocalError::Restarted => Some("container restarted during TCP establishment".to_string()),
        }
    }
}

/// How far the way to the container has come, and what it waits for.
#[derive(Clone, Copy, Debug, PartialEq, Eq, Structural)]
pub enum LocalOpen {
    /// For one of the owner's connections.
    Slot,
    /// For the runtime.
    Runtime,
    /// For the answer of the startup hook.
    Hook,
    /// For the engine.
    Engine,
    /// For the container of the object.
    Container,
    /// For a look at the container, which has to be in this run.
    Inspect(u64),
    /// For a connection to the target's port.
    Connect(u64),
    /// For [`RETRY_DELAY_MS`] to pass.
    Pause(u64),
    /// For a last look at the container, which has to be in this run still.
    Confirm(u64),
    /// For nothing: the connection to this run of the container is there.
    Connected(u64),
    /// For nothing: there is no connection.
    Failed(LocalError),
}

/// What would happen to the startup hook if the request were given up.
#[derive(Clone, Copy, Debug, PartialEq, Eq, Structural)]
pub enum AbortGuard {
    /// Nothing: it was not invoked.
    Unset,
    /// It would be aborted.
    Armed,
    /// It has answered, but not to satisfaction.
    Answered,
    /// Nothing: it has done its work.
    Disarmed,
}

/// The way after an event. One that it does not wait for leaves it as it is.
pub open spec fn opened(open: LocalOpen, event: LocalEvent) -> LocalOpen {
    match (open, event) {
        (LocalOpen::Slot, LocalEvent::Slot(free)) => if free {
            LocalOpen::Runtime
        } else {
            LocalOpen::Failed(LocalError::OwnerLimit)
        },
        (LocalOpen::Runtime, LocalEvent::Runtime(there)) => if there {
            LocalOpen::Hook
        } else {
            LocalOpen::Failed(LocalError::NoRuntime)
        },
        (LocalOpen::Hook, LocalEvent::Cancelled) => LocalOpen::Failed(LocalError::StartupCancelled),
        (LocalOpen::Hook, LocalEvent::HookFailed) => LocalOpen::Failed(LocalError::HookFailed),
        (LocalOpen::Hook, LocalEvent::Answered(answer)) => if is_empty_204(answer) {
            LocalOpen::Engine
        } else {
            LocalOpen::Failed(LocalError::HookRejected(answer.status))
        },
        (LocalOpen::Engine, LocalEvent::Engine(there)) => if there {
            LocalOpen::Container
        } else {
            LocalOpen::Failed(LocalError::NoEngine)
        },
        (LocalOpen::Container, LocalEvent::Container(Some(run))) => LocalOpen::Inspect(run),
        (LocalOpen::Container, LocalEvent::Container(None)) => LocalOpen::Failed(LocalError::NoContainer),
        (LocalOpen::Inspect(run), LocalEvent::Inspected(running, current)) => if running && current == run {
            LocalOpen::Connect(run)
        } else {
            LocalOpen::Failed(LocalError::Stopped)
        },
        (LocalOpen::Connect(run), LocalEvent::Dialed(connected)) => if connected {
            LocalOpen::Confirm(run)
        } else {
            LocalOpen::Pause(run)
        },
        (LocalOpen::Connect(_), LocalEvent::Cancelled) => LocalOpen::Failed(LocalError::ReadinessCancelled),
        (LocalOpen::Pause(run), LocalEvent::Paused) => LocalOpen::Inspect(run),
        (LocalOpen::Pause(_), LocalEvent::Cancelled) => LocalOpen::Failed(LocalError::ReadinessCancelled),
        (LocalOpen::Confirm(run), LocalEvent::Inspected(running, current)) => if running && current == run {
            LocalOpen::Connected(run)
        } else {
            LocalOpen::Failed(LocalError::Restarted)
        },
        _ => open,
    }
}

/// The startup hook has been invoked and has answered, or never will.
pub open spec fn past_hook(open: LocalOpen) -> bool {
    !(open is Slot) && !(open is Runtime) && !(open is Hook)
}

/// What would happen to the hook.
pub open spec fn guard_of(open: LocalOpen) -> AbortGuard {
    match open {
        LocalOpen::Slot => AbortGuard::Unset,
        LocalOpen::Runtime => AbortGuard::Unset,
        LocalOpen::Failed(LocalError::OwnerLimit) => AbortGuard::Unset,
        LocalOpen::Failed(LocalError::NoRuntime) => AbortGuard::Unset,
        LocalOpen::Hook => AbortGuard::Armed,
        LocalOpen::Failed(LocalError::StartupCancelled) => AbortGuard::Armed,
        LocalOpen::Failed(LocalError::HookFailed) => AbortGuard::Answered,
        LocalOpen::Failed(LocalError::HookRejected(_)) => AbortGuard::Answered,
        _ => AbortGuard::Disarmed,
    }
}

impl LocalOpen {
    /// The way of a request that has just reached the owner.
    pub fn new() -> (open: LocalOpen)
        ensures
            open == LocalOpen::Slot,
    {
        LocalOpen::Slot
    }

    /// Takes the way one step further.
    pub fn advance(self, event: LocalEvent) -> (next: LocalOpen)
        ensures
            next == opened(self, event),
    {
        match (self, event) {
            (LocalOpen::Slot, LocalEvent::Slot(free)) => {
                if free {
                    LocalOpen::Runtime
                } else {
                    LocalOpen::Failed(LocalError::OwnerLimit)
                }
            },
            (LocalOpen::Runtime, LocalEvent::Runtime(there)) => {
                if there {
                    LocalOpen::Hook
                } else {
                    LocalOpen::Failed(LocalError::NoRuntime)
                }
            },
            (LocalOpen::Hook, LocalEvent::Cancelled) => LocalOpen::Failed(LocalError::StartupCancelled),
            (LocalOpen::Hook, LocalEvent::HookFailed) => LocalOpen::Failed(LocalError::HookFailed),
            (LocalOpen::Hook, LocalEvent::Answered(answer)) => {
                if answer.status == 204 && answer.body_is_empty && !answer.websocket && !answer.stream {
                    LocalOpen::Engine
                } else {
                    LocalOpen::Failed(LocalError::HookRejected(answer.status))
                }
            },
            (LocalOpen::Engine, LocalEvent::Engine(there)) => {
                if there {
                    LocalOpen::Container
                } else {
                    LocalOpen::Failed(LocalError::NoEngine)
                }
            },
            (LocalOpen::Container, LocalEvent::Container(Some(run))) => LocalOpen::Inspect(run),
            (LocalOpen::Container, LocalEvent::Container(None)) => LocalOpen::Failed(LocalError::NoContainer),
            (LocalOpen::Inspect(run), LocalEvent::Inspected(running, current)) => {
                if running && current == run {
                    LocalOpen::Connect(run)
                } else {
                    LocalOpen::Failed(LocalError::Stopped)
                }
            },
            (LocalOpen::Connect(run), LocalEvent::Dialed(connected)) => {
                if connected {
                    LocalOpen::Confirm(run)
                } else {
                    LocalOpen::Pause(run)
                }
            },
            (LocalOpen::Connect(_), LocalEvent::Cancelled) => LocalOpen::Failed(LocalError::ReadinessCancelled),
            (LocalOpen::Pause(run), LocalEvent::Paused) => LocalOpen::Inspect(run),
            (LocalOpen::Pause(_), LocalEvent::Cancelled) => LocalOpen::Failed(LocalError::ReadinessCancelled),
            (LocalOpen::Confirm(run), LocalEvent::Inspected(running, current)) => {
                if running && current == run {
                    LocalOpen::Connected(run)
                } else {
                    LocalOpen::Failed(LocalError::Restarted)
                }
            },
            (open, _) => open,
        }
    }

    /// What would happen to the startup hook if the request were given up now.
    pub fn guard(&self) -> (guard: AbortGuard)
        ensures
            guard == guard_of(*self),
    {
        match self {
            LocalOpen::Slot => AbortGuard::Unset,
            LocalOpen::Runtime => AbortGuard::Unset,
            LocalOpen::Failed(LocalError::OwnerLimit) => AbortGuard::Unset,
            LocalOpen::Failed(LocalError::NoRuntime) => AbortGuard::Unset,
            LocalOpen::Hook => AbortGuard::Armed,
            LocalOpen::Failed(LocalError::StartupCancelled) => AbortGuard::Armed,
            LocalOpen::Failed(LocalError::HookFailed) => AbortGuard::Answered,
            LocalOpen::Failed(LocalError::HookRejected(_)) => AbortGuard::Answered,
            _ => AbortGuard::Disarmed,
        }
    }
}

/// The way after a history of events.
pub open spec fn opened_by(history: Seq<LocalEvent>) -> LocalOpen
    decreases history.len(),
{
    if history.len() == 0 {
        LocalOpen::Slot
    } else {
        opened(opened_by(history.drop_last()), history.last())
    }
}

/// The startup hook is invoked at most once: what is retried until the port
/// opens is connecting, never the hook.
pub proof fn hook_is_not_repeated(history: Seq<LocalEvent>, later: Seq<LocalEvent>)
    requires
        past_hook(opened_by(history)),
    ensures
        past_hook(opened_by(history + later)),
    decreases later.len(),
{
    if later.len() == 0 {
        assert(history + later =~= history);
    } else {
        hook_is_not_repeated(history, later.drop_last());
        assert((history + later).drop_last() =~= history + later.drop_last());
        assert((history + later).last() == later.last());
    }
}

/// The number of steps that a way has passed.
pub open spec fn steps(open: LocalOpen) -> int {
    match open {
        LocalOpen::Slot => 0,
        LocalOpen::Runtime => 1,
        LocalOpen::Hook => 2,
        LocalOpen::Engine => 3,
        LocalOpen::Container => 4,
        LocalOpen::Inspect(_) => 5,
        LocalOpen::Connect(_) => 5,
        LocalOpen::Pause(_) => 5,
        LocalOpen::Confirm(_) => 6,
        LocalOpen::Connected(_) => 7,
        LocalOpen::Failed(_) => 0,
    }
}

/// The run of the container that a way is about.
pub open spec fn run_in(open: LocalOpen) -> Option<u64> {
    match open {
        LocalOpen::Inspect(run) => Some(run),
        LocalOpen::Connect(run) => Some(run),
        LocalOpen::Pause(run) => Some(run),
        LocalOpen::Confirm(run) => Some(run),
        LocalOpen::Connected(run) => Some(run),
        _ => None,
    }
}

/// The event takes a way about this run past its step of this number.
pub open spec fn takes_past(event: LocalEvent, step: int, run: u64) -> bool {
    if step == 0 {
        event == LocalEvent::Slot(true)
    } else if step == 1 {
        event == LocalEvent::Runtime(true)
    } else if step == 2 {
        event matches LocalEvent::Answered(answer) && is_empty_204(answer)
    } else if step == 3 {
        event == LocalEvent::Engine(true)
    } else if step == 4 {
        event == LocalEvent::Container(Some(run))
    } else if step == 5 {
        event == LocalEvent::Dialed(true)
    } else {
        event == LocalEvent::Inspected(true, run)
    }
}

/// The history holds events that take a way about this run past its first
/// `steps` steps, one after the other.
pub open spec fn took_past(history: Seq<LocalEvent>, steps: int, run: u64) -> bool
    decreases steps,
{
    steps <= 0 || exists|i: int|
        {
            &&& 0 <= i < history.len()
            &&& takes_past(#[trigger] history[i], steps - 1, run)
            &&& took_past(history.take(i), steps - 1, run)
        }
}

proof fn longer_history_takes_as_far(history: Seq<LocalEvent>, event: LocalEvent, steps: int, run: u64)
    requires
        took_past(history, steps, run),
    ensures
        took_past(history.push(event), steps, run),
{
    if steps > 0 {
        let i = choose|i: int|
            {
                &&& 0 <= i < history.len()
                &&& takes_past(#[trigger] history[i], steps - 1, run)
                &&& took_past(history.take(i), steps - 1, run)
            };
        let longer = history.push(event);
        assert(longer[i] == history[i]);
        assert(longer.take(i) =~= history.take(i));
    }
}

proof fn last_event_takes_further(history: Seq<LocalEvent>, event: LocalEvent, steps: int, run: u64)
    requires
        steps >= 0,
        took_past(history, steps, run),
        takes_past(event, steps, run),
    ensures
        took_past(history.push(event), steps + 1, run),
{
    let longer = history.push(event);
    assert(longer[history.len() as int] == event);
    assert(longer.take(history.len() as int) =~= history);
}

/// A way comes only as far as the outside took it, in order: the hook is
/// invoked only on one of the owner's connections, a container is looked for
/// only after the hook answered with an empty 204, and a connection counts only
/// if after it came about the container was still in the run that was found
/// after the hook.
pub proof fn connection_needs_every_step(history: Seq<LocalEvent>, run: u64)
    requires
        run_in(opened_by(history)) is None || run_in(opened_by(history)) == Some(run),
    ensures
        took_past(history, steps(opened_by(history)), run),
    decreases history.len(),
{
    if history.len() > 0 {
        let before = history.drop_last();
        let event = history.last();
        let open = opened_by(before);
        let next = opened_by(history);
        assert(history =~= before.push(event));
        if next is Failed {
        } else {
            connection_needs_every_step(before, run);
            if steps(next) == steps(open) {
                longer_history_takes_as_far(before, event, steps(open), run);
            } else {
                last_event_takes_further(before, event, steps(open), run);
            }
        }
    }
}

/// A connection is looked for only in a container that was just seen to be in
/// the right run.
pub proof fn container_is_seen_before_each_attempt(open: LocalOpen, event: LocalEvent, run: u64)
    requires
        opened(open, event) == LocalOpen::Connect(run),
        open != LocalOpen::Connect(run),
    ensures
        open == LocalOpen::Inspect(run),
        event == LocalEvent::Inspected(true, run),
{
}

/// The guard is disarmed only by a hook that answered with an empty 204.
pub proof fn guard_is_disarmed_by_success(history: Seq<LocalEvent>)
    requires
        guard_of(opened_by(history)) == AbortGuard::Disarmed,
    ensures
        exists|i: int|
            0 <= i < history.len() && ((#[trigger] history[i]) matches LocalEvent::Answered(answer) && is_empty_204(
                answer,
            )),
    decreases history.len(),
{
    let before = history.drop_last();
    if guard_of(opened_by(before)) == AbortGuard::Disarmed {
        guard_is_disarmed_by_success(before);
        let i = choose|i: int|
            0 <= i < before.len() && ((#[trigger] before[i]) matches LocalEvent::Answered(answer) && is_empty_204(
                answer,
            ));
        assert(history[i] == before[i]);
    } else {
        assert(history[history.len() - 1] == history.last());
    }
}

/// Once there is a connection, or certainly none, nothing changes that.
pub proof fn outcome_is_final(history: Seq<LocalEvent>, later: Seq<LocalEvent>)
    requires
        opened_by(history) is Connected || opened_by(history) is Failed,
    ensures
        opened_by(history + later) == opened_by(history),
    decreases later.len(),
{
    if later.len() == 0 {
        assert(history + later =~= history);
    } else {
        outcome_is_final(history, later.drop_last());
        assert((history + later).drop_last() =~= history + later.drop_last());
        assert((history + later).last() == later.last());
    }
}

/// The way to a container fails only for these reasons, and then for sure. Of
/// these, a look at the container ends it only where the container does not run
/// or is in another run than the one that was found.
pub proof fn ways_fail_for_a_reason(open: LocalOpen, event: LocalEvent, status: u16)
    requires
        !(open is Failed),
    ensures
        ({
            let next = opened(open, event);
            let astray = event matches LocalEvent::Inspected(running, current) && run_in(open) is Some && (!running
                || current != run_in(open)->0);
            &&& next == LocalOpen::Failed(LocalError::OwnerLimit) <==> open is Slot && event == LocalEvent::Slot(false)
            &&& next == LocalOpen::Failed(LocalError::NoRuntime) <==> open is Runtime && event == LocalEvent::Runtime(
                false,
            )
            &&& next == LocalOpen::Failed(LocalError::StartupCancelled) <==> open is Hook && event is Cancelled
            &&& next == LocalOpen::Failed(LocalError::HookFailed) <==> open is Hook && event is HookFailed
            &&& next == LocalOpen::Failed(LocalError::HookRejected(status)) <==> open is Hook && (event
                matches LocalEvent::Answered(answer) && answer.status == status && (status != 204
                || !answer.body_is_empty || answer.websocket || answer.stream))
            &&& next == LocalOpen::Failed(LocalError::NoEngine) <==> open is Engine && event == LocalEvent::Engine(false)
            &&& next == LocalOpen::Failed(LocalError::NoContainer) <==> open is Container && event
                == LocalEvent::Container(None)
            &&& next == LocalOpen::Failed(LocalError::Stopped) <==> open is Inspect && astray
            &&& next == LocalOpen::Failed(LocalError::ReadinessCancelled) <==> (open is Connect || open is Pause)
                && event is Cancelled
            &&& next == LocalOpen::Failed(LocalError::Restarted) <==> open is Confirm && astray
        }),
        run_in(open) matches Some(run) ==> open == LocalOpen::Inspect(run) || open == LocalOpen::Connect(run) || open
            == LocalOpen::Pause(run) || open == LocalOpen::Confirm(run) || open == LocalOpen::Connected(run),
        open matches LocalOpen::Inspect(run) ==> run_in(open) == Some(run),
        open matches LocalOpen::Confirm(run) ==> run_in(open) == Some(run),
{
}

/// The way to a container goes on only so, for every run: on a free connection to
/// the runtime, from there to the hook, after an empty 204 to the engine, then to
/// the container, to a look at the run that was found, from a look that finds it
/// running to the port, and from a connection to a last look, which makes it
/// count. A failed attempt leads to a pause, and the pause to another look.
pub proof fn ways_go_on_for_a_reason(open: LocalOpen, event: LocalEvent, run: u64)
    ensures
        ({
            let next = opened(open, event);
            &&& next is Slot ==> open is Slot
            &&& next is Runtime && !(open is Runtime) <==> open is Slot && event == LocalEvent::Slot(true)
            &&& next is Hook && !(open is Hook) <==> open is Runtime && event == LocalEvent::Runtime(true)
            &&& next is Engine && !(open is Engine) <==> open is Hook && (event matches LocalEvent::Answered(answer)
                && answer.status == 204 && answer.body_is_empty && !answer.websocket && !answer.stream)
            &&& next is Container && !(open is Container) <==> open is Engine && event == LocalEvent::Engine(true)
            &&& next == LocalOpen::Inspect(run) && open != next <==> (open is Container && event
                == LocalEvent::Container(Some(run))) || (open == LocalOpen::Pause(run) && event is Paused)
            &&& next == LocalOpen::Connect(run) && open != next <==> open == LocalOpen::Inspect(run) && event
                == LocalEvent::Inspected(true, run)
            &&& next == LocalOpen::Pause(run) && open != next <==> open == LocalOpen::Connect(run) && event
                == LocalEvent::Dialed(false)
            &&& next == LocalOpen::Confirm(run) && open != next <==> open == LocalOpen::Connect(run) && event
                == LocalEvent::Dialed(true)
            &&& next == LocalOpen::Connected(run) && open != next <==> open == LocalOpen::Confirm(run) && event
                == LocalEvent::Inspected(true, run)
            &&& open is Failed ==> next == open
        }),
{
}

/// The events of so many attempts that found the container in its run and no
/// connection, each with the pause after it.
pub open spec fn failed_attempts(run: u64, count: nat) -> Seq<LocalEvent>
    decreases count,
{
    if count == 0 {
        Seq::empty()
    } else {
        failed_attempts(run, (count - 1) as nat).push(LocalEvent::Inspected(true, run)).push(
            LocalEvent::Dialed(false),
        ).push(LocalEvent::Paused)
    }
}

proof fn one_more_told(history: Seq<LocalEvent>, event: LocalEvent)
    ensures
        opened_by(history.push(event)) == opened(opened_by(history), event),
{
    assert(history.push(event).drop_last() =~= history);
}

proof fn attempts_lead_back(history: Seq<LocalEvent>, run: u64, count: nat)
    requires
        opened_by(history) == LocalOpen::Inspect(run),
    ensures
        opened_by(history + failed_attempts(run, count)) == LocalOpen::Inspect(run),
    decreases count,
{
    if count == 0 {
        assert(history + failed_attempts(run, 0) =~= history);
    } else {
        let fewer = (count - 1) as nat;
        attempts_lead_back(history, run, fewer);
        let before = history + failed_attempts(run, fewer);
        let seen = before.push(LocalEvent::Inspected(true, run));
        let missed = seen.push(LocalEvent::Dialed(false));
        one_more_told(before, LocalEvent::Inspected(true, run));
        one_more_told(seen, LocalEvent::Dialed(false));
        one_more_told(missed, LocalEvent::Paused);
        assert(history + failed_attempts(run, count) =~= missed.push(LocalEvent::Paused));
    }
}

/// The way succeeds where the outside does: with a free connection, a runtime, a
/// hook that answers with an empty 204, an engine and a container, it leads to a
/// connection to that run of the container, whichever run it is and however many
/// attempts fail before the port opens.
pub proof fn ways_succeed(run: u64, answer: HookAnswer, count: nat)
    requires
        answer.status == 204,
        answer.body_is_empty,
        !answer.websocket,
        !answer.stream,
    ensures
        ({
            let start = seq![
                LocalEvent::Slot(true),
                LocalEvent::Runtime(true),
                LocalEvent::Answered(answer),
                LocalEvent::Engine(true),
                LocalEvent::Container(Some(run)),
            ];
            let tried = start + failed_attempts(run, count);
            &&& opened_by(tried.push(LocalEvent::Inspected(true, run))) == LocalOpen::Connect(run)
            &&& opened_by(
                tried.push(LocalEvent::Inspected(true, run)).push(LocalEvent::Dialed(true)).push(
                    LocalEvent::Inspected(true, run),
                ),
            ) == LocalOpen::Connected(run)
        }),
{
    let none = Seq::<LocalEvent>::empty();
    let slot = none.push(LocalEvent::Slot(true));
    let runtime = slot.push(LocalEvent::Runtime(true));
    let hook = runtime.push(LocalEvent::Answered(answer));
    let engine = hook.push(LocalEvent::Engine(true));
    let start = engine.push(LocalEvent::Container(Some(run)));
    one_more_told(none, LocalEvent::Slot(true));
    one_more_told(slot, LocalEvent::Runtime(true));
    one_more_told(runtime, LocalEvent::Answered(answer));
    one_more_told(hook, LocalEvent::Engine(true));
    one_more_told(engine, LocalEvent::Container(Some(run)));
    assert(start =~= seq![
        LocalEvent::Slot(true),
        LocalEvent::Runtime(true),
        LocalEvent::Answered(answer),
        LocalEvent::Engine(true),
        LocalEvent::Container(Some(run)),
    ]);
    attempts_lead_back(start, run, count);
    let tried = start + failed_attempts(run, count);
    let seen = tried.push(LocalEvent::Inspected(true, run));
    let dialed = seen.push(LocalEvent::Dialed(true));
    one_more_told(tried, LocalEvent::Inspected(true, run));
    one_more_told(seen, LocalEvent::Dialed(true));
    one_more_told(dialed, LocalEvent::Inspected(true, run));
}

/// The guard of the hook is not set before the hook is invoked, and armed while it
/// runs or when it is cancelled then. It has answered where the hook failed or was
/// rejected, and is disarmed after an empty 204, whatever comes of the way.
pub proof fn guards_follow_the_hook(open: LocalOpen)
    ensures
        guard_of(open) is Unset <==> open is Slot || open is Runtime || open == LocalOpen::Failed(LocalError::OwnerLimit)
            || open == LocalOpen::Failed(LocalError::NoRuntime),
        guard_of(open) is Armed <==> open is Hook || open == LocalOpen::Failed(LocalError::StartupCancelled),
        guard_of(open) is Answered <==> open == LocalOpen::Failed(LocalError::HookFailed) || (open
            matches LocalOpen::Failed(error) && error is HookRejected),
{
}

} // verus!
