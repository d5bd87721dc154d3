//! A listener at work: which clients it takes, and when it stops.

use vstd::prelude::*;

verus! {

/// The time to wait after a client could not be accepted, in milliseconds.
pub const ACCEPT_RETRY_MS: u64 = 100;

/// What comes back from the outside.
#[derive(Clone, Copy, Debug, PartialEq, Eq, Structural)]
pub enum ServeEvent {
    /// The node shuts down, or serves another deployment.
    Stop,
    /// A client has come.
    Accepted,
    AcceptFailed,
    /// A connection has ended.
    Ended,
    /// The time to wait has passed.
    Paused,
    /// Whether the node takes clients.
    Admitted(bool),
    /// Whether one of the mapping's connections was free.
    Slot(bool),
    /// The connection of the client has been started.
    Started,
    /// The connections have ended, or the time for that has passed.
    Drained,
}

/// What a listener does next.
#[derive(Clone, Copy, Debug, PartialEq, Eq, Structural)]
pub enum Serve {
    /// Wait for a client, for the end of a connection, and for the stop.
    Accept,
    /// Wait for [`ACCEPT_RETRY_MS`].
    Pause,
    /// Ask the node to admit the client.
    Admit,
    /// Take one of the mapping's connections for the client.
    TakeSlot,
    /// Start the connection of the client, which holds both until its end.
    Start,
    /// Close the socket, and wait for the connections to end.
    Drain,
    /// Nothing more.
    Over,
}

/// The listener after an event. One that it does not wait for leaves it as it
/// is. A client that is not taken is dropped without a word.
pub open spec fn served(serve: Serve, event: ServeEvent) -> Serve {
    match (serve, event) {
        (Serve::Accept, ServeEvent::Stop) => Serve::Drain,
        (Serve::Accept, ServeEvent::Accepted) => Serve::Admit,
        (Serve::Accept, ServeEvent::AcceptFailed) => Serve::Pause,
        (Serve::Pause, ServeEvent::Paused) => Serve::Accept,
        (Serve::Admit, ServeEvent::Admitted(admitted)) => if admitted {
            Serve::TakeSlot
        } else {
            Serve::Accept
        },
        (Serve::TakeSlot, ServeEvent::Slot(free)) => if free {
            Serve::Start
        } else {
            Serve::Accept
        },
        (Serve::Start, ServeEvent::Started) => Serve::Accept,
        (Serve::Drain, ServeEvent::Drained) => Serve::Over,
        _ => serve,
    }
}

impl Serve {
    /// A listener that begins to work.
    pub fn new() -> (serve: Serve)
        ensures
            serve == Serve::Accept,
    {
        Serve::Accept
    }

    /// Takes the listener one step further.
    pub fn advance(self, event: ServeEvent) -> (next: Serve)
        ensures
            next == served(self, event),
    {
        match (self, event) {
            (Serve::Accept, ServeEvent::Stop) => Serve::Drain,
            (Serve::Accept, ServeEvent::Accepted) => Serve::Admit,
            (Serve::Accept, ServeEvent::AcceptFailed) => Serve::Pause,
            (Serve::Pause, ServeEvent::Paused) => Serve::Accept,
            (Serve::Admit, ServeEvent::Admitted(admitted)) => {
                if admitted {
                    Serve::TakeSlot
                } else {
                    Serve::Accept
                }
            },
            (Serve::TakeSlot, ServeEvent::Slot(free)) => {
                if free {
                    Serve::Start
                } else {
                    Serve::Accept
                }
            },
            (Serve::Start, ServeEvent::Started) => Serve::Accept,
            (Serve::Drain, ServeEvent::Drained) => Serve::Over,
            (serve, _) => serve,
        }
    }
}

/// The listener after a history of events.
pub open spec fn served_by(history: Seq<ServeEvent>) -> Serve
    decreases history.len(),
{
    if history.len() == 0 {
        Serve::Accept
    } else {
        served(served_by(history.drop_last()), history.last())
    }
}

/// How many clients have come so far to be asked about.
pub open spec fn came(history: Seq<ServeEvent>) -> nat
    decreases history.len(),
{
    if history.len() == 0 {
        0
    } else {
        let before = history.drop_last();
        let one: nat = if served_by(before) is Accept && history.last() is Accepted {
            1
        } else {
            0
        };
        came(before) + one
    }
}

/// How many clients the node has admitted.
pub open spec fn admitted(history: Seq<ServeEvent>) -> nat
    decreases history.len(),
{
    if history.len() == 0 {
        0
    } else {
        let before = history.drop_last();
        let one: nat = if served_by(before) is Admit && history.last() == ServeEvent::Admitted(true) {
            1
        } else {
            0
        };
        admitted(before) + one
    }
}

/// How many of the mapping's connections have been taken.
pub open spec fn slots_taken(history: Seq<ServeEvent>) -> nat
    decreases history.len(),
{
    if history.len() == 0 {
        0
    } else {
        let before = history.drop_last();
        let one: nat = if served_by(before) is TakeSlot && history.last() == ServeEvent::Slot(true) {
            1
        } else {
            0
        };
        slots_taken(before) + one
    }
}

/// How many connections have been started.
pub open spec fn started(history: Seq<ServeEvent>) -> nat
    decreases history.len(),
{
    if history.len() == 0 {
        0
    } else {
        let before = history.drop_last();
        let one: nat = if served_by(before) is Start && history.last() is Started {
            1
        } else {
            0
        };
        started(before) + one
    }
}

/// Each connection that is started has a client, an admission and one of the
/// mapping's connections of its own. Nothing that was taken is left over: every
/// one of the mapping's connections that was taken goes to a connection.
pub proof fn connections_are_paid_for(history: Seq<ServeEvent>)
    ensures
        started(history) <= slots_taken(history) <= admitted(history) <= came(history),
        slots_taken(history) == started(history) + (if served_by(history) is Start {
            1nat
        } else {
            0nat
        }),
        served_by(history) is TakeSlot ==> slots_taken(history) < admitted(history),
        served_by(history) is Admit ==> admitted(history) < came(history),
    decreases history.len(),
{
    if history.len() > 0 {
        connections_are_paid_for(history.drop_last());
    }
}

/// Once a listener has stopped it takes no client any more.
pub proof fn stopped_listener_takes_no_client(history: Seq<ServeEvent>, later: Seq<ServeEvent>)
    requires
        served_by(history) is Drain || served_by(history) is Over,
    ensures
        served_by(history + later) is Drain || served_by(history + later) is Over,
        started(history + later) == started(history),
        came(history + later) == came(history),
    decreases later.len(),
{
    if later.len() == 0 {
        assert(history + later =~= history);
    } else {
        stopped_listener_takes_no_client(history, later.drop_last());
        assert((history + later).drop_last() =~= history + later.drop_last());
        assert((history + later).last() == later.last());
    }
}

/// A listener that waits for a client stops when it is told to.
pub proof fn waiting_listener_stops(history: Seq<ServeEvent>)
    requires
        served_by(history) is Accept,
    ensures
        served_by(history.push(ServeEvent::Stop)) is Drain,
{
    assert(history.push(ServeEvent::Stop).drop_last() =~= history);
}

/// A listener moves only so. It drains when it is told to stop while it waits,
/// asks about a client that comes, and pauses when accepting fails. It takes a
/// connection for a client that is admitted, and starts one that gets it. It waits
/// again after the pause, after a client that is not admitted or gets no
/// connection, and after one that is started. It is over when it is drained.
pub proof fn listeners_move_for_a_reason(serve: Serve, event: ServeEvent)
    ensures
        ({
            let next = served(serve, event);
            &&& next is Drain && !(serve is Drain) <==> serve is Accept && event is Stop
            &&& next is Admit && !(serve is Admit) <==> serve is Accept && event is Accepted
            &&& next is Pause && !(serve is Pause) <==> serve is Accept && event is AcceptFailed
            &&& next is TakeSlot && !(serve is TakeSlot) <==> serve is Admit && event == ServeEvent::Admitted(true)
            &&& next is Start && !(serve is Start) <==> serve is TakeSlot && event == ServeEvent::Slot(true)
            &&& next is Over && !(serve is Over) <==> serve is Drain && event is Drained
            &&& next is Accept && !(serve is Accept) <==> {
                ||| serve is Pause && event is Paused
                ||| serve is Admit && event == ServeEvent::Admitted(false)
                ||| serve is TakeSlot && event == ServeEvent::Slot(false)
                ||| serve is Start && event is Started
            }
        }),
{
}

/// The events of a client that comes, is admitted, gets a connection and is
/// started, so many times.
pub open spec fn taken_clients(count: nat) -> Seq<ServeEvent>
    decreases count,
{
    if count == 0 {
        Seq::empty()
    } else {
        taken_clients((count - 1) as nat).push(ServeEvent::Accepted).push(ServeEvent::Admitted(true)).push(
            ServeEvent::Slot(true),
        ).push(ServeEvent::Started)
    }
}

proof fn one_more_event(history: Seq<ServeEvent>, event: ServeEvent)
    ensures
        served_by(history.push(event)) == served(served_by(history), event),
        started(history.push(event)) == started(history) + (if served_by(history) is Start && event is Started {
            1nat
        } else {
            0nat
        }),
{
    assert(history.push(event).drop_last() =~= history);
}

/// A listener that waits for clients starts every one that is admitted and gets a
/// connection, however many come, and waits for the next.
pub proof fn admitted_clients_are_started(history: Seq<ServeEvent>, count: nat)
    requires
        served_by(history) is Accept,
    ensures
        served_by(history + taken_clients(count)) is Accept,
        started(history + taken_clients(count)) == started(history) + count,
    decreases count,
{
    if count == 0 {
        assert(history + taken_clients(0) =~= history);
    } else {
        let fewer = (count - 1) as nat;
        admitted_clients_are_started(history, fewer);
        let before = history + taken_clients(fewer);
        let came = before.push(ServeEvent::Accepted);
        let asked = came.push(ServeEvent::Admitted(true));
        let given = asked.push(ServeEvent::Slot(true));
        one_more_event(before, ServeEvent::Accepted);
        one_more_event(came, ServeEvent::Admitted(true));
        one_more_event(asked, ServeEvent::Slot(true));
        one_more_event(given, ServeEvent::Started);
        assert(history + taken_clients(count) =~= given.push(ServeEvent::Started));
    }
}

} // verus!
