//! The way from an accepted client to the container behind its mapping.

use vstd::prelude::*;

verus! {

/// Where the owner of a target is, as the routing knows it.
#[derive(Debug, PartialEq, Eq)]
pub struct RemoteRoute {
    pub node: String,
    pub addr: String,
    pub epoch: u64,
    /// The version of the peer protocol that the node speaks.
    pub protocol: u64,
}

/// The mathematical value of a [`RemoteRoute`].
pub struct RouteView {
    pub node: Seq<char>,
    pub addr: Seq<char>,
    pub epoch: u64,
    pub protocol: u64,
}

impl View for RemoteRoute {
    type V = RouteView;

    open spec fn view(&self) -> RouteView {
        RouteView { node: self.node@, addr: self.addr@, epoch: self.epoch, protocol: self.protocol }
    }
}

impl RemoteRoute {
    /// Whether the node is asked to take the target over for want of capacity:
    /// the route carries no epoch of ownership.
    pub fn capacity_handoff(&self) -> (handoff: bool)
        ensures
            handoff == (self@.epoch == 0),
            handoff <==> self.epoch == 0,
    {
        self.epoch == 0
    }
}

/// How an attempt to reach a remote owner failed.
#[derive(Clone, Copy, Debug, PartialEq, Eq, Structural)]
pub struct RemoteFailure {
    /// The asked node reported the route as stale.
    pub stale_route: bool,
    /// No connection to the node came about.
    pub never_connected: bool,
}

/// What the routing is told of a failed attempt.
#[derive(Clone, Copy, Debug, PartialEq, Eq, Structural)]
pub enum Attempt {
    NotOwner,
    NeverConnected,
    /// The request may have had an effect.
    Ambiguous,
}

/// What a failure is reported as.
pub open spec fn attempt(failure: RemoteFailure) -> Attempt {
    if failure.stale_route {
        Attempt::NotOwner
    } else if failure.never_connected {
        Attempt::NeverConnected
    } else {
        Attempt::Ambiguous
    }
}

/// Classifies a failed attempt for the routing.
pub fn classify(failure: &RemoteFailure) -> (reported: Attempt)
    ensures
        reported == attempt(*failure),
        reported == Attempt::NotOwner <==> failure.stale_route,
        reported == Attempt::NeverConnected <==> !failure.stale_route && failure.never_connected,
        reported == Attempt::Ambiguous <==> !failure.stale_route && !failure.never_connected,
{
    if failure.stale_route {
        Attempt::NotOwner
    } else if failure.never_connected {
        Attempt::NeverConnected
    } else {
        Attempt::Ambiguous
    }
}

/// What comes back from the outside.
#[derive(Debug, PartialEq, Eq)]
pub enum DialEvent {
    /// No route was found.
    NotRouted,
    /// The owner is here, under this request.
    Local(u64),
    Remote(RemoteRoute),
    /// The stream to the container is there.
    Opened,
    LocalFailed,
    RemoteFailed(RemoteFailure),
    /// Whether the routing allows another attempt.
    Redispatch(bool),
    /// The routing has dropped the failed route.
    Forgotten,
    /// Establishing took longer than the mapping allows.
    TimedOut,
}

/// The mathematical value of a [`DialEvent`].
pub enum DialEventView {
    NotRouted,
    Local(u64),
    Remote(RouteView),
    Opened,
    LocalFailed,
    RemoteFailed(RemoteFailure),
    Redispatch(bool),
    Forgotten,
    TimedOut,
}

impl View for DialEvent {
    type V = DialEventView;

    open spec fn view(&self) -> DialEventView {
        match self {
            DialEvent::NotRouted => DialEventView::NotRouted,
            DialEvent::Local(request) => DialEventView::Local(*request),
            DialEvent::Remote(route) => DialEventView::Remote(route@),
            DialEvent::Opened => DialEventView::Opened,
            DialEvent::LocalFailed => DialEventView::LocalFailed,
            DialEvent::RemoteFailed(failure) => DialEventView::RemoteFailed(*failure),
            DialEvent::Redispatch(again) => DialEventView::Redispatch(*again),
            DialEvent::Forgotten => DialEventView::Forgotten,
            DialEvent::TimedOut => DialEventView::TimedOut,
        }
    }
}

/// Why no stream came about.
#[derive(Clone, Copy, Debug, PartialEq, Eq, Structural)]
pub enum DialError {
    NotRouted,
    /// The owner speaks another version of the peer protocol.
    Protocol,
    /// The last local attempt failed; its error is the one to report.
    Local,
    /// The last remote attempt failed; its error is the one to report.
    Remote,
    TimedOut,
}

/// The words that report an error, where they are this library's own.
pub open spec fn dial_message(error: DialError) -> Option<Seq<char>> {
    match error {
        DialError::Protocol => Some("incompatible TCP peer protocol"@),
        DialError::TimedOut => Some("TCP establishment timed out"@),
        _ => None,
    }
}

impl DialError {
    /// The words that report the error, where they are this library's own.
    pub fn message(&self) -> (message: Option<String>)
        ensures
            message is Some <==> dial_message(*self) is Some,
            message is Some ==> message->0@ == dial_message(*self)->0,
    {
        match self {
            DialError::Protocol => Some("incompatible TCP peer protocol".to_string()),
            DialError::TimedOut => Some("TCP establishment timed out".to_string()),
            _ => None,
        }
    }
}

/// How far the way to the container has come, and what it waits for.
#[derive(Debug, PartialEq, Eq)]
pub enum Dial {
    /// For a route to the owner.
    Route,
    /// For the container of the local owner.
    OpenLocal(u64),
    /// For the stream of the remote owner.
    OpenRemote(RemoteRoute),
    /// For leave to try again after an attempt failed in this way.
    AskAgain(RemoteRoute, Attempt),
    /// For the routing to drop the failed route.
    Forget(RemoteRoute),
    /// For nothing: the stream is there.
    Connected,
    /// For nothing: there is no stream.
    Failed(DialError),
}

/// The mathematical value of a [`Dial`].
pub enum DialView {
    Route,
    OpenLocal(u64),
    OpenRemote(RouteView),
    AskAgain(RouteView, Attempt),
    Forget(RouteView),
    Connected,
    Failed(DialError),
}

impl View for Dial {
    type V = DialView;

    open spec fn view(&self) -> DialView {
        match self {
            Dial::Route => DialView::Route,
            Dial::OpenLocal(request) => DialView::OpenLocal(*request),
            Dial::OpenRemote(route) => DialView::OpenRemote(route@),
            Dial::AskAgain(route, attempt) => DialView::AskAgain(route@, *attempt),
            Dial::Forget(route) => DialView::Forget(route@),
            Dial::Connected => DialView::Connected,
            Dial::Failed(error) => DialView::Failed(*error),
        }
    }
}

/// The way after an event, on a node that speaks `protocol` with its peers. An
/// event that it does not wait for leaves it as it is.
pub open spec fn dialed(dial: DialView, event: DialEventView, protocol: u64) -> DialView {
    match (dial, event) {
        (DialView::Connected, _) => DialView::Connected,
        (DialView::Failed(error), _) => DialView::Failed(error),
        (_, DialEventView::TimedOut) => DialView::Failed(DialError::TimedOut),
        (DialView::Route, DialEventView::NotRouted) => DialView::Failed(DialError::NotRouted),
        (DialView::Route, DialEventView::Local(request)) => DialView::OpenLocal(request),
        (DialView::Route, DialEventView::Remote(route)) => if route.protocol == protocol {
            DialView::OpenRemote(route)
        } else {
            DialView::Failed(DialError::Protocol)
        },
        (DialView::OpenLocal(_), DialEventView::Opened) => DialView::Connected,
        (DialView::OpenLocal(_), DialEventView::LocalFailed) => DialView::Failed(DialError::Local),
        (DialView::OpenRemote(_), DialEventView::Opened) => DialView::Connected,
        (DialView::OpenRemote(route), DialEventView::RemoteFailed(failure)) => DialView::AskAgain(
            route,
            attempt(failure),
        ),
        (DialView::AskAgain(route, _), DialEventView::Redispatch(again)) => if again {
            DialView::Forget(route)
        } else {
            DialView::Failed(DialError::Remote)
        },
        (DialView::Forget(_), DialEventView::Forgotten) => DialView::Route,
        _ => dial,
    }
}

impl Dial {
    /// The way of a client that has just been admitted.
    pub fn new() -> (dial: Dial)
        ensures
            dial@ == DialView::Route,
    {
        Dial::Route
    }

    /// Takes the way one step further, on a node that speaks `protocol`.
    pub fn advance(self, event: DialEvent, protocol: u64) -> (next: Dial)
        ensures
            next@ == dialed(self@, event@, protocol),
    {
        match (self, event) {
            (Dial::Connected, _) => Dial::Connected,
            (Dial::Failed(error), _) => Dial::Failed(error),
            (_, DialEvent::TimedOut) => Dial::Failed(DialError::TimedOut),
            (Dial::Route, DialEvent::NotRouted) => Dial::Failed(DialError::NotRouted),
            (Dial::Route, DialEvent::Local(request)) => Dial::OpenLocal(request),
            (Dial::Route, DialEvent::Remote(route)) => {
                if route.protocol == protocol {
                    Dial::OpenRemote(route)
                } else {
                    Dial::Failed(DialError::Protocol)
                }
            },
            (Dial::OpenLocal(_), DialEvent::Opened) => Dial::Connected,
            (Dial::OpenLocal(_), DialEvent::LocalFailed) => Dial::Failed(DialError::Local),
            (Dial::OpenRemote(_), DialEvent::Opened) => Dial::Connected,
            (Dial::OpenRemote(route), DialEvent::RemoteFailed(failure)) => {
                let reported = classify(&failure);
                Dial::AskAgain(route, reported)
            },
            (Dial::AskAgain(route, _), DialEvent::Redispatch(again)) => {
                if again {
                    Dial::Forget(route)
                } else {
                    Dial::Failed(DialError::Remote)
                }
            },
            (Dial::Forget(_), DialEvent::Forgotten) => Dial::Route,
            (dial, _) => dial,
        }
    }
}

/// The way after a history of events.
pub open spec fn came_to(history: Seq<DialEventView>, protocol: u64) -> DialView
    decreases history.len(),
{
    if history.len() == 0 {
        DialView::Route
    } else {
        dialed(came_to(history.drop_last(), protocol), history.last(), protocol)
    }
}

/// The route that a way is about.
pub open spec fn route_in(dial: DialView) -> Option<RouteView> {
    match dial {
        DialView::OpenRemote(route) => Some(route),
        DialView::AskAgain(route, _) => Some(route),
        DialView::Forget(route) => Some(route),
        _ => None,
    }
}

/// No node is asked that speaks another version of the peer protocol, and each
/// one that is asked was named by the routing.
pub proof fn asked_nodes_are_routed_and_compatible(history: Seq<DialEventView>, protocol: u64)
    ensures
        route_in(came_to(history, protocol)) matches Some(route) ==> {
            &&& route.protocol == protocol
            &&& history.contains(DialEventView::Remote(route))
        },
    decreases history.len(),
{
    if history.len() > 0 {
        let before = history.drop_last();
        asked_nodes_are_routed_and_compatible(before, protocol);
        if let Some(route) = route_in(came_to(history, protocol)) {
            let event = DialEventView::Remote(route);
            if before.contains(event) {
                let i = choose|i: int| 0 <= i < before.len() && before[i] == event;
                assert(history[i] == event);
            } else {
                assert(history[history.len() - 1] == event);
            }
        }
    }
}

/// How often a remote owner was asked.
pub open spec fn asked(history: Seq<DialEventView>, protocol: u64) -> nat
    decreases history.len(),
{
    if history.len() == 0 {
        0
    } else {
        let before = history.drop_last();
        let again: nat = if came_to(before, protocol) is Route && came_to(history, protocol) is OpenRemote {
            1
        } else {
            0
        };
        asked(before, protocol) + again
    }
}

/// How often the routing allowed another attempt.
pub open spec fn allowed(history: Seq<DialEventView>, protocol: u64) -> nat
    decreases history.len(),
{
    if history.len() == 0 {
        0
    } else {
        let before = history.drop_last();
        let again: nat = if came_to(before, protocol) is AskAgain && history.last() == DialEventView::Redispatch(
            true,
        ) {
            1
        } else {
            0
        };
        allowed(before, protocol) + again
    }
}

/// A remote owner is asked once, and once more for each time that the routing
/// allows it.
pub proof fn attempts_are_allowed(history: Seq<DialEventView>, protocol: u64)
    ensures
        asked(history, protocol) <= allowed(history, protocol) + 1,
        came_to(history, protocol) is Route || came_to(history, protocol) is Forget ==> asked(history, protocol)
            == allowed(history, protocol),
        came_to(history, protocol) is OpenRemote || came_to(history, protocol) is AskAgain ==> asked(
            history,
            protocol,
        ) == allowed(history, protocol) + 1,
    decreases history.len(),
{
    if history.len() > 0 {
        attempts_are_allowed(history.drop_last(), protocol);
    }
}

/// A failed route is dropped before the next one is asked for: from a failed
/// attempt the way back to routing leads only through dropping the same route.
pub proof fn failed_routes_are_forgotten(dial: DialView, event: DialEventView, protocol: u64)
    ensures
        dialed(dial, event, protocol) is Route && !(dial is Route) ==> dial is Forget && event is Forgotten,
        dialed(dial, event, protocol) is Forget && !(dial is Forget) ==> {
            &&& dial is AskAgain
            &&& event == DialEventView::Redispatch(true)
            &&& route_in(dialed(dial, event, protocol)) == route_in(dial)
        },
        dialed(dial, event, protocol) is AskAgain && !(dial is AskAgain) ==> {
            &&& dial is OpenRemote
            &&& event is RemoteFailed
            &&& route_in(dialed(dial, event, protocol)) == route_in(dial)
        },
{
}

/// Once there is a stream, or certainly none, nothing changes that.
pub proof fn outcome_is_final(history: Seq<DialEventView>, later: Seq<DialEventView>, protocol: u64)
    requires
        came_to(history, protocol) is Connected || came_to(history, protocol) is Failed,
    ensures
        came_to(history + later, protocol) == came_to(history, protocol),
    decreases later.len(),
{
    if later.len() == 0 {
        assert(history + later =~= history);
    } else {
        outcome_is_final(history, later.drop_last(), protocol);
        assert((history + later).drop_last() =~= history + later.drop_last());
        assert((history + later).last() == later.last());
    }
}

/// Establishing ends in time: whatever it waits for, it fails when the time has
/// passed.
pub proof fn establishing_is_timed(history: Seq<DialEventView>, protocol: u64)
    ensures
        ({
            let timed = came_to(history.push(DialEventView::TimedOut), protocol);
            timed is Connected || timed is Failed
        }),
{
    assert(history.push(DialEventView::TimedOut).drop_last() =~= history);
}

/// A failed attempt is reported for what it was: as refused by a node that is not
/// the owner exactly where that node reported the route as stale, as never
/// connected exactly where it did not and no connection came about, and as
/// possibly effective otherwise. The report is about the route that was tried.
pub proof fn failures_are_reported_for_what_they_were(route: RouteView, failure: RemoteFailure, protocol: u64)
    ensures
        ({
            let next = dialed(DialView::OpenRemote(route), DialEventView::RemoteFailed(failure), protocol);
            &&& next is AskAgain && next->AskAgain_0 == route
            &&& next->AskAgain_1 == Attempt::NotOwner <==> failure.stale_route
            &&& next->AskAgain_1 == Attempt::NeverConnected <==> !failure.stale_route && failure.never_connected
            &&& next->AskAgain_1 == Attempt::Ambiguous <==> !failure.stale_route && !failure.never_connected
        }),
        attempt(failure) == Attempt::NotOwner <==> failure.stale_route,
        attempt(failure) == Attempt::NeverConnected <==> !failure.stale_route && failure.never_connected,
        attempt(failure) == Attempt::Ambiguous <==> !failure.stale_route && !failure.never_connected,
{
}

/// The way to the owner moves only so, for every route and request. A local owner
/// is opened, and so is a remote one that speaks this node's protocol. Either
/// brings the stream. A failed remote attempt asks for leave to try again, with
/// leave the route is dropped, and then routing begins anew.
pub proof fn dials_move_for_a_reason(
    dial: DialView,
    event: DialEventView,
    protocol: u64,
    route: RouteView,
    request: u64,
)
    ensures
        ({
            let next = dialed(dial, event, protocol);
            &&& next == DialView::OpenLocal(request) && dial != next <==> dial is Route && event == DialEventView::Local(
                request,
            )
            &&& next == DialView::OpenRemote(route) && dial != next <==> dial is Route && event == DialEventView::Remote(
                route,
            ) && route.protocol == protocol
            &&& (next is AskAgain && next->AskAgain_0 == route && dial != next) <==> dial == DialView::OpenRemote(route)
                && event is RemoteFailed
            &&& next == DialView::Forget(route) && dial != next <==> (dial is AskAgain && dial->AskAgain_0 == route)
                && event == DialEventView::Redispatch(true)
            &&& next is Route && !(dial is Route) <==> dial is Forget && event is Forgotten
            &&& next is Connected && !(dial is Connected) <==> (dial is OpenLocal || dial is OpenRemote) && event is Opened
        }),
{
}

/// The way to the owner fails only for these reasons, and then for sure: no route,
/// an owner that speaks another protocol, a failed local attempt, a remote one
/// after which no other is allowed, or a time that has passed before the stream
/// was there.
pub proof fn dials_fail_for_a_reason(dial: DialView, event: DialEventView, protocol: u64)
    requires
        !(dial is Failed),
    ensures
        ({
            let next = dialed(dial, event, protocol);
            &&& next == DialView::Failed(DialError::NotRouted) <==> dial is Route && event is NotRouted
            &&& next == DialView::Failed(DialError::Protocol) <==> dial is Route && (event matches DialEventView::Remote(
                route,
            ) && route.protocol != protocol)
            &&& next == DialView::Failed(DialError::Local) <==> dial is OpenLocal && event is LocalFailed
            &&& next == DialView::Failed(DialError::Remote) <==> dial is AskAgain && event == DialEventView::Redispatch(
                false,
            )
            &&& next == DialView::Failed(DialError::TimedOut) <==> !(dial is Connected) && event is TimedOut
        }),
{
}

/// An attempt at a remote owner that failed, and how.
pub struct FailedAttempt {
    pub route: RouteView,
    pub failure: RemoteFailure,
}

/// The events of failed attempts, after each of which another was allowed.
pub open spec fn repeated_attempts(attempts: Seq<FailedAttempt>) -> Seq<DialEventView>
    decreases attempts.len(),
{
    if attempts.len() == 0 {
        Seq::empty()
    } else {
        repeated_attempts(attempts.drop_last()).push(DialEventView::Remote(attempts.last().route)).push(
            DialEventView::RemoteFailed(attempts.last().failure),
        ).push(DialEventView::Redispatch(true)).push(DialEventView::Forgotten)
    }
}

proof fn one_more_dialed(history: Seq<DialEventView>, event: DialEventView, protocol: u64)
    ensures
        came_to(history.push(event), protocol) == dialed(came_to(history, protocol), event, protocol),
{
    assert(history.push(event).drop_last() =~= history);
}

/// The way succeeds where the outside does: however many attempts at owners of
/// this node's protocol fail and may be repeated, the next owner that is found,
/// here or elsewhere, is asked, and its stream is the one that is had.
pub proof fn dials_succeed(attempts: Seq<FailedAttempt>, route: RouteView, request: u64, protocol: u64)
    requires
        forall|i: int| 0 <= i < attempts.len() ==> (#[trigger] attempts[i]).route.protocol == protocol,
        route.protocol == protocol,
    ensures
        ({
            let tried = repeated_attempts(attempts);
            &&& came_to(tried, protocol) is Route
            &&& came_to(tried.push(DialEventView::Remote(route)), protocol) == DialView::OpenRemote(route)
            &&& came_to(tried.push(DialEventView::Remote(route)).push(DialEventView::Opened), protocol) is Connected
            &&& came_to(tried.push(DialEventView::Local(request)), protocol) == DialView::OpenLocal(request)
            &&& came_to(tried.push(DialEventView::Local(request)).push(DialEventView::Opened), protocol) is Connected
        }),
    decreases attempts.len(),
{
    let tried = repeated_attempts(attempts);
    if attempts.len() > 0 {
        let last = attempts.last();
        dials_succeed(attempts.drop_last(), route, request, protocol);
        let before = repeated_attempts(attempts.drop_last());
        let remote = before.push(DialEventView::Remote(last.route));
        let failed = remote.push(DialEventView::RemoteFailed(last.failure));
        let again = failed.push(DialEventView::Redispatch(true));
        one_more_dialed(before, DialEventView::Remote(last.route), protocol);
        one_more_dialed(remote, DialEventView::RemoteFailed(last.failure), protocol);
        one_more_dialed(failed, DialEventView::Redispatch(true), protocol);
        one_more_dialed(again, DialEventView::Forgotten, protocol);
    }
    one_more_dialed(tried, DialEventView::Remote(route), protocol);
    one_more_dialed(tried.push(DialEventView::Remote(route)), DialEventView::Opened, protocol);
    one_more_dialed(tried, DialEventView::Local(request), protocol);
    one_more_dialed(tried.push(DialEventView::Local(request)), DialEventView::Opened, protocol);
}

/// Routes, events and ways are seen as they are, and the library has words of its
/// own for two of the errors.
pub proof fn dials_are_seen_as_they_are(route: RemoteRoute, event: DialEvent, dial: Dial)
    ensures
        route@.node == route.node@,
        route@.addr == route.addr@,
        route@.epoch == route.epoch,
        route@.protocol == route.protocol,
        event@ == match event {
            DialEvent::NotRouted => DialEventView::NotRouted,
            DialEvent::Local(request) => DialEventView::Local(request),
            DialEvent::Remote(route) => DialEventView::Remote(route@),
            DialEvent::Opened => DialEventView::Opened,
            DialEvent::LocalFailed => DialEventView::LocalFailed,
            DialEvent::RemoteFailed(failure) => DialEventView::RemoteFailed(failure),
            DialEvent::Redispatch(again) => DialEventView::Redispatch(again),
            DialEvent::Forgotten => DialEventView::Forgotten,
            DialEvent::TimedOut => DialEventView::TimedOut,
        },
        dial@ == match dial {
            Dial::Route => DialView::Route,
            Dial::OpenLocal(request) => DialView::OpenLocal(request),
            Dial::OpenRemote(route) => DialView::OpenRemote(route@),
            Dial::AskAgain(route, attempt) => DialView::AskAgain(route@, attempt),
            Dial::Forget(route) => DialView::Forget(route@),
            Dial::Connected => DialView::Connected,
            Dial::Failed(error) => DialView::Failed(error),
        },
        dial_message(DialError::Protocol) == Some("incompatible TCP peer protocol"@),
        dial_message(DialError::TimedOut) == Some("TCP establishment timed out"@),
        dial_message(DialError::NotRouted) is None,
        dial_message(DialError::Local) is None,
        dial_message(DialError::Remote) is None,
{
}

} // verus!
