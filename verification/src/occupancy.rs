//! How many connections of a mapping are in use at a time, over everything that
//! takes them and gives them back.
//!
//! The connections themselves are permits of a semaphore, which counts those that
//! are free. What it does with that count is the hypothesis here: a permit is
//! given exactly where one is free and is then free no more, and one that is
//! dropped is free again. What follows for the clients and the containers of a
//! mapping is proved.

use crate::local::{opened, LocalError, LocalEvent, LocalOpen};
use crate::mapping::{has_both_limits, permits_of, Mapping};
use crate::serve::{served, Serve, ServeEvent};
use vstd::prelude::*;

verus! {

/// The sum of a list of numbers.
pub open spec fn total(numbers: Seq<nat>) -> nat
    decreases numbers.len(),
{
    if numbers.len() == 0 {
        0
    } else {
        total(numbers.drop_last()) + numbers.last()
    }
}

proof fn total_after_change(numbers: Seq<nat>, which: int, number: nat)
    requires
        0 <= which < numbers.len(),
    ensures
        total(numbers.update(which, number)) + numbers[which] == total(numbers) + number,
    decreases numbers.len(),
{
    let changed = numbers.update(which, number);
    if which == numbers.len() - 1 {
        assert(changed.drop_last() =~= numbers.drop_last());
    } else {
        total_after_change(numbers.drop_last(), which, number);
        assert(changed.drop_last() =~= numbers.drop_last().update(which, number));
        assert(changed.last() == numbers.last());
    }
}

proof fn total_after_push(numbers: Seq<nat>, number: nat)
    ensures
        total(numbers.push(number)) == total(numbers) + number,
{
    assert(numbers.push(number).drop_last() =~= numbers);
}

/// A way to a container holds one of the owner's connections: it was given one
/// and has not failed.
pub open spec fn holds_connection(open: LocalOpen) -> bool {
    !(open is Slot) && !(open is Failed)
}

/// A request for a container of the owner, from a client of its own or from a
/// peer.
pub enum Arrival {
    /// On its way to the container, or connected to it.
    There(LocalOpen),
    /// Given up, or at the end of its stream.
    Gone,
}

/// What happens to the owner.
pub enum OwnerEvent {
    /// A request arrives.
    Arrived,
    /// The request of this number is told an event.
    Told(int, LocalEvent),
    /// The request of this number is given up, or its stream ends.
    Dropped(int),
}

/// The connections of a mapping's containers: the permits that are free, and the
/// requests that arrived.
pub struct Owner {
    pub free: nat,
    pub arrivals: Seq<Arrival>,
}

/// How many connections one request holds.
pub open spec fn arrival_share(arrival: Arrival) -> nat {
    match arrival {
        Arrival::There(open) => if holds_connection(open) {
            1
        } else {
            0
        },
        Arrival::Gone => 0,
    }
}

/// How many connections the requests hold, each by itself.
pub open spec fn arrival_shares(arrivals: Seq<Arrival>) -> Seq<nat> {
    arrivals.map_values(|arrival: Arrival| arrival_share(arrival))
}

/// How many of the owner's connections are in use.
pub open spec fn owner_in_use(owner: Owner) -> nat {
    total(arrival_shares(owner.arrivals))
}

/// The request of this number waits for a connection.
pub open spec fn asks_owner(owner: Owner, which: int) -> bool {
    0 <= which < owner.arrivals.len() && owner.arrivals[which] == Arrival::There(LocalOpen::Slot)
}

/// A request becomes another. The permit of one that held a connection and does
/// so no more is dropped, which frees it.
pub open spec fn arrival_becomes(owner: Owner, which: int, next: Arrival) -> Owner {
    let before = arrival_share(owner.arrivals[which]);
    Owner {
        free: if before > arrival_share(next) {
            owner.free + 1
        } else {
            owner.free
        },
        arrivals: owner.arrivals.update(which, next),
    }
}

/// The owner after an event. A connection that is given is free no more.
pub open spec fn owner_step(owner: Owner, event: OwnerEvent) -> Owner {
    match event {
        OwnerEvent::Arrived => Owner { arrivals: owner.arrivals.push(Arrival::There(LocalOpen::Slot)), ..owner },
        OwnerEvent::Told(which, told) => if asks_owner(owner, which) && told == LocalEvent::Slot(true) {
            Owner {
                free: (owner.free - 1) as nat,
                arrivals: owner.arrivals.update(which, Arrival::There(LocalOpen::Runtime)),
            }
        } else if 0 <= which < owner.arrivals.len() && owner.arrivals[which] is There {
            arrival_becomes(owner, which, Arrival::There(opened(owner.arrivals[which]->There_0, told)))
        } else {
            owner
        },
        OwnerEvent::Dropped(which) => if 0 <= which < owner.arrivals.len() {
            arrival_becomes(owner, which, Arrival::Gone)
        } else {
            owner
        },
    }
}

/// The event gives a connection as a semaphore does: to a request that waits for
/// one, exactly where one is free.
pub open spec fn owner_gives(owner: Owner, event: OwnerEvent) -> bool {
    match event {
        OwnerEvent::Told(which, LocalEvent::Slot(given)) => asks_owner(owner, which) ==> given == (owner.free > 0),
        _ => true,
    }
}

/// The connections of a mapping's containers after a history of events, from the
/// making of the mapping.
pub open spec fn owner_after(mapping: Mapping, history: Seq<OwnerEvent>) -> Owner
    decreases history.len(),
{
    if history.len() == 0 {
        Owner { free: permits_of(mapping.owner()), arrivals: Seq::empty() }
    } else {
        owner_step(owner_after(mapping, history.drop_last()), history.last())
    }
}

/// Every connection in the history was given as a semaphore does.
pub open spec fn owner_always_gives(mapping: Mapping, history: Seq<OwnerEvent>) -> bool {
    forall|i: int| 0 <= i < history.len() ==> owner_gives(owner_after(mapping, history.take(i)), #[trigger] history[i])
}

proof fn arrival_change_counts(owner: Owner, which: int, next: Arrival)
    requires
        0 <= which < owner.arrivals.len(),
    ensures
        total(arrival_shares(owner.arrivals.update(which, next))) + arrival_share(owner.arrivals[which])
            == owner_in_use(owner) + arrival_share(next),
{
    let shares = arrival_shares(owner.arrivals);
    total_after_change(shares, which, arrival_share(next));
    assert(arrival_shares(owner.arrivals.update(which, next)) =~= shares.update(which, arrival_share(next)));
}

/// The free connections of the owner and those in use together stay the same,
/// whatever happens to a request. One that is given a connection uses one more,
/// and is the only one to do so. One that fails while it holds a connection frees
/// exactly that one, and so does one that is given up or whose stream ends.
pub proof fn owner_connections_are_conserved(owner: Owner, event: OwnerEvent)
    requires
        owner_gives(owner, event),
    ensures
        owner_step(owner, event).free + owner_in_use(owner_step(owner, event)) == owner.free + owner_in_use(owner),
        owner_in_use(owner_step(owner, event)) > owner_in_use(owner) ==> (event matches OwnerEvent::Told(which, told)
            && asks_owner(owner, which) && told == LocalEvent::Slot(true)) && owner_step(owner, event).free + 1
            == owner.free,
        event matches OwnerEvent::Told(which, told) ==> 0 <= which < owner.arrivals.len() && (owner.arrivals[which]
            matches Arrival::There(open) && holds_connection(open) && opened(open, told) is Failed) ==> owner_step(
            owner,
            event,
        ).free == owner.free + 1,
        event matches OwnerEvent::Dropped(which) ==> 0 <= which < owner.arrivals.len() ==> owner_step(owner, event).free
            == owner.free + arrival_share(owner.arrivals[which]),
{
    match event {
        OwnerEvent::Arrived => {
            let asking = Arrival::There(LocalOpen::Slot);
            total_after_push(arrival_shares(owner.arrivals), arrival_share(asking));
            assert(arrival_shares(owner.arrivals.push(asking)) =~= arrival_shares(owner.arrivals).push(
                arrival_share(asking),
            ));
        },
        OwnerEvent::Told(which, told) => {
            if 0 <= which < owner.arrivals.len() && owner.arrivals[which] is There {
                let open = owner.arrivals[which]->There_0;
                arrival_change_counts(owner, which, Arrival::There(opened(open, told)));
            }
        },
        OwnerEvent::Dropped(which) => {
            if 0 <= which < owner.arrivals.len() {
                arrival_change_counts(owner, which, Arrival::Gone);
            }
        },
    }
}

/// The owner's cap holds for all requests together, whether they come from its
/// own clients or from peers: at all times the free connections and those in use
/// make up what the mapping is configured with. So no way around another node
/// gets past the cap.
pub proof fn owner_cap_holds(mapping: Mapping, history: Seq<OwnerEvent>)
    requires
        has_both_limits(mapping, mapping@),
        owner_always_gives(mapping, history),
    ensures
        owner_after(mapping, history).free + owner_in_use(owner_after(mapping, history)) == mapping@.max_connections,
        owner_in_use(owner_after(mapping, history)) <= mapping@.max_connections,
    decreases history.len(),
{
    if history.len() == 0 {
        assert(arrival_shares(Seq::<Arrival>::empty()) =~= Seq::<nat>::empty());
    } else {
        let before = history.drop_last();
        assert forall|i: int| 0 <= i < before.len() implies owner_gives(
            owner_after(mapping, before.take(i)),
            #[trigger] before[i],
        ) by {
            assert(before[i] == history[i]);
            assert(before.take(i) =~= history.take(i));
        }
        owner_cap_holds(mapping, before);
        assert(history.take(history.len() - 1) =~= before);
        assert(owner_gives(owner_after(mapping, before), history[history.len() - 1]));
        owner_connections_are_conserved(owner_after(mapping, before), history.last());
    }
}

/// Where as many connections are in use as the mapping is configured with, a
/// request that waits for one fails for that reason, before its hook is invoked,
/// and changes nothing for the others. Where fewer are, it is given one.
pub proof fn full_owner_refuses(mapping: Mapping, history: Seq<OwnerEvent>, which: int, given: bool)
    requires
        has_both_limits(mapping, mapping@),
        owner_always_gives(mapping, history),
        asks_owner(owner_after(mapping, history), which),
        owner_gives(owner_after(mapping, history), OwnerEvent::Told(which, LocalEvent::Slot(given))),
    ensures
        ({
            let owner = owner_after(mapping, history);
            let next = owner_step(owner, OwnerEvent::Told(which, LocalEvent::Slot(given)));
            if owner_in_use(owner) < mapping@.max_connections {
                next.arrivals == owner.arrivals.update(which, Arrival::There(LocalOpen::Runtime))
            } else {
                next.free == owner.free && next.arrivals == owner.arrivals.update(
                    which,
                    Arrival::There(LocalOpen::Failed(LocalError::OwnerLimit)),
                )
            }
        }),
{
    owner_cap_holds(mapping, history);
}

/// The connections of a mapping's clients: the permits that are free, the
/// listeners that the mapping has had, and how many clients are started.
pub struct Ingress {
    pub free: nat,
    pub listeners: Seq<Serve>,
    pub clients: nat,
}

/// What happens to the listeners of a mapping and to their clients.
pub enum IngressEvent {
    /// A listener begins to work for the mapping.
    Began,
    /// The listener of this number is told an event.
    Told(int, ServeEvent),
    /// The listener of this number is stopped wherever it is.
    Aborted(int),
    /// A client's connection ends.
    ClientGone,
}

/// How many connections a listener has in hand for a client that is not started
/// yet.
pub open spec fn listener_share(serve: Serve) -> nat {
    if serve is Start {
        1
    } else {
        0
    }
}

/// How many connections the listeners have in hand, each by itself.
pub open spec fn listener_shares(listeners: Seq<Serve>) -> Seq<nat> {
    listeners.map_values(|serve: Serve| listener_share(serve))
}

/// How many of the clients' connections are in use.
pub open spec fn ingress_in_use(ingress: Ingress) -> nat {
    total(listener_shares(ingress.listeners)) + ingress.clients
}

/// The listener of this number is at that step.
pub open spec fn listener_is(ingress: Ingress, which: int, serve: Serve) -> bool {
    0 <= which < ingress.listeners.len() && ingress.listeners[which] == serve
}

/// The listeners and the clients after an event. A connection that is given is
/// free no more. That of a client that ends is free again, and so is that which
/// a listener has in hand when it is stopped.
pub open spec fn ingress_step(ingress: Ingress, event: IngressEvent) -> Ingress {
    match event {
        IngressEvent::Began => Ingress { listeners: ingress.listeners.push(Serve::Accept), ..ingress },
        IngressEvent::Told(which, told) => if 0 <= which < ingress.listeners.len() {
            let serve = ingress.listeners[which];
            Ingress {
                free: if serve is TakeSlot && told == ServeEvent::Slot(true) {
                    (ingress.free - 1) as nat
                } else {
                    ingress.free
                },
                listeners: ingress.listeners.update(which, served(serve, told)),
                clients: if serve is Start && told is Started {
                    ingress.clients + 1
                } else {
                    ingress.clients
                },
            }
        } else {
            ingress
        },
        IngressEvent::Aborted(which) => if 0 <= which < ingress.listeners.len() {
            Ingress {
                free: ingress.free + listener_share(ingress.listeners[which]),
                listeners: ingress.listeners.update(which, Serve::Over),
                clients: ingress.clients,
            }
        } else {
            ingress
        },
        IngressEvent::ClientGone => if ingress.clients > 0 {
            Ingress { free: ingress.free + 1, clients: (ingress.clients - 1) as nat, ..ingress }
        } else {
            ingress
        },
    }
}

/// The event gives a connection as a semaphore does: to a listener that takes one
/// for a client, exactly where one is free.
pub open spec fn ingress_gives(ingress: Ingress, event: IngressEvent) -> bool {
    match event {
        IngressEvent::Told(which, ServeEvent::Slot(given)) => listener_is(ingress, which, Serve::TakeSlot) ==> given
            == (ingress.free > 0),
        _ => true,
    }
}

/// The connections of a mapping's clients after a history of events, from the
/// making of the mapping.
pub open spec fn ingress_after(mapping: Mapping, history: Seq<IngressEvent>) -> Ingress
    decreases history.len(),
{
    if history.len() == 0 {
        Ingress { free: permits_of(mapping.ingress()), listeners: Seq::empty(), clients: 0 }
    } else {
        ingress_step(ingress_after(mapping, history.drop_last()), history.last())
    }
}

/// Every connection in the history was given as a semaphore does.
pub open spec fn ingress_always_gives(mapping: Mapping, history: Seq<IngressEvent>) -> bool {
    forall|i: int|
        0 <= i < history.len() ==> ingress_gives(ingress_after(mapping, history.take(i)), #[trigger] history[i])
}

/// The free connections of the clients and those in use together stay the same,
/// whatever happens. A client that ends gives back exactly one.
pub proof fn ingress_connections_are_conserved(ingress: Ingress, event: IngressEvent)
    requires
        ingress_gives(ingress, event),
    ensures
        ingress_step(ingress, event).free + ingress_in_use(ingress_step(ingress, event)) == ingress.free
            + ingress_in_use(ingress),
        event is ClientGone && ingress.clients > 0 ==> ingress_step(ingress, event).free == ingress.free + 1,
{
    let shares = listener_shares(ingress.listeners);
    match event {
        IngressEvent::Began => {
            total_after_push(shares, 0);
            assert(listener_shares(ingress.listeners.push(Serve::Accept)) =~= shares.push(0));
        },
        IngressEvent::Told(which, told) => {
            if 0 <= which < ingress.listeners.len() {
                let next = served(ingress.listeners[which], told);
                total_after_change(shares, which, listener_share(next));
                assert(listener_shares(ingress.listeners.update(which, next)) =~= shares.update(
                    which,
                    listener_share(next),
                ));
            }
        },
        IngressEvent::Aborted(which) => {
            if 0 <= which < ingress.listeners.len() {
                total_after_change(shares, which, 0);
                assert(listener_shares(ingress.listeners.update(which, Serve::Over)) =~= shares.update(which, 0));
            }
        },
        IngressEvent::ClientGone => {},
    }
}

/// The cap on the clients of a mapping holds over all of its listeners, one after
/// the other or at a time: the free connections and those in use always make up
/// what the mapping is configured with, so it never has more clients than that.
pub proof fn ingress_cap_holds(mapping: Mapping, history: Seq<IngressEvent>)
    requires
        has_both_limits(mapping, mapping@),
        ingress_always_gives(mapping, history),
    ensures
        ingress_after(mapping, history).free + ingress_in_use(ingress_after(mapping, history))
            == mapping@.max_connections,
        ingress_after(mapping, history).clients <= mapping@.max_connections,
    decreases history.len(),
{
    if history.len() == 0 {
        assert(listener_shares(Seq::<Serve>::empty()) =~= Seq::<nat>::empty());
    } else {
        let before = history.drop_last();
        assert forall|i: int| 0 <= i < before.len() implies ingress_gives(
            ingress_after(mapping, before.take(i)),
            #[trigger] before[i],
        ) by {
            assert(before[i] == history[i]);
            assert(before.take(i) =~= history.take(i));
        }
        ingress_cap_holds(mapping, before);
        assert(history.take(history.len() - 1) =~= before);
        assert(ingress_gives(ingress_after(mapping, before), history[history.len() - 1]));
        ingress_connections_are_conserved(ingress_after(mapping, before), history.last());
    }
}

/// A client that the node does not admit, or who comes while the mapping has as
/// many clients as it may, is not started and takes up nothing, and the listener
/// goes on accepting.
pub proof fn refused_client_costs_nothing(mapping: Mapping, history: Seq<IngressEvent>, which: int, given: bool)
    requires
        has_both_limits(mapping, mapping@),
        ingress_always_gives(mapping, history),
        ingress_gives(ingress_after(mapping, history), IngressEvent::Told(which, ServeEvent::Slot(given))),
    ensures
        ({
            let ingress = ingress_after(mapping, history);
            let turned_away = Ingress { listeners: ingress.listeners.update(which, Serve::Accept), ..ingress };
            &&& listener_is(ingress, which, Serve::Admit) ==> ingress_step(
                ingress,
                IngressEvent::Told(which, ServeEvent::Admitted(false)),
            ) == turned_away
            &&& listener_is(ingress, which, Serve::TakeSlot) && ingress_in_use(ingress) >= mapping@.max_connections
                ==> ingress_step(ingress, IngressEvent::Told(which, ServeEvent::Slot(given))) == turned_away
            &&& listener_is(ingress, which, Serve::TakeSlot) && ingress_in_use(ingress) < mapping@.max_connections
                ==> given
        }),
{
    ingress_cap_holds(mapping, history);
}

} // verus!
