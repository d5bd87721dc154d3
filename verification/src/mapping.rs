//! Mappings at work: each with the connections that it may have at a time.

use crate::config::{within_limits, Route};
use crate::metadata::SectionView;
use crate::prepare::{
    first_on, mapping_of, plan_listener, planned, plans_follow_the_addresses,
    same_generation_keeps_everything, script_mappings, ListenerPlan, SocketPlan,
};
use crate::reading::{read_routes_are_sound, reads_as};
use crate::target::{mappings_of, Ip, MappingConfig, MappingView};
use std::sync::Arc;
use tokio::sync::{OwnedSemaphorePermit, Semaphore};
use vstd::prelude::*;

verus! {

/// The semaphore of `tokio`, carried as an opaque value.
#[verifier::external_type_specification]
#[verifier::external_body]
pub struct ExSemaphore(tokio::sync::Semaphore);

/// The permit of a semaphore of `tokio`, carried as an opaque value.
#[verifier::external_type_specification]
#[verifier::external_body]
pub struct ExOwnedSemaphorePermit(tokio::sync::OwnedSemaphorePermit);

/// The number of permits that a semaphore was made with.
pub uninterp spec fn permits_of(slots: tokio::sync::Semaphore) -> nat;

/// The semaphore that a permit came from.
pub uninterp spec fn source_of(permit: tokio::sync::OwnedSemaphorePermit) -> tokio::sync::Semaphore;

/// Calls `tokio::sync::Semaphore::new`. Claims that the semaphore was made with
/// that many permits, and that it is none of those that are given as known: each
/// call makes a counter and a list of waiters of its own. The call panics above
/// `Semaphore::MAX_PERMITS`, which is an eighth of `usize::MAX`.
#[allow(unused_variables)]
#[verifier::external_body]
fn new_semaphore(permits: usize, known: &[Arc<Semaphore>]) -> (slots: Semaphore)
    requires
        permits <= usize::MAX / 8,
    ensures
        permits_of(slots) == permits,
        forall|i: int| 0 <= i < known@.len() ==> slots != *(#[trigger] known@[i]),
{
    Semaphore::new(permits)
}

/// Calls `tokio::sync::Semaphore::try_acquire_owned` and drops the reason why
/// there is no permit. Claims that a permit that comes back is one of the given
/// semaphore. Whether one does is left open: it depends on the permits that are
/// out at the time, all over the program.
#[verifier::external_body]
fn try_permit(slots: Arc<Semaphore>) -> (permit: Option<OwnedSemaphorePermit>)
    ensures
        permit is Some ==> source_of(permit->0) == *slots,
{
    slots.try_acquire_owned().ok()
}

/// Copies a list of semaphores, each of which stays the same semaphore.
fn copy_semaphores(semaphores: &[Arc<Semaphore>]) -> (copy: Vec<Arc<Semaphore>>)
    ensures
        copy@ == semaphores@,
{
    let mut copy: Vec<Arc<Semaphore>> = Vec::new();
    let mut i: usize = 0;
    while i < semaphores.len()
        invariant
            i <= semaphores@.len(),
            copy@ == semaphores@.take(i as int),
        decreases semaphores@.len() - i,
    {
        copy.push(semaphores[i].clone());
        i += 1;
        assert(copy@ =~= semaphores@.take(i as int));
    }
    assert(copy@ =~= semaphores@);
    copy
}

/// A mapping with its connections: those that clients may have on this node,
/// and those that the containers of this node may have.
#[derive(Debug)]
pub struct Mapping {
    config: MappingConfig,
    ingress_slots: Arc<Semaphore>,
    owner_slots: Arc<Semaphore>,
}

impl View for Mapping {
    type V = MappingView;

    closed spec fn view(&self) -> MappingView {
        self.config@
    }
}

impl Mapping {
    /// Where the connections of clients come from.
    pub closed spec fn ingress(self) -> Semaphore {
        *self.ingress_slots
    }

    /// Where the connections of containers come from.
    pub closed spec fn owner(self) -> Semaphore {
        *self.owner_slots
    }

    #[verifier::type_invariant]
    spec fn limited(self) -> bool {
        &&& permits_of(*self.ingress_slots) == self.config.max_connections
        &&& permits_of(*self.owner_slots) == self.config.max_connections
        &&& *self.ingress_slots != *self.owner_slots
    }

    /// A mapping with all of its connections free. Those of clients and those
    /// of containers are counted apart.
    pub fn new(config: MappingConfig) -> (mapping: Mapping)
        requires
            config@.max_connections <= usize::MAX / 8,
        ensures
            has_both_limits(mapping, config@),
            mapping@ == config@,
            permits_of(mapping.ingress()) == config.max_connections,
            permits_of(mapping.owner()) == config.max_connections,
            mapping.ingress() != mapping.owner(),
    {
        Mapping::new_apart(config, &[])
    }

    /// A mapping with all of its connections free, which are counted apart from
    /// those of the known semaphores.
    fn new_apart(config: MappingConfig, known: &[Arc<Semaphore>]) -> (mapping: Mapping)
        requires
            config@.max_connections <= usize::MAX / 8,
        ensures
            has_both_limits(mapping, config@),
            forall|i: int|
                0 <= i < known@.len() ==> mapping.ingress() != *(#[trigger] known@[i]) && mapping.owner() != *known@[i],
    {
        let limit = config.max_connections;
        let ingress_slots = Arc::new(new_semaphore(limit, known));
        let mut taken = copy_semaphores(known);
        taken.push(ingress_slots.clone());
        let owner_slots = Arc::new(new_semaphore(limit, taken.as_slice()));
        assert(taken@[known@.len() as int] == ingress_slots);
        assert forall|i: int| 0 <= i < known@.len() implies *owner_slots != *(#[trigger] known@[i]) by {
            assert(taken@[i] == known@[i]);
        }
        Mapping { config, ingress_slots, owner_slots }
    }

    /// Adds the mapping's semaphores to those that are known.
    fn make_known(&self, known: &mut Vec<Arc<Semaphore>>)
        ensures
            final(known)@.len() == old(known)@.len() + 2,
            forall|i: int| 0 <= i < old(known)@.len() ==> #[trigger] final(known)@[i] == old(known)@[i],
            *final(known)@[old(known)@.len() as int] == self.ingress(),
            *final(known)@[old(known)@.len() as int + 1] == self.owner(),
    {
        known.push(self.ingress_slots.clone());
        known.push(self.owner_slots.clone());
    }

    /// How the mapping is configured.
    pub fn config(&self) -> (config: &MappingConfig)
        ensures
            config@ == self@,
    {
        &self.config
    }

    /// The time that establishing a connection may take, in milliseconds.
    pub fn timeout(&self) -> (millis: u64)
        ensures
            millis == self@.connect_timeout_ms,
    {
        self.config.connect_timeout_ms
    }

    /// Takes one of the connections of clients, where one is free. It is free
    /// again when the permit is dropped.
    pub fn take_ingress(&self) -> (permit: Option<OwnedSemaphorePermit>)
        ensures
            permit is Some ==> source_of(permit->0) == self.ingress(),
            permit is Some ==> permits_of(source_of(permit->0)) == self@.max_connections,
    {
        proof {
            use_type_invariant(self);
        }
        try_permit(self.ingress_slots.clone())
    }

    /// Takes one of the connections of containers, where one is free. It is free
    /// again when the permit is dropped.
    pub fn take_owner(&self) -> (permit: Option<OwnedSemaphorePermit>)
        ensures
            permit is Some ==> source_of(permit->0) == self.owner(),
            permit is Some ==> permits_of(source_of(permit->0)) == self@.max_connections,
    {
        proof {
            use_type_invariant(self);
        }
        try_permit(self.owner_slots.clone())
    }
}

/// How a list of mappings is configured.
pub open spec fn configs_in(mappings: Seq<Arc<Mapping>>) -> Seq<MappingView> {
    mappings.map_values(|mapping: Arc<Mapping>| mapping@)
}

/// A listener that is being prepared.
#[derive(Debug)]
pub struct PreparedListener {
    pub socket: SocketPlan,
    pub mapping: Arc<Mapping>,
}

/// The mapping is configured so, and has as many connections as are allowed for
/// clients, and as many again for containers.
pub open spec fn has_both_limits(mapping: Mapping, config: MappingView) -> bool {
    &&& mapping@ == config
    &&& permits_of(mapping.ingress()) == config.max_connections
    &&& permits_of(mapping.owner()) == config.max_connections
    &&& mapping.ingress() != mapping.owner()
}

/// No connection of one mapping is counted with those of the other.
pub open spec fn counted_apart(one: Mapping, other: Mapping) -> bool {
    &&& one.ingress() != other.ingress()
    &&& one.ingress() != other.owner()
    &&& one.owner() != other.ingress()
    &&& one.owner() != other.owner()
}

/// The listener is made as it is planned: it goes on with an earlier mapping,
/// and with the connections that are out, or starts afresh, with connections
/// that are counted apart from those of every earlier mapping.
pub open spec fn prepared_as(earlier: Seq<Arc<Mapping>>, listener: PreparedListener, plan: ListenerPlan) -> bool {
    &&& listener.socket == plan.socket
    &&& match plan.mapping {
        Some(place) => listener.mapping == earlier[place as int],
        None => forall|j: int| 0 <= j < earlier.len() ==> counted_apart(*listener.mapping, *(#[trigger] earlier[j])),
    }
}

/// No earlier mapping goes on for that configuration.
pub open spec fn starts_afresh(earlier: Seq<MappingView>, config: MappingView) -> bool {
    forall|place: int| #[trigger] first_on(earlier, config.listen, place) ==> earlier[place] != config
}

/// The listener is prepared for that configuration.
pub open spec fn prepared(earlier: Seq<Arc<Mapping>>, config: MappingView, listener: PreparedListener) -> bool {
    &&& has_both_limits(*listener.mapping, config)
    &&& exists|plan: ListenerPlan|
        #[trigger] planned(configs_in(earlier), config, plan) && prepared_as(earlier, listener, plan)
}

/// The configurations of a list of mappings.
fn copy_configs(mappings: &[Arc<Mapping>]) -> (configs: Vec<MappingConfig>)
    ensures
        mappings_of(configs@) == configs_in(mappings@),
{
    let mut configs: Vec<MappingConfig> = Vec::new();
    let mut i: usize = 0;
    while i < mappings.len()
        invariant
            i <= mappings@.len(),
            configs@.len() == i,
            forall|j: int| 0 <= j < i ==> (#[trigger] configs@[j])@ == mappings@[j]@,
        decreases mappings@.len() - i,
    {
        configs.push(mappings[i].config().clone());
        i += 1;
    }
    assert(mappings_of(configs@) =~= configs_in(mappings@));
    configs
}

/// The semaphores of the mapping stand at that place in the list.
spec fn knows(known: Seq<Arc<Semaphore>>, place: int, mapping: Mapping) -> bool {
    &&& 0 <= place && place + 1 < known.len()
    &&& *known[place] == mapping.ingress()
    &&& *known[place + 1] == mapping.owner()
}

/// A mapping whose semaphores are none of those that are known is counted apart
/// from each mapping that is.
proof fn not_known(known: Seq<Arc<Semaphore>>, place: int, mapping: Mapping, fresh: Mapping)
    requires
        knows(known, place, mapping),
        forall|i: int|
            0 <= i < known.len() ==> fresh.ingress() != *(#[trigger] known[i]) && fresh.owner() != *known[i],
    ensures
        counted_apart(fresh, mapping),
        counted_apart(mapping, fresh),
{
}

/// A configuration with which an earlier mapping goes on does not start afresh.
proof fn kept_is_not_fresh(earlier: Seq<MappingView>, config: MappingView, plan: ListenerPlan)
    requires
        planned(earlier, config, plan),
    ensures
        plan.mapping is Some <==> !starts_afresh(earlier, config),
{
    match plan.socket {
        SocketPlan::Keep(place) => {
            assert(first_on(earlier, config.listen, place as int));
            assert forall|other: int| #[trigger] first_on(earlier, config.listen, other) implies other == place by {
                if other < place {
                    assert(earlier.take(place as int)[other] == earlier[other]);
                }
                if place < other {
                    assert(earlier.take(other)[place as int] == earlier[place as int]);
                }
            }
        },
        SocketPlan::Bind(_) => {},
    }
}

/// A listener that starts afresh is counted apart from every earlier mapping.
proof fn fresh_is_apart(earlier: Seq<Arc<Mapping>>, config: MappingView, listener: PreparedListener, place: int)
    requires
        prepared(earlier, config, listener),
        starts_afresh(configs_in(earlier), config),
        0 <= place < earlier.len(),
    ensures
        counted_apart(*listener.mapping, *earlier[place]),
{
    let plan = choose|plan: ListenerPlan|
        #[trigger] planned(configs_in(earlier), config, plan) && prepared_as(earlier, listener, plan);
    kept_is_not_fresh(configs_in(earlier), config, plan);
}

/// The semaphores of a list of mappings.
fn known_semaphores(mappings: &[Arc<Mapping>]) -> (known: Vec<Arc<Semaphore>>)
    ensures
        known@.len() == 2 * mappings@.len(),
        forall|j: int| 0 <= j < mappings@.len() ==> knows(known@, 2 * j, *(#[trigger] mappings@[j])),
{
    let mut known: Vec<Arc<Semaphore>> = Vec::new();
    let mut i: usize = 0;
    while i < mappings.len()
        invariant
            i <= mappings@.len(),
            known@.len() == 2 * i,
            forall|j: int| 0 <= j < i ==> knows(known@, 2 * j, *(#[trigger] mappings@[j])),
        decreases mappings@.len() - i,
    {
        mappings[i].make_known(&mut known);
        i += 1;
    }
    known
}

/// Prepares the listeners of a generation, in order, from the mappings of those
/// that are there. Only the sockets are left to be had.
pub fn prepare_listeners(earlier: &[Arc<Mapping>], configs: &[MappingConfig]) -> (listeners: Vec<PreparedListener>)
    requires
        forall|i: int| 0 <= i < configs@.len() ==> (#[trigger] configs@[i])@.max_connections <= usize::MAX / 8,
    ensures
        listeners@.len() == configs@.len(),
        forall|i: int| 0 <= i < configs@.len() ==> prepared(earlier@, configs@[i]@, #[trigger] listeners@[i]),
        forall|i: int|
            0 <= i < configs@.len() ==> {
                &&& (#[trigger] listeners@[i]).mapping@ == configs@[i]@
                &&& permits_of(listeners@[i].mapping.ingress()) == configs@[i].max_connections
                &&& permits_of(listeners@[i].mapping.owner()) == configs@[i].max_connections
                &&& listeners@[i].mapping.ingress() != listeners@[i].mapping.owner()
            },
        forall|i: int, j: int|
            #![trigger listeners@[i], listeners@[j]]
            0 <= i < j < listeners@.len() && (starts_afresh(configs_in(earlier@), configs@[i]@) || starts_afresh(
                configs_in(earlier@),
                configs@[j]@,
            )) ==> counted_apart(*listeners@[i].mapping, *listeners@[j].mapping),
{
    let earlier_configs = copy_configs(earlier);
    let mut known = known_semaphores(earlier);
    let mut listeners: Vec<PreparedListener> = Vec::new();
    let mut i: usize = 0;
    while i < configs.len()
        invariant
            i <= configs@.len(),
            listeners@.len() == i,
            mappings_of(earlier_configs@) == configs_in(earlier@),
            known@.len() == 2 * (earlier@.len() + i),
            forall|j: int| 0 <= j < earlier@.len() ==> knows(known@, 2 * j, *(#[trigger] earlier@[j])),
            forall|j: int|
                0 <= j < i ==> {
                    &&& (#[trigger] listeners@[j]).mapping@ == configs@[j]@
                    &&& permits_of(listeners@[j].mapping.ingress()) == configs@[j].max_connections
                    &&& permits_of(listeners@[j].mapping.owner()) == configs@[j].max_connections
                    &&& listeners@[j].mapping.ingress() != listeners@[j].mapping.owner()
                },
            forall|j: int|
                0 <= j < i ==> knows(known@, 2 * (earlier@.len() + j), *(#[trigger] listeners@[j]).mapping),
            forall|j: int, k: int|
                #![trigger listeners@[j], listeners@[k]]
                0 <= j < k < i && (starts_afresh(configs_in(earlier@), configs@[j]@) || starts_afresh(
                    configs_in(earlier@),
                    configs@[k]@,
                )) ==> counted_apart(*listeners@[j].mapping, *listeners@[k].mapping),
            forall|j: int| 0 <= j < configs@.len() ==> (#[trigger] configs@[j])@.max_connections <= usize::MAX / 8,
            forall|j: int| 0 <= j < i ==> prepared(earlier@, configs@[j]@, #[trigger] listeners@[j]),
        decreases configs@.len() - i,
    {
        let config = &configs[i];
        assert(config@ == configs@[i as int]@);
        let plan = plan_listener(earlier_configs.as_slice(), config);
        let mapping = match plan.mapping {
            Some(place) => {
                assert(configs_in(earlier@)[place as int] == earlier@[place as int]@);
                let kept = &earlier[place];
                proof {
                    use_type_invariant(&**kept);
                }
                kept.clone()
            },
            None => Arc::new(Mapping::new_apart(config.clone(), known.as_slice())),
        };
        let listener = PreparedListener { socket: plan.socket, mapping };
        proof {
            if plan.mapping is None {
                assert forall|j: int| 0 <= j < earlier@.len() implies counted_apart(
                    *listener.mapping,
                    *(#[trigger] earlier@[j]),
                ) by {
                    not_known(known@, 2 * j, *earlier@[j], *listener.mapping);
                }
            }
            assert(prepared_as(earlier@, listener, plan));
            assert(prepared(earlier@, config@, listener));
            assert forall|j: int|
                0 <= j < i && (starts_afresh(configs_in(earlier@), configs@[j]@) || starts_afresh(
                    configs_in(earlier@),
                    config@,
                )) implies counted_apart(*(#[trigger] listeners@[j]).mapping, *listener.mapping) by {
                if plan.mapping is None {
                    not_known(known@, 2 * (earlier@.len() + j), *listeners@[j].mapping, *listener.mapping);
                } else {
                    kept_is_not_fresh(configs_in(earlier@), config@, plan);
                    fresh_is_apart(earlier@, configs@[j]@, listeners@[j], plan.mapping->0 as int);
                }
            }
        }
        listener.mapping.make_known(&mut known);
        listeners.push(listener);
        i += 1;
    }
    listeners
}

/// The mappings that the routes of a script ask for can be prepared, where the
/// routes were read without a fault: none has more connections than a semaphore
/// can count.
pub proof fn read_routes_can_be_prepared(
    section: SectionView,
    classes: Seq<Seq<char>>,
    routes: Seq<Route>,
    ip: Ip,
    script: Seq<char>,
)
    requires
        reads_as(section, classes, Ok(routes)),
    ensures
        forall|i: int|
            0 <= i < routes.len() ==> (#[trigger] script_mappings(ip, script, routes)[i]).max_connections <= usize::MAX
                / 8,
{
    read_routes_are_sound(section, classes, routes);
    assert forall|i: int| 0 <= i < routes.len() implies (#[trigger] script_mappings(
        ip,
        script,
        routes,
    )[i]).max_connections <= usize::MAX / 8 by {
        assert(within_limits(routes[i]));
    }
}

/// Where no two listeners share an address, a listener whose configuration does
/// not change keeps its socket and goes on with its mapping, and so with the
/// connections that are out.
pub proof fn unchanged_listeners_go_on(earlier: Seq<Arc<Mapping>>, place: int, listener: PreparedListener)
    requires
        forall|i: int, j: int|
            #![trigger earlier[i], earlier[j]]
            0 <= i < j < earlier.len() ==> earlier[i]@.listen != earlier[j]@.listen,
        0 <= place < earlier.len(),
        prepared(earlier, earlier[place]@, listener),
    ensures
        listener.socket matches SocketPlan::Keep(kept) && kept == place,
        listener.mapping == earlier[place],
{
    let configs = configs_in(earlier);
    let plan = choose|plan: ListenerPlan|
        #[trigger] planned(configs, earlier[place]@, plan) && prepared_as(earlier, listener, plan);
    assert forall|i: int, j: int|
        #![trigger configs[i], configs[j]]
        0 <= i < j < configs.len() implies configs[i].listen != configs[j].listen by {
        assert(configs[i] == earlier[i]@ && configs[j] == earlier[j]@);
    }
    assert(configs[place] == earlier[place]@);
    same_generation_keeps_everything(configs, place, plan);
}

/// Each mapping of the list is counted apart from all the others.
pub open spec fn all_counted_apart(mappings: Seq<Arc<Mapping>>) -> bool {
    forall|i: int, j: int|
        #![trigger mappings[i], mappings[j]]
        0 <= i < j < mappings.len() ==> counted_apart(*mappings[i], *mappings[j])
}

/// No two mappings ever share a cap: where the earlier mappings are counted apart,
/// so are those of the listeners that are prepared from them for configurations
/// on different addresses, whichever go on and whichever start afresh.
pub proof fn caps_are_never_shared(
    earlier: Seq<Arc<Mapping>>,
    configs: Seq<MappingView>,
    listeners: Seq<PreparedListener>,
)
    requires
        all_counted_apart(earlier),
        forall|i: int, j: int|
            #![trigger configs[i], configs[j]]
            0 <= i < j < configs.len() ==> configs[i].listen != configs[j].listen,
        listeners.len() == configs.len(),
        forall|i: int| 0 <= i < configs.len() ==> prepared(earlier, configs[i], #[trigger] listeners[i]),
        forall|i: int, j: int|
            #![trigger listeners[i], listeners[j]]
            0 <= i < j < listeners.len() && (starts_afresh(configs_in(earlier), configs[i]) || starts_afresh(
                configs_in(earlier),
                configs[j],
            )) ==> counted_apart(*listeners[i].mapping, *listeners[j].mapping),
    ensures
        all_counted_apart(listeners.map_values(|listener: PreparedListener| listener.mapping)),
{
    let mappings = listeners.map_values(|listener: PreparedListener| listener.mapping);
    let known = configs_in(earlier);
    assert forall|i: int, j: int|
        #![trigger mappings[i], mappings[j]]
        0 <= i < j < mappings.len() implies counted_apart(*mappings[i], *mappings[j]) by {
        assert(mappings[i] == listeners[i].mapping && mappings[j] == listeners[j].mapping);
        if !starts_afresh(known, configs[i]) && !starts_afresh(known, configs[j]) {
            let one = choose|plan: ListenerPlan|
                #[trigger] planned(known, configs[i], plan) && prepared_as(earlier, listeners[i], plan);
            let other = choose|plan: ListenerPlan|
                #[trigger] planned(known, configs[j], plan) && prepared_as(earlier, listeners[j], plan);
            kept_is_not_fresh(known, configs[i], one);
            kept_is_not_fresh(known, configs[j], other);
            let a = one.mapping->0 as int;
            let b = other.mapping->0 as int;
            assert(known[a] == configs[i] && known[b] == configs[j]);
            assert(a != b);
            assert(earlier[a] == listeners[i].mapping && earlier[b] == listeners[j].mapping);
        }
    }
}

/// A listener that is prepared for a route leads to the route's target and has as
/// many connections as the route allows: so many for clients, and as many again,
/// counted apart, for containers.
pub proof fn listeners_have_the_limits_of_their_routes(
    earlier: Seq<Arc<Mapping>>,
    ip: Ip,
    script: Seq<char>,
    route: Route,
    listener: PreparedListener,
)
    requires
        prepared(earlier, mapping_of(ip, script, route), listener),
    ensures
        permits_of(listener.mapping.ingress()) == route.max_connections,
        permits_of(listener.mapping.owner()) == route.max_connections,
        listener.mapping.ingress() != listener.mapping.owner(),
        listener.mapping@.max_connections == route.max_connections,
        listener.mapping@.connect_timeout_ms == route.connect_timeout_ms,
        listener.mapping@.listen.ip == ip,
        listener.mapping@.listen.port == route.listen_port,
        listener.mapping@.target.script == script,
        listener.mapping@.target.class_name == route.class_name,
        listener.mapping@.target.object_name == route.object_name,
        listener.mapping@.target.port == route.container_port,
        listener.mapping@.target.startup_path == route.startup_path,
{
}

/// A listener goes on with the mapping of the first earlier listener on its
/// address, exactly where that is configured alike, and keeps its socket in any
/// case. Without one on its address it binds.
pub proof fn listeners_are_prepared_by_address(
    earlier: Seq<Arc<Mapping>>,
    config: MappingView,
    listener: PreparedListener,
)
    requires
        prepared(earlier, config, listener),
    ensures
        listener.socket matches SocketPlan::Keep(place) ==> {
            &&& place < earlier.len()
            &&& earlier[place as int]@.listen == config.listen
            &&& forall|j: int| 0 <= j < place ==> (#[trigger] earlier[j])@.listen != config.listen
            &&& earlier[place as int]@ == config ==> listener.mapping == earlier[place as int]
        },
        listener.socket matches SocketPlan::Bind(address) ==> {
            &&& address == config.listen
            &&& forall|j: int| 0 <= j < earlier.len() ==> (#[trigger] earlier[j])@.listen != config.listen
        },
{
    let configs = configs_in(earlier);
    let plan = choose|plan: ListenerPlan|
        #[trigger] planned(configs, config, plan) && prepared_as(earlier, listener, plan);
    plans_follow_the_addresses(configs, config, plan);
    assert forall|j: int| 0 <= j < earlier.len() implies (#[trigger] earlier[j])@ == configs[j] by {}
}

/// A listener for which no earlier mapping is configured alike, or only one that is
/// not the first on its address, takes none of the connections of any of them,
/// neither of their clients nor of their containers.
pub proof fn new_mappings_take_no_earlier_connections(
    earlier: Seq<Arc<Mapping>>,
    config: MappingView,
    listener: PreparedListener,
    place: int,
)
    requires
        prepared(earlier, config, listener),
        forall|j: int|
            0 <= j < earlier.len() && (#[trigger] earlier[j])@ == config ==> exists|k: int|
                0 <= k < j && (#[trigger] earlier[k])@.listen == config.listen,
        0 <= place < earlier.len(),
    ensures
        listener.mapping.ingress() != earlier[place].ingress(),
        listener.mapping.ingress() != earlier[place].owner(),
        listener.mapping.owner() != earlier[place].ingress(),
        listener.mapping.owner() != earlier[place].owner(),
{
    let configs = configs_in(earlier);
    assert forall|other: int| #[trigger] first_on(configs, config.listen, other) implies configs[other] != config by {
        assert(configs[other] == earlier[other]@);
        assert forall|k: int| 0 <= k < other implies (#[trigger] earlier[k])@.listen != config.listen by {
            assert(configs.take(other)[k] == earlier[k]@);
        }
    }
    fresh_is_apart(earlier, config, listener, place);
}

/// A list of mappings is seen with the configuration of each, in order.
pub proof fn mappings_at_work_are_seen_as_they_are(mappings: Seq<Arc<Mapping>>)
    ensures
        configs_in(mappings).len() == mappings.len(),
        forall|i: int| 0 <= i < mappings.len() ==> #[trigger] configs_in(mappings)[i] == mappings[i]@,
{
}

/// Two mappings are counted apart exactly where no semaphore of one is a semaphore
/// of the other. A mapping starts afresh exactly where the first earlier one on
/// its address, if there is any, is configured otherwise.
pub proof fn counting_apart_means_different_semaphores(
    one: Mapping,
    other: Mapping,
    earlier: Seq<MappingView>,
    config: MappingView,
)
    ensures
        counted_apart(one, other) <==> one.ingress() != other.ingress() && one.ingress() != other.owner() && one.owner()
            != other.ingress() && one.owner() != other.owner(),
        starts_afresh(earlier, config) <==> forall|place: int|
            0 <= place < earlier.len() && (#[trigger] earlier[place]) == config ==> exists|k: int|
                0 <= k < place && (#[trigger] earlier[k]).listen == config.listen,
{
    if starts_afresh(earlier, config) {
        assert forall|place: int| 0 <= place < earlier.len() && (#[trigger] earlier[place]) == config implies exists|
            k: int,
        |
            0 <= k < place && (#[trigger] earlier[k]).listen == config.listen by {
            assert(!first_on(earlier, config.listen, place));
            let before = earlier.take(place);
            let k = choose|k: int| 0 <= k < before.len() && (#[trigger] before[k]).listen == config.listen;
            assert(earlier[k] == before[k]);
        }
    } else {
        let place = choose|place: int| #[trigger] first_on(earlier, config.listen, place) && earlier[place] == config;
        assert forall|k: int| 0 <= k < place implies (#[trigger] earlier[k]).listen != config.listen by {
            assert(earlier.take(place)[k] == earlier[k]);
        }
    }
}

} // verus!
