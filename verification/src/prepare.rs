//! From the routes of a deployment to the listeners that serve them.

use crate::config::{acceptable, fault_at, same_target, Route, TcpIngress};
use crate::handshake::{fits, handshake_length};
use crate::target::{
    mappings_of, Endpoint, Establish, EstablishView, Ip, MappingConfig, MappingView, Target,
    TargetView, MAX_HANDSHAKE_BYTES,
};
use vstd::prelude::*;

verus! {

/// The mapping that a route of a script asks for on the node's address.
pub open spec fn mapping_of(ip: Ip, script: Seq<char>, route: Route) -> MappingView {
    MappingView {
        listen: Endpoint { ip, port: route.listen_port },
        target: TargetView {
            script,
            class_name: route.class_name,
            object_name: route.object_name,
            port: route.container_port,
            startup_path: route.startup_path,
        },
        connect_timeout_ms: route.connect_timeout_ms,
        max_connections: route.max_connections,
    }
}

/// The mappings that the routes of a generation ask for, in order. Each route
/// comes with the script that declares it.
pub fn mapping_configs(ip: Ip, routes: &[(String, TcpIngress)]) -> (configs: Vec<MappingConfig>)
    ensures
        configs@.len() == routes@.len(),
        forall|i: int|
            0 <= i < routes@.len() ==> (#[trigger] configs@[i])@ == mapping_of(ip, routes@[i].0@, routes@[i].1@),
        forall|i: int|
            0 <= i < routes@.len() ==> {
                &&& (#[trigger] configs@[i]).listen.ip == ip
                &&& configs@[i].listen.port == routes@[i].1.listen_port
                &&& configs@[i].target.script@ == routes@[i].0@
                &&& configs@[i].target.class_name@ == routes@[i].1.class_name@
                &&& configs@[i].target.object_name@ == routes@[i].1.object_name@
                &&& configs@[i].target.port == routes@[i].1.container_port
                &&& configs@[i].target.startup_path@ == routes@[i].1.startup_path@
                &&& configs@[i].connect_timeout_ms == routes@[i].1.connect_timeout_ms
                &&& configs@[i].max_connections == routes@[i].1.max_connections
            },
{
    let mut configs: Vec<MappingConfig> = Vec::new();
    let mut i: usize = 0;
    while i < routes.len()
        invariant
            i <= routes@.len(),
            configs@.len() == i,
            forall|j: int|
                0 <= j < i ==> (#[trigger] configs@[j])@ == mapping_of(ip, routes@[j].0@, routes@[j].1@),
            forall|j: int|
                0 <= j < i ==> {
                    &&& (#[trigger] configs@[j]).listen.ip == ip
                    &&& configs@[j].listen.port == routes@[j].1.listen_port
                    &&& configs@[j].target.script@ == routes@[j].0@
                    &&& configs@[j].target.class_name@ == routes@[j].1.class_name@
                    &&& configs@[j].target.object_name@ == routes@[j].1.object_name@
                    &&& configs@[j].target.port == routes@[j].1.container_port
                    &&& configs@[j].target.startup_path@ == routes@[j].1.startup_path@
                    &&& configs@[j].connect_timeout_ms == routes@[j].1.connect_timeout_ms
                    &&& configs@[j].max_connections == routes@[j].1.max_connections
                },
        decreases routes@.len() - i,
    {
        let route = &routes[i].1;
        let config = MappingConfig {
            listen: Endpoint { ip, port: route.listen_port },
            target: Target {
                script: routes[i].0.clone(),
                class_name: route.class_name.clone(),
                object_name: route.object_name.clone(),
                port: route.container_port,
                startup_path: route.startup_path.clone(),
            },
            connect_timeout_ms: route.connect_timeout_ms,
            max_connections: route.max_connections,
        };
        configs.push(config);
        i += 1;
    }
    configs
}

/// A target, and what is known of it before anything listens for it.
#[derive(Debug, PartialEq, Eq)]
pub struct TargetCheck {
    /// The target names a container object of the generation.
    pub in_scope: bool,
    pub target: Target,
}

/// Why a generation's listeners cannot be prepared.
#[derive(Clone, Copy, Debug, PartialEq, Eq, Structural)]
pub enum PrepareError {
    /// The target names no container object.
    NoScope,
    /// The handshake is longer than a peer would read.
    HandshakeTooLong,
}

/// What is wrong with a target.
pub open spec fn target_fault(check: TargetCheck) -> Option<PrepareError> {
    if !check.in_scope {
        Some(PrepareError::NoScope)
    } else if handshake_length(EstablishView { target: check.target@, capacity_handoff: false })
        > MAX_HANDSHAKE_BYTES {
        Some(PrepareError::HandshakeTooLong)
    } else {
        None
    }
}

impl PrepareError {
    /// The words that report the error, where they are this library's own.
    pub fn message(&self) -> (message: Option<String>)
        ensures
            message is Some <==> *self == PrepareError::HandshakeTooLong,
            message is Some ==> message->0@ == "TCP target exceeds the peer handshake size limit"@,
    {
        match self {
            PrepareError::HandshakeTooLong => {
                Some("TCP target exceeds the peer handshake size limit".to_string())
            },
            _ => None,
        }
    }
}

/// Holds every target to the rules before any socket is reserved, and reports
/// the fault of the first target that has one.
pub fn vet_targets(checks: &[TargetCheck]) -> (vetted: Result<(), PrepareError>)
    ensures
        vetted is Ok <==> forall|i: int| 0 <= i < checks@.len() ==> target_fault(#[trigger] checks@[i]) is None,
        vetted matches Err(error) ==> exists|i: int|
            {
                &&& 0 <= i < checks@.len()
                &&& target_fault(#[trigger] checks@[i]) == Some(error)
                &&& forall|j: int| 0 <= j < i ==> target_fault(#[trigger] checks@[j]) is None
            },
{
    let mut i: usize = 0;
    while i < checks.len()
        invariant
            i <= checks@.len(),
            forall|j: int| 0 <= j < i ==> target_fault(#[trigger] checks@[j]) is None,
        decreases checks@.len() - i,
    {
        let check = &checks[i];
        if !check.in_scope {
            assert(target_fault(checks@[i as int]) == Some(PrepareError::NoScope));
            return Err(PrepareError::NoScope);
        }
        if !fits(&Establish { target: check.target.clone(), capacity_handoff: false }) {
            assert(target_fault(checks@[i as int]) == Some(PrepareError::HandshakeTooLong));
            return Err(PrepareError::HandshakeTooLong);
        }
        i += 1;
    }
    Ok(())
}

/// Where the socket of a listener comes from.
#[derive(Clone, Copy, Debug, PartialEq, Eq, Structural)]
pub enum SocketPlan {
    /// It is that of the earlier listener at this place.
    Keep(usize),
    /// It has to be bound to this address.
    Bind(Endpoint),
}

/// How a listener is made.
#[derive(Clone, Copy, Debug, PartialEq, Eq, Structural)]
pub struct ListenerPlan {
    pub socket: SocketPlan,
    /// The place of the earlier listener whose mapping, with the connections
    /// that it counts, goes on; none where the mapping starts afresh.
    pub mapping: Option<usize>,
}

/// The earlier listeners have none on this address.
pub open spec fn unheard(earlier: Seq<MappingView>, listen: Endpoint) -> bool {
    forall|j: int| 0 <= j < earlier.len() ==> (#[trigger] earlier[j]).listen != listen
}

/// The listener at `place` is the first of the earlier ones on this address.
pub open spec fn first_on(earlier: Seq<MappingView>, listen: Endpoint, place: int) -> bool {
    &&& 0 <= place < earlier.len()
    &&& earlier[place].listen == listen
    &&& unheard(earlier.take(place), listen)
}

/// A listener keeps the socket of the first earlier listener on its address,
/// and goes on with the mapping too where that is configured alike. Where
/// there is no such listener it binds.
pub open spec fn planned(earlier: Seq<MappingView>, config: MappingView, plan: ListenerPlan) -> bool {
    match plan.socket {
        SocketPlan::Keep(place) => {
            &&& first_on(earlier, config.listen, place as int)
            &&& plan.mapping == (if earlier[place as int] == config {
                Some(place)
            } else {
                None
            })
        },
        SocketPlan::Bind(address) => {
            &&& address == config.listen
            &&& unheard(earlier, config.listen)
            &&& plan.mapping is None
        },
    }
}

/// Plans one listener.
pub fn plan_listener(earlier: &[MappingConfig], config: &MappingConfig) -> (plan: ListenerPlan)
    ensures
        planned(mappings_of(earlier@), config@, plan),
{
    let ghost all = mappings_of(earlier@);
    let mut i: usize = 0;
    while i < earlier.len()
        invariant
            i <= earlier@.len(),
            all == mappings_of(earlier@),
            forall|j: int| 0 <= j < i ==> (#[trigger] all[j]).listen != config@.listen,
        decreases earlier@.len() - i,
    {
        assert(all[i as int] == earlier@[i as int]@);
        if earlier[i].listen == config.listen {
            let mapping = if earlier[i].same(config) {
                Some(i)
            } else {
                None
            };
            return ListenerPlan { socket: SocketPlan::Keep(i), mapping };
        }
        i += 1;
    }
    ListenerPlan { socket: SocketPlan::Bind(config.listen), mapping: None }
}

/// The mappings that the routes of one script ask for.
pub open spec fn script_mappings(ip: Ip, script: Seq<char>, routes: Seq<Route>) -> Seq<MappingView> {
    routes.map_values(|route: Route| mapping_of(ip, script, route))
}

/// The routes of a script that are acceptable ask for mappings of which no two
/// share an address and no two share a target.
pub proof fn accepted_routes_are_mapped_apart(ip: Ip, script: Seq<char>, routes: Seq<Route>, classes: Seq<Seq<char>>)
    requires
        acceptable(routes, classes),
    ensures
        ({
            let mappings = script_mappings(ip, script, routes);
            forall|i: int, j: int|
                #![trigger mappings[i], mappings[j]]
                0 <= i < j < mappings.len() ==> mappings[i].listen != mappings[j].listen && mappings[i].target
                    != mappings[j].target
        }),
{
    let mappings = script_mappings(ip, script, routes);
    assert forall|i: int, j: int|
        #![trigger mappings[i], mappings[j]]
        0 <= i < j < mappings.len() implies mappings[i].listen != mappings[j].listen && mappings[i].target
        != mappings[j].target by {
        assert(fault_at(routes, j, classes) is None);
        assert(mappings[i] == mapping_of(ip, script, routes[i]));
        assert(mappings[j] == mapping_of(ip, script, routes[j]));
        assert(routes[i].listen_port != routes[j].listen_port);
        assert(!same_target(routes[i], routes[j]));
    }
}

/// A listener is planned in exactly one way.
pub proof fn plan_is_determined(earlier: Seq<MappingView>, config: MappingView, one: ListenerPlan, other: ListenerPlan)
    requires
        planned(earlier, config, one),
        planned(earlier, config, other),
    ensures
        one == other,
{
    if let (SocketPlan::Keep(i), SocketPlan::Keep(j)) = (one.socket, other.socket) {
        if i < j {
            assert(earlier.take(j as int)[i as int] == earlier[i as int]);
        }
        if j < i {
            assert(earlier.take(i as int)[j as int] == earlier[j as int]);
        }
    } else if let SocketPlan::Keep(i) = one.socket {
        assert(earlier[i as int].listen == config.listen);
    } else if let SocketPlan::Keep(i) = other.socket {
        assert(earlier[i as int].listen == config.listen);
    }
}

/// No address that an earlier listener has is bound again, whatever else
/// changes in its mapping.
pub proof fn known_address_is_not_bound_again(
    earlier: Seq<MappingView>,
    place: int,
    config: MappingView,
    plan: ListenerPlan,
)
    requires
        planned(earlier, config, plan),
        0 <= place < earlier.len(),
        earlier[place].listen == config.listen,
    ensures
        plan.socket is Keep,
{
}

/// Where no two listeners share an address, preparing the generation that is
/// being served keeps every socket and every mapping in its place.
pub proof fn same_generation_keeps_everything(configs: Seq<MappingView>, place: int, plan: ListenerPlan)
    requires
        forall|i: int, j: int|
            #![trigger configs[i], configs[j]]
            0 <= i < j < configs.len() ==> configs[i].listen != configs[j].listen,
        0 <= place < configs.len(),
        planned(configs, configs[place], plan),
    ensures
        plan.socket matches SocketPlan::Keep(kept) && kept == place,
        plan.mapping matches Some(kept) && kept == place,
{
    match plan.socket {
        SocketPlan::Keep(kept) => {
            assert(configs[kept as int].listen == configs[place].listen);
        },
        SocketPlan::Bind(_) => {},
    }
}

/// A mapping carries what its route has: the listening port on the node's
/// address, the target of the script, and the route's own limits.
pub proof fn mappings_carry_their_routes(ip: Ip, script: Seq<char>, route: Route)
    ensures
        mapping_of(ip, script, route).listen.ip == ip,
        mapping_of(ip, script, route).listen.port == route.listen_port,
        mapping_of(ip, script, route).target.script == script,
        mapping_of(ip, script, route).target.class_name == route.class_name,
        mapping_of(ip, script, route).target.object_name == route.object_name,
        mapping_of(ip, script, route).target.port == route.container_port,
        mapping_of(ip, script, route).target.startup_path == route.startup_path,
        mapping_of(ip, script, route).connect_timeout_ms == route.connect_timeout_ms,
        mapping_of(ip, script, route).max_connections == route.max_connections,
{
}

/// Routes that differ ask for mappings that differ, on whatever address and for
/// whatever script.
pub proof fn different_routes_are_mapped_differently(ip: Ip, script: Seq<char>, one: Route, other: Route)
    ensures
        mapping_of(ip, script, one) == mapping_of(ip, script, other) <==> one == other,
{
}

/// A target is refused exactly where it names no container object, or else its
/// handshake without a handoff has more than 16384 bytes.
pub proof fn targets_are_refused_for_a_reason(check: TargetCheck)
    ensures
        ({
            let length = handshake_length(EstablishView { target: check.target@, capacity_handoff: false });
            &&& target_fault(check) == Some(PrepareError::NoScope) <==> !check.in_scope
            &&& target_fault(check) == Some(PrepareError::HandshakeTooLong) <==> check.in_scope && length > 16_384
            &&& target_fault(check) is None <==> check.in_scope && length <= 16_384
        }),
{
}

/// A listener is planned exactly so: with the socket of the first earlier listener
/// on its address, and with the mapping of that one exactly where it is
/// configured alike; or, where none is on its address, by binding to it.
pub proof fn plans_follow_the_addresses(earlier: Seq<MappingView>, config: MappingView, plan: ListenerPlan)
    ensures
        planned(earlier, config, plan) <==> match plan.socket {
            SocketPlan::Keep(place) => {
                &&& place < earlier.len()
                &&& earlier[place as int].listen == config.listen
                &&& forall|j: int| 0 <= j < place ==> (#[trigger] earlier[j]).listen != config.listen
                &&& earlier[place as int] == config ==> plan.mapping == Some(place)
                &&& earlier[place as int] != config ==> plan.mapping is None
            },
            SocketPlan::Bind(address) => {
                &&& address == config.listen
                &&& plan.mapping is None
                &&& forall|j: int| 0 <= j < earlier.len() ==> (#[trigger] earlier[j]).listen != config.listen
            },
        },
{
    if let SocketPlan::Keep(place) = plan.socket {
        if place < earlier.len() {
            let before = earlier.take(place as int);
            assert forall|j: int| 0 <= j < place implies #[trigger] before[j] == earlier[j] by {}
            if unheard(before, config.listen) {
                assert forall|j: int| 0 <= j < place implies (#[trigger] earlier[j]).listen != config.listen by {
                    assert(before[j] == earlier[j]);
                }
            }
        }
    }
}

} // verus!
