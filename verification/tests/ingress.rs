use celld_tcp::accept::{OwnerRoute, PeerEvent, PeerRequest, RequestHead, Signature};
use celld_tcp::config::TcpIngress;
use celld_tcp::handshake::{fits, write_handshake};
use celld_tcp::local::{LocalError, LocalEvent, LocalOpen};
use celld_tcp::mapping::{prepare_listeners, Mapping};
use celld_tcp::peer::{judge_reply, stream_request, StreamError, StreamReply};
use celld_tcp::prepare::{
    mapping_configs, plan_listener, vet_targets, ListenerPlan, PrepareError, SocketPlan,
    TargetCheck,
};
use celld_tcp::registry::State;
use celld_tcp::reply::{
    response, stale_reply, switching_reply, Reply, PEER_PATH, PROTOCOL, STALE_ROUTE_HEADER,
    STALE_ROUTE_VALUE,
};
use celld_tcp::serve::{Serve, ServeEvent};
use celld_tcp::target::{Endpoint, Establish, Ip, MappingConfig, Target, MAX_HANDSHAKE_BYTES};

use std::sync::Arc;

const LOOPBACK: Ip = Ip::V4(0x7f00_0001);

fn target(port: u16) -> Target {
    Target {
        script: "tcp-container".to_string(),
        class_name: "EchoContainer".to_string(),
        object_name: "primary".to_string(),
        port,
        startup_path: "/start-tcp".to_string(),
    }
}

fn mapping(listen: u16, port: u16) -> MappingConfig {
    MappingConfig {
        listen: Endpoint { ip: LOOPBACK, port: listen },
        target: target(port),
        connect_timeout_ms: 500,
        max_connections: 1,
    }
}

fn establish(port: u16) -> Establish {
    Establish { target: target(port), capacity_handoff: false }
}

fn head(method: &str, has_query: bool, upgrade: Option<&str>) -> PeerEvent {
    PeerEvent::Head(RequestHead {
        method: method.to_string(),
        has_query,
        upgrade: upgrade.map(|value| value.as_bytes().to_vec()),
    })
}

fn at_work(configs: Vec<MappingConfig>) -> Vec<Arc<Mapping>> {
    configs.into_iter().map(|config| Arc::new(Mapping::new(config))).collect()
}

fn configs_of(mappings: Vec<Arc<Mapping>>) -> Vec<MappingConfig> {
    mappings.iter().map(|mapping| mapping.config().clone()).collect()
}

fn serving(mappings: Vec<MappingConfig>) -> State {
    let mut state = State::new();
    assert!(state.publish(at_work(mappings)));
    state
}

fn run(state: &State, events: Vec<PeerEvent>) -> PeerRequest {
    let mut request = PeerRequest::new();
    for event in events {
        request = request.advance(event, state);
    }
    request
}

fn checked(signature: Signature) -> Vec<PeerEvent> {
    vec![head("POST", false, Some(PROTOCOL)), PeerEvent::Body(Some(2)), PeerEvent::Checked(signature)]
}

fn routed(route: OwnerRoute) -> Vec<PeerEvent> {
    let mut events = checked(Signature::Valid);
    events.push(PeerEvent::Parsed(Some(establish(7000))));
    events.push(PeerEvent::Routed(route));
    events
}

fn plain(status: u16, text: &str) -> PeerRequest {
    PeerRequest::Answer(Reply { status, text: text.to_string(), headers: vec![] })
}

#[test]
fn routes_become_mappings() {
    let route = TcpIngress {
        listen_port: 4543,
        class_name: "EchoContainer".to_string(),
        object_name: "primary".to_string(),
        container_port: 7000,
        startup_path: "/start-tcp".to_string(),
        connect_timeout_ms: 500,
        max_connections: 1,
    };
    let configs = mapping_configs(LOOPBACK, &[("tcp-container".to_string(), route)]);
    assert_eq!(configs, vec![mapping(4543, 7000)]);
    assert_eq!(configs[0].establish(true), Establish { target: target(7000), capacity_handoff: true });
}

fn target_of_length(length: usize) -> Target {
    let empty = Target { script: String::new(), ..target(7000) };
    let rest = write_handshake(&Establish { target: empty, capacity_handoff: false }).len();
    Target { script: "s".repeat(length - rest), ..target(7000) }
}

#[test]
fn targets_are_vetted_in_order() {
    let good = || TargetCheck { in_scope: true, target: target_of_length(MAX_HANDSHAKE_BYTES) };
    let long = || TargetCheck { in_scope: true, target: target_of_length(MAX_HANDSHAKE_BYTES + 1) };
    let lost = || TargetCheck { in_scope: false, target: target(7000) };
    assert_eq!(vet_targets(&[]), Ok(()));
    assert_eq!(vet_targets(&[good(), good()]), Ok(()));
    assert_eq!(vet_targets(&[good(), long(), lost()]), Err(PrepareError::HandshakeTooLong));
    assert_eq!(vet_targets(&[good(), lost(), long()]), Err(PrepareError::NoScope));
    assert_eq!(
        PrepareError::HandshakeTooLong.message(),
        Some("TCP target exceeds the peer handshake size limit".to_string())
    );
    assert_eq!(PrepareError::NoScope.message(), None);
}

#[test]
fn handshakes_are_compact_json() {
    assert_eq!(
        write_handshake(&establish(7003)),
        "{\"target\":{\"script\":\"tcp-container\",\"class_name\":\"EchoContainer\",\"object_name\":\"primary\",\"port\":7003,\"startup_path\":\"/start-tcp\"},\"capacity_handoff\":false}"
    );
}

#[test]
fn handshakes_escape_what_json_escapes() {
    let odd = "a\"b\\c\n\t\u{8}\u{c}\r\u{1}\u{7f}\u{e9}\u{1f600}";
    let asked = Establish {
        target: Target { object_name: odd.to_string(), ..target(7000) },
        capacity_handoff: true,
    };
    let body = write_handshake(&asked);
    assert!(body.contains("\"object_name\":\"a\\\"b\\\\c\\n\\t\\b\\f\\r\\u0001\u{7f}\u{e9}\u{1f600}\","));
    let read = serde_json::from_str::<serde_json::Value>(&body).unwrap();
    assert_eq!(read["target"]["object_name"].as_str(), Some(odd));
    assert_eq!(read["target"]["port"].as_u64(), Some(7000));
    assert_eq!(read["capacity_handoff"].as_bool(), Some(true));
    assert_eq!(read.as_object().unwrap().len(), 2);
    assert_eq!(read["target"].as_object().unwrap().len(), 5);
}

#[test]
fn every_character_is_written_as_json_has_it() {
    for code in (0..0x180).chain([0x2028, 0xfffd, 0x1f600]) {
        let c = char::from_u32(code).unwrap();
        let asked = Establish {
            target: Target { script: c.to_string(), ..target(7000) },
            capacity_handoff: false,
        };
        let expected = match c {
            '"' => "\\\"".to_string(),
            '\\' => "\\\\".to_string(),
            '\u{8}' => "\\b".to_string(),
            '\t' => "\\t".to_string(),
            '\n' => "\\n".to_string(),
            '\u{c}' => "\\f".to_string(),
            '\r' => "\\r".to_string(),
            c if code < 0x20 => format!("\\u{:04x}", c as u32),
            c => c.to_string(),
        };
        let start = format!("{{\"target\":{{\"script\":\"{expected}\",\"class_name\"");
        assert!(write_handshake(&asked).starts_with(&start), "{code}");
    }
}

#[test]
fn handshakes_differ_where_what_they_ask_for_differs() {
    let shifted = |script: &str, class_name: &str, port: u16, capacity_handoff: bool| {
        write_handshake(&Establish {
            target: Target {
                script: script.to_string(),
                class_name: class_name.to_string(),
                ..target(port)
            },
            capacity_handoff,
        })
    };
    let bodies = [
        shifted("a", "b", 7000, false),
        shifted("a", "b", 7000, true),
        shifted("a", "b", 700, false),
        shifted("ab", "", 7000, false),
        shifted("", "ab", 7000, false),
        shifted("a\",\"class_name\":\"b", "b", 7000, false),
    ];
    for i in 0..bodies.len() {
        for j in 0..i {
            assert_ne!(bodies[i], bodies[j]);
        }
    }
}

#[test]
fn handoffs_make_no_handshake_longer() {
    let longest = target_of_length(MAX_HANDSHAKE_BYTES);
    let plain = Establish { target: longest.clone(), capacity_handoff: false };
    let handoff = Establish { target: longest, capacity_handoff: true };
    assert_eq!(write_handshake(&plain).len(), MAX_HANDSHAKE_BYTES);
    assert_eq!(write_handshake(&handoff).len(), MAX_HANDSHAKE_BYTES - 1);
    assert!(fits(&plain) && fits(&handoff));
    assert!(!fits(&Establish {
        target: target_of_length(MAX_HANDSHAKE_BYTES + 1),
        capacity_handoff: false,
    }));
}

#[test]
fn mappings_share_no_connections() {
    let earlier = at_work(vec![mapping(1, 7000)]);
    let next = prepare_listeners(&earlier, &[mapping(1, 7001), mapping(2, 7000), mapping(3, 7002)]);
    let mut held = vec![earlier[0].take_ingress(), earlier[0].take_owner()];
    for listener in &next {
        held.push(listener.mapping.take_ingress());
        held.push(listener.mapping.take_owner());
    }
    assert!(held.iter().all(|permit| permit.is_some()));
    assert!(earlier[0].take_owner().is_none());
    for listener in &next {
        assert!(listener.mapping.take_ingress().is_none());
        assert!(listener.mapping.take_owner().is_none());
    }
}

#[test]
fn sockets_and_mappings_are_kept() {
    let earlier = vec![mapping(1, 7000), mapping(2, 7001)];
    for place in [0, 1] {
        assert_eq!(
            plan_listener(&earlier, &earlier[place]),
            ListenerPlan { socket: SocketPlan::Keep(place), mapping: Some(place) }
        );
    }
    assert_eq!(
        plan_listener(&earlier, &mapping(2, 9)),
        ListenerPlan { socket: SocketPlan::Keep(1), mapping: None }
    );
    assert_eq!(
        plan_listener(&earlier, &mapping(3, 7000)),
        ListenerPlan { socket: SocketPlan::Bind(Endpoint { ip: LOOPBACK, port: 3 }), mapping: None }
    );
    let limits = MappingConfig { max_connections: 2, ..mapping(1, 7000) };
    assert_eq!(plan_listener(&earlier, &limits).mapping, None);
    let elsewhere = MappingConfig { listen: Endpoint { ip: Ip::V6(1), port: 1 }, ..mapping(1, 7000) };
    assert_eq!(
        plan_listener(&earlier, &elsewhere).socket,
        SocketPlan::Bind(Endpoint { ip: Ip::V6(1), port: 1 })
    );
    let shared = vec![mapping(1, 7000), mapping(1, 7001)];
    assert_eq!(
        plan_listener(&shared, &mapping(1, 7001)),
        ListenerPlan { socket: SocketPlan::Keep(0), mapping: None }
    );
}

#[test]
fn connections_are_limited_on_both_sides() {
    let mapping = Mapping::new(MappingConfig { max_connections: 2, ..mapping(1, 7000) });
    assert_eq!(mapping.timeout(), 500);
    let first = mapping.take_ingress();
    let second = mapping.take_ingress();
    assert!(first.is_some() && second.is_some());
    assert!(mapping.take_ingress().is_none());
    let owner = mapping.take_owner();
    assert!(owner.is_some());
    drop(first);
    let third = mapping.take_ingress();
    assert!(third.is_some());
    assert!(mapping.take_ingress().is_none());
    assert!(mapping.take_owner().is_some());
}

#[test]
fn a_full_owner_turns_every_arrival_away() {
    let mapping = Mapping::new(mapping(1, 7000));
    let held = mapping.take_owner();
    let first = LocalOpen::new().advance(LocalEvent::Slot(held.is_some()));
    assert_eq!(first, LocalOpen::Runtime);
    let second = LocalOpen::new().advance(LocalEvent::Slot(mapping.take_owner().is_some()));
    assert_eq!(second, LocalOpen::Failed(LocalError::OwnerLimit));
    drop(held);
    let third = LocalOpen::new().advance(LocalEvent::Slot(mapping.take_owner().is_some()));
    assert_eq!(third, LocalOpen::Runtime);
}

#[test]
fn a_full_listener_turns_clients_away() {
    let mapping = Mapping::new(mapping(1, 7000));
    let asking = || Serve::new().advance(ServeEvent::Accepted).advance(ServeEvent::Admitted(true));
    let held = mapping.take_ingress();
    assert_eq!(asking().advance(ServeEvent::Slot(held.is_some())), Serve::Start);
    assert_eq!(asking().advance(ServeEvent::Slot(mapping.take_ingress().is_some())), Serve::Accept);
    drop(held);
    assert_eq!(asking().advance(ServeEvent::Slot(mapping.take_ingress().is_some())), Serve::Start);
}

#[test]
fn unchanged_mappings_keep_their_connections() {
    let earlier = at_work(vec![mapping(1, 7000), mapping(2, 7001)]);
    let taken = earlier[1].take_owner();
    assert!(taken.is_some());
    let next = prepare_listeners(&earlier, &[mapping(2, 7001), mapping(1, 7002), mapping(3, 7000)]);
    assert_eq!(next[0].socket, SocketPlan::Keep(1));
    assert!(Arc::ptr_eq(&next[0].mapping, &earlier[1]));
    assert!(next[0].mapping.take_owner().is_none());
    assert_eq!(next[1].socket, SocketPlan::Keep(0));
    assert_eq!(next[1].mapping.config(), &mapping(1, 7002));
    assert!(!Arc::ptr_eq(&next[1].mapping, &earlier[0]));
    assert_eq!(next[2].socket, SocketPlan::Bind(Endpoint { ip: LOOPBACK, port: 3 }));
    let fresh = next[2].mapping.take_owner();
    assert!(fresh.is_some());
    assert!(next[2].mapping.take_owner().is_none());
    assert_eq!(next.len(), 3);
}

#[test]
fn nothing_is_served_after_shutdown() {
    let mut state = State::new();
    assert!(state.listeners().is_empty());
    assert!(state.publish(at_work(vec![mapping(1, 7000)])));
    assert_eq!(configs_of(state.listeners()), vec![mapping(1, 7000)]);
    assert!(state.shutdown());
    assert!(state.listeners().is_empty());
    assert_eq!(state.authorize(&target(7000)), Some(0));
    assert!(!state.publish(at_work(vec![mapping(2, 7001)])));
    assert!(state.listeners().is_empty());
    assert_eq!(state.authorize(&target(7001)), None);
    assert_eq!(state.authorize(&target(7000)), Some(0));
    assert!(!state.shutdown());
}

#[test]
fn shutdown_before_any_deployment_tells_nobody() {
    let mut state = State::new();
    assert!(!state.shutdown());
    assert!(!state.publish(at_work(vec![mapping(1, 7000)])));
}

#[test]
fn deployments_replace_each_other() {
    let mut state = serving(vec![mapping(1, 7000), mapping(2, 7001)]);
    assert_eq!(state.authorize(&target(7001)), Some(1));
    assert_eq!(state.mapping(1).unwrap().config(), &mapping(2, 7001));
    assert!(state.mapping(2).is_none());
    assert!(state.publish(at_work(vec![mapping(1, 7001)])));
    assert_eq!(state.authorize(&target(7000)), None);
    assert_eq!(state.authorize(&target(7001)), Some(0));
}

#[test]
fn a_stream_is_asked_for_by_post_and_upgrade() {
    let state = State::new();
    assert_eq!(run(&state, vec![head("POST", false, Some(PROTOCOL))]), PeerRequest::Body);
    for event in [
        head("GET", false, Some(PROTOCOL)),
        head("post", false, Some(PROTOCOL)),
        head("POST", true, Some(PROTOCOL)),
        head("POST", false, None),
        head("POST", false, Some("websocket")),
        head("POST", false, Some("celld-container-tcp-v10")),
    ] {
        assert_eq!(
            run(&state, vec![event]),
            plain(400, "TCP establishment requires POST and upgrade")
        );
    }
}

#[test]
fn bodies_are_limited() {
    let state = State::new();
    let body = |length| run(&state, vec![head("POST", false, Some(PROTOCOL)), PeerEvent::Body(length)]);
    assert_eq!(body(Some(MAX_HANDSHAKE_BYTES)), PeerRequest::Check);
    assert_eq!(body(Some(MAX_HANDSHAKE_BYTES + 1)), plain(400, "invalid TCP handshake body"));
    assert_eq!(body(None), plain(400, "invalid TCP handshake body"));
}

#[test]
fn unsigned_requests_are_denied_before_they_are_parsed() {
    let state = serving(vec![mapping(1, 7000)]);
    let mut events = checked(Signature::Refused(401, "unauthorized".to_string()));
    assert_eq!(run(&state, events), plain(401, "unauthorized"));
    events = checked(Signature::Refused(401, "unauthorized".to_string()));
    events.push(PeerEvent::Parsed(Some(establish(7000))));
    events.push(PeerEvent::Opened);
    assert_eq!(run(&state, events), plain(401, "unauthorized"));
}

#[test]
fn replayed_requests_are_no_stale_routes() {
    let state = serving(vec![mapping(1, 7000)]);
    assert_eq!(run(&state, checked(Signature::Refused(409, "replay".to_string()))), plain(409, "replay"));
}

#[test]
fn requests_for_another_node_are_stale() {
    let state = serving(vec![mapping(1, 7000)]);
    match run(&state, checked(Signature::WrongTarget)) {
        PeerRequest::Answer(reply) => {
            assert_eq!(reply.status, 409);
            assert_eq!(reply.text, "stale TCP route");
            assert_eq!(
                reply.headers,
                vec![("x-cells-route-error".to_string(), "stale-owner".to_string())]
            );
        }
        other => panic!("{other:?}"),
    }
}

#[test]
fn only_configured_targets_are_dialed() {
    let state = serving(vec![mapping(1, 7002), mapping(2, 7000)]);
    let parsed = |establish| {
        let mut events = checked(Signature::Valid);
        events.push(PeerEvent::Parsed(establish));
        run(&state, events)
    };
    assert_eq!(parsed(None), plain(400, "invalid TCP target"));
    assert_eq!(parsed(Some(establish(7003))), plain(403, "TCP target is not configured on this node"));
    let other_hook = Establish {
        target: Target { startup_path: "/other".to_string(), ..target(7000) },
        capacity_handoff: false,
    };
    assert_eq!(parsed(Some(other_hook)), plain(403, "TCP target is not configured on this node"));
    assert_eq!(parsed(Some(establish(7000))), PeerRequest::Route { place: 1, capacity_handoff: false });
    let handoff = Establish { target: target(7002), capacity_handoff: true };
    assert_eq!(parsed(Some(handoff)), PeerRequest::Route { place: 0, capacity_handoff: true });
}

#[test]
fn owners_open_their_containers() {
    let state = serving(vec![mapping(1, 7000)]);
    let open = |event| {
        let mut events = routed(OwnerRoute::Local(9));
        events.push(event);
        run(&state, events)
    };
    assert_eq!(run(&state, routed(OwnerRoute::Local(9))), PeerRequest::Open { place: 0, request: 9 });
    assert_eq!(open(PeerEvent::Opened), PeerRequest::Answer(switching_reply()));
    assert_eq!(open(PeerEvent::OpenFailed(true)), PeerRequest::Answer(stale_reply()));
    assert_eq!(open(PeerEvent::OpenFailed(false)), plain(502, "TCP target did not become ready"));
    assert_eq!(open(PeerEvent::TimedOut), plain(504, "TCP establishment timed out"));
    assert_eq!(open(PeerEvent::Parsed(None)), PeerRequest::Open { place: 0, request: 9 });
}

#[test]
fn owners_elsewhere_make_the_route_stale() {
    let state = serving(vec![mapping(1, 7000)]);
    assert_eq!(run(&state, routed(OwnerRoute::Remote)), PeerRequest::Answer(stale_reply()));
    assert_eq!(run(&state, routed(OwnerRoute::CapacityExhausted)), PeerRequest::Answer(stale_reply()));
    assert_eq!(
        run(&state, routed(OwnerRoute::Unavailable)),
        plain(502, "TCP target did not become ready")
    );
    let mut events = routed(OwnerRoute::Remote);
    events.pop();
    events.push(PeerEvent::TimedOut);
    assert_eq!(run(&state, events), plain(504, "TCP establishment timed out"));
}

#[test]
fn answers_stay_as_they_are() {
    let state = serving(vec![mapping(1, 7000)]);
    let mut events = routed(OwnerRoute::Local(9));
    events.push(PeerEvent::Opened);
    events.push(PeerEvent::TimedOut);
    events.push(head("GET", false, None));
    assert_eq!(run(&state, events), PeerRequest::Answer(switching_reply()));
}

#[test]
fn the_switch_names_the_protocol() {
    let reply = switching_reply();
    assert_eq!(reply.status, 101);
    assert_eq!(reply.text, "");
    assert_eq!(
        reply.headers,
        vec![
            ("connection".to_string(), "upgrade".to_string()),
            ("upgrade".to_string(), "celld-container-tcp-v1".to_string()),
        ]
    );
    assert_eq!(response(400, "no".to_string()), Reply { status: 400, text: "no".to_string(), headers: vec![] });
}

#[test]
fn requests_for_streams_are_built() {
    let request = stream_request("10.0.0.1:4000", "x-version", "3");
    assert_eq!(request.url, "http://10.0.0.1:4000/peer/tcp");
    assert_eq!(request.method, "POST");
    assert_eq!(request.path, PEER_PATH);
    assert_eq!(
        request.headers,
        vec![
            ("connection".to_string(), "upgrade".to_string()),
            ("upgrade".to_string(), PROTOCOL.to_string()),
            ("x-version".to_string(), "3".to_string()),
        ]
    );
    let state = State::new();
    assert_eq!(
        run(&state, vec![head(&request.method, false, Some(&request.headers[1].1))]),
        PeerRequest::Body
    );
}

fn received(reply: &Reply) -> StreamReply {
    let find = |name: &str| {
        reply.headers.iter().find(|header| header.0 == name).map(|header| header.1.as_bytes().to_vec())
    };
    StreamReply {
        valid: true,
        status: reply.status,
        route_error: find(STALE_ROUTE_HEADER),
        upgrade: find("upgrade"),
    }
}

#[test]
fn replies_are_judged() {
    assert_eq!(judge_reply(&received(&switching_reply())), Ok(()));
    assert_eq!(judge_reply(&received(&stale_reply())), Err(StreamError::StaleRoute));
    assert_eq!(
        judge_reply(&received(&response(409, "replay".to_string()))),
        Err(StreamError::Refused(409))
    );
    assert_eq!(
        judge_reply(&received(&response(403, "no".to_string()))),
        Err(StreamError::Refused(403))
    );
    assert_eq!(
        judge_reply(&StreamReply { upgrade: None, ..received(&switching_reply()) }),
        Err(StreamError::Refused(101))
    );
    assert_eq!(
        judge_reply(&StreamReply { status: 200, ..received(&switching_reply()) }),
        Err(StreamError::Refused(200))
    );
    assert_eq!(
        judge_reply(&StreamReply { valid: false, ..received(&switching_reply()) }),
        Err(StreamError::Invalid)
    );
    assert_eq!(STALE_ROUTE_VALUE, "stale-owner");
}
