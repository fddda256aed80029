use nylon::claim::LinkId;
use nylon::config::{
    CentralConfig, LinkInfo, NodeConfig, NodeIdentity, NodeInfo, NodeSecret, SockAddr, VLANAddr,
};
use nylon::courier::{CourierPacket, RoutedPacket, start_ping, start_trace};
use nylon::entity::{Entity, EntitySecret};
use nylon::metric::{INF, MetricEvent, MetricPacket};
use nylon::network::{CtlPacket, Datagram, InPacket, NetworkEvent, OutPacket, UdpPacket};
use nylon::routing::{RoutingOut, handle_routing_packet, sync_routes, write_routing_packets};
use nylon::state::{Action, NylonEvent, NylonState, PING_INF_MS, RouteEntry};

fn sock(ip: u32, port: u16) -> SockAddr {
    SockAddr { v6: false, ip: ip as u128, port }
}

fn node_info(name: &str, public: &Entity) -> NodeInfo {
    NodeInfo {
        identity: NodeIdentity {
            id: name.to_string(),
            pubkey: Entity { pub_key: public.pub_key.clone() },
            dp_pubkey: String::new(),
        },
        reachable_via: vec![LinkInfo {
            addr_ctl: sock(1, 59162),
            addr_dg: sock(1, 59162),
            addr_dp: sock(1, 59163),
        }],
        addr_vlan: VLANAddr { v6: false, ip: 0x0a000001, cidr: 32 },
    }
}

fn dup_cfg(cfg: &CentralConfig) -> CentralConfig {
    CentralConfig {
        version: cfg.version,
        config_repos: cfg.config_repos.clone(),
        nodes: cfg.nodes.iter().map(|n| n.duplicate()).collect(),
        root_ca: cfg.root_ca.duplicate(),
    }
}

fn network_of(names: &[&str]) -> (Vec<EntitySecret>, CentralConfig) {
    let root = EntitySecret::generate().unwrap();
    let mut secrets = Vec::new();
    let mut nodes = Vec::new();
    for name in names {
        let s = EntitySecret::generate().unwrap();
        nodes.push(node_info(name, &s.get_pubkey()));
        secrets.push(s);
    }
    let cfg = CentralConfig {
        version: 1,
        config_repos: vec![],
        nodes,
        root_ca: root.get_pubkey(),
    };
    (secrets, cfg)
}

fn state_for(me: usize, secrets: &[EntitySecret], cfg: &CentralConfig) -> NylonState {
    let node_config = NodeConfig {
        node_secret: NodeSecret {
            wg_privkey: String::new(),
            node_privkey: secrets[me].duplicate(),
        },
        node_sock: LinkInfo {
            addr_ctl: sock(me as u32 + 1, 59162),
            addr_dg: sock(me as u32 + 1, 59162),
            addr_dp: sock(me as u32 + 1, 59163),
        },
        interface_name: "nylon".to_string(),
    };
    NylonState::try_init(node_config, dup_cfg(cfg)).expect("well-formed key")
}

fn identity_of(secrets: &[EntitySecret], cfg: &CentralConfig, i: usize) -> NodeIdentity {
    let pk = secrets[i].get_pubkey();
    let idx = cfg.find_node_by_pubkey(&pk).expect("trusted");
    cfg.nodes[idx].identity.duplicate()
}

fn route_to(cfg_node: &NodeIdentity, link: LinkId, dst: &Entity) -> RouteEntry {
    RouteEntry {
        dst: dst.duplicate(),
        link,
        next_hop: cfg_node.pubkey.duplicate(),
        metric: 1,
        seqno: 0,
    }
}

/// Run the actor until its event queue is empty, then hand back the
/// actions it queued for the I/O layer.
fn drain(state: &mut NylonState, now_ms: i64) -> Vec<Action> {
    while !state.mq.events.is_empty() {
        let ev = state.mq.events.remove(0);
        nylon::network::main_iter(state, ev, now_ms);
    }
    std::mem::take(&mut state.mq.actions)
}

fn datagrams_of(actions: &[Action]) -> Vec<(SockAddr, MetricPacket)> {
    let mut out = Vec::new();
    for a in actions {
        if let Action::TransmitDatagram { addr, packet: Datagram::PMetric(mp) } = a {
            out.push((*addr, mp_clone(mp)));
        }
    }
    out
}

fn mp_clone(mp: &MetricPacket) -> MetricPacket {
    match mp {
        MetricPacket::Ping(id, r) => MetricPacket::Ping(*id, *r),
        MetricPacket::Pong(id) => MetricPacket::Pong(*id),
    }
}

fn frames_of(actions: Vec<Action>) -> Vec<(LinkId, CtlPacket)> {
    let mut out = Vec::new();
    for a in actions {
        if let Action::TransmitFrame { link, packet, .. } = a {
            out.push((link, packet));
        }
    }
    out
}

#[test]
fn two_node_bring_up_measures_a_finite_ping() {
    let (secrets, cfg) = network_of(&["n1", "n2"]);
    let mut s1 = state_for(0, &secrets, &cfg);
    let mut s2 = state_for(1, &secrets, &cfg);
    let link: LinkId = 7;
    let n1 = identity_of(&secrets, &cfg, 0);
    let n2 = identity_of(&secrets, &cfg, 1);
    // the dialer knows the peer's probe address; the listener learns it
    // from the first ping
    assert!(s1.register_link(link, Some(sock(2, 59162)), n2));
    assert!(s2.register_link(link, None, n1));
    assert_eq!(s1.os.links.len(), 1);
    assert_eq!(s2.os.links.len(), 1);

    // the metric timer fans out one ping per link
    nylon::network::main_iter(&mut s1, NylonEvent::Timer(nylon::timing::TimedEvent::MetricUpdate), 1000);
    let acts = drain(&mut s1, 1000);
    let dgs = datagrams_of(&acts);
    assert_eq!(dgs.len(), 1);
    assert!(matches!(dgs[0].1, MetricPacket::Ping(7, false)));

    // n2 answers the ping with a pong, and probes back to learn its own
    // reachable address
    let from_n1 = sock(1, 59162);
    nylon::network::main_iter(
        &mut s2,
        NylonEvent::Network(NetworkEvent::InboundDatagram(UdpPacket {
            addr: from_n1,
            packet: Datagram::PMetric(MetricPacket::Ping(link, false)),
        })),
        1010,
    );
    let acts = drain(&mut s2, 1010);
    let dgs = datagrams_of(&acts);
    assert_eq!(dgs.len(), 2);
    assert!(matches!(dgs[0].1, MetricPacket::Pong(7)));
    assert!(matches!(dgs[1].1, MetricPacket::Ping(7, true)));

    // the pong lands forty milliseconds after the probe started: the
    // link metric becomes the half round trip, well under 100 ms
    nylon::network::main_iter(
        &mut s1,
        NylonEvent::Network(NetworkEvent::InboundDatagram(UdpPacket {
            addr: sock(2, 59162),
            packet: Datagram::PMetric(MetricPacket::Pong(link)),
        })),
        1040,
    );
    let acts = drain(&mut s1, 1040);
    let mut metric = None;
    for a in &acts {
        if let Action::EngineSetMetric { link: l, metric: m } = a {
            assert_eq!(*l, link);
            metric = Some(*m);
        }
    }
    let m = metric.expect("metric update");
    assert!(m >= 1 && m < 100, "metric {m}");
    let hi = s1.find_health(link).unwrap();
    assert_eq!(s1.os.health[hi].1.ping, 20);
}

#[test]
fn trace_via_intermediate_records_every_hop() {
    // chain n1 - n2 - n3, with n1 and n3 not directly connected
    let (secrets, cfg) = network_of(&["n1", "n2", "n3"]);
    let mut s1 = state_for(0, &secrets, &cfg);
    let mut s2 = state_for(1, &secrets, &cfg);
    let mut s3 = state_for(2, &secrets, &cfg);
    let a: LinkId = 100;
    let b: LinkId = 200;
    let n1 = identity_of(&secrets, &cfg, 0);
    let n2 = identity_of(&secrets, &cfg, 1);
    let n3 = identity_of(&secrets, &cfg, 2);
    let p1 = n1.pubkey.duplicate();
    let p2 = n2.pubkey.duplicate();
    let p3 = n3.pubkey.duplicate();
    assert!(s1.register_link(a, None, n2.duplicate()));
    assert!(s2.register_link(a, None, n1.duplicate()));
    assert!(s2.register_link(b, None, n3.duplicate()));
    assert!(s3.register_link(b, None, n2.duplicate()));
    // converged routes: n1 reaches n3 through n2, and back
    sync_routes(&mut s1, &vec![route_to(&n2, a, &p3), route_to(&n2, a, &p2)]);
    sync_routes(&mut s2, &vec![route_to(&n3, b, &p3), route_to(&n1, a, &p1)]);
    sync_routes(&mut s3, &vec![route_to(&n2, b, &p1), route_to(&n2, b, &p2)]);
    assert_eq!(s1.ps.routes.len(), 2);

    start_trace(&mut s1, p3.duplicate());
    let frames = frames_of(drain(&mut s1, 2000));
    assert_eq!(frames.len(), 1);
    assert_eq!(frames[0].0, a);

    // n2 forwards the trace towards n3, appending itself
    nylon::network::main_iter(
        &mut s2,
        NylonEvent::Network(NetworkEvent::InboundPacket(InPacket {
            src: a,
            packet: frames.into_iter().next().unwrap().1,
        })),
        2010,
    );
    let frames = frames_of(drain(&mut s2, 2010));
    assert_eq!(frames.len(), 1);
    assert_eq!(frames[0].0, b);

    // n3 is the destination: it answers with the finished trace
    nylon::network::main_iter(
        &mut s3,
        NylonEvent::Network(NetworkEvent::InboundPacket(InPacket {
            src: b,
            packet: frames.into_iter().next().unwrap().1,
        })),
        2020,
    );
    let frames = frames_of(drain(&mut s3, 2020));
    assert_eq!(frames.len(), 1);
    assert_eq!(frames[0].0, b);

    // the reply passes back through n2
    nylon::network::main_iter(
        &mut s2,
        NylonEvent::Network(NetworkEvent::InboundPacket(InPacket {
            src: b,
            packet: frames.into_iter().next().unwrap().1,
        })),
        2030,
    );
    let frames = frames_of(drain(&mut s2, 2030));
    assert_eq!(frames.len(), 1);
    assert_eq!(frames[0].0, a);

    // and lands at n1 carrying the full path n1 -> n2 -> n3
    let (_, packet) = frames.into_iter().next().unwrap();
    let path = match &packet {
        CtlPacket::PCourier(CourierPacket::Deliver {
            dst_id,
            data: RoutedPacket::TracedRoute { path },
            ..
        }) => {
            assert_eq!(dst_id.pub_key, p1.pub_key);
            path.iter().map(|e| e.pub_key.clone()).collect::<Vec<_>>()
        },
        _ => panic!("expected a traced route delivery"),
    };
    assert_eq!(path.len(), 3);
    assert_eq!(path[0], p1.pub_key, "first entry is the tracing node");
    assert_eq!(path[1], p2.pub_key);
    assert_eq!(path[2], p3.pub_key, "last entry is the destination");
    assert!(path[0] != path[1] && path[1] != path[2] && path[0] != path[2]);
}

#[test]
fn missed_ping_check_marks_link_unreachable() {
    // no pong since the probe went out: within one check interval the
    // metric collapses to INF
    let (secrets, cfg) = network_of(&["n1", "n2"]);
    let mut s1 = state_for(0, &secrets, &cfg);
    let link: LinkId = 7;
    let n2 = identity_of(&secrets, &cfg, 1);
    assert!(s1.register_link(link, Some(sock(2, 59162)), n2));
    nylon::network::main_iter(
        &mut s1,
        NylonEvent::Network(NetworkEvent::EMetric(MetricEvent::PingLink(link))),
        1000,
    );
    let acts = drain(&mut s1, 1000);
    // the probe scheduled its own timeout check
    let mut check = None;
    for a in acts {
        if let Action::ScheduleEvent { delay_ms, event } = a {
            assert_eq!(delay_ms, 5000);
            check = Some(*event);
        }
    }
    let check = check.expect("check scheduled");
    nylon::network::main_iter(&mut s1, check, 6000);
    let acts = drain(&mut s1, 6000);
    let mut metric = None;
    for a in &acts {
        if let Action::EngineSetMetric { link: l, metric: m } = a {
            assert_eq!(*l, link);
            metric = Some(*m);
        }
    }
    assert_eq!(metric, Some(INF));
    let hi = s1.find_health(link).unwrap();
    assert_eq!(s1.os.health[hi].1.ping, PING_INF_MS);
}

#[test]
fn pong_in_time_keeps_link_reachable() {
    let (secrets, cfg) = network_of(&["n1", "n2"]);
    let mut s1 = state_for(0, &secrets, &cfg);
    let link: LinkId = 7;
    let n2 = identity_of(&secrets, &cfg, 1);
    assert!(s1.register_link(link, Some(sock(2, 59162)), n2));
    nylon::network::main_iter(
        &mut s1,
        NylonEvent::Network(NetworkEvent::EMetric(MetricEvent::PingLink(link))),
        1000,
    );
    drain(&mut s1, 1000);
    // the pong advances the sequence number, so the later check is moot
    nylon::network::main_iter(
        &mut s1,
        NylonEvent::Network(NetworkEvent::InboundDatagram(UdpPacket {
            addr: sock(2, 59162),
            packet: Datagram::PMetric(MetricPacket::Pong(link)),
        })),
        1030,
    );
    drain(&mut s1, 1030);
    nylon::network::main_iter(
        &mut s1,
        NylonEvent::Network(NetworkEvent::EMetric(MetricEvent::PingCheck { link, seq: 0 })),
        6000,
    );
    drain(&mut s1, 6000);
    let hi = s1.find_health(link).unwrap();
    assert_eq!(s1.os.health[hi].1.ping, 15);
}

#[test]
fn application_ping_earns_a_pong() {
    // n1 pings n2 at the application level over a direct link
    let (secrets, cfg) = network_of(&["n1", "n2"]);
    let mut s1 = state_for(0, &secrets, &cfg);
    let mut s2 = state_for(1, &secrets, &cfg);
    let link: LinkId = 7;
    let n1 = identity_of(&secrets, &cfg, 0);
    let n2 = identity_of(&secrets, &cfg, 1);
    let p1 = n1.pubkey.duplicate();
    let p2 = n2.pubkey.duplicate();
    assert!(s1.register_link(link, None, n2.duplicate()));
    assert!(s2.register_link(link, None, n1.duplicate()));
    sync_routes(&mut s1, &vec![route_to(&n2, link, &p2)]);
    sync_routes(&mut s2, &vec![route_to(&n1, link, &p1)]);

    start_ping(&mut s1, p2.duplicate(), 1000);
    assert_eq!(s1.os.pings.len(), 1);
    let frames = frames_of(drain(&mut s1, 1000));
    assert_eq!(frames.len(), 1);

    nylon::network::main_iter(
        &mut s2,
        NylonEvent::Network(NetworkEvent::InboundPacket(InPacket {
            src: link,
            packet: frames.into_iter().next().unwrap().1,
        })),
        1010,
    );
    let frames = frames_of(drain(&mut s2, 1010));
    assert_eq!(frames.len(), 1, "the pong is routed back");

    nylon::network::main_iter(
        &mut s1,
        NylonEvent::Network(NetworkEvent::InboundPacket(InPacket {
            src: link,
            packet: frames.into_iter().next().unwrap().1,
        })),
        1020,
    );
    drain(&mut s1, 1020);
    assert!(s1.os.pings.is_empty(), "the pending ping is settled");
}

#[test]
fn undeliverable_packets_are_dropped_silently() {
    let (secrets, cfg) = network_of(&["n1", "n2"]);
    let mut s1 = state_for(0, &secrets, &cfg);
    let stranger = EntitySecret::generate().unwrap().get_pubkey();
    start_ping(&mut s1, stranger, 1000);
    let frames = frames_of(drain(&mut s1, 1000));
    assert!(frames.is_empty(), "no route, nothing sent");
}

#[test]
fn outbound_packet_for_dead_link_fires_failure_event() {
    let (secrets, cfg) = network_of(&["n1", "n2"]);
    let mut s1 = state_for(0, &secrets, &cfg);
    nylon::network::main_iter(
        &mut s1,
        NylonEvent::Network(NetworkEvent::OutboundPacket(OutPacket {
            link: 999,
            packet: CtlPacket::Routing(vec![1, 2, 3]),
            failure_event: Some(Box::new(NylonEvent::Shutdown)),
        })),
        1000,
    );
    // the failure event was queued and, once dispatched, cancels
    assert_eq!(s1.mq.events.len(), 1);
    drain(&mut s1, 1001);
    assert!(s1.mq.cancelled);
}

#[test]
fn routing_packets_only_ship_on_active_links() {
    let (secrets, cfg) = network_of(&["n1", "n2"]);
    let mut s1 = state_for(0, &secrets, &cfg);
    let n2 = identity_of(&secrets, &cfg, 1);
    assert!(s1.register_link(7, None, n2));
    let outbound = vec![
        RoutingOut { link: 7, payload: vec![1] },
        RoutingOut { link: 8, payload: vec![2] },
        RoutingOut { link: 7, payload: vec![3] },
    ];
    write_routing_packets(&mut s1, &outbound);
    let frames = frames_of(drain(&mut s1, 1000));
    assert_eq!(frames.len(), 2);
    for (link, packet) in frames {
        assert_eq!(link, 7);
        assert!(matches!(packet, CtlPacket::Routing(_)));
    }
}

#[test]
fn inbound_routing_packet_names_the_authenticated_neighbour() {
    let (secrets, cfg) = network_of(&["n1", "n2"]);
    let mut s1 = state_for(0, &secrets, &cfg);
    let n2 = identity_of(&secrets, &cfg, 1);
    let p2 = n2.pubkey.duplicate();
    assert!(s1.register_link(7, None, n2));
    assert!(handle_routing_packet(&mut s1, vec![9, 9], 7));
    assert!(!handle_routing_packet(&mut s1, vec![9, 9], 8));
    let acts = std::mem::take(&mut s1.mq.actions);
    let mut seen = 0;
    for a in acts {
        if let Action::EngineHandlePacket { link, neighbour, payload } = a {
            assert_eq!(link, 7);
            assert_eq!(neighbour.pub_key, p2.pub_key);
            assert_eq!(payload, vec![9, 9]);
            seen += 1;
        }
    }
    assert_eq!(seen, 1);
}

#[test]
fn route_sync_drops_entries_without_a_matching_link() {
    let (secrets, cfg) = network_of(&["n1", "n2"]);
    let mut s1 = state_for(0, &secrets, &cfg);
    let n2 = identity_of(&secrets, &cfg, 1);
    let p1 = secrets[0].get_pubkey();
    let p2 = n2.pubkey.duplicate();
    assert!(s1.register_link(7, None, n2.duplicate()));
    let entries = vec![
        // carried by the active link whose destination is the next hop
        route_to(&n2, 7, &p2),
        // dead link
        route_to(&n2, 8, &p2),
        // live link, but the next hop is not the link's destination
        RouteEntry { dst: p2.duplicate(), link: 7, next_hop: p1, metric: 1, seqno: 0 },
    ];
    sync_routes(&mut s1, &entries);
    assert_eq!(s1.ps.routes.len(), 1);
    assert_eq!(s1.ps.routes[0].link, 7);
    assert_eq!(s1.ps.routes[0].next_hop.pub_key, p2.pub_key);
}

#[test]
fn metric_timer_fans_out_to_every_link() {
    let (secrets, cfg) = network_of(&["n1", "n2", "n3"]);
    let mut s2 = state_for(1, &secrets, &cfg);
    let n1 = identity_of(&secrets, &cfg, 0);
    let n3 = identity_of(&secrets, &cfg, 2);
    assert!(s2.register_link(100, None, n1));
    assert!(s2.register_link(200, None, n3));
    nylon::network::main_iter(&mut s2, NylonEvent::Timer(nylon::timing::TimedEvent::MetricUpdate), 500);
    assert_eq!(s2.mq.events.len(), 2);
}

#[test]
fn route_update_timer_asks_the_engine_for_a_full_update() {
    let (secrets, cfg) = network_of(&["n1"]);
    let mut s1 = state_for(0, &secrets, &cfg);
    nylon::network::main_iter(&mut s1, NylonEvent::Timer(nylon::timing::TimedEvent::RouteUpdate), 500);
    let acts = std::mem::take(&mut s1.mq.actions);
    assert!(matches!(acts.as_slice(), [Action::EngineFullUpdate]));
}

#[test]
fn link_down_removes_the_link_and_its_routes() {
    let (secrets, cfg) = network_of(&["n1", "n2", "n3"]);
    let mut s1 = state_for(0, &secrets, &cfg);
    let n2 = identity_of(&secrets, &cfg, 1);
    let n3 = identity_of(&secrets, &cfg, 2);
    let p2 = n2.pubkey.duplicate();
    let p3 = n3.pubkey.duplicate();
    assert!(s1.register_link(7, None, n2.duplicate()));
    assert!(s1.register_link(8, None, n3.duplicate()));
    sync_routes(&mut s1, &vec![route_to(&n2, 7, &p2), route_to(&n3, 8, &p3)]);
    assert_eq!(s1.ps.routes.len(), 2);
    std::mem::take(&mut s1.mq.actions);

    nylon::network::main_iter(
        &mut s1,
        NylonEvent::Network(NetworkEvent::LinkDown(7)),
        5000,
    );
    assert!(s1.get_link(7).is_none(), "the dead link left the registry");
    assert!(s1.get_link(8).is_some(), "other links are unaffected");
    assert_eq!(s1.ps.routes.len(), 1, "the dead link's routes are gone");
    assert_eq!(s1.ps.routes[0].link, 8);
    assert!(s1.find_neighbour(7).is_none());
    let acts = std::mem::take(&mut s1.mq.actions);
    assert!(acts.iter().any(|a| matches!(a, Action::EngineDropNeighbour { link: 7 })));
}

#[test]
fn link_down_for_an_unknown_id_changes_nothing() {
    let (secrets, cfg) = network_of(&["n1", "n2"]);
    let mut s1 = state_for(0, &secrets, &cfg);
    let n2 = identity_of(&secrets, &cfg, 1);
    assert!(s1.register_link(7, None, n2));
    std::mem::take(&mut s1.mq.actions);
    nylon::network::main_iter(
        &mut s1,
        NylonEvent::Network(NetworkEvent::LinkDown(99)),
        5000,
    );
    assert!(s1.get_link(7).is_some());
    assert!(s1.mq.actions.is_empty());
}

#[test]
fn shutdown_cancels_and_wakes_the_actor() {
    let (secrets, cfg) = network_of(&["n1"]);
    let mut s1 = state_for(0, &secrets, &cfg);
    s1.mq.shutdown();
    assert!(s1.mq.cancelled);
    assert!(matches!(s1.mq.events.last(), Some(NylonEvent::NoEvent)));
    // dispatching a Shutdown event has the same effect on a fresh node
    let mut s2 = state_for(0, &secrets, &cfg);
    nylon::network::main_iter(&mut s2, NylonEvent::Shutdown, 100);
    assert!(s2.mq.cancelled);
}

#[test]
fn message_is_forwarded_along_the_route() {
    let (secrets, cfg) = network_of(&["n1", "n2"]);
    let mut s1 = state_for(0, &secrets, &cfg);
    let n2 = identity_of(&secrets, &cfg, 1);
    let p2 = n2.pubkey.duplicate();
    assert!(s1.register_link(7, None, n2));
    sync_routes(&mut s1, &vec![route_to_self(&p2, 7)]);
    nylon::courier::send_message(&mut s1, p2.duplicate(), "hello mesh".to_string());
    let frames = frames_of(drain(&mut s1, 1000));
    assert_eq!(frames.len(), 1);
    match &frames[0].1 {
        CtlPacket::PCourier(CourierPacket::Deliver {
            dst_id,
            data: RoutedPacket::Message(m),
            ..
        }) => {
            assert_eq!(dst_id.pub_key, p2.pub_key);
            assert_eq!(m, "hello mesh");
        },
        _ => panic!("expected a message delivery"),
    }
}

fn route_to_self(dst: &Entity, link: LinkId) -> RouteEntry {
    RouteEntry {
        dst: dst.duplicate(),
        link,
        next_hop: dst.duplicate(),
        metric: 1,
        seqno: 0,
    }
}
