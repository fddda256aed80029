use vstd::prelude::*;
use crate::entity::Entity;
use crate::network::{CtlPacket, NetworkEvent, OutPacket};
use crate::state::{NylonEvent, NylonState};

verus! {

/// Application datagrams carried hop by hop along computed routes.
pub enum RoutedPacket {
    Ping,
    Pong,
    TracedRoute { path: Vec<Entity> },
    Message(String),
    Undeliverable { to: Entity },
}

/// Control-channel courier packets: deliver a routed packet towards its
/// destination, or trace the route towards it, collecting every hop.
pub enum CourierPacket {
    Deliver { dst_id: Entity, sender_id: Entity, data: RoutedPacket },
    TraceRoute { dst_id: Entity, sender_id: Entity, path: Vec<Entity> },
}

/// Internal courier events: route a packet from `from` towards `to`.
pub enum CourierEvent {
    RoutePacket { to: Entity, from: Entity, packet: RoutedPacket },
}

/// Value equality of routed packets up to views.
pub open spec fn routed_eq(a: RoutedPacket, b: RoutedPacket) -> bool {
    match (a, b) {
        (RoutedPacket::Ping, RoutedPacket::Ping) => true,
        (RoutedPacket::Pong, RoutedPacket::Pong) => true,
        (RoutedPacket::TracedRoute { path: pa }, RoutedPacket::TracedRoute { path: pb }) => pa@
            == pb@,
        (RoutedPacket::Message(ma), RoutedPacket::Message(mb)) => ma@ == mb@,
        (RoutedPacket::Undeliverable { to: ta }, RoutedPacket::Undeliverable { to: tb }) => ta@
            == tb@,
        _ => false,
    }
}

/// The event that routes `packet` from `from` towards `to` (a re-entry
/// into the courier).
pub open spec fn is_route_packet_event(
    e: NylonEvent,
    to: Seq<u8>,
    from: Seq<u8>,
    packet: RoutedPacket,
) -> bool {
    &&& e matches NylonEvent::Network(NetworkEvent::ECourier(CourierEvent::RoutePacket {
        to: t,
        from: f,
        packet: p,
    }))
    &&& t@ == to
    &&& f@ == from
    &&& routed_eq(p, packet)
}

/// The event that hands `packet` to the writer of `link`, with `NoEvent`
/// as the failure event.
pub open spec fn is_courier_forward_event(
    e: NylonEvent,
    link: crate::claim::LinkId,
    packet: CourierPacket,
) -> bool {
    &&& e matches NylonEvent::Network(NetworkEvent::OutboundPacket(OutPacket {
        link: l,
        packet: CtlPacket::PCourier(p),
        failure_event: fe,
    }))
    &&& l == link
    &&& courier_eq(p, packet)
    &&& fe matches Some(b) && *b == NylonEvent::NoEvent
}

/// Value equality of courier packets up to views.
pub open spec fn courier_eq(a: CourierPacket, b: CourierPacket) -> bool {
    match (a, b) {
        (
            CourierPacket::Deliver { dst_id: da, sender_id: sa, data: xa },
            CourierPacket::Deliver { dst_id: db, sender_id: sb, data: xb },
        ) => da@ == db@ && sa@ == sb@ && routed_eq(xa, xb),
        (
            CourierPacket::TraceRoute { dst_id: da, sender_id: sa, path: pa },
            CourierPacket::TraceRoute { dst_id: db, sender_id: sb, path: pb },
        ) => da@ == db@ && sa@ == sb@ && pa@ == pb@,
        _ => false,
    }
}

/// Everything but the event queue and the pending-ping table is left
/// alone by the courier.
pub open spec fn courier_frame(pre: NylonState, post: NylonState) -> bool {
    &&& post.os.links@ == pre.os.links@
    &&& post.os.health@ == pre.os.health@
    &&& post.os.node_config == pre.os.node_config
    &&& post.os.central_config == pre.os.central_config
    &&& post.ps == pre.ps
    &&& post.mq.actions@ == pre.mq.actions@
    &&& post.mq.cancelled == pre.mq.cancelled
}

/// What local delivery of `pkt` from `src` leaves behind: a ping earns a
/// pong routed back, a pong settles the matching pending application
/// ping, everything else is only reported.
pub open spec fn routed_packet_post(
    pre: NylonState,
    post: NylonState,
    pkt: RoutedPacket,
    src: Entity,
) -> bool {
    &&& courier_frame(pre, post)
    &&& match pkt {
        RoutedPacket::Ping => {
            &&& post.os.pings@ == pre.os.pings@
            &&& post.mq.events@.len() == pre.mq.events@.len() + 1
            &&& post.mq.events@.subrange(0, pre.mq.events@.len() as int) == pre.mq.events@
            &&& is_route_packet_event(
                post.mq.events@.last(),
                src@,
                pre.ps.address@,
                RoutedPacket::Pong,
            )
        },
        RoutedPacket::Pong => {
            &&& post.mq.events@ == pre.mq.events@
            &&& if exists|i: int| 0 <= i < pre.os.pings@.len() && pre.os.pings@[i].0@ == src@ {
                exists|i: int|
                    0 <= i < pre.os.pings@.len() && pre.os.pings@[i].0@ == src@
                        && post.os.pings@ == pre.os.pings@.subrange(0, i) + pre.os.pings@.subrange(
                        i + 1,
                        pre.os.pings@.len() as int,
                    )
            } else {
                post.os.pings@ == pre.os.pings@
            }
        },
        _ => {
            &&& post.os.pings@ == pre.os.pings@
            &&& post.mq.events@ == pre.mq.events@
        },
    }
}

/// Deliver a routed packet addressed to this node: answer pings, settle
/// pending application pings on a pong; traced routes, messages and
/// undeliverable notices are only reported, not routed further.
pub fn handle_routed_packet(state: &mut NylonState, pkt: RoutedPacket, src: Entity)
    requires
        old(state).wf(),
    ensures
        final(state).wf(),
        routed_packet_post(*old(state), *final(state), pkt, src),
{
    match pkt {
        RoutedPacket::Ping => {
            let from = state.pubkey();
            state.mq.send_network(
                NetworkEvent::ECourier(
                    CourierEvent::RoutePacket { to: src, from, packet: RoutedPacket::Pong },
                ),
            );
            proof {
                assert(state.mq.events@.subrange(0, old(state).mq.events@.len() as int) =~= old(
                    state,
                ).mq.events@);
            }
        },
        RoutedPacket::Pong => {
            let n = state.os.pings.len();
            let mut found: Option<usize> = None;
            let mut i: usize = 0;
            while i < n
                invariant
                    n == state.os.pings@.len(),
                    0 <= i <= n,
                    found is None ==> forall|j: int| 0 <= j < i ==> state.os.pings@[j].0@ != src@,
                    found matches Some(k) ==> k < n && state.os.pings@[k as int].0@ == src@,
                decreases n - i,
            {
                if found.is_none() && state.os.pings[i].0.eq_entity(&src) {
                    found = Some(i);
                }
                i += 1;
            }
            match found {
                Some(k) => {
                    proof {
                        assert(old(state).os.pings@[k as int].0@ == src@);
                    }
                    state.os.pings.remove(k);
                    proof {
                        assert(state.os.pings@ =~= old(state).os.pings@.subrange(0, k as int) + old(
                            state,
                        ).os.pings@.subrange(k + 1, old(state).os.pings@.len() as int));
                        assert(0 <= (k as int) < old(state).os.pings@.len() && old(
                            state,
                        ).os.pings@[k as int].0@ == src@ && state.os.pings@ == old(
                            state,
                        ).os.pings@.subrange(0, k as int) + old(state).os.pings@.subrange(
                            k + 1,
                            old(state).os.pings@.len() as int,
                        ));
                    }
                },
                None => {},
            }
        },
        RoutedPacket::TracedRoute { path: _ } => {},
        RoutedPacket::Message(_) => {},
        RoutedPacket::Undeliverable { to: _ } => {},
    }
}

/// What routing a packet towards `dst` leaves behind: local delivery when
/// this node is the destination; otherwise one forward on the route's
/// link when a route with an active link exists; otherwise a silent drop.
pub open spec fn route_packet_post(
    pre: NylonState,
    post: NylonState,
    data: RoutedPacket,
    dst_id: Entity,
    sender_id: Entity,
) -> bool {
    if dst_id@ == pre.ps.address@ {
        routed_packet_post(pre, post, data, sender_id)
    } else {
        &&& courier_frame(pre, post)
        &&& post.os.pings@ == pre.os.pings@
        &&& if exists|ri: int|
            #![auto]
            first_route_match(pre.ps.routes@, dst_id@, ri) && crate::state::spec_has_link(
                pre.os.links@,
                pre.ps.routes@[ri].link,
            ) {
            exists|ri: int|
                #![auto]
                {
                    &&& first_route_match(pre.ps.routes@, dst_id@, ri)
                    &&& post.mq.events@.len() == pre.mq.events@.len() + 1
                    &&& post.mq.events@.subrange(0, pre.mq.events@.len() as int)
                        == pre.mq.events@
                    &&& is_courier_forward_event(
                        post.mq.events@.last(),
                        pre.ps.routes@[ri].link,
                        CourierPacket::Deliver { dst_id, sender_id, data },
                    )
                }
        } else {
            post.mq.events@ == pre.mq.events@
        }
    }
}

/// `ri` is the first route entry for destination `dst`.
pub open spec fn first_route_match(
    routes: Seq<crate::state::RouteEntry>,
    dst: Seq<u8>,
    ri: int,
) -> bool {
    &&& 0 <= ri < routes.len()
    &&& routes[ri].dst@ == dst
    &&& forall|j: int| 0 <= j < ri ==> routes[j].dst@ != dst
}

/// Route an application packet towards its destination: deliver locally,
/// or forward on the link of the first route for the destination, or
/// drop it silently when no usable route exists.
pub fn route_packet(
    state: &mut NylonState,
    data: RoutedPacket,
    dst_id: Entity,
    sender_id: Entity,
)
    requires
        old(state).wf(),
    ensures
        final(state).wf(),
        route_packet_post(*old(state), *final(state), data, dst_id, sender_id),
{
    if dst_id.eq_entity(&state.ps.address) {
        handle_routed_packet(state, data, sender_id);
        return ;
    }
    match state.find_route(&dst_id) {
        Some(ri) => {
            proof {
                assert(first_route_match(state.ps.routes@, dst_id@, ri as int));
            }
            let link = state.ps.routes[ri].link;
            if state.get_link(link).is_some() {
                state.mq.send_packet(
                    link,
                    CtlPacket::PCourier(CourierPacket::Deliver { dst_id, sender_id, data }),
                    NylonEvent::NoEvent,
                );
                proof {
                    assert(first_route_match(old(state).ps.routes@, dst_id@, ri as int)
                        && state.mq.events@.len() == old(state).mq.events@.len() + 1
                        && state.mq.events@.subrange(0, old(state).mq.events@.len() as int)
                        == old(state).mq.events@ && is_courier_forward_event(
                        state.mq.events@.last(),
                        old(state).ps.routes@[ri as int].link,
                        CourierPacket::Deliver { dst_id, sender_id, data },
                    ));
                }
            } else {
                proof {
                    lemma_no_other_first_route(state.ps.routes@, state.os.links@, dst_id@, ri as int);
                }
            }
        },
        None => {
            proof {
                if exists|w: int|
                    #![auto]
                    first_route_match(state.ps.routes@, dst_id@, w) && crate::state::spec_has_link(
                        state.os.links@,
                        state.ps.routes@[w].link,
                    ) {
                    let w = choose|w: int|
                        #![auto]
                        first_route_match(state.ps.routes@, dst_id@, w)
                            && crate::state::spec_has_link(
                            state.os.links@,
                            state.ps.routes@[w].link,
                        );
                    assert(state.ps.routes@[w].dst@ == dst_id@);
                    assert(false);
                }
            }
        },
    }
}

/// When the first route for `dst` sits at `ri` and its link is not
/// active, no index is a first match for `dst` with an active link.
proof fn lemma_no_other_first_route(
    routes: Seq<crate::state::RouteEntry>,
    links: Seq<crate::state::ActiveLink>,
    dst: Seq<u8>,
    ri: int,
)
    requires
        first_route_match(routes, dst, ri),
        !crate::state::spec_has_link(links, routes[ri].link),
    ensures
        !(exists|w: int|
            #![auto]
            first_route_match(routes, dst, w) && crate::state::spec_has_link(
                links,
                routes[w].link,
            )),
{
    if exists|w: int|
        #![auto]
        first_route_match(routes, dst, w) && crate::state::spec_has_link(links, routes[w].link) {
        let w = choose|w: int|
            #![auto]
            first_route_match(routes, dst, w) && crate::state::spec_has_link(
                links,
                routes[w].link,
            );
        if w < ri {
            assert(routes[w].dst@ != dst);
        } else if ri < w {
            assert(routes[ri].dst@ != dst);
        }
        assert(false);
    }
}

/// What handling one courier packet that arrived on `link` leaves behind.
pub open spec fn courier_packet_post(
    pre: NylonState,
    post: NylonState,
    packet: CourierPacket,
    link: crate::claim::LinkId,
) -> bool {
    match packet {
        CourierPacket::Deliver { dst_id, sender_id, data } => {
            if dst_id@ == pre.ps.address@ {
                routed_packet_post(pre, post, data, sender_id)
            } else {
                route_packet_post(pre, post, data, dst_id, sender_id)
            }
        },
        CourierPacket::TraceRoute { dst_id, sender_id, path } => {
            &&& courier_frame(pre, post)
            &&& post.os.pings@ == pre.os.pings@
            &&& if dst_id@ == pre.ps.address@ {
                // the trace ends here: the collected path, ourselves
                // appended, is routed back to the sender
                &&& post.mq.events@.len() == pre.mq.events@.len() + 1
                &&& post.mq.events@.subrange(0, pre.mq.events@.len() as int) == pre.mq.events@
                &&& exists|p2: Vec<Entity>|
                    #![auto]
                    {
                        &&& crate::courier::entity_views(p2@) == entity_views(path@).push(
                            pre.ps.address@,
                        )
                        &&& is_route_packet_event(
                            post.mq.events@.last(),
                            sender_id@,
                            pre.ps.address@,
                            RoutedPacket::TracedRoute { path: p2 },
                        )
                    }
            } else if exists|ri: int|
                #![auto]
                first_route_match(pre.ps.routes@, dst_id@, ri) && crate::state::spec_has_link(
                    pre.os.links@,
                    pre.ps.routes@[ri].link,
                ) {
                exists|ri: int, p2: Vec<Entity>|
                    #![auto]
                    {
                        &&& first_route_match(pre.ps.routes@, dst_id@, ri)
                        &&& entity_views(p2@) == entity_views(path@).push(pre.ps.address@)
                        &&& post.mq.events@.len() == pre.mq.events@.len() + 1
                        &&& post.mq.events@.subrange(0, pre.mq.events@.len() as int)
                            == pre.mq.events@
                        &&& is_courier_forward_event(
                            post.mq.events@.last(),
                            pre.ps.routes@[ri].link,
                            CourierPacket::TraceRoute { dst_id, sender_id, path: p2 },
                        )
                    }
            } else {
                post.mq.events@ == pre.mq.events@
            }
        },
    }
}

/// The views of a sequence of identities.
pub open spec fn entity_views(s: Seq<Entity>) -> Seq<Seq<u8>> {
    s.map(|i: int, e: Entity| e@)
}

/// Handle one courier packet from the control channel. A delivery either
/// lands here or is routed on; a trace-route first appends this node to
/// the collected path, then either answers with the finished trace or
/// forwards towards the destination.
pub fn handle_courier_packet(
    state: &mut NylonState,
    packet: CourierPacket,
    link: crate::claim::LinkId,
)
    requires
        old(state).wf(),
    ensures
        final(state).wf(),
        courier_packet_post(*old(state), *final(state), packet, link),
{
    match packet {
        CourierPacket::Deliver { dst_id, sender_id, data } => {
            if dst_id.eq_entity(&state.ps.address) {
                handle_routed_packet(state, data, sender_id);
            } else {
                route_packet(state, data, dst_id, sender_id);
            }
        },
        CourierPacket::TraceRoute { dst_id, sender_id, mut path } => {
            let own = state.pubkey();
            let ghost path0 = path@;
            path.push(own);
            let ghost p2w = path;
            proof {
                assert(entity_views(path@) =~= entity_views(path0).push(
                    old(state).ps.address@,
                ));
            }
            if dst_id.eq_entity(&state.ps.address) {
                let from = state.pubkey();
                state.mq.send_network(
                    NetworkEvent::ECourier(
                        CourierEvent::RoutePacket {
                            to: sender_id,
                            from,
                            packet: RoutedPacket::TracedRoute { path },
                        },
                    ),
                );
                proof {
                    assert(state.mq.events@.subrange(0, old(state).mq.events@.len() as int)
                        =~= old(state).mq.events@);
                    assert(entity_views(p2w@) == entity_views(path0).push(
                        old(state).ps.address@,
                    ) && is_route_packet_event(
                        state.mq.events@.last(),
                        sender_id@,
                        old(state).ps.address@,
                        RoutedPacket::TracedRoute { path: p2w },
                    ));
                }
            } else {
                match state.find_route(&dst_id) {
                    Some(ri) => {
                        proof {
                            assert(first_route_match(state.ps.routes@, dst_id@, ri as int));
                        }
                        let rlink = state.ps.routes[ri].link;
                        if state.get_link(rlink).is_some() {
                            state.mq.send_packet(
                                rlink,
                                CtlPacket::PCourier(
                                    CourierPacket::TraceRoute { dst_id, sender_id, path },
                                ),
                                NylonEvent::NoEvent,
                            );
                            proof {
                                assert(first_route_match(
                                    old(state).ps.routes@,
                                    dst_id@,
                                    ri as int,
                                ) && entity_views(p2w@) == entity_views(path0).push(
                                    old(state).ps.address@,
                                ) && state.mq.events@.len() == old(state).mq.events@.len() + 1
                                    && state.mq.events@.subrange(
                                    0,
                                    old(state).mq.events@.len() as int,
                                ) == old(state).mq.events@ && is_courier_forward_event(
                                    state.mq.events@.last(),
                                    old(state).ps.routes@[ri as int].link,
                                    CourierPacket::TraceRoute { dst_id, sender_id, path: p2w },
                                ));
                            }
                        } else {
                            proof {
                                lemma_no_other_first_route(
                                    state.ps.routes@,
                                    state.os.links@,
                                    dst_id@,
                                    ri as int,
                                );
                            }
                        }
                    },
                    None => {
                        proof {
                            if exists|w: int|
                                #![auto]
                                first_route_match(state.ps.routes@, dst_id@, w)
                                    && crate::state::spec_has_link(
                                    state.os.links@,
                                    state.ps.routes@[w].link,
                                ) {
                                let w = choose|w: int|
                                    #![auto]
                                    first_route_match(state.ps.routes@, dst_id@, w)
                                        && crate::state::spec_has_link(
                                        state.os.links@,
                                        state.ps.routes@[w].link,
                                    );
                                assert(state.ps.routes@[w].dst@ == dst_id@);
                                assert(false);
                            }
                        }
                    },
                }
            }
        },
    }
}

/// What handling one internal courier event leaves behind.
pub open spec fn courier_event_post(pre: NylonState, post: NylonState, event: CourierEvent) -> bool {
    match event {
        CourierEvent::RoutePacket { to, from, packet } => route_packet_post(
            pre,
            post,
            packet,
            to,
            from,
        ),
    }
}

/// Handle an internal courier event: route the carried packet.
pub fn handle_courier_event(state: &mut NylonState, event: CourierEvent)
    requires
        old(state).wf(),
    ensures
        final(state).wf(),
        courier_event_post(*old(state), *final(state), event),
{
    match event {
        CourierEvent::RoutePacket { to, from, packet } => {
            route_packet(state, packet, to, from);
        },
    }
}

/// What recording an application ping leaves behind: a pending entry for
/// `dst` stamped `now_ms`, everything else untouched.
pub open spec fn record_app_ping_post(
    pre: NylonState,
    post: NylonState,
    dst: Seq<u8>,
    now_ms: i64,
) -> bool {
    &&& post.os.pings@.len() >= 1
    &&& exists|i: int|
        0 <= i < post.os.pings@.len() && (#[trigger] post.os.pings@[i]).0@ == dst
            && post.os.pings@[i].1 == now_ms
    &&& post.os.links@ == pre.os.links@
    &&& post.os.health@ == pre.os.health@
    &&& post.os.node_config == pre.os.node_config
    &&& post.os.central_config == pre.os.central_config
    &&& post.ps == pre.ps
    &&& post.mq == pre.mq
}

/// Record an application-level ping sent to `dst` at `now_ms`, replacing
/// a pending entry for the same destination.
pub fn record_app_ping(state: &mut NylonState, dst: Entity, now_ms: i64)
    requires
        old(state).wf(),
    ensures
        final(state).wf(),
        record_app_ping_post(*old(state), *final(state), dst@, now_ms),
{
    let n = state.os.pings.len();
    let mut found: Option<usize> = None;
    let mut i: usize = 0;
    while i < n
        invariant
            n == state.os.pings@.len(),
            0 <= i <= n,
            found matches Some(k) ==> k < n && state.os.pings@[k as int].0@ == dst@,
        decreases n - i,
    {
        if found.is_none() && state.os.pings[i].0.eq_entity(&dst) {
            found = Some(i);
        }
        i += 1;
    }
    match found {
        Some(k) => {
            state.os.pings[k] = (dst, now_ms);
            proof {
                assert(state.os.pings@[k as int].0@ == dst@ && state.os.pings@[k as int].1
                    == now_ms);
            }
        },
        None => {
            state.os.pings.push((dst, now_ms));
            proof {
                assert(state.os.pings@.last().0@ == dst@ && state.os.pings@.last().1 == now_ms);
            }
        },
    }
}

/// Begin an application ping towards `dst`: remember when it left, then
/// route a ping packet towards the destination. The pong, when it comes
/// back, settles the pending entry.
pub fn start_ping(state: &mut NylonState, dst: Entity, now_ms: i64)
    requires
        old(state).wf(),
    ensures
        final(state).wf(),
        exists|mid: NylonState, d: Entity, s: Entity|
            {
                &&& d@ == dst@
                &&& s@ == old(state).ps.address@
                &&& record_app_ping_post(*old(state), mid, dst@, now_ms)
                &&& #[trigger] route_packet_post(mid, *final(state), RoutedPacket::Ping, d, s)
            },
{
    let sender = state.pubkey();
    let d = dst.duplicate();
    record_app_ping(state, dst, now_ms);
    let ghost mid = *state;
    let ghost dw = d;
    let ghost sw = sender;
    route_packet(state, RoutedPacket::Ping, d, sender);
    proof {
        assert(record_app_ping_post(*old(state), mid, dst@, now_ms));
        assert(route_packet_post(mid, *state, RoutedPacket::Ping, dw, sw));
    }
}

/// Begin a trace towards `dst`: the empty path enters this node's own
/// courier, so this node is the first hop recorded, and the packet then
/// follows the route like any other trace.
pub fn start_trace(state: &mut NylonState, dst: Entity)
    requires
        old(state).wf(),
    ensures
        final(state).wf(),
        exists|d: Entity, s: Entity, p: Vec<Entity>|
            {
                &&& d@ == dst@
                &&& s@ == old(state).ps.address@
                &&& p@.len() == 0
                &&& #[trigger] courier_packet_post(
                    *old(state),
                    *final(state),
                    CourierPacket::TraceRoute { dst_id: d, sender_id: s, path: p },
                    0,
                )
            },
{
    let sender = state.pubkey();
    let path: Vec<Entity> = Vec::new();
    let ghost dw = dst;
    let ghost sw = sender;
    let ghost pw = path;
    // the trace starts in our own courier: no link carried it in
    handle_courier_packet(
        state,
        CourierPacket::TraceRoute { dst_id: dst, sender_id: sender, path },
        0,
    );
    proof {
        assert(courier_packet_post(
            *old(state),
            *final(state),
            CourierPacket::TraceRoute { dst_id: dw, sender_id: sw, path: pw },
            0,
        ));
    }
}

/// Route a text message towards `dst`.
pub fn send_message(state: &mut NylonState, dst: Entity, msg: String)
    requires
        old(state).wf(),
    ensures
        final(state).wf(),
        exists|d: Entity, s: Entity, m: String|
            {
                &&& d@ == dst@
                &&& s@ == old(state).ps.address@
                &&& m@ == msg@
                &&& #[trigger] route_packet_post(
                    *old(state),
                    *final(state),
                    RoutedPacket::Message(m),
                    d,
                    s,
                )
            },
{
    let sender = state.pubkey();
    let ghost dw = dst;
    let ghost sw = sender;
    let ghost mw = msg;
    route_packet(state, RoutedPacket::Message(msg), dst, sender);
    proof {
        assert(route_packet_post(
            *old(state),
            *final(state),
            RoutedPacket::Message(mw),
            dw,
            sw,
        ));
    }
}

} // verus!
