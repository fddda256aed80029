use vstd::prelude::*;
use crate::bytes::clone_bytes;
use crate::claim::LinkId;
use crate::network::{CtlPacket, NetworkEvent, OutPacket};
use crate::state::{
    Action, ActiveLink, NylonEvent, NylonState, RouteEntry, route_next_hop_linked, routes_valid,
    spec_has_link,
};

verus! {

/// One outbound packet the routing engine wants shipped: the link to use
/// and the engine packet, opaque to the control plane.
pub struct RoutingOut {
    pub link: LinkId,
    pub payload: Vec<u8>,
}

/// What handling an inbound routing packet leaves behind: when the
/// carrying link is active, the engine is handed the packet together
/// with the neighbour identity the link authenticated; otherwise the
/// packet is refused.
pub open spec fn routing_packet_post(
    pre: NylonState,
    post: NylonState,
    payload: Seq<u8>,
    src: LinkId,
    r: bool,
) -> bool {
    &&& post.os == pre.os
    &&& post.ps == pre.ps
    &&& post.mq.events@ == pre.mq.events@
    &&& post.mq.cancelled == pre.mq.cancelled
    &&& r <==> spec_has_link(pre.os.links@, src)
    &&& if r {
        &&& post.mq.actions@.len() == pre.mq.actions@.len() + 1
        &&& post.mq.actions@.subrange(0, pre.mq.actions@.len() as int) == pre.mq.actions@
        &&& post.mq.actions@.last() matches Action::EngineHandlePacket {
            link,
            neighbour,
            payload: pl,
        } && link == src && pl@ == payload && exists|i: int|
            0 <= i < pre.os.links@.len() && pre.os.links@[i].id == src && neighbour@
                == pre.os.links@[i].dst.pubkey@
    } else {
        post.mq.actions@ == pre.mq.actions@
    }
}

/// Hand an inbound routing packet to the engine, naming the neighbour
/// that the carrying link authenticated. Refused (false) when no active
/// link carries this id.
pub fn handle_routing_packet(state: &mut NylonState, payload: Vec<u8>, src: LinkId) -> (r: bool)
    requires
        old(state).wf(),
    ensures
        final(state).wf(),
        routing_packet_post(*old(state), *final(state), payload@, src, r),
{
    match state.get_link(src) {
        Some(li) => {
            let neighbour = state.os.links[li].dst.pubkey.duplicate();
            state.mq.actions.push(
                Action::EngineHandlePacket { link: src, neighbour, payload },
            );
            proof {
                assert(state.mq.actions@.subrange(0, old(state).mq.actions@.len() as int) =~= old(
                    state,
                ).mq.actions@);
            }
            true
        },
        None => false,
    }
}

/// The periodic routing update only asks the engine for a full update;
/// its outbound packets are shipped by `write_routing_packets` afterwards.
pub fn timed_routing_update(state: &mut NylonState)
    requires
        old(state).wf(),
    ensures
        final(state).wf(),
        final(state).os == old(state).os,
        final(state).ps == old(state).ps,
        final(state).mq.events@ == old(state).mq.events@,
        final(state).mq.cancelled == old(state).mq.cancelled,
        final(state).mq.actions@ == old(state).mq.actions@.push(Action::EngineFullUpdate),
{
    state.mq.actions.push(Action::EngineFullUpdate);
}

/// The engine packets among `out` whose link is still active, in order.
pub open spec fn spec_kept_out(links: Seq<ActiveLink>, out: Seq<RoutingOut>) -> Seq<RoutingOut>
    decreases out.len(),
{
    if out.len() == 0 {
        out
    } else {
        let rest = spec_kept_out(links, out.drop_last());
        if spec_has_link(links, out.last().link) {
            rest.push(out.last())
        } else {
            rest
        }
    }
}

/// The event that ships one engine packet on a link, with `NoEvent` as
/// the failure event.
pub open spec fn is_routing_forward_event(e: NylonEvent, link: LinkId, payload: Seq<u8>) -> bool {
    &&& e matches NylonEvent::Network(NetworkEvent::OutboundPacket(OutPacket {
        link: l,
        packet: CtlPacket::Routing(v),
        failure_event: fe,
    }))
    &&& l == link
    &&& v@ == payload
    &&& fe matches Some(b) && *b == NylonEvent::NoEvent
}

/// Ship the engine's outbound packets: for each packet whose link is
/// still active, in order, queue one control frame with no failure
/// event; packets for dead links are dropped.
pub fn write_routing_packets(state: &mut NylonState, outbound: &Vec<RoutingOut>)
    requires
        old(state).wf(),
    ensures
        final(state).wf(),
        final(state).os == old(state).os,
        final(state).ps == old(state).ps,
        final(state).mq.actions@ == old(state).mq.actions@,
        final(state).mq.cancelled == old(state).mq.cancelled,
        ({
            let kept = spec_kept_out(old(state).os.links@, outbound@);
            &&& final(state).mq.events@.len() == old(state).mq.events@.len() + kept.len()
            &&& final(state).mq.events@.subrange(0, old(state).mq.events@.len() as int) == old(
                state,
            ).mq.events@
            &&& forall|k: int|
                0 <= k < kept.len() ==> is_routing_forward_event(
                    final(state).mq.events@[old(state).mq.events@.len() + k],
                    kept[k].link,
                    kept[k].payload@,
                )
        }),
{
    let n = outbound.len();
    let mut i: usize = 0;
    while i < n
        invariant
            old(state).wf(),
            state.wf(),
            n == outbound@.len(),
            0 <= i <= n,
            state.os == old(state).os,
            state.ps == old(state).ps,
            state.mq.actions@ == old(state).mq.actions@,
            state.mq.cancelled == old(state).mq.cancelled,
            ({
                let kept = spec_kept_out(old(state).os.links@, outbound@.subrange(0, i as int));
                &&& state.mq.events@.len() == old(state).mq.events@.len() + kept.len()
                &&& state.mq.events@.subrange(0, old(state).mq.events@.len() as int) == old(
                    state,
                ).mq.events@
                &&& forall|k: int|
                    0 <= k < kept.len() ==> is_routing_forward_event(
                        state.mq.events@[old(state).mq.events@.len() + k],
                        kept[k].link,
                        kept[k].payload@,
                    )
            }),
        decreases n - i,
    {
        let ghost kept_pre = spec_kept_out(old(state).os.links@, outbound@.subrange(0, i as int));
        let link = outbound[i].link;
        if state.get_link(link).is_some() {
            let payload = clone_bytes(&outbound[i].payload);
            state.mq.send_packet(link, CtlPacket::Routing(payload), NylonEvent::NoEvent);
        }
        proof {
            assert(outbound@.subrange(0, i + 1 as int).drop_last() =~= outbound@.subrange(
                0,
                i as int,
            ));
            assert(outbound@.subrange(0, i + 1 as int).last() == outbound@[i as int]);
            let kept_now = spec_kept_out(old(state).os.links@, outbound@.subrange(0, i + 1 as int));
            if spec_has_link(old(state).os.links@, outbound@[i as int].link) {
                assert(kept_now == kept_pre.push(outbound@[i as int]));
            } else {
                assert(kept_now == kept_pre);
            }
            assert(state.mq.events@.subrange(0, old(state).mq.events@.len() as int) =~= old(
                state,
            ).mq.events@);
        }
        i += 1;
    }
    proof {
        assert(outbound@.subrange(0, n as int) =~= outbound@);
    }
}

/// Field-wise equality of route entries up to views.
pub open spec fn route_eq(a: RouteEntry, b: RouteEntry) -> bool {
    &&& a.dst@ == b.dst@
    &&& a.link == b.link
    &&& a.next_hop@ == b.next_hop@
    &&& a.metric == b.metric
    &&& a.seqno == b.seqno
}

/// The entries of `entries` whose next hop is the destination of an
/// active link, in order.
pub open spec fn spec_kept_routes(links: Seq<ActiveLink>, entries: Seq<RouteEntry>) -> Seq<
    RouteEntry,
>
    decreases entries.len(),
{
    if entries.len() == 0 {
        entries
    } else {
        let rest = spec_kept_routes(links, entries.drop_last());
        if route_next_hop_linked(links, entries.last()) {
            rest.push(entries.last())
        } else {
            rest
        }
    }
}

/// Replace the modelled route table with the engine's routes, keeping
/// exactly the entries whose next hop is the destination of an active
/// link. This is what makes the route-table invariant hold after every
/// engine update.
pub fn sync_routes(state: &mut NylonState, entries: &Vec<RouteEntry>)
    requires
        old(state).wf(),
    ensures
        final(state).wf(),
        final(state).os == old(state).os,
        final(state).ps.address@ == old(state).ps.address@,
        final(state).ps.neighbours@ == old(state).ps.neighbours@,
        final(state).mq == old(state).mq,
        ({
            let kept = spec_kept_routes(old(state).os.links@, entries@);
            &&& final(state).ps.routes@.len() == kept.len()
            &&& forall|k: int|
                0 <= k < kept.len() ==> route_eq(#[trigger] final(state).ps.routes@[k], kept[k])
        }),
{
    let mut routes: Vec<RouteEntry> = Vec::new();
    let n = entries.len();
    let mut i: usize = 0;
    while i < n
        invariant
            old(state).wf(),
            *state == *old(state),
            n == entries@.len(),
            0 <= i <= n,
            ({
                let kept = spec_kept_routes(state.os.links@, entries@.subrange(0, i as int));
                &&& routes@.len() == kept.len()
                &&& forall|k: int|
                    0 <= k < kept.len() ==> route_eq(#[trigger] routes@[k], kept[k])
            }),
            routes_valid(state.os.links@, routes@),
        decreases n - i,
    {
        let ghost kept_pre = spec_kept_routes(state.os.links@, entries@.subrange(0, i as int));
        let mut keep = false;
        match state.get_link(entries[i].link) {
            Some(li) => {
                keep = state.os.links[li].dst.pubkey.eq_entity(&entries[i].next_hop);
                proof {
                    let e = entries@[i as int];
                    if keep {
                        assert(0 <= li < state.os.links@.len() && state.os.links@[li as int].id
                            == e.link && state.os.links@[li as int].dst.pubkey@ == e.next_hop@);
                        assert(route_next_hop_linked(state.os.links@, e));
                    }
                    if !keep && route_next_hop_linked(state.os.links@, e) {
                        let w = choose|w: int|
                            0 <= w < state.os.links@.len() && state.os.links@[w].id == e.link
                                && state.os.links@[w].dst.pubkey@ == e.next_hop@;
                        if w < (li as int) {
                            assert(state.os.links@[w].id != state.os.links@[li as int].id);
                        } else if (li as int) < w {
                            assert(state.os.links@[li as int].id != state.os.links@[w].id);
                        }
                    }
                }
            },
            None => {},
        }
        if keep {
            routes.push(entries[i].duplicate());
            proof {
                assert(route_next_hop_linked(state.os.links@, entries@[i as int]));
                assert(route_next_hop_linked(state.os.links@, routes@.last()));
            }
        }
        proof {
            let kept_now = spec_kept_routes(
                state.os.links@,
                entries@.subrange(0, i + 1 as int),
            );
            assert(entries@.subrange(0, i + 1 as int).drop_last() =~= entries@.subrange(
                0,
                i as int,
            ));
            assert(entries@.subrange(0, i + 1 as int).last() == entries@[i as int]);
            if route_next_hop_linked(state.os.links@, entries@[i as int]) {
                assert(kept_now == kept_pre.push(entries@[i as int]));
                assert(keep);
            } else {
                assert(kept_now == kept_pre);
                assert(!keep);
            }
        }
        i += 1;
    }
    proof {
        assert(entries@.subrange(0, n as int) =~= entries@);
    }
    state.ps.routes = routes;
}

} // verus!
