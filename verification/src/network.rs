use vstd::prelude::*;
use crate::claim::{LinkId, SignedClaim, link_claim_signed_by};
use crate::config::{NodeIdentity, SockAddr, spec_has_node_with_pubkey};
use crate::courier::{CourierEvent, CourierPacket, courier_event_post, courier_packet_post};
use crate::entity::Entity;
use crate::metric::{MetricEvent, MetricPacket, metric_event_post, metric_packet_post};
use crate::state::{Action, NylonEvent, NylonState, spec_has_link};

verus! {

/// The handshake message, used in both directions: the sender's identity
/// key and a signed claim over the link id.
pub struct Connect {
    pub peer_addr: Entity,
    pub link_id: SignedClaim<LinkId>,
}

/// A control-channel packet: a courier packet, or a routing-engine packet
/// that the control plane carries without looking inside.
pub enum CtlPacket {
    PCourier(CourierPacket),
    Routing(Vec<u8>),
}

/// A datagram: only probe packets travel over UDP.
pub enum Datagram {
    PMetric(MetricPacket),
}

/// A control packet queued for a link's writer, with an optional event to
/// post if the write fails.
pub struct OutPacket {
    pub link: LinkId,
    pub packet: CtlPacket,
    pub failure_event: Option<Box<NylonEvent>>,
}

/// One datagram together with its remote address.
pub struct UdpPacket {
    pub addr: SockAddr,
    pub packet: Datagram,
}

/// A control packet that arrived on a link.
pub struct InPacket {
    pub src: LinkId,
    pub packet: CtlPacket,
}

/// Network events the actor dispatches.
pub enum NetworkEvent {
    /// A validated handshake finished: register the link.
    SetupLink { id: LinkId, addr_dg: Option<SockAddr>, dst: NodeIdentity },
    /// One of the link's stream halves died: tear the link down.
    LinkDown(LinkId),
    InboundPacket(InPacket),
    OutboundPacket(OutPacket),
    InboundDatagram(UdpPacket),
    OutboundDatagram(UdpPacket),
    ECourier(CourierEvent),
    EMetric(MetricEvent),
}

/// Why a Connect message was refused.
#[derive(Clone, Copy, PartialEq, Eq, Structural, Debug)]
pub enum ConnectError {
    /// The echoed link id is not the one this dial chose.
    LinkIdMismatch,
    /// The peer is not the node this dial expected.
    UnexpectedPeer,
    /// The peer's identity key is not in the central configuration.
    Untrusted,
    /// The signed claim is expired or not active yet.
    ClaimInactive,
    /// The claim's signature does not verify under the peer's key.
    ClaimInvalid,
    /// An active link already carries this id.
    LinkIdInUse,
}

/// The verdict `validate_connect` owes for every input, as a spec-level
/// case list: the checks run in this order and the first failure wins.
pub open spec fn spec_connect_verdict(
    links: Seq<crate::state::ActiveLink>,
    nodes: Seq<crate::config::NodeInfo>,
    expected_node: Option<Seq<u8>>,
    valid_link: Option<LinkId>,
    pkt: Connect,
    now_ms: i64,
) -> Result<(), ConnectError> {
    let c = pkt.link_id.claim;
    if valid_link matches Some(l) && l != c.data {
        Err(ConnectError::LinkIdMismatch)
    } else if expected_node matches Some(n) && n != pkt.peer_addr@ {
        Err(ConnectError::UnexpectedPeer)
    } else if !spec_has_node_with_pubkey(nodes, pkt.peer_addr@) {
        Err(ConnectError::Untrusted)
    } else if !c.active_at(now_ms) {
        Err(ConnectError::ClaimInactive)
    } else if !link_claim_signed_by(c, pkt.link_id.signature@, pkt.peer_addr@) {
        Err(ConnectError::ClaimInvalid)
    } else if spec_has_link(links, c.data) {
        Err(ConnectError::LinkIdInUse)
    } else {
        Ok(())
    }
}

/// Validate a handshake message against the node's state: the echoed
/// link id must be the one this dial chose (when dialing), the peer must
/// be the expected node (when dialing), its key must be trusted by the
/// central configuration, the signed claim must be active and verify
/// under that key, and the link id must be free. On success the peer's
/// identity from the central configuration is returned.
pub fn validate_connect(
    state: &NylonState,
    expected_node: Option<&Entity>,
    valid_link: Option<LinkId>,
    pkt: &Connect,
    now_ms: i64,
) -> (r: Result<NodeIdentity, ConnectError>)
    requires
        pkt.link_id.claim.wf_window(),
    ensures
        r is Err <==> spec_connect_verdict(
            state.os.links@,
            state.os.central_config.nodes@,
            match expected_node {
                Some(e) => Some(e@),
                None => None,
            },
            valid_link,
            *pkt,
            now_ms,
        ) is Err,
        r is Err ==> r->Err_0 == spec_connect_verdict(
            state.os.links@,
            state.os.central_config.nodes@,
            match expected_node {
                Some(e) => Some(e@),
                None => None,
            },
            valid_link,
            *pkt,
            now_ms,
        )->Err_0,
        r is Ok ==> exists|i: int|
            0 <= i < state.os.central_config.nodes@.len()
                && state.os.central_config.nodes@[i].identity.pubkey@ == pkt.peer_addr@
                && r->Ok_0.id@ == state.os.central_config.nodes@[i].identity.id@
                && r->Ok_0.dp_pubkey@ == state.os.central_config.nodes@[i].identity.dp_pubkey@,
        r is Ok ==> r->Ok_0.pubkey@ == pkt.peer_addr@,
{
    match valid_link {
        Some(l) => {
            if l != pkt.link_id.claim.data {
                return Err(ConnectError::LinkIdMismatch);
            }
        },
        None => {},
    }
    match expected_node {
        Some(n) => {
            if !n.eq_entity(&pkt.peer_addr) {
                return Err(ConnectError::UnexpectedPeer);
            }
        },
        None => {},
    }
    let ni = match state.os.central_config.find_node_by_pubkey(&pkt.peer_addr) {
        Some(i) => i,
        None => {
            return Err(ConnectError::Untrusted);
        },
    };
    match pkt.link_id.validate(&pkt.peer_addr, now_ms) {
        Ok(()) => {},
        Err(crate::claim::ValidationError::Inactive) => {
            return Err(ConnectError::ClaimInactive);
        },
        Err(crate::claim::ValidationError::InvalidSignature) => {
            return Err(ConnectError::ClaimInvalid);
        },
    }
    if state.get_link(pkt.link_id.claim.data).is_some() {
        return Err(ConnectError::LinkIdInUse);
    }
    let identity = state.os.central_config.nodes[ni].identity.duplicate();
    proof {
        assert(identity.pubkey@ == pkt.peer_addr@);
    }
    Ok(identity)
}

/// What dispatching one network event leaves behind.
pub open spec fn network_event_post(
    pre: NylonState,
    post: NylonState,
    event: NetworkEvent,
    now_ms: i64,
) -> bool {
    match event {
        NetworkEvent::SetupLink { id, addr_dg, dst } => crate::state::register_link_post(
            pre,
            post,
            id,
            addr_dg,
            dst,
        ),
        NetworkEvent::LinkDown(id) => crate::state::remove_link_post(pre, post, id),
        NetworkEvent::InboundPacket(p) => {
            match p.packet {
                CtlPacket::PCourier(cp) => courier_packet_post(pre, post, cp, p.src),
                CtlPacket::Routing(v) => exists|r: bool|
                    crate::routing::routing_packet_post(pre, post, v@, p.src, r),
            }
        },
        NetworkEvent::OutboundPacket(p) => {
            &&& post.os == pre.os
            &&& post.ps == pre.ps
            &&& post.mq.cancelled == pre.mq.cancelled
            &&& if spec_has_link(pre.os.links@, p.link) {
                // handed to the writer task of that link
                &&& post.mq.events@ == pre.mq.events@
                &&& post.mq.actions@.len() == pre.mq.actions@.len() + 1
                &&& post.mq.actions@.subrange(0, pre.mq.actions@.len() as int)
                    == pre.mq.actions@
                &&& post.mq.actions@.last() matches Action::TransmitFrame {
                    link,
                    packet,
                    failure_event,
                } && link == p.link && packet == p.packet && failure_event == p.failure_event
            } else {
                // no such link: the packet is dropped and the failure
                // event, when present, fires
                &&& post.mq.actions@ == pre.mq.actions@
                &&& match p.failure_event {
                    Some(b) => post.mq.events@ == pre.mq.events@.push(*b),
                    None => post.mq.events@ == pre.mq.events@,
                }
            }
        },
        NetworkEvent::InboundDatagram(p) => {
            match p.packet {
                Datagram::PMetric(mp) => metric_packet_post(pre, post, mp, p.addr, now_ms),
            }
        },
        NetworkEvent::OutboundDatagram(p) => {
            &&& post.os == pre.os
            &&& post.ps == pre.ps
            &&& post.mq.events@ == pre.mq.events@
            &&& post.mq.cancelled == pre.mq.cancelled
            &&& post.mq.actions@.len() == pre.mq.actions@.len() + 1
            &&& post.mq.actions@.subrange(0, pre.mq.actions@.len() as int) == pre.mq.actions@
            &&& post.mq.actions@.last() matches Action::TransmitDatagram { addr, packet }
                && addr == p.addr && packet == p.packet
        },
        NetworkEvent::ECourier(ce) => courier_event_post(pre, post, ce),
        NetworkEvent::EMetric(me) => metric_event_post(pre, post, me, now_ms),
    }
}

/// Dispatch one network event: register validated links, hand inbound
/// packets to the courier or the routing adapter, hand outbound packets
/// to the writers, and route datagrams to the prober.
pub fn network_controller(state: &mut NylonState, event: NetworkEvent, now_ms: i64)
    requires
        old(state).wf(),
    ensures
        final(state).wf(),
        network_event_post(*old(state), *final(state), event, now_ms),
{
    match event {
        NetworkEvent::SetupLink { id, addr_dg, dst } => {
            state.register_link(id, addr_dg, dst);
        },
        NetworkEvent::LinkDown(id) => {
            state.remove_link(id);
        },
        NetworkEvent::InboundPacket(p) => {
            handle_packet(state, p);
        },
        NetworkEvent::OutboundPacket(p) => {
            if state.get_link(p.link).is_some() {
                state.mq.actions.push(
                    Action::TransmitFrame {
                        link: p.link,
                        packet: p.packet,
                        failure_event: p.failure_event,
                    },
                );
                proof {
                    assert(state.mq.actions@.subrange(0, old(state).mq.actions@.len() as int)
                        =~= old(state).mq.actions@);
                }
            } else {
                match p.failure_event {
                    Some(b) => {
                        state.mq.send(*b);
                    },
                    None => {},
                }
            }
        },
        NetworkEvent::InboundDatagram(p) => {
            match p.packet {
                Datagram::PMetric(mp) => {
                    crate::metric::handle_metric_packet(state, mp, p.addr, now_ms);
                },
            }
        },
        NetworkEvent::OutboundDatagram(p) => {
            state.mq.actions.push(
                Action::TransmitDatagram { addr: p.addr, packet: p.packet },
            );
            proof {
                assert(state.mq.actions@.subrange(0, old(state).mq.actions@.len() as int) =~= old(
                    state,
                ).mq.actions@);
            }
        },
        NetworkEvent::ECourier(ce) => {
            crate::courier::handle_courier_event(state, ce);
        },
        NetworkEvent::EMetric(me) => {
            crate::metric::handle_metric_event(state, me, now_ms);
        },
    }
}

/// Route an inbound control packet to the courier or the routing adapter.
pub fn handle_packet(state: &mut NylonState, pkt: InPacket)
    requires
        old(state).wf(),
    ensures
        final(state).wf(),
        match pkt.packet {
            CtlPacket::PCourier(cp) => courier_packet_post(*old(state), *final(state), cp, pkt.src),
            CtlPacket::Routing(v) => exists|r: bool|
                crate::routing::routing_packet_post(*old(state), *final(state), v@, pkt.src, r),
        },
{
    match pkt.packet {
        CtlPacket::PCourier(cp) => {
            crate::courier::handle_courier_packet(state, cp, pkt.src);
        },
        CtlPacket::Routing(v) => {
            let ghost v0 = v@;
            let r = crate::routing::handle_routing_packet(state, v, pkt.src);
            proof {
                assert(crate::routing::routing_packet_post(
                    *old(state),
                    *state,
                    v0,
                    pkt.src,
                    r,
                ));
            }
        },
    }
}

/// What one actor iteration leaves behind, by event kind. Operator
/// commands are reserved and do nothing; `Shutdown` raises the
/// cancellation flag, after which the actor loop exits and the embedding
/// persists the routing state and tears the tunnel down.
pub open spec fn main_iter_post(
    pre: NylonState,
    post: NylonState,
    event: NylonEvent,
    now_ms: i64,
) -> bool {
    match event {
        NylonEvent::DispatchCommand(_) => post == pre,
        NylonEvent::Network(ne) => network_event_post(pre, post, ne, now_ms),
        NylonEvent::Timer(te) => crate::timing::timed_event_post(pre, post, te),
        NylonEvent::Shutdown => {
            &&& post.os == pre.os
            &&& post.ps == pre.ps
            &&& post.mq.events@ == pre.mq.events@
            &&& post.mq.actions@ == pre.mq.actions@
            &&& post.mq.cancelled
        },
        NylonEvent::NoEvent => post == pre,
    }
}

/// One iteration of the actor: dispatch a single event.
pub fn main_iter(state: &mut NylonState, event: NylonEvent, now_ms: i64)
    requires
        old(state).wf(),
    ensures
        final(state).wf(),
        main_iter_post(*old(state), *final(state), event, now_ms),
{
    match event {
        NylonEvent::DispatchCommand(_) => {},
        NylonEvent::Network(ne) => {
            network_controller(state, ne, now_ms);
        },
        NylonEvent::Timer(te) => {
            crate::timing::handle_timed_event(state, te);
        },
        NylonEvent::Shutdown => {
            state.mq.cancelled = true;
        },
        NylonEvent::NoEvent => {},
    }
}

} // verus!
