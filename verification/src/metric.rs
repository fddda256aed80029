use vstd::prelude::*;
use crate::claim::LinkId;
use crate::config::SockAddr;
use crate::network::{Datagram, NetworkEvent, UdpPacket};
use crate::state::{
    Action, LinkHealth, NeighbourEntry, NylonEvent, NylonState, PING_INF_MS, spec_has_link,
};

verus! {

/// Sentinel metric of the routing engine for an unreachable link.
pub const INF: u16 = 65535;

/// Probe datagrams: a ping names the link it measures and whether it is a
/// reverse probe; a pong echoes the link id.
pub enum MetricPacket {
    Ping(LinkId, bool),
    Pong(LinkId),
}

/// Probe bookkeeping events: start a measurement on a link, or check
/// whether the pong for sequence number `seq` arrived in time.
pub enum MetricEvent {
    PingLink(LinkId),
    PingCheck { link: LinkId, seq: u64 },
}

/// A half round trip in milliseconds as a routing metric: clamped to the
/// engine's 16-bit range, never zero, `INF` exactly when the measurement
/// does not fit or the link is unreachable.
pub open spec fn spec_metric_of(ms: u64) -> u16 {
    if ms >= 65535 {
        65535u16
    } else if ms == 0 {
        1u16
    } else {
        ms as u16
    }
}

pub fn metric_of_ping_ms(ms: u64) -> (m: u16)
    ensures
        m == spec_metric_of(ms),
        m == INF <==> ms >= 65535,
{
    if ms >= 65535 {
        65535u16
    } else if ms == 0 {
        1u16
    } else {
        ms as u16
    }
}

/// The ping datagram event for `link` sent to `addr`.
pub open spec fn ping_event(addr: SockAddr, link: LinkId, is_return: bool) -> NylonEvent {
    NylonEvent::Network(
        NetworkEvent::OutboundDatagram(
            UdpPacket { addr, packet: Datagram::PMetric(MetricPacket::Ping(link, is_return)) },
        ),
    )
}

/// The pong datagram event for `link` sent to `addr`.
pub open spec fn pong_event(addr: SockAddr, link: LinkId) -> NylonEvent {
    NylonEvent::Network(
        NetworkEvent::OutboundDatagram(
            UdpPacket { addr, packet: Datagram::PMetric(MetricPacket::Pong(link)) },
        ),
    )
}

/// `i` is the first health entry for `link`.
pub open spec fn first_health_match(h: Seq<(LinkId, LinkHealth)>, link: LinkId, i: int) -> bool {
    &&& 0 <= i < h.len()
    &&& h[i].0 == link
    &&& forall|j: int| 0 <= j < i ==> (#[trigger] h[j]).0 != link
}

/// How the health table changes when a probe starts on `link` at
/// `now_ms`: the entry's start time is stamped, or a fresh unreachable
/// entry is created.
pub open spec fn health_after_ping_start(
    pre: Seq<(LinkId, LinkHealth)>,
    post: Seq<(LinkId, LinkHealth)>,
    link: LinkId,
    now_ms: i64,
) -> bool {
    if exists|i: int| 0 <= i < pre.len() && pre[i].0 == link {
        exists|i: int|
            #[trigger] first_health_match(pre, link, i) && post == pre.update(
                i,
                (
                    link,
                    LinkHealth {
                        last_ping: pre[i].1.last_ping,
                        ping: pre[i].1.ping,
                        ping_start: now_ms,
                        ping_seq: pre[i].1.ping_seq,
                    },
                ),
            )
    } else {
        post == pre.push(
            (
                link,
                LinkHealth { last_ping: now_ms, ping: PING_INF_MS, ping_start: now_ms, ping_seq: 0 },
            ),
        )
    }
}

/// How the neighbour table and action list change when the metric of
/// `link` is set from a measured half round trip of `ms` milliseconds:
/// when the link has a neighbour entry its metric becomes the clamp of
/// `ms` and the engine is told; otherwise nothing happens.
pub open spec fn neighbour_metric_set(
    pre_n: Seq<NeighbourEntry>,
    post_n: Seq<NeighbourEntry>,
    pre_a: Seq<Action>,
    post_a: Seq<Action>,
    link: LinkId,
    ms: u64,
) -> bool {
    if exists|i: int| 0 <= i < pre_n.len() && pre_n[i].link == link {
        &&& post_n.len() == pre_n.len()
        &&& exists|i: int|
            0 <= i < pre_n.len() && pre_n[i].link == link && post_n[i].link == link
                && post_n[i].addr@ == pre_n[i].addr@ && post_n[i].metric == spec_metric_of(ms)
                && (forall|j: int| 0 <= j < pre_n.len() && j != i ==> post_n[j] == pre_n[j])
        &&& post_a == pre_a.push(Action::EngineSetMetric { link, metric: spec_metric_of(ms) })
    } else {
        &&& post_n == pre_n
        &&& post_a == pre_a
    }
}

/// What updating a link's health leaves behind.
pub open spec fn update_link_health_post(
    pre: NylonState,
    post: NylonState,
    link: LinkId,
    new_ping_ms: u64,
) -> bool {
    &&& post.os == pre.os
    &&& post.ps.routes@ == pre.ps.routes@
    &&& post.ps.address@ == pre.ps.address@
    &&& post.mq.events@ == pre.mq.events@
    &&& post.mq.cancelled == pre.mq.cancelled
    &&& neighbour_metric_set(
        pre.ps.neighbours@,
        post.ps.neighbours@,
        pre.mq.actions@,
        post.mq.actions@,
        link,
        new_ping_ms,
    )
}

/// Push a measured half round trip into the modelled neighbour table and
/// tell the routing engine. `PING_INF_MS` (or anything at least 65535 ms)
/// maps to the engine's `INF`.
pub fn update_link_health(state: &mut NylonState, link: LinkId, new_ping_ms: u64)
    requires
        old(state).wf(),
    ensures
        final(state).wf(),
        update_link_health_post(*old(state), *final(state), link, new_ping_ms),
{
    match state.find_neighbour(link) {
        Some(i) => {
            let metric = metric_of_ping_ms(new_ping_ms);
            let addr = state.ps.neighbours[i].addr.duplicate();
            let entry = NeighbourEntry { link, addr, metric };
            state.ps.neighbours[i] = entry;
            state.mq.actions.push(Action::EngineSetMetric { link, metric });
        },
        None => {},
    }
}

/// What starting a probe on a link leaves behind: the health entry is
/// stamped (or created) and one ping datagram for `addr` is queued.
pub open spec fn ping_link_post(
    pre: NylonState,
    post: NylonState,
    addr: SockAddr,
    link: LinkId,
    is_return: bool,
    now_ms: i64,
) -> bool {
    &&& post.os.links@ == pre.os.links@
    &&& post.os.pings@ == pre.os.pings@
    &&& post.os.node_config == pre.os.node_config
    &&& post.os.central_config == pre.os.central_config
    &&& post.ps == pre.ps
    &&& post.mq.actions@ == pre.mq.actions@
    &&& post.mq.cancelled == pre.mq.cancelled
    &&& post.mq.events@ == pre.mq.events@.push(ping_event(addr, link, is_return))
    &&& health_after_ping_start(pre.os.health@, post.os.health@, link, now_ms)
}

/// Begin one probe: stamp the start time in the link's health entry and
/// queue a ping datagram at the peer's probe address.
pub fn ping_link(state: &mut NylonState, addr: SockAddr, link: LinkId, is_return: bool, now_ms: i64)
    requires
        old(state).wf(),
    ensures
        final(state).wf(),
        ping_link_post(*old(state), *final(state), addr, link, is_return, now_ms),
{
    match state.find_health(link) {
        Some(i) => {
            proof {
                assert(first_health_match(state.os.health@, link, i as int));
            }
            let e = state.os.health[i].1;
            state.os.health[i] = (
                link,
                LinkHealth {
                    last_ping: e.last_ping,
                    ping: e.ping,
                    ping_start: now_ms,
                    ping_seq: e.ping_seq,
                },
            );
        },
        None => {
            state.os.health.push(
                (
                    link,
                    LinkHealth {
                        last_ping: now_ms,
                        ping: PING_INF_MS,
                        ping_start: now_ms,
                        ping_seq: 0,
                    },
                ),
            );
        },
    }
    state.mq.send_probe_packet(addr, Datagram::PMetric(MetricPacket::Ping(link, is_return)));
}

/// The measured half round trip when a pong arrives at `now_ms` for a
/// probe that started at `start`; clock weirdness saturates to zero.
pub open spec fn spec_half_rtt(start: i64, now_ms: i64) -> u64 {
    if now_ms >= start {
        ((now_ms - start) as u64) / 2
    } else {
        0u64
    }
}

pub open spec fn spec_seq_next(seq: u64) -> u64 {
    if seq < 0xffff_ffff_ffff_ffff {
        (seq + 1) as u64
    } else {
        0u64
    }
}

/// What one inbound probe datagram from `src` leaves behind.
pub open spec fn metric_packet_post(
    pre: NylonState,
    post: NylonState,
    pkt: MetricPacket,
    src: SockAddr,
    now_ms: i64,
) -> bool {
    match pkt {
        MetricPacket::Ping(id, ret_ping) => {
            if spec_has_link(pre.os.links@, id) {
                &&& post.os.links@ == pre.os.links@
                &&& post.os.pings@ == pre.os.pings@
                &&& post.ps == pre.ps
                &&& post.mq.actions@ == pre.mq.actions@
                &&& post.mq.cancelled == pre.mq.cancelled
                &&& if ret_ping {
                    &&& post.os.health@ == pre.os.health@
                    &&& post.mq.events@ == pre.mq.events@.push(pong_event(src, id))
                } else {
                    // answer, then probe back so the peer learns our address
                    &&& post.mq.events@ == pre.mq.events@.push(pong_event(src, id)).push(
                        ping_event(src, id, true),
                    )
                    &&& health_after_ping_start(pre.os.health@, post.os.health@, id, now_ms)
                }
            } else {
                post == pre
            }
        },
        MetricPacket::Pong(id) => {
            if has_health_entry(pre.os.health@, id) {
                &&& post.os.links@ == pre.os.links@
                &&& post.os.pings@ == pre.os.pings@
                &&& post.ps.routes@ == pre.ps.routes@
                &&& post.ps.address@ == pre.ps.address@
                &&& post.mq.events@ == pre.mq.events@
                &&& post.mq.cancelled == pre.mq.cancelled
                &&& exists|i: int|
                    #[trigger] first_health_match(pre.os.health@, id, i) && post.os.health@
                        == pre.os.health@.update(
                        i,
                        (
                            id,
                            LinkHealth {
                                last_ping: now_ms,
                                ping: spec_half_rtt(pre.os.health@[i].1.ping_start, now_ms),
                                ping_start: pre.os.health@[i].1.ping_start,
                                ping_seq: spec_seq_next(pre.os.health@[i].1.ping_seq),
                            },
                        ),
                    ) && neighbour_metric_set(
                        pre.ps.neighbours@,
                        post.ps.neighbours@,
                        pre.mq.actions@,
                        post.mq.actions@,
                        id,
                        spec_half_rtt(pre.os.health@[i].1.ping_start, now_ms),
                    )
            } else {
                post == pre
            }
        },
    }
}

/// Handle one probe datagram from the UDP socket: answer pings on known
/// links (teaching the peer our probe address with a reverse ping), and
/// fold pongs into the link's health and metric.
pub fn handle_metric_packet(state: &mut NylonState, pkt: MetricPacket, src: SockAddr, now_ms: i64)
    requires
        old(state).wf(),
    ensures
        final(state).wf(),
        metric_packet_post(*old(state), *final(state), pkt, src, now_ms),
{
    match pkt {
        MetricPacket::Ping(id, ret_ping) => {
            if state.get_link(id).is_some() {
                state.mq.send_probe_packet(src, Datagram::PMetric(MetricPacket::Pong(id)));
                if !ret_ping {
                    ping_link(state, src, id, true, now_ms);
                }
            }
        },
        MetricPacket::Pong(id) => {
            match state.find_health(id) {
                Some(i) => {
                    proof {
                        assert(first_health_match(state.os.health@, id, i as int));
                    }
                    let e = state.os.health[i].1;
                    let half: u64 = if now_ms >= e.ping_start {
                        let diff: u64 = #[verifier::truncate]
                        (((now_ms as i128) - (e.ping_start as i128)) as u64);
                        diff / 2
                    } else {
                        0u64
                    };
                    proof {
                        assert(half == spec_half_rtt(e.ping_start, now_ms));
                    }
                    let seq_next: u64 = if e.ping_seq < 0xffff_ffff_ffff_ffff {
                        e.ping_seq + 1
                    } else {
                        0u64
                    };
                    state.os.health[i] = (
                        id,
                        LinkHealth {
                            last_ping: now_ms,
                            ping: half,
                            ping_start: e.ping_start,
                            ping_seq: seq_next,
                        },
                    );
                    update_link_health(state, id, half);
                },
                None => {},
            }
        },
    }
}

/// The action that schedules a ping-timeout check for `link` with
/// sequence number `seq`, five seconds out.
pub open spec fn sched_check_action(a: Action, link: LinkId, seq: u64) -> bool {
    a matches Action::ScheduleEvent { delay_ms, event } && delay_ms == 5000 && *event
        == NylonEvent::Network(NetworkEvent::EMetric(MetricEvent::PingCheck { link, seq }))
}

/// Witness form of the probe-start transition: the link at index `li`
/// has a known probe address, the probe went out to it, and its timeout
/// check was scheduled with the entry's current sequence number.
pub open spec fn ping_sched_witness(
    pre: NylonState,
    post: NylonState,
    link: LinkId,
    li: int,
    now_ms: i64,
) -> bool {
    &&& 0 <= li < pre.os.links@.len()
    &&& pre.os.links@[li].id == link
    &&& pre.os.links@[li].addr_dg is Some
    &&& post.os.links@ == pre.os.links@
    &&& post.os.pings@ == pre.os.pings@
    &&& post.ps == pre.ps
    &&& post.mq.cancelled == pre.mq.cancelled
    &&& post.mq.events@ == pre.mq.events@.push(
        ping_event(pre.os.links@[li].addr_dg->Some_0, link, false),
    )
    &&& health_after_ping_start(pre.os.health@, post.os.health@, link, now_ms)
    &&& post.mq.actions@.len() == pre.mq.actions@.len() + 1
    &&& post.mq.actions@.subrange(0, pre.mq.actions@.len() as int) == pre.mq.actions@
    &&& exists|hi: int|
        0 <= hi < post.os.health@.len() && (#[trigger] post.os.health@[hi]).0 == link
            && sched_check_action(post.mq.actions@.last(), link, post.os.health@[hi].1.ping_seq)
}

/// Some health entry exists for this link.
pub open spec fn has_health_entry(h: Seq<(LinkId, LinkHealth)>, link: LinkId) -> bool {
    exists|i: int| 0 <= i < h.len() && (#[trigger] h[i]).0 == link
}

/// The link is active and its first health entry still carries sequence
/// number `seq`: no pong arrived since that probe went out.
pub open spec fn stale_probe(pre: NylonState, link: LinkId, seq: u64) -> bool {
    &&& spec_has_link(pre.os.links@, link)
    &&& exists|i: int|
        #[trigger] first_health_match(pre.os.health@, link, i) && pre.os.health@[i].1.ping_seq
            == seq
}

/// What one probe bookkeeping event leaves behind.
pub open spec fn metric_event_post(
    pre: NylonState,
    post: NylonState,
    event: MetricEvent,
    now_ms: i64,
) -> bool {
    match event {
        MetricEvent::PingLink(link) => {
            if exists|i: int|
                0 <= i < pre.os.links@.len() && pre.os.links@[i].id == link
                    && pre.os.links@[i].addr_dg is Some {
                exists|li: int| ping_sched_witness(pre, post, link, li, now_ms)
            } else {
                post == pre
            }
        },
        MetricEvent::PingCheck { link, seq } => {
            if stale_probe(pre, link, seq) {
                &&& post.os.links@ == pre.os.links@
                &&& post.os.pings@ == pre.os.pings@
                &&& post.ps.routes@ == pre.ps.routes@
                &&& post.ps.address@ == pre.ps.address@
                &&& post.mq.events@ == pre.mq.events@
                &&& post.mq.cancelled == pre.mq.cancelled
                &&& exists|i: int|
                    #[trigger] first_health_match(pre.os.health@, link, i)
                        && pre.os.health@[i].1.ping_seq == seq && post.os.health@
                        == pre.os.health@.update(
                        i,
                        (
                            link,
                            LinkHealth {
                                last_ping: pre.os.health@[i].1.last_ping,
                                ping: PING_INF_MS,
                                ping_start: pre.os.health@[i].1.ping_start,
                                ping_seq: pre.os.health@[i].1.ping_seq,
                            },
                        ),
                    )
                &&& neighbour_metric_set(
                    pre.ps.neighbours@,
                    post.ps.neighbours@,
                    pre.mq.actions@,
                    post.mq.actions@,
                    link,
                    PING_INF_MS,
                )
            } else {
                post == pre
            }
        },
    }
}

/// A link goes unreachable on a missed probe: when the timeout check for
/// `link` fires and no pong advanced its sequence number since the probe
/// was sent, the link's measured ping becomes the unreachable sentinel
/// and its routing metric becomes `INF`.
pub proof fn lemma_ping_timeout_gives_inf(
    pre: NylonState,
    post: NylonState,
    link: LinkId,
    seq: u64,
    now_ms: i64,
    hi: int,
    ni: int,
)
    requires
        metric_event_post(pre, post, MetricEvent::PingCheck { link, seq }, now_ms),
        spec_has_link(pre.os.links@, link),
        first_health_match(pre.os.health@, link, hi),
        pre.os.health@[hi].1.ping_seq == seq,
        0 <= ni < pre.ps.neighbours@.len(),
        pre.ps.neighbours@[ni].link == link,
    ensures
        post.os.health@[hi].1.ping == PING_INF_MS,
        exists|j: int|
            0 <= j < post.ps.neighbours@.len() && post.ps.neighbours@[j].link == link
                && post.ps.neighbours@[j].metric == INF,
{
    assert(stale_probe(pre, link, seq));
    let w = choose|w: int|
        #[trigger] first_health_match(pre.os.health@, link, w) && pre.os.health@[w].1.ping_seq
            == seq && post.os.health@ == pre.os.health@.update(
            w,
            (
                link,
                LinkHealth {
                    last_ping: pre.os.health@[w].1.last_ping,
                    ping: PING_INF_MS,
                    ping_start: pre.os.health@[w].1.ping_start,
                    ping_seq: pre.os.health@[w].1.ping_seq,
                },
            ),
        );
    if w < hi {
        assert(pre.os.health@[w].0 != link);
    } else if hi < w {
        assert(pre.os.health@[hi].0 != link);
    }
    assert(w == hi);
    let j = choose|j: int|
        0 <= j < pre.ps.neighbours@.len() && pre.ps.neighbours@[j].link == link
            && post.ps.neighbours@[j].link == link && post.ps.neighbours@[j].addr@
            == pre.ps.neighbours@[j].addr@ && post.ps.neighbours@[j].metric == spec_metric_of(
            PING_INF_MS,
        ) && (forall|k: int|
            0 <= k < pre.ps.neighbours@.len() && k != j ==> post.ps.neighbours@[k]
                == pre.ps.neighbours@[k]);
    assert(post.ps.neighbours@[j].metric == INF);
}

/// A pong restores a finite metric: when a pong lands on a link whose
/// probe is pending and the measured half round trip fits the metric
/// range, the link's metric is the measurement (at least one), not
/// `INF`.
pub proof fn lemma_pong_gives_finite_metric(
    pre: NylonState,
    post: NylonState,
    id: LinkId,
    src: SockAddr,
    now_ms: i64,
    hi: int,
    ni: int,
)
    requires
        metric_packet_post(pre, post, MetricPacket::Pong(id), src, now_ms),
        first_health_match(pre.os.health@, id, hi),
        0 <= ni < pre.ps.neighbours@.len(),
        pre.ps.neighbours@[ni].link == id,
        spec_half_rtt(pre.os.health@[hi].1.ping_start, now_ms) < 65535,
    ensures
        post.os.health@[hi].1.ping == spec_half_rtt(pre.os.health@[hi].1.ping_start, now_ms),
        exists|j: int|
            0 <= j < post.ps.neighbours@.len() && post.ps.neighbours@[j].link == id
                && post.ps.neighbours@[j].metric != INF,
{
    assert(pre.os.health@[hi].0 == id);
    assert(has_health_entry(pre.os.health@, id));
    let half = spec_half_rtt(pre.os.health@[hi].1.ping_start, now_ms);
    let w = choose|w: int|
        #[trigger] first_health_match(pre.os.health@, id, w) && post.os.health@
            == pre.os.health@.update(
            w,
            (
                id,
                LinkHealth {
                    last_ping: now_ms,
                    ping: spec_half_rtt(pre.os.health@[w].1.ping_start, now_ms),
                    ping_start: pre.os.health@[w].1.ping_start,
                    ping_seq: spec_seq_next(pre.os.health@[w].1.ping_seq),
                },
            ),
        ) && neighbour_metric_set(
            pre.ps.neighbours@,
            post.ps.neighbours@,
            pre.mq.actions@,
            post.mq.actions@,
            id,
            spec_half_rtt(pre.os.health@[w].1.ping_start, now_ms),
        );
    if w < hi {
        assert(pre.os.health@[w].0 != id);
    } else if hi < w {
        assert(pre.os.health@[hi].0 != id);
    }
    assert(w == hi);
    let j = choose|j: int|
        0 <= j < pre.ps.neighbours@.len() && pre.ps.neighbours@[j].link == id
            && post.ps.neighbours@[j].link == id && post.ps.neighbours@[j].addr@
            == pre.ps.neighbours@[j].addr@ && post.ps.neighbours@[j].metric == spec_metric_of(half)
            && (forall|k: int|
            0 <= k < pre.ps.neighbours@.len() && k != j ==> post.ps.neighbours@[k]
                == pre.ps.neighbours@[k]);
    assert(post.ps.neighbours@[j].metric == spec_metric_of(half));
    assert(spec_metric_of(half) != INF);
}

/// Handle probe bookkeeping: start a measurement on a link whose probe
/// address is known and schedule its timeout check; or, when the check
/// fires and no pong advanced the sequence number since the probe was
/// sent, mark the link unreachable.
pub fn handle_metric_event(state: &mut NylonState, event: MetricEvent, now_ms: i64)
    requires
        old(state).wf(),
    ensures
        final(state).wf(),
        metric_event_post(*old(state), *final(state), event, now_ms),
{
    match event {
        MetricEvent::PingLink(link) => {
            match state.get_link(link) {
                Some(li) => {
                    match state.os.links[li].addr_dg {
                        Some(dg) => {
                            let ghost s0 = *state;
                            ping_link(state, dg, link, false, now_ms);
                            proof {
                                if exists|i: int|
                                    0 <= i < s0.os.health@.len() && s0.os.health@[i].0 == link {
                                    let i = choose|i: int|
                                        0 <= i < s0.os.health@.len() && s0.os.health@[i].0
                                            == link && state.os.health@ == s0.os.health@.update(
                                            i,
                                            (
                                                link,
                                                LinkHealth {
                                                    last_ping: s0.os.health@[i].1.last_ping,
                                                    ping: s0.os.health@[i].1.ping,
                                                    ping_start: now_ms,
                                                    ping_seq: s0.os.health@[i].1.ping_seq,
                                                },
                                            ),
                                        );
                                    assert(state.os.health@[i].0 == link);
                                } else {
                                    assert(state.os.health@.last().0 == link);
                                }
                            }
                            let hi = match state.find_health(link) {
                                Some(hi) => hi,
                                None => {
                                    proof {
                                        assert(false);
                                    }
                                    0
                                },
                            };
                            let seq = state.os.health[hi].1.ping_seq;
                            let ghost s1 = *state;
                            state.mq.actions.push(
                                Action::ScheduleEvent {
                                    delay_ms: 5000,
                                    event: Box::new(
                                        NylonEvent::Network(
                                            NetworkEvent::EMetric(
                                                MetricEvent::PingCheck { link, seq },
                                            ),
                                        ),
                                    ),
                                },
                            );
                            proof {
                                let pre = *old(state);
                                let post = *state;
                                let liw = li as int;
                                assert(post.mq.actions@.subrange(0, pre.mq.actions@.len() as int)
                                    =~= pre.mq.actions@);
                                assert(sched_check_action(post.mq.actions@.last(), link, seq));
                                assert(0 <= (hi as int) < post.os.health@.len()
                                    && post.os.health@[hi as int].0 == link && post.os.health@[
                                    hi as int
                                ].1.ping_seq == seq);
                                assert(ping_sched_witness(pre, post, link, liw, now_ms));
                            }
                        },
                        None => {
                            proof {
                                let links = state.os.links@;
                                if exists|i: int|
                                    0 <= i < links.len() && links[i].id == link
                                        && links[i].addr_dg is Some {
                                    let w = choose|w: int|
                                        0 <= w < links.len() && links[w].id == link
                                            && links[w].addr_dg is Some;
                                    if w < (li as int) {
                                        assert(links[w].id != links[li as int].id);
                                    } else if (li as int) < w {
                                        assert(links[li as int].id != links[w].id);
                                    }
                                    assert(false);
                                }
                            }
                        },
                    }
                },
                None => {
                    proof {
                        let links = state.os.links@;
                        if exists|i: int|
                            0 <= i < links.len() && links[i].id == link
                                && links[i].addr_dg is Some {
                            let w = choose|w: int|
                                0 <= w < links.len() && links[w].id == link
                                    && links[w].addr_dg is Some;
                            assert(spec_has_link(links, link));
                            assert(false);
                        }
                    }
                },
            }
        },
        MetricEvent::PingCheck { link, seq } => {
            if state.get_link(link).is_some() {
                match state.find_health(link) {
                    Some(i) => {
                        proof {
                            assert(first_health_match(state.os.health@, link, i as int));
                        }
                        if state.os.health[i].1.ping_seq == seq {
                            let e = state.os.health[i].1;
                            state.os.health[i] = (
                                link,
                                LinkHealth {
                                    last_ping: e.last_ping,
                                    ping: PING_INF_MS,
                                    ping_start: e.ping_start,
                                    ping_seq: e.ping_seq,
                                },
                            );
                            update_link_health(state, link, PING_INF_MS);
                            proof {
                                assert(first_health_match(old(state).os.health@, link, i as int));
                            }
                        } else {
                            proof {
                                if exists|w: int|
                                    #[trigger] first_health_match(state.os.health@, link, w)
                                        && state.os.health@[w].1.ping_seq == seq {
                                    let w = choose|w: int|
                                        #[trigger] first_health_match(state.os.health@, link, w)
                                            && state.os.health@[w].1.ping_seq == seq;
                                    if w < (i as int) {
                                        assert(state.os.health@[w].0 != link);
                                    } else if (i as int) < w {
                                        assert(state.os.health@[i as int].0 != link);
                                    }
                                    assert(false);
                                }
                            }
                        }
                    },
                    None => {
                        proof {
                            if exists|w: int|
                                #[trigger] first_health_match(state.os.health@, link, w)
                                    && state.os.health@[w].1.ping_seq == seq {
                                let w = choose|w: int|
                                    #[trigger] first_health_match(state.os.health@, link, w)
                                        && state.os.health@[w].1.ping_seq == seq;
                                assert(state.os.health@[w].0 == link);
                                assert(false);
                            }
                        }
                    },
                }
            }
        },
    }
}

} // verus!
