use vstd::prelude::*;
use crate::claim::{Claim, LinkId, SignedClaim, wf_ts};
use crate::config::{
    CentralConfig, NodeConfig, NodeIdentity, SockAddr, spec_has_node_with_pubkey,
};
use crate::entity::Entity;
use crate::network::{CtlPacket, Datagram, NetworkEvent, OutPacket, UdpPacket};
use crate::timing::TimedEvent;

verus! {

/// How long an ephemeral claim lives: the handshake window.
pub const EPHEMERAL_MS: i64 = 5000;

/// Sentinel for "no measured round trip": the link is unreachable.
pub const PING_INF_MS: u64 = 0xffff_ffff_ffff_ffff;

/// A link that has passed validation and is active.
pub struct ActiveLink {
    pub id: LinkId,
    /// address used for datagram probes, when it is known
    pub addr_dg: Option<SockAddr>,
    pub dst: NodeIdentity,
}

/// Per-link probe bookkeeping, mutated only by the actor.
#[derive(Clone, Copy, PartialEq, Eq, Structural)]
pub struct LinkHealth {
    pub last_ping: i64,
    /// measured half round trip in milliseconds, `PING_INF_MS` when unreachable
    pub ping: u64,
    pub ping_start: i64,
    pub ping_seq: u64,
}

/// One entry of the route table: destination, carrying link, next hop,
/// metric and sequence number.
pub struct RouteEntry {
    pub dst: Entity,
    pub link: LinkId,
    pub next_hop: Entity,
    pub metric: u16,
    pub seqno: u16,
}

impl RouteEntry {
    pub fn duplicate(&self) -> (r: RouteEntry)
        ensures
            r.dst@ == self.dst@,
            r.link == self.link,
            r.next_hop@ == self.next_hop@,
            r.metric == self.metric,
            r.seqno == self.seqno,
    {
        RouteEntry {
            dst: self.dst.duplicate(),
            link: self.link,
            next_hop: self.next_hop.duplicate(),
            metric: self.metric,
            seqno: self.seqno,
        }
    }
}

/// The routing engine's view of one direct neighbour: the link that
/// reaches it and the measured link metric.
pub struct NeighbourEntry {
    pub link: LinkId,
    pub addr: Entity,
    pub metric: u16,
}

/// The routing state this node owns: its own address, the modelled route
/// table and the direct neighbours with their metrics.
pub struct PersistentState {
    pub address: Entity,
    pub routes: Vec<RouteEntry>,
    pub neighbours: Vec<NeighbourEntry>,
    pub seqno: u16,
}

pub struct CachedState {
    pub pubkey: Option<Entity>,
}

/// Operating state: link registry, probe health, pending application
/// pings, and the two configurations.
pub struct OperatingState {
    pub health: Vec<(LinkId, LinkHealth)>,
    pub pings: Vec<(Entity, i64)>,
    pub links: Vec<ActiveLink>,
    pub node_config: NodeConfig,
    pub central_config: CentralConfig,
    pub cached_state: CachedState,
}

/// Events the actor consumes, in the order they were queued.
pub enum NylonEvent {
    DispatchCommand(String),
    Network(NetworkEvent),
    Timer(TimedEvent),
    Shutdown,
    NoEvent,
}

/// What the actor asks the I/O layer to perform. The layer executes these
/// in order; each carries plain values only.
pub enum Action {
    /// Hand a control packet to the writer task of this link; if the
    /// writer's queue is full or gone, post `failure_event` instead.
    TransmitFrame { link: LinkId, packet: CtlPacket, failure_event: Option<Box<NylonEvent>> },
    /// Send one datagram to this address.
    TransmitDatagram { addr: SockAddr, packet: Datagram },
    /// Spawn the reader and writer tasks for a freshly registered link.
    StartLinkIO { link: LinkId },
    /// Tell the routing engine about a new direct neighbour.
    EngineAddNeighbour { link: LinkId, addr: Entity },
    /// Set the engine's metric for a direct link, then let it update.
    EngineSetMetric { link: LinkId, metric: u16 },
    /// Forget a dead link's neighbour in the routing engine.
    EngineDropNeighbour { link: LinkId },
    /// Hand an inbound routing packet to the engine.
    EngineHandlePacket { link: LinkId, neighbour: Entity, payload: Vec<u8> },
    /// Run the engine's periodic full update.
    EngineFullUpdate,
    /// Post `event` to the queue after `delay_ms` milliseconds.
    ScheduleEvent { delay_ms: u64, event: Box<NylonEvent> },
    /// Re-derive the tunnel peer configuration from the route table.
    SysRouteRefresh,
}

/// The actor's queue of events, the ordered actions handed to the I/O
/// layer, and the cancellation flag every task watches.
pub struct MessageQueue {
    pub events: Vec<NylonEvent>,
    pub actions: Vec<Action>,
    pub cancelled: bool,
}

pub struct NylonState {
    pub ps: PersistentState,
    pub os: OperatingState,
    pub mq: MessageQueue,
}

/// What registering a link leaves behind: when the destination is
/// trusted and the id is free, the link is appended to the registry, a
/// neighbour entry (initially unreachable) is added for the engine, and
/// the I/O layer is told about both; otherwise nothing changes.
pub open spec fn register_link_post(
    pre: NylonState,
    post: NylonState,
    id: LinkId,
    addr_dg: Option<SockAddr>,
    dst: NodeIdentity,
) -> bool {
    &&& post.os.health@ == pre.os.health@
    &&& post.os.pings@ == pre.os.pings@
    &&& post.os.node_config == pre.os.node_config
    &&& post.os.central_config == pre.os.central_config
    &&& post.ps.routes@ == pre.ps.routes@
    &&& post.ps.address@ == pre.ps.address@
    &&& post.mq.events@ == pre.mq.events@
    &&& post.mq.cancelled == pre.mq.cancelled
    &&& if spec_has_node_with_pubkey(pre.os.central_config.nodes@, dst.pubkey@)
        && !spec_has_link(pre.os.links@, id) {
        &&& post.os.links@.len() == pre.os.links@.len() + 1
        &&& post.os.links@.subrange(0, pre.os.links@.len() as int) == pre.os.links@
        &&& post.os.links@.last().id == id
        &&& post.os.links@.last().addr_dg == addr_dg
        &&& post.os.links@.last().dst.pubkey@ == dst.pubkey@
        &&& post.os.links@.last().dst.id@ == dst.id@
        &&& post.os.links@.last().dst.dp_pubkey@ == dst.dp_pubkey@
        &&& post.ps.neighbours@.len() == pre.ps.neighbours@.len() + 1
        &&& post.ps.neighbours@.subrange(0, pre.ps.neighbours@.len() as int)
            == pre.ps.neighbours@
        &&& post.ps.neighbours@.last().link == id
        &&& post.ps.neighbours@.last().addr@ == dst.pubkey@
        &&& post.ps.neighbours@.last().metric == 65535
        &&& post.mq.actions@.len() == pre.mq.actions@.len() + 2
        &&& post.mq.actions@.subrange(0, pre.mq.actions@.len() as int) == pre.mq.actions@
        &&& (post.mq.actions@[pre.mq.actions@.len() as int]
            matches Action::EngineAddNeighbour { link, addr } && link == id && addr@
            == dst.pubkey@)
        &&& post.mq.actions@.last() == Action::StartLinkIO { link: id }
    } else {
        &&& post.os.links@ == pre.os.links@
        &&& post.ps.neighbours@ == pre.ps.neighbours@
        &&& post.mq.actions@ == pre.mq.actions@
    }
}

/// The route entries not carried by `id`, in order: what survives that
/// link's death.
pub open spec fn spec_routes_without(routes: Seq<RouteEntry>, id: LinkId) -> Seq<RouteEntry>
    decreases routes.len(),
{
    if routes.len() == 0 {
        routes
    } else {
        let rest = spec_routes_without(routes.drop_last(), id);
        if routes.last().link == id {
            rest
        } else {
            rest.push(routes.last())
        }
    }
}

/// What tearing a link down leaves behind: when a link with this id is
/// registered, it leaves the registry, the routes it carried disappear,
/// its neighbour entry is dropped and the engine is told; an unknown id
/// changes nothing. Probe health is kept as bookkeeping, as it is for a
/// link that merely went quiet.
pub open spec fn remove_link_post(pre: NylonState, post: NylonState, id: LinkId) -> bool {
    &&& post.os.health@ == pre.os.health@
    &&& post.os.pings@ == pre.os.pings@
    &&& post.os.node_config == pre.os.node_config
    &&& post.os.central_config == pre.os.central_config
    &&& post.ps.address@ == pre.ps.address@
    &&& post.mq.events@ == pre.mq.events@
    &&& post.mq.cancelled == pre.mq.cancelled
    &&& if spec_has_link(pre.os.links@, id) {
        &&& exists|li: int|
            0 <= li < pre.os.links@.len() && (#[trigger] pre.os.links@[li]).id == id
                && post.os.links@ == pre.os.links@.subrange(0, li) + pre.os.links@.subrange(
                li + 1,
                pre.os.links@.len() as int,
            )
        &&& ({
            let kept = spec_routes_without(pre.ps.routes@, id);
            &&& post.ps.routes@.len() == kept.len()
            &&& forall|k: int|
                0 <= k < kept.len() ==> crate::routing::route_eq(
                    #[trigger] post.ps.routes@[k],
                    kept[k],
                )
        })
        &&& if exists|ni: int|
            0 <= ni < pre.ps.neighbours@.len() && (#[trigger] pre.ps.neighbours@[ni]).link
                == id {
            exists|ni: int|
                0 <= ni < pre.ps.neighbours@.len() && (#[trigger] pre.ps.neighbours@[ni]).link
                    == id && post.ps.neighbours@ == pre.ps.neighbours@.subrange(0, ni)
                    + pre.ps.neighbours@.subrange(ni + 1, pre.ps.neighbours@.len() as int)
        } else {
            post.ps.neighbours@ == pre.ps.neighbours@
        }
        &&& post.mq.actions@ == pre.mq.actions@.push(Action::EngineDropNeighbour { link: id })
    } else {
        post == pre
    }
}

pub open spec fn spec_has_link(links: Seq<ActiveLink>, id: LinkId) -> bool {
    exists|i: int| 0 <= i < links.len() && links[i].id == id
}

/// No two active links share a link id.
pub open spec fn links_unique(links: Seq<ActiveLink>) -> bool {
    forall|i: int, j: int|
        0 <= i < j < links.len() ==> links[i].id != links[j].id
}

/// Every active link points at an identity listed in the central config.
pub open spec fn links_trusted(links: Seq<ActiveLink>, cfg: CentralConfig) -> bool {
    forall|i: int|
        0 <= i < links.len() ==> spec_has_node_with_pubkey(
            cfg.nodes@,
            #[trigger] links[i].dst.pubkey@,
        )
}

/// The route's next hop is the destination of the link that carries it.
pub open spec fn route_next_hop_linked(links: Seq<ActiveLink>, e: RouteEntry) -> bool {
    exists|i: int|
        0 <= i < links.len() && links[i].id == e.link && links[i].dst.pubkey@ == e.next_hop@
}

/// Every route table entry is carried by an active link whose destination
/// is the route's next hop.
pub open spec fn routes_valid(links: Seq<ActiveLink>, routes: Seq<RouteEntry>) -> bool {
    forall|k: int| 0 <= k < routes.len() ==> route_next_hop_linked(links, #[trigger] routes[k])
}

impl NylonState {
    /// The state invariant the actor maintains. The node's address is
    /// its own secret's public identity, so whatever this node signs
    /// validates under its address.
    pub open spec fn wf(&self) -> bool {
        &&& links_unique(self.os.links@)
        &&& links_trusted(self.os.links@, self.os.central_config)
        &&& routes_valid(self.os.links@, self.ps.routes@)
        &&& (self.os.cached_state.pubkey matches Some(pk) ==> pk@ == self.ps.address@)
        &&& self.ps.address@ == crate::entity::pubkey_of(
            self.os.node_config.node_secret.node_privkey.pkcs8@,
        )
    }

    /// A freshly started node, from its secret and the two configs: no
    /// links, no routes, no pending work. None when the secret's bytes
    /// are not a well-formed key.
    pub fn try_init(node_config: NodeConfig, central_config: CentralConfig) -> (r: Option<
        NylonState,
    >)
        ensures
            r is Some <==> node_config.node_secret.node_privkey.wf(),
            r matches Some(s) ==> {
                &&& s.wf()
                &&& s.ps.address@ == crate::entity::pubkey_of(
                    node_config.node_secret.node_privkey.pkcs8@,
                )
                &&& s.ps.routes@.len() == 0
                &&& s.os.links@.len() == 0
                &&& s.mq.events@.len() == 0
                &&& s.mq.actions@.len() == 0
                &&& !s.mq.cancelled
            },
    {
        match node_config.node_secret.node_privkey.try_get_pubkey() {
            Some(address) => Some(Self::init(address, node_config, central_config)),
            None => None,
        }
    }

    /// A freshly started node: no links, no routes, no pending work.
    /// `address` must be the identity belonging to the node's secret.
    pub fn init(address: Entity, node_config: NodeConfig, central_config: CentralConfig) -> (r:
        NylonState)
        requires
            address@ == crate::entity::pubkey_of(node_config.node_secret.node_privkey.pkcs8@),
        ensures
            r.wf(),
            r.ps.address@ == address@,
            r.ps.routes@.len() == 0,
            r.ps.neighbours@.len() == 0,
            r.os.links@.len() == 0,
            r.os.health@.len() == 0,
            r.os.pings@.len() == 0,
            r.mq.events@.len() == 0,
            r.mq.actions@.len() == 0,
            !r.mq.cancelled,
    {
        let cached = Entity { pub_key: crate::bytes::clone_bytes(&address.pub_key) };
        NylonState {
            ps: PersistentState {
                address,
                routes: Vec::new(),
                neighbours: Vec::new(),
                seqno: 0,
            },
            os: OperatingState {
                health: Vec::new(),
                pings: Vec::new(),
                links: Vec::new(),
                node_config,
                central_config,
                cached_state: CachedState { pubkey: Some(cached) },
            },
            mq: MessageQueue { events: Vec::new(), actions: Vec::new(), cancelled: false },
        }
    }

    /// The index of the active link with this id, when one exists.
    pub fn get_link(&self, id: LinkId) -> (r: Option<usize>)
        ensures
            r is Some <==> spec_has_link(self.os.links@, id),
            r is Some ==> r->Some_0 < self.os.links@.len() && self.os.links@[
                r->Some_0 as int
            ].id == id,
    {
        let n = self.os.links.len();
        let mut i: usize = 0;
        while i < n
            invariant
                n == self.os.links@.len(),
                0 <= i <= n,
                forall|j: int| 0 <= j < i ==> self.os.links@[j].id != id,
            decreases n - i,
        {
            if self.os.links[i].id == id {
                return Some(i);
            }
            i += 1;
        }
        None
    }

    /// The index of the health entry for this link, when one exists.
    pub fn find_health(&self, id: LinkId) -> (r: Option<usize>)
        ensures
            r is Some <==> exists|i: int|
                0 <= i < self.os.health@.len() && self.os.health@[i].0 == id,
            r is Some ==> r->Some_0 < self.os.health@.len() && self.os.health@[
                r->Some_0 as int
            ].0 == id && (forall|j: int| 0 <= j < r->Some_0 ==> self.os.health@[j].0 != id),
    {
        let n = self.os.health.len();
        let mut i: usize = 0;
        while i < n
            invariant
                n == self.os.health@.len(),
                0 <= i <= n,
                forall|j: int| 0 <= j < i ==> self.os.health@[j].0 != id,
            decreases n - i,
        {
            if self.os.health[i].0 == id {
                return Some(i);
            }
            i += 1;
        }
        None
    }

    /// The index of this link's neighbour entry, when one exists.
    pub fn find_neighbour(&self, id: LinkId) -> (r: Option<usize>)
        ensures
            r is Some <==> exists|i: int|
                0 <= i < self.ps.neighbours@.len() && self.ps.neighbours@[i].link == id,
            r is Some ==> r->Some_0 < self.ps.neighbours@.len() && self.ps.neighbours@[
                r->Some_0 as int
            ].link == id,
    {
        let n = self.ps.neighbours.len();
        let mut i: usize = 0;
        while i < n
            invariant
                n == self.ps.neighbours@.len(),
                0 <= i <= n,
                forall|j: int| 0 <= j < i ==> self.ps.neighbours@[j].link != id,
            decreases n - i,
        {
            if self.ps.neighbours[i].link == id {
                return Some(i);
            }
            i += 1;
        }
        None
    }

    /// The index of the first route entry for this destination.
    pub fn find_route(&self, dst: &Entity) -> (r: Option<usize>)
        ensures
            r is Some <==> exists|i: int|
                0 <= i < self.ps.routes@.len() && self.ps.routes@[i].dst@ == dst@,
            r is Some ==> r->Some_0 < self.ps.routes@.len() && self.ps.routes@[
                r->Some_0 as int
            ].dst@ == dst@ && (forall|j: int|
                0 <= j < r->Some_0 ==> self.ps.routes@[j].dst@ != dst@),
    {
        let n = self.ps.routes.len();
        let mut i: usize = 0;
        while i < n
            invariant
                n == self.ps.routes@.len(),
                0 <= i <= n,
                forall|j: int| 0 <= j < i ==> self.ps.routes@[j].dst@ != dst@,
            decreases n - i,
        {
            if self.ps.routes[i].dst.eq_entity(dst) {
                return Some(i);
            }
            i += 1;
        }
        None
    }

    /// The index of the trusted node with this friendly name.
    pub fn get_node_by_name(&self, friendly_name: &String) -> (r: Option<usize>)
        ensures
            r is Some <==> exists|i: int|
                0 <= i < self.os.central_config.nodes@.len()
                    && self.os.central_config.nodes@[i].identity.id@ == friendly_name@,
            r is Some ==> r->Some_0 < self.os.central_config.nodes@.len()
                && self.os.central_config.nodes@[r->Some_0 as int].identity.id@
                == friendly_name@,
    {
        self.os.central_config.find_node_by_name(friendly_name)
    }

    /// The index of the trusted node with this identity key.
    pub fn get_node_by_pubkey(&self, pubkey: &Entity) -> (r: Option<usize>)
        ensures
            r is Some <==> spec_has_node_with_pubkey(self.os.central_config.nodes@, pubkey@),
            r is Some ==> r->Some_0 < self.os.central_config.nodes@.len()
                && self.os.central_config.nodes@[r->Some_0 as int].identity.pubkey@ == pubkey@,
    {
        self.os.central_config.find_node_by_pubkey(pubkey)
    }

    /// This node's own roster entry, when the central config lists it.
    pub fn node_info(&self) -> (r: Option<crate::config::NodeInfo>)
        requires
            self.wf(),
        ensures
            r is Some <==> spec_has_node_with_pubkey(
                self.os.central_config.nodes@,
                self.ps.address@,
            ),
            r is Some ==> r->Some_0.identity.pubkey@ == self.ps.address@,
    {
        match self.os.central_config.find_node_by_pubkey(&self.ps.address) {
            Some(i) => Some(self.os.central_config.nodes[i].duplicate()),
            None => None,
        }
    }

    /// This node's own public identity.
    pub fn pubkey(&self) -> (r: Entity)
        requires
            self.wf(),
        ensures
            r@ == self.ps.address@,
    {
        match &self.os.cached_state.pubkey {
            Some(pk) => pk.duplicate(),
            None => self.ps.address.duplicate(),
        }
    }

    /// Sign a claim with this node's identity secret. A signed claim
    /// that comes back validates under this node's address.
    pub fn sign_claim(&self, claim: Claim<LinkId>) -> (r: Option<SignedClaim<LinkId>>)
        requires
            self.wf(),
            claim.wf_window(),
        ensures
            r is Some ==> r->Some_0.claim == claim,
            r matches Some(sc) ==> crate::claim::link_claim_signed_by(
                sc.claim,
                sc.signature@,
                self.ps.address@,
            ),
    {
        claim.sign_claim(&self.os.node_config.node_secret.node_privkey)
    }

    /// Sign a link id into a claim that expires `EPHEMERAL_MS` after
    /// `now`. The result validates under this node's address throughout
    /// that window.
    pub fn sign_ephemeral(&self, data: LinkId, now_ms: i64) -> (r: Option<SignedClaim<LinkId>>)
        requires
            self.wf(),
            wf_ts(now_ms),
            wf_ts((now_ms + EPHEMERAL_MS) as i64),
            now_ms + EPHEMERAL_MS <= i64::MAX,
        ensures
            r is Some ==> {
                let c = r->Some_0.claim;
                c.data == data && c.not_before == now_ms && c.not_after == now_ms + EPHEMERAL_MS
            },
            r matches Some(sc) ==> crate::claim::link_claim_signed_by(
                sc.claim,
                sc.signature@,
                self.ps.address@,
            ),
    {
        match Claim::from(data, now_ms, now_ms + EPHEMERAL_MS) {
            Some(c) => self.sign_claim(c),
            None => None,
        }
    }

    /// Insert a validated link into the registry, remember its neighbour
    /// for the routing engine and ask the I/O layer to start its tasks.
    /// Refused when the destination is not in the central config or the
    /// id is already taken, so the registry invariants hold of every
    /// reachable state.
    pub fn register_link(&mut self, id: LinkId, addr_dg: Option<SockAddr>, dst: NodeIdentity) -> (r:
        bool)
        requires
            old(self).wf(),
        ensures
            final(self).wf(),
            register_link_post(*old(self), *final(self), id, addr_dg, dst),
            r <==> (spec_has_node_with_pubkey(old(self).os.central_config.nodes@, dst.pubkey@)
                && !spec_has_link(old(self).os.links@, id)),
    {
        let trusted = self.os.central_config.find_node_by_pubkey(&dst.pubkey);
        if trusted.is_none() {
            return false;
        }
        if self.get_link(id).is_some() {
            return false;
        }
        let addr = dst.pubkey.duplicate();
        let link = ActiveLink { id, addr_dg, dst };
        self.os.links.push(link);
        self.ps.neighbours.push(NeighbourEntry { link: id, addr: addr.duplicate(), metric: 65535 });
        self.mq.actions.push(Action::EngineAddNeighbour { link: id, addr });
        self.mq.actions.push(Action::StartLinkIO { link: id });
        proof {
            let pre = old(self).os.links@;
            let post = self.os.links@;
            assert(post == pre.push(self.os.links@.last()));
            assert forall|k: int|
                0 <= k < self.ps.routes@.len() implies route_next_hop_linked(
                post,
                #[trigger] self.ps.routes@[k],
            ) by {
                let e = self.ps.routes@[k];
                let i = choose|i: int|
                    0 <= i < pre.len() && pre[i].id == e.link && pre[i].dst.pubkey@
                        == e.next_hop@;
                assert(post[i] == pre[i]);
            }
            assert(post.subrange(0, pre.len() as int) =~= pre);
            assert(self.ps.neighbours@.subrange(0, old(self).ps.neighbours@.len() as int)
                =~= old(self).ps.neighbours@);
            assert(self.mq.actions@.subrange(0, old(self).mq.actions@.len() as int) =~= old(
                self,
            ).mq.actions@);
        }
        true
    }
}

/// Every element of the surviving route list is an element of the old
/// one, and none of them was carried by `id`.
proof fn lemma_routes_without_sub(routes: Seq<RouteEntry>, id: LinkId)
    ensures
        forall|k: int|
            0 <= k < spec_routes_without(routes, id).len() ==> exists|m: int|
                0 <= m < routes.len() && #[trigger] spec_routes_without(routes, id)[k]
                    == routes[m] && routes[m].link != id,
    decreases routes.len(),
{
    if routes.len() > 0 {
        lemma_routes_without_sub(routes.drop_last(), id);
        let rest = spec_routes_without(routes.drop_last(), id);
        assert forall|k: int|
            0 <= k < spec_routes_without(routes, id).len() implies exists|m: int|
            0 <= m < routes.len() && #[trigger] spec_routes_without(routes, id)[k] == routes[m]
                && routes[m].link != id by {
            if k < rest.len() {
                let m = choose|m: int|
                    0 <= m < routes.drop_last().len() && #[trigger] rest[k]
                        == routes.drop_last()[m] && routes.drop_last()[m].link != id;
                assert(routes.drop_last()[m] == routes[m]);
                assert(spec_routes_without(routes, id)[k] == rest[k]);
            } else {
                assert(spec_routes_without(routes, id)[k] == routes.last());
                assert(routes.last() == routes[routes.len() - 1]);
            }
        }
    }
}

impl NylonState {
    /// Tear a dead link down: spec-wise, an active link is destroyed
    /// when either of its stream halves dies. The link leaves the
    /// registry, the routes it carried are dropped (so the route-table
    /// invariant keeps holding), its neighbour entry goes, and the
    /// routing engine is told to forget the neighbour.
    pub fn remove_link(&mut self, id: LinkId) -> (r: bool)
        requires
            old(self).wf(),
        ensures
            final(self).wf(),
            remove_link_post(*old(self), *final(self), id),
            r <==> spec_has_link(old(self).os.links@, id),
    {
        let li = match self.get_link(id) {
            Some(li) => li,
            None => {
                return false;
            },
        };
        let ghost pre_l = self.os.links@;
        self.os.links.remove(li);
        let ghost post_l = self.os.links@;
        proof {
            assert(post_l =~= pre_l.subrange(0, li as int) + pre_l.subrange(
                li + 1,
                pre_l.len() as int,
            ));
        }
        // keep only the routes that other links carry
        let mut kept: Vec<RouteEntry> = Vec::new();
        let n = self.ps.routes.len();
        let mut i: usize = 0;
        while i < n
            invariant
                n == self.ps.routes@.len(),
                0 <= i <= n,
                self.ps.routes@ == old(self).ps.routes@,
                ({
                    let k = spec_routes_without(
                        old(self).ps.routes@.subrange(0, i as int),
                        id,
                    );
                    &&& kept@.len() == k.len()
                    &&& forall|j: int|
                        0 <= j < k.len() ==> crate::routing::route_eq(
                            #[trigger] kept@[j],
                            k[j],
                        )
                }),
            decreases n - i,
        {
            let ghost k_pre = spec_routes_without(old(self).ps.routes@.subrange(0, i as int), id);
            if self.ps.routes[i].link != id {
                kept.push(self.ps.routes[i].duplicate());
            }
            proof {
                assert(old(self).ps.routes@.subrange(0, i + 1 as int).drop_last()
                    =~= old(self).ps.routes@.subrange(0, i as int));
                assert(old(self).ps.routes@.subrange(0, i + 1 as int).last() == old(
                    self,
                ).ps.routes@[i as int]);
            }
            i += 1;
        }
        proof {
            assert(old(self).ps.routes@.subrange(0, n as int) =~= old(self).ps.routes@);
        }
        self.ps.routes = kept;
        // forget the neighbour, in the model and in the engine
        match self.find_neighbour(id) {
            Some(ni) => {
                let ghost pre_n = self.ps.neighbours@;
                self.ps.neighbours.remove(ni);
                proof {
                    assert(self.ps.neighbours@ =~= pre_n.subrange(0, ni as int) + pre_n.subrange(
                        ni + 1,
                        pre_n.len() as int,
                    ));
                }
            },
            None => {
                proof {
                    if exists|w: int|
                        0 <= w < self.ps.neighbours@.len() && (#[trigger] self.ps.neighbours@[
                            w
                        ]).link == id {
                        let w = choose|w: int|
                            0 <= w < self.ps.neighbours@.len() && (#[trigger] self.ps.neighbours@[
                                w
                            ]).link == id;
                        assert(false);
                    }
                }
            },
        }
        self.mq.actions.push(Action::EngineDropNeighbour { link: id });
        proof {
            let liw = li as int;
            assert(0 <= liw < pre_l.len() && pre_l[liw].id == id);
            // each surviving registry slot is an old slot shifted past
            // the removed one
            assert forall|x: int| 0 <= x < post_l.len() implies post_l[x] == pre_l[
                if x < liw {
                    x
                } else {
                    x + 1
                }
            ] by {
                if x < liw {
                    assert(post_l[x] == pre_l.subrange(0, liw)[x]);
                } else {
                    assert(post_l[x] == pre_l.subrange(liw + 1, pre_l.len() as int)[x - liw]);
                }
            }
            assert forall|x: int, y: int|
                0 <= x < y < post_l.len() implies post_l[x].id != post_l[y].id by {
                let a = if x < liw {
                    x
                } else {
                    x + 1
                };
                let b = if y < liw {
                    y
                } else {
                    y + 1
                };
                assert(post_l[x] == pre_l[a] && post_l[y] == pre_l[b]);
                assert(pre_l[a].id != pre_l[b].id);
            }
            assert forall|x: int|
                0 <= x < post_l.len() implies spec_has_node_with_pubkey(
                self.os.central_config.nodes@,
                #[trigger] post_l[x].dst.pubkey@,
            ) by {
                let a = if x < liw {
                    x
                } else {
                    x + 1
                };
                assert(post_l[x] == pre_l[a]);
                assert(spec_has_node_with_pubkey(
                    self.os.central_config.nodes@,
                    pre_l[a].dst.pubkey@,
                ));
            }
            // every surviving route still has its carrying link
            lemma_routes_without_sub(old(self).ps.routes@, id);
            let filtered = spec_routes_without(old(self).ps.routes@, id);
            assert forall|k: int|
                0 <= k < self.ps.routes@.len() implies route_next_hop_linked(
                post_l,
                #[trigger] self.ps.routes@[k],
            ) by {
                let m = choose|m: int|
                    0 <= m < old(self).ps.routes@.len() && #[trigger] filtered[k] == old(
                        self,
                    ).ps.routes@[m] && old(self).ps.routes@[m].link != id;
                let e = old(self).ps.routes@[m];
                assert(route_next_hop_linked(pre_l, e));
                let w = choose|w: int|
                    0 <= w < pre_l.len() && pre_l[w].id == e.link && pre_l[w].dst.pubkey@
                        == e.next_hop@;
                assert(w != liw);
                let wp = if w < liw {
                    w
                } else {
                    w - 1
                };
                assert(post_l[wp] == pre_l[w]);
                assert(crate::routing::route_eq(self.ps.routes@[k], filtered[k]));
            }
        }
        true
    }
}

impl MessageQueue {
    /// Queue a control packet for a link, with an event to post if the
    /// write fails.
    pub fn send_packet(&mut self, to: LinkId, packet: CtlPacket, failure: NylonEvent)
        ensures
            final(self).events@.len() == old(self).events@.len() + 1,
            final(self).events@.subrange(0, old(self).events@.len() as int) == old(self).events@,
            final(self).events@.last() matches NylonEvent::Network(
                NetworkEvent::OutboundPacket(p),
            ) && p.link == to && p.packet == packet && (p.failure_event matches Some(b) && *b
                == failure),
            final(self).actions@ == old(self).actions@,
            final(self).cancelled == old(self).cancelled,
    {
        self.send_network(
            NetworkEvent::OutboundPacket(
                OutPacket { link: to, packet, failure_event: Some(Box::new(failure)) },
            ),
        );
    }

    /// Queue one probe datagram for an address.
    pub fn send_probe_packet(&mut self, to: SockAddr, packet: Datagram)
        ensures
            final(self).events@ == old(self).events@.push(
                NylonEvent::Network(
                    NetworkEvent::OutboundDatagram(UdpPacket { addr: to, packet }),
                ),
            ),
            final(self).actions@ == old(self).actions@,
            final(self).cancelled == old(self).cancelled,
    {
        self.send_network(NetworkEvent::OutboundDatagram(UdpPacket { addr: to, packet }));
    }

    pub fn send_network(&mut self, event: NetworkEvent)
        ensures
            final(self).events@ == old(self).events@.push(NylonEvent::Network(event)),
            final(self).actions@ == old(self).actions@,
            final(self).cancelled == old(self).cancelled,
    {
        self.events.push(NylonEvent::Network(event));
    }

    pub fn send(&mut self, event: NylonEvent)
        ensures
            final(self).events@ == old(self).events@.push(event),
            final(self).actions@ == old(self).actions@,
            final(self).cancelled == old(self).cancelled,
    {
        self.events.push(event);
    }

    /// Shut the node down: raise the cancellation flag, then post a
    /// wake-up so a blocked actor notices.
    pub fn shutdown(&mut self)
        ensures
            final(self).cancelled,
            final(self).events@ == old(self).events@.push(NylonEvent::NoEvent),
            final(self).actions@ == old(self).actions@,
    {
        self.cancelled = true;
        self.events.push(NylonEvent::NoEvent);
    }
}

/// Every active link's destination is a trusted identity of the central
/// configuration.
pub proof fn lemma_active_links_trusted(s: &NylonState, i: int)
    requires
        s.wf(),
        0 <= i < s.os.links@.len(),
    ensures
        spec_has_node_with_pubkey(s.os.central_config.nodes@, s.os.links@[i].dst.pubkey@),
{
}

/// No two active links share the same link id.
pub proof fn lemma_link_ids_distinct(s: &NylonState, i: int, j: int)
    requires
        s.wf(),
        0 <= i < s.os.links@.len(),
        0 <= j < s.os.links@.len(),
        i != j,
    ensures
        s.os.links@[i].id != s.os.links@[j].id,
{
}

/// Every route table entry is carried by an active link whose destination
/// is the route's next hop.
pub proof fn lemma_route_next_hop_active(s: &NylonState, k: int)
    requires
        s.wf(),
        0 <= k < s.ps.routes@.len(),
    ensures
        exists|i: int|
            0 <= i < s.os.links@.len() && s.os.links@[i].id == s.ps.routes@[k].link
                && s.os.links@[i].dst.pubkey@ == s.ps.routes@[k].next_hop@,
{
    assert(route_next_hop_linked(s.os.links@, s.ps.routes@[k]));
}

} // verus!
