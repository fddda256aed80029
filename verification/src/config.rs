use vstd::prelude::*;
use crate::claim::ValidationError;
use crate::entity::{Entity, EntitySecret, ecdsa_p256_valid, ecdsa_verify};

verus! {

/// A socket address as plain values: the IP (an IPv4 address in the low 32
/// bits when `v6` is false) and the port.
#[derive(Clone, Copy, PartialEq, Eq, Structural, Debug)]
pub struct SockAddr {
    pub v6: bool,
    pub ip: u128,
    pub port: u16,
}

/// The virtual IP and prefix length a node holds inside the overlay.
#[derive(Clone, Copy, PartialEq, Eq, Structural, Debug)]
pub struct VLANAddr {
    pub v6: bool,
    pub ip: u128,
    pub cidr: u8,
}

/// The three addresses a node can be reached on: control (TCP), datagram
/// probes (UDP) and the data-plane tunnel (UDP).
#[derive(Clone, Copy, PartialEq, Eq, Structural, Debug)]
pub struct LinkInfo {
    pub addr_ctl: SockAddr,
    pub addr_dg: SockAddr,
    pub addr_dp: SockAddr,
}

/// Node-local secret material: the tunnel private key and the identity
/// private key used for control messages.
pub struct NodeSecret {
    pub wg_privkey: String,
    pub node_privkey: EntitySecret,
}

/// Node-local configuration: secret, listening sockets, interface name.
pub struct NodeConfig {
    pub node_secret: NodeSecret,
    pub node_sock: LinkInfo,
    pub interface_name: String,
}

/// A node's public identity: friendly name, identity key, tunnel key.
#[derive(Debug)]
pub struct NodeIdentity {
    /// the friendly name / universal id for the node
    pub id: String,
    /// public key of the node
    pub pubkey: Entity,
    /// public key used for the data-plane tunnel, base64 text
    pub dp_pubkey: String,
}

impl NodeIdentity {
    pub fn duplicate(&self) -> (r: NodeIdentity)
        ensures
            r.id@ == self.id@,
            r.pubkey@ == self.pubkey@,
            r.dp_pubkey@ == self.dp_pubkey@,
    {
        NodeIdentity {
            id: self.id.clone(),
            pubkey: self.pubkey.duplicate(),
            dp_pubkey: self.dp_pubkey.clone(),
        }
    }
}

/// One trusted node in the network roster.
pub struct NodeInfo {
    pub identity: NodeIdentity,
    pub reachable_via: Vec<LinkInfo>,
    pub addr_vlan: VLANAddr,
}

/// The network-wide roster of trusted nodes, distributed as a signed claim
/// and trusted iff that claim validates under the `root_ca` recorded inside.
pub struct CentralConfig {
    pub version: u128,
    pub config_repos: Vec<String>,
    pub nodes: Vec<NodeInfo>,
    pub root_ca: Entity,
}

/// Whether some trusted node carries this identity key.
pub open spec fn spec_has_node_with_pubkey(nodes: Seq<NodeInfo>, pk: Seq<u8>) -> bool {
    exists|i: int| 0 <= i < nodes.len() && nodes[i].identity.pubkey@ == pk
}

impl CentralConfig {
    /// The index of the first trusted node carrying this identity key.
    pub fn find_node_by_pubkey(&self, pk: &Entity) -> (r: Option<usize>)
        ensures
            r is Some <==> spec_has_node_with_pubkey(self.nodes@, pk@),
            r is Some ==> r->Some_0 < self.nodes@.len()
                && self.nodes@[r->Some_0 as int].identity.pubkey@ == pk@,
    {
        let n = self.nodes.len();
        let mut i: usize = 0;
        while i < n
            invariant
                n == self.nodes@.len(),
                0 <= i <= n,
                forall|j: int| 0 <= j < i ==> self.nodes@[j].identity.pubkey@ != pk@,
            decreases n - i,
        {
            if self.nodes[i].identity.pubkey.eq_entity(pk) {
                return Some(i);
            }
            i += 1;
        }
        None
    }

    /// The index of the first trusted node with this friendly name.
    pub fn find_node_by_name(&self, name: &String) -> (r: Option<usize>)
        ensures
            r is Some <==> exists|i: int|
                0 <= i < self.nodes@.len() && self.nodes@[i].identity.id@ == name@,
            r is Some ==> r->Some_0 < self.nodes@.len()
                && self.nodes@[r->Some_0 as int].identity.id@ == name@,
    {
        let n = self.nodes.len();
        let mut i: usize = 0;
        while i < n
            invariant
                n == self.nodes@.len(),
                0 <= i <= n,
                forall|j: int| 0 <= j < i ==> self.nodes@[j].identity.id@ != name@,
            decreases n - i,
        {
            if self.nodes[i].identity.id == *name {
                return Some(i);
            }
            i += 1;
        }
        None
    }
}

/// Validate the central configuration against the root identity recorded
/// inside it. `claim_bytes` is the canonical serialisation of the claim
/// that carried the configuration, as computed at the parsing boundary;
/// `not_before`/`not_after` are the claim's window. The window is checked
/// first, then the signature, under `root_ca` itself.
pub fn validate_central_config(
    cfg: &CentralConfig,
    claim_bytes: &Vec<u8>,
    signature: &Vec<u8>,
    not_before: i64,
    not_after: i64,
    now_ms: i64,
) -> (r: Result<(), ValidationError>)
    ensures
        r is Ok <==> (not_before <= now_ms < not_after) && ecdsa_p256_valid(
            cfg.root_ca@,
            claim_bytes@,
            signature@,
        ),
        r == Err::<(), ValidationError>(ValidationError::Inactive) <==> !(not_before <= now_ms
            < not_after),
        r == Err::<(), ValidationError>(ValidationError::InvalidSignature) <==> (not_before
            <= now_ms < not_after) && !ecdsa_p256_valid(cfg.root_ca@, claim_bytes@, signature@),
{
    if now_ms >= not_after || now_ms < not_before {
        return Err(ValidationError::Inactive);
    }
    if ecdsa_verify(&cfg.root_ca.pub_key, claim_bytes, signature) {
        Ok(())
    } else {
        Err(ValidationError::InvalidSignature)
    }
}

/// The empty network roster a new network starts from: version zero, no
/// repositories, no nodes, trusted under the given root.
pub fn initial_central_config(root_ca: Entity) -> (r: CentralConfig)
    ensures
        r.version == 0,
        r.config_repos@.len() == 0,
        r.nodes@.len() == 0,
        r.root_ca@ == root_ca@,
{
    CentralConfig { version: 0, config_repos: Vec::new(), nodes: Vec::new(), root_ca }
}

/// Re-signing a configuration bumps its version by one; everything else
/// is kept.
pub fn bump_central_version(cfg: &mut CentralConfig)
    requires
        old(cfg).version < u128::MAX,
    ensures
        final(cfg).version == old(cfg).version + 1,
        final(cfg).config_repos@ == old(cfg).config_repos@,
        final(cfg).nodes@ == old(cfg).nodes@,
        final(cfg).root_ca@ == old(cfg).root_ca@,
{
    cfg.version = cfg.version + 1;
}

/// The node-local configuration `node init` writes: wildcard control and
/// datagram sockets on port 59162, the tunnel on 59163, interface `nylon`.
pub fn default_node_config(node_secret: NodeSecret) -> (r: NodeConfig)
    ensures
        r.node_sock.addr_ctl == (SockAddr { v6: false, ip: 0, port: 59162 }),
        r.node_sock.addr_dg == (SockAddr { v6: false, ip: 0, port: 59162 }),
        r.node_sock.addr_dp == (SockAddr { v6: false, ip: 0, port: 59163 }),
        r.interface_name@ == "nylon"@,
        r.node_secret.wg_privkey@ == node_secret.wg_privkey@,
        r.node_secret.node_privkey.pkcs8@ == node_secret.node_privkey.pkcs8@,
{
    NodeConfig {
        node_secret,
        node_sock: LinkInfo {
            addr_ctl: SockAddr { v6: false, ip: 0, port: 59162 },
            addr_dg: SockAddr { v6: false, ip: 0, port: 59162 },
            addr_dp: SockAddr { v6: false, ip: 0, port: 59163 },
        },
        interface_name: "nylon".to_owned(),
    }
}

/// The reachability stub `node init` prints for the operator: a private
/// placeholder address (192.168.0.1) on the standard ports, and the first
/// overlay address (10.0.0.1/32), both meant to be edited by hand.
pub fn default_node_info(identity: NodeIdentity) -> (r: NodeInfo)
    ensures
        r.reachable_via@.len() == 1,
        r.reachable_via@[0].addr_ctl == (SockAddr { v6: false, ip: 0xc0a80001, port: 59162 }),
        r.reachable_via@[0].addr_dg == (SockAddr { v6: false, ip: 0xc0a80001, port: 59162 }),
        r.reachable_via@[0].addr_dp == (SockAddr { v6: false, ip: 0xc0a80001, port: 59163 }),
        r.addr_vlan == (VLANAddr { v6: false, ip: 0x0a000001, cidr: 32 }),
        r.identity.id@ == identity.id@,
        r.identity.pubkey@ == identity.pubkey@,
        r.identity.dp_pubkey@ == identity.dp_pubkey@,
{
    let mut reachable_via: Vec<LinkInfo> = Vec::new();
    reachable_via.push(LinkInfo {
        addr_ctl: SockAddr { v6: false, ip: 0xc0a80001, port: 59162 },
        addr_dg: SockAddr { v6: false, ip: 0xc0a80001, port: 59162 },
        addr_dp: SockAddr { v6: false, ip: 0xc0a80001, port: 59163 },
    });
    NodeInfo { identity, reachable_via, addr_vlan: VLANAddr { v6: false, ip: 0x0a000001, cidr: 32 } }
}

impl NodeInfo {
    pub fn duplicate(&self) -> (r: NodeInfo)
        ensures
            r.identity.id@ == self.identity.id@,
            r.identity.pubkey@ == self.identity.pubkey@,
            r.identity.dp_pubkey@ == self.identity.dp_pubkey@,
            r.reachable_via@ == self.reachable_via@,
            r.addr_vlan == self.addr_vlan,
    {
        let mut reachable_via: Vec<LinkInfo> = Vec::new();
        let n = self.reachable_via.len();
        let mut i: usize = 0;
        while i < n
            invariant
                n == self.reachable_via@.len(),
                0 <= i <= n,
                reachable_via@ == self.reachable_via@.subrange(0, i as int),
            decreases n - i,
        {
            reachable_via.push(self.reachable_via[i]);
            assert(reachable_via@ =~= self.reachable_via@.subrange(0, i + 1 as int));
            i += 1;
        }
        proof {
            assert(self.reachable_via@.subrange(0, n as int) =~= self.reachable_via@);
        }
        NodeInfo {
            identity: self.identity.duplicate(),
            reachable_via,
            addr_vlan: self.addr_vlan,
        }
    }
}

} // verus!
