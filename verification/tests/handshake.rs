use nylon::claim::{Claim, ValidationError};
use nylon::config::{
    CentralConfig, LinkInfo, NodeConfig, NodeIdentity, NodeInfo, NodeSecret, SockAddr, VLANAddr,
    validate_central_config,
};
use nylon::entity::{Entity, EntitySecret};
use nylon::network::{Connect, ConnectError, validate_connect};
use nylon::state::NylonState;

fn sock(port: u16) -> SockAddr {
    SockAddr { v6: false, ip: 0x7f000001, port }
}

fn node_info(name: &str, public: &Entity) -> NodeInfo {
    NodeInfo {
        identity: NodeIdentity {
            id: name.to_string(),
            pubkey: Entity { pub_key: public.pub_key.clone() },
            dp_pubkey: String::new(),
        },
        reachable_via: vec![LinkInfo {
            addr_ctl: sock(59162),
            addr_dg: sock(59162),
            addr_dp: sock(59163),
        }],
        addr_vlan: VLANAddr { v6: false, ip: 0x0a000001, cidr: 32 },
    }
}

fn network_of(names: &[&str]) -> (Vec<EntitySecret>, CentralConfig, Entity) {
    let root = EntitySecret::generate().unwrap();
    let root_pub = root.get_pubkey();
    let mut secrets = Vec::new();
    let mut nodes = Vec::new();
    for name in names {
        let s = EntitySecret::generate().unwrap();
        nodes.push(node_info(name, &s.get_pubkey()));
        secrets.push(s);
    }
    let cfg = CentralConfig { version: 1, config_repos: vec![], nodes, root_ca: root_pub };
    (secrets, cfg, root.get_pubkey())
}

fn state_for(me: usize, secrets: &[EntitySecret], cfg: CentralConfig) -> NylonState {
    let node_config = NodeConfig {
        node_secret: NodeSecret {
            wg_privkey: String::new(),
            node_privkey: secrets[me].duplicate(),
        },
        node_sock: LinkInfo { addr_ctl: sock(1), addr_dg: sock(2), addr_dp: sock(3) },
        interface_name: "nylon".to_string(),
    };
    NylonState::try_init(node_config, cfg).expect("well-formed key")
}

fn connect_from(secret: &EntitySecret, link_id: u128, now_ms: i64) -> Connect {
    let claim = Claim { data: link_id, not_before: now_ms, not_after: now_ms + 5000, serial: 99 };
    Connect {
        peer_addr: secret.get_pubkey(),
        link_id: claim.sign_claim(secret).expect("signing"),
    }
}

#[test]
fn listener_accepts_trusted_peer() {
    let (secrets, cfg, _) = network_of(&["n1", "n2"]);
    let state = state_for(0, &secrets, cfg);
    let pkt = connect_from(&secrets[1], 7, 1_000_000);
    let id = validate_connect(&state, None, None, &pkt, 1_000_100).expect("accepted");
    assert_eq!(id.id, "n2");
    assert_eq!(id.pubkey.pub_key, secrets[1].get_pubkey().pub_key);
}

#[test]
fn connect_with_expired_claim_is_rejected() {
    // the claim expired six seconds before validation
    let (secrets, cfg, _) = network_of(&["n1", "n2"]);
    let state = state_for(0, &secrets, cfg);
    let pkt = connect_from(&secrets[1], 7, 1_000_000);
    let r = validate_connect(&state, None, None, &pkt, 1_011_000);
    assert_eq!(r.unwrap_err(), ConnectError::ClaimInactive);
}

#[test]
fn replayed_connect_is_rejected() {
    // a recorded handshake replayed ten seconds later: the five-second
    // claim has expired
    let (secrets, cfg, _) = network_of(&["n1", "n2"]);
    let state = state_for(0, &secrets, cfg);
    let recorded = connect_from(&secrets[1], 7, 1_000_000);
    assert!(validate_connect(&state, None, None, &recorded, 1_001_000).is_ok());
    let r = validate_connect(&state, None, None, &recorded, 1_010_000);
    assert_eq!(r.unwrap_err(), ConnectError::ClaimInactive);
}

#[test]
fn untrusted_peer_is_rejected_despite_valid_signature() {
    let (secrets, cfg, _) = network_of(&["n1", "n2"]);
    let state = state_for(0, &secrets, cfg);
    let stranger = EntitySecret::generate().unwrap();
    let pkt = connect_from(&stranger, 7, 1_000_000);
    let r = validate_connect(&state, None, None, &pkt, 1_000_100);
    assert_eq!(r.unwrap_err(), ConnectError::Untrusted);
}

#[test]
fn claim_signed_by_another_key_is_rejected() {
    let (secrets, cfg, _) = network_of(&["n1", "n2"]);
    let state = state_for(0, &secrets, cfg);
    let mut pkt = connect_from(&secrets[1], 7, 1_000_000);
    // the message claims n2's identity but carries n1's signature
    pkt.peer_addr = secrets[1].get_pubkey();
    let forged = connect_from(&secrets[0], 7, 1_000_000);
    pkt.link_id = forged.link_id;
    let r = validate_connect(&state, None, None, &pkt, 1_000_100);
    assert_eq!(r.unwrap_err(), ConnectError::ClaimInvalid);
}

#[test]
fn in_use_link_id_is_rejected() {
    let (secrets, cfg, _) = network_of(&["n1", "n2"]);
    let mut state = state_for(0, &secrets, cfg);
    let pkt = connect_from(&secrets[1], 7, 1_000_000);
    let identity = validate_connect(&state, None, None, &pkt, 1_000_100).expect("accepted");
    assert!(state.register_link(7, None, identity));
    let again = connect_from(&secrets[1], 7, 1_000_200);
    let r = validate_connect(&state, None, None, &again, 1_000_300);
    assert_eq!(r.unwrap_err(), ConnectError::LinkIdInUse);
    // a fresh id is still welcome
    let fresh = connect_from(&secrets[1], 8, 1_000_200);
    assert!(validate_connect(&state, None, None, &fresh, 1_000_300).is_ok());
}

#[test]
fn dialer_checks_echoed_link_id_and_peer() {
    let (secrets, cfg, _) = network_of(&["n1", "n2"]);
    let state = state_for(0, &secrets, cfg);
    let expected = secrets[1].get_pubkey();
    let pkt = connect_from(&secrets[1], 7, 1_000_000);
    assert!(validate_connect(&state, Some(&expected), Some(7), &pkt, 1_000_100).is_ok());
    let r = validate_connect(&state, Some(&expected), Some(8), &pkt, 1_000_100);
    assert_eq!(r.unwrap_err(), ConnectError::LinkIdMismatch);
    let wrong_peer = secrets[0].get_pubkey();
    let r = validate_connect(&state, Some(&wrong_peer), Some(7), &pkt, 1_000_100);
    assert_eq!(r.unwrap_err(), ConnectError::UnexpectedPeer);
}

#[test]
fn registry_refuses_untrusted_destination() {
    let (secrets, cfg, _) = network_of(&["n1", "n2"]);
    let mut state = state_for(0, &secrets, cfg);
    let stranger = EntitySecret::generate().unwrap();
    let outsider = NodeIdentity {
        id: "outsider".to_string(),
        pubkey: stranger.get_pubkey(),
        dp_pubkey: String::new(),
    };
    assert!(!state.register_link(5, None, outsider));
    assert!(state.get_link(5).is_none());
}

#[test]
fn registry_refuses_duplicate_link_id() {
    let (secrets, cfg, _) = network_of(&["n1", "n2"]);
    let mut state = state_for(0, &secrets, cfg);
    let peer = NodeIdentity {
        id: "n2".to_string(),
        pubkey: secrets[1].get_pubkey(),
        dp_pubkey: String::new(),
    };
    assert!(state.register_link(5, None, peer.duplicate()));
    assert!(!state.register_link(5, None, peer));
    assert!(state.get_link(5).is_some());
}

#[test]
fn central_config_validates_under_its_own_root() {
    let root = EntitySecret::generate().unwrap();
    let cfg = nylon::config::initial_central_config(root.get_pubkey());
    let claim_bytes = b"roster serialisation".to_vec();
    let signature = root.sign(&claim_bytes).expect("signing");
    assert!(validate_central_config(&cfg, &claim_bytes, &signature, 0, 5000, 100).is_ok());
}

#[test]
fn central_config_resigned_by_other_root_is_refused() {
    // the roster names one root; a claim signed by a different root
    // must not validate
    let real_root = EntitySecret::generate().unwrap();
    let impostor = EntitySecret::generate().unwrap();
    let cfg = nylon::config::initial_central_config(real_root.get_pubkey());
    let claim_bytes = b"roster serialisation".to_vec();
    let signature = impostor.sign(&claim_bytes).expect("signing");
    let r = validate_central_config(&cfg, &claim_bytes, &signature, 0, 5000, 100);
    assert!(matches!(r, Err(ValidationError::InvalidSignature)));
}

#[test]
fn central_config_outside_window_is_inactive() {
    let root = EntitySecret::generate().unwrap();
    let cfg = nylon::config::initial_central_config(root.get_pubkey());
    let claim_bytes = b"roster serialisation".to_vec();
    let signature = root.sign(&claim_bytes).expect("signing");
    let r = validate_central_config(&cfg, &claim_bytes, &signature, 0, 5000, 6000);
    assert!(matches!(r, Err(ValidationError::Inactive)));
}

#[test]
fn resigning_bumps_version_and_keeps_roster() {
    let root = EntitySecret::generate().unwrap();
    let mut cfg = nylon::config::initial_central_config(root.get_pubkey());
    assert_eq!(cfg.version, 0);
    nylon::config::bump_central_version(&mut cfg);
    assert_eq!(cfg.version, 1);
    assert!(cfg.nodes.is_empty());
}

#[test]
fn default_node_config_uses_standard_ports() {
    let secret = EntitySecret::generate().unwrap();
    let ns = NodeSecret { wg_privkey: "wg".to_string(), node_privkey: secret };
    let nc = nylon::config::default_node_config(ns);
    assert_eq!(nc.node_sock.addr_ctl.port, 59162);
    assert_eq!(nc.node_sock.addr_dg.port, 59162);
    assert_eq!(nc.node_sock.addr_dp.port, 59163);
    assert_eq!(nc.interface_name, "nylon");
}
