use clawmesh::gossip::gossip_pair;
use clawmesh::{
    AnnounceMessage, EventBus, GossipError, GossipMessage, GossipRouter, MeshRegistry, PeerStatus,
};

fn make_registry(bus: &EventBus) -> MeshRegistry {
    MeshRegistry::new("mesh:test", bus.clone())
}

fn announce(id: &str) -> AnnounceMessage {
    AnnounceMessage {
        agent_id: format!("agent:{id}"),
        mesh_id: "mesh:test".into(),
        display_name: id.to_string(),
        status: PeerStatus::Available,
        capabilities: vec!["announce".into()],
    }
}

fn send_pull(router: &GossipRouter, peer: &str) -> Result<(), GossipError> {
    let msg = router.initiate_pull(peer)?;
    let sent = router.link(peer).unwrap().try_send(msg).is_ok();
    GossipRouter::send_outcome(peer, sent)
}

fn handle(router: &mut GossipRouter, from: &str, msg: GossipMessage) -> Result<(), GossipError> {
    match router.handle_message(from, msg)? {
        Some(answer) => {
            let sent = router.link(from).unwrap().try_send(answer).is_ok();
            GossipRouter::send_outcome(from, sent)
        }
        None => Ok(()),
    }
}

#[test]
fn gossip_pair_sync() {
    let bus = EventBus::default();
    let mut reg_a = make_registry(&bus);
    let mut reg_b = make_registry(&bus);
    reg_a.handle_announce(announce("alice"));
    reg_a.handle_announce(announce("bob"));
    reg_b.handle_announce(announce("alice"));
    let (mut router_a, mut rx_from_b, mut router_b, mut rx_from_a) =
        gossip_pair("node-a", reg_a, "node-b", reg_b, bus);
    send_pull(&router_b, "node-a").unwrap();
    let msg = rx_from_a.try_recv().unwrap();
    assert!(matches!(msg, GossipMessage::Pull(_)));
    handle(&mut router_a, "node-b", msg).unwrap();
    let msg = rx_from_b.try_recv().unwrap();
    assert!(matches!(msg, GossipMessage::Push(_)));
    handle(&mut router_b, "node-a", msg).unwrap();
    assert_eq!(router_b.registry().peer_count(), 2);
    assert!(router_b.registry().get_peer("agent:bob").is_some());
}

#[test]
fn initiate_pull_all() {
    let bus = EventBus::default();
    let reg = make_registry(&bus);
    let mut router = GossipRouter::new("node-a", reg, bus.clone());
    let _rx1 = router.add_peer("node-b", 16);
    let _rx2 = router.add_peer("node-c", 16);
    let results = router.initiate_pull_all();
    assert_eq!(results.len(), 2);
    for (peer, msg) in results {
        let sent = router.link(&peer).unwrap().try_send(msg).is_ok();
        assert!(GossipRouter::send_outcome(&peer, sent).is_ok());
    }
}

#[test]
fn pull_to_unknown_peer_fails() {
    let bus = EventBus::default();
    let reg = make_registry(&bus);
    let router = GossipRouter::new("node-a", reg, bus);
    let err = router.initiate_pull("node-unknown").unwrap_err();
    assert!(matches!(err, GossipError::PeerNotConnected(_)));
}

#[test]
fn add_and_remove_peer() {
    let bus = EventBus::default();
    let reg = make_registry(&bus);
    let mut router = GossipRouter::new("node-a", reg, bus);
    let _rx = router.add_peer("node-b", 16);
    assert_eq!(router.peer_count(), 1);
    assert!(router.remove_peer("node-b"));
    assert_eq!(router.peer_count(), 0);
    assert!(!router.remove_peer("node-b"));
}

#[test]
fn bidirectional_gossip_sync() {
    let bus = EventBus::default();
    let mut reg_a = make_registry(&bus);
    let mut reg_b = make_registry(&bus);
    reg_a.handle_announce(announce("alice"));
    reg_b.handle_announce(announce("bob"));
    let (mut router_a, mut rx_from_b, mut router_b, mut rx_from_a) =
        gossip_pair("node-a", reg_a, "node-b", reg_b, bus);
    send_pull(&router_b, "node-a").unwrap();
    let msg = rx_from_a.try_recv().unwrap();
    handle(&mut router_a, "node-b", msg).unwrap();
    let msg = rx_from_b.try_recv().unwrap();
    handle(&mut router_b, "node-a", msg).unwrap();
    assert_eq!(router_b.registry().peer_count(), 2);
    send_pull(&router_a, "node-b").unwrap();
    let msg = rx_from_b.try_recv().unwrap();
    handle(&mut router_b, "node-a", msg).unwrap();
    let msg = rx_from_a.try_recv().unwrap();
    handle(&mut router_a, "node-b", msg).unwrap();
    assert_eq!(router_a.registry().peer_count(), 2);
    assert!(router_a.registry().get_peer("agent:bob").is_some());
    assert!(router_b.registry().get_peer("agent:alice").is_some());
}

#[test]
fn empty_registries_gossip_noop() {
    let bus = EventBus::default();
    let reg_a = make_registry(&bus);
    let reg_b = make_registry(&bus);
    let (router_a, mut rx_from_b, mut router_b, mut rx_from_a) =
        gossip_pair("node-a", reg_a, "node-b", reg_b, bus);
    send_pull(&router_a, "node-b").unwrap();
    let msg = rx_from_b.try_recv().unwrap();
    assert!(matches!(msg, GossipMessage::Pull(ref p) if p.digests.is_empty()));
    handle(&mut router_b, "node-a", msg).unwrap();
    let msg = rx_from_a.try_recv().unwrap();
    match &msg {
        GossipMessage::Push(push) => assert!(push.entries.is_empty()),
        _ => panic!("expected Push"),
    }
}

#[test]
fn answers_need_a_connected_peer() {
    let bus = EventBus::default();
    let reg = make_registry(&bus);
    let mut router = GossipRouter::new("node-a", reg, bus);
    assert_eq!(router.node_id(), "node-a");
    let pull = clawmesh::discovery::GossipPull { from: "node-z".into(), digests: vec![] };
    let err = router.handle_message("node-z", GossipMessage::Pull(pull)).unwrap_err();
    assert_eq!(err.to_string(), "gossip peer not connected: node-z");
    let failed = GossipRouter::send_outcome("node-z", false).unwrap_err();
    assert_eq!(failed.to_string(), "failed to send gossip message to peer: node-z");
}

#[test]
fn pulls_carry_the_digest_of_the_registry() {
    let bus = EventBus::default();
    let mut router = GossipRouter::new("node-a", make_registry(&bus), bus);
    router.registry_mut().handle_announce(announce("alice"));
    let _rx = router.add_peer("node-b", 1);
    match router.initiate_pull("node-b").unwrap() {
        GossipMessage::Pull(pull) => {
            assert_eq!(pull.from, "node-a");
            assert_eq!(pull.digests.len(), 1);
            assert_eq!(pull.digests[0].agent_id, "agent:alice");
        }
        _ => panic!("expected Pull"),
    }
}
