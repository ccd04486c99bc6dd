use clawmesh::{
    AnnounceMessage, Double, MeshNode, PeerIdentity, PeerStatus, SkillRange, TimeWindow, Timestamp,
};
use serde_json::Value;

#[test]
fn node_subsystem_integration() {
    let mut node = MeshNode::new("agent:alice", "mesh:test").unwrap();
    node.registry_mut().handle_announce(AnnounceMessage {
        agent_id: "agent:bob".into(),
        mesh_id: "mesh:test".into(),
        display_name: "Bob".into(),
        status: PeerStatus::Available,
        capabilities: vec!["matchmaking".into()],
    });
    assert_eq!(node.registry().peer_count(), 1);
    node.rooms_mut().create_room("room:lobby", "Lobby", None);
    node.rooms_mut().join_room("room:lobby", "agent:alice").unwrap();
    assert_eq!(node.rooms().member_count("room:lobby").unwrap(), 1);
    node.state_mut().init_room("room:lobby");
    node.state_mut().set("room:lobby", "agent:alice", "status", Value::from("ready")).unwrap();
    let entry = node.state().get("room:lobby", "status").unwrap();
    assert_eq!(entry.value, Value::from("ready"));
    let _rx = node.relay_mut().register("agent:alice", 16);
    assert!(node.relay().is_registered("agent:alice"));
    let now = Timestamp::now();
    let req = node.matchmaker_mut().submit_request(
        "agent:alice",
        "golf-18",
        SkillRange {
            min: Double { bits: 50.0f64.to_bits() },
            max: Double { bits: 80.0f64.to_bits() },
        },
        TimeWindow { start: now, end: Timestamp::new(now.secs() + 7200, now.nanos()).unwrap() },
    );
    assert!(!req.request_id.is_empty());
}

#[test]
fn node_accessors() {
    let node = MeshNode::new("agent:alice", "mesh:golf-sim").unwrap();
    assert_eq!(node.agent_id(), "agent:alice");
    assert_eq!(node.mesh_id(), "mesh:golf-sim");
    assert!(!node.public_key().key.is_empty());
}

#[test]
fn node_sign() {
    let node = MeshNode::new("agent:alice", "mesh:test").unwrap();
    let sig = node.sign(b"hello mesh");
    assert!(!sig.sig.is_empty());
    let pk = node.public_key();
    clawmesh::crypto::verify(&pk, b"hello mesh", &sig).unwrap();
}

#[test]
fn a_node_keeps_its_identity() {
    let identity = PeerIdentity::generate().unwrap();
    let key = identity.public_key().key;
    let node = MeshNode::with_identity("agent:alice", "mesh:test", identity);
    assert_eq!(node.public_key().key, key);
    assert_eq!(node.auth().public_key().key, key);
    assert_eq!(node.gossip().node_id(), "agent:alice");
    assert_eq!(node.federation().local_mesh_id(), "mesh:test");
}

#[test]
fn all_parts_share_the_bus() {
    let mut node = MeshNode::new("agent:alice", "mesh:test").unwrap();
    let mut rx = node.bus().subscribe();
    node.rooms_mut().create_room("r", "R", None);
    node.rooms_mut().join_room("r", "a").unwrap();
    node.federation_mut().link_mesh("mesh:b", None, 1).unwrap();
    assert!(rx.try_recv().is_ok());
    assert!(rx.try_recv().is_ok());
    assert!(rx.try_recv().is_ok());
    assert!(rx.try_recv().is_err());
}
