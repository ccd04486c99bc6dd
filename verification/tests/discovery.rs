use clawmesh::discovery::{GossipDigest, GossipPull, GossipPush};
use clawmesh::{
    AnnounceMessage, Event, EventBus, MeshRegistry, PeerQuery, PeerStatus, Timestamp,
};

fn make_registry() -> MeshRegistry {
    MeshRegistry::new("mesh:test", EventBus::default())
}

fn announce(id: &str) -> AnnounceMessage {
    AnnounceMessage {
        agent_id: format!("agent:{id}"),
        mesh_id: "mesh:test".into(),
        display_name: id.to_string(),
        status: PeerStatus::Available,
        capabilities: vec!["announce".into()],
    }
}

fn at(secs: i64) -> Timestamp {
    Timestamp::new(secs, 0).unwrap()
}

#[test]
fn announce_and_lookup() {
    let mut reg = make_registry();
    reg.handle_announce(announce("alice"));
    let peer = reg.get_peer("agent:alice").unwrap();
    assert_eq!(peer.display_name, "alice");
    assert_eq!(peer.status, PeerStatus::Available);
    assert_eq!(reg.peer_count(), 1);
}

#[test]
fn remove_peer() {
    let mut reg = make_registry();
    reg.handle_announce(announce("alice"));
    assert_eq!(reg.peer_count(), 1);
    let removed = reg.remove_peer("agent:alice");
    assert!(removed.is_some());
    assert_eq!(reg.peer_count(), 0);
}

#[test]
fn remove_nonexistent() {
    let mut reg = make_registry();
    assert!(reg.remove_peer("agent:ghost").is_none());
}

#[test]
fn list_and_filter() {
    let mut reg = make_registry();
    reg.handle_announce(announce("alice"));
    let mut msg = announce("bob");
    msg.status = PeerStatus::Busy;
    reg.handle_announce(msg);
    assert_eq!(reg.list_peers().len(), 2);
    assert_eq!(reg.peers_by_status(PeerStatus::Available).len(), 1);
    assert_eq!(reg.peers_by_status(PeerStatus::Busy).len(), 1);
}

#[test]
fn peers_by_capability() {
    let mut reg = make_registry();
    let mut alice = announce("alice");
    alice.capabilities = vec!["matchmaking".into(), "scheduling".into()];
    reg.handle_announce(alice);
    let mut bob = announce("bob");
    bob.capabilities = vec!["matchmaking".into()];
    reg.handle_announce(bob);
    let mut carol = announce("carol");
    carol.capabilities = vec!["scheduling".into()];
    reg.handle_announce(carol);
    assert_eq!(reg.peers_by_capability("matchmaking").len(), 2);
    assert_eq!(reg.peers_by_capability("scheduling").len(), 2);
    assert_eq!(reg.peers_by_capability("unknown").len(), 0);
}

#[test]
fn search_peers_combined() {
    let mut reg = make_registry();
    let mut alice = announce("alice");
    alice.capabilities = vec!["matchmaking".into()];
    reg.handle_announce(alice);
    let mut bob = announce("bob");
    bob.status = PeerStatus::Busy;
    bob.capabilities = vec!["matchmaking".into()];
    reg.handle_announce(bob);
    let query = PeerQuery {
        status: Some(PeerStatus::Available),
        capability: Some("matchmaking".into()),
        mesh_id: None,
    };
    let results = reg.search_peers(&query);
    assert_eq!(results.len(), 1);
    assert_eq!(results[0].agent_id, "agent:alice");
    let all = reg.search_peers(&PeerQuery::default());
    assert_eq!(all.len(), 2);
}

#[test]
fn events_emitted_on_announce() {
    let bus = EventBus::default();
    let mut rx = bus.subscribe();
    let mut reg = MeshRegistry::new("mesh:test", bus);
    reg.handle_announce(announce("alice"));
    let e1 = rx.try_recv().unwrap();
    assert!(matches!(e1, Event::PeerAnnounced { .. }));
    let e2 = rx.try_recv().unwrap();
    assert!(matches!(e2, Event::PatchReady { .. }));
}

#[test]
fn gossip_digest_roundtrip() {
    let mut reg_a = make_registry();
    reg_a.handle_announce(announce("alice"));
    reg_a.handle_announce(announce("bob"));
    let mut reg_b = make_registry();
    reg_b.handle_announce(announce("alice"));
    let pull = GossipPull { from: "node-b".into(), digests: reg_b.build_digest() };
    let push = reg_a.handle_gossip_pull(pull);
    assert_eq!(push.entries.len(), 1);
    assert_eq!(push.entries[0].agent_id, "agent:bob");
    reg_b.merge_gossip_push(push);
    assert_eq!(reg_b.peer_count(), 2);
    assert!(reg_b.get_peer("agent:bob").is_some());
}

#[test]
fn gossip_merge_only_newer() {
    let mut reg = make_registry();
    reg.handle_announce(announce("alice"));
    let original = reg.get_peer("agent:alice").unwrap();
    let mut stale = original.clone();
    stale.display_name = "stale-alice".into();
    stale.last_seen = Timestamp::parse("2020-01-01T00:00:00Z").unwrap();
    reg.merge_gossip_push(GossipPush { entries: vec![stale] });
    let current = reg.get_peer("agent:alice").unwrap();
    assert_eq!(current.display_name, "alice");
}

#[test]
fn departure_is_announced() {
    let bus = EventBus::default();
    let mut reg = MeshRegistry::new("mesh:test", bus.clone());
    reg.handle_announce(announce("alice"));
    let mut rx = bus.subscribe();
    reg.remove_peer("agent:alice");
    match rx.try_recv().unwrap() {
        Event::PeerDeparted { agent_id, mesh_id } => {
            assert_eq!(agent_id, "agent:alice");
            assert_eq!(mesh_id, "mesh:test");
        }
        _ => panic!("expected PeerDeparted"),
    }
    match rx.try_recv().unwrap() {
        Event::PatchReady { description, .. } => {
            assert_eq!(description, "peer agent:alice departed");
        }
        _ => panic!("expected PatchReady"),
    }
    reg.remove_peer("agent:alice");
    assert!(rx.try_recv().is_err());
}

#[test]
fn newer_entries_replace_older_ones() {
    let mut reg = make_registry();
    let old = reg.handle_announce_at(announce("alice"), at(10));
    let mut newer = old.clone();
    newer.display_name = "Alice".into();
    newer.last_seen = at(11);
    reg.merge_gossip_push(GossipPush { entries: vec![old, newer] });
    assert_eq!(reg.get_peer("agent:alice").unwrap().display_name, "Alice");
    assert_eq!(reg.peer_count(), 1);
}

#[test]
fn the_last_digest_of_a_peer_counts() {
    let mut reg = make_registry();
    reg.handle_announce_at(announce("alice"), at(10));
    let digest = |secs: i64| GossipDigest { agent_id: "agent:alice".into(), last_seen: at(secs) };
    let old_last = GossipPull { from: "n".into(), digests: vec![digest(10), digest(5)] };
    assert_eq!(reg.handle_gossip_pull(old_last).entries.len(), 1);
    let new_last = GossipPull { from: "n".into(), digests: vec![digest(5), digest(10)] };
    assert!(reg.handle_gossip_pull(new_last).entries.is_empty());
}

#[test]
fn a_round_catches_up_without_losing_anything() {
    let mut a = make_registry();
    let mut b = make_registry();
    a.handle_announce_at(announce("alice"), at(10));
    a.handle_announce_at(announce("bob"), at(5));
    b.handle_announce_at(announce("bob"), at(7));
    b.handle_announce_at(announce("carol"), at(1));
    let push = a.handle_gossip_pull(GossipPull { from: "b".into(), digests: b.build_digest() });
    assert_eq!(push.entries.len(), 1);
    b.merge_gossip_push(push);
    assert_eq!(b.peer_count(), 3);
    assert_eq!(b.get_peer("agent:alice").unwrap().last_seen, at(10));
    assert_eq!(b.get_peer("agent:bob").unwrap().last_seen, at(7));
    assert_eq!(b.get_peer("agent:carol").unwrap().last_seen, at(1));
}

#[test]
fn search_by_mesh() {
    let mut reg = make_registry();
    let mut msg = announce("alice");
    msg.mesh_id = "mesh:far".into();
    reg.handle_announce(msg);
    reg.handle_announce(announce("bob"));
    let query = PeerQuery { status: None, capability: None, mesh_id: Some("mesh:far".into()) };
    let found = reg.search_peers(&query);
    assert_eq!(found.len(), 1);
    assert_eq!(found[0].agent_id, "agent:alice");
}

#[test]
fn hearing_again_is_silent() {
    let bus = EventBus::default();
    let mut reg = MeshRegistry::new("mesh:test", bus.clone());
    let mut source = make_registry();
    let entry = source.handle_announce_at(announce("alice"), at(3));
    let push = GossipPush { entries: vec![entry] };
    reg.merge_gossip_push(push.clone());
    let mut rx = bus.subscribe();
    reg.merge_gossip_push(push);
    assert!(rx.try_recv().is_err());
    assert_eq!(reg.peer_count(), 1);
}
