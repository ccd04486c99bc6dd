use base64::engine::general_purpose::STANDARD as BASE64;
use base64::Engine;
use clawmesh::discovery::GossipPull;
use clawmesh::endpoints::{
    apply_delta, auth_hello, auth_respond, confirm_schedule, create_federation_link, create_room,
    decline_schedule, federation_status, find_matches, get_match_request, get_offer, get_snapshot,
    get_state, gossip_exchange, health, join_room, list_authenticated_peers, list_federation_links,
    list_match_requests, list_offers, list_peers, list_rooms, list_schedules, list_state,
    propose_schedule, relay_signal, relay_status, restore_snapshot, room_members, search_peers,
    set_state, submit_match_request, submit_offer, withdraw_offer,
};
use clawmesh::gateway::{
    dispatch_intent, dispatch_intent_with, federation_dispatch, federation_dispatch_at,
    federation_forwarded, federation_relay, federation_relay_at, find_fault, read_announcement,
    route_envelope, route_envelope_at, Delivery, Envelope, EnvelopeSender, Intent, Policy,
    Readings, RelayStep, Status,
};
use clawmesh::json::Payload;
use clawmesh::{
    AuthHello, AuthResponse, Double, FederationEnvelope, GossipMessage, MeshNode, PeerIdentity,
    PeerStatus, SessionOffer, SignalMessage, SkillRange, SlotState, StateDelta, TimeWindow,
    Timestamp,
};
use serde_json::Value;

fn test_node() -> MeshNode {
    MeshNode::new("node-test", "mesh-test").unwrap()
}

fn object(members: Vec<(&str, Value)>) -> Value {
    Value::Object(members.into_iter().map(|(k, v)| (k.to_string(), v)).collect())
}

fn text(s: &str) -> Value {
    Value::from(s)
}

fn number(x: f64) -> Value {
    Value::from(x)
}

fn list(items: Vec<&str>) -> Value {
    Value::Array(items.into_iter().map(text).collect())
}

fn time(s: &str) -> Timestamp {
    Timestamp::parse(s).unwrap()
}

fn announcement(name: &str, supports: Vec<&str>, status: &str) -> Value {
    object(vec![
        ("display_name", text(name)),
        ("supports", list(supports)),
        ("status", text(status)),
    ])
}

fn make_envelope(intent: Intent, policy: Policy, payload: Value) -> Envelope {
    Envelope {
        schema_version: "0.1".into(),
        intent,
        capability: "matchmaking".into(),
        policy,
        timestamp: time("2026-02-20T12:00:00Z"),
        sender: EnvelopeSender { agent_id: "agent-alice".into(), mesh_id: "mesh-test".into() },
        payload,
        signature: None,
        signing_key: None,
        expiry: None,
    }
}

fn announce_x() -> Envelope {
    make_envelope(Intent::Announce, Policy::Public, announcement("X", vec![], "available"))
}

fn readings(id: &str, secs: i64) -> Readings {
    let t = |n: i64| Timestamp::new(secs + n, 0).unwrap();
    Readings { id: id.to_string(), first: t(1), second: t(2), made: t(3) }
}

fn skills() -> SkillRange {
    SkillRange {
        min: Double { bits: 50.0f64.to_bits() },
        max: Double { bits: 80.0f64.to_bits() },
    }
}

fn window() -> TimeWindow {
    TimeWindow { start: time("2026-02-20T14:00:00Z"), end: time("2026-02-20T16:00:00Z") }
}

#[test]
fn health_check() {
    let body = health();
    assert_eq!(body.status, "ok");
    assert_eq!(body.service, "clawmesh-gateway");
}

#[test]
fn envelope_announce_accepted() {
    let mut node = test_node();
    let envelope = make_envelope(
        Intent::Announce,
        Policy::Public,
        announcement("Alice", vec!["matchmaking"], "available"),
    );
    let (status, body) = route_envelope(&mut node, &envelope).unwrap();
    assert_eq!(status.code(), 202);
    assert_eq!(body.status, "accepted");
    assert_eq!(body.intent, Intent::Announce);
}

#[test]
fn envelope_registers_peer() {
    let mut node = test_node();
    let envelope = make_envelope(
        Intent::Announce,
        Policy::Public,
        announcement("Bob", vec!["matchmaking"], "busy"),
    );
    let (status, _) = route_envelope(&mut node, &envelope).unwrap();
    assert_eq!(status, Status::Accepted);
    let peers = list_peers(&node);
    assert_eq!(peers.len(), 1);
    assert_eq!(peers[0].agent_id, "agent-alice");
    assert_eq!(peers[0].display_name, "Bob");
    assert_eq!(peers[0].status, PeerStatus::Busy);
}

#[test]
fn envelope_request_match_accepted() {
    let mut node = test_node();
    let envelope = make_envelope(
        Intent::RequestMatch,
        Policy::Public,
        object(vec![
            ("game", text("golf-18")),
            ("skill_range", object(vec![("min", number(50.0)), ("max", number(80.0))])),
            (
                "time_window",
                object(vec![
                    ("start", text("2026-02-20T14:00:00Z")),
                    ("end", text("2026-02-20T16:00:00Z")),
                ]),
            ),
        ]),
    );
    let (status, body) = route_envelope(&mut node, &envelope).unwrap();
    assert_eq!(status, Status::Accepted);
    assert_eq!(body.intent, Intent::RequestMatch);
    let requests = list_match_requests(&node);
    assert_eq!(requests.len(), 1);
    assert_eq!(requests[0].game, "golf-18");
    assert_eq!(requests[0].skill_range, skills());
    assert_eq!(requests[0].time_window, window());
}

#[test]
fn envelope_schedule_accepted() {
    let mut node = test_node();
    let envelope = make_envelope(
        Intent::Schedule,
        Policy::Public,
        object(vec![
            ("slot_start", text("2026-02-20T14:00:00Z")),
            ("slot_end", text("2026-02-20T16:00:00Z")),
            ("state", text("proposed")),
        ]),
    );
    let (status, body) = route_envelope(&mut node, &envelope).unwrap();
    assert_eq!(status, Status::Accepted);
    assert_eq!(body.intent, Intent::Schedule);
}

#[test]
fn envelope_offer_accepted() {
    let mut node = test_node();
    let envelope = make_envelope(
        Intent::Offer,
        Policy::Public,
        object(vec![
            ("offer_id", text("offer-1")),
            ("summary", text("Join my golf round")),
            ("expires_at", text("2026-02-21T00:00:00Z")),
        ]),
    );
    let (status, body) = route_envelope(&mut node, &envelope).unwrap();
    assert_eq!(status, Status::Accepted);
    assert_eq!(body.intent, Intent::Offer);
}

#[test]
fn envelope_rejects_bad_schema_version() {
    let mut node = test_node();
    let mut envelope = announce_x();
    envelope.schema_version = "999.0".into();
    let failure = route_envelope(&mut node, &envelope).unwrap_err();
    assert_eq!(failure.status.code(), 400);
    assert_eq!(failure.body.error, "invalid_schema_version");
    assert_eq!(failure.body.detail, "unsupported schema_version '999.0', expected '0.1'");
}

#[test]
fn policy_mesh_only_wrong_mesh_rejected() {
    let mut node = test_node();
    let mut envelope = announce_x();
    envelope.policy = Policy::MeshOnly;
    envelope.sender.mesh_id = "mesh-other".into();
    let failure = route_envelope(&mut node, &envelope).unwrap_err();
    assert_eq!(failure.status.code(), 403);
    assert_eq!(failure.body.error, "policy_violation");
    assert_eq!(
        failure.body.detail,
        "mesh-only policy: sender mesh 'mesh-other' does not match gateway mesh 'mesh-test'"
    );
    assert!(list_peers(&node).is_empty());
}

#[test]
fn policy_mesh_only_correct_mesh_accepted() {
    let mut node = test_node();
    let mut envelope = announce_x();
    envelope.policy = Policy::MeshOnly;
    let (status, _) = route_envelope(&mut node, &envelope).unwrap();
    assert_eq!(status, Status::Accepted);
}

#[test]
fn policy_private_unregistered_peer_rejected() {
    let mut node = test_node();
    let mut envelope = announce_x();
    envelope.policy = Policy::Private;
    let failure = route_envelope(&mut node, &envelope).unwrap_err();
    assert_eq!(failure.status, Status::Forbidden);
    assert_eq!(failure.body.error, "policy_violation");
    assert_eq!(
        failure.body.detail,
        "private policy: sender 'agent-alice' is not a registered peer"
    );
}

#[test]
fn policy_private_registered_peer_accepted() {
    let mut node = test_node();
    let announce =
        make_envelope(Intent::Announce, Policy::Public, announcement("Alice", vec![], "available"));
    route_envelope(&mut node, &announce).unwrap();
    let private_env = make_envelope(
        Intent::Announce,
        Policy::Private,
        announcement("Alice v2", vec!["chat"], "busy"),
    );
    let (status, _) = route_envelope(&mut node, &private_env).unwrap();
    assert_eq!(status, Status::Accepted);
}

#[test]
fn search_peers_by_status() {
    let mut node = test_node();
    let env1 =
        make_envelope(Intent::Announce, Policy::Public, announcement("Alice", vec![], "available"));
    route_envelope(&mut node, &env1).unwrap();
    let mut env2 =
        make_envelope(Intent::Announce, Policy::Public, announcement("Bob", vec![], "busy"));
    env2.sender.agent_id = "agent-bob".into();
    route_envelope(&mut node, &env2).unwrap();
    let peers = search_peers(&node, None, Some("busy".into()), None);
    assert_eq!(peers.len(), 1);
    assert_eq!(peers[0].agent_id, "agent-bob");
}

#[test]
fn signal_relay_status() {
    let node = test_node();
    let body = relay_status(&node);
    assert_eq!(body.status, "ok");
    assert_eq!(body.registered_peers, 0);
}

#[test]
fn signal_relay_to_unknown_peer() {
    let mut node = test_node();
    let msg = SignalMessage::Offer(SessionOffer {
        from: "agent-alice".into(),
        to: "agent-nobody".into(),
        sdp: "v=0\r\n...".into(),
    });
    let failure = relay_signal(&mut node, msg).unwrap_err();
    assert_eq!(failure.status.code(), 404);
    assert_eq!(failure.body.error, "relay_failed");
}

#[test]
fn gossip_status() {
    let node = test_node();
    let body = clawmesh::endpoints::gossip_status(&node);
    assert_eq!(body.node_id, "node-test");
    assert_eq!(body.connected_peers, 0);
    assert_eq!(body.registry_size, 0);
}

#[test]
fn gossip_pull_exchange() {
    let mut node = test_node();
    let pull = GossipMessage::Pull(GossipPull { from: "node-remote".into(), digests: vec![] });
    let body = gossip_exchange(&mut node, pull);
    assert_eq!(body.status, "ok");
    assert!(matches!(body.message, Some(GossipMessage::Push(_))));
}

#[test]
fn create_and_list_rooms() {
    let mut node = test_node();
    let (status, body) = create_room(&mut node, "lobby", "Lobby", None).unwrap();
    assert_eq!(status, Status::Created);
    assert_eq!(body.status, "created");
    let rooms = list_rooms(&node);
    assert_eq!(rooms.len(), 1);
    assert_eq!(rooms[0].room_id, "lobby");
}

#[test]
fn duplicate_room_returns_conflict() {
    let mut node = test_node();
    create_room(&mut node, "lobby", "Lobby", None).unwrap();
    let failure = create_room(&mut node, "lobby", "Lobby", None).unwrap_err();
    assert_eq!(failure.status.code(), 409);
    assert_eq!(failure.body.detail, "room lobby already exists");
}

#[test]
fn join_and_list_members() {
    let mut node = test_node();
    create_room(&mut node, "test-room", "Test", None).unwrap();
    assert_eq!(join_room(&mut node, "test-room", "agent-alice").unwrap(), Status::Success);
    let members = room_members(&node, "test-room").unwrap();
    assert_eq!(members.len(), 1);
    assert_eq!(members[0], "agent-alice");
}

#[test]
fn leave_room() {
    let mut node = test_node();
    create_room(&mut node, "test-room", "Test", None).unwrap();
    join_room(&mut node, "test-room", "agent-alice").unwrap();
    let status =
        clawmesh::endpoints::leave_room(&mut node, "test-room", "agent-alice").unwrap();
    assert_eq!(status, Status::Success);
    assert!(room_members(&node, "test-room").unwrap().is_empty());
}

#[test]
fn main_join_nonexistent_room() {
    let mut node = test_node();
    let failure = join_room(&mut node, "no-such-room", "agent-alice").unwrap_err();
    assert_eq!(failure.status, Status::BadRequest);
}

#[test]
fn set_and_get_state() {
    let mut node = test_node();
    create_room(&mut node, "state-room", "S", None).unwrap();
    let (status, _) =
        set_state(&mut node, "state-room", "agent-alice", "score", Value::from(42)).unwrap();
    assert_eq!(status.code(), 200);
    let entry = get_state(&node, "state-room", "score").unwrap();
    assert_eq!(entry.key, "score");
    assert_eq!(entry.value, Value::from(42));
}

#[test]
fn list_state_entries() {
    let mut node = test_node();
    create_room(&mut node, "state-room", "S", None).unwrap();
    for key in ["a", "b"] {
        set_state(&mut node, "state-room", "agent-alice", key, Value::from(key)).unwrap();
    }
    assert_eq!(list_state(&node, "state-room").unwrap().len(), 2);
}

#[test]
fn state_snapshot_roundtrip() {
    let mut node = test_node();
    create_room(&mut node, "snap-room", "Snap", None).unwrap();
    set_state(&mut node, "snap-room", "agent-alice", "x", Value::from(1)).unwrap();
    let snapshot = get_snapshot(&node, "snap-room").unwrap();
    assert_eq!(snapshot.room_id, "snap-room");
    assert!(snapshot.entries.contains_key("x"));
    let mut other = test_node();
    assert_eq!(restore_snapshot(&mut other, "snap-room", snapshot).unwrap(), vec!["x"]);
    assert_eq!(get_state(&other, "snap-room", "x").unwrap().value, Value::from(1));
}

#[test]
fn submit_and_list_match_requests() {
    let mut node = test_node();
    let (status, created) =
        submit_match_request(&mut node, "agent-alice", "golf-18", skills(), window());
    assert_eq!(status, Status::Created);
    assert!(!created.request_id.is_empty());
    assert_eq!(list_match_requests(&node).len(), 1);
}

#[test]
fn get_match_request_not_found() {
    let node = test_node();
    let failure = get_match_request(&node, "nonexistent").unwrap_err();
    assert_eq!(failure.status, Status::NotFound);
    assert_eq!(failure.body.detail, "match request nonexistent not found");
}

#[test]
fn cancel_match_request() {
    let mut node = test_node();
    let (_, created) =
        submit_match_request(&mut node, "agent-alice", "golf-18", skills(), window());
    assert_eq!(get_match_request(&node, &created.request_id).unwrap().len(), 1);
    let cancelled =
        clawmesh::endpoints::cancel_match_request(&mut node, &created.request_id).unwrap();
    assert_eq!(cancelled.request_id, created.request_id);
    assert!(list_match_requests(&node).is_empty());
}

#[test]
fn find_matches_between_compatible_requests() {
    let mut node = test_node();
    for agent in ["agent-alice", "agent-bob"] {
        submit_match_request(&mut node, agent, "golf-18", skills(), window());
    }
    let requests = list_match_requests(&node);
    let alice = requests.iter().find(|r| r.agent_id == "agent-alice").unwrap();
    let matches = find_matches(&node, &alice.request_id).unwrap();
    assert!(!matches.is_empty());
}

#[test]
fn propose_confirm_decline_schedule() {
    let mut node = test_node();
    let (status, slot) =
        propose_schedule(&mut node, "agent-alice", window().start, window().end);
    assert_eq!(status, Status::Created);
    assert_eq!(slot.state, SlotState::Proposed);
    let slot = confirm_schedule(&mut node, &slot.schedule_id).unwrap();
    assert_eq!(slot.state, SlotState::Confirmed);
    let (_, slot2) = propose_schedule(&mut node, "agent-alice", window().start, window().end);
    let slot = decline_schedule(&mut node, &slot2.schedule_id).unwrap();
    assert_eq!(slot.state, SlotState::Declined);
}

#[test]
fn list_schedules_with_agent_filter() {
    let mut node = test_node();
    propose_schedule(&mut node, "agent-alice", window().start, window().end);
    assert_eq!(list_schedules(&node, None).len(), 1);
    assert_eq!(list_schedules(&node, Some("agent-alice".into())).len(), 1);
    assert!(list_schedules(&node, Some("agent-nobody".into())).is_empty());
}

#[test]
fn submit_list_get_withdraw_offer() {
    let mut node = test_node();
    let (status, offer) = submit_offer(
        &mut node,
        "agent-alice",
        "offer-1",
        "Join my golf round",
        time("2030-12-31T23:59:59Z"),
    );
    assert_eq!(status, Status::Created);
    assert_eq!(offer.offer_id, "offer-1");
    assert_eq!(offer.summary, "Join my golf round");
    assert_eq!(list_offers(&node).len(), 1);
    assert_eq!(get_offer(&node, "offer-1").unwrap().offer_id, "offer-1");
    withdraw_offer(&mut node, "offer-1").unwrap();
    assert!(list_offers(&node).is_empty());
}

#[test]
fn get_nonexistent_offer() {
    let node = test_node();
    let failure = get_offer(&node, "nope").unwrap_err();
    assert_eq!(failure.status, Status::NotFound);
}

#[test]
fn e2e_golf_sim_workflow() {
    let mut node = test_node();
    let announce = make_envelope(
        Intent::Announce,
        Policy::Public,
        announcement("Alice", vec!["matchmaking"], "available"),
    );
    assert_eq!(route_envelope(&mut node, &announce).unwrap().0, Status::Accepted);
    let (status, _) = create_room(&mut node, "golf-lobby", "Golf Sim Lobby", Some(4)).unwrap();
    assert_eq!(status, Status::Created);
    assert_eq!(join_room(&mut node, "golf-lobby", "agent-alice").unwrap(), Status::Success);
    let (status, _) =
        set_state(&mut node, "golf-lobby", "agent-alice", "ready", Value::from(true)).unwrap();
    assert_eq!(status, Status::Success);
    let (status, _) =
        submit_match_request(&mut node, "agent-alice", "golf-18", skills(), window());
    assert_eq!(status, Status::Created);
    let (status, slot) =
        propose_schedule(&mut node, "agent-alice", window().start, window().end);
    assert_eq!(status, Status::Created);
    confirm_schedule(&mut node, &slot.schedule_id).unwrap();
    let (status, _) = submit_offer(
        &mut node,
        "agent-alice",
        "offer-golf-1",
        "18-hole round at Pebble Beach",
        time("2030-12-31T23:59:59Z"),
    );
    assert_eq!(status, Status::Created);
    assert_eq!(list_peers(&node).len(), 1);
    assert_eq!(list_rooms(&node).len(), 1);
    let offers = list_offers(&node);
    assert_eq!(offers.len(), 1);
    assert_eq!(offers[0].summary, "18-hole round at Pebble Beach");
}

#[test]
fn federation_status_returns_local_mesh() {
    let node = test_node();
    let body = federation_status(&node);
    assert_eq!(body.local_mesh_id, "mesh-test");
    assert_eq!(body.linked_meshes, 0);
}

#[test]
fn create_and_list_federation_links() {
    let mut node = test_node();
    let (status, body) =
        create_federation_link(&mut node, "mesh-remote".into(), Some("Remote Mesh".into()))
            .unwrap();
    assert_eq!(status, Status::Created);
    assert_eq!(body.status, "linked");
    assert_eq!(body.mesh_id, "mesh-remote");
    let links = list_federation_links(&node);
    assert_eq!(links.len(), 1);
    assert_eq!(links[0].mesh_id, "mesh-remote");
    assert_eq!(federation_status(&node).linked_meshes, 1);
}

#[test]
fn remove_federation_link() {
    let mut node = test_node();
    create_federation_link(&mut node, "mesh-remote".into(), None).unwrap();
    let body =
        clawmesh::endpoints::remove_federation_link(&mut node, "mesh-remote".into()).unwrap();
    assert_eq!(body.status, "unlinked");
    assert!(list_federation_links(&node).is_empty());
}

#[test]
fn duplicate_federation_link_returns_conflict() {
    let mut node = test_node();
    create_federation_link(&mut node, "mesh-remote".into(), None).unwrap();
    let failure = create_federation_link(&mut node, "mesh-remote".into(), None).unwrap_err();
    assert_eq!(failure.status, Status::Conflict);
    assert_eq!(failure.body.error, "federation_link_error");
}

#[test]
fn self_federation_link_returns_bad_request() {
    let mut node = test_node();
    let failure = create_federation_link(&mut node, "mesh-test".into(), None).unwrap_err();
    assert_eq!(failure.status, Status::BadRequest);
    assert_eq!(failure.body.error, "federation_link_error");
}

fn fed_envelope(target: &str, ttl: u8) -> FederationEnvelope {
    FederationEnvelope {
        source_mesh: "mesh-remote".into(),
        target_mesh: target.into(),
        envelope: Value::from("inner"),
        relayed_at: time("2026-02-20T12:00:00Z"),
        ttl,
    }
}

#[test]
fn federation_relay_accepts_envelope_for_local_mesh() {
    let mut node = test_node();
    create_federation_link(&mut node, "mesh-remote".into(), None).unwrap();
    let inner = make_envelope(
        Intent::Announce,
        Policy::Public,
        announcement("RemoteAlice", vec!["matchmaking"], "available"),
    );
    match federation_relay(&node, fed_envelope("mesh-test", 8)).unwrap() {
        RelayStep::Process(value) => assert_eq!(value, Value::from("inner")),
        _ => panic!("expected Process"),
    }
    let (status, body) = federation_dispatch(&mut node, Ok(inner)).unwrap();
    assert_eq!(status, Status::Accepted);
    assert_eq!(body.status, "accepted");
    assert_eq!(body.intent, Intent::Announce);
    let peers = list_peers(&node);
    assert_eq!(peers.len(), 1);
    assert_eq!(peers[0].display_name, "RemoteAlice");
}

#[test]
fn federation_relay_rejects_wrong_mesh() {
    let node = test_node();
    let failure = federation_relay(&node, fed_envelope("mesh-other", 8)).unwrap_err();
    assert_eq!(failure.status.code(), 421);
    assert_eq!(failure.body.error, "wrong_mesh");
    assert_eq!(
        failure.body.detail,
        "envelope targets mesh 'mesh-other', this node serves 'mesh-test'"
    );
}

#[test]
fn remove_nonexistent_federation_link_returns_not_found() {
    let mut node = test_node();
    let failure =
        clawmesh::endpoints::remove_federation_link(&mut node, "mesh-nope".into()).unwrap_err();
    assert_eq!(failure.status, Status::NotFound);
    assert_eq!(failure.body.error, "federation_unlink_error");
}

#[test]
fn expired_envelope_rejected() {
    let mut node = test_node();
    let mut envelope = announce_x();
    envelope.expiry = Some(time("2020-01-01T00:00:00Z"));
    let failure = route_envelope(&mut node, &envelope).unwrap_err();
    assert_eq!(failure.status.code(), 410);
    assert_eq!(failure.body.error, "envelope_expired");
    assert_eq!(failure.body.detail, "envelope expired at 2020-01-01T00:00:00+00:00");
}

#[test]
fn future_expiry_accepted() {
    let mut node = test_node();
    let mut envelope = announce_x();
    envelope.expiry = Some(time("2030-12-31T23:59:59Z"));
    let (status, _) = route_envelope(&mut node, &envelope).unwrap();
    assert_eq!(status, Status::Accepted);
}

#[test]
fn no_expiry_accepted() {
    let mut node = test_node();
    let (status, _) = route_envelope(&mut node, &announce_x()).unwrap();
    assert_eq!(status, Status::Accepted);
}

#[test]
fn auth_hello_returns_challenge() {
    let mut node = test_node();
    let identity = PeerIdentity::generate().unwrap();
    let hello = AuthHello { agent_id: "agent:carol".into(), public_key: identity.public_key() };
    let challenge = auth_hello(&mut node, hello).unwrap();
    assert!(!challenge.nonce.is_empty());
}

fn authenticate(node: &mut MeshNode, identity: &PeerIdentity, agent: &str) {
    let hello = AuthHello { agent_id: agent.into(), public_key: identity.public_key() };
    let challenge = auth_hello(node, hello).unwrap();
    let nonce_bytes = BASE64.decode(&challenge.nonce).unwrap();
    let response =
        AuthResponse { agent_id: agent.into(), signature: identity.sign(&nonce_bytes) };
    let body = auth_respond(node, response, &identity.public_key()).unwrap();
    assert_eq!(body.status, "authenticated");
    assert_eq!(body.agent_id, agent);
}

#[test]
fn auth_full_handshake() {
    let mut node = test_node();
    let identity = PeerIdentity::generate().unwrap();
    authenticate(&mut node, &identity, "agent:dave");
    let peers = list_authenticated_peers(&node);
    assert!(peers.iter().any(|p| p == "agent:dave"));
}

#[test]
fn purge_expired_returns_ok() {
    let mut node = test_node();
    let body = clawmesh::endpoints::purge_expired(&mut node);
    assert_eq!(body.status, "ok");
}

#[test]
fn bad_responses_are_refused() {
    let mut node = test_node();
    let identity = PeerIdentity::generate().unwrap();
    let response = AuthResponse { agent_id: "a".into(), signature: identity.sign(b"x") };
    let failure =
        auth_respond(&mut node, response.clone(), &identity.public_key()).unwrap_err();
    assert_eq!(failure.status, Status::BadRequest);
    let hello = AuthHello { agent_id: "a".into(), public_key: identity.public_key() };
    auth_hello(&mut node, hello).unwrap();
    let failure = auth_respond(&mut node, response, &identity.public_key()).unwrap_err();
    assert_eq!(failure.status.code(), 401);
    assert_eq!(failure.body.detail, "challenge-response verification failed");
    assert!(list_authenticated_peers(&node).is_empty());
}

#[test]
fn signatures_of_authenticated_senders_are_checked() {
    let mut node = test_node();
    let identity = PeerIdentity::generate().unwrap();
    let mut envelope = announce_x();
    let bytes = serde_json::to_vec(&envelope.payload).unwrap();
    assert_eq!(bytes, br#"{"display_name":"X","status":"available","supports":[]}"#);
    envelope.signature = Some("no signature".into());
    // The sender is not authenticated yet, so the signature is not checked.
    assert!(route_envelope(&mut node, &envelope).is_ok());
    authenticate(&mut node, &identity, "agent-alice");
    let failure = route_envelope(&mut node, &envelope).unwrap_err();
    assert_eq!(failure.status, Status::Unauthorized);
    assert_eq!(failure.body.error, "signature_invalid");
    assert_eq!(failure.body.detail, "envelope signature verification failed");
    envelope.signature = Some(identity.sign(&bytes).sig);
    assert!(route_envelope(&mut node, &envelope).is_ok());
    envelope.payload = announcement("Y", vec![], "available");
    assert!(route_envelope(&mut node, &envelope).is_err());
    envelope.signature = None;
    assert!(route_envelope(&mut node, &envelope).is_ok());
}

fn refused_field(node: &mut MeshNode, intent: Intent, payload: Value) -> String {
    let envelope = make_envelope(intent, Policy::Public, payload);
    let failure = route_envelope(node, &envelope).unwrap_err();
    assert_eq!(failure.status, Status::BadRequest);
    assert_eq!(failure.body.error, "invalid_payload");
    let federated = federation_dispatch(node, Ok(envelope)).unwrap_err();
    assert_eq!(federated.body.detail, failure.body.detail);
    failure.body.detail.replace("invalid payload field: ", "")
}

#[test]
fn invalid_announcements_are_refused() {
    let mut node = test_node();
    let name = || ("display_name", text("A"));
    let supports = || ("supports", list(vec!["a", "b"]));
    let status = || ("status", text("away"));
    let cases = vec![
        (Value::Null, "payload"),
        (object(vec![supports(), status()]), "display_name"),
        (object(vec![("display_name", text("")), supports(), status()]), "display_name"),
        (object(vec![("display_name", number(1.0)), supports(), status()]), "display_name"),
        (object(vec![name(), status()]), "supports"),
        (object(vec![name(), ("supports", text("a")), status()]), "supports"),
        (object(vec![name(), ("supports", list(vec!["a", "a"])), status()]), "supports"),
        (
            object(vec![name(), ("supports", Value::Array(vec![Value::Null])), status()]),
            "supports",
        ),
        (object(vec![name(), supports()]), "status"),
        (object(vec![name(), supports(), ("status", text("gone"))]), "status"),
        (object(vec![name(), supports(), status(), ("more", text("x"))]), "payload"),
    ];
    for (payload, field) in cases {
        assert_eq!(refused_field(&mut node, Intent::Announce, payload), field);
    }
    assert!(list_peers(&node).is_empty());
    let valid = object(vec![name(), supports(), status()]);
    route_envelope(&mut node, &make_envelope(Intent::Announce, Policy::Public, valid)).unwrap();
    let peer = &list_peers(&node)[0];
    assert_eq!(peer.capabilities, vec!["a", "b"]);
    assert_eq!(peer.status, PeerStatus::Away);
}

#[test]
fn invalid_requests_slots_and_offers_are_refused() {
    let mut node = test_node();
    let when = || text("2026-02-20T14:00:00Z");
    let range = || object(vec![("min", number(1.0)), ("max", Value::from(2))]);
    let times = || object(vec![("start", when()), ("end", when())]);
    let request = |game: Value, skills: Value, window: Value| {
        object(vec![("game", game), ("skill_range", skills), ("time_window", window)])
    };
    for (payload, field) in vec![
        (request(text(""), range(), times()), "game"),
        (request(text("g"), object(vec![("min", number(1.0))]), times()), "skill_range"),
        (request(text("g"), Value::Null, times()), "skill_range"),
        (
            request(
                text("g"),
                object(vec![("min", number(1.0)), ("max", number(2.0)), ("mid", number(1.5))]),
                times(),
            ),
            "skill_range",
        ),
        (
            request(text("g"), range(), object(vec![("start", when()), ("end", text("soon"))])),
            "time_window",
        ),
        (object(vec![("game", text("g"))]), "skill_range"),
    ] {
        assert_eq!(refused_field(&mut node, Intent::RequestMatch, payload), field);
    }
    let slot = |start: Value, end: Value, state: Value| {
        object(vec![("slot_start", start), ("slot_end", end), ("state", state)])
    };
    for (payload, field) in vec![
        (slot(text("x"), when(), text("proposed")), "slot_start"),
        (slot(when(), Value::Null, text("proposed")), "slot_end"),
        (slot(when(), when(), text("maybe")), "state"),
        (Value::Array(vec![]), "payload"),
    ] {
        assert_eq!(refused_field(&mut node, Intent::Schedule, payload), field);
    }
    let offer = |id: Value, summary: Value, expires: Value| {
        object(vec![("offer_id", id), ("summary", summary), ("expires_at", expires)])
    };
    for (payload, field) in vec![
        (offer(text(""), text("s"), when()), "offer_id"),
        (offer(text("o"), text(""), when()), "summary"),
        (offer(text("o"), text("s"), number(1.0)), "expires_at"),
    ] {
        assert_eq!(refused_field(&mut node, Intent::Offer, payload), field);
    }
    assert!(list_match_requests(&node).is_empty());
    assert!(list_schedules(&node, None).is_empty());
    let now = time("2026-02-20T12:00:00Z");
    let valid = request(text("g"), range(), times());
    let envelope = make_envelope(Intent::RequestMatch, Policy::Public, valid);
    route_envelope_at(&mut node, &envelope, now, readings("r1", 100)).unwrap();
    let request = &get_match_request(&node, "r1").unwrap()[0];
    assert_eq!(f64::from_bits(request.skill_range.max.bits), 2.0);
    assert_eq!(request.time_window.start, time("2026-02-20T14:00:00Z"));
    assert_eq!(request.created_at.secs(), 103);
}

#[test]
fn faults_are_found_in_contents() {
    let text = |s: &str| Payload::Text(s.to_string());
    let valid = Payload::Object(vec![
        ("status".into(), text("busy")),
        ("display_name".into(), text("A")),
        ("supports".into(), Payload::List(vec![])),
    ]);
    assert_eq!(find_fault(Intent::Announce, &valid), None);
    assert_eq!(find_fault(Intent::Offer, &valid), Some("payload"));
    let sender = EnvelopeSender { agent_id: "a".into(), mesh_id: "m".into() };
    let msg = read_announcement(&sender, &valid);
    assert_eq!(msg.agent_id, "a");
    assert_eq!(msg.display_name, "A");
    assert_eq!(msg.status, PeerStatus::Busy);
    assert_eq!(find_fault(Intent::Schedule, &Payload::Bool(true)), Some("payload"));
}

#[test]
fn dispatch_falls_back_on_defaults() {
    let mut node = test_node();
    let mut envelope = make_envelope(Intent::RequestMatch, Policy::Public, Value::Null);
    dispatch_intent_with(&mut node, &envelope, readings("r1", 100));
    let request = &get_match_request(&node, "r1").unwrap()[0];
    assert_eq!(f64::from_bits(request.skill_range.min.bits), 0.0);
    assert_eq!(f64::from_bits(request.skill_range.max.bits), 100.0);
    assert_eq!(request.time_window.start.secs(), 101);
    assert_eq!(request.time_window.end.secs(), 102);
    envelope.intent = Intent::Announce;
    assert_eq!(dispatch_intent(&mut node, &envelope).route, "announce_router");
    assert_eq!(list_peers(&node)[0].display_name, "unknown");
    assert!(node.relay().is_registered("agent-alice"));
}

#[test]
fn schedules_can_be_settled_at_once() {
    let mut node = test_node();
    let now = time("2026-02-20T12:00:00Z");
    for (id, state, expected) in [
        ("1", "confirmed", SlotState::Confirmed),
        ("2", "declined", SlotState::Declined),
        ("3", "proposed", SlotState::Proposed),
    ] {
        let payload = object(vec![
            ("slot_start", text("2026-02-20T14:00:00Z")),
            ("slot_end", text("2026-02-20T16:00:00Z")),
            ("state", text(state)),
        ]);
        let envelope = make_envelope(Intent::Schedule, Policy::Public, payload);
        let (_, body) =
            route_envelope_at(&mut node, &envelope, now, readings(id, 0)).unwrap();
        assert_eq!(body.route, "schedule_router");
        assert_eq!(node.matchmaker().get_slot(id).unwrap().state, expected);
    }
}

#[test]
fn expired_federated_envelopes_are_refused() {
    let mut node = test_node();
    let mut envelope = announce_x();
    envelope.expiry = Some(time("2020-01-01T00:00:00Z"));
    let failure = federation_dispatch(&mut node, Ok(envelope)).unwrap_err();
    assert_eq!(failure.status, Status::Gone);
    assert_eq!(failure.body.error, "envelope_expired");
    assert!(list_peers(&node).is_empty());
    let mut fresh = announce_x();
    fresh.expiry = Some(time("2020-01-01T00:00:00Z"));
    let now = time("2019-01-01T00:00:00Z");
    assert!(federation_dispatch_at(&mut node, Ok(fresh), now, readings("i", 0)).is_ok());
}

#[test]
fn refusals_come_in_order() {
    let mut node = test_node();
    let mut envelope = announce_x();
    envelope.schema_version = "0.2".into();
    envelope.expiry = Some(time("2020-01-01T00:00:00Z"));
    envelope.policy = Policy::Private;
    assert_eq!(route_envelope(&mut node, &envelope).unwrap_err().status, Status::BadRequest);
    envelope.schema_version = "0.1".into();
    assert_eq!(route_envelope(&mut node, &envelope).unwrap_err().status, Status::Gone);
    envelope.expiry = None;
    assert_eq!(route_envelope(&mut node, &envelope).unwrap_err().status, Status::Forbidden);
}

#[test]
fn foreign_envelopes_go_on_with_one_hop_less() {
    let mut node = test_node();
    create_federation_link(&mut node, "mesh-other".into(), None).unwrap();
    let now = time("2026-02-20T13:00:00Z");
    match federation_relay_at(&node, fed_envelope("mesh-other", 3), now).unwrap() {
        RelayStep::Forward { target, envelope } => {
            assert_eq!(target, "mesh-other");
            assert_eq!(envelope.ttl, 2);
            assert_eq!(envelope.relayed_at, now);
            // No one holds the receiving half.
            assert!(node.federation().link(&target).unwrap().try_send(envelope).is_err());
            let failure = federation_forwarded(&target, Delivery::Closed).unwrap_err();
            assert_eq!(failure.status.code(), 502);
            assert_eq!(
                failure.body.detail,
                "failed to relay envelope to mesh mesh-other: channel closed"
            );
        }
        _ => panic!("expected Forward"),
    }
    let (status, body) = federation_forwarded("mesh-other", Delivery::Sent).unwrap();
    assert_eq!(status, Status::Accepted);
    assert_eq!(body.status, "forwarded");
    assert_eq!(body.route, "federation_forward");
    let failure = federation_forwarded("mesh-other", Delivery::NoLink).unwrap_err();
    assert_eq!(failure.body.detail, "mesh link not found: mesh-other");
    let failure = federation_relay_at(&node, fed_envelope("mesh-other", 0), now).unwrap_err();
    assert_eq!(failure.status, Status::BadGateway);
    assert_eq!(failure.body.detail, "envelope TTL expired (loops prevented)");
    let failure = federation_relay_at(&node, fed_envelope("mesh-test", 0), now).unwrap_err();
    assert_eq!(failure.status, Status::MisdirectedRequest);
}

#[test]
fn unreadable_inner_envelopes_are_refused() {
    let mut node = test_node();
    let failure = federation_dispatch(&mut node, Err("no".into())).unwrap_err();
    assert_eq!(failure.status, Status::BadRequest);
    assert_eq!(failure.body.error, "invalid_federated_envelope");
    assert_eq!(failure.body.detail, "inner envelope parse error: no");
    let mut old = announce_x();
    old.schema_version = "0".into();
    let failure = federation_dispatch(&mut node, Ok(old)).unwrap_err();
    assert_eq!(failure.body.error, "invalid_schema_version");
    // The policy was enforced by the mesh that the envelope comes from.
    let mut private = announce_x();
    private.policy = Policy::Private;
    assert!(federation_dispatch(&mut node, Ok(private)).is_ok());
}

#[test]
fn deltas_are_for_the_room_in_the_path() {
    let mut node = test_node();
    create_room(&mut node, "a", "A", None).unwrap();
    let delta = StateDelta { room_id: "a".into(), from: "p".into(), entries: vec![] };
    let failure = apply_delta(&mut node, "b", delta.clone()).unwrap_err();
    assert_eq!(failure.status, Status::BadRequest);
    assert_eq!(
        failure.body.detail,
        "path room_id 'b' does not match delta room_id 'a'"
    );
    assert!(apply_delta(&mut node, "a", delta).unwrap().is_empty());
    let snapshot = get_snapshot(&node, "a").unwrap();
    let failure = restore_snapshot(&mut node, "b", snapshot).unwrap_err();
    assert_eq!(
        failure.body.detail,
        "path room_id 'b' does not match snapshot room_id 'a'"
    );
    let missing = StateDelta { room_id: "z".into(), from: "p".into(), entries: vec![] };
    let failure = apply_delta(&mut node, "z", missing).unwrap_err();
    assert_eq!(failure.status, Status::NotFound);
    assert_eq!(failure.body.detail, "room not found: z");
}

#[test]
fn expired_offers_are_gone() {
    let mut node = test_node();
    submit_offer(&mut node, "a", "o", "s", time("2020-01-01T00:00:00Z"));
    let failure = get_offer(&node, "o").unwrap_err();
    assert_eq!(failure.status, Status::Gone);
    assert_eq!(failure.body.detail, "offer expired");
    clawmesh::endpoints::purge_expired(&mut node);
    assert_eq!(get_offer(&node, "o").unwrap_err().status, Status::NotFound);
}

#[test]
fn pushed_entries_are_merged() {
    let mut remote = test_node();
    route_envelope(&mut remote, &announce_x()).unwrap();
    let mut node = test_node();
    let pull = GossipMessage::Pull(GossipPull {
        from: "node".into(),
        digests: node.registry().build_digest(),
    });
    let push = gossip_exchange(&mut remote, pull).message.unwrap();
    let body = gossip_exchange(&mut node, push);
    assert!(body.message.is_none());
    assert_eq!(list_peers(&node)[0].agent_id, "agent-alice");
}

#[test]
fn unknown_ids_are_not_found() {
    let mut node = test_node();
    assert_eq!(find_matches(&node, "x").unwrap_err().body.error, "match_error");
    assert_eq!(
        clawmesh::endpoints::cancel_match_request(&mut node, "x").unwrap_err().body.error,
        "cancel_error"
    );
    assert_eq!(confirm_schedule(&mut node, "x").unwrap_err().body.error, "schedule_error");
    assert_eq!(decline_schedule(&mut node, "x").unwrap_err().body.error, "schedule_error");
    assert_eq!(withdraw_offer(&mut node, "x").unwrap_err().body.error, "offer_error");
    assert_eq!(room_members(&node, "x").unwrap_err().body.error, "room_not_found");
    assert_eq!(get_state(&node, "x", "k").unwrap_err().body.error, "state_error");
    assert_eq!(list_state(&node, "x").unwrap_err().status, Status::NotFound);
    assert_eq!(get_snapshot(&node, "x").unwrap_err().status, Status::NotFound);
    let failure = set_state(&mut node, "x", "a", "k", Value::Null).unwrap_err();
    assert_eq!(failure.body.detail, "room not found: x");
    create_room(&mut node, "x", "X", None).unwrap();
    let failure = clawmesh::endpoints::leave_room(&mut node, "x", "a").unwrap_err();
    assert_eq!(failure.body.error, "leave_failed");
    assert_eq!(failure.body.detail, "not a member of this room");
}
