use clawmesh::federation::federation_pair;
use clawmesh::{
    Event, EventBus, FederationEnvelope, FederationError, FederationRouter, Timestamp,
};
use serde_json::Value;

fn make_router(mesh_id: &str) -> FederationRouter {
    FederationRouter::new(mesh_id, EventBus::default())
}

fn object(members: Vec<(&str, Value)>) -> Value {
    Value::Object(members.into_iter().map(|(k, v)| (k.to_string(), v)).collect())
}

fn nothing() -> Value {
    object(vec![])
}

fn send(router: &FederationRouter, target: &str, sealed: FederationEnvelope) {
    let sent = router.link(target).unwrap().try_send(sealed).is_ok();
    FederationRouter::send_outcome(target, sent).unwrap();
}

fn relay(router: &FederationRouter, target: &str, envelope: Value) {
    let wrapped = router.relay(target, envelope).unwrap();
    send(router, target, wrapped);
}

fn forward(router: &FederationRouter, target: &str, envelope: FederationEnvelope) {
    let next = router.forward(target, envelope).unwrap();
    send(router, target, next);
}

fn envelope_for(target: &str, ttl: u8) -> FederationEnvelope {
    FederationEnvelope {
        source_mesh: "mesh:beta".into(),
        target_mesh: target.into(),
        envelope: nothing(),
        relayed_at: Timestamp::now(),
        ttl,
    }
}

#[test]
fn link_and_relay_envelope() {
    let mut router_a = make_router("mesh:alpha");
    let mut rx = router_a.link_mesh("mesh:beta", Some("Beta Mesh"), 16).unwrap();
    let envelope = object(vec![
        ("schema_version", Value::from("0.1")),
        ("intent", Value::from("announce")),
        ("capability", Value::from("matchmaking")),
        (
            "sender",
            object(vec![
                ("agent_id", Value::from("agent:alice")),
                ("mesh_id", Value::from("mesh:alpha")),
            ]),
        ),
        ("payload", object(vec![("display_name", Value::from("Alice"))])),
    ]);
    relay(&router_a, "mesh:beta", envelope.clone());
    let received = rx.try_recv().unwrap();
    assert_eq!(received.source_mesh, "mesh:alpha");
    assert_eq!(received.target_mesh, "mesh:beta");
    assert_eq!(received.envelope, envelope);
    assert_eq!(received.ttl, FederationRouter::DEFAULT_TTL);
}

#[test]
fn unlink_mesh() {
    let mut router = make_router("mesh:alpha");
    router.link_mesh("mesh:beta", None, 16).unwrap();
    assert!(router.is_linked("mesh:beta"));
    assert_eq!(router.link_count(), 1);
    let info = router.unlink_mesh("mesh:beta").unwrap();
    assert_eq!(info.mesh_id, "mesh:beta");
    assert!(!router.is_linked("mesh:beta"));
    assert_eq!(router.link_count(), 0);
}

#[test]
fn unlink_nonexistent_returns_error() {
    let mut router = make_router("mesh:alpha");
    let err = router.unlink_mesh("mesh:nowhere").unwrap_err();
    assert!(matches!(err, FederationError::LinkNotFound(_)));
}

#[test]
fn self_relay_rejected() {
    let router = make_router("mesh:alpha");
    let err = router.relay("mesh:alpha", nothing()).unwrap_err();
    assert!(matches!(err, FederationError::SelfRelay));
}

#[test]
fn self_link_rejected() {
    let mut router = make_router("mesh:alpha");
    let err = router.link_mesh("mesh:alpha", None, 16).unwrap_err();
    assert!(matches!(err, FederationError::SelfRelay));
}

#[test]
fn duplicate_link_rejected() {
    let mut router = make_router("mesh:alpha");
    router.link_mesh("mesh:beta", None, 16).unwrap();
    let err = router.link_mesh("mesh:beta", None, 16).unwrap_err();
    assert!(matches!(err, FederationError::LinkExists(_)));
}

#[test]
fn relay_to_unlinked_mesh_fails() {
    let router = make_router("mesh:alpha");
    let err = router.relay("mesh:beta", nothing()).unwrap_err();
    assert!(matches!(err, FederationError::LinkNotFound(_)));
}

#[test]
fn forward_decrements_ttl() {
    let mut router = make_router("mesh:alpha");
    let mut rx = router.link_mesh("mesh:gamma", None, 16).unwrap();
    let fed_env = FederationEnvelope {
        source_mesh: "mesh:beta".into(),
        target_mesh: "mesh:gamma".into(),
        envelope: object(vec![("intent", Value::from("announce"))]),
        relayed_at: Timestamp::now(),
        ttl: 5,
    };
    forward(&router, "mesh:gamma", fed_env);
    let received = rx.try_recv().unwrap();
    assert_eq!(received.ttl, 4);
}

#[test]
fn forward_ttl_zero_rejected() {
    let mut router = make_router("mesh:alpha");
    router.link_mesh("mesh:gamma", None, 16).unwrap();
    let err = router.forward("mesh:gamma", envelope_for("mesh:gamma", 0)).unwrap_err();
    assert!(matches!(err, FederationError::TtlExpired));
}

#[test]
fn should_accept_checks_target_mesh() {
    let router = make_router("mesh:alpha");
    assert!(router.should_accept(&envelope_for("mesh:alpha", 5)));
    assert!(!router.should_accept(&envelope_for("mesh:gamma", 5)));
    assert!(!router.should_accept(&envelope_for("mesh:alpha", 0)));
}

#[test]
fn list_linked_meshes() {
    let mut router = make_router("mesh:alpha");
    router.link_mesh("mesh:beta", Some("Beta"), 16).unwrap();
    router.link_mesh("mesh:gamma", Some("Gamma"), 16).unwrap();
    let mut links = router.linked_meshes();
    links.sort_by(|a, b| a.mesh_id.cmp(&b.mesh_id));
    assert_eq!(links.len(), 2);
    assert_eq!(links[0].mesh_id, "mesh:beta");
    assert_eq!(links[0].label.as_deref(), Some("Beta"));
    assert_eq!(links[1].mesh_id, "mesh:gamma");
}

#[test]
fn bidirectional_federation_pair() {
    let mut router_a = make_router("mesh:alpha");
    let mut router_b = make_router("mesh:beta");
    let (mut rx_a, mut rx_b) = federation_pair(&mut router_a, &mut router_b, 16).unwrap();
    let env = object(vec![("intent", Value::from("announce")), ("from", Value::from("alpha"))]);
    relay(&router_a, "mesh:beta", env.clone());
    let received = rx_b.try_recv().unwrap();
    assert_eq!(received.source_mesh, "mesh:alpha");
    assert_eq!(received.envelope, env);
    let env = object(vec![("intent", Value::from("offer")), ("from", Value::from("beta"))]);
    relay(&router_b, "mesh:alpha", env.clone());
    let received = rx_a.try_recv().unwrap();
    assert_eq!(received.source_mesh, "mesh:beta");
    assert_eq!(received.envelope, env);
}

#[test]
fn multi_hop_relay() {
    let mut router_a = make_router("mesh:alpha");
    let mut router_b = make_router("mesh:beta");
    let mut router_c = make_router("mesh:gamma");
    let mut rx_ab = router_a.link_mesh("mesh:beta", None, 16).unwrap();
    let mut _rx_ba = router_b.link_mesh("mesh:alpha", None, 16).unwrap();
    let mut rx_bc = router_b.link_mesh("mesh:gamma", None, 16).unwrap();
    let mut _rx_cb = router_c.link_mesh("mesh:beta", None, 16).unwrap();
    let env = object(vec![
        ("intent", Value::from("announce")),
        ("target", Value::from("mesh:gamma")),
    ]);
    relay(&router_a, "mesh:beta", env);
    let received = rx_ab.try_recv().unwrap();
    assert_eq!(received.source_mesh, "mesh:alpha");
    assert_eq!(received.ttl, FederationRouter::DEFAULT_TTL);
    let forwarded = FederationEnvelope { target_mesh: "mesh:gamma".into(), ..received };
    forward(&router_b, "mesh:gamma", forwarded);
    let received = rx_bc.try_recv().unwrap();
    assert_eq!(received.source_mesh, "mesh:alpha");
    assert_eq!(received.ttl, FederationRouter::DEFAULT_TTL - 1);
    assert!(router_c.should_accept(&received));
}

#[test]
fn events_emitted_on_link_and_unlink() {
    let bus = EventBus::default();
    let mut rx_events = bus.subscribe();
    let mut router = FederationRouter::new("mesh:alpha", bus);
    router.link_mesh("mesh:beta", None, 16).unwrap();
    let event = rx_events.try_recv().unwrap();
    match event {
        Event::PatchReady { mesh_id, description } => {
            assert_eq!(mesh_id, "mesh:alpha");
            assert!(description.contains("mesh:beta"));
            assert!(description.contains("established"));
        }
        _ => panic!("expected PatchReady"),
    }
    router.unlink_mesh("mesh:beta").unwrap();
    let event = rx_events.try_recv().unwrap();
    match event {
        Event::PatchReady { mesh_id, description } => {
            assert_eq!(mesh_id, "mesh:alpha");
            assert!(description.contains("removed"));
        }
        _ => panic!("expected PatchReady"),
    }
}

#[test]
fn hops_run_out() {
    let mut router = make_router("mesh:alpha");
    router.link_mesh("mesh:gamma", None, 1).unwrap();
    let now = Timestamp::new(100, 5).unwrap();
    let mut envelope = router.relay_at("mesh:gamma", Value::from(1), now).unwrap();
    assert_eq!(envelope.relayed_at, now);
    for left in [7u8, 6, 5, 4, 3, 2, 1, 0] {
        envelope = router.forward_at("mesh:gamma", envelope, now).unwrap();
        assert_eq!(envelope.ttl, left);
        assert_eq!(envelope.source_mesh, "mesh:alpha");
        assert_eq!(envelope.envelope, Value::from(1));
    }
    assert!(matches!(
        router.forward_at("mesh:gamma", envelope, now),
        Err(FederationError::TtlExpired)
    ));
}

#[test]
fn linking_again_after_unlinking() {
    let mut router = make_router("mesh:alpha");
    let now = Timestamp::new(7, 0).unwrap();
    router.link_mesh_at("mesh:beta", Some("B"), 1, now).unwrap();
    let link = router.unlink_mesh("mesh:beta").unwrap();
    assert_eq!(link.linked_at, now);
    assert_eq!(link.label.as_deref(), Some("B"));
    assert!(router.link("mesh:beta").is_none());
    assert!(router.link_mesh("mesh:beta", None, 1).is_ok());
}

#[test]
fn a_pair_of_one_mesh_is_refused() {
    let mut a = make_router("mesh:same");
    let mut b = make_router("mesh:same");
    assert!(matches!(federation_pair(&mut a, &mut b, 4), Err(FederationError::SelfRelay)));
    assert_eq!(a.link_count() + b.link_count(), 0);
}

#[test]
fn federation_errors_have_texts() {
    let texts = vec![
        FederationError::LinkNotFound("m".into()).to_string(),
        FederationRouter::send_outcome("m", false).unwrap_err().to_string(),
        FederationError::TtlExpired.to_string(),
        FederationError::SelfRelay.to_string(),
        FederationError::LinkExists("m".into()).to_string(),
    ];
    assert_eq!(
        texts,
        vec![
            "mesh link not found: m",
            "failed to relay envelope to mesh m: channel closed",
            "envelope TTL expired (loops prevented)",
            "cannot relay to self mesh",
            "mesh link already exists: m",
        ]
    );
}

#[test]
fn a_link_queue_has_the_capacity_asked_for() {
    let mut router = make_router("mesh:alpha");
    let mut rx = router.link_mesh("mesh:beta", None, 2).unwrap();
    let _other = router.link_mesh("mesh:gamma", None, 1).unwrap();
    for n in [1u8, 2] {
        router.link("mesh:beta").unwrap().try_send(envelope_for("mesh:beta", n)).unwrap();
    }
    assert!(router.link("mesh:beta").unwrap().try_send(envelope_for("mesh:beta", 3)).is_err());
    assert_eq!(rx.try_recv().unwrap().ttl, 1);
    assert_eq!(rx.try_recv().unwrap().ttl, 2);
}
