use clawmesh::{
    Event, EventBus, IceCandidate, SessionAnswer, SessionOffer, SignalError, SignalMessage,
    SignalRelay,
};

fn make_relay() -> SignalRelay {
    SignalRelay::new(EventBus::default())
}

fn offer(from: &str, to: &str, sdp: &str) -> SignalMessage {
    SignalMessage::Offer(SessionOffer { from: from.into(), to: to.into(), sdp: sdp.into() })
}

#[test]
fn register_and_relay_offer() {
    let mut relay = make_relay();
    let mut rx_bob = relay.register("agent:bob", 16);
    relay.relay(offer("agent:alice", "agent:bob", "v=0\r\noffer-sdp")).unwrap();
    let received = rx_bob.try_recv().unwrap();
    match received {
        SignalMessage::Offer(o) => {
            assert_eq!(o.from, "agent:alice");
            assert_eq!(o.to, "agent:bob");
            assert_eq!(o.sdp, "v=0\r\noffer-sdp");
        }
        _ => panic!("expected Offer"),
    }
}

#[test]
fn full_offer_answer_ice_exchange() {
    let mut relay = make_relay();
    let mut rx_alice = relay.register("agent:alice", 16);
    let mut rx_bob = relay.register("agent:bob", 16);
    relay.relay(offer("agent:alice", "agent:bob", "offer-sdp")).unwrap();
    let msg = rx_bob.try_recv().unwrap();
    assert!(matches!(msg, SignalMessage::Offer(_)));
    relay
        .relay(SignalMessage::Answer(SessionAnswer {
            from: "agent:bob".into(),
            to: "agent:alice".into(),
            sdp: "answer-sdp".into(),
        }))
        .unwrap();
    let msg = rx_alice.try_recv().unwrap();
    assert!(matches!(msg, SignalMessage::Answer(_)));
    relay
        .relay(SignalMessage::IceCandidate(IceCandidate {
            from: "agent:alice".into(),
            to: "agent:bob".into(),
            candidate: "candidate:1 1 UDP 2122252543 192.168.1.1 50000 typ host".into(),
            sdp_m_line_index: 0,
        }))
        .unwrap();
    let msg = rx_bob.try_recv().unwrap();
    assert!(matches!(msg, SignalMessage::IceCandidate(_)));
}

#[test]
fn relay_to_unknown_peer_fails() {
    let mut relay = make_relay();
    let err = relay.relay(offer("agent:alice", "agent:nobody", "sdp")).unwrap_err();
    assert!(matches!(err, SignalError::UnknownPeer(_)));
}

#[test]
fn unregister_peer() {
    let mut relay = make_relay();
    let _rx = relay.register("agent:alice", 16);
    assert!(relay.is_registered("agent:alice"));
    assert_eq!(relay.peer_count(), 1);
    assert!(relay.unregister("agent:alice"));
    assert!(!relay.is_registered("agent:alice"));
    assert_eq!(relay.peer_count(), 0);
}

#[test]
fn unregister_nonexistent_returns_false() {
    let mut relay = make_relay();
    assert!(!relay.unregister("agent:ghost"));
}

#[test]
fn reregister_replaces_channel() {
    let mut relay = make_relay();
    let _rx_old = relay.register("agent:alice", 16);
    let mut rx_new = relay.register("agent:alice", 16);
    relay.relay(offer("agent:bob", "agent:alice", "sdp")).unwrap();
    let msg = rx_new.try_recv().unwrap();
    assert!(matches!(msg, SignalMessage::Offer(_)));
    assert_eq!(relay.peer_count(), 1);
}

#[test]
fn relay_after_unregister_fails() {
    let mut relay = make_relay();
    let _rx = relay.register("agent:bob", 16);
    relay.unregister("agent:bob");
    let err = relay.relay(offer("agent:alice", "agent:bob", "sdp")).unwrap_err();
    assert!(matches!(err, SignalError::UnknownPeer(_)));
}

#[test]
fn events_emitted_on_relay() {
    let bus = EventBus::default();
    let mut rx_events = bus.subscribe();
    let mut relay = SignalRelay::new(bus);
    let _rx_bob = relay.register("agent:bob", 16);
    relay.relay(offer("agent:alice", "agent:bob", "sdp")).unwrap();
    let event = rx_events.try_recv().unwrap();
    match event {
        Event::SignalReceived { from, to } => {
            assert_eq!(from, "agent:alice");
            assert_eq!(to, "agent:bob");
        }
        _ => panic!("expected SignalReceived"),
    }
}

#[test]
fn registered_peers_listing() {
    let mut relay = make_relay();
    relay.register("agent:alice", 16);
    relay.register("agent:bob", 16);
    relay.register("agent:carol", 16);
    let mut peers = relay.registered_peers();
    peers.sort();
    assert_eq!(peers, vec!["agent:alice", "agent:bob", "agent:carol"]);
}

#[test]
fn full_and_closed_queues_are_errors() {
    let bus = EventBus::default();
    let mut rx_events = bus.subscribe();
    let mut relay = SignalRelay::new(bus);
    let rx = relay.register("b", 1);
    relay.relay(offer("a", "b", "1")).unwrap();
    assert!(rx_events.try_recv().is_ok());
    assert!(matches!(relay.relay(offer("a", "b", "2")), Err(SignalError::ChannelClosed)));
    assert!(rx_events.try_recv().is_err());
    drop(rx);
    assert!(matches!(relay.relay(offer("a", "b", "3")), Err(SignalError::ChannelClosed)));
}

#[test]
fn a_message_reaches_only_its_target() {
    let mut relay = make_relay();
    let mut rx_b = relay.register("b", 4);
    let mut rx_c = relay.register("c", 4);
    relay.relay(offer("a", "b", "1")).unwrap();
    relay.relay(offer("a", "b", "2")).unwrap();
    assert!(rx_c.try_recv().is_err());
    for sdp in ["1", "2"] {
        match rx_b.try_recv().unwrap() {
            SignalMessage::Offer(o) => assert_eq!(o.sdp, sdp),
            _ => panic!("expected Offer"),
        }
    }
}

#[test]
fn concluding_a_relay() {
    let bus = EventBus::default();
    let mut rx_events = bus.subscribe();
    let mut relay = SignalRelay::new(bus);
    assert!(relay.conclude("a".into(), "b".into(), false).is_err());
    assert!(rx_events.try_recv().is_err());
    assert!(relay.conclude("a".into(), "b".into(), true).is_ok());
    assert!(matches!(rx_events.try_recv().unwrap(), Event::SignalReceived { .. }));
}

#[test]
fn a_peer_queue_has_the_capacity_asked_for() {
    let mut relay = make_relay();
    let mut rx = relay.register("b", 3);
    for sdp in ["1", "2", "3"] {
        relay.relay(offer("a", "b", sdp)).unwrap();
    }
    assert!(relay.relay(offer("a", "b", "4")).is_err());
    let _other = relay.register("c", 1);
    assert!(rx.try_recv().is_ok());
    relay.relay(offer("a", "b", "5")).unwrap();
}
