use clawmesh::{Event, EventBus};

#[test]
fn emit_and_receive() {
    let mut bus = EventBus::default();
    let mut rx = bus.subscribe();
    bus.emit(Event::PeerAnnounced {
        agent_id: "agent:alice".into(),
        mesh_id: "mesh:test".into(),
    });
    let event = rx.try_recv().unwrap();
    match event {
        Event::PeerAnnounced { agent_id, mesh_id } => {
            assert_eq!(agent_id, "agent:alice");
            assert_eq!(mesh_id, "mesh:test");
        }
        _ => panic!("unexpected event variant"),
    }
}

#[test]
fn patch_ready_convenience() {
    let mut bus = EventBus::default();
    let mut rx = bus.subscribe();
    bus.emit_patch_ready("mesh:golf", "peer joined");
    let event = rx.try_recv().unwrap();
    match event {
        Event::PatchReady { mesh_id, description } => {
            assert_eq!(mesh_id, "mesh:golf");
            assert_eq!(description, "peer joined");
        }
        _ => panic!("expected PatchReady"),
    }
}

#[test]
fn no_subscribers_does_not_panic() {
    let mut bus = EventBus::default();
    let count = bus.emit(Event::PeerDeparted {
        agent_id: "agent:bob".into(),
        mesh_id: "mesh:test".into(),
    });
    assert_eq!(count, 0);
}

#[test]
fn clones_share_the_channel() {
    let bus = EventBus::new(4);
    let mut rx = bus.subscribe();
    let mut second = bus.clone();
    let count = second.emit(Event::RoomStateChanged {
        room_id: "r".into(),
        key: "k".into(),
        author: "a".into(),
    });
    assert_eq!(count, 1);
    assert!(matches!(rx.try_recv().unwrap(), Event::RoomStateChanged { .. }));
}

#[test]
fn receivers_are_of_the_channel_of_the_bus() {
    let bus = EventBus::default();
    let mut second = bus.clone();
    let rx = bus.subscribe();
    assert!(rx.same_channel(&second.subscribe()));
    second.emit_patch_ready("m", "d");
    assert!(rx.same_channel(&second.subscribe()));
    assert!(!rx.same_channel(&EventBus::default().subscribe()));
}

#[test]
fn a_bus_keeps_as_many_events_as_asked_for() {
    let mut bus = EventBus::new(2);
    let mut rx = bus.subscribe();
    bus.emit_patch_ready("m", "1");
    bus.emit_patch_ready("m", "2");
    assert!(rx.try_recv().is_ok());
    assert!(rx.try_recv().is_ok());
    for n in ["3", "4", "5"] {
        bus.emit_patch_ready("m", n);
    }
    // The oldest of the three is lost.
    assert!(rx.try_recv().is_err());
    assert!(rx.try_recv().is_ok());
}
