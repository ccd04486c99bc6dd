use clawmesh::room_state::RoomState;
use clawmesh::table::Table;
use clawmesh::{
    ClockOrdering, Event, EventBus, RoomStateSync, StateDelta, StateEntry, StateError,
    StateSnapshot, Timestamp, VectorClock,
};
use serde_json::Value;

fn json(n: i64) -> Value {
    Value::from(n)
}

fn text(s: &str) -> Value {
    Value::from(s)
}

fn at(secs: i64) -> Timestamp {
    Timestamp::new(secs, 0).unwrap()
}

#[test]
fn clock_tick_and_get() {
    let mut clock = VectorClock::default();
    assert_eq!(clock.get("agent:alice"), 0);
    assert_eq!(clock.tick("agent:alice"), 1);
    assert_eq!(clock.tick("agent:alice"), 2);
    assert_eq!(clock.get("agent:alice"), 2);
}

#[test]
fn clock_merge() {
    let mut a = VectorClock::default();
    a.tick("agent:alice");
    a.tick("agent:alice");
    let mut b = VectorClock::default();
    b.tick("agent:bob");
    b.tick("agent:alice");
    a.merge(&b);
    assert_eq!(a.get("agent:alice"), 2);
    assert_eq!(a.get("agent:bob"), 1);
}

#[test]
fn clock_ordering_before() {
    let mut a = VectorClock::default();
    a.tick("agent:alice");
    let mut b = VectorClock::default();
    b.tick("agent:alice");
    b.tick("agent:alice");
    assert_eq!(a.partial_cmp_clock(&b), ClockOrdering::Before);
}

#[test]
fn clock_ordering_after() {
    let mut a = VectorClock::default();
    a.tick("agent:alice");
    a.tick("agent:alice");
    let mut b = VectorClock::default();
    b.tick("agent:alice");
    assert_eq!(a.partial_cmp_clock(&b), ClockOrdering::After);
}

#[test]
fn clock_ordering_concurrent() {
    let mut a = VectorClock::default();
    a.tick("agent:alice");
    let mut b = VectorClock::default();
    b.tick("agent:bob");
    assert_eq!(a.partial_cmp_clock(&b), ClockOrdering::Concurrent);
}

#[test]
fn clock_ordering_equal() {
    let mut a = VectorClock::default();
    a.tick("agent:alice");
    let mut b = VectorClock::default();
    b.tick("agent:alice");
    assert_eq!(a.partial_cmp_clock(&b), ClockOrdering::Equal);
}

#[test]
fn clock_empty_equal() {
    let a = VectorClock::default();
    let b = VectorClock::default();
    assert_eq!(a.partial_cmp_clock(&b), ClockOrdering::Equal);
}

fn make_sync() -> RoomStateSync {
    RoomStateSync::new("mesh:test", EventBus::default())
}

#[test]
fn set_and_get() {
    let mut sync = make_sync();
    sync.init_room("room:lobby");
    sync.set("room:lobby", "agent:alice", "score", json(42)).unwrap();
    let entry = sync.get("room:lobby", "score").unwrap();
    assert_eq!(entry.value, json(42));
    assert_eq!(entry.author, "agent:alice");
    assert_eq!(entry.clock.get("agent:alice"), 1);
}

#[test]
fn set_increments_clock() {
    let mut sync = make_sync();
    sync.init_room("room:lobby");
    sync.set("room:lobby", "agent:alice", "a", json(1)).unwrap();
    sync.set("room:lobby", "agent:alice", "b", json(2)).unwrap();
    let entry = sync.get("room:lobby", "b").unwrap();
    assert_eq!(entry.clock.get("agent:alice"), 2);
}

#[test]
fn overwrite_same_key() {
    let mut sync = make_sync();
    sync.init_room("room:lobby");
    sync.set("room:lobby", "agent:alice", "x", text("old")).unwrap();
    sync.set("room:lobby", "agent:alice", "x", text("new")).unwrap();
    let entry = sync.get("room:lobby", "x").unwrap();
    assert_eq!(entry.value, text("new"));
}

#[test]
fn get_nonexistent_key() {
    let mut sync = make_sync();
    sync.init_room("room:lobby");
    let result = sync.get("room:lobby", "missing");
    assert!(matches!(result, Err(StateError::KeyNotFound(_))));
}

#[test]
fn get_nonexistent_room() {
    let sync = make_sync();
    let result = sync.get("room:ghost", "key");
    assert!(matches!(result, Err(StateError::RoomNotFound(_))));
}

#[test]
fn delta_sync_between_peers() {
    let mut sync_a = make_sync();
    let mut sync_b = make_sync();
    sync_a.init_room("room:game");
    sync_b.init_room("room:game");
    sync_a.set("room:game", "agent:alice", "score", json(100)).unwrap();
    sync_a.set("room:game", "agent:alice", "level", json(3)).unwrap();
    let empty_clock = VectorClock::default();
    let delta = sync_a.build_delta("room:game", "agent:alice", &empty_clock).unwrap();
    assert_eq!(delta.entries.len(), 2);
    let updated = sync_b.apply_delta(delta).unwrap();
    assert_eq!(updated.len(), 2);
    let entry = sync_b.get("room:game", "score").unwrap();
    assert_eq!(entry.value, json(100));
}

#[test]
fn delta_only_sends_newer_entries() {
    let mut sync = make_sync();
    sync.init_room("room:game");
    sync.set("room:game", "agent:alice", "a", json(1)).unwrap();
    let clock_after_a = sync.room_clock("room:game").unwrap();
    sync.set("room:game", "agent:alice", "b", json(2)).unwrap();
    let delta = sync.build_delta("room:game", "agent:alice", &clock_after_a).unwrap();
    assert_eq!(delta.entries.len(), 1);
    assert_eq!(delta.entries[0].key, "b");
}

#[test]
fn stale_delta_rejected() {
    let mut sync = make_sync();
    sync.init_room("room:game");
    sync.set("room:game", "agent:alice", "x", text("new")).unwrap();
    let stale_entry = StateEntry {
        key: "x".to_string(),
        value: text("stale"),
        author: "agent:bob".to_string(),
        clock: VectorClock::default(),
        updated_at: Timestamp::now(),
    };
    let delta = StateDelta {
        room_id: "room:game".to_string(),
        from: "agent:bob".to_string(),
        entries: vec![stale_entry],
    };
    let updated = sync.apply_delta(delta).unwrap();
    assert!(updated.is_empty());
    let entry = sync.get("room:game", "x").unwrap();
    assert_eq!(entry.value, text("new"));
}

fn rival(author: &str, value: &str, when: &str) -> StateEntry {
    let mut clock = VectorClock::default();
    clock.tick(author);
    StateEntry {
        key: "x".to_string(),
        value: text(value),
        author: author.to_string(),
        clock,
        updated_at: Timestamp::parse(when).unwrap(),
    }
}

fn delta_of(from: &str, entries: Vec<StateEntry>) -> StateDelta {
    StateDelta { room_id: "room:game".to_string(), from: from.to_string(), entries }
}

#[test]
fn concurrent_updates_last_writer_wins() {
    let mut sync = make_sync();
    sync.init_room("room:game");
    let entry_a = rival("agent:alice", "alice_value", "2026-01-01T00:00:00Z");
    let entry_b = rival("agent:bob", "bob_value", "2026-01-01T00:00:01Z");
    sync.apply_delta(delta_of("agent:alice", vec![entry_a])).unwrap();
    let updated = sync.apply_delta(delta_of("agent:bob", vec![entry_b])).unwrap();
    assert_eq!(updated, vec!["x"]);
    let entry = sync.get("room:game", "x").unwrap();
    assert_eq!(entry.value, text("bob_value"));
}

#[test]
fn snapshot_and_restore() {
    let mut sync_a = make_sync();
    sync_a.init_room("room:game");
    sync_a.set("room:game", "agent:alice", "hp", json(100)).unwrap();
    sync_a.set("room:game", "agent:alice", "mp", json(50)).unwrap();
    let snapshot = sync_a.snapshot("room:game").unwrap();
    assert_eq!(snapshot.entries.len(), 2);
    let mut sync_b = make_sync();
    let updated = sync_b.restore_snapshot(snapshot).unwrap();
    assert_eq!(updated.len(), 2);
    let hp = sync_b.get("room:game", "hp").unwrap();
    assert_eq!(hp.value, json(100));
    let mp = sync_b.get("room:game", "mp").unwrap();
    assert_eq!(mp.value, json(50));
}

#[test]
fn snapshot_restore_merges_with_existing() {
    let mut sync = make_sync();
    sync.init_room("room:game");
    sync.set("room:game", "agent:bob", "local_key", text("local")).unwrap();
    let mut entries = Table::new();
    let mut clock = VectorClock::default();
    clock.tick("agent:alice");
    entries.insert(
        "remote_key".to_string(),
        StateEntry {
            key: "remote_key".to_string(),
            value: text("remote"),
            author: "agent:alice".to_string(),
            clock,
            updated_at: Timestamp::now(),
        },
    );
    let snapshot = StateSnapshot {
        room_id: "room:game".to_string(),
        clock: VectorClock::default(),
        entries,
        created_at: Timestamp::now(),
    };
    sync.restore_snapshot(snapshot).unwrap();
    assert!(sync.get("room:game", "local_key").is_ok());
    assert!(sync.get("room:game", "remote_key").is_ok());
}

#[test]
fn list_entries() {
    let mut sync = make_sync();
    sync.init_room("room:game");
    sync.set("room:game", "agent:alice", "a", json(1)).unwrap();
    sync.set("room:game", "agent:bob", "b", json(2)).unwrap();
    let entries = sync.list_entries("room:game").unwrap();
    assert_eq!(entries.len(), 2);
}

#[test]
fn entry_count() {
    let mut sync = make_sync();
    sync.init_room("room:game");
    assert_eq!(sync.entry_count("room:game").unwrap(), 0);
    sync.set("room:game", "agent:alice", "a", json(1)).unwrap();
    assert_eq!(sync.entry_count("room:game").unwrap(), 1);
}

#[test]
fn remove_room() {
    let mut sync = make_sync();
    sync.init_room("room:temp");
    sync.set("room:temp", "agent:alice", "x", json(1)).unwrap();
    assert!(sync.remove_room("room:temp"));
    assert!(!sync.remove_room("room:temp"));
    assert!(matches!(sync.get("room:temp", "x"), Err(StateError::RoomNotFound(_))));
}

#[test]
fn init_room_idempotent() {
    let mut sync = make_sync();
    sync.init_room("room:a");
    sync.set("room:a", "agent:alice", "x", json(1)).unwrap();
    sync.init_room("room:a");
    let entry = sync.get("room:a", "x").unwrap();
    assert_eq!(entry.value, json(1));
}

#[test]
fn multi_agent_state() {
    let mut sync = make_sync();
    sync.init_room("room:game");
    sync.set("room:game", "agent:alice", "alice_score", json(100)).unwrap();
    sync.set("room:game", "agent:bob", "bob_score", json(200)).unwrap();
    sync.set("room:game", "agent:carol", "carol_score", json(150)).unwrap();
    assert_eq!(sync.entry_count("room:game").unwrap(), 3);
    let clock = sync.room_clock("room:game").unwrap();
    assert_eq!(clock.get("agent:alice"), 1);
    assert_eq!(clock.get("agent:bob"), 1);
    assert_eq!(clock.get("agent:carol"), 1);
}

#[test]
fn events_emitted_on_set() {
    let bus = EventBus::default();
    let mut rx = bus.subscribe();
    let mut sync = RoomStateSync::new("mesh:test", bus);
    sync.init_room("room:game");
    sync.set("room:game", "agent:alice", "x", json(1)).unwrap();
    let event = rx.try_recv().unwrap();
    match event {
        Event::PatchReady { mesh_id, description } => {
            assert_eq!(mesh_id, "mesh:test");
            assert_eq!(description, "agent:alice set state key x in room:game");
        }
        _ => panic!("expected PatchReady"),
    }
}

#[test]
fn clocks_compare_by_content() {
    let mut a = VectorClock::default();
    a.tick("agent:alice");
    a.tick("agent:bob");
    let mut b = VectorClock::default();
    b.tick("agent:bob");
    b.tick("agent:alice");
    assert!(a == b);
    b.tick("agent:bob");
    assert!(a != b);
    let mut zero = VectorClock::default();
    zero.clocks.insert("agent:carol".to_string(), 0);
    assert!(zero != VectorClock::default());
    assert_eq!(zero.partial_cmp_clock(&VectorClock::default()), ClockOrdering::Equal);
}

#[test]
fn merging_is_a_join() {
    let mut a = VectorClock::default();
    a.tick("a");
    a.tick("b");
    let mut b = VectorClock::default();
    b.tick("b");
    b.tick("b");
    b.tick("c");
    let mut ab = a.clone();
    ab.merge(&b);
    let mut ba = b.clone();
    ba.merge(&a);
    assert!(ab == ba);
    let mut again = ab.clone();
    again.merge(&ab);
    assert!(again == ab);
    assert_eq!(ab.partial_cmp_clock(&a), ClockOrdering::After);
    assert_eq!(b.partial_cmp_clock(&ab), ClockOrdering::Before);
    assert_eq!(ab.get("b"), 2);
}

#[test]
fn tie_goes_to_the_later_author() {
    let when = "2026-01-01T00:00:00Z";
    for first_bob in [false, true] {
        let mut sync = make_sync();
        sync.init_room("room:game");
        let alice = rival("agent:alice", "alice", when);
        let bob = rival("agent:bob", "bob", when);
        let (one, two) = if first_bob { (bob, alice) } else { (alice, bob) };
        sync.apply_delta(delta_of("p", vec![one])).unwrap();
        sync.apply_delta(delta_of("p", vec![two])).unwrap();
        assert_eq!(sync.get("room:game", "x").unwrap().value, text("bob"));
        let clock = sync.room_clock("room:game").unwrap();
        assert_eq!(clock.get("agent:alice"), 1);
        assert_eq!(clock.get("agent:bob"), 1);
    }
}

#[test]
fn updates_converge_in_any_order() {
    let a = rival("agent:alice", "a", "2026-01-01T00:00:00Z");
    let b = rival("agent:bob", "b", "2026-01-01T00:00:05Z");
    let mut c = rival("agent:carol", "c", "2026-01-01T00:00:09Z");
    c.clock.merge(&b.clock);
    let orders: Vec<Vec<StateEntry>> = vec![
        vec![a.clone(), b.clone(), c.clone()],
        vec![c.clone(), b.clone(), b.clone(), a.clone()],
        vec![b.clone(), a.clone(), c.clone(), a.clone(), b.clone()],
    ];
    let mut merged = a.clock.clone();
    merged.merge(&c.clock);
    for order in orders {
        let mut sync = make_sync();
        sync.init_room("room:game");
        sync.apply_delta(delta_of("p", order)).unwrap();
        assert_eq!(sync.get("room:game", "x").unwrap().value, text("c"));
        let clock = sync.room_clock("room:game").unwrap();
        assert_eq!(clock.partial_cmp_clock(&merged), ClockOrdering::Equal);
    }
}

#[test]
fn applying_a_delta_twice_updates_nothing() {
    let mut source = make_sync();
    source.init_room("room:game");
    source.set("room:game", "agent:alice", "x", json(1)).unwrap();
    source.set("room:game", "agent:bob", "y", json(2)).unwrap();
    let delta = source.build_delta("room:game", "agent:alice", &VectorClock::default()).unwrap();
    let bus = EventBus::default();
    let mut rx = bus.subscribe();
    let mut sync = RoomStateSync::new("mesh:test", bus);
    sync.init_room("room:game");
    assert_eq!(sync.apply_delta(delta.clone()).unwrap().len(), 2);
    match rx.try_recv().unwrap() {
        Event::PatchReady { description, .. } => {
            assert_eq!(
                description,
                "state sync from agent:alice: 2 keys updated in room:game"
            );
        }
        _ => panic!("expected PatchReady"),
    }
    assert!(sync.apply_delta(delta).unwrap().is_empty());
    assert!(rx.try_recv().is_err());
}

#[test]
fn restored_snapshot_announces_itself() {
    let mut source = make_sync();
    source.init_room("r");
    source.set_at("r", "a", "k", json(7), at(5)).unwrap();
    let snapshot = source.snapshot_at("r", at(9)).unwrap();
    assert_eq!(snapshot.created_at, at(9));
    let bus = EventBus::default();
    let mut rx = bus.subscribe();
    let mut sync = RoomStateSync::new("mesh:test", bus);
    assert_eq!(sync.restore_snapshot(snapshot).unwrap(), vec!["k"]);
    match rx.try_recv().unwrap() {
        Event::PatchReady { description, .. } => {
            assert_eq!(description, "snapshot restored: 1 keys in r");
        }
        _ => panic!("expected PatchReady"),
    }
    assert_eq!(sync.get("r", "k").unwrap().updated_at, at(5));
}

#[test]
fn nothing_is_news_to_a_caught_up_peer() {
    let mut sync = make_sync();
    sync.init_room("r");
    sync.set("r", "a", "k", json(1)).unwrap();
    sync.set("r", "b", "l", json(2)).unwrap();
    let clock = sync.room_clock("r").unwrap();
    assert!(sync.build_delta("r", "a", &clock).unwrap().entries.is_empty());
}

#[test]
fn unknown_rooms_are_errors() {
    let mut sync = make_sync();
    assert_eq!(sync.entry_count("r").unwrap_err().to_string(), "room not found: r");
    assert!(sync.set("r", "a", "k", json(1)).is_err());
    assert!(sync.list_entries("r").is_err());
    assert!(sync.snapshot("r").is_err());
    assert!(sync.room_clock("r").is_err());
    assert!(sync.build_delta("r", "a", &VectorClock::default()).is_err());
    assert!(sync.apply_delta(delta_of("p", vec![])).is_err());
    sync.init_room("r");
    assert_eq!(sync.get("r", "k").unwrap_err().to_string(), "key not found: k");
    assert!(sync.can_tick("r", "a"));
}

#[test]
fn a_used_up_clock_cannot_tick() {
    let mut sync = make_sync();
    sync.init_room("room:game");
    let mut entry = rival("agent:bob", "b", "2026-01-01T00:00:00Z");
    entry.clock.clocks.insert("agent:bob".to_string(), u64::MAX);
    sync.apply_delta(delta_of("agent:bob", vec![entry])).unwrap();
    assert!(!sync.can_tick("room:game", "agent:bob"));
    assert!(sync.can_tick("room:game", "agent:alice"));
}

#[test]
fn clock_order_laws() {
    let mut a = VectorClock::default();
    a.tick("x");
    let mut b = a.clone();
    b.tick("y");
    let mut c = b.clone();
    c.tick("x");
    assert_eq!(a.partial_cmp_clock(&b), ClockOrdering::Before);
    assert_eq!(b.partial_cmp_clock(&c), ClockOrdering::Before);
    assert_eq!(a.partial_cmp_clock(&c), ClockOrdering::Before);
    assert_eq!(c.partial_cmp_clock(&a), ClockOrdering::After);
    let mut d = a.clone();
    d.tick("z");
    assert_eq!(c.partial_cmp_clock(&d), ClockOrdering::Concurrent);
    assert_eq!(d.partial_cmp_clock(&c), ClockOrdering::Concurrent);
}

#[test]
fn restoring_takes_over_only_winners() {
    let mut source = make_sync();
    source.init_room("room:game");
    let older = rival("agent:alice", "old", "2026-01-01T00:00:00Z");
    let mut fresh = rival("agent:alice", "fresh", "2026-01-01T00:00:00Z");
    fresh.key = "y".to_string();
    source.apply_delta(delta_of("p", vec![older, fresh])).unwrap();
    let snapshot = source.snapshot("room:game").unwrap();
    let mut sync = make_sync();
    sync.init_room("room:game");
    let newer = rival("agent:bob", "new", "2026-01-01T00:00:09Z");
    sync.apply_delta(delta_of("p", vec![newer])).unwrap();
    assert_eq!(sync.restore_snapshot(snapshot).unwrap(), vec!["y"]);
    assert_eq!(sync.get("room:game", "x").unwrap().value, text("new"));
    assert_eq!(sync.get("room:game", "y").unwrap().value, text("fresh"));
}

#[test]
fn setting_a_key_leaves_the_others() {
    let mut sync = make_sync();
    sync.init_room("a");
    sync.init_room("b");
    sync.set("a", "p", "k", json(1)).unwrap();
    sync.set("b", "p", "k", json(2)).unwrap();
    sync.set("a", "q", "l", json(3)).unwrap();
    assert_eq!(sync.get("a", "k").unwrap().value, json(1));
    assert_eq!(sync.get("b", "k").unwrap().value, json(2));
    assert_eq!(sync.get("a", "l").unwrap().value, json(3));
    assert!(sync.get("b", "l").is_err());
}

#[test]
fn exchanging_snapshots_converges() {
    let mut a = make_sync();
    let mut b = make_sync();
    a.init_room("room:game");
    b.init_room("room:game");
    a.apply_delta(delta_of("p", vec![rival("agent:alice", "a", "2026-01-01T00:00:00Z")])).unwrap();
    b.apply_delta(delta_of("p", vec![rival("agent:bob", "b", "2026-01-01T00:00:05Z")])).unwrap();
    b.set("room:game", "agent:bob", "only_b", json(1)).unwrap();
    let from_a = a.snapshot("room:game").unwrap();
    let from_b = b.snapshot("room:game").unwrap();
    a.restore_snapshot(from_b).unwrap();
    b.restore_snapshot(from_a).unwrap();
    for key in ["x", "only_b"] {
        let one = a.get("room:game", key).unwrap();
        let other = b.get("room:game", key).unwrap();
        assert_eq!(one.value, other.value);
        assert!(one.clock == other.clock);
    }
    assert_eq!(a.get("room:game", "x").unwrap().value, text("b"));
}

#[test]
fn a_room_takes_what_wins() {
    let mut room = RoomState::new();
    let a = rival("agent:alice", "a", "2026-01-01T00:00:05Z");
    let b = rival("agent:bob", "b", "2026-01-01T00:00:00Z");
    assert!(room.apply_entry(a.clone()));
    assert!(!room.apply_entry(b.clone()));
    assert!(!room.apply_entry(a.clone()));
    let mut other = RoomState::new();
    assert!(other.apply_entry(b));
    assert!(other.apply_entry(a));
}
