use clawmesh::{Event, EventBus, RoomError, RoomManager, Timestamp};

fn make_manager() -> RoomManager {
    RoomManager::new("mesh:test", EventBus::default())
}

#[test]
fn create_and_join() {
    let mut mgr = make_manager();
    let room = mgr.create_room("room:lobby", "Lobby", None);
    assert!(room.is_some());
    mgr.join_room("room:lobby", "agent:alice").unwrap();
    let members = mgr.room_members("room:lobby").unwrap();
    assert_eq!(members.len(), 1);
    assert!(members.contains(&"agent:alice".to_string()));
}

#[test]
fn duplicate_room_returns_none() {
    let mut mgr = make_manager();
    assert!(mgr.create_room("room:a", "A", None).is_some());
    assert!(mgr.create_room("room:a", "A2", None).is_none());
}

#[test]
fn room_join_nonexistent_room() {
    let mut mgr = make_manager();
    let err = mgr.join_room("room:missing", "agent:alice");
    assert!(matches!(err, Err(RoomError::NotFound)));
}

#[test]
fn double_join_rejected() {
    let mut mgr = make_manager();
    mgr.create_room("room:a", "A", None);
    mgr.join_room("room:a", "agent:alice").unwrap();
    let err = mgr.join_room("room:a", "agent:alice");
    assert!(matches!(err, Err(RoomError::AlreadyJoined)));
}

#[test]
fn room_full() {
    let mut mgr = make_manager();
    mgr.create_room("room:small", "Small", Some(1));
    mgr.join_room("room:small", "agent:alice").unwrap();
    let err = mgr.join_room("room:small", "agent:bob");
    assert!(matches!(err, Err(RoomError::RoomFull)));
}

#[test]
fn leave_and_rejoin() {
    let mut mgr = make_manager();
    mgr.create_room("room:a", "A", None);
    mgr.join_room("room:a", "agent:alice").unwrap();
    mgr.leave_room("room:a", "agent:alice").unwrap();
    assert_eq!(mgr.member_count("room:a").unwrap(), 0);
    mgr.join_room("room:a", "agent:alice").unwrap();
    assert_eq!(mgr.member_count("room:a").unwrap(), 1);
}

#[test]
fn leave_nonmember() {
    let mut mgr = make_manager();
    mgr.create_room("room:a", "A", None);
    let err = mgr.leave_room("room:a", "agent:ghost");
    assert!(matches!(err, Err(RoomError::NotMember)));
}

#[test]
fn list_rooms() {
    let mut mgr = make_manager();
    mgr.create_room("room:a", "Alpha", None);
    mgr.create_room("room:b", "Beta", None);
    let rooms = mgr.list_rooms();
    assert_eq!(rooms.len(), 2);
}

#[test]
fn events_emitted_on_join_and_leave() {
    let bus = EventBus::default();
    let mut rx = bus.subscribe();
    let mut mgr = RoomManager::new("mesh:test", bus);
    mgr.create_room("room:a", "A", None);
    mgr.join_room("room:a", "agent:alice").unwrap();
    let e1 = rx.try_recv().unwrap();
    assert!(matches!(e1, Event::RoomJoined { .. }));
    let e2 = rx.try_recv().unwrap();
    assert!(matches!(e2, Event::PatchReady { .. }));
    mgr.leave_room("room:a", "agent:alice").unwrap();
    let e3 = rx.try_recv().unwrap();
    assert!(matches!(e3, Event::RoomLeft { .. }));
    let e4 = rx.try_recv().unwrap();
    assert!(matches!(e4, Event::PatchReady { .. }));
}

#[test]
fn room_info_is_kept() {
    let mut mgr = make_manager();
    let now = Timestamp::parse("2026-02-20T14:00:00Z").unwrap();
    mgr.create_room_at("room:a", "Alpha", Some(3), now).unwrap();
    let info = mgr.get_room("room:a").unwrap();
    assert_eq!(info.name, "Alpha");
    assert_eq!(info.mesh_id, "mesh:test");
    assert_eq!(info.max_members, Some(3));
    assert_eq!(info.created_at, now);
    assert!(mgr.get_room("room:b").is_none());
}

#[test]
fn a_room_for_no_one_is_full() {
    let mut mgr = make_manager();
    mgr.create_room("room:none", "None", Some(0));
    assert!(matches!(mgr.join_room("room:none", "agent:alice"), Err(RoomError::RoomFull)));
    assert_eq!(mgr.member_count("room:none").unwrap(), 0);
}

#[test]
fn unknown_rooms_are_not_found() {
    let mut mgr = make_manager();
    assert!(matches!(mgr.leave_room("r", "a"), Err(RoomError::NotFound)));
    assert!(matches!(mgr.room_members("r"), Err(RoomError::NotFound)));
    assert!(matches!(mgr.member_count("r"), Err(RoomError::NotFound)));
    assert_eq!(RoomError::NotFound.to_string(), "room not found");
    assert_eq!(RoomError::AlreadyJoined.to_string(), "already joined this room");
    assert_eq!(RoomError::RoomFull.to_string(), "room is full");
    assert_eq!(RoomError::NotMember.to_string(), "not a member of this room");
}
