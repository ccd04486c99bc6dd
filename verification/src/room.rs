//! Rooms of a mesh and who is in them.
use crate::events::{Event, EventBus, EventView};
use crate::table::{enumerates, lists, lists_by, opt_view, views, Table};
use crate::text::cat3;
use crate::time::{clock_reading, Timestamp};
use vstd::prelude::*;

verus! {

/// What is known of a room of a mesh.
#[derive(Debug)]
pub struct RoomInfo {
    pub room_id: String,
    pub mesh_id: String,
    pub name: String,
    pub created_at: Timestamp,
    /// How many members fit in, where that is limited.
    pub max_members: Option<usize>,
}

/// The content of a `RoomInfo`.
#[verifier::ext_equal]
pub struct RoomInfoView {
    pub room_id: Seq<char>,
    pub mesh_id: Seq<char>,
    pub name: Seq<char>,
    pub created_at: Timestamp,
    pub max_members: Option<usize>,
}

impl View for RoomInfo {
    type V = RoomInfoView;

    open spec fn view(&self) -> RoomInfoView {
        RoomInfoView {
            room_id: self.room_id@,
            mesh_id: self.mesh_id@,
            name: self.name@,
            created_at: self.created_at,
            max_members: self.max_members,
        }
    }
}

impl Clone for RoomInfo {
    fn clone(&self) -> (r: Self)
        ensures
            r@ == self@,
    {
        RoomInfo {
            room_id: self.room_id.clone(),
            mesh_id: self.mesh_id.clone(),
            name: self.name.clone(),
            created_at: self.created_at,
            max_members: self.max_members,
        }
    }
}

/// What can go wrong with rooms.
#[derive(Clone, Copy, Debug, PartialEq, Eq, Structural)]
pub enum RoomError {
    NotFound,
    AlreadyJoined,
    RoomFull,
    NotMember,
}

impl RoomError {
    /// The text of the error.
    pub open spec fn text(self) -> Seq<char> {
        match self {
            RoomError::NotFound => "room not found"@,
            RoomError::AlreadyJoined => "already joined this room"@,
            RoomError::RoomFull => "room is full"@,
            RoomError::NotMember => "not a member of this room"@,
        }
    }

    /// The text of the error.
    pub fn to_string(&self) -> (r: String)
        ensures
            r@ == self.text(),
    {
        match self {
            RoomError::NotFound => "room not found".to_owned(),
            RoomError::AlreadyJoined => "already joined this room".to_owned(),
            RoomError::RoomFull => "room is full".to_owned(),
            RoomError::NotMember => "not a member of this room".to_owned(),
        }
    }
}

/// A room and its members.
#[derive(Debug)]
pub struct Room {
    info: RoomInfo,
    members: Table<()>,
}

/// The content of a `Room`.
#[verifier::ext_equal]
pub struct RoomView {
    pub info: RoomInfoView,
    pub members: Set<Seq<char>>,
}

impl View for Room {
    type V = RoomView;

    closed spec fn view(&self) -> RoomView {
        RoomView { info: self.info@, members: self.members@.dom() }
    }
}

impl RoomView {
    /// No further agent fits in.
    pub open spec fn full(self) -> bool {
        self.info.max_members matches Some(max) && self.members.len() >= max
    }
}

/// The rooms of a mesh.
#[derive(Debug)]
pub struct RoomManager {
    mesh_id: String,
    rooms: Table<Room>,
    bus: EventBus,
}

/// The content of a `RoomManager`: the rooms, and the events it emitted.
#[verifier::ext_equal]
pub struct RoomManagerView {
    pub mesh_id: Seq<char>,
    pub rooms: Map<Seq<char>, RoomView>,
    pub log: Seq<EventView>,
    /// The channel of the bus that the events go to.
    pub channel: int,
}

impl View for RoomManager {
    type V = RoomManagerView;

    closed spec fn view(&self) -> RoomManagerView {
        RoomManagerView {
            mesh_id: self.mesh_id@,
            rooms: self.rooms@,
            log: self.bus@,
            channel: self.bus.channel(),
        }
    }
}

impl RoomManagerView {
    /// Each room is filed under its own id, belongs to the mesh, and has no more
    /// members than fit in.
    pub open spec fn wf(self) -> bool {
        forall|k: Seq<char>| #[trigger]
            self.rooms.contains_key(k) ==> {
                &&& self.rooms[k].info.room_id == k
                &&& self.rooms[k].info.mesh_id == self.mesh_id
                &&& self.rooms[k].members.finite()
                &&& self.rooms[k].info.max_members matches Some(max) ==> self.rooms[k].members.len()
                    <= max
            }
    }

    /// What a new room is.
    pub open spec fn new_room(
        self,
        room_id: Seq<char>,
        name: Seq<char>,
        max_members: Option<usize>,
        now: Timestamp,
    ) -> RoomInfoView {
        RoomInfoView { room_id, mesh_id: self.mesh_id, name, created_at: now, max_members }
    }

    /// With a new room without members.
    pub open spec fn with_new_room(self, info: RoomInfoView) -> RoomManagerView {
        RoomManagerView {
            rooms: self.rooms.insert(info.room_id, RoomView { info, members: Set::empty() }),
            ..self
        }
    }

    /// With the members of a room replaced.
    pub open spec fn with_members(self, room_id: Seq<char>, members: Set<Seq<char>>) -> RoomManagerView {
        RoomManagerView {
            rooms: self.rooms.insert(room_id, RoomView { members, ..self.rooms[room_id] }),
            ..self
        }
    }

    /// With two events emitted: `event`, and a `PatchReady` event.
    pub open spec fn emitting(self, event: EventView, description: Seq<char>) -> RoomManagerView {
        RoomManagerView {
            log: self.log.push(event).push(
                EventView::PatchReady { mesh_id: self.mesh_id, description },
            ),
            ..self
        }
    }

    /// After `agent` joined a room.
    pub open spec fn joined(self, room: Seq<char>, agent: Seq<char>) -> RoomManagerView {
        self.with_members(room, self.rooms[room].members.insert(agent)).emitting(
            EventView::RoomJoined { agent_id: agent, room_id: room },
            agent + " joined room "@ + room,
        )
    }

    /// After `agent` left a room.
    pub open spec fn left(self, room: Seq<char>, agent: Seq<char>) -> RoomManagerView {
        self.with_members(room, self.rooms[room].members.remove(agent)).emitting(
            EventView::RoomLeft { agent_id: agent, room_id: room },
            agent + " left room "@ + room,
        )
    }

    /// Why `agent` cannot join a room, if so.
    pub open spec fn join_refusal(self, room: Seq<char>, agent: Seq<char>) -> Option<RoomError> {
        if !self.rooms.contains_key(room) {
            Some(RoomError::NotFound)
        } else if self.rooms[room].members.contains(agent) {
            Some(RoomError::AlreadyJoined)
        } else if self.rooms[room].full() {
            Some(RoomError::RoomFull)
        } else {
            None
        }
    }

    /// Why `agent` cannot leave a room, if so.
    pub open spec fn leave_refusal(self, room: Seq<char>, agent: Seq<char>) -> Option<RoomError> {
        if !self.rooms.contains_key(room) {
            Some(RoomError::NotFound)
        } else if !self.rooms[room].members.contains(agent) {
            Some(RoomError::NotMember)
        } else {
            None
        }
    }
}

impl RoomManager {
    /// The channel of the bus that the events go to.
    pub open spec fn channel(&self) -> int {
        self@.channel
    }

    /// A mesh without rooms.
    pub fn new(mesh_id: &str, bus: EventBus) -> (r: Self)
        ensures
            r@ == (RoomManagerView {
                mesh_id: mesh_id@,
                rooms: Map::empty(),
                log: bus@,
                channel: bus.channel(),
            }),
            r@.wf(),
    {
        RoomManager { mesh_id: mesh_id.to_owned(), rooms: Table::new(), bus }
    }

    /// Creates a room now, unless there is one with that id.
    pub fn create_room(&mut self, room_id: &str, name: &str, max_members: Option<usize>) -> (r:
        Option<RoomInfo>)
        ensures
            r is Some <==> !old(self)@.rooms.contains_key(room_id@),
            match r {
                Some(info) => {
                    &&& clock_reading(info.created_at)
                    &&& info@ == old(self)@.new_room(room_id@, name@, max_members, info.created_at)
                    &&& final(self)@ == old(self)@.with_new_room(info@)
                },
                None => final(self)@ == old(self)@,
            },
            old(self)@.wf() ==> final(self)@.wf(),
    {
        self.create_room_at(room_id, name, max_members, Timestamp::now())
    }

    /// Creates a room at a given time, unless there is one with that id.
    pub fn create_room_at(
        &mut self,
        room_id: &str,
        name: &str,
        max_members: Option<usize>,
        now: Timestamp,
    ) -> (r: Option<RoomInfo>)
        ensures
            r is Some <==> !old(self)@.rooms.contains_key(room_id@),
            match r {
                Some(info) => {
                    &&& info@ == old(self)@.new_room(room_id@, name@, max_members, now)
                    &&& final(self)@ == old(self)@.with_new_room(info@)
                },
                None => final(self)@ == old(self)@,
            },
            old(self)@.wf() ==> final(self)@.wf(),
    {
        if self.rooms.contains_key(room_id) {
            return None;
        }
        let info = RoomInfo {
            room_id: room_id.to_owned(),
            mesh_id: self.mesh_id.clone(),
            name: name.to_owned(),
            created_at: now,
            max_members,
        };
        let room = Room { info: info.clone(), members: Table::new() };
        proof {
            assert(room@.members =~= Set::<Seq<char>>::empty());
        }
        self.rooms.insert(room_id.to_owned(), room);
        Some(info)
    }

    /// Lets an agent join a room.
    pub fn join_room(&mut self, room_id: &str, agent_id: &str) -> (r: Result<(), RoomError>)
        ensures
            match old(self)@.join_refusal(room_id@, agent_id@) {
                Some(e) => r == Err::<(), RoomError>(e) && final(self)@ == old(self)@,
                None => r is Ok && final(self)@ == old(self)@.joined(room_id@, agent_id@),
            },
            old(self)@.wf() ==> final(self)@.wf(),
    {
        let ghost start = self@;
        match self.rooms.get(room_id) {
            None => {
                return Err(RoomError::NotFound);
            },
            Some(room) => {
                if room.members.contains_key(agent_id) {
                    return Err(RoomError::AlreadyJoined);
                }
                if let Some(max) = room.info.max_members {
                    if room.members.len() >= max {
                        return Err(RoomError::RoomFull);
                    }
                }
            },
        }
        if let Some(mut room) = self.rooms.remove(room_id) {
            room.members.insert(agent_id.to_owned(), ());
            assert(room@.members =~= start.rooms[room_id@].members.insert(agent_id@));
            self.rooms.insert(room_id.to_owned(), room);
        }
        let _ = self.bus.emit(
            Event::RoomJoined { agent_id: agent_id.to_owned(), room_id: room_id.to_owned() },
        );
        let notice = cat3(agent_id, " joined room ", room_id);
        let _ = self.bus.emit_patch_ready(self.mesh_id.as_str(), notice.as_str());
        assert(self@.rooms =~= start.joined(room_id@, agent_id@).rooms);
        Ok(())
    }

    /// Lets an agent leave a room.
    pub fn leave_room(&mut self, room_id: &str, agent_id: &str) -> (r: Result<(), RoomError>)
        ensures
            match old(self)@.leave_refusal(room_id@, agent_id@) {
                Some(e) => r == Err::<(), RoomError>(e) && final(self)@ == old(self)@,
                None => r is Ok && final(self)@ == old(self)@.left(room_id@, agent_id@),
            },
            old(self)@.wf() ==> final(self)@.wf(),
    {
        let ghost start = self@;
        match self.rooms.get(room_id) {
            None => {
                return Err(RoomError::NotFound);
            },
            Some(room) => {
                if !room.members.contains_key(agent_id) {
                    return Err(RoomError::NotMember);
                }
            },
        }
        if let Some(mut room) = self.rooms.remove(room_id) {
            let _ = room.members.remove(agent_id);
            assert(room@.members =~= start.rooms[room_id@].members.remove(agent_id@));
            self.rooms.insert(room_id.to_owned(), room);
        }
        let _ = self.bus.emit(
            Event::RoomLeft { agent_id: agent_id.to_owned(), room_id: room_id.to_owned() },
        );
        let notice = cat3(agent_id, " left room ", room_id);
        let _ = self.bus.emit_patch_ready(self.mesh_id.as_str(), notice.as_str());
        assert(self@.rooms =~= start.left(room_id@, agent_id@).rooms);
        Ok(())
    }

    /// The members of a room, each once.
    pub fn room_members(&self, room_id: &str) -> (r: Result<Vec<String>, RoomError>)
        ensures
            match r {
                Ok(members) => {
                    &&& self@.rooms.contains_key(room_id@)
                    &&& views(members@).no_duplicates()
                    &&& views(members@).to_set() == self@.rooms[room_id@].members
                },
                Err(e) => !self@.rooms.contains_key(room_id@) && e == RoomError::NotFound,
            },
    {
        match self.rooms.get(room_id) {
            None => Err(RoomError::NotFound),
            Some(room) => {
                let members = room.members.key_list();
                assert(views(members@).to_set() =~= self@.rooms[room_id@].members);
                Ok(members)
            },
        }
    }

    /// All the rooms.
    pub fn list_rooms(&self) -> (r: Vec<RoomInfo>)
        ensures
            lists(views(r@), self@.rooms.map_values(|room: RoomView| room.info)),
    {
        let mut r: Vec<RoomInfo> = Vec::new();
        let n: usize = self.rooms.len();
        let mut i: usize = 0;
        while i < n
            invariant
                i <= n,
                r@.len() == i,
                n == self.rooms.keys().len(),
                enumerates(self.rooms.keys(), self@.rooms),
                forall|j: int|
                    0 <= j < i ==> (#[trigger] r@[j])@ == self@.rooms[self.rooms.keys()[j]].info,
            decreases n - i,
        {
            r.push(self.rooms.value_at(i).info.clone());
            i = i + 1;
        }
        proof {
            let goal = self@.rooms.map_values(|room: RoomView| room.info);
            assert(lists_by(views(r@), self.rooms.keys(), goal));
        }
        r
    }

    /// What is known of a room.
    pub fn get_room(&self, room_id: &str) -> (r: Option<RoomInfo>)
        ensures
            opt_view(r) == (if self@.rooms.contains_key(room_id@) {
                Some(self@.rooms[room_id@].info)
            } else {
                None
            }),
    {
        match self.rooms.get(room_id) {
            Some(room) => Some(room.info.clone()),
            None => None,
        }
    }

    /// The number of members of a room.
    pub fn member_count(&self, room_id: &str) -> (r: Result<usize, RoomError>)
        ensures
            match r {
                Ok(n) => self@.rooms.contains_key(room_id@) && n
                    == self@.rooms[room_id@].members.len(),
                Err(e) => !self@.rooms.contains_key(room_id@) && e == RoomError::NotFound,
            },
    {
        match self.rooms.get(room_id) {
            None => Err(RoomError::NotFound),
            Some(room) => Ok(room.members.len()),
        }
    }
}

/// An agent that could join a room can leave it again, and the rooms are then as
/// they were.
pub proof fn leaving_undoes_joining(rooms: RoomManagerView, room: Seq<char>, agent: Seq<char>)
    requires
        rooms.join_refusal(room, agent) is None,
    ensures
        rooms.joined(room, agent).leave_refusal(room, agent) is None,
        rooms.joined(room, agent).left(room, agent).rooms == rooms.rooms,
{
    let back = rooms.joined(room, agent).left(room, agent);
    assert(rooms.rooms[room].members.insert(agent).remove(agent) =~= rooms.rooms[room].members);
    assert(back.rooms =~= rooms.rooms);
}

/// An agent that left a room can join it again, and the rooms are then as they
/// were.
pub proof fn rejoining_undoes_leaving(rooms: RoomManagerView, room: Seq<char>, agent: Seq<char>)
    requires
        rooms.wf(),
        rooms.leave_refusal(room, agent) is None,
    ensures
        rooms.left(room, agent).join_refusal(room, agent) is None,
        rooms.left(room, agent).joined(room, agent).rooms == rooms.rooms,
{
    let back = rooms.left(room, agent).joined(room, agent);
    assert(rooms.rooms[room].members.remove(agent).insert(agent) =~= rooms.rooms[room].members);
    assert(back.rooms =~= rooms.rooms);
}

/// An agent that joined a room is refused a second time, as already joined.
pub proof fn joining_twice_is_refused(rooms: RoomManagerView, room: Seq<char>, agent: Seq<char>)
    requires
        rooms.join_refusal(room, agent) is None,
    ensures
        rooms.joined(room, agent).join_refusal(room, agent) == Some(RoomError::AlreadyJoined),
{
}

/// An agent can join exactly a room that exists, that it is not in, and that has no limit
/// or fewer members than it; otherwise the reason is given, the first that applies.
pub proof fn who_can_join_a_room(rooms: RoomManagerView, room: Seq<char>, agent: Seq<char>)
    ensures
        rooms.join_refusal(room, agent) is None <==> rooms.rooms.contains_key(room)
            && !rooms.rooms[room].members.contains(agent) && (
        rooms.rooms[room].info.max_members is None || rooms.rooms[room].members.len()
            < rooms.rooms[room].info.max_members->0),
        rooms.join_refusal(room, agent) == Some(RoomError::NotFound) <==> !rooms.rooms.contains_key(
            room,
        ),
        rooms.join_refusal(room, agent) == Some(RoomError::AlreadyJoined)
            <==> rooms.rooms.contains_key(room) && rooms.rooms[room].members.contains(agent),
        rooms.join_refusal(room, agent) != Some(RoomError::NotMember),
{
}

/// An agent can leave exactly a room that it is in.
pub proof fn who_can_leave_a_room(rooms: RoomManagerView, room: Seq<char>, agent: Seq<char>)
    ensures
        rooms.leave_refusal(room, agent) is None <==> rooms.rooms.contains_key(room)
            && rooms.rooms[room].members.contains(agent),
        rooms.leave_refusal(room, agent) == Some(RoomError::NotFound)
            <==> !rooms.rooms.contains_key(room),
        rooms.leave_refusal(room, agent) is Some && rooms.rooms.contains_key(room)
            ==> rooms.leave_refusal(room, agent) == Some(RoomError::NotMember),
{
}

/// Joining and leaving change the membership of one agent in one room, leave what is
/// known of the room, and are announced by two events each.
pub proof fn joining_and_leaving_concern_one_member(
    rooms: RoomManagerView,
    room: Seq<char>,
    agent: Seq<char>,
    other: Seq<char>,
)
    requires
        rooms.rooms.contains_key(room),
    ensures
        rooms.joined(room, agent).rooms[room].members.contains(agent),
        !rooms.left(room, agent).rooms[room].members.contains(agent),
        other != agent ==> (rooms.joined(room, agent).rooms[room].members.contains(other)
            <==> rooms.rooms[room].members.contains(other)) && (rooms.left(
            room,
            agent,
        ).rooms[room].members.contains(other) <==> rooms.rooms[room].members.contains(other)),
        rooms.joined(room, agent).rooms[room].info == rooms.rooms[room].info,
        rooms.left(room, agent).rooms[room].info == rooms.rooms[room].info,
        rooms.joined(room, agent).rooms.remove(room) == rooms.rooms.remove(room),
        rooms.left(room, agent).rooms.remove(room) == rooms.rooms.remove(room),
        rooms.joined(room, agent).log == rooms.log.push(
            EventView::RoomJoined { agent_id: agent, room_id: room },
        ).push(
            EventView::PatchReady {
                mesh_id: rooms.mesh_id,
                description: agent + " joined room "@ + room,
            },
        ),
        rooms.left(room, agent).log == rooms.log.push(
            EventView::RoomLeft { agent_id: agent, room_id: room },
        ).push(
            EventView::PatchReady {
                mesh_id: rooms.mesh_id,
                description: agent + " left room "@ + room,
            },
        ),
{
    assert(rooms.joined(room, agent).rooms.remove(room) =~= rooms.rooms.remove(room));
    assert(rooms.left(room, agent).rooms.remove(room) =~= rooms.rooms.remove(room));
}

/// A new room is as asked for, belongs to the mesh, has no members, emits nothing, and
/// leaves the other rooms.
pub proof fn a_new_room_is_as_asked_for(
    rooms: RoomManagerView,
    room_id: Seq<char>,
    name: Seq<char>,
    max_members: Option<usize>,
    now: Timestamp,
)
    ensures
        ({
            let info = rooms.new_room(room_id, name, max_members, now);
            let after = rooms.with_new_room(info);
            &&& info.room_id == room_id
            &&& info.mesh_id == rooms.mesh_id
            &&& info.name == name
            &&& info.max_members == max_members
            &&& info.created_at == now
            &&& after.rooms.contains_key(room_id)
            &&& after.rooms[room_id].info == info
            &&& after.rooms[room_id].members == Set::<Seq<char>>::empty()
            &&& after.rooms.remove(room_id) == rooms.rooms.remove(room_id)
            &&& after.log == rooms.log
        }),
{
    let after = rooms.with_new_room(rooms.new_room(room_id, name, max_members, now));
    assert(after.rooms.remove(room_id) =~= rooms.rooms.remove(room_id));
}

/// In well-formed rooms each is filed under its own id, belongs to the mesh, and has no more
/// members than fit in.
pub proof fn rooms_keep_their_limits(rooms: RoomManagerView, room: Seq<char>)
    requires
        rooms.wf(),
        rooms.rooms.contains_key(room),
    ensures
        rooms.rooms[room].info.room_id == room,
        rooms.rooms[room].info.mesh_id == rooms.mesh_id,
        rooms.rooms[room].members.finite(),
        rooms.rooms[room].info.max_members is Some ==> rooms.rooms[room].members.len()
            <= rooms.rooms[room].info.max_members->0,
{
}

} // verus!
