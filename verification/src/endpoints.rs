//! What the gateway answers at its endpoints.
use crate::auth::{
    AuthChallenge, AuthConfirm, AuthConfirmView, AuthError, AuthErrorView, AuthHello, AuthResponse,
    AuthenticatedPeerView, CHALLENGE_LEN,
};
use crate::crypto::{base64_bytes, Base64Error, CryptoError, PublicKeyBytes};
use crate::discovery::{
    news_for, PeerEntry, PeerEntryView, PeerQuery, PeerQueryView, PeerStatus,
};
use crate::federation::{FederationError, FederationErrorView, MeshLink, MeshLinkStateView};
use crate::gateway::{failure, parse_status, status_named, Failure, FailureView, Status};
use crate::gossip::{GossipMessage, GossipMessageView};
use crate::matchmaking::{
    MatchError, MatchErrorView, MatchRequest, MatchRequestView, MatchmakerView, PeerOffer,
    PeerOfferView, ScheduleSlot, ScheduleSlotView, SkillRange, SlotState, TimeWindow,
};
use crate::node::{MeshNode, MeshNodeView};
use crate::room::{RoomError, RoomInfo, RoomInfoView, RoomView};
use crate::room_state::{
    clock_at, RoomStateView, StateDelta, StateEntry, StateEntryView, StateError, StateErrorView,
    StateSnapshot, StateSnapshotView,
};
use crate::signal::{SignalError, SignalErrorView, SignalMessage};
use crate::table::{
    lemma_lists_empty, lemma_lists_mapped, lists, only, opt_view, result_view, views,
};
use crate::text::{cat3, cat5, same};
use crate::time::{clock_reading, Timestamp};
use vstd::prelude::*;

verus! {

/// The answer to a health check.
#[derive(Debug)]
pub struct HealthResponse {
    pub status: &'static str,
    pub service: &'static str,
}

/// The content of a `HealthResponse`.
#[verifier::ext_equal]
pub struct HealthResponseView {
    pub status: Seq<char>,
    pub service: Seq<char>,
}

impl View for HealthResponse {
    type V = HealthResponseView;

    open spec fn view(&self) -> HealthResponseView {
        HealthResponseView {
            status: self.status@,
            service: self.service@,
        }
    }
}

impl Clone for HealthResponse {
    fn clone(&self) -> (r: Self)
        ensures
            r@ == self@,
    {
        HealthResponse {
            status: self.status,
            service: self.service,
        }
    }
}

/// The state of the signal relay.
#[derive(Debug)]
pub struct RelayStatusResponse {
    pub status: &'static str,
    pub registered_peers: usize,
}

/// The content of a `RelayStatusResponse`.
#[verifier::ext_equal]
pub struct RelayStatusResponseView {
    pub status: Seq<char>,
    pub registered_peers: usize,
}

impl View for RelayStatusResponse {
    type V = RelayStatusResponseView;

    open spec fn view(&self) -> RelayStatusResponseView {
        RelayStatusResponseView {
            status: self.status@,
            registered_peers: self.registered_peers,
        }
    }
}

impl Clone for RelayStatusResponse {
    fn clone(&self) -> (r: Self)
        ensures
            r@ == self@,
    {
        RelayStatusResponse {
            status: self.status,
            registered_peers: self.registered_peers,
        }
    }
}

/// The state of gossip.
#[derive(Debug)]
pub struct GossipStatusResponse {
    pub node_id: String,
    pub connected_peers: usize,
    pub registry_size: usize,
}

/// The content of a `GossipStatusResponse`.
#[verifier::ext_equal]
pub struct GossipStatusResponseView {
    pub node_id: Seq<char>,
    pub connected_peers: usize,
    pub registry_size: usize,
}

impl View for GossipStatusResponse {
    type V = GossipStatusResponseView;

    open spec fn view(&self) -> GossipStatusResponseView {
        GossipStatusResponseView {
            node_id: self.node_id@,
            connected_peers: self.connected_peers,
            registry_size: self.registry_size,
        }
    }
}

impl Clone for GossipStatusResponse {
    fn clone(&self) -> (r: Self)
        ensures
            r@ == self@,
    {
        GossipStatusResponse {
            node_id: self.node_id.clone(),
            connected_peers: self.connected_peers,
            registry_size: self.registry_size,
        }
    }
}

/// The answer to a gossip message.
#[derive(Debug)]
pub struct GossipExchangeResponse {
    pub status: &'static str,
    pub message: Option<GossipMessage>,
}

/// The content of a `GossipExchangeResponse`.
#[verifier::ext_equal]
pub struct GossipExchangeResponseView {
    pub status: Seq<char>,
    pub message: Option<GossipMessageView>,
}

impl View for GossipExchangeResponse {
    type V = GossipExchangeResponseView;

    open spec fn view(&self) -> GossipExchangeResponseView {
        GossipExchangeResponseView {
            status: self.status@,
            message: opt_view(self.message),
        }
    }
}

impl Clone for GossipExchangeResponse {
    fn clone(&self) -> (r: Self)
        ensures
            r@ == self@,
    {
        GossipExchangeResponse {
            status: self.status,
            message: self.message.clone(),
        }
    }
}

/// The answer to the creation of a room.
#[derive(Debug)]
pub struct RoomResponse {
    pub status: &'static str,
    pub room: Option<RoomInfo>,
}

/// The content of a `RoomResponse`.
#[verifier::ext_equal]
pub struct RoomResponseView {
    pub status: Seq<char>,
    pub room: Option<RoomInfoView>,
}

impl View for RoomResponse {
    type V = RoomResponseView;

    open spec fn view(&self) -> RoomResponseView {
        RoomResponseView {
            status: self.status@,
            room: opt_view(self.room),
        }
    }
}

impl Clone for RoomResponse {
    fn clone(&self) -> (r: Self)
        ensures
            r@ == self@,
    {
        RoomResponse {
            status: self.status,
            room: self.room.clone(),
        }
    }
}

/// The state of federation.
#[derive(Debug)]
pub struct FederationStatusResponse {
    pub local_mesh_id: String,
    pub linked_meshes: usize,
}

/// The content of a `FederationStatusResponse`.
#[verifier::ext_equal]
pub struct FederationStatusResponseView {
    pub local_mesh_id: Seq<char>,
    pub linked_meshes: usize,
}

impl View for FederationStatusResponse {
    type V = FederationStatusResponseView;

    open spec fn view(&self) -> FederationStatusResponseView {
        FederationStatusResponseView {
            local_mesh_id: self.local_mesh_id@,
            linked_meshes: self.linked_meshes,
        }
    }
}

impl Clone for FederationStatusResponse {
    fn clone(&self) -> (r: Self)
        ensures
            r@ == self@,
    {
        FederationStatusResponse {
            local_mesh_id: self.local_mesh_id.clone(),
            linked_meshes: self.linked_meshes,
        }
    }
}

/// The answer to a change of the links.
#[derive(Debug)]
pub struct LinkResponse {
    pub status: &'static str,
    pub mesh_id: String,
}

/// The content of a `LinkResponse`.
#[verifier::ext_equal]
pub struct LinkResponseView {
    pub status: Seq<char>,
    pub mesh_id: Seq<char>,
}

impl View for LinkResponse {
    type V = LinkResponseView;

    open spec fn view(&self) -> LinkResponseView {
        LinkResponseView {
            status: self.status@,
            mesh_id: self.mesh_id@,
        }
    }
}

impl Clone for LinkResponse {
    fn clone(&self) -> (r: Self)
        ensures
            r@ == self@,
    {
        LinkResponse {
            status: self.status,
            mesh_id: self.mesh_id.clone(),
        }
    }
}

/// The answer to a response to a challenge.
#[derive(Debug)]
pub struct AuthRespondResult {
    pub status: &'static str,
    pub agent_id: String,
}

/// The content of a `AuthRespondResult`.
#[verifier::ext_equal]
pub struct AuthRespondResultView {
    pub status: Seq<char>,
    pub agent_id: Seq<char>,
}

impl View for AuthRespondResult {
    type V = AuthRespondResultView;

    open spec fn view(&self) -> AuthRespondResultView {
        AuthRespondResultView {
            status: self.status@,
            agent_id: self.agent_id@,
        }
    }
}

impl Clone for AuthRespondResult {
    fn clone(&self) -> (r: Self)
        ensures
            r@ == self@,
    {
        AuthRespondResult {
            status: self.status,
            agent_id: self.agent_id.clone(),
        }
    }
}

/// The answer to a purge.
#[derive(Debug)]
pub struct PurgeResponse {
    pub status: &'static str,
}

/// The content of a `PurgeResponse`.
#[verifier::ext_equal]
pub struct PurgeResponseView {
    pub status: Seq<char>,
}

impl View for PurgeResponse {
    type V = PurgeResponseView;

    open spec fn view(&self) -> PurgeResponseView {
        PurgeResponseView {
            status: self.status@,
        }
    }
}

impl Clone for PurgeResponse {
    fn clone(&self) -> (r: Self)
        ensures
            r@ == self@,
    {
        PurgeResponse {
            status: self.status,
        }
    }
}

/// The health of the gateway.
pub fn health() -> (r: HealthResponse)
    ensures
        r@ == (HealthResponseView { status: "ok"@, service: "clawmesh-gateway"@ }),
{
    HealthResponse { status: "ok", service: "clawmesh-gateway" }
}

/// All the peers.
pub fn list_peers(node: &MeshNode) -> (r: Vec<PeerEntry>)
    ensures
        lists(views(r@), node@.registry().peers),
{
    node.registry().list_peers()
}

/// The query that search parameters stand for.
pub open spec fn search_query(
    capability: Option<Seq<char>>,
    status: Option<Seq<char>>,
    mesh_id: Option<Seq<char>>,
) -> PeerQueryView {
    PeerQueryView {
        status: match status {
            Some(s) => Some(status_named(s)),
            None => None,
        },
        capability,
        mesh_id,
    }
}

/// The peers that pass the given filters.
pub fn search_peers(
    node: &MeshNode,
    capability: Option<String>,
    status: Option<String>,
    mesh_id: Option<String>,
) -> (r: Vec<PeerEntry>)
    ensures
        lists(
            views(r@),
            only(
                node@.registry().peers,
                |p: PeerEntryView|
                    search_query(opt_view(capability), opt_view(status), opt_view(mesh_id)).admits(p),
            ),
        ),
{
    let ghost wanted = search_query(opt_view(capability), opt_view(status), opt_view(mesh_id));
    let query = PeerQuery {
        status: match status {
            Some(s) => Some(parse_status(s.as_str())),
            None => None,
        },
        capability,
        mesh_id,
    };
    assert(query@ =~= wanted);
    node.registry().search_peers(&query)
}

/// What is answered once a signaling message was relayed or was not.
pub fn relay_answer(outcome: Result<(), SignalError>) -> (r: Result<Status, Failure>)
    ensures
        match outcome {
            Ok(_) => r matches Ok(s) && s == Status::Accepted,
            Err(e) => r matches Err(f) && f@ == relay_failure(e@),
        },
{
    match outcome {
        Ok(_) => Ok(Status::Accepted),
        Err(e) => Err(failure(Status::NotFound, "relay_failed", e.to_string())),
    }
}

/// The refusal of a signaling message.
pub open spec fn relay_failure(e: SignalErrorView) -> FailureView {
    FailureView { status: Status::NotFound, error: "relay_failed"@, detail: e.text() }
}

/// Relays a signaling message.
pub fn relay_signal(node: &mut MeshNode, msg: SignalMessage) -> (r: Result<Status, Failure>)
    ensures
        exists|taken: bool|
            {
                &&& final(node)@ == (MeshNodeView {
                    relay: #[trigger] old(node)@.relay.after_relay(msg@, taken),
                    ..old(node)@
                })
                &&& match old(node)@.relay.relay_outcome(msg@, taken) {
                    Ok(_) => r matches Ok(s) && s == Status::Accepted,
                    Err(e) => r matches Err(f) && f@ == relay_failure(e),
                }
            },
        forall|id: Seq<char>|
            old(node)@.relay.peers.contains_key(id) ==> #[trigger] final(node).relay_queue(id)
                == old(node).relay_queue(id),
        old(node)@.wf() ==> final(node)@.wf(),
{
    let outcome = node.relay_mut().relay(msg);
    relay_answer(outcome)
}

/// The state of the signal relay.
pub fn relay_status(node: &MeshNode) -> (r: RelayStatusResponse)
    ensures
        r@.status == "ok"@,
        r@.registered_peers == node@.relay.peers.len(),
{
    RelayStatusResponse { status: "ok", registered_peers: node.relay().peer_count() }
}

/// Handles a gossip message of a remote node: a pull is answered with a push, a push
/// is merged into the registry.
pub fn gossip_exchange(node: &mut MeshNode, message: GossipMessage) -> (r: GossipExchangeResponse)
    ensures
        r@.status == "ok"@,
        match message@ {
            GossipMessageView::Pull(pull) => {
                &&& final(node)@ == old(node)@
                &&& r@.message matches Some(GossipMessageView::Push(push))
                &&& lists(
                    (r@.message->0->Push_0).entries,
                    news_for(old(node)@.registry().peers, pull.digests),
                )
            },
            GossipMessageView::Push(push) => {
                &&& final(node)@ == old(node)@.with_registry(
                    old(node)@.registry().heard_all(push.entries),
                )
                &&& r@.message is None
            },
        },
        old(node)@.wf() ==> final(node)@.wf(),
{
    match message {
        GossipMessage::Pull(pull) => {
            let push = node.registry().handle_gossip_pull(pull);
            GossipExchangeResponse { status: "ok", message: Some(GossipMessage::Push(push)) }
        },
        GossipMessage::Push(push) => {
            node.registry_mut().merge_gossip_push(push);
            GossipExchangeResponse { status: "ok", message: None }
        },
    }
}

/// The state of gossip.
pub fn gossip_status(node: &MeshNode) -> (r: GossipStatusResponse)
    ensures
        r@.node_id == node@.gossip.node_id,
        r@.connected_peers == node@.gossip.peers.len(),
        r@.registry_size == node@.registry().peers.len(),
{
    GossipStatusResponse {
        node_id: node.gossip().node_id().to_owned(),
        connected_peers: node.gossip().peer_count(),
        registry_size: node.registry().peer_count(),
    }
}

/// Creates a room now, and starts tracking its state.
pub fn create_room(node: &mut MeshNode, room_id: &str, name: &str, max_members: Option<usize>) -> (r:
    Result<(Status, RoomResponse), Failure>)
    ensures
        r is Ok <==> !old(node)@.rooms.rooms.contains_key(room_id@),
        match r {
            Ok((status, body)) => {
                &&& status == Status::Created
                &&& body@.status == "created"@
                &&& body@.room is Some
                &&& body@.room->0 == old(node)@.rooms.new_room(
                    room_id@,
                    name@,
                    max_members,
                    (body@.room->0).created_at,
                )
                &&& clock_reading((body@.room->0).created_at)
                &&& final(node)@ == (MeshNodeView {
                    rooms: old(node)@.rooms.with_new_room(body@.room->0),
                    state: if old(node)@.state.rooms.contains_key(room_id@) {
                        old(node)@.state
                    } else {
                        old(node)@.state.with_room(room_id@, RoomStateView::fresh())
                    },
                    ..old(node)@
                })
            },
            Err(f) => f@ == (FailureView {
                status: Status::Conflict,
                error: "room_exists"@,
                detail: "room "@ + room_id@ + " already exists"@,
            }) && final(node)@ == old(node)@,
        },
        old(node)@.wf() ==> final(node)@.wf(),
{
    match node.rooms_mut().create_room(room_id, name, max_members) {
        Some(info) => {
            node.state_mut().init_room(room_id);
            Ok((Status::Created, RoomResponse { status: "created", room: Some(info) }))
        },
        None => {
            let detail = cat3("room ", room_id, " already exists");
            Err(failure(Status::Conflict, "room_exists", detail))
        },
    }
}

/// All the rooms.
pub fn list_rooms(node: &MeshNode) -> (r: Vec<RoomInfo>)
    ensures
        lists(views(r@), node@.rooms.rooms.map_values(|room: RoomView| room.info)),
{
    node.rooms().list_rooms()
}

/// Lets an agent join a room.
pub fn join_room(node: &mut MeshNode, room_id: &str, agent_id: &str) -> (r: Result<Status, Failure>)
    ensures
        match old(node)@.rooms.join_refusal(room_id@, agent_id@) {
            Some(e) => {
                &&& r matches Err(f) && f@ == (FailureView {
                    status: Status::BadRequest,
                    error: "join_failed"@,
                    detail: e.text(),
                })
                &&& final(node)@ == old(node)@
            },
            None => {
                &&& r matches Ok(s) && s == Status::Success
                &&& final(node)@ == (MeshNodeView {
                    rooms: old(node)@.rooms.joined(room_id@, agent_id@),
                    ..old(node)@
                })
            },
        },
        old(node)@.wf() ==> final(node)@.wf(),
{
    match node.rooms_mut().join_room(room_id, agent_id) {
        Ok(_) => Ok(Status::Success),
        Err(e) => Err(failure(Status::BadRequest, "join_failed", e.to_string())),
    }
}

/// Lets an agent leave a room.
pub fn leave_room(node: &mut MeshNode, room_id: &str, agent_id: &str) -> (r: Result<
    Status,
    Failure,
>)
    ensures
        match old(node)@.rooms.leave_refusal(room_id@, agent_id@) {
            Some(e) => {
                &&& r matches Err(f) && f@ == (FailureView {
                    status: Status::BadRequest,
                    error: "leave_failed"@,
                    detail: e.text(),
                })
                &&& final(node)@ == old(node)@
            },
            None => {
                &&& r matches Ok(s) && s == Status::Success
                &&& final(node)@ == (MeshNodeView {
                    rooms: old(node)@.rooms.left(room_id@, agent_id@),
                    ..old(node)@
                })
            },
        },
        old(node)@.wf() ==> final(node)@.wf(),
{
    match node.rooms_mut().leave_room(room_id, agent_id) {
        Ok(_) => Ok(Status::Success),
        Err(e) => Err(failure(Status::BadRequest, "leave_failed", e.to_string())),
    }
}

/// The members of a room, each once.
pub fn room_members(node: &MeshNode, room_id: &str) -> (r: Result<Vec<String>, Failure>)
    ensures
        r is Ok <==> node@.rooms.rooms.contains_key(room_id@),
        match r {
            Ok(members) => {
                &&& views(members@).no_duplicates()
                &&& views(members@).to_set() == node@.rooms.rooms[room_id@].members
            },
            Err(f) => f@ == (FailureView {
                status: Status::NotFound,
                error: "room_not_found"@,
                detail: RoomError::NotFound.text(),
            }),
        },
{
    match node.rooms().room_members(room_id) {
        Ok(members) => Ok(members),
        Err(e) => Err(failure(Status::NotFound, "room_not_found", e.to_string())),
    }
}

/// The refusal of an operation on room state.
pub open spec fn state_failure_view(e: StateErrorView) -> FailureView {
    FailureView { status: Status::NotFound, error: "state_error"@, detail: e.text() }
}

fn state_failure(e: &StateError) -> (r: Failure)
    ensures
        r@ == state_failure_view(e@),
{
    failure(Status::NotFound, "state_error", e.to_string())
}

/// Sets a state key of a room now.
pub fn set_state(
    node: &mut MeshNode,
    room_id: &str,
    agent_id: &str,
    key: &str,
    value: serde_json::Value,
) -> (r: Result<(Status, StateEntry), Failure>)
    requires
        old(node)@.state.rooms.contains_key(room_id@) ==> clock_at(
            old(node)@.state.rooms[room_id@].clock,
            agent_id@,
        ) < u64::MAX,
    ensures
        r is Ok <==> old(node)@.state.rooms.contains_key(room_id@),
        match r {
            Ok((status, e)) => {
                let room = old(node)@.state.rooms[room_id@];
                &&& status == Status::Success
                &&& clock_reading(e.updated_at)
                &&& e@ == room.written(agent_id@, key@, value, e.updated_at)
                &&& final(node)@ == (MeshNodeView {
                    state: old(node)@.state.after_set(room_id@, e@),
                    ..old(node)@
                })
                &&& room.wf() ==> final(node)@.state.rooms[room_id@].entries
                    == room.entries.insert(key@, e@)
            },
            Err(f) => f@ == state_failure_view(StateErrorView::RoomNotFound(room_id@)) && final(node)@ == old(node)@,
        },
        old(node)@.wf() ==> final(node)@.wf(),
{
    match node.state_mut().set(room_id, agent_id, key, value) {
        Ok(entry) => Ok((Status::Success, entry)),
        Err(e) => Err(state_failure(&e)),
    }
}

/// All the state entries of a room.
pub fn list_state(node: &MeshNode, room_id: &str) -> (r: Result<Vec<StateEntry>, Failure>)
    ensures
        r is Ok <==> node@.state.rooms.contains_key(room_id@),
        match r {
            Ok(entries) => lists(views(entries@), node@.state.rooms[room_id@].entries),
            Err(f) => f@ == state_failure_view(StateErrorView::RoomNotFound(room_id@)),
        },
{
    match node.state().list_entries(room_id) {
        Ok(entries) => Ok(entries),
        Err(e) => Err(state_failure(&e)),
    }
}

/// A state entry of a room.
pub fn get_state(node: &MeshNode, room_id: &str, key: &str) -> (r: Result<StateEntry, Failure>)
    ensures
        match node@.state.lookup(room_id@, key@) {
            Ok(entry) => r matches Ok(e) && e@ == entry,
            Err(e) => r matches Err(f) && f@ == state_failure_view(e),
        },
{
    match node.state().get(room_id, key) {
        Ok(entry) => Ok(entry),
        Err(e) => Err(state_failure(&e)),
    }
}

/// The refusal of a delta or snapshot that is for another room than it was sent to.
pub open spec fn mismatch(kind: Seq<char>, path: Seq<char>, body: Seq<char>) -> FailureView {
    FailureView {
        status: Status::BadRequest,
        error: "room_id_mismatch"@,
        detail: "path room_id '"@ + path + kind + body + "'"@,
    }
}

/// Applies a delta of a remote peer to the room that it was sent to. The answer
/// names the keys that were updated.
pub fn apply_delta(node: &mut MeshNode, room_id: &str, body: StateDelta) -> (r: Result<
    Vec<String>,
    Failure,
>)
    ensures
        r is Ok <==> body@.room_id == room_id@ && old(node)@.state.rooms.contains_key(room_id@),
        match r {
            Ok(keys) => {
                &&& views(keys@) == old(node)@.state.rooms[room_id@].accepted_keys(body@.entries)
                &&& final(node)@ == (MeshNodeView {
                    state: old(node)@.state.after_delta(body@),
                    ..old(node)@
                })
            },
            Err(f) => {
                &&& f@ == if body@.room_id != room_id@ {
                    mismatch("' does not match delta room_id '"@, room_id@, body@.room_id)
                } else {
                    state_failure_view(StateErrorView::RoomNotFound(room_id@))
                }
                &&& final(node)@ == old(node)@
            },
        },
        old(node)@.wf() ==> final(node)@.wf(),
{
    if !same(body.room_id.as_str(), room_id) {
        let detail = cat5(
            "path room_id '",
            room_id,
            "' does not match delta room_id '",
            body.room_id.as_str(),
            "'",
        );
        return Err(failure(Status::BadRequest, "room_id_mismatch", detail));
    }
    match node.state_mut().apply_delta(body) {
        Ok(keys) => Ok(keys),
        Err(e) => Err(state_failure(&e)),
    }
}

/// A full snapshot of the state of a room, taken now.
pub fn get_snapshot(node: &MeshNode, room_id: &str) -> (r: Result<StateSnapshot, Failure>)
    ensures
        r is Ok <==> node@.state.rooms.contains_key(room_id@),
        match r {
            Ok(s) => s@ == (StateSnapshotView {
                room_id: room_id@,
                clock: node@.state.rooms[room_id@].clock,
                entries: node@.state.rooms[room_id@].entries,
                created_at: s.created_at,
            }) && clock_reading(s.created_at),
            Err(f) => f@ == state_failure_view(StateErrorView::RoomNotFound(room_id@)),
        },
{
    match node.state().snapshot(room_id) {
        Ok(s) => Ok(s),
        Err(e) => Err(state_failure(&e)),
    }
}

/// Merges a snapshot into the state of the room that it was sent to, the entries in
/// some order. The answer names the keys that were updated.
pub fn restore_snapshot(node: &mut MeshNode, room_id: &str, body: StateSnapshot) -> (r: Result<
    Vec<String>,
    Failure,
>)
    ensures
        r is Ok <==> body@.room_id == room_id@,
        match r {
            Ok(keys) => exists|order: Seq<StateEntryView>|
                {
                    &&& #[trigger] lists(order, body@.entries)
                    &&& views(keys@) == old(node)@.state.room_or_fresh(room_id@).accepted_keys(
                        order,
                    )
                    &&& final(node)@ == (MeshNodeView {
                        state: old(node)@.state.after_restore(room_id@, order),
                        ..old(node)@
                    })
                },
            Err(f) => f@ == mismatch(
                "' does not match snapshot room_id '"@,
                room_id@,
                body@.room_id,
            ) && final(node)@ == old(node)@,
        },
        old(node)@.wf() ==> final(node)@.wf(),
{
    if !same(body.room_id.as_str(), room_id) {
        let detail = cat5(
            "path room_id '",
            room_id,
            "' does not match snapshot room_id '",
            body.room_id.as_str(),
            "'",
        );
        return Err(failure(Status::BadRequest, "room_id_mismatch", detail));
    }
    match node.state_mut().restore_snapshot(body) {
        Ok(keys) => Ok(keys),
        Err(e) => Err(state_failure(&e)),
    }
}

/// Submits a match request now, under a fresh id.
pub fn submit_match_request(
    node: &mut MeshNode,
    agent_id: &str,
    game: &str,
    skill_range: SkillRange,
    time_window: TimeWindow,
) -> (r: (Status, MatchRequest))
    ensures
        r.0 == Status::Created,
        r.1@.request_id.len() == 36,
        clock_reading(r.1.created_at),
        r.1@ == (MatchRequestView {
            request_id: r.1.request_id@,
            agent_id: agent_id@,
            mesh_id: old(node)@.matchmaker.mesh_id,
            game: game@,
            skill_range,
            time_window,
            created_at: r.1.created_at,
        }),
        final(node)@ == (MeshNodeView {
            matchmaker: old(node)@.matchmaker.requested(r.1@),
            ..old(node)@
        }),
        old(node)@.wf() ==> final(node)@.wf(),
{
    let request = node.matchmaker_mut().submit_request(agent_id, game, skill_range, time_window);
    (Status::Created, request)
}

/// All match requests.
pub fn list_match_requests(node: &MeshNode) -> (r: Vec<MatchRequest>)
    ensures
        lists(views(r@), node@.matchmaker.requests),
{
    node.matchmaker().list_requests()
}

/// The match request with an id, as a list.
pub fn get_match_request(node: &MeshNode, request_id: &str) -> (r: Result<
    Vec<MatchRequest>,
    Failure,
>)
    ensures
        match r {
            Ok(found) => found@.len() > 0 && lists(
                views(found@),
                only(
                    node@.matchmaker.requests,
                    |q: MatchRequestView| q.request_id == request_id@,
                ),
            ),
            Err(f) => {
                &&& f@ == (FailureView {
                    status: Status::NotFound,
                    error: "request_not_found"@,
                    detail: "match request "@ + request_id@ + " not found"@,
                })
                &&& forall|k: Seq<char>| #[trigger]
                    node@.matchmaker.requests.contains_key(k)
                        ==> node@.matchmaker.requests[k].request_id != request_id@
            },
        },
        node@.matchmaker.wf() ==> (r is Ok <==> node@.matchmaker.requests.contains_key(
            request_id@,
        )),
{
    let found = node.matchmaker().requests_with_id(request_id);
    proof {
        let all = node@.matchmaker.requests;
        let fit = only(all, |q: MatchRequestView| q.request_id == request_id@);
        lemma_lists_empty(views(found@), fit);
        assert(all.contains_key(request_id@) && all[request_id@].request_id == request_id@
            ==> fit.contains_key(request_id@));
        if found@.len() == 0 {
            assert forall|k: Seq<char>| #[trigger] all.contains_key(k) implies all[k].request_id
                != request_id@ by {
                assert(!fit.contains_key(k));
            }
        } else {
            let k = choose|k: Seq<char>| fit.contains_key(k);
            if forall|k: Seq<char>| !fit.contains_key(k) {
                assert(fit =~= Map::<Seq<char>, MatchRequestView>::empty());
            }
            assert(all.contains_key(k) && all[k].request_id == request_id@);
        }
    }
    if found.is_empty() {
        let detail = cat3("match request ", request_id, " not found");
        return Err(failure(Status::NotFound, "request_not_found", detail));
    }
    Ok(found)
}

/// The refusal of an operation of the matchmaker.
pub open spec fn match_failure_view(error: Seq<char>, e: MatchErrorView) -> FailureView {
    FailureView { status: Status::NotFound, error, detail: e.text() }
}

fn match_failure(error: &'static str, e: &MatchError) -> (r: Failure)
    ensures
        r@ == match_failure_view(error@, e@),
{
    failure(Status::NotFound, error, e.to_string())
}

/// The requests that are compatible with a given one.
pub fn find_matches(node: &MeshNode, request_id: &str) -> (r: Result<Vec<MatchRequest>, Failure>)
    ensures
        r is Ok <==> node@.matchmaker.requests.contains_key(request_id@),
        match r {
            Ok(found) => lists(
                views(found@),
                only(
                    node@.matchmaker.requests,
                    |q: MatchRequestView| q.compatible(node@.matchmaker.requests[request_id@]),
                ),
            ),
            Err(f) => f@ == match_failure_view(
                "match_error"@,
                MatchErrorView::RequestNotFound(request_id@),
            ),
        },
{
    match node.matchmaker().find_matches(request_id) {
        Ok(found) => Ok(found),
        Err(e) => Err(match_failure("match_error", &e)),
    }
}

/// Takes back a match request.
pub fn cancel_match_request(node: &mut MeshNode, request_id: &str) -> (r: Result<
    MatchRequest,
    Failure,
>)
    ensures
        r is Ok <==> old(node)@.matchmaker.requests.contains_key(request_id@),
        match r {
            Ok(q) => q@ == old(node)@.matchmaker.requests[request_id@],
            Err(f) => f@ == match_failure_view(
                "cancel_error"@,
                MatchErrorView::RequestNotFound(request_id@),
            ),
        },
        final(node)@ == (MeshNodeView {
            matchmaker: MatchmakerView {
                requests: old(node)@.matchmaker.requests.remove(request_id@),
                ..old(node)@.matchmaker
            },
            ..old(node)@
        }),
        old(node)@.wf() ==> final(node)@.wf(),
{
    match node.matchmaker_mut().cancel_request(request_id) {
        Ok(request) => Ok(request),
        Err(e) => Err(match_failure("cancel_error", &e)),
    }
}

/// Proposes a schedule slot now, under a fresh id.
pub fn propose_schedule(
    node: &mut MeshNode,
    agent_id: &str,
    slot_start: Timestamp,
    slot_end: Timestamp,
) -> (r: (Status, ScheduleSlot))
    ensures
        r.0 == Status::Created,
        r.1@.schedule_id.len() == 36,
        clock_reading(r.1.created_at),
        r.1@ == (ScheduleSlotView {
            schedule_id: r.1.schedule_id@,
            agent_id: agent_id@,
            mesh_id: old(node)@.matchmaker.mesh_id,
            slot_start,
            slot_end,
            state: SlotState::Proposed,
            created_at: r.1.created_at,
        }),
        final(node)@ == (MeshNodeView {
            matchmaker: old(node)@.matchmaker.proposed(r.1@),
            ..old(node)@
        }),
        old(node)@.wf() ==> final(node)@.wf(),
{
    let slot = node.matchmaker_mut().propose_slot(agent_id, slot_start, slot_end);
    (Status::Created, slot)
}

/// All schedule slots, or those of an agent.
pub fn list_schedules(node: &MeshNode, agent_id: Option<String>) -> (r: Vec<ScheduleSlot>)
    ensures
        match agent_id {
            Some(id) => lists(
                views(r@),
                only(node@.matchmaker.schedules, |s: ScheduleSlotView| s.agent_id == id@),
            ),
            None => lists(views(r@), node@.matchmaker.schedules),
        },
{
    match agent_id {
        Some(id) => node.matchmaker().slots_for_agent(id.as_str()),
        None => node.matchmaker().list_schedules(),
    }
}

/// Confirms a schedule slot.
pub fn confirm_schedule(node: &mut MeshNode, schedule_id: &str) -> (r: Result<
    ScheduleSlot,
    Failure,
>)
    ensures
        r is Ok <==> old(node)@.matchmaker.schedules.contains_key(schedule_id@),
        match r {
            Ok(s) => {
                &&& s@ == old(node)@.matchmaker.slot_in_state(schedule_id@, SlotState::Confirmed)
                &&& final(node)@ == (MeshNodeView {
                    matchmaker: old(node)@.matchmaker.settled(
                        schedule_id@,
                        SlotState::Confirmed,
                        " confirmed"@,
                    ),
                    ..old(node)@
                })
            },
            Err(f) => f@ == match_failure_view(
                "schedule_error"@,
                MatchErrorView::ScheduleNotFound(schedule_id@),
            ) && final(node)@ == old(node)@,
        },
        old(node)@.wf() ==> final(node)@.wf(),
{
    match node.matchmaker_mut().confirm_slot(schedule_id) {
        Ok(slot) => Ok(slot),
        Err(e) => Err(match_failure("schedule_error", &e)),
    }
}

/// Declines a schedule slot.
pub fn decline_schedule(node: &mut MeshNode, schedule_id: &str) -> (r: Result<
    ScheduleSlot,
    Failure,
>)
    ensures
        r is Ok <==> old(node)@.matchmaker.schedules.contains_key(schedule_id@),
        match r {
            Ok(s) => {
                &&& s@ == old(node)@.matchmaker.slot_in_state(schedule_id@, SlotState::Declined)
                &&& final(node)@ == (MeshNodeView {
                    matchmaker: old(node)@.matchmaker.settled(
                        schedule_id@,
                        SlotState::Declined,
                        " declined"@,
                    ),
                    ..old(node)@
                })
            },
            Err(f) => f@ == match_failure_view(
                "schedule_error"@,
                MatchErrorView::ScheduleNotFound(schedule_id@),
            ) && final(node)@ == old(node)@,
        },
        old(node)@.wf() ==> final(node)@.wf(),
{
    match node.matchmaker_mut().decline_slot(schedule_id) {
        Ok(slot) => Ok(slot),
        Err(e) => Err(match_failure("schedule_error", &e)),
    }
}

/// Submits an offer now.
pub fn submit_offer(
    node: &mut MeshNode,
    from_agent: &str,
    offer_id: &str,
    summary: &str,
    expires_at: Timestamp,
) -> (r: (Status, PeerOffer))
    ensures
        r.0 == Status::Created,
        clock_reading(r.1.created_at),
        r.1@ == (PeerOfferView {
            offer_id: offer_id@,
            from_agent: from_agent@,
            mesh_id: old(node)@.matchmaker.mesh_id,
            summary: summary@,
            expires_at,
            created_at: r.1.created_at,
        }),
        final(node)@ == (MeshNodeView {
            matchmaker: old(node)@.matchmaker.offered(r.1@),
            ..old(node)@
        }),
        old(node)@.wf() ==> final(node)@.wf(),
{
    let offer = node.matchmaker_mut().submit_offer(from_agent, offer_id, summary, expires_at);
    (Status::Created, offer)
}

/// The offers that have not expired by now.
pub fn list_offers(node: &MeshNode) -> (r: Vec<PeerOffer>)
    ensures
        exists|now: Timestamp|
            clock_reading(now) && lists(
                views(r@),
                #[trigger] node@.matchmaker.active_offers(now),
            ),
{
    node.matchmaker().active_offers()
}

/// What is answered to a look at an offer: an expired offer is gone, an unknown one
/// is not found.
pub open spec fn offer_answer_view(outcome: Result<PeerOfferView, MatchErrorView>) -> Result<
    PeerOfferView,
    FailureView,
> {
    match outcome {
        Ok(o) => Ok(o),
        Err(e) => Err(
            FailureView {
                status: if e == MatchErrorView::OfferExpired {
                    Status::Gone
                } else {
                    Status::NotFound
                },
                error: "offer_error"@,
                detail: e.text(),
            },
        ),
    }
}

/// What is answered to a look at an offer that came out in a given way.
pub fn offer_answer(outcome: Result<PeerOffer, MatchError>) -> (r: Result<PeerOffer, Failure>)
    ensures
        result_view(r) == offer_answer_view(result_view(outcome)),
{
    match outcome {
        Ok(offer) => Ok(offer),
        Err(e) => {
            let status = match &e {
                MatchError::OfferExpired => Status::Gone,
                _ => Status::NotFound,
            };
            Err(failure(status, "offer_error", e.to_string()))
        },
    }
}

/// An offer, unless it has expired by now.
pub fn get_offer(node: &MeshNode, offer_id: &str) -> (r: Result<PeerOffer, Failure>)
    ensures
        exists|now: Timestamp|
            clock_reading(now) && result_view(r) == offer_answer_view(
                #[trigger] node@.matchmaker.offer_at(offer_id@, now),
            ),
{
    offer_answer(node.matchmaker().get_offer(offer_id))
}

/// Takes back an offer.
pub fn withdraw_offer(node: &mut MeshNode, offer_id: &str) -> (r: Result<PeerOffer, Failure>)
    ensures
        r is Ok <==> old(node)@.matchmaker.offers.contains_key(offer_id@),
        match r {
            Ok(o) => o@ == old(node)@.matchmaker.offers[offer_id@],
            Err(f) => f@ == match_failure_view(
                "offer_error"@,
                MatchErrorView::OfferNotFound(offer_id@),
            ),
        },
        final(node)@ == (MeshNodeView {
            matchmaker: MatchmakerView {
                offers: old(node)@.matchmaker.offers.remove(offer_id@),
                ..old(node)@.matchmaker
            },
            ..old(node)@
        }),
        old(node)@.wf() ==> final(node)@.wf(),
{
    match node.matchmaker_mut().withdraw_offer(offer_id) {
        Ok(offer) => Ok(offer),
        Err(e) => Err(match_failure("offer_error", &e)),
    }
}

/// The state of federation.
pub fn federation_status(node: &MeshNode) -> (r: FederationStatusResponse)
    ensures
        r@.local_mesh_id == node@.federation.local_mesh_id,
        r@.linked_meshes == node@.federation.links.len(),
{
    FederationStatusResponse {
        local_mesh_id: node.federation().local_mesh_id().to_owned(),
        linked_meshes: node.federation().link_count(),
    }
}

/// All linked meshes.
pub fn list_federation_links(node: &MeshNode) -> (r: Vec<MeshLink>)
    ensures
        lists(views(r@), node@.federation.links.map_values(|l: MeshLinkStateView| l.info)),
{
    node.federation().linked_meshes()
}

/// How many envelopes wait for a linked mesh.
pub const LINK_BUFFER: usize = 64;

/// The refusal of a link.
pub open spec fn link_failure_view(e: FederationErrorView) -> FailureView {
    FailureView {
        status: match e {
            FederationErrorView::LinkExists(_) => Status::Conflict,
            FederationErrorView::SelfRelay => Status::BadRequest,
            _ => Status::InternalServerError,
        },
        error: "federation_link_error"@,
        detail: e.text(),
    }
}

fn link_failure(e: &FederationError) -> (r: Failure)
    ensures
        r@ == link_failure_view(e@),
{
    let status = match e {
        FederationError::LinkExists(_) => Status::Conflict,
        FederationError::SelfRelay => Status::BadRequest,
        _ => Status::InternalServerError,
    };
    failure(status, "federation_link_error", e.to_string())
}

/// Links a remote mesh now. No one takes the envelopes for it off their queue yet.
pub fn create_federation_link(node: &mut MeshNode, mesh_id: String, label: Option<String>) -> (r:
    Result<(Status, LinkResponse), Failure>)
    ensures
        match old(node)@.federation.link_refusal(mesh_id@) {
            Some(e) => {
                &&& r matches Err(f) && f@ == link_failure_view(e)
                &&& final(node)@ == old(node)@
            },
            None => {
                &&& r matches Ok(answer) && answer.0 == Status::Created && answer.1@ == (
                LinkResponseView { status: "linked"@, mesh_id: mesh_id@ })
                &&& old(node)@.federation.linked_like(
                    mesh_id@,
                    opt_view(label),
                    final(node)@.federation,
                )
                &&& clock_reading(final(node)@.federation.links[mesh_id@].info.linked_at)
                &&& final(node)@.federation.link_capacity(mesh_id@) == LINK_BUFFER
                &&& final(node)@ == (MeshNodeView {
                    federation: final(node)@.federation,
                    ..old(node)@
                })
            },
        },
        old(node)@.wf() ==> final(node)@.wf(),
{
    let text: Option<&str> = match &label {
        Some(s) => Some(s.as_str()),
        None => None,
    };
    assert(opt_view(text) == opt_view(label));
    match node.federation_mut().link_mesh(mesh_id.as_str(), text, LINK_BUFFER) {
        Ok(_) => Ok((Status::Created, LinkResponse { status: "linked", mesh_id })),
        Err(e) => Err(link_failure(&e)),
    }
}

/// Removes the link to a remote mesh.
pub fn remove_federation_link(node: &mut MeshNode, mesh_id: String) -> (r: Result<
    LinkResponse,
    Failure,
>)
    ensures
        r is Ok <==> old(node)@.federation.links.contains_key(mesh_id@),
        match r {
            Ok(answer) => {
                &&& answer@ == (LinkResponseView { status: "unlinked"@, mesh_id: mesh_id@ })
                &&& final(node)@ == (MeshNodeView {
                    federation: old(node)@.federation.unlinked(mesh_id@),
                    ..old(node)@
                })
            },
            Err(f) => {
                &&& f@ == (FailureView {
                    status: Status::NotFound,
                    error: "federation_unlink_error"@,
                    detail: FederationErrorView::LinkNotFound(mesh_id@).text(),
                })
                &&& final(node)@ == old(node)@
            },
        },
        old(node)@.wf() ==> final(node)@.wf(),
{
    match node.federation_mut().unlink_mesh(mesh_id.as_str()) {
        Ok(_) => Ok(LinkResponse { status: "unlinked", mesh_id }),
        Err(e) => Err(failure(Status::NotFound, "federation_unlink_error", e.to_string())),
    }
}

/// Answers a hello with a random challenge.
pub fn auth_hello(node: &mut MeshNode, body: AuthHello) -> (r: Result<AuthChallenge, Failure>)
    ensures
        match r {
            Ok(c) => {
                let nonce = final(node)@.auth.pending[body@.agent_id];
                &&& nonce.len() == CHALLENGE_LEN
                &&& c@ == old(node)@.auth.challenge(nonce)
                &&& base64_bytes(c@.nonce) == Ok::<Seq<u8>, Base64Error>(nonce)
                &&& final(node)@ == (MeshNodeView {
                    auth: old(node)@.auth.challenged(body@.agent_id, nonce),
                    ..old(node)@
                })
            },
            Err(f) => {
                &&& f@ == (FailureView {
                    status: Status::BadRequest,
                    error: "auth_error"@,
                    detail: AuthErrorView::Crypto(CryptoError::KeyGeneration).text(),
                })
                &&& final(node)@ == old(node)@
            },
        },
        old(node)@.wf() ==> final(node)@.wf(),
{
    match node.auth_mut().handle_hello(body) {
        Ok(challenge) => Ok(challenge),
        Err(e) => Err(failure(Status::BadRequest, "auth_error", e.to_string())),
    }
}

/// What is answered to a response to a challenge.
pub open spec fn auth_answer_view(
    agent_id: Seq<char>,
    outcome: Result<AuthConfirmView, AuthErrorView>,
) -> Result<AuthRespondResultView, FailureView> {
    match outcome {
        Ok(_) => Ok(AuthRespondResultView { status: "authenticated"@, agent_id }),
        Err(e) => Err(
            FailureView {
                status: match e {
                    AuthErrorView::VerificationFailed => Status::Unauthorized,
                    AuthErrorView::NoPendingChallenge(_) => Status::BadRequest,
                    _ => Status::InternalServerError,
                },
                error: "auth_error"@,
                detail: e.text(),
            },
        ),
    }
}

/// What is answered to a response to a challenge that came out in a given way.
pub fn auth_answer(agent_id: String, outcome: Result<AuthConfirm, AuthError>) -> (r: Result<
    AuthRespondResult,
    Failure,
>)
    ensures
        result_view(r) == auth_answer_view(agent_id@, result_view(outcome)),
{
    match outcome {
        Ok(_) => Ok(AuthRespondResult { status: "authenticated", agent_id }),
        Err(e) => {
            let status = match &e {
                AuthError::VerificationFailed => Status::Unauthorized,
                AuthError::NoPendingChallenge(_) => Status::BadRequest,
                _ => Status::InternalServerError,
            };
            Err(failure(status, "auth_error", e.to_string()))
        },
    }
}

/// Checks a response to a challenge.
pub fn auth_respond(node: &mut MeshNode, response: AuthResponse, public_key: &PublicKeyBytes) -> (r:
    Result<AuthRespondResult, Failure>)
    ensures
        result_view(r) == auth_answer_view(
            response@.agent_id,
            old(node)@.auth.response_outcome(response@, public_key@),
        ),
        final(node)@ == (MeshNodeView {
            auth: old(node)@.auth.after_response(response@, public_key@),
            ..old(node)@
        }),
        old(node)@.wf() ==> final(node)@.wf(),
{
    let agent_id = response.agent_id.clone();
    let outcome = node.auth_mut().handle_response(response, public_key);
    auth_answer(agent_id, outcome)
}

/// The ids of the authenticated peers.
pub fn list_authenticated_peers(node: &MeshNode) -> (r: Vec<String>)
    ensures
        lists(
            views(r@),
            node@.auth.authenticated.map_values(|p: AuthenticatedPeerView| p.agent_id),
        ),
{
    let peers = node.auth().authenticated_peers();
    let ghost all = views(peers@);
    let mut r: Vec<String> = Vec::new();
    let mut i: usize = 0;
    while i < peers.len()
        invariant
            i <= peers@.len(),
            r@.len() == i,
            all == views(peers@),
            forall|j: int| 0 <= j < i ==> (#[trigger] r@[j])@ == all[j].agent_id,
        decreases peers@.len() - i,
    {
        r.push(peers[i].agent_id.clone());
        i = i + 1;
    }
    proof {
        let f = |p: AuthenticatedPeerView| p.agent_id;
        lemma_lists_mapped(all, node@.auth.authenticated, f);
        assert(views(r@) =~= all.map_values(f));
    }
    r
}

/// Drops the match requests and offers that have expired by now.
pub fn purge_expired(node: &mut MeshNode) -> (r: PurgeResponse)
    ensures
        r@.status == "ok"@,
        exists|now: Timestamp|
            clock_reading(now) && final(node)@ == (MeshNodeView {
                matchmaker: #[trigger] old(node)@.matchmaker.purged(now),
                ..old(node)@
            }),
        old(node)@.wf() ==> final(node)@.wf(),
{
    node.matchmaker_mut().purge_expired();
    PurgeResponse { status: "ok" }
}

/// The parameters of a search become its filters as they are; of a status text "busy" and
/// "away" stand for themselves, and every other for available.
pub proof fn search_parameters_become_filters(
    capability: Option<Seq<char>>,
    status: Option<Seq<char>>,
    mesh_id: Option<Seq<char>>,
)
    ensures
        ({
            let q = search_query(capability, status, mesh_id);
            &&& q.capability == capability
            &&& q.mesh_id == mesh_id
            &&& q.status is Some <==> status is Some
            &&& status == Some("busy"@) ==> q.status == Some(PeerStatus::Busy)
            &&& status == Some("away"@) ==> q.status == Some(PeerStatus::Away)
            &&& status is Some && status->0 != "busy"@ && status->0 != "away"@ ==> q.status == Some(
                PeerStatus::Available,
            )
        }),
{
    reveal_strlit("busy");
    reveal_strlit("away");
    assert("busy"@[0] != "away"@[0]);
}

/// How refusals are answered: an expired offer is gone and an unknown one not found; a link
/// that exists is a conflict and one to the mesh itself a bad request; a wrong signature is
/// unauthorized and an answer to no challenge a bad request; a room, key, request or slot
/// that is not there is not found. Each answer carries the text of its reason.
pub proof fn how_refusals_are_answered(
    id: Seq<char>,
    agent: Seq<char>,
    offer: PeerOfferView,
    confirm: AuthConfirmView,
)
    ensures
        offer_answer_view(Ok(offer)) == Ok::<PeerOfferView, FailureView>(offer),
        offer_answer_view(Err(MatchErrorView::OfferExpired)) == Err::<PeerOfferView, FailureView>(
            FailureView {
                status: Status::Gone,
                error: "offer_error"@,
                detail: "offer expired"@,
            },
        ),
        offer_answer_view(Err(MatchErrorView::OfferNotFound(id))) == Err::<
            PeerOfferView,
            FailureView,
        >(
            FailureView {
                status: Status::NotFound,
                error: "offer_error"@,
                detail: "offer not found: "@ + id,
            },
        ),
        link_failure_view(FederationErrorView::LinkExists(id)) == (FailureView {
            status: Status::Conflict,
            error: "federation_link_error"@,
            detail: "mesh link already exists: "@ + id,
        }),
        link_failure_view(FederationErrorView::SelfRelay) == (FailureView {
            status: Status::BadRequest,
            error: "federation_link_error"@,
            detail: "cannot relay to self mesh"@,
        }),
        auth_answer_view(agent, Ok(confirm)) == Ok::<AuthRespondResultView, FailureView>(
            AuthRespondResultView { status: "authenticated"@, agent_id: agent },
        ),
        auth_answer_view(agent, Err(AuthErrorView::VerificationFailed)) == Err::<
            AuthRespondResultView,
            FailureView,
        >(
            FailureView {
                status: Status::Unauthorized,
                error: "auth_error"@,
                detail: "challenge-response verification failed"@,
            },
        ),
        auth_answer_view(agent, Err(AuthErrorView::NoPendingChallenge(agent))) == Err::<
            AuthRespondResultView,
            FailureView,
        >(
            FailureView {
                status: Status::BadRequest,
                error: "auth_error"@,
                detail: "no pending challenge for peer: "@ + agent,
            },
        ),
        state_failure_view(StateErrorView::RoomNotFound(id)) == (FailureView {
            status: Status::NotFound,
            error: "state_error"@,
            detail: "room not found: "@ + id,
        }),
        state_failure_view(StateErrorView::KeyNotFound(id)) == (FailureView {
            status: Status::NotFound,
            error: "state_error"@,
            detail: "key not found: "@ + id,
        }),
        match_failure_view("match_error"@, MatchErrorView::RequestNotFound(id)) == (FailureView {
            status: Status::NotFound,
            error: "match_error"@,
            detail: "request not found: "@ + id,
        }),
        match_failure_view("schedule_error"@, MatchErrorView::ScheduleNotFound(id)) == (
        FailureView {
            status: Status::NotFound,
            error: "schedule_error"@,
            detail: "schedule not found: "@ + id,
        }),
        relay_failure(SignalErrorView::UnknownPeer(id)) == (FailureView {
            status: Status::NotFound,
            error: "relay_failed"@,
            detail: "unknown peer: "@ + id,
        }),
        relay_failure(SignalErrorView::ChannelClosed) == (FailureView {
            status: Status::NotFound,
            error: "relay_failed"@,
            detail: "signaling channel closed"@,
        }),
        mismatch("' does not match delta room_id '"@, id, agent) == (FailureView {
            status: Status::BadRequest,
            error: "room_id_mismatch"@,
            detail: "path room_id '"@ + id + "' does not match delta room_id '"@ + agent + "'"@,
        }),
{
}

} // verus!
