//! A participant of a mesh with all its parts.
use crate::auth::{PeerAuthenticator, PeerAuthenticatorView};
use crate::crypto::{
    ed25519_public, public_text, signature_text, verdict, CryptoError, PeerIdentity,
    PublicKeyBytes, Signature,
};
use crate::discovery::{MeshRegistry, MeshRegistryView};
use crate::events::{EventBus, EventView, DEFAULT_CAPACITY};
use crate::federation::{FederationRouter, FederationRouterView};
use crate::gossip::{GossipRouter, GossipRouterView};
use crate::matchmaking::{Matchmaker, MatchmakerView};
use crate::relay::{SignalRelay, SignalRelayView};
use crate::room::{RoomManager, RoomManagerView};
use crate::room_state::{RoomStateSync, RoomStateSyncView};
use vstd::prelude::*;

verus! {

/// A participant of a mesh: its identity, the registry of peers with gossip,
/// authentication, rooms and their state, the signal relay, matchmaking, the links
/// to other meshes, and the event bus of all these.
pub struct MeshNode {
    agent_id: String,
    mesh_id: String,
    identity: PeerIdentity,
    bus: EventBus,
    auth: PeerAuthenticator,
    rooms: RoomManager,
    state: RoomStateSync,
    gossip: GossipRouter,
    relay: SignalRelay,
    matchmaker: Matchmaker,
    federation: FederationRouter,
}

/// The content of a `MeshNode`.
#[verifier::ext_equal]
pub struct MeshNodeView {
    pub agent_id: Seq<char>,
    pub mesh_id: Seq<char>,
    pub identity: Seq<u8>,
    pub bus: Seq<EventView>,
    /// The channel of the bus.
    pub channel: int,
    /// The capacity that the channel was made with.
    pub capacity: usize,
    pub auth: PeerAuthenticatorView,
    pub rooms: RoomManagerView,
    pub state: RoomStateSyncView,
    pub gossip: GossipRouterView,
    pub relay: SignalRelayView,
    pub matchmaker: MatchmakerView,
    pub federation: FederationRouterView,
}

impl View for MeshNode {
    type V = MeshNodeView;

    closed spec fn view(&self) -> MeshNodeView {
        MeshNodeView {
            agent_id: self.agent_id@,
            mesh_id: self.mesh_id@,
            identity: self.identity@,
            bus: self.bus@,
            channel: self.bus.channel(),
            capacity: self.bus.capacity(),
            auth: self.auth@,
            rooms: self.rooms@,
            state: self.state@,
            gossip: self.gossip@,
            relay: self.relay@,
            matchmaker: self.matchmaker@,
            federation: self.federation@,
        }
    }
}

impl MeshNodeView {
    /// A node in which nothing has happened yet, all of whose parts emit on the
    /// given channel.
    pub open spec fn fresh(
        agent_id: Seq<char>,
        mesh_id: Seq<char>,
        identity: Seq<u8>,
        channel: int,
    ) -> MeshNodeView {
        MeshNodeView {
            agent_id,
            mesh_id,
            identity,
            bus: Seq::empty(),
            channel,
            capacity: DEFAULT_CAPACITY,
            auth: PeerAuthenticatorView {
                identity,
                agent_id,
                pending: Map::empty(),
                authenticated: Map::empty(),
            },
            rooms: RoomManagerView { mesh_id, rooms: Map::empty(), log: Seq::empty(), channel },
            state: RoomStateSyncView {
                mesh_id,
                rooms: Map::empty(),
                log: Seq::empty(),
                channel,
            },
            gossip: GossipRouterView {
                node_id: agent_id,
                registry: MeshRegistryView {
                    mesh_id,
                    peers: Map::empty(),
                    log: Seq::empty(),
                    channel,
                },
                peers: Map::empty(),
                channel,
            },
            relay: SignalRelayView::fresh(Seq::empty(), channel),
            matchmaker: MatchmakerView {
                mesh_id,
                requests: Map::empty(),
                schedules: Map::empty(),
                offers: Map::empty(),
                log: Seq::empty(),
                channel,
            },
            federation: FederationRouterView {
                local_mesh_id: mesh_id,
                links: Map::empty(),
                log: Seq::empty(),
                channel,
            },
        }
    }

    /// The parts are of one agent in one mesh, with one identity.
    pub open spec fn parts_agree(self) -> bool {
        &&& self.auth.agent_id == self.agent_id
        &&& self.auth.identity == self.identity
        &&& self.rooms.mesh_id == self.mesh_id
        &&& self.state.mesh_id == self.mesh_id
        &&& self.gossip.node_id == self.agent_id
        &&& self.gossip.registry.mesh_id == self.mesh_id
        &&& self.matchmaker.mesh_id == self.mesh_id
        &&& self.federation.local_mesh_id == self.mesh_id
    }

    /// All parts emit on the channel of the node's bus, so that who subscribes there
    /// sees the events of every part.
    pub open spec fn shares_bus(self) -> bool {
        &&& self.rooms.channel == self.channel
        &&& self.state.channel == self.channel
        &&& self.gossip.channel == self.channel
        &&& self.gossip.registry.channel == self.channel
        &&& self.relay.channel == self.channel
        &&& self.matchmaker.channel == self.channel
        &&& self.federation.channel == self.channel
    }

    /// The parts agree and share the bus, and every part is well formed.
    pub open spec fn wf(self) -> bool {
        &&& self.parts_agree()
        &&& self.shares_bus()
        &&& self.auth.wf()
        &&& self.rooms.wf()
        &&& self.state.wf()
        &&& self.gossip.registry.wf()
        &&& self.matchmaker.wf()
        &&& self.federation.wf()
    }

    /// The registry of peers.
    pub open spec fn registry(self) -> MeshRegistryView {
        self.gossip.registry
    }

    /// With the registry of peers replaced.
    pub open spec fn with_registry(self, registry: MeshRegistryView) -> MeshNodeView {
        MeshNodeView { gossip: GossipRouterView { registry, ..self.gossip }, ..self }
    }
}

impl MeshNode {
    /// The queue at the signal relay of a registered peer.
    pub closed spec fn relay_queue(&self, agent_id: Seq<char>) -> int {
        self.relay.peer_queue(agent_id)
    }

    /// Every peer but those in `but` has the queue at the signal relay that it has in
    /// `before`.
    pub open spec fn keeps_queues(&self, before: &MeshNode, but: Set<Seq<char>>) -> bool {
        forall|id: Seq<char>|
            !but.contains(id) ==> #[trigger] self.relay_queue(id) == before.relay_queue(id)
    }

    /// A node with a fresh identity. Where the system gives no randomness the error
    /// is `KeyGeneration`.
    pub fn new(agent_id: &str, mesh_id: &str) -> (r: Result<Self, CryptoError>)
        ensures
            match r {
                Ok(node) => node@ == MeshNodeView::fresh(
                    agent_id@,
                    mesh_id@,
                    node@.identity,
                    node@.channel,
                ) && ed25519_public(node@.identity) is Some && node@.wf(),
                Err(e) => e == CryptoError::KeyGeneration,
            },
    {
        match PeerIdentity::generate() {
            Ok(identity) => Ok(MeshNode::with_identity(agent_id, mesh_id, identity)),
            Err(e) => Err(e),
        }
    }

    /// A node with a given identity.
    pub fn with_identity(agent_id: &str, mesh_id: &str, identity: PeerIdentity) -> (r: Self)
        ensures
            r@ == MeshNodeView::fresh(agent_id@, mesh_id@, identity@, r@.channel),
            r@.wf(),
    {
        let bus = EventBus::default();
        let registry = MeshRegistry::new(mesh_id, bus.clone());
        let auth = PeerAuthenticator::new(agent_id, identity.clone_for_auth());
        let rooms = RoomManager::new(mesh_id, bus.clone());
        let state = RoomStateSync::new(mesh_id, bus.clone());
        let gossip = GossipRouter::new(agent_id, registry, bus.clone());
        let relay = SignalRelay::new(bus.clone());
        let matchmaker = Matchmaker::new(mesh_id, bus.clone());
        let federation = FederationRouter::new(mesh_id, bus.clone());
        MeshNode {
            agent_id: agent_id.to_owned(),
            mesh_id: mesh_id.to_owned(),
            identity,
            bus,
            auth,
            rooms,
            state,
            gossip,
            relay,
            matchmaker,
            federation,
        }
    }

    /// The id of the node.
    pub fn agent_id(&self) -> (r: &str)
        ensures
            r@ == self@.agent_id,
    {
        self.agent_id.as_str()
    }

    /// The id of the mesh.
    pub fn mesh_id(&self) -> (r: &str)
        ensures
            r@ == self@.mesh_id,
    {
        self.mesh_id.as_str()
    }

    /// The event bus.
    pub fn bus(&self) -> (r: &EventBus)
        ensures
            r@ == self@.bus,
            r.channel() == self@.channel,
            r.capacity() == self@.capacity,
    {
        &self.bus
    }

    /// The registry of peers.
    pub fn registry(&self) -> (r: &MeshRegistry)
        ensures
            r@ == self@.registry(),
    {
        self.gossip.registry()
    }

    /// The registry of peers.
    pub fn registry_mut(&mut self) -> (r: &mut MeshRegistry)
        ensures
            r@ == old(self)@.registry(),
            final(self)@ == old(self)@.with_registry(final(r)@),
            final(self).keeps_queues(old(self), Set::empty()),
    {
        self.gossip.registry_mut()
    }

    /// Authentication.
    pub fn auth(&self) -> (r: &PeerAuthenticator)
        ensures
            r@ == self@.auth,
    {
        &self.auth
    }

    /// Authentication.
    pub fn auth_mut(&mut self) -> (r: &mut PeerAuthenticator)
        ensures
            r@ == old(self)@.auth,
            final(self)@ == (MeshNodeView { auth: final(r)@, ..old(self)@ }),
            final(self).keeps_queues(old(self), Set::empty()),
    {
        &mut self.auth
    }

    /// The rooms.
    pub fn rooms(&self) -> (r: &RoomManager)
        ensures
            r@ == self@.rooms,
    {
        &self.rooms
    }

    /// The rooms.
    pub fn rooms_mut(&mut self) -> (r: &mut RoomManager)
        ensures
            r@ == old(self)@.rooms,
            final(self)@ == (MeshNodeView { rooms: final(r)@, ..old(self)@ }),
            final(self).keeps_queues(old(self), Set::empty()),
    {
        &mut self.rooms
    }

    /// The state of the rooms.
    pub fn state(&self) -> (r: &RoomStateSync)
        ensures
            r@ == self@.state,
    {
        &self.state
    }

    /// The state of the rooms.
    pub fn state_mut(&mut self) -> (r: &mut RoomStateSync)
        ensures
            r@ == old(self)@.state,
            final(self)@ == (MeshNodeView { state: final(r)@, ..old(self)@ }),
            final(self).keeps_queues(old(self), Set::empty()),
    {
        &mut self.state
    }

    /// Gossip.
    pub fn gossip(&self) -> (r: &GossipRouter)
        ensures
            r@ == self@.gossip,
    {
        &self.gossip
    }

    /// Gossip.
    pub fn gossip_mut(&mut self) -> (r: &mut GossipRouter)
        ensures
            r@ == old(self)@.gossip,
            final(self)@ == (MeshNodeView { gossip: final(r)@, ..old(self)@ }),
            final(self).keeps_queues(old(self), Set::empty()),
    {
        &mut self.gossip
    }

    /// The signal relay.
    pub fn relay(&self) -> (r: &SignalRelay)
        ensures
            r@ == self@.relay,
            forall|id: Seq<char>| #[trigger] r.peer_queue(id) == self.relay_queue(id),
    {
        &self.relay
    }

    /// The signal relay.
    pub fn relay_mut(&mut self) -> (r: &mut SignalRelay)
        ensures
            r@ == old(self)@.relay,
            final(self)@ == (MeshNodeView { relay: final(r)@, ..old(self)@ }),
            forall|id: Seq<char>| #[trigger] r.peer_queue(id) == old(self).relay_queue(id),
            forall|id: Seq<char>| #[trigger]
                final(self).relay_queue(id) == final(r).peer_queue(id),
    {
        &mut self.relay
    }

    /// Matchmaking.
    pub fn matchmaker(&self) -> (r: &Matchmaker)
        ensures
            r@ == self@.matchmaker,
    {
        &self.matchmaker
    }

    /// Matchmaking.
    pub fn matchmaker_mut(&mut self) -> (r: &mut Matchmaker)
        ensures
            r@ == old(self)@.matchmaker,
            final(self)@ == (MeshNodeView { matchmaker: final(r)@, ..old(self)@ }),
            final(self).keeps_queues(old(self), Set::empty()),
    {
        &mut self.matchmaker
    }

    /// The links to other meshes.
    pub fn federation(&self) -> (r: &FederationRouter)
        ensures
            r@ == self@.federation,
    {
        &self.federation
    }

    /// The links to other meshes.
    pub fn federation_mut(&mut self) -> (r: &mut FederationRouter)
        ensures
            r@ == old(self)@.federation,
            final(self)@ == (MeshNodeView { federation: final(r)@, ..old(self)@ }),
            final(self).keeps_queues(old(self), Set::empty()),
    {
        &mut self.federation
    }

    /// The public key of the node.
    pub fn public_key(&self) -> (r: PublicKeyBytes)
        ensures
            r@.key == public_text(self@.identity),
    {
        self.identity.public_key()
    }

    /// Signs a message with the identity of the node. The signature verifies under
    /// its public key.
    pub fn sign(&self, message: &[u8]) -> (r: Signature)
        ensures
            r@.sig == signature_text(self@.identity, message@),
            verdict(public_text(self@.identity), message@, r@.sig) == Ok::<(), CryptoError>(()),
    {
        self.identity.sign(message)
    }
}

/// A fresh node knows no one and holds nothing: all its tables are empty, nothing was
/// emitted, and all its parts are of its agent, its mesh, its identity and its bus.
pub proof fn a_fresh_node_is_empty(
    agent_id: Seq<char>,
    mesh_id: Seq<char>,
    identity: Seq<u8>,
    channel: int,
    k: Seq<char>,
)
    ensures
        ({
            let node = MeshNodeView::fresh(agent_id, mesh_id, identity, channel);
            &&& node.wf()
            &&& node.agent_id == agent_id
            &&& node.mesh_id == mesh_id
            &&& node.identity == identity
            &&& node.channel == channel
            &&& node.capacity == 256
            &&& !node.auth.pending.contains_key(k)
            &&& !node.auth.authenticated.contains_key(k)
            &&& !node.rooms.rooms.contains_key(k)
            &&& !node.state.rooms.contains_key(k)
            &&& !node.gossip.registry.peers.contains_key(k)
            &&& !node.gossip.peers.contains_key(k)
            &&& !node.relay.peers.contains_key(k)
            &&& !node.matchmaker.requests.contains_key(k)
            &&& !node.matchmaker.schedules.contains_key(k)
            &&& !node.matchmaker.offers.contains_key(k)
            &&& !node.federation.links.contains_key(k)
        }),
{
}

/// In a well-formed node every part is of the node's agent and mesh, with its identity, and
/// emits on the node's bus.
pub proof fn the_parts_of_a_node_belong_together(node: MeshNodeView)
    requires
        node.wf(),
    ensures
        node.auth.agent_id == node.agent_id,
        node.auth.identity == node.identity,
        node.gossip.node_id == node.agent_id,
        node.rooms.mesh_id == node.mesh_id,
        node.state.mesh_id == node.mesh_id,
        node.gossip.registry.mesh_id == node.mesh_id,
        node.matchmaker.mesh_id == node.mesh_id,
        node.federation.local_mesh_id == node.mesh_id,
        node.rooms.channel == node.channel,
        node.state.channel == node.channel,
        node.gossip.channel == node.channel,
        node.gossip.registry.channel == node.channel,
        node.relay.channel == node.channel,
        node.matchmaker.channel == node.channel,
        node.federation.channel == node.channel,
        !node.federation.links.contains_key(node.mesh_id),
{
}

} // verus!
