//! Gossip between the nodes of a mesh.
use crate::discovery::{
    a_digest_tells_when_each_peer_was_seen, a_gossip_round_catches_up,
    a_pull_is_answered_with_what_it_lacks, covered_at, news_for, GossipDigestView, GossipPull,
    GossipPullView, GossipPush, GossipPushView, MeshRegistry, MeshRegistryView, PeerEntryView,
};
use crate::events::EventBus;
use crate::queue::queue_capacity_ok;
use crate::table::{enumerates, lists, Table};
use crate::text::cat2;
use tokio::sync::mpsc;
use vstd::prelude::*;

verus! {

/// What gossiping nodes send each other.
#[derive(Debug)]
pub enum GossipMessage {
    /// Starts a round: "here is my digest".
    Pull(GossipPull),
    /// The answer, with the entries that the requester lacks.
    Push(GossipPush),
}

/// The content of a `GossipMessage`.
#[verifier::ext_equal]
pub enum GossipMessageView {
    Pull(GossipPullView),
    Push(GossipPushView),
}

impl View for GossipMessage {
    type V = GossipMessageView;

    open spec fn view(&self) -> GossipMessageView {
        match *self {
            GossipMessage::Pull(x) => GossipMessageView::Pull(x@),
            GossipMessage::Push(x) => GossipMessageView::Push(x@),
        }
    }
}

impl Clone for GossipMessage {
    fn clone(&self) -> (r: Self)
        ensures
            r@ == self@,
    {
        match self {
            GossipMessage::Pull(x) => GossipMessage::Pull(x.clone()),
            GossipMessage::Push(x) => GossipMessage::Push(x.clone()),
        }
    }
}

/// What can go wrong with gossip.
#[derive(Debug)]
pub enum GossipError {
    PeerNotConnected(String),
    SendFailed(String),
}

/// The content of a `GossipError`.
#[verifier::ext_equal]
pub enum GossipErrorView {
    PeerNotConnected(Seq<char>),
    SendFailed(Seq<char>),
}

impl View for GossipError {
    type V = GossipErrorView;

    open spec fn view(&self) -> GossipErrorView {
        match *self {
            GossipError::PeerNotConnected(x) => GossipErrorView::PeerNotConnected(x@),
            GossipError::SendFailed(x) => GossipErrorView::SendFailed(x@),
        }
    }
}

impl Clone for GossipError {
    fn clone(&self) -> (r: Self)
        ensures
            r@ == self@,
    {
        match self {
            GossipError::PeerNotConnected(x) => GossipError::PeerNotConnected(x.clone()),
            GossipError::SendFailed(x) => GossipError::SendFailed(x.clone()),
        }
    }
}

impl GossipErrorView {
    /// The text of the error.
    pub open spec fn text(self) -> Seq<char> {
        match self {
            GossipErrorView::PeerNotConnected(id) => "gossip peer not connected: "@ + id,
            GossipErrorView::SendFailed(id) => "failed to send gossip message to peer: "@ + id,
        }
    }
}

impl GossipError {
    /// The text of the error.
    pub fn to_string(&self) -> (r: String)
        ensures
            r@ == self@.text(),
    {
        match self {
            GossipError::PeerNotConnected(id) => cat2("gossip peer not connected: ", id.as_str()),
            GossipError::SendFailed(id) => cat2(
                "failed to send gossip message to peer: ",
                id.as_str(),
            ),
        }
    }
}

/// Which queue of gossip a sending handle is of, as `same_channel` tells handles apart.
pub uninterp spec fn gossip_sender_queue(tx: mpsc::Sender<GossipMessage>) -> int;

/// Which queue of gossip a receiving half is of.
pub uninterp spec fn gossip_receiver_queue(rx: mpsc::Receiver<GossipMessage>) -> int;

/// The capacity that the queue of a sending handle was made with.
pub uninterp spec fn gossip_queue_capacity(tx: mpsc::Sender<GossipMessage>) -> usize;

/// `tokio::sync::mpsc::channel` for gossip: both halves of a new queue with the given
/// capacity. It panics on a capacity of zero or above an eighth of `usize::MAX`.
#[verifier::external_body]
pub(crate) fn open_gossip_queue(buffer: usize) -> (r: (
    mpsc::Sender<GossipMessage>,
    mpsc::Receiver<GossipMessage>,
))
    requires
        queue_capacity_ok(buffer),
    ensures
        gossip_receiver_queue(r.1) == gossip_sender_queue(r.0),
        gossip_queue_capacity(r.0) == buffer,
{
    mpsc::channel(buffer)
}

/// A connected node: the queue on which it gets its messages.
#[derive(Debug)]
pub struct GossipPeer {
    tx: mpsc::Sender<GossipMessage>,
}

impl View for GossipPeer {
    type V = mpsc::Sender<GossipMessage>;

    closed spec fn view(&self) -> mpsc::Sender<GossipMessage> {
        self.tx
    }
}

/// The gossip of one node: the registry it keeps up to date, and the nodes it is
/// connected to.
///
/// In a round the node sends a pull with its digest, receives a push with what
/// it lacks, and merges that into the registry.
#[derive(Debug)]
pub struct GossipRouter {
    node_id: String,
    registry: MeshRegistry,
    peers: Table<GossipPeer>,
    #[allow(dead_code)]
    bus: EventBus,
}

/// The content of a `GossipRouter`.
#[verifier::ext_equal]
pub struct GossipRouterView {
    pub node_id: Seq<char>,
    pub registry: MeshRegistryView,
    pub peers: Map<Seq<char>, mpsc::Sender<GossipMessage>>,
    /// The channel of the bus of the node.
    pub channel: int,
}

impl View for GossipRouter {
    type V = GossipRouterView;

    closed spec fn view(&self) -> GossipRouterView {
        GossipRouterView {
            node_id: self.node_id@,
            registry: self.registry@,
            peers: self.peers@,
            channel: self.bus.channel(),
        }
    }
}

impl GossipRouterView {
    /// The queue of a connected node.
    pub open spec fn peer_queue(self, peer: Seq<char>) -> int {
        gossip_sender_queue(self.peers[peer])
    }

    /// The capacity of the queue of a connected node.
    pub open spec fn peer_capacity(self, peer: Seq<char>) -> usize {
        gossip_queue_capacity(self.peers[peer])
    }

    /// `msg` is a pull of this node: it holds the digest of every peer it knows.
    pub open spec fn is_pull(self, msg: GossipMessageView) -> bool {
        msg matches GossipMessageView::Pull(p) && p.from == self.node_id && lists(
            p.digests,
            self.registry.peers.map_values(|e: PeerEntryView| e.digest()),
        )
    }

    /// `msg` is the answer of this node to a pull.
    pub open spec fn is_answer(self, pull: GossipPullView, msg: GossipMessageView) -> bool {
        msg matches GossipMessageView::Push(p) && lists(
            p.entries,
            news_for(self.registry.peers, pull.digests),
        )
    }
}

impl GossipRouter {
    /// The channel of the bus of the node.
    pub open spec fn channel(&self) -> int {
        self@.channel
    }

    /// A node that keeps `registry` up to date and is connected to no other.
    pub fn new(node_id: &str, registry: MeshRegistry, bus: EventBus) -> (r: Self)
        ensures
            r@ == (GossipRouterView {
                node_id: node_id@,
                registry: registry@,
                peers: Map::empty(),
                channel: bus.channel(),
            }),
    {
        GossipRouter { node_id: node_id.to_owned(), registry, peers: Table::new(), bus }
    }

    /// The registry that the node keeps.
    pub fn registry(&self) -> (r: &MeshRegistry)
        ensures
            r@ == self@.registry,
    {
        &self.registry
    }

    /// The registry that the node keeps.
    pub fn registry_mut(&mut self) -> (r: &mut MeshRegistry)
        ensures
            r@ == old(self)@.registry,
            final(self)@ == (GossipRouterView { registry: final(r)@, ..old(self)@ }),
    {
        &mut self.registry
    }

    /// Connects a node. Returns the receiving half of its queue.
    pub fn add_peer(&mut self, peer_node_id: &str, buffer: usize) -> (rx: mpsc::Receiver<
        GossipMessage,
    >)
        requires
            queue_capacity_ok(buffer),
        ensures
            final(self)@ == (GossipRouterView {
                peers: old(self)@.peers.insert(
                    peer_node_id@,
                    final(self)@.peers[peer_node_id@],
                ),
                ..old(self)@
            }),
            gossip_receiver_queue(rx) == final(self)@.peer_queue(peer_node_id@),
            final(self)@.peer_capacity(peer_node_id@) == buffer,
    {
        let (tx, rx) = open_gossip_queue(buffer);
        self.peers.insert(peer_node_id.to_owned(), GossipPeer { tx });
        rx
    }

    /// Disconnects a node. Returns whether it was connected.
    pub fn remove_peer(&mut self, peer_node_id: &str) -> (r: bool)
        ensures
            r == old(self)@.peers.contains_key(peer_node_id@),
            final(self)@ == (GossipRouterView {
                peers: old(self)@.peers.remove(peer_node_id@),
                ..old(self)@
            }),
    {
        self.peers.remove(peer_node_id).is_some()
    }

    /// The queue of a connected node.
    pub fn link(&self, peer_node_id: &str) -> (r: Option<&mpsc::Sender<GossipMessage>>)
        ensures
            r is Some <==> self@.peers.contains_key(peer_node_id@),
            r matches Some(tx) ==> *tx == self@.peers[peer_node_id@],
    {
        match self.peers.get(peer_node_id) {
            Some(peer) => Some(&peer.tx),
            None => None,
        }
    }

    /// Starts a round with a node: the pull to put on its queue.
    pub fn initiate_pull(&self, peer_node_id: &str) -> (r: Result<GossipMessage, GossipError>)
        ensures
            r is Ok <==> self@.peers.contains_key(peer_node_id@),
            match r {
                Ok(msg) => self@.is_pull(msg@),
                Err(e) => e@ == GossipErrorView::PeerNotConnected(peer_node_id@),
            },
    {
        if self.peers.contains_key(peer_node_id) {
            Ok(self.pull())
        } else {
            Err(GossipError::PeerNotConnected(peer_node_id.to_owned()))
        }
    }

    fn pull(&self) -> (r: GossipMessage)
        ensures
            self@.is_pull(r@),
    {
        GossipMessage::Pull(
            GossipPull { from: self.node_id.clone(), digests: self.registry.build_digest() },
        )
    }

    /// What becomes of a round when the message was or was not taken by the queue
    /// of the node.
    pub fn send_outcome(peer_node_id: &str, sent: bool) -> (r: Result<(), GossipError>)
        ensures
            r is Ok <==> sent,
            r matches Err(e) ==> e@ == GossipErrorView::SendFailed(peer_node_id@),
    {
        if sent {
            Ok(())
        } else {
            Err(GossipError::SendFailed(peer_node_id.to_owned()))
        }
    }

    /// Starts a round with every connected node: for each its id and the pull to
    /// put on its queue.
    pub fn initiate_pull_all(&self) -> (r: Vec<(String, GossipMessage)>)
        ensures
            enumerates(Seq::new(r@.len(), |i: int| r@[i].0@), self@.peers),
            forall|i: int| 0 <= i < r@.len() ==> self@.is_pull((#[trigger] r@[i]).1@),
    {
        let mut r: Vec<(String, GossipMessage)> = Vec::new();
        let n: usize = self.peers.len();
        let mut i: usize = 0;
        while i < n
            invariant
                i <= n,
                r@.len() == i,
                n == self.peers.keys().len(),
                enumerates(self.peers.keys(), self@.peers),
                forall|j: int|
                    0 <= j < i ==> (#[trigger] r@[j]).0@ == self.peers.keys()[j] && self@.is_pull(
                        r@[j].1@,
                    ),
            decreases n - i,
        {
            r.push((self.peers.key_at(i).clone(), self.pull()));
            i = i + 1;
        }
        assert(Seq::new(r@.len(), |i: int| r@[i].0@) =~= self.peers.keys());
        r
    }

    /// Handles a message of a node. A pull is answered: the result is the push to
    /// put on the queue of the node. A push is merged into the registry.
    pub fn handle_message(&mut self, from_peer: &str, msg: GossipMessage) -> (r: Result<
        Option<GossipMessage>,
        GossipError,
    >)
        ensures
            match msg@ {
                GossipMessageView::Pull(pull) => {
                    &&& final(self)@ == old(self)@
                    &&& match r {
                        Ok(Some(answer)) => old(self)@.peers.contains_key(from_peer@) && old(self)@.is_answer(pull, answer@),
                        Ok(None) => false,
                        Err(e) => !old(self)@.peers.contains_key(from_peer@) && e@
                            == GossipErrorView::PeerNotConnected(from_peer@),
                    }
                },
                GossipMessageView::Push(push) => {
                    &&& r matches Ok(None)
                    &&& final(self)@ == (GossipRouterView {
                        registry: old(self)@.registry.heard_all(push.entries),
                        ..old(self)@
                    })
                },
            },
            final(self)@.registry.mesh_id == old(self)@.registry.mesh_id,
            final(self)@.registry.channel == old(self)@.registry.channel,
            old(self)@.registry.wf() ==> final(self)@.registry.wf(),
    {
        match msg {
            GossipMessage::Pull(pull) => {
                let push = self.registry.handle_gossip_pull(pull);
                if self.peers.contains_key(from_peer) {
                    Ok(Some(GossipMessage::Push(push)))
                } else {
                    Err(GossipError::PeerNotConnected(from_peer.to_owned()))
                }
            },
            GossipMessage::Push(push) => {
                self.registry.merge_gossip_push(push);
                Ok(None)
            },
        }
    }

    /// The number of connected nodes.
    pub fn peer_count(&self) -> (r: usize)
        ensures
            r == self@.peers.len(),
    {
        self.peers.len()
    }

    /// The id of this node.
    pub fn node_id(&self) -> (r: &str)
        ensures
            r@ == self@.node_id,
    {
        self.node_id.as_str()
    }
}

/// How many messages wait for each of two nodes that are made as a pair.
pub const PAIR_BUFFER: usize = 32;

/// Two nodes that are connected to each other, with the receiving halves of the
/// queues from each.
pub fn gossip_pair(
    node_a_id: &str,
    registry_a: MeshRegistry,
    node_b_id: &str,
    registry_b: MeshRegistry,
    bus: EventBus,
) -> (r: (
    GossipRouter,
    mpsc::Receiver<GossipMessage>,
    GossipRouter,
    mpsc::Receiver<GossipMessage>,
))
    ensures
        r.0@.node_id == node_a_id@,
        r.0@.registry == registry_a@,
        r.0@.peers.dom() == set![node_b_id@],
        r.2@.node_id == node_b_id@,
        r.2@.registry == registry_b@,
        r.2@.peers.dom() == set![node_a_id@],
        gossip_receiver_queue(r.1) == r.0@.peer_queue(node_b_id@),
        gossip_receiver_queue(r.3) == r.2@.peer_queue(node_a_id@),
        r.0@.peer_capacity(node_b_id@) == PAIR_BUFFER,
        r.2@.peer_capacity(node_a_id@) == PAIR_BUFFER,
        r.0.channel() == bus.channel(),
        r.2.channel() == bus.channel(),
{
    let mut router_a = GossipRouter::new(node_a_id, registry_a, bus.clone());
    let mut router_b = GossipRouter::new(node_b_id, registry_b, bus);
    let rx_from_a = router_b.add_peer(node_a_id, PAIR_BUFFER);
    let rx_from_b = router_a.add_peer(node_b_id, PAIR_BUFFER);
    proof {
        assert(router_a@.peers.dom() =~= set![node_b_id@]);
        assert(router_b@.peers.dom() =~= set![node_a_id@]);
    }
    (router_a, rx_from_b, router_b, rx_from_a)
}

/// A round between two nodes: once `b` sent its pull to `a` and merged the push that
/// `a` answers, `b` knows every peer that `a` knows, at least as recently, and it
/// lost no peer.
pub proof fn a_round_between_nodes(
    a: GossipRouterView,
    b: GossipRouterView,
    pull: GossipMessageView,
    push: GossipMessageView,
)
    requires
        a.registry.wf(),
        b.registry.wf(),
        b.is_pull(pull),
        a.is_answer(pull->Pull_0, push),
    ensures
        ({
            let after = b.registry.heard_all((push->Push_0).entries);
            &&& forall|k: Seq<char>| #[trigger]
                a.registry.peers.contains_key(k) ==> after.peers.contains_key(k)
                    && !a.registry.peers[k].last_seen.after(after.peers[k].last_seen)
            &&& forall|k: Seq<char>| #[trigger]
                b.registry.peers.contains_key(k) ==> after.peers.contains_key(k)
                    && !b.registry.peers[k].last_seen.after(after.peers[k].last_seen)
        }),
{
    a_gossip_round_catches_up(
        a.registry,
        b.registry,
        (pull->Pull_0).digests,
        (push->Push_0).entries,
    );
}

/// A pull names its node and tells of every peer in its registry when it was last seen;
/// it is answered with a push of peers that are registered here.
pub proof fn pulls_and_answers_tell_what_is_registered(
    node: GossipRouterView,
    pull: GossipMessageView,
    asked: GossipPullView,
    answer: GossipMessageView,
    k: Seq<char>,
)
    requires
        node.registry.wf(),
        node.is_pull(pull),
        node.is_answer(asked, answer),
        node.registry.peers.contains_key(k),
    ensures
        pull matches GossipMessageView::Pull(p) && p.from == node.node_id && p.digests.contains(
            GossipDigestView { agent_id: k, last_seen: node.registry.peers[k].last_seen },
        ),
        answer matches GossipMessageView::Push(p) && (p.entries.contains(node.registry.peers[k])
            <==> !exists|i: int|
            covered_at(asked.digests, k, node.registry.peers[k].last_seen, i)),
{
    a_digest_tells_when_each_peer_was_seen(node.registry, (pull->Pull_0).digests, k);
    a_pull_is_answered_with_what_it_lacks(
        node.registry,
        asked.digests,
        (answer->Push_0).entries,
        k,
    );
}

/// The errors of gossip name the node that they are about.
pub proof fn gossip_errors_name_the_node(id: Seq<char>)
    ensures
        GossipErrorView::PeerNotConnected(id).text() == "gossip peer not connected: "@ + id,
        GossipErrorView::SendFailed(id).text() == "failed to send gossip message to peer: "@ + id,
{
}

} // verus!
