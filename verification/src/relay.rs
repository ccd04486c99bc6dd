//! The relay of signaling messages between registered peers.
use crate::events::{Event, EventBus, EventView};
use crate::queue::queue_capacity_ok;
use crate::signal::{
    open_signal_queue, signal_log, signal_queue_capacity, signal_receiver_queue,
    signal_sender_queue, signal_source, signal_target, IceCandidateView, SessionAnswerView,
    SessionOfferView, SignalError, SignalErrorView, SignalMessage, SignalMessageView,
};
use crate::table::{views, Table};
use tokio::sync::mpsc;
use vstd::prelude::*;

verus! {

/// `tokio::sync::mpsc::Sender::try_send`: hands the message to the queue and says
/// whether the queue took it. A full or closed queue does not; which it is depends
/// on the receiver, so success is not promised. The handle stays one of its queue.
#[verifier::external_body]
fn signal_offer(tx: &mut mpsc::Sender<SignalMessage>, msg: SignalMessage) -> (taken: bool)
    ensures
        signal_log(*final(tx)) == (if taken {
            signal_log(*old(tx)).push(msg@)
        } else {
            signal_log(*old(tx))
        }),
        signal_sender_queue(*final(tx)) == signal_sender_queue(*old(tx)),
        signal_queue_capacity(*final(tx)) == signal_queue_capacity(*old(tx)),
{
    tx.try_send(msg).is_ok()
}

/// A registered peer: the queue on which it gets its messages.
#[derive(Debug)]
pub struct SignalPeer {
    tx: mpsc::Sender<SignalMessage>,
}

/// The content of a `SignalPeer`: which queue it is, its capacity, and the messages
/// relayed to it since the peer registered.
#[verifier::ext_equal]
pub struct SignalPeerView {
    pub queue: int,
    pub capacity: usize,
    pub messages: Seq<SignalMessageView>,
}

impl View for SignalPeer {
    type V = SignalPeerView;

    closed spec fn view(&self) -> SignalPeerView {
        SignalPeerView {
            queue: signal_sender_queue(self.tx),
            capacity: signal_queue_capacity(self.tx),
            messages: signal_log(self.tx),
        }
    }
}

/// Routes signaling messages between registered peers: the rendezvous of peers
/// that cannot reach each other directly.
#[derive(Debug)]
pub struct SignalRelay {
    peers: Table<SignalPeer>,
    bus: EventBus,
}

/// The content of a `SignalRelay`: for each registered peer the messages relayed
/// to it since it registered and the capacity of its queue, and the events that were
/// emitted.
#[verifier::ext_equal]
pub struct SignalRelayView {
    pub peers: Map<Seq<char>, Seq<SignalMessageView>>,
    pub capacities: Map<Seq<char>, usize>,
    pub log: Seq<EventView>,
    /// The channel of the bus that the events go to.
    pub channel: int,
}

impl View for SignalRelay {
    type V = SignalRelayView;

    closed spec fn view(&self) -> SignalRelayView {
        SignalRelayView {
            peers: self.peers@.map_values(|p: SignalPeerView| p.messages),
            capacities: self.peers@.map_values(|p: SignalPeerView| p.capacity),
            log: self.bus@,
            channel: self.bus.channel(),
        }
    }
}

impl SignalRelayView {
    /// A relay without peers, whose events go to the given channel.
    pub open spec fn fresh(log: Seq<EventView>, channel: int) -> SignalRelayView {
        SignalRelayView { peers: Map::empty(), capacities: Map::empty(), log, channel }
    }

    /// After a peer was registered with a new queue of the given capacity.
    pub open spec fn registered(self, agent: Seq<char>, buffer: usize) -> SignalRelayView {
        SignalRelayView {
            peers: self.peers.insert(agent, Seq::empty()),
            capacities: self.capacities.insert(agent, buffer),
            ..self
        }
    }

    /// After a peer was unregistered.
    pub open spec fn unregistered(self, agent: Seq<char>) -> SignalRelayView {
        SignalRelayView {
            peers: self.peers.remove(agent),
            capacities: self.capacities.remove(agent),
            ..self
        }
    }

    /// What relaying a message gives where the queue of the target, if there is
    /// one, takes it or not.
    pub open spec fn relay_outcome(self, msg: SignalMessageView, taken: bool) -> Result<
        (),
        SignalErrorView,
    > {
        if !self.peers.contains_key(msg.target()) {
            Err(SignalErrorView::UnknownPeer(msg.target()))
        } else if !taken {
            Err(SignalErrorView::ChannelClosed)
        } else {
            Ok(())
        }
    }

    /// After a message was relayed, which the queue of the target took or not.
    pub open spec fn after_relay(self, msg: SignalMessageView, taken: bool) -> SignalRelayView {
        if self.relay_outcome(msg, taken) is Ok {
            SignalRelayView {
                peers: self.peers.insert(msg.target(), self.peers[msg.target()].push(msg)),
                log: self.log.push(
                    EventView::SignalReceived { from: msg.source(), to: msg.target() },
                ),
                ..self
            }
        } else {
            self
        }
    }
}

impl SignalRelay {
    /// The channel of the bus that the events go to.
    pub open spec fn channel(&self) -> int {
        self@.channel
    }

    /// The queue of a registered peer.
    pub closed spec fn peer_queue(&self, agent_id: Seq<char>) -> int {
        self.peers@[agent_id].queue
    }

    /// The capacity of the queue of a registered peer.
    pub open spec fn peer_capacity(&self, agent_id: Seq<char>) -> usize {
        self@.capacities[agent_id]
    }

    /// A relay without peers.
    pub fn new(bus: EventBus) -> (r: Self)
        ensures
            r@ == SignalRelayView::fresh(bus@, bus.channel()),
    {
        let r = SignalRelay { peers: Table::new(), bus };
        assert(r@ =~= SignalRelayView::fresh(bus@, bus.channel()));
        r
    }

    /// Registers a peer and returns the receiving half of its queue. A queue that
    /// the peer had is replaced.
    pub fn register(&mut self, agent_id: &str, buffer: usize) -> (rx: mpsc::Receiver<SignalMessage>)
        requires
            queue_capacity_ok(buffer),
        ensures
            final(self)@ == old(self)@.registered(agent_id@, buffer),
            signal_receiver_queue(rx) == final(self).peer_queue(agent_id@),
            final(self).peer_capacity(agent_id@) == buffer,
            forall|id: Seq<char>|
                id != agent_id@ ==> #[trigger] final(self).peer_queue(id) == old(self).peer_queue(id),
    {
        let ghost start = self@;
        let (tx, rx) = open_signal_queue(buffer);
        self.peers.insert(agent_id.to_owned(), SignalPeer { tx });
        assert(self@ =~= start.registered(agent_id@, buffer));
        rx
    }

    /// Unregisters a peer. Returns whether it was registered.
    pub fn unregister(&mut self, agent_id: &str) -> (r: bool)
        ensures
            r == old(self)@.peers.contains_key(agent_id@),
            final(self)@ == old(self)@.unregistered(agent_id@),
            forall|id: Seq<char>|
                id != agent_id@ ==> #[trigger] final(self).peer_queue(id) == old(self).peer_queue(id),
    {
        let ghost start = self@;
        let removed = self.peers.remove(agent_id).is_some();
        assert(self@ =~= start.unregistered(agent_id@));
        removed
    }

    /// Forwards a message to the peer that it is for. The error is `UnknownPeer`
    /// where that is not registered, and `ChannelClosed` where its queue is full or
    /// closed.
    pub fn relay(&mut self, msg: SignalMessage) -> (r: Result<(), SignalError>)
        ensures
            exists|taken: bool|
                {
                    &&& final(self)@ == #[trigger] old(self)@.after_relay(msg@, taken)
                    &&& r is Ok <==> old(self)@.relay_outcome(msg@, taken) is Ok
                    &&& r matches Err(e) ==> old(self)@.relay_outcome(msg@, taken) == Err::<
                        (),
                        SignalErrorView,
                    >(e@)
                },
            forall|id: Seq<char>|
                old(self)@.peers.contains_key(id) ==> #[trigger] final(self).peer_queue(id) == old(self).peer_queue(id),
    {
        let ghost start = self@;
        let target = signal_target(&msg).to_owned();
        let source = signal_source(&msg).to_owned();
        match self.peers.remove(target.as_str()) {
            None => {
                proof {
                    assert(self@ =~= start);
                    assert(self@ == start.after_relay(msg@, false));
                }
                Err(SignalError::UnknownPeer(target))
            },
            Some(mut peer) => {
                let ghost m = msg@;
                let taken: bool = signal_offer(&mut peer.tx, msg);
                self.peers.insert(target.clone(), peer);
                let r = self.conclude(source, target, taken);
                proof {
                    assert(self@ =~= start.after_relay(m, taken));
                }
                r
            },
        }
    }

    /// What becomes of a relay once the queue of the target took the message or did
    /// not.
    pub fn conclude(&mut self, source: String, target: String, taken: bool) -> (r: Result<
        (),
        SignalError,
    >)
        ensures
            if taken {
                &&& r is Ok
                &&& final(self)@ == (SignalRelayView {
                    log: old(self)@.log.push(
                        EventView::SignalReceived { from: source@, to: target@ },
                    ),
                    ..old(self)@
                })
            } else {
                &&& r matches Err(e) && e@ == SignalErrorView::ChannelClosed
                &&& final(self)@ == old(self)@
            },
            forall|id: Seq<char>| #[trigger] final(self).peer_queue(id) == old(self).peer_queue(id),
    {
        if taken {
            let _ = self.bus.emit(Event::SignalReceived { from: source, to: target });
            Ok(())
        } else {
            Err(SignalError::ChannelClosed)
        }
    }

    /// Whether a peer is registered.
    pub fn is_registered(&self, agent_id: &str) -> (r: bool)
        ensures
            r == self@.peers.contains_key(agent_id@),
    {
        self.peers.contains_key(agent_id)
    }

    /// The number of registered peers.
    pub fn peer_count(&self) -> (r: usize)
        ensures
            r == self@.peers.len(),
    {
        assert(self@.peers.dom() =~= self.peers@.dom());
        self.peers.len()
    }

    /// The ids of the registered peers, each once.
    pub fn registered_peers(&self) -> (r: Vec<String>)
        ensures
            views(r@).no_duplicates(),
            views(r@).to_set() == self@.peers.dom(),
    {
        let r = self.peers.key_list();
        assert(views(r@).to_set() =~= self@.peers.dom());
        r
    }
}

/// What is relayed reaches the peer that it is for, behind what was relayed to it
/// before, and no other peer; what is not relayed changes nothing.
pub proof fn a_message_reaches_its_target_only(
    relay: SignalRelayView,
    msg: SignalMessageView,
    taken: bool,
)
    ensures
        relay.after_relay(msg, taken).peers.dom() == relay.peers.dom(),
        forall|id: Seq<char>| #[trigger]
            relay.peers.contains_key(id) ==> relay.after_relay(msg, taken).peers[id] == if id
                == msg.target() && taken {
                relay.peers[id].push(msg)
            } else {
                relay.peers[id]
            },
{
    assert(relay.after_relay(msg, taken).peers.dom() =~= relay.peers.dom());
}

/// Once a peer is unregistered, messages for it are refused as for an unknown peer.
pub proof fn an_unregistered_peer_is_unknown(
    relay: SignalRelayView,
    msg: SignalMessageView,
    taken: bool,
)
    ensures
        relay.unregistered(msg.target()).relay_outcome(msg, taken) == Err::<(), SignalErrorView>(SignalErrorView::UnknownPeer(msg.target())),
{
}

/// Relaying fails with an unknown peer exactly if the target is not registered, and with
/// a closed channel exactly if its queue did not take the message; only a relayed message
/// is announced, by one event that names its sender and its target.
pub proof fn relaying_succeeds_if_the_target_takes_it(
    relay: SignalRelayView,
    msg: SignalMessageView,
    taken: bool,
)
    ensures
        relay.relay_outcome(msg, taken) is Ok <==> relay.peers.contains_key(msg.target()) && taken,
        relay.relay_outcome(msg, taken) is Err ==> relay.relay_outcome(msg, taken)->Err_0 == (
        if relay.peers.contains_key(msg.target()) {
            SignalErrorView::ChannelClosed
        } else {
            SignalErrorView::UnknownPeer(msg.target())
        }),
        relay.after_relay(msg, taken).log == (if relay.peers.contains_key(msg.target()) && taken {
            relay.log.push(EventView::SignalReceived { from: msg.source(), to: msg.target() })
        } else {
            relay.log
        }),
        relay.after_relay(msg, taken).capacities == relay.capacities,
{
}

/// The sender and the target of a message are those that it names.
pub proof fn messages_name_their_peers(
    offer: SessionOfferView,
    answer: SessionAnswerView,
    candidate: IceCandidateView,
)
    ensures
        SignalMessageView::Offer(offer).source() == offer.from,
        SignalMessageView::Offer(offer).target() == offer.to,
        SignalMessageView::Answer(answer).source() == answer.from,
        SignalMessageView::Answer(answer).target() == answer.to,
        SignalMessageView::IceCandidate(candidate).source() == candidate.from,
        SignalMessageView::IceCandidate(candidate).target() == candidate.to,
{
}

/// A peer that registers has an empty queue of the capacity it asked for, one that
/// unregisters has none; the other peers keep theirs, and nothing is announced.
pub proof fn registering_concerns_one_peer(
    relay: SignalRelayView,
    agent: Seq<char>,
    buffer: usize,
)
    ensures
        ({
            let after = relay.registered(agent, buffer);
            let gone = relay.unregistered(agent);
            &&& after.peers.contains_key(agent)
            &&& after.peers[agent].len() == 0
            &&& after.capacities.contains_key(agent)
            &&& after.capacities[agent] == buffer
            &&& after.peers.remove(agent) == relay.peers.remove(agent)
            &&& after.capacities.remove(agent) == relay.capacities.remove(agent)
            &&& after.log == relay.log
            &&& !gone.peers.contains_key(agent)
            &&& gone.peers == relay.peers.remove(agent)
            &&& gone.capacities == relay.capacities.remove(agent)
            &&& gone.log == relay.log
        }),
{
    assert(relay.registered(agent, buffer).peers.remove(agent) =~= relay.peers.remove(agent));
    assert(relay.registered(agent, buffer).capacities.remove(agent) =~= relay.capacities.remove(
        agent,
    ));
}

} // verus!
