//! Lifecycle events and the bus that carries them.
use tokio::sync::broadcast;
use vstd::prelude::*;

verus! {

/// Lifecycle events of the mesh, emitted by discovery, signaling and rooms.
#[derive(Debug)]
pub enum Event {
    PeerAnnounced { agent_id: String, mesh_id: String },
    PeerDeparted { agent_id: String, mesh_id: String },
    SignalReceived { from: String, to: String },
    RoomJoined { agent_id: String, room_id: String },
    RoomLeft { agent_id: String, room_id: String },
    PeerAuthenticated { agent_id: String, mesh_id: String },
    PeerAuthFailed { agent_id: String, reason: String },
    ChannelEstablished { from: String, to: String },
    RoomStateChanged { room_id: String, key: String, author: String },
    PatchReady { mesh_id: String, description: String },
}

/// The content of a `Event`.
#[verifier::ext_equal]
pub enum EventView {
    PeerAnnounced { agent_id: Seq<char>, mesh_id: Seq<char> },
    PeerDeparted { agent_id: Seq<char>, mesh_id: Seq<char> },
    SignalReceived { from: Seq<char>, to: Seq<char> },
    RoomJoined { agent_id: Seq<char>, room_id: Seq<char> },
    RoomLeft { agent_id: Seq<char>, room_id: Seq<char> },
    PeerAuthenticated { agent_id: Seq<char>, mesh_id: Seq<char> },
    PeerAuthFailed { agent_id: Seq<char>, reason: Seq<char> },
    ChannelEstablished { from: Seq<char>, to: Seq<char> },
    RoomStateChanged { room_id: Seq<char>, key: Seq<char>, author: Seq<char> },
    PatchReady { mesh_id: Seq<char>, description: Seq<char> },
}

impl View for Event {
    type V = EventView;

    open spec fn view(&self) -> EventView {
        match *self {
            Event::PeerAnnounced { agent_id, mesh_id } => EventView::PeerAnnounced {
                agent_id: agent_id@,
                mesh_id: mesh_id@,
            },
            Event::PeerDeparted { agent_id, mesh_id } => EventView::PeerDeparted {
                agent_id: agent_id@,
                mesh_id: mesh_id@,
            },
            Event::SignalReceived { from, to } => EventView::SignalReceived {
                from: from@,
                to: to@,
            },
            Event::RoomJoined { agent_id, room_id } => EventView::RoomJoined {
                agent_id: agent_id@,
                room_id: room_id@,
            },
            Event::RoomLeft { agent_id, room_id } => EventView::RoomLeft {
                agent_id: agent_id@,
                room_id: room_id@,
            },
            Event::PeerAuthenticated { agent_id, mesh_id } => EventView::PeerAuthenticated {
                agent_id: agent_id@,
                mesh_id: mesh_id@,
            },
            Event::PeerAuthFailed { agent_id, reason } => EventView::PeerAuthFailed {
                agent_id: agent_id@,
                reason: reason@,
            },
            Event::ChannelEstablished { from, to } => EventView::ChannelEstablished {
                from: from@,
                to: to@,
            },
            Event::RoomStateChanged { room_id, key, author } => EventView::RoomStateChanged {
                room_id: room_id@,
                key: key@,
                author: author@,
            },
            Event::PatchReady { mesh_id, description } => EventView::PatchReady {
                mesh_id: mesh_id@,
                description: description@,
            },
        }
    }
}

impl Clone for Event {
    fn clone(&self) -> (r: Self)
        ensures
            r@ == self@,
    {
        match self {
            Event::PeerAnnounced { agent_id, mesh_id } => Event::PeerAnnounced {
                agent_id: agent_id.clone(),
                mesh_id: mesh_id.clone(),
            },
            Event::PeerDeparted { agent_id, mesh_id } => Event::PeerDeparted {
                agent_id: agent_id.clone(),
                mesh_id: mesh_id.clone(),
            },
            Event::SignalReceived { from, to } => Event::SignalReceived {
                from: from.clone(),
                to: to.clone(),
            },
            Event::RoomJoined { agent_id, room_id } => Event::RoomJoined {
                agent_id: agent_id.clone(),
                room_id: room_id.clone(),
            },
            Event::RoomLeft { agent_id, room_id } => Event::RoomLeft {
                agent_id: agent_id.clone(),
                room_id: room_id.clone(),
            },
            Event::PeerAuthenticated { agent_id, mesh_id } => Event::PeerAuthenticated {
                agent_id: agent_id.clone(),
                mesh_id: mesh_id.clone(),
            },
            Event::PeerAuthFailed { agent_id, reason } => Event::PeerAuthFailed {
                agent_id: agent_id.clone(),
                reason: reason.clone(),
            },
            Event::ChannelEstablished { from, to } => Event::ChannelEstablished {
                from: from.clone(),
                to: to.clone(),
            },
            Event::RoomStateChanged { room_id, key, author } => Event::RoomStateChanged {
                room_id: room_id.clone(),
                key: key.clone(),
                author: author.clone(),
            },
            Event::PatchReady { mesh_id, description } => Event::PatchReady {
                mesh_id: mesh_id.clone(),
                description: description.clone(),
            },
        }
    }
}

/// The number of events that the default bus keeps for slow subscribers.
pub const DEFAULT_CAPACITY: usize = 256;

/// The sending half of tokio's broadcast channel.
#[verifier::external_type_specification]
#[verifier::external_body]
#[verifier::reject_recursive_types(T)]
pub struct ExBroadcastSender<T>(broadcast::Sender<T>);

/// The receiving half of tokio's broadcast channel.
#[verifier::external_type_specification]
#[verifier::external_body]
#[verifier::reject_recursive_types(T)]
pub struct ExBroadcastReceiver<T>(broadcast::Receiver<T>);

/// The events handed to the channel through this sending handle, oldest first.
pub uninterp spec fn broadcast_log(tx: broadcast::Sender<Event>) -> Seq<EventView>;

/// Which channel a sending handle is of, as `same_channel` tells handles apart.
pub uninterp spec fn sender_channel(tx: broadcast::Sender<Event>) -> int;

/// The capacity that the channel of a sending handle was made with.
pub uninterp spec fn broadcast_capacity(tx: broadcast::Sender<Event>) -> usize;

/// Which channel a receiving handle is of, as `same_channel` tells handles apart.
pub uninterp spec fn receiver_channel(rx: broadcast::Receiver<Event>) -> int;

/// `tokio::sync::broadcast::channel`, of which the sending half is kept: a
/// channel made with the given capacity, through which nothing was sent yet. It
/// keeps at least that many events for slow receivers. It panics on a capacity of zero
/// or above half of `usize::MAX`.
#[verifier::external_body]
fn broadcast_open(capacity: usize) -> (tx: broadcast::Sender<Event>)
    requires
        0 < capacity <= usize::MAX / 2,
    ensures
        broadcast_log(tx) == Seq::<EventView>::empty(),
        broadcast_capacity(tx) == capacity,
{
    broadcast::channel(capacity).0
}

/// `tokio::sync::broadcast::Sender::send`: hands the event to the channel, of which
/// the handle stays one. The result is the number of receivers that will see it, zero
/// where there is none; it depends on who has subscribed, and nothing is claimed of it.
#[verifier::external_body]
fn broadcast_send(tx: &mut broadcast::Sender<Event>, event: Event) -> (receivers: usize)
    ensures
        broadcast_log(*final(tx)) == broadcast_log(*old(tx)).push(event@),
        sender_channel(*final(tx)) == sender_channel(*old(tx)),
        broadcast_capacity(*final(tx)) == broadcast_capacity(*old(tx)),
{
    tx.send(event).unwrap_or(0)
}

/// `tokio::sync::broadcast::Sender::subscribe`: a receiver of the same channel,
/// for the events that are sent from now on through any of its handles. What the
/// receiver will get is up to those and is not claimed. It panics on more
/// receivers than memory can hold.
#[verifier::external_body]
fn broadcast_subscribe(tx: &broadcast::Sender<Event>) -> (rx: broadcast::Receiver<Event>)
    ensures
        receiver_channel(rx) == sender_channel(*tx),
{
    tx.subscribe()
}

/// `tokio::sync::broadcast::Sender::clone`: a second sending handle of the same
/// channel, through which nothing was sent yet.
#[verifier::external_body]
fn broadcast_handle(tx: &broadcast::Sender<Event>) -> (r: broadcast::Sender<Event>)
    ensures
        broadcast_log(r) == Seq::<EventView>::empty(),
        sender_channel(r) == sender_channel(*tx),
        broadcast_capacity(r) == broadcast_capacity(*tx),
{
    tx.clone()
}

/// A sending handle of the broadcast channel that decouples the parts of the
/// mesh. Its view is what was emitted through this handle.
#[derive(Debug)]
pub struct EventBus {
    tx: broadcast::Sender<Event>,
}

impl View for EventBus {
    type V = Seq<EventView>;

    closed spec fn view(&self) -> Seq<EventView> {
        broadcast_log(self.tx)
    }
}

impl EventBus {
    /// The channel that the bus is a handle of.
    pub closed spec fn channel(&self) -> int {
        sender_channel(self.tx)
    }

    /// The capacity that the channel was made with.
    pub closed spec fn capacity(&self) -> usize {
        broadcast_capacity(self.tx)
    }

    /// A bus that keeps up to `capacity` events for slow subscribers.
    pub fn new(capacity: usize) -> (r: Self)
        requires
            0 < capacity <= usize::MAX / 2,
        ensures
            r@ == Seq::<EventView>::empty(),
            r.capacity() == capacity,
    {
        EventBus { tx: broadcast_open(capacity) }
    }

    /// Broadcasts an event to all subscribers and returns how many there are.
    pub fn emit(&mut self, event: Event) -> (receivers: usize)
        ensures
            final(self)@ == old(self)@.push(event@),
            final(self).channel() == old(self).channel(),
            final(self).capacity() == old(self).capacity(),
    {
        broadcast_send(&mut self.tx, event)
    }

    /// Emits a `PatchReady` event.
    pub fn emit_patch_ready(&mut self, mesh_id: &str, description: &str) -> (receivers: usize)
        ensures
            final(self)@ == old(self)@.push(
                (EventView::PatchReady { mesh_id: mesh_id@, description: description@ }),
            ),
            final(self).channel() == old(self).channel(),
            final(self).capacity() == old(self).capacity(),
    {
        self.emit(
            Event::PatchReady {
                mesh_id: mesh_id.to_owned(),
                description: description.to_owned(),
            },
        )
    }

    /// A receiver of the bus's channel, for the events that are emitted from now on.
    pub fn subscribe(&self) -> (rx: broadcast::Receiver<Event>)
        ensures
            receiver_channel(rx) == self.channel(),
    {
        broadcast_subscribe(&self.tx)
    }
}

impl Clone for EventBus {
    fn clone(&self) -> (r: Self)
        ensures
            r@ == Seq::<EventView>::empty(),
            r.channel() == self.channel(),
            r.capacity() == self.capacity(),
    {
        EventBus { tx: broadcast_handle(&self.tx) }
    }
}

impl Default for EventBus {
    fn default() -> (r: Self)
        ensures
            r@ == Seq::<EventView>::empty(),
            r.capacity() == DEFAULT_CAPACITY,
    {
        EventBus::new(DEFAULT_CAPACITY)
    }
}

} // verus!
