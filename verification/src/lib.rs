//! Verified core of a mesh of peer agents: discovery, gossip, rooms with
//! replicated state, matchmaking, federation, authentication, encrypted
//! channels, and the gateway rules that tie them together.
pub mod auth;
pub mod channel;
pub mod crypto;
pub mod discovery;
pub mod double;
pub mod endpoints;
pub mod events;
pub mod federation;
pub mod gateway;
pub mod gossip;
mod ids;
pub mod json;
pub mod matchmaking;
pub mod node;
pub mod queue;
pub mod relay;
pub mod room;
pub mod room_state;
pub mod signal;
pub mod table;
pub mod text;
pub mod time;

pub use auth::{AuthChallenge, AuthConfirm, AuthError, AuthHello, AuthResponse, PeerAuthenticator};
pub use channel::{ChannelError, EncryptedChannel};
pub use crypto::{CryptoError, PeerIdentity, PublicKeyBytes, Signature};
pub use discovery::{AnnounceMessage, MeshRegistry, PeerEntry, PeerQuery, PeerStatus};
pub use double::Double;
pub use events::{Event, EventBus};
pub use federation::{FederationEnvelope, FederationError, FederationRouter, MeshLink};
pub use gossip::{GossipError, GossipMessage, GossipRouter};
pub use matchmaking::{
    MatchError, MatchRequest, MatchResult, Matchmaker, PeerOffer, ScheduleSlot, SkillRange,
    SlotState, TimeWindow,
};
pub use node::MeshNode;
pub use relay::SignalRelay;
pub use room::{RoomError, RoomInfo, RoomManager};
pub use room_state::{
    ClockOrdering, RoomStateSync, StateDelta, StateEntry, StateError, StateSnapshot, VectorClock,
};
pub use signal::{
    IceCandidate, IceServer, SessionAnswer, SessionOffer, SignalError, SignalMessage,
    SignalingChannel,
};
pub use time::Timestamp;
