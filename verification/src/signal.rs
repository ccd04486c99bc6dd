//! Signaling messages and the servers that help peers reach each other.
use crate::queue::queue_capacity_ok;
use crate::table::{opt_view, views};
use crate::text::cat2;
use tokio::sync::mpsc;
use vstd::prelude::*;

verus! {

/// The session description of the initiating peer.
#[derive(Debug)]
pub struct SessionOffer {
    pub from: String,
    pub to: String,
    pub sdp: String,
}

/// The content of a `SessionOffer`.
#[verifier::ext_equal]
pub struct SessionOfferView {
    pub from: Seq<char>,
    pub to: Seq<char>,
    pub sdp: Seq<char>,
}

impl View for SessionOffer {
    type V = SessionOfferView;

    open spec fn view(&self) -> SessionOfferView {
        SessionOfferView {
            from: self.from@,
            to: self.to@,
            sdp: self.sdp@,
        }
    }
}

impl Clone for SessionOffer {
    fn clone(&self) -> (r: Self)
        ensures
            r@ == self@,
    {
        SessionOffer {
            from: self.from.clone(),
            to: self.to.clone(),
            sdp: self.sdp.clone(),
        }
    }
}

/// The session description of the receiving peer.
#[derive(Debug)]
pub struct SessionAnswer {
    pub from: String,
    pub to: String,
    pub sdp: String,
}

/// The content of a `SessionAnswer`.
#[verifier::ext_equal]
pub struct SessionAnswerView {
    pub from: Seq<char>,
    pub to: Seq<char>,
    pub sdp: Seq<char>,
}

impl View for SessionAnswer {
    type V = SessionAnswerView;

    open spec fn view(&self) -> SessionAnswerView {
        SessionAnswerView {
            from: self.from@,
            to: self.to@,
            sdp: self.sdp@,
        }
    }
}

impl Clone for SessionAnswer {
    fn clone(&self) -> (r: Self)
        ensures
            r@ == self@,
    {
        SessionAnswer {
            from: self.from.clone(),
            to: self.to.clone(),
            sdp: self.sdp.clone(),
        }
    }
}

/// A candidate address for NAT traversal.
#[derive(Debug)]
pub struct IceCandidate {
    pub from: String,
    pub to: String,
    pub candidate: String,
    pub sdp_m_line_index: u32,
}

/// The content of a `IceCandidate`.
#[verifier::ext_equal]
pub struct IceCandidateView {
    pub from: Seq<char>,
    pub to: Seq<char>,
    pub candidate: Seq<char>,
    pub sdp_m_line_index: u32,
}

impl View for IceCandidate {
    type V = IceCandidateView;

    open spec fn view(&self) -> IceCandidateView {
        IceCandidateView {
            from: self.from@,
            to: self.to@,
            candidate: self.candidate@,
            sdp_m_line_index: self.sdp_m_line_index,
        }
    }
}

impl Clone for IceCandidate {
    fn clone(&self) -> (r: Self)
        ensures
            r@ == self@,
    {
        IceCandidate {
            from: self.from.clone(),
            to: self.to.clone(),
            candidate: self.candidate.clone(),
            sdp_m_line_index: self.sdp_m_line_index,
        }
    }
}

/// The signaling messages.
#[derive(Debug)]
pub enum SignalMessage {
    Offer(SessionOffer),
    Answer(SessionAnswer),
    IceCandidate(IceCandidate),
}

/// The content of a `SignalMessage`.
#[verifier::ext_equal]
pub enum SignalMessageView {
    Offer(SessionOfferView),
    Answer(SessionAnswerView),
    IceCandidate(IceCandidateView),
}

impl View for SignalMessage {
    type V = SignalMessageView;

    open spec fn view(&self) -> SignalMessageView {
        match *self {
            SignalMessage::Offer(x) => SignalMessageView::Offer(x@),
            SignalMessage::Answer(x) => SignalMessageView::Answer(x@),
            SignalMessage::IceCandidate(x) => SignalMessageView::IceCandidate(x@),
        }
    }
}

impl Clone for SignalMessage {
    fn clone(&self) -> (r: Self)
        ensures
            r@ == self@,
    {
        match self {
            SignalMessage::Offer(x) => SignalMessage::Offer(x.clone()),
            SignalMessage::Answer(x) => SignalMessage::Answer(x.clone()),
            SignalMessage::IceCandidate(x) => SignalMessage::IceCandidate(x.clone()),
        }
    }
}

/// What can go wrong with signaling.
#[derive(Debug)]
pub enum SignalError {
    ChannelClosed,
    UnknownPeer(String),
}

/// The content of a `SignalError`.
#[verifier::ext_equal]
pub enum SignalErrorView {
    ChannelClosed,
    UnknownPeer(Seq<char>),
}

impl View for SignalError {
    type V = SignalErrorView;

    open spec fn view(&self) -> SignalErrorView {
        match *self {
            SignalError::ChannelClosed => SignalErrorView::ChannelClosed,
            SignalError::UnknownPeer(x) => SignalErrorView::UnknownPeer(x@),
        }
    }
}

impl Clone for SignalError {
    fn clone(&self) -> (r: Self)
        ensures
            r@ == self@,
    {
        match self {
            SignalError::ChannelClosed => SignalError::ChannelClosed,
            SignalError::UnknownPeer(x) => SignalError::UnknownPeer(x.clone()),
        }
    }
}

impl SignalErrorView {
    /// The text of the error.
    pub open spec fn text(self) -> Seq<char> {
        match self {
            SignalErrorView::ChannelClosed => "signaling channel closed"@,
            SignalErrorView::UnknownPeer(id) => "unknown peer: "@ + id,
        }
    }
}

impl SignalError {
    /// The text of the error.
    pub fn to_string(&self) -> (r: String)
        ensures
            r@ == self@.text(),
    {
        match self {
            SignalError::ChannelClosed => "signaling channel closed".to_owned(),
            SignalError::UnknownPeer(id) => cat2("unknown peer: ", id.as_str()),
        }
    }
}

/// The messages that the queue took through this sending handle, oldest first.
pub uninterp spec fn signal_log(tx: mpsc::Sender<SignalMessage>) -> Seq<SignalMessageView>;

/// Which queue of signaling messages a sending handle is of, as `same_channel` tells handles apart.
pub uninterp spec fn signal_sender_queue(tx: mpsc::Sender<SignalMessage>) -> int;

/// Which queue of signaling messages a receiving half is of.
pub uninterp spec fn signal_receiver_queue(rx: mpsc::Receiver<SignalMessage>) -> int;

/// The capacity that the queue of a sending handle was made with.
pub uninterp spec fn signal_queue_capacity(tx: mpsc::Sender<SignalMessage>) -> usize;

/// `tokio::sync::mpsc::channel` for signaling messages: both halves of a new queue with the given
/// capacity, through which nothing was sent yet. It panics on a capacity of zero or
/// above an eighth of `usize::MAX`.
#[verifier::external_body]
pub(crate) fn open_signal_queue(buffer: usize) -> (r: (
    mpsc::Sender<SignalMessage>,
    mpsc::Receiver<SignalMessage>,
))
    requires
        queue_capacity_ok(buffer),
    ensures
        signal_receiver_queue(r.1) == signal_sender_queue(r.0),
        signal_queue_capacity(r.0) == buffer,
        signal_log(r.0) == Seq::<SignalMessageView>::empty(),
{
    mpsc::channel(buffer)
}

/// `tokio::sync::mpsc::Sender::clone`: a second sending handle of the same queue,
/// through which nothing was sent yet.
#[verifier::external_body]
fn signal_handle(tx: &mpsc::Sender<SignalMessage>) -> (r: mpsc::Sender<SignalMessage>)
    ensures
        signal_sender_queue(r) == signal_sender_queue(*tx),
        signal_queue_capacity(r) == signal_queue_capacity(*tx),
        signal_log(r) == Seq::<SignalMessageView>::empty(),
{
    tx.clone()
}

/// A signaling transport in memory: a queue to send on and a queue to receive from.
#[derive(Debug)]
pub struct SignalingChannel {
    tx: mpsc::Sender<SignalMessage>,
    rx: mpsc::Receiver<SignalMessage>,
}

/// How many messages wait in each direction of a pair of signaling channels.
pub const SIGNALING_PAIR_BUFFER: usize = 32;

impl SignalingChannel {
    /// The queue that the channel sends on.
    pub closed spec fn sends_on(&self) -> int {
        signal_sender_queue(self.tx)
    }

    /// The queue that the channel receives from.
    pub closed spec fn receives_from(&self) -> int {
        signal_receiver_queue(self.rx)
    }

    /// The capacity of the queue that the channel sends on.
    pub closed spec fn capacity(&self) -> usize {
        signal_queue_capacity(self.tx)
    }

    /// A channel that receives what it sends, and a second sending handle of its
    /// queue.
    pub fn new(buffer: usize) -> (r: (mpsc::Sender<SignalMessage>, Self))
        requires
            queue_capacity_ok(buffer),
        ensures
            r.1.receives_from() == r.1.sends_on(),
            r.1.capacity() == buffer,
            signal_sender_queue(r.0) == r.1.sends_on(),
    {
        let (tx, rx) = open_signal_queue(buffer);
        let sender = signal_handle(&tx);
        (sender, SignalingChannel { tx, rx })
    }

    /// Another handle of the queue that the channel sends on.
    pub fn sender(&self) -> (r: mpsc::Sender<SignalMessage>)
        ensures
            signal_sender_queue(r) == self.sends_on(),
            signal_queue_capacity(r) == self.capacity(),
    {
        signal_handle(&self.tx)
    }

    /// The receiving half of the queue that the channel receives from.
    pub fn receiver_mut(&mut self) -> (r: &mut mpsc::Receiver<SignalMessage>)
        ensures
            signal_receiver_queue(*r) == old(self).receives_from(),
            final(self).receives_from() == signal_receiver_queue(*final(r)),
            final(self).sends_on() == old(self).sends_on(),
            final(self).capacity() == old(self).capacity(),
    {
        &mut self.rx
    }
}

/// Two signaling channels, each of which receives what the other sends.
pub fn signaling_pair() -> (r: (SignalingChannel, SignalingChannel))
    ensures
        r.0.receives_from() == r.1.sends_on(),
        r.1.receives_from() == r.0.sends_on(),
        r.0.capacity() == SIGNALING_PAIR_BUFFER,
        r.1.capacity() == SIGNALING_PAIR_BUFFER,
{
    let (tx_a, rx_a) = open_signal_queue(SIGNALING_PAIR_BUFFER);
    let (tx_b, rx_b) = open_signal_queue(SIGNALING_PAIR_BUFFER);
    (SignalingChannel { tx: tx_b, rx: rx_a }, SignalingChannel { tx: tx_a, rx: rx_b })
}

/// What sending on a signaling channel gives once its queue took the message or did
/// not, being closed.
pub fn send_outcome(sent: bool) -> (r: Result<(), SignalError>)
    ensures
        r is Ok <==> sent,
        r matches Err(e) ==> e@ == SignalErrorView::ChannelClosed,
{
    if sent {
        Ok(())
    } else {
        Err(SignalError::ChannelClosed)
    }
}

/// What receiving on a signaling channel gives once its queue had a message or, being
/// closed, had none.
pub fn recv_outcome(received: Option<SignalMessage>) -> (r: Result<SignalMessage, SignalError>)
    ensures
        match received {
            Some(msg) => r == Ok::<SignalMessage, SignalError>(msg),
            None => r matches Err(e) && e@ == SignalErrorView::ChannelClosed,
        },
{
    match received {
        Some(msg) => Ok(msg),
        None => Err(SignalError::ChannelClosed),
    }
}

impl SignalMessageView {
    /// The peer that the message is for.
    pub open spec fn target(self) -> Seq<char> {
        match self {
            SignalMessageView::Offer(o) => o.to,
            SignalMessageView::Answer(a) => a.to,
            SignalMessageView::IceCandidate(c) => c.to,
        }
    }

    /// The peer that sent the message.
    pub open spec fn source(self) -> Seq<char> {
        match self {
            SignalMessageView::Offer(o) => o.from,
            SignalMessageView::Answer(a) => a.from,
            SignalMessageView::IceCandidate(c) => c.from,
        }
    }
}

/// A STUN or TURN server.
#[derive(Debug)]
pub struct IceServer {
    pub urls: Vec<String>,
    pub username: Option<String>,
    pub credential: Option<String>,
}

/// The content of a `IceServer`.
#[verifier::ext_equal]
pub struct IceServerView {
    pub urls: Seq<Seq<char>>,
    pub username: Option<Seq<char>>,
    pub credential: Option<Seq<char>>,
}

impl View for IceServer {
    type V = IceServerView;

    open spec fn view(&self) -> IceServerView {
        IceServerView {
            urls: views(self.urls@),
            username: opt_view(self.username),
            credential: opt_view(self.credential),
        }
    }
}

impl Clone for IceServer {
    fn clone(&self) -> (r: Self)
        ensures
            r@ == self@,
    {
        let r = IceServer {
            urls: self.urls.clone(),
            username: self.username.clone(),
            credential: self.credential.clone(),
        };
        proof {
            assert(views(r.urls@) =~= views(self.urls@));
            assert(r@ =~= self@);
        }
        r
    }
}

/// A STUN server without credentials.
pub open spec fn stun_server(url: Seq<char>) -> IceServerView {
    IceServerView { urls: seq![url], username: None, credential: None }
}

/// The public STUN servers for development and testing.
pub open spec fn default_servers() -> Seq<IceServerView> {
    seq![
        stun_server("stun:stun.l.google.com:19302"@),
        stun_server("stun:stun1.l.google.com:19302"@),
    ]
}

fn stun(url: &str) -> (r: IceServer)
    ensures
        r@ == stun_server(url@),
{
    let mut urls: Vec<String> = Vec::new();
    urls.push(url.to_owned());
    let r = IceServer { urls, username: None, credential: None };
    assert(r@.urls =~= seq![url@]);
    r
}

/// The public STUN servers for development and testing.
pub fn default_ice_servers() -> (r: Vec<IceServer>)
    ensures
        views(r@) == default_servers(),
{
    let mut r: Vec<IceServer> = Vec::new();
    r.push(stun("stun:stun.l.google.com:19302"));
    r.push(stun("stun:stun1.l.google.com:19302"));
    assert(views(r@) =~= default_servers());
    r
}

/// The default servers, followed by the given ones.
pub fn build_ice_config(turn_servers: Vec<IceServer>) -> (r: Vec<IceServer>)
    ensures
        views(r@) == default_servers() + views(turn_servers@),
{
    let mut extra = turn_servers;
    let mut servers = default_ice_servers();
    servers.append(&mut extra);
    assert(views(servers@) =~= default_servers() + views(turn_servers@));
    servers
}

/// The peer that a message is for.
pub fn signal_target(msg: &SignalMessage) -> (r: &str)
    ensures
        r@ == msg@.target(),
{
    match msg {
        SignalMessage::Offer(o) => o.to.as_str(),
        SignalMessage::Answer(a) => a.to.as_str(),
        SignalMessage::IceCandidate(c) => c.to.as_str(),
    }
}

/// The peer that sent a message.
pub fn signal_source(msg: &SignalMessage) -> (r: &str)
    ensures
        r@ == msg@.source(),
{
    match msg {
        SignalMessage::Offer(o) => o.from.as_str(),
        SignalMessage::Answer(a) => a.from.as_str(),
        SignalMessage::IceCandidate(c) => c.from.as_str(),
    }
}

/// The server list starts with two STUN servers without credentials and goes on with the
/// given servers, in their order.
pub proof fn the_default_servers_are_stun_servers(extra: Seq<IceServerView>, i: int)
    requires
        0 <= i < extra.len(),
    ensures
        ({
            let all = default_servers() + extra;
            &&& all.len() == extra.len() + 2
            &&& all[0].urls == seq!["stun:stun.l.google.com:19302"@]
            &&& all[1].urls == seq!["stun:stun1.l.google.com:19302"@]
            &&& all[0].username is None && all[0].credential is None
            &&& all[1].username is None && all[1].credential is None
            &&& all[i + 2] == extra[i]
        }),
{
}

} // verus!
