//! What the gateway makes of envelopes: versions, expiry, policies, signatures,
//! dispatch by intent, and envelopes of other meshes.
use crate::crypto::{verdict, verify, Signature};
use crate::discovery::{AnnounceMessage, AnnounceMessageView, PeerStatus};
use crate::double::Double;
use crate::federation::{
    FederationEnvelope, FederationEnvelopeView, FederationError, FederationErrorView,
};
use crate::ids::fresh_id;
use crate::json::{
    a_field_is_a_member, has_member, json_bytes, json_content, json_text, names_differ, read_json,
    the_texts_of_a_list, Payload, PayloadView,
};
use crate::matchmaking::{
    MatchRequestView, PeerOfferView, ScheduleSlotView, SkillRange, SlotState, TimeWindow,
};
use crate::node::{MeshNode, MeshNodeView};
use crate::table::result_view;
use crate::text::{cat2, cat3, cat5, same};
use crate::time::{clock_reading, parsed_time, rfc3339, rfc3339_text, utc_time, Timestamp};
use vstd::prelude::*;

verus! {

/// The version of the envelopes that the gateway takes.
pub const PROTOCOL_VERSION: &'static str = "0.1";

/// The skill that a match request starts from where it names none: zero.
pub const LOWEST_SKILL: u64 = 0;

/// The skill that a match request goes up to where it names none: the number 100.
pub const HIGHEST_SKILL: u64 = 0x4059_0000_0000_0000;

/// How many signaling messages wait for a peer that announced itself.
pub const RELAY_BUFFER: usize = 64;

/// What an envelope asks for.
#[derive(Clone, Copy, Debug, PartialEq, Eq, Structural)]
pub enum Intent {
    Announce,
    RequestMatch,
    Schedule,
    Offer,
}

/// From whom an envelope is taken.
#[derive(Clone, Copy, Debug, PartialEq, Eq, Structural)]
pub enum Policy {
    /// From any sender.
    Public,
    /// From senders of the gateway's mesh.
    MeshOnly,
    /// From registered peers.
    Private,
}

/// The sender of an envelope.
#[derive(Debug)]
pub struct EnvelopeSender {
    pub agent_id: String,
    pub mesh_id: String,
}

/// A message of the protocol.
#[derive(Debug)]
pub struct Envelope {
    pub schema_version: String,
    pub intent: Intent,
    pub capability: String,
    pub policy: Policy,
    pub timestamp: Timestamp,
    pub sender: EnvelopeSender,
    pub payload: serde_json::Value,
    /// The signature over the JSON text of the payload, in base64.
    pub signature: Option<String>,
    /// The public key of the signer, in base64.
    pub signing_key: Option<String>,
    /// When the envelope expires.
    pub expiry: Option<Timestamp>,
}

impl Envelope {
    /// The content of the payload.
    pub open spec fn content(self) -> PayloadView {
        json_content(self.payload)
    }
}

/// The status of an answer.
#[derive(Clone, Copy, Debug, PartialEq, Eq, Structural)]
pub enum Status {
    Success,
    Created,
    Accepted,
    BadRequest,
    Unauthorized,
    Forbidden,
    NotFound,
    Conflict,
    Gone,
    MisdirectedRequest,
    InternalServerError,
    BadGateway,
}

impl View for Status {
    type V = Status;

    open spec fn view(&self) -> Status {
        *self
    }
}

impl Status {
    /// The HTTP status code.
    pub open spec fn code_spec(self) -> u16 {
        match self {
            Status::Success => 200,
            Status::Created => 201,
            Status::Accepted => 202,
            Status::BadRequest => 400,
            Status::Unauthorized => 401,
            Status::Forbidden => 403,
            Status::NotFound => 404,
            Status::Conflict => 409,
            Status::Gone => 410,
            Status::MisdirectedRequest => 421,
            Status::InternalServerError => 500,
            Status::BadGateway => 502,
        }
    }

    /// The HTTP status code.
    pub fn code(&self) -> (r: u16)
        ensures
            r == self.code_spec(),
    {
        match self {
            Status::Success => 200,
            Status::Created => 201,
            Status::Accepted => 202,
            Status::BadRequest => 400,
            Status::Unauthorized => 401,
            Status::Forbidden => 403,
            Status::NotFound => 404,
            Status::Conflict => 409,
            Status::Gone => 410,
            Status::MisdirectedRequest => 421,
            Status::InternalServerError => 500,
            Status::BadGateway => 502,
        }
    }
}

/// The body of an answer that refuses.
#[derive(Debug)]
pub struct ErrorResponse {
    /// What kind of refusal it is.
    pub error: &'static str,
    /// Why, for humans.
    pub detail: String,
}

/// The content of a `ErrorResponse`.
#[verifier::ext_equal]
pub struct ErrorResponseView {
    pub error: Seq<char>,
    pub detail: Seq<char>,
}

impl View for ErrorResponse {
    type V = ErrorResponseView;

    open spec fn view(&self) -> ErrorResponseView {
        ErrorResponseView {
            error: self.error@,
            detail: self.detail@,
        }
    }
}

impl Clone for ErrorResponse {
    fn clone(&self) -> (r: Self)
        ensures
            r@ == self@,
    {
        ErrorResponse {
            error: self.error,
            detail: self.detail.clone(),
        }
    }
}

/// An answer that refuses.
#[derive(Debug)]
pub struct Failure {
    pub status: Status,
    pub body: ErrorResponse,
}

/// The content of a `Failure`.
#[verifier::ext_equal]
pub struct FailureView {
    pub status: Status,
    pub error: Seq<char>,
    pub detail: Seq<char>,
}

impl View for Failure {
    type V = FailureView;

    open spec fn view(&self) -> FailureView {
        FailureView {
            status: self.status,
            error: self.body.error@,
            detail: self.body.detail@,
        }
    }
}

/// An answer that refuses.
pub(crate) fn failure(status: Status, error: &'static str, detail: String) -> (r: Failure)
    ensures
        r@ == (FailureView { status, error: error@, detail: detail@ }),
{
    Failure { status, body: ErrorResponse { error, detail } }
}

/// The body of an answer to an envelope.
#[derive(Debug)]
pub struct RouteResponse {
    pub status: &'static str,
    pub intent: Intent,
    pub route: &'static str,
}

/// The content of a `RouteResponse`.
#[verifier::ext_equal]
pub struct RouteResponseView {
    pub status: Seq<char>,
    pub intent: Intent,
    pub route: Seq<char>,
}

impl View for RouteResponse {
    type V = RouteResponseView;

    open spec fn view(&self) -> RouteResponseView {
        RouteResponseView {
            status: self.status@,
            intent: self.intent,
            route: self.route@,
        }
    }
}

impl Clone for RouteResponse {
    fn clone(&self) -> (r: Self)
        ensures
            r@ == self@,
    {
        RouteResponse {
            status: self.status,
            intent: self.intent,
            route: self.route,
        }
    }
}

/// What the system contributes to the routing of an envelope: a fresh id and readings of the clock.
#[derive(Debug)]
pub struct Readings {
    /// The id of a new request or slot.
    pub id: String,
    /// The time that stands in for the first missing time of a payload.
    pub first: Timestamp,
    /// The time that stands in for the second missing time of a payload.
    pub second: Timestamp,
    /// When the new entry is made.
    pub made: Timestamp,
}

/// The content of a `Readings`.
#[verifier::ext_equal]
pub struct ReadingsView {
    pub id: Seq<char>,
    pub first: Timestamp,
    pub second: Timestamp,
    pub made: Timestamp,
}

impl View for Readings {
    type V = ReadingsView;

    open spec fn view(&self) -> ReadingsView {
        ReadingsView {
            id: self.id@,
            first: self.first,
            second: self.second,
            made: self.made,
        }
    }
}

impl Clone for Readings {
    fn clone(&self) -> (r: Self)
        ensures
            r@ == self@,
    {
        Readings {
            id: self.id.clone(),
            first: self.first,
            second: self.second,
            made: self.made,
        }
    }
}

impl ReadingsView {
    /// The readings are ones that the system can give: the id has the length of one,
    /// and the times are of the clock.
    pub open spec fn from_system(self) -> bool {
        &&& self.id.len() == 36
        &&& clock_reading(self.first)
        &&& clock_reading(self.second)
        &&& clock_reading(self.made)
    }
}

impl Readings {
    /// Fresh readings.
    pub fn take() -> (r: Readings)
        ensures
            r@.from_system(),
    {
        Readings {
            id: fresh_id(),
            first: Timestamp::now(),
            second: Timestamp::now(),
            made: Timestamp::now(),
        }
    }
}

/// The status that a text names. All but "busy" and "away" stand for available.
pub open spec fn status_named(text: Seq<char>) -> PeerStatus {
    if text == "busy"@ {
        PeerStatus::Busy
    } else if text == "away"@ {
        PeerStatus::Away
    } else {
        PeerStatus::Available
    }
}

/// The status that a text names.
pub fn parse_status(text: &str) -> (r: PeerStatus)
    ensures
        r == status_named(text@),
{
    if same(text, "busy") {
        PeerStatus::Busy
    } else if same(text, "away") {
        PeerStatus::Away
    } else {
        PeerStatus::Available
    }
}

/// Why the policy of an envelope refuses it, if so.
pub open spec fn policy_refusal(node: MeshNodeView, e: Envelope) -> Option<FailureView> {
    match e.policy {
        Policy::Public => None,
        Policy::MeshOnly => if e.sender.mesh_id@ == node.mesh_id {
            None
        } else {
            Some(
                FailureView {
                    status: Status::Forbidden,
                    error: "policy_violation"@,
                    detail: "mesh-only policy: sender mesh '"@ + e.sender.mesh_id@
                        + "' does not match gateway mesh '"@ + node.mesh_id + "'"@,
                },
            )
        },
        Policy::Private => if node.registry().peers.contains_key(e.sender.agent_id@) {
            None
        } else {
            Some(
                FailureView {
                    status: Status::Forbidden,
                    error: "policy_violation"@,
                    detail: "private policy: sender '"@ + e.sender.agent_id@
                        + "' is not a registered peer"@,
                },
            )
        },
    }
}

/// Why the version of an envelope refuses it, if so.
pub open spec fn version_refusal(e: Envelope) -> Option<FailureView> {
    if e.schema_version@ == PROTOCOL_VERSION@ {
        None
    } else {
        Some(
            FailureView {
                status: Status::BadRequest,
                error: "invalid_schema_version"@,
                detail: "unsupported schema_version '"@ + e.schema_version@ + "', expected '"@
                    + PROTOCOL_VERSION@ + "'"@,
            },
        )
    }
}

/// Why an envelope is refused as expired at time `now`, if so.
pub open spec fn expiry_refusal(e: Envelope, now: Timestamp) -> Option<FailureView> {
    match e.expiry {
        Some(t) => if now.after(t) {
            Some(
                FailureView {
                    status: Status::Gone,
                    error: "envelope_expired"@,
                    detail: "envelope expired at "@ + rfc3339_text(t.secs_spec(), t.nanos_spec()),
                },
            )
        } else {
            None
        },
        None => None,
    }
}

/// Why the signature of an envelope refuses it, if so: it has one, its sender is
/// authenticated, and it is no signature of the payload under the sender's key.
pub open spec fn signature_refusal(node: MeshNodeView, e: Envelope) -> Option<FailureView> {
    match e.signature {
        Some(sig) => if node.auth.authenticated.contains_key(e.sender.agent_id@) && verdict(
            node.auth.authenticated[e.sender.agent_id@].public_key.key,
            json_text(e.payload),
            sig@,
        ) is Err {
            Some(
                FailureView {
                    status: Status::Unauthorized,
                    error: "signature_invalid"@,
                    detail: "envelope signature verification failed"@,
                },
            )
        } else {
            None
        },
        None => None,
    }
}

/// The payload of an announcement has exactly the fields it must have, each of its
/// kind; otherwise the field at fault, or "payload" where it is no object or has
/// unknown fields.
pub open spec fn announce_fault(p: PayloadView) -> Option<Seq<char>> {
    if !p.has_only("display_name"@, "supports"@, "status"@) {
        Some("payload"@)
    } else if !p.has_text("display_name"@) {
        Some("display_name"@)
    } else if !p.has_text_set("supports"@) {
        Some("supports"@)
    } else if !p.has_one_of("status"@, "available"@, "busy"@, "away"@) {
        Some("status"@)
    } else {
        None
    }
}

/// The member is an object with two numbers, `min` and `max`, and nothing else.
pub open spec fn has_skills(p: PayloadView) -> bool {
    p.field("skill_range"@) matches Some(range) && range.has_only("min"@, "max"@, "max"@)
        && range.has_number("min"@) && range.has_number("max"@)
}

/// The member is an object with two instants, `start` and `end`, and nothing else.
pub open spec fn has_times(p: PayloadView) -> bool {
    p.field("time_window"@) matches Some(window) && window.has_only("start"@, "end"@, "end"@)
        && window.has_time("start"@) && window.has_time("end"@)
}

/// What is at fault in the payload of a match request, if anything.
pub open spec fn request_fault(p: PayloadView) -> Option<Seq<char>> {
    if !p.has_only("game"@, "skill_range"@, "time_window"@) {
        Some("payload"@)
    } else if !p.has_text("game"@) {
        Some("game"@)
    } else if !has_skills(p) {
        Some("skill_range"@)
    } else if !has_times(p) {
        Some("time_window"@)
    } else {
        None
    }
}

/// What is at fault in the payload of a schedule envelope, if anything.
pub open spec fn schedule_fault(p: PayloadView) -> Option<Seq<char>> {
    if !p.has_only("slot_start"@, "slot_end"@, "state"@) {
        Some("payload"@)
    } else if !p.has_time("slot_start"@) {
        Some("slot_start"@)
    } else if !p.has_time("slot_end"@) {
        Some("slot_end"@)
    } else if !p.has_one_of("state"@, "proposed"@, "confirmed"@, "declined"@) {
        Some("state"@)
    } else {
        None
    }
}

/// What is at fault in the payload of an offer, if anything.
pub open spec fn offer_fault(p: PayloadView) -> Option<Seq<char>> {
    if !p.has_only("offer_id"@, "summary"@, "expires_at"@) {
        Some("payload"@)
    } else if !p.has_text("offer_id"@) {
        Some("offer_id"@)
    } else if !p.has_text("summary"@) {
        Some("summary"@)
    } else if !p.has_time("expires_at"@) {
        Some("expires_at"@)
    } else {
        None
    }
}

/// What is at fault in a payload, if anything, where the envelope asks for `intent`.
pub open spec fn payload_fault(intent: Intent, p: PayloadView) -> Option<Seq<char>> {
    match intent {
        Intent::Announce => announce_fault(p),
        Intent::RequestMatch => request_fault(p),
        Intent::Schedule => schedule_fault(p),
        Intent::Offer => offer_fault(p),
    }
}

/// Why the payload of an envelope refuses it, if so: a required field is missing or of
/// the wrong kind, or a field is unknown.
pub open spec fn payload_refusal(e: Envelope) -> Option<FailureView> {
    match payload_fault(e.intent, e.content()) {
        Some(field) => Some(
            FailureView {
                status: Status::BadRequest,
                error: "invalid_payload"@,
                detail: "invalid payload field: "@ + field,
            },
        ),
        None => None,
    }
}

/// Why an envelope is refused at time `now`, if so. The version counts first, then
/// the expiry, the policy, the signature and the payload.
pub open spec fn envelope_refusal(node: MeshNodeView, e: Envelope, now: Timestamp) -> Option<
    FailureView,
> {
    if version_refusal(e) is Some {
        version_refusal(e)
    } else if expiry_refusal(e, now) is Some {
        expiry_refusal(e, now)
    } else if policy_refusal(node, e) is Some {
        policy_refusal(node, e)
    } else if signature_refusal(node, e) is Some {
        signature_refusal(node, e)
    } else {
        payload_refusal(e)
    }
}

/// The announcement of a sender with a given payload.
pub open spec fn announcement_of(
    agent_id: Seq<char>,
    mesh_id: Seq<char>,
    p: PayloadView,
) -> AnnounceMessageView {
    AnnounceMessageView {
        agent_id,
        mesh_id,
        display_name: p.text_or("display_name"@, "unknown"@),
        status: status_named(p.text_or("status"@, "available"@)),
        capabilities: p.text_list("supports"@),
    }
}

/// The announcement in an envelope.
pub open spec fn announcement(e: Envelope) -> AnnounceMessageView {
    announcement_of(e.sender.agent_id@, e.sender.mesh_id@, e.content())
}

/// The skill range that the payload of a match request names.
pub open spec fn requested_skills(p: PayloadView) -> SkillRange {
    SkillRange {
        min: p.nested_number_or("skill_range"@, "min"@, Double { bits: LOWEST_SKILL }),
        max: p.nested_number_or("skill_range"@, "max"@, Double { bits: HIGHEST_SKILL }),
    }
}

/// The time window that the payload of a match request names.
pub open spec fn requested_times(p: PayloadView, first: Timestamp, second: Timestamp) -> TimeWindow {
    TimeWindow {
        start: p.nested_time_or("time_window"@, "start"@, first),
        end: p.nested_time_or("time_window"@, "end"@, second),
    }
}

/// The node after an announcement: the peer is registered, and has a new queue at
/// the signal relay, for up to `RELAY_BUFFER` messages.
pub open spec fn after_announce(node: MeshNodeView, e: Envelope, r: ReadingsView) -> MeshNodeView {
    MeshNodeView {
        relay: node.relay.registered(e.sender.agent_id@, RELAY_BUFFER),
        ..node.with_registry(node.registry().announced(announcement(e), r.made))
    }
}

/// The match request in an envelope.
pub open spec fn match_request(node: MeshNodeView, e: Envelope, r: ReadingsView) -> MatchRequestView {
    MatchRequestView {
        request_id: r.id,
        agent_id: e.sender.agent_id@,
        mesh_id: node.matchmaker.mesh_id,
        game: e.content().text_or("game"@, ""@),
        skill_range: requested_skills(e.content()),
        time_window: requested_times(e.content(), r.first, r.second),
        created_at: r.made,
    }
}

/// The node after a match request.
pub open spec fn after_request_match(
    node: MeshNodeView,
    e: Envelope,
    r: ReadingsView,
) -> MeshNodeView {
    MeshNodeView { matchmaker: node.matchmaker.requested(match_request(node, e, r)), ..node }
}

/// The slot that an envelope proposes.
pub open spec fn proposed_slot(node: MeshNodeView, e: Envelope, r: ReadingsView) -> ScheduleSlotView {
    ScheduleSlotView {
        schedule_id: r.id,
        agent_id: e.sender.agent_id@,
        mesh_id: node.matchmaker.mesh_id,
        slot_start: e.content().time_or("slot_start"@, r.first),
        slot_end: e.content().time_or("slot_end"@, r.second),
        state: SlotState::Proposed,
        created_at: r.made,
    }
}

/// The node after a schedule envelope: the slot is proposed, and at once confirmed
/// or declined where the envelope says so.
pub open spec fn after_schedule(node: MeshNodeView, e: Envelope, r: ReadingsView) -> MeshNodeView {
    let proposed = node.matchmaker.proposed(proposed_slot(node, e, r));
    let state = e.content().text_or("state"@, "proposed"@);
    let matchmaker = if state == "confirmed"@ {
        proposed.settled(r.id, SlotState::Confirmed, " confirmed"@)
    } else if state == "declined"@ {
        proposed.settled(r.id, SlotState::Declined, " declined"@)
    } else {
        proposed
    };
    MeshNodeView { matchmaker, ..node }
}

/// The offer in an envelope.
pub open spec fn offer_made(node: MeshNodeView, e: Envelope, r: ReadingsView) -> PeerOfferView {
    PeerOfferView {
        offer_id: e.content().text_or("offer_id"@, ""@),
        from_agent: e.sender.agent_id@,
        mesh_id: node.matchmaker.mesh_id,
        summary: e.content().text_or("summary"@, ""@),
        expires_at: e.content().time_or("expires_at"@, r.first),
        created_at: r.made,
    }
}

/// The node after an offer.
pub open spec fn after_offer(node: MeshNodeView, e: Envelope, r: ReadingsView) -> MeshNodeView {
    MeshNodeView { matchmaker: node.matchmaker.offered(offer_made(node, e, r)), ..node }
}

/// The peers whose queues at the signal relay are replaced when an envelope is
/// dispatched.
pub open spec fn requeued(e: Envelope) -> Set<Seq<char>> {
    if e.intent == Intent::Announce {
        set![e.sender.agent_id@]
    } else {
        Set::empty()
    }
}

/// The node after an envelope was dispatched by its intent.
pub open spec fn dispatched(node: MeshNodeView, e: Envelope, r: ReadingsView) -> MeshNodeView {
    match e.intent {
        Intent::Announce => after_announce(node, e, r),
        Intent::RequestMatch => after_request_match(node, e, r),
        Intent::Schedule => after_schedule(node, e, r),
        Intent::Offer => after_offer(node, e, r),
    }
}

/// The answer to an envelope that was dispatched.
pub open spec fn dispatch_response(intent: Intent) -> RouteResponseView {
    RouteResponseView {
        status: "accepted"@,
        intent,
        route: match intent {
            Intent::Announce => "announce_router"@,
            Intent::RequestMatch => "request_match_router"@,
            Intent::Schedule => "schedule_router"@,
            Intent::Offer => "offer_router"@,
        },
    }
}

/// Refuses an envelope that its policy does not admit.
pub fn enforce_policy(node: &MeshNode, envelope: &Envelope) -> (r: Result<(), Failure>)
    ensures
        match policy_refusal(node@, *envelope) {
            Some(f) => r matches Err(e) && e@ == f,
            None => r is Ok,
        },
{
    match envelope.policy {
        Policy::Public => Ok(()),
        Policy::MeshOnly => {
            if !same(envelope.sender.mesh_id.as_str(), node.mesh_id()) {
                let detail = cat5(
                    "mesh-only policy: sender mesh '",
                    envelope.sender.mesh_id.as_str(),
                    "' does not match gateway mesh '",
                    node.mesh_id(),
                    "'",
                );
                return Err(failure(Status::Forbidden, "policy_violation", detail));
            }
            Ok(())
        },
        Policy::Private => {
            let peer = node.registry().get_peer(envelope.sender.agent_id.as_str());
            if peer.is_none() {
                let detail = cat3(
                    "private policy: sender '",
                    envelope.sender.agent_id.as_str(),
                    "' is not a registered peer",
                );
                return Err(failure(Status::Forbidden, "policy_violation", detail));
            }
            Ok(())
        },
    }
}

/// Refuses an envelope of another version.
pub fn check_version(envelope: &Envelope) -> (r: Result<(), Failure>)
    ensures
        match version_refusal(*envelope) {
            Some(f) => r matches Err(e) && e@ == f,
            None => r is Ok,
        },
{
    if same(envelope.schema_version.as_str(), PROTOCOL_VERSION) {
        Ok(())
    } else {
        let detail = cat5(
            "unsupported schema_version '",
            envelope.schema_version.as_str(),
            "', expected '",
            PROTOCOL_VERSION,
            "'",
        );
        Err(failure(Status::BadRequest, "invalid_schema_version", detail))
    }
}

/// Refuses an envelope that has expired by `now`.
pub fn check_expiry(envelope: &Envelope, now: Timestamp) -> (r: Result<(), Failure>)
    ensures
        match expiry_refusal(*envelope, now) {
            Some(f) => r matches Err(e) && e@ == f,
            None => r is Ok,
        },
{
    if let Some(expiry) = envelope.expiry {
        if now.is_after(&expiry) {
            let detail = cat2("envelope expired at ", rfc3339(expiry).as_str());
            return Err(failure(Status::Gone, "envelope_expired", detail));
        }
    }
    Ok(())
}

/// Refuses an envelope whose signature is not one of its authenticated sender. A
/// signature of a sender that is not authenticated is not checked.
pub fn check_signature(node: &MeshNode, envelope: &Envelope) -> (r: Result<(), Failure>)
    ensures
        match signature_refusal(node@, *envelope) {
            Some(f) => r matches Err(e) && e@ == f,
            None => r is Ok,
        },
{
    if let Some(sig) = &envelope.signature {
        if let Some(peer) = node.auth().get_authenticated(envelope.sender.agent_id.as_str()) {
            let signature = Signature { sig: sig.clone() };
            if verify(&peer.public_key, json_bytes(&envelope.payload).as_slice(), &signature).is_err() {
                let detail = "envelope signature verification failed".to_owned();
                return Err(failure(Status::Unauthorized, "signature_invalid", detail));
            }
        }
    }
    Ok(())
}

fn find_announce_fault(p: &Payload) -> (r: Option<&'static str>)
    ensures
        fault_view(r) == announce_fault(p@),
{
    if !p.is_only("display_name", "supports", "status") {
        Some("payload")
    } else if !p.gives_text("display_name") {
        Some("display_name")
    } else if !p.gives_text_set("supports") {
        Some("supports")
    } else if !p.gives_one_of("status", "available", "busy", "away") {
        Some("status")
    } else {
        None
    }
}

fn gives_skills(p: &Payload) -> (r: bool)
    ensures
        r == has_skills(p@),
{
    match p.get("skill_range") {
        Some(range) => range.is_only("min", "max", "max") && range.gives_number("min")
            && range.gives_number("max"),
        None => false,
    }
}

fn gives_times(p: &Payload) -> (r: bool)
    ensures
        r == has_times(p@),
{
    match p.get("time_window") {
        Some(window) => window.is_only("start", "end", "end") && window.gives_time("start")
            && window.gives_time("end"),
        None => false,
    }
}

fn find_request_fault(p: &Payload) -> (r: Option<&'static str>)
    ensures
        fault_view(r) == request_fault(p@),
{
    if !p.is_only("game", "skill_range", "time_window") {
        Some("payload")
    } else if !p.gives_text("game") {
        Some("game")
    } else if !gives_skills(p) {
        Some("skill_range")
    } else if !gives_times(p) {
        Some("time_window")
    } else {
        None
    }
}

fn find_schedule_fault(p: &Payload) -> (r: Option<&'static str>)
    ensures
        fault_view(r) == schedule_fault(p@),
{
    if !p.is_only("slot_start", "slot_end", "state") {
        Some("payload")
    } else if !p.gives_time("slot_start") {
        Some("slot_start")
    } else if !p.gives_time("slot_end") {
        Some("slot_end")
    } else if !p.gives_one_of("state", "proposed", "confirmed", "declined") {
        Some("state")
    } else {
        None
    }
}

fn find_offer_fault(p: &Payload) -> (r: Option<&'static str>)
    ensures
        fault_view(r) == offer_fault(p@),
{
    if !p.is_only("offer_id", "summary", "expires_at") {
        Some("payload")
    } else if !p.gives_text("offer_id") {
        Some("offer_id")
    } else if !p.gives_text("summary") {
        Some("summary")
    } else if !p.gives_time("expires_at") {
        Some("expires_at")
    } else {
        None
    }
}

/// The text of a fault that was found or was not.
pub open spec fn fault_view(fault: Option<&'static str>) -> Option<Seq<char>> {
    match fault {
        Some(field) => Some(field@),
        None => None,
    }
}

/// What is at fault in a payload, if anything, where the envelope asks for `intent`.
pub fn find_fault(intent: Intent, payload: &Payload) -> (r: Option<&'static str>)
    ensures
        fault_view(r) == payload_fault(intent, payload@),
{
    match intent {
        Intent::Announce => find_announce_fault(payload),
        Intent::RequestMatch => find_request_fault(payload),
        Intent::Schedule => find_schedule_fault(payload),
        Intent::Offer => find_offer_fault(payload),
    }
}

/// Refuses an envelope whose payload lacks a field that its intent requires, has one of
/// the wrong kind, or has an unknown one.
pub fn check_payload(envelope: &Envelope) -> (r: Result<(), Failure>)
    ensures
        match payload_refusal(*envelope) {
            Some(f) => r matches Err(e) && e@ == f,
            None => r is Ok,
        },
{
    let payload = read_json(&envelope.payload);
    match find_fault(envelope.intent, &payload) {
        Some(field) => {
            let detail = cat2("invalid payload field: ", field);
            Err(failure(Status::BadRequest, "invalid_payload", detail))
        },
        None => Ok(()),
    }
}

/// Dispatches an envelope by its intent.
pub fn dispatch_intent(node: &mut MeshNode, envelope: &Envelope) -> (r: RouteResponse)
    ensures
        r@ == dispatch_response(envelope.intent),
        exists|readings: ReadingsView|
            readings.from_system() && final(node)@ == #[trigger] dispatched(
                old(node)@,
                *envelope,
                readings,
            ),
        final(node).keeps_queues(old(node), requeued(*envelope)),
        old(node)@.wf() ==> final(node)@.wf(),
{
    dispatch_intent_with(node, envelope, Readings::take())
}

/// Dispatches an envelope by its intent, with given readings.
pub fn dispatch_intent_with(node: &mut MeshNode, envelope: &Envelope, readings: Readings) -> (r:
    RouteResponse)
    ensures
        r@ == dispatch_response(envelope.intent),
        final(node)@ == dispatched(old(node)@, *envelope, readings@),
        final(node).keeps_queues(old(node), requeued(*envelope)),
        old(node)@.wf() ==> final(node)@.wf(),
{
    match envelope.intent {
        Intent::Announce => route_announce(node, envelope, readings),
        Intent::RequestMatch => route_request_match(node, envelope, readings),
        Intent::Schedule => route_schedule(node, envelope, readings),
        Intent::Offer => route_offer(node, envelope, readings),
    }
}

/// The announcement of a sender with a given payload.
pub fn read_announcement(sender: &EnvelopeSender, payload: &Payload) -> (r: AnnounceMessage)
    ensures
        r@ == announcement_of(sender.agent_id@, sender.mesh_id@, payload@),
{
    let r = AnnounceMessage {
        agent_id: sender.agent_id.clone(),
        mesh_id: sender.mesh_id.clone(),
        display_name: payload.get_text_or("display_name", "unknown"),
        status: parse_status(payload.get_text_or("status", "available").as_str()),
        capabilities: payload.get_text_list("supports"),
    };
    assert(r@ =~= announcement_of(sender.agent_id@, sender.mesh_id@, payload@));
    r
}

/// The skill range that the payload of a match request names.
pub fn read_skills(payload: &Payload) -> (r: SkillRange)
    ensures
        r == requested_skills(payload@),
{
    SkillRange {
        min: payload.get_nested_number_or("skill_range", "min", Double { bits: LOWEST_SKILL }),
        max: payload.get_nested_number_or("skill_range", "max", Double { bits: HIGHEST_SKILL }),
    }
}

/// The time window that the payload of a match request names.
pub fn read_times(payload: &Payload, first: Timestamp, second: Timestamp) -> (r: TimeWindow)
    ensures
        r == requested_times(payload@, first, second),
{
    TimeWindow {
        start: payload.get_nested_time_or("time_window", "start", first),
        end: payload.get_nested_time_or("time_window", "end", second),
    }
}

/// Registers the sender of an announcement.
pub fn route_announce(node: &mut MeshNode, envelope: &Envelope, readings: Readings) -> (r:
    RouteResponse)
    ensures
        r@ == dispatch_response(Intent::Announce),
        final(node)@ == after_announce(old(node)@, *envelope, readings@),
        final(node).keeps_queues(old(node), set![envelope.sender.agent_id@]),
        old(node)@.wf() ==> final(node)@.wf(),
{
    let payload = read_json(&envelope.payload);
    let msg = read_announcement(&envelope.sender, &payload);
    let _ = node.registry_mut().handle_announce_at(msg, readings.made);
    let _ = node.relay_mut().register(envelope.sender.agent_id.as_str(), RELAY_BUFFER);
    RouteResponse { status: "accepted", intent: Intent::Announce, route: "announce_router" }
}

/// Submits the match request in an envelope.
pub fn route_request_match(node: &mut MeshNode, envelope: &Envelope, readings: Readings) -> (r:
    RouteResponse)
    ensures
        r@ == dispatch_response(Intent::RequestMatch),
        final(node)@ == after_request_match(old(node)@, *envelope, readings@),
        final(node).keeps_queues(old(node), Set::empty()),
        old(node)@.wf() ==> final(node)@.wf(),
{
    let payload = read_json(&envelope.payload);
    let game = payload.get_text_or("game", "");
    let skill_range = read_skills(&payload);
    let time_window = read_times(&payload, readings.first, readings.second);
    let _ = node.matchmaker_mut().submit_request_with(
        readings.id,
        envelope.sender.agent_id.as_str(),
        game.as_str(),
        skill_range,
        time_window,
        readings.made,
    );
    RouteResponse {
        status: "accepted",
        intent: Intent::RequestMatch,
        route: "request_match_router",
    }
}

/// Proposes the slot in an envelope, and confirms or declines it where the envelope
/// says so.
pub fn route_schedule(node: &mut MeshNode, envelope: &Envelope, readings: Readings) -> (r:
    RouteResponse)
    ensures
        r@ == dispatch_response(Intent::Schedule),
        final(node)@ == after_schedule(old(node)@, *envelope, readings@),
        final(node).keeps_queues(old(node), Set::empty()),
        old(node)@.wf() ==> final(node)@.wf(),
{
    let payload = read_json(&envelope.payload);
    let slot_start = payload.get_time_or("slot_start", readings.first);
    let slot_end = payload.get_time_or("slot_end", readings.second);
    let state = payload.get_text_or("state", "proposed");
    let slot = node.matchmaker_mut().propose_slot_with(
        readings.id,
        envelope.sender.agent_id.as_str(),
        slot_start,
        slot_end,
        readings.made,
    );
    if same(state.as_str(), "confirmed") {
        let _ = node.matchmaker_mut().confirm_slot(slot.schedule_id.as_str());
    } else if same(state.as_str(), "declined") {
        let _ = node.matchmaker_mut().decline_slot(slot.schedule_id.as_str());
    }
    RouteResponse { status: "accepted", intent: Intent::Schedule, route: "schedule_router" }
}

/// Submits the offer in an envelope.
pub fn route_offer(node: &mut MeshNode, envelope: &Envelope, readings: Readings) -> (r:
    RouteResponse)
    ensures
        r@ == dispatch_response(Intent::Offer),
        final(node)@ == after_offer(old(node)@, *envelope, readings@),
        final(node).keeps_queues(old(node), Set::empty()),
        old(node)@.wf() ==> final(node)@.wf(),
{
    let payload = read_json(&envelope.payload);
    let offer_id = payload.get_text_or("offer_id", "");
    let summary = payload.get_text_or("summary", "");
    let expires_at = payload.get_time_or("expires_at", readings.first);
    let _ = node.matchmaker_mut().submit_offer_at(
        envelope.sender.agent_id.as_str(),
        offer_id.as_str(),
        summary.as_str(),
        expires_at,
        readings.made,
    );
    RouteResponse { status: "accepted", intent: Intent::Offer, route: "offer_router" }
}

/// Takes an envelope: refuses it, or dispatches it by its intent.
pub fn route_envelope(node: &mut MeshNode, envelope: &Envelope) -> (r: Result<
    (Status, RouteResponse),
    Failure,
>)
    ensures
        exists|now: Timestamp, readings: ReadingsView|
            clock_reading(now) && readings.from_system() && #[trigger] routed(
                old(node)@,
                *envelope,
                now,
                readings,
                result_view(r),
                final(node)@,
            ),
        final(node).keeps_queues(old(node), requeued(*envelope)),
        old(node)@.wf() ==> final(node)@.wf(),
{
    let now = Timestamp::now();
    let readings = Readings::take();
    let ghost taken = readings@;
    let r = route_envelope_at(node, envelope, now, readings);
    assert(routed(old(node)@, *envelope, now, taken, result_view(r), node@));
    r
}

/// `answer` and `after` are what comes of an envelope at time `now`: a refusal that
/// changes nothing, or the dispatch.
pub open spec fn routed(
    node: MeshNodeView,
    e: Envelope,
    now: Timestamp,
    readings: ReadingsView,
    answer: Result<(Status, RouteResponseView), FailureView>,
    after: MeshNodeView,
) -> bool {
    match envelope_refusal(node, e, now) {
        Some(f) => answer == Err::<(Status, RouteResponseView), FailureView>(f) && after == node,
        None => answer == Ok::<(Status, RouteResponseView), FailureView>(
            (Status::Accepted, dispatch_response(e.intent)),
        ) && after == dispatched(node, e, readings),
    }
}

/// Takes an envelope at a given time, with given readings.
pub fn route_envelope_at(
    node: &mut MeshNode,
    envelope: &Envelope,
    now: Timestamp,
    readings: Readings,
) -> (r: Result<(Status, RouteResponse), Failure>)
    ensures
        routed(old(node)@, *envelope, now, readings@, result_view(r), final(node)@),
        final(node).keeps_queues(old(node), requeued(*envelope)),
        old(node)@.wf() ==> final(node)@.wf(),
{
    if let Err(f) = check_version(envelope) {
        return Err(f);
    }
    if let Err(f) = check_expiry(envelope, now) {
        return Err(f);
    }
    if let Err(f) = enforce_policy(node, envelope) {
        return Err(f);
    }
    if let Err(f) = check_signature(node, envelope) {
        return Err(f);
    }
    if let Err(f) = check_payload(envelope) {
        return Err(f);
    }
    let response = dispatch_intent_with(node, envelope, readings);
    Ok((Status::Accepted, response))
}

/// What is to be done with an envelope of another mesh.
#[derive(Debug)]
pub enum RelayStep {
    /// Put the envelope on the queue of the link to the target.
    Forward { target: String, envelope: FederationEnvelope },
    /// Read the protocol envelope and dispatch it here.
    Process(serde_json::Value),
}

/// The content of a `RelayStep`.
#[verifier::ext_equal]
pub enum RelayStepView {
    Forward { target: Seq<char>, envelope: FederationEnvelopeView },
    Process(serde_json::Value),
}

impl View for RelayStep {
    type V = RelayStepView;

    open spec fn view(&self) -> RelayStepView {
        match *self {
            RelayStep::Forward { target, envelope } => RelayStepView::Forward {
                target: target@,
                envelope: envelope@,
            },
            RelayStep::Process(x) => RelayStepView::Process(x),
        }
    }
}

impl Clone for RelayStep {
    fn clone(&self) -> (r: Self)
        ensures
            r@ == self@,
    {
        match self {
            RelayStep::Forward { target, envelope } => RelayStep::Forward {
                target: target.clone(),
                envelope: envelope.clone(),
            },
            RelayStep::Process(x) => RelayStep::Process(x.clone()),
        }
    }
}

/// What is to be done with an envelope of another mesh at time `now`.
pub open spec fn relay_step(
    node: MeshNodeView,
    body: FederationEnvelopeView,
    now: Timestamp,
) -> Result<RelayStepView, FailureView> {
    if node.federation.accepts(body) {
        Ok(RelayStepView::Process(body.envelope))
    } else if node.federation.links.contains_key(body.target_mesh) {
        if body.ttl == 0 {
            Err(
                FailureView {
                    status: Status::BadGateway,
                    error: "federation_forward_error"@,
                    detail: "envelope TTL expired (loops prevented)"@,
                },
            )
        } else {
            Ok(
                RelayStepView::Forward {
                    target: body.target_mesh,
                    envelope: body.forwarded(now),
                },
            )
        }
    } else {
        Err(
            FailureView {
                status: Status::MisdirectedRequest,
                error: "wrong_mesh"@,
                detail: "envelope targets mesh '"@ + body.target_mesh + "', this node serves '"@
                    + node.mesh_id + "'"@,
            },
        )
    }
}

/// Takes an envelope of another mesh: says what is to be done with it, or refuses
/// it. One that is not for this mesh goes on to the mesh it is for where that is
/// linked.
pub fn federation_relay(node: &MeshNode, body: FederationEnvelope) -> (r: Result<
    RelayStep,
    Failure,
>)
    ensures
        exists|now: Timestamp|
            clock_reading(now) && result_view(r) == #[trigger] relay_step(node@, body@, now),
{
    let now = Timestamp::now();
    let r = federation_relay_at(node, body, now);
    assert(result_view(r) == relay_step(node@, body@, now));
    r
}

/// Takes an envelope of another mesh at a given time.
pub fn federation_relay_at(node: &MeshNode, body: FederationEnvelope, now: Timestamp) -> (r: Result<
    RelayStep,
    Failure,
>)
    ensures
        result_view(r) == relay_step(node@, body@, now),
{
    if node.federation().should_accept(&body) {
        return Ok(RelayStep::Process(body.envelope));
    }
    let target = body.target_mesh.clone();
    if node.federation().is_linked(target.as_str()) {
        return match node.federation().forward_at(target.as_str(), body, now) {
            Ok(envelope) => Ok(RelayStep::Forward { target, envelope }),
            Err(e) => Err(forward_failure(&e)),
        };
    }
    let detail = cat5(
        "envelope targets mesh '",
        target.as_str(),
        "', this node serves '",
        node.mesh_id(),
        "'",
    );
    Err(failure(Status::MisdirectedRequest, "wrong_mesh", detail))
}

/// The refusal of an envelope that cannot be forwarded.
pub open spec fn forward_failure_view(e: FederationErrorView) -> FailureView {
    FailureView {
        status: Status::BadGateway,
        error: "federation_forward_error"@,
        detail: e.text(),
    }
}

fn forward_failure(e: &FederationError) -> (r: Failure)
    ensures
        r@ == forward_failure_view(e@),
{
    failure(Status::BadGateway, "federation_forward_error", e.to_string())
}

/// What became of an envelope that was to go on the queue of a link.
#[derive(Clone, Copy, Debug, PartialEq, Eq, Structural)]
pub enum Delivery {
    /// The queue took it.
    Sent,
    /// The queue is closed.
    Closed,
    /// The link is there no more.
    NoLink,
}

/// The answer once a forwarded envelope was put on the queue of its link or was not.
pub open spec fn forward_answer(target: Seq<char>, delivery: Delivery) -> Result<
    (Status, RouteResponseView),
    FailureView,
> {
    match delivery {
        Delivery::Sent => Ok(
            (
                Status::Accepted,
                RouteResponseView {
                    status: "forwarded"@,
                    intent: Intent::Announce,
                    route: "federation_forward"@,
                },
            ),
        ),
        Delivery::Closed => Err(
            forward_failure_view(FederationErrorView::RelayFailed(target)),
        ),
        Delivery::NoLink => Err(
            forward_failure_view(FederationErrorView::LinkNotFound(target)),
        ),
    }
}

/// The answer once a forwarded envelope was put on the queue of its link or was not.
pub fn federation_forwarded(target: &str, delivery: Delivery) -> (r: Result<
    (Status, RouteResponse),
    Failure,
>)
    ensures
        result_view(r) == forward_answer(target@, delivery),
{
    match delivery {
        Delivery::Sent => Ok(
            (
                Status::Accepted,
                RouteResponse {
                    status: "forwarded",
                    intent: Intent::Announce,
                    route: "federation_forward",
                },
            ),
        ),
        Delivery::Closed => Err(
            forward_failure(&FederationError::RelayFailed(target.to_owned())),
        ),
        Delivery::NoLink => Err(
            forward_failure(&FederationError::LinkNotFound(target.to_owned())),
        ),
    }
}

/// Why a protocol envelope of another mesh is refused at time `now`, if so: it cannot be
/// read, is of another version, has expired, or has an invalid payload. Its policy was
/// enforced by the mesh that it comes from.
pub open spec fn federated_refusal(parsed: Result<Envelope, String>, now: Timestamp) -> Option<
    FailureView,
> {
    match parsed {
        Err(reason) => Some(
            FailureView {
                status: Status::BadRequest,
                error: "invalid_federated_envelope"@,
                detail: "inner envelope parse error: "@ + reason@,
            },
        ),
        Ok(e) => if version_refusal(e) is Some {
            version_refusal(e)
        } else if expiry_refusal(e, now) is Some {
            expiry_refusal(e, now)
        } else {
            payload_refusal(e)
        },
    }
}

/// `answer` and `after` are what comes of a protocol envelope of another mesh at time
/// `now`.
pub open spec fn federated(
    node: MeshNodeView,
    parsed: Result<Envelope, String>,
    now: Timestamp,
    readings: ReadingsView,
    answer: Result<(Status, RouteResponseView), FailureView>,
    after: MeshNodeView,
) -> bool {
    match federated_refusal(parsed, now) {
        Some(f) => answer == Err::<(Status, RouteResponseView), FailureView>(f) && after == node,
        None => answer == Ok::<(Status, RouteResponseView), FailureView>(
            (Status::Accepted, dispatch_response(parsed->Ok_0.intent)),
        ) && after == dispatched(node, parsed->Ok_0, readings),
    }
}

/// Dispatches the protocol envelope in an envelope of another mesh, which was read
/// or could not be.
pub fn federation_dispatch(node: &mut MeshNode, parsed: Result<Envelope, String>) -> (r: Result<
    (Status, RouteResponse),
    Failure,
>)
    ensures
        exists|now: Timestamp, readings: ReadingsView|
            clock_reading(now) && readings.from_system() && #[trigger] federated(
                old(node)@,
                parsed,
                now,
                readings,
                result_view(r),
                final(node)@,
            ),
        parsed matches Ok(e) ==> final(node).keeps_queues(old(node), requeued(e)),
        parsed is Err ==> final(node).keeps_queues(old(node), Set::empty()),
        old(node)@.wf() ==> final(node)@.wf(),
{
    let now = Timestamp::now();
    let readings = Readings::take();
    let ghost taken = readings@;
    let r = federation_dispatch_at(node, parsed, now, readings);
    assert(federated(old(node)@, parsed, now, taken, result_view(r), node@));
    r
}

/// Dispatches the protocol envelope in an envelope of another mesh at a given time, with
/// given readings.
pub fn federation_dispatch_at(
    node: &mut MeshNode,
    parsed: Result<Envelope, String>,
    now: Timestamp,
    readings: Readings,
) -> (r: Result<(Status, RouteResponse), Failure>)
    ensures
        federated(old(node)@, parsed, now, readings@, result_view(r), final(node)@),
        parsed matches Ok(e) ==> final(node).keeps_queues(old(node), requeued(e)),
        parsed is Err ==> final(node).keeps_queues(old(node), Set::empty()),
        old(node)@.wf() ==> final(node)@.wf(),
{
    match parsed {
        Err(reason) => {
            let detail = cat2("inner envelope parse error: ", reason.as_str());
            Err(failure(Status::BadRequest, "invalid_federated_envelope", detail))
        },
        Ok(envelope) => {
            if let Err(f) = check_version(&envelope) {
                return Err(f);
            }
            if let Err(f) = check_expiry(&envelope, now) {
                return Err(f);
            }
            if let Err(f) = check_payload(&envelope) {
                return Err(f);
            }
            let response = dispatch_intent_with(node, &envelope, readings);
            Ok((Status::Accepted, response))
        },
    }
}

/// A peer that announced itself is admitted by the private policy.
pub proof fn announcing_admits_to_private(
    node: MeshNodeView,
    announce: Envelope,
    readings: ReadingsView,
    later: Envelope,
)
    requires
        announce.intent == Intent::Announce,
        later.policy == Policy::Private,
        later.sender.agent_id@ == announce.sender.agent_id@,
    ensures
        policy_refusal(dispatched(node, announce, readings), later) is None,
{
}

/// The public policy admits every sender, and the mesh-only policy exactly those of
/// the gateway's mesh.
pub proof fn policies_admit(node: MeshNodeView, e: Envelope)
    ensures
        e.policy == Policy::Public ==> policy_refusal(node, e) is None,
        e.policy == Policy::MeshOnly ==> (policy_refusal(node, e) is None <==> e.sender.mesh_id@
            == node.mesh_id),
        e.policy == Policy::Private ==> (policy_refusal(node, e) is None
            <==> node.registry().peers.contains_key(e.sender.agent_id@)),
{
}

/// An envelope of another mesh that is not for this node never changes it, and is
/// forwarded with one hop less exactly if its target is linked and it has hops
/// left.
pub proof fn foreign_envelopes_are_forwarded(
    node: MeshNodeView,
    body: FederationEnvelopeView,
    now: Timestamp,
)
    requires
        body.target_mesh != node.federation.local_mesh_id,
    ensures
        relay_step(node, body, now) matches Ok(step) ==> step == (RelayStepView::Forward {
            target: body.target_mesh,
            envelope: FederationEnvelopeView {
                ttl: (body.ttl - 1) as u8,
                relayed_at: now,
                ..body
            },
        }),
        relay_step(node, body, now) is Ok <==> node.federation.links.contains_key(body.target_mesh)
            && body.ttl > 0,
{
}

/// The payload of an envelope that is not refused names all its times: nothing that is
/// made of it depends on the times that stand in for missing ones.
pub proof fn valid_payloads_need_no_defaults(
    node: MeshNodeView,
    e: Envelope,
    r: ReadingsView,
    other: ReadingsView,
)
    requires
        payload_refusal(e) is None,
        r.id == other.id,
        r.made == other.made,
    ensures
        dispatched(node, e, r) == dispatched(node, e, other),
{
}

/// An envelope that has expired is refused and changes nothing, whether it comes from a
/// sender or from another mesh.
pub proof fn expired_envelopes_are_refused(
    node: MeshNodeView,
    e: Envelope,
    now: Timestamp,
    readings: ReadingsView,
    answer: Result<(Status, RouteResponseView), FailureView>,
    after: MeshNodeView,
)
    requires
        e.expiry matches Some(t) && now.after(t),
        routed(node, e, now, readings, answer, after) || federated(
            node,
            Ok(e),
            now,
            readings,
            answer,
            after,
        ),
    ensures
        answer is Err,
        after == node,
{
}

/// `answer` and `after` are what comes of an envelope that was taken, from a sender or
/// from another mesh.
pub open spec fn taken(
    node: MeshNodeView,
    e: Envelope,
    now: Timestamp,
    readings: ReadingsView,
    answer: Result<(Status, RouteResponseView), FailureView>,
    after: MeshNodeView,
) -> bool {
    answer is Ok && (routed(node, e, now, readings, answer, after) || federated(
        node,
        Ok(e),
        now,
        readings,
        answer,
        after,
    ))
}

/// A schedule envelope that is taken makes one slot of its sender, from the instant that
/// its "slot_start" names to the one that its "slot_end" names, in the state that its
/// "state" names. Nothing else of the node changes but the events of the matchmaker.
pub proof fn a_schedule_envelope_makes_its_slot(
    node: MeshNodeView,
    e: Envelope,
    now: Timestamp,
    readings: ReadingsView,
    answer: Result<(Status, RouteResponseView), FailureView>,
    after: MeshNodeView,
    start_text: Seq<char>,
    end_text: Seq<char>,
    state_text: Seq<char>,
)
    requires
        taken(node, e, now, readings, answer, after),
        e.intent == Intent::Schedule,
        has_member(e.content(), "slot_start"@, PayloadView::Text(start_text)),
        has_member(e.content(), "slot_end"@, PayloadView::Text(end_text)),
        has_member(e.content(), "state"@, PayloadView::Text(state_text)),
    ensures
        ({
            let slot = after.matchmaker.schedules[readings.id];
            &&& after.matchmaker.schedules.contains_key(readings.id)
            &&& slot.schedule_id == readings.id
            &&& slot.agent_id == e.sender.agent_id@
            &&& slot.mesh_id == node.matchmaker.mesh_id
            &&& Some(slot.slot_start) == parsed_time(start_text)
            &&& Some(slot.slot_end) == parsed_time(end_text)
            &&& slot.created_at == readings.made
            &&& state_text == "proposed"@ ==> slot.state == SlotState::Proposed
            &&& state_text == "confirmed"@ ==> slot.state == SlotState::Confirmed
            &&& state_text == "declined"@ ==> slot.state == SlotState::Declined
            &&& state_text == "proposed"@ || state_text == "confirmed"@ || state_text
                == "declined"@
            &&& after.matchmaker.schedules.remove(readings.id) == node.matchmaker.schedules.remove(
                readings.id,
            )
            &&& after.matchmaker.requests == node.matchmaker.requests
            &&& after.matchmaker.offers == node.matchmaker.offers
            &&& after == MeshNodeView { matchmaker: after.matchmaker, ..node }
        }),
{
    let p = e.content();
    a_field_is_a_member(p, "slot_start"@, PayloadView::Text(start_text));
    a_field_is_a_member(p, "slot_end"@, PayloadView::Text(end_text));
    a_field_is_a_member(p, "state"@, PayloadView::Text(state_text));
    lemma_states_differ();
    assert(after.matchmaker.schedules.remove(readings.id) =~= node.matchmaker.schedules.remove(
        readings.id,
    ));
}

proof fn lemma_states_differ()
    ensures
        "proposed"@ != "confirmed"@,
        "proposed"@ != "declined"@,
        "confirmed"@ != "declined"@,
        "busy"@ != "away"@,
        "busy"@ != "available"@,
        "away"@ != "available"@,
{
    reveal_strlit("proposed");
    reveal_strlit("confirmed");
    reveal_strlit("declined");
    reveal_strlit("busy");
    reveal_strlit("away");
    reveal_strlit("available");
    assert("proposed"@[0] != "confirmed"@[0]);
    assert("proposed"@[0] != "declined"@[0]);
    assert("confirmed"@[0] != "declined"@[0]);
    assert("busy"@[0] != "away"@[0]);
    assert("busy"@[0] != "available"@[0]);
    assert("away"@[1] != "available"@[1]);
}

/// An announcement that is taken registers its sender under the name, with the status and
/// the capabilities that its payload names, seen when it was made, and gives it a new
/// queue at the relay. Other peers, and the rest of the node, stay as they are.
pub proof fn an_announcement_registers_its_sender(
    node: MeshNodeView,
    e: Envelope,
    now: Timestamp,
    readings: ReadingsView,
    answer: Result<(Status, RouteResponseView), FailureView>,
    after: MeshNodeView,
    name: Seq<char>,
    supports: Seq<PayloadView>,
    status_text: Seq<char>,
)
    requires
        taken(node, e, now, readings, answer, after),
        e.intent == Intent::Announce,
        has_member(e.content(), "display_name"@, PayloadView::Text(name)),
        has_member(e.content(), "supports"@, PayloadView::List(supports)),
        has_member(e.content(), "status"@, PayloadView::Text(status_text)),
    ensures
        ({
            let agent = e.sender.agent_id@;
            let p = after.registry().peers[agent];
            &&& after.registry().peers.contains_key(agent)
            &&& p.agent_id == agent
            &&& p.mesh_id == e.sender.mesh_id@
            &&& p.display_name == name
            &&& p.capabilities == supports.map_values(|v: PayloadView| v->Text_0)
            &&& p.last_seen == readings.made
            &&& status_text == "available"@ ==> p.status == PeerStatus::Available
            &&& status_text == "busy"@ ==> p.status == PeerStatus::Busy
            &&& status_text == "away"@ ==> p.status == PeerStatus::Away
            &&& status_text == "available"@ || status_text == "busy"@ || status_text == "away"@
            &&& after.registry().peers.remove(agent) == node.registry().peers.remove(agent)
            &&& after.relay.peers == node.relay.peers.insert(agent, Seq::empty())
            &&& after.relay.capacities == node.relay.capacities.insert(agent, 64)
            &&& after.relay.log == node.relay.log
            &&& after == MeshNodeView {
                relay: after.relay,
                ..node.with_registry(after.registry())
            }
        }),
{
    let p = e.content();
    a_field_is_a_member(p, "display_name"@, PayloadView::Text(name));
    a_field_is_a_member(p, "supports"@, PayloadView::List(supports));
    a_field_is_a_member(p, "status"@, PayloadView::Text(status_text));
    the_texts_of_a_list(supports, PayloadView::Null);
    lemma_states_differ();
    assert(after.registry().peers.remove(e.sender.agent_id@) =~= node.registry().peers.remove(
        e.sender.agent_id@,
    ));
}

/// A match request that is taken is stored as one of its sender, for the game, the skill
/// range and the time window that its payload names. Nothing else of the node changes but
/// the events of the matchmaker.
pub proof fn a_match_request_is_stored_as_sent(
    node: MeshNodeView,
    e: Envelope,
    now: Timestamp,
    readings: ReadingsView,
    answer: Result<(Status, RouteResponseView), FailureView>,
    after: MeshNodeView,
    game: Seq<char>,
    range: PayloadView,
    min: Double,
    max: Double,
    window: PayloadView,
    start_text: Seq<char>,
    end_text: Seq<char>,
)
    requires
        taken(node, e, now, readings, answer, after),
        e.intent == Intent::RequestMatch,
        has_member(e.content(), "game"@, PayloadView::Text(game)),
        has_member(e.content(), "skill_range"@, range),
        has_member(range, "min"@, PayloadView::Number(min)),
        has_member(range, "max"@, PayloadView::Number(max)),
        has_member(e.content(), "time_window"@, window),
        has_member(window, "start"@, PayloadView::Text(start_text)),
        has_member(window, "end"@, PayloadView::Text(end_text)),
    ensures
        ({
            let q = after.matchmaker.requests[readings.id];
            &&& after.matchmaker.requests == node.matchmaker.requests.insert(readings.id, q)
            &&& q.request_id == readings.id
            &&& q.agent_id == e.sender.agent_id@
            &&& q.mesh_id == node.matchmaker.mesh_id
            &&& q.game == game
            &&& q.skill_range.min == min
            &&& q.skill_range.max == max
            &&& Some(q.time_window.start) == parsed_time(start_text)
            &&& Some(q.time_window.end) == parsed_time(end_text)
            &&& q.created_at == readings.made
            &&& after.matchmaker.schedules == node.matchmaker.schedules
            &&& after.matchmaker.offers == node.matchmaker.offers
            &&& after == MeshNodeView { matchmaker: after.matchmaker, ..node }
        }),
{
    let p = e.content();
    a_field_is_a_member(p, "game"@, PayloadView::Text(game));
    a_field_is_a_member(p, "skill_range"@, range);
    a_field_is_a_member(range, "min"@, PayloadView::Number(min));
    a_field_is_a_member(range, "max"@, PayloadView::Number(max));
    a_field_is_a_member(p, "time_window"@, window);
    a_field_is_a_member(window, "start"@, PayloadView::Text(start_text));
    a_field_is_a_member(window, "end"@, PayloadView::Text(end_text));
}

/// An offer that is taken is stored as one of its sender, under the id, with the summary
/// and the expiry that its payload names. Nothing else of the node changes but the events
/// of the matchmaker.
pub proof fn an_offer_is_stored_as_sent(
    node: MeshNodeView,
    e: Envelope,
    now: Timestamp,
    readings: ReadingsView,
    answer: Result<(Status, RouteResponseView), FailureView>,
    after: MeshNodeView,
    offer_id: Seq<char>,
    summary: Seq<char>,
    expires_text: Seq<char>,
)
    requires
        taken(node, e, now, readings, answer, after),
        e.intent == Intent::Offer,
        has_member(e.content(), "offer_id"@, PayloadView::Text(offer_id)),
        has_member(e.content(), "summary"@, PayloadView::Text(summary)),
        has_member(e.content(), "expires_at"@, PayloadView::Text(expires_text)),
    ensures
        ({
            let o = after.matchmaker.offers[offer_id];
            &&& after.matchmaker.offers == node.matchmaker.offers.insert(offer_id, o)
            &&& o.offer_id == offer_id
            &&& o.from_agent == e.sender.agent_id@
            &&& o.mesh_id == node.matchmaker.mesh_id
            &&& o.summary == summary
            &&& Some(o.expires_at) == parsed_time(expires_text)
            &&& o.created_at == readings.made
            &&& after.matchmaker.requests == node.matchmaker.requests
            &&& after.matchmaker.schedules == node.matchmaker.schedules
            &&& after == MeshNodeView { matchmaker: after.matchmaker, ..node }
        }),
{
    let p = e.content();
    a_field_is_a_member(p, "offer_id"@, PayloadView::Text(offer_id));
    a_field_is_a_member(p, "summary"@, PayloadView::Text(summary));
    a_field_is_a_member(p, "expires_at"@, PayloadView::Text(expires_text));
}

/// The object has no member of another name than these three.
pub open spec fn names_are(p: PayloadView, a: Seq<char>, b: Seq<char>, c: Seq<char>) -> bool {
    p matches PayloadView::Object(members) && forall|i: int|
        0 <= i < members.len() ==> (#[trigger] members[i]).0 == a || members[i].0 == b
            || members[i].0 == c
}

/// The object has one member of this name, a text that is not empty.
pub open spec fn member_is_filled(p: PayloadView, name: Seq<char>) -> bool {
    exists|s: Seq<char>| #[trigger] has_member(p, name, PayloadView::Text(s)) && s.len() > 0
}

/// The object has one member of this name, the text of an instant.
pub open spec fn member_is_time(p: PayloadView, name: Seq<char>) -> bool {
    exists|s: Seq<char>| #[trigger]
        has_member(p, name, PayloadView::Text(s)) && utc_time(s) is Some
}

/// The object has one member of this name, a number.
pub open spec fn member_is_number(p: PayloadView, name: Seq<char>) -> bool {
    exists|n: Double| #[trigger] has_member(p, name, PayloadView::Number(n))
}

/// The object has one member of this name, and it is one of the three texts.
pub open spec fn member_is_one_of(
    p: PayloadView,
    name: Seq<char>,
    a: Seq<char>,
    b: Seq<char>,
    c: Seq<char>,
) -> bool {
    has_member(p, name, PayloadView::Text(a)) || has_member(p, name, PayloadView::Text(b))
        || has_member(p, name, PayloadView::Text(c))
}

/// The object has one member of this name, a list of different texts.
pub open spec fn member_is_text_set(p: PayloadView, name: Seq<char>) -> bool {
    exists|items: Seq<PayloadView>| #[trigger]
        has_member(p, name, PayloadView::List(items)) && (forall|i: int|
            0 <= i < items.len() ==> (#[trigger] items[i]) is Text) && (forall|i: int, j: int|
            0 <= i < j < items.len() ==> (#[trigger] items[i]) != (#[trigger] items[j]))
}

/// The object has one member of this name, an object with differing names of which the
/// members are `a` and `b`, both numbers or both instants.
pub open spec fn member_is_pair(
    p: PayloadView,
    name: Seq<char>,
    a: Seq<char>,
    b: Seq<char>,
    numbers: bool,
) -> bool {
    exists|inner: PayloadView| #[trigger]
        has_member(p, name, inner) && names_are(inner, a, b, b) && if numbers {
            member_is_number(inner, a) && member_is_number(inner, b)
        } else {
            member_is_time(inner, a) && member_is_time(inner, b)
        }
}

proof fn lemma_simple_members(
    p: PayloadView,
    name: Seq<char>,
    a: Seq<char>,
    b: Seq<char>,
    c: Seq<char>,
)
    requires
        names_differ(p),
    ensures
        p.has_only(a, b, c) <==> names_are(p, a, b, c),
        p.has_text(name) <==> member_is_filled(p, name),
        p.has_time(name) <==> member_is_time(p, name),
        p.has_number(name) <==> member_is_number(p, name),
        p.has_one_of(name, a, b, c) <==> member_is_one_of(p, name, a, b, c),
{
    match p.field(name) {
        Some(v) => {
            a_field_is_a_member(p, name, v);
            assert forall|w: PayloadView| has_member(p, name, w) implies w == v by {
                a_field_is_a_member(p, name, w);
            }
            if let PayloadView::Number(n) = v {
                assert(has_member(p, name, PayloadView::Number(n)));
            }
        },
        None => {
            assert forall|w: PayloadView| !has_member(p, name, w) by {
                a_field_is_a_member(p, name, w);
            }
        },
    }
}

proof fn lemma_text_set_member(p: PayloadView, name: Seq<char>)
    requires
        names_differ(p),
    ensures
        p.has_text_set(name) <==> member_is_text_set(p, name),
{
    match p.field(name) {
        Some(v) => {
            a_field_is_a_member(p, name, v);
            assert forall|w: PayloadView| has_member(p, name, w) implies w == v by {
                a_field_is_a_member(p, name, w);
            }
            if let PayloadView::List(items) = v {
                if member_is_text_set(p, name) {
                    assert(items.no_duplicates());
                }
            }
        },
        None => {
            assert forall|w: PayloadView| !has_member(p, name, w) by {
                a_field_is_a_member(p, name, w);
            }
        },
    }
}

/// Every object inside the value, at most one level down, has members of different names,
/// as JSON objects have.
pub open spec fn is_json(p: PayloadView) -> bool {
    names_differ(p) && forall|name: Seq<char>, v: PayloadView| #[trigger]
        has_member(p, name, v) ==> names_differ(v)
}

proof fn lemma_pair_members(p: PayloadView)
    requires
        is_json(p),
    ensures
        has_skills(p) <==> member_is_pair(p, "skill_range"@, "min"@, "max"@, true),
        has_times(p) <==> member_is_pair(p, "time_window"@, "start"@, "end"@, false),
{
    match p.field("skill_range"@) {
        Some(v) => {
            a_field_is_a_member(p, "skill_range"@, v);
            assert forall|w: PayloadView| has_member(p, "skill_range"@, w) implies w == v by {
                a_field_is_a_member(p, "skill_range"@, w);
            }
            lemma_simple_members(v, "min"@, "min"@, "max"@, "max"@);
            lemma_simple_members(v, "max"@, "min"@, "max"@, "max"@);
        },
        None => {
            assert forall|w: PayloadView| !has_member(p, "skill_range"@, w) by {
                a_field_is_a_member(p, "skill_range"@, w);
            }
        },
    }
    match p.field("time_window"@) {
        Some(v) => {
            a_field_is_a_member(p, "time_window"@, v);
            assert forall|w: PayloadView| has_member(p, "time_window"@, w) implies w == v by {
                a_field_is_a_member(p, "time_window"@, w);
            }
            lemma_simple_members(v, "start"@, "start"@, "end"@, "end"@);
            lemma_simple_members(v, "end"@, "start"@, "end"@, "end"@);
        },
        None => {
            assert forall|w: PayloadView| !has_member(p, "time_window"@, w) by {
                a_field_is_a_member(p, "time_window"@, w);
            }
        },
    }
}

/// Which payloads are valid: those with exactly the members that the intent requires,
/// each of its kind.
pub proof fn which_payloads_are_valid(e: Envelope)
    requires
        is_json(e.content()),
    ensures
        ({
            let p = e.content();
            payload_refusal(e) is None <==> match e.intent {
                Intent::Announce => {
                    &&& names_are(p, "display_name"@, "supports"@, "status"@)
                    &&& member_is_filled(p, "display_name"@)
                    &&& member_is_text_set(p, "supports"@)
                    &&& member_is_one_of(p, "status"@, "available"@, "busy"@, "away"@)
                },
                Intent::RequestMatch => {
                    &&& names_are(p, "game"@, "skill_range"@, "time_window"@)
                    &&& member_is_filled(p, "game"@)
                    &&& member_is_pair(p, "skill_range"@, "min"@, "max"@, true)
                    &&& member_is_pair(p, "time_window"@, "start"@, "end"@, false)
                },
                Intent::Schedule => {
                    &&& names_are(p, "slot_start"@, "slot_end"@, "state"@)
                    &&& member_is_time(p, "slot_start"@)
                    &&& member_is_time(p, "slot_end"@)
                    &&& member_is_one_of(p, "state"@, "proposed"@, "confirmed"@, "declined"@)
                },
                Intent::Offer => {
                    &&& names_are(p, "offer_id"@, "summary"@, "expires_at"@)
                    &&& member_is_filled(p, "offer_id"@)
                    &&& member_is_filled(p, "summary"@)
                    &&& member_is_time(p, "expires_at"@)
                },
            }
        }),
        payload_refusal(e) matches Some(f) ==> f.status == Status::BadRequest && f.error
            == "invalid_payload"@,
{
    let p = e.content();
    lemma_simple_members(p, "display_name"@, "display_name"@, "supports"@, "status"@);
    lemma_simple_members(p, "status"@, "available"@, "busy"@, "away"@);
    lemma_text_set_member(p, "supports"@);
    lemma_simple_members(p, "game"@, "game"@, "skill_range"@, "time_window"@);
    lemma_pair_members(p);
    lemma_simple_members(p, "slot_start"@, "slot_start"@, "slot_end"@, "state"@);
    lemma_simple_members(p, "slot_end"@, "slot_start"@, "slot_end"@, "state"@);
    lemma_simple_members(p, "state"@, "proposed"@, "confirmed"@, "declined"@);
    lemma_simple_members(p, "offer_id"@, "offer_id"@, "summary"@, "expires_at"@);
    lemma_simple_members(p, "summary"@, "offer_id"@, "summary"@, "expires_at"@);
    lemma_simple_members(p, "expires_at"@, "offer_id"@, "summary"@, "expires_at"@);
}

/// The sender is one that the policy of the envelope admits.
pub open spec fn sender_is_admitted(node: MeshNodeView, e: Envelope) -> bool {
    ||| e.policy == Policy::Public
    ||| e.policy == Policy::MeshOnly && e.sender.mesh_id@ == node.mesh_id
    ||| e.policy == Policy::Private && node.gossip.registry.peers.contains_key(e.sender.agent_id@)
}

/// The envelope has a signature and its sender is authenticated under a key that it does
/// not verify under.
pub open spec fn signature_is_wrong(node: MeshNodeView, e: Envelope) -> bool {
    &&& e.signature is Some
    &&& node.auth.authenticated.contains_key(e.sender.agent_id@)
    &&& verdict(
        node.auth.authenticated[e.sender.agent_id@].public_key.key,
        json_text(e.payload),
        (e.signature->0)@,
    ) is Err
}

/// What is refused and why: another version, an expiry before now, a sender that the policy
/// does not admit, a wrong signature, and an invalid payload, in this order.
pub proof fn what_is_refused_and_why(node: MeshNodeView, e: Envelope, now: Timestamp)
    ensures
        ({
            let refusal = envelope_refusal(node, e, now);
            if e.schema_version@ != "0.1"@ {
                refusal matches Some(f) && f.status == Status::BadRequest && f.error
                    == "invalid_schema_version"@
            } else if e.expiry is Some && now.after(e.expiry->0) {
                refusal matches Some(f) && f.status == Status::Gone && f.error
                    == "envelope_expired"@
            } else if !sender_is_admitted(node, e) {
                refusal matches Some(f) && f.status == Status::Forbidden && f.error
                    == "policy_violation"@
            } else if signature_is_wrong(node, e) {
                refusal matches Some(f) && f.status == Status::Unauthorized && f.error
                    == "signature_invalid"@
            } else {
                refusal == payload_refusal(e)
            }
        }),
        federated_refusal(Ok(e), now) is None <==> e.schema_version@ == "0.1"@ && (e.expiry is None
            || !now.after(e.expiry->0)) && payload_refusal(e) is None,
        e.schema_version@ != "0.1"@ ==> federated_refusal(Ok(e), now) is Some && (
        federated_refusal(Ok(e), now)->0).error == "invalid_schema_version"@,
        e.schema_version@ == "0.1"@ && e.expiry is Some && now.after(e.expiry->0)
            ==> federated_refusal(Ok(e), now) is Some && (federated_refusal(Ok(e), now)->0).status
            == Status::Gone,
{
}

/// An envelope is answered with a refusal, and changes nothing, or is accepted; the answer
/// then names its intent and the route.
pub proof fn answers_tell_what_was_done(
    node: MeshNodeView,
    e: Envelope,
    now: Timestamp,
    readings: ReadingsView,
    answer: Result<(Status, RouteResponseView), FailureView>,
    after: MeshNodeView,
)
    requires
        routed(node, e, now, readings, answer, after),
    ensures
        answer is Err ==> after == node && envelope_refusal(node, e, now) == Some(answer->Err_0),
        answer matches Ok(a) ==> {
            &&& envelope_refusal(node, e, now) is None
            &&& a.0 == Status::Accepted
            &&& a.1.status == "accepted"@
            &&& a.1.intent == e.intent
            &&& e.intent == Intent::Announce ==> a.1.route == "announce_router"@
            &&& e.intent == Intent::RequestMatch ==> a.1.route == "request_match_router"@
            &&& e.intent == Intent::Schedule ==> a.1.route == "schedule_router"@
            &&& e.intent == Intent::Offer ==> a.1.route == "offer_router"@
        },
{
}

/// What is done with an envelope of another mesh: it is processed here if it is for this
/// mesh and has hops left; otherwise it goes on to its target with one hop less, is refused
/// as out of hops, or is refused as misdirected where its target is not linked.
pub proof fn what_is_done_with_foreign_envelopes(
    node: MeshNodeView,
    body: FederationEnvelopeView,
    now: Timestamp,
)
    requires
        node.wf(),
    ensures
        body.target_mesh == node.mesh_id && body.ttl > 0 ==> relay_step(node, body, now) == Ok::<
            RelayStepView,
            FailureView,
        >(RelayStepView::Process(body.envelope)),
        body.target_mesh == node.mesh_id && body.ttl == 0 ==> relay_step(node, body, now) is Err
            && relay_step(node, body, now)->Err_0.status == Status::MisdirectedRequest,
        body.target_mesh != node.mesh_id && !node.federation.links.contains_key(body.target_mesh)
            ==> relay_step(node, body, now) is Err && relay_step(node, body, now)->Err_0.status
            == Status::MisdirectedRequest && relay_step(node, body, now)->Err_0.error
            == "wrong_mesh"@,
        body.target_mesh != node.mesh_id && node.federation.links.contains_key(body.target_mesh)
            && body.ttl == 0 ==> relay_step(node, body, now) is Err && relay_step(
            node,
            body,
            now,
        )->Err_0.status == Status::BadGateway,
        body.target_mesh != node.mesh_id && node.federation.links.contains_key(body.target_mesh)
            && body.ttl > 0 ==> (relay_step(node, body, now) matches Ok(RelayStepView::Forward {
            target,
            envelope,
        }) && target == body.target_mesh && envelope.ttl + 1 == body.ttl && envelope.source_mesh
            == body.source_mesh && envelope.target_mesh == body.target_mesh && envelope.envelope
            == body.envelope && envelope.relayed_at == now),
{
}

/// The status codes of HTTP.
pub proof fn statuses_have_their_codes()
    ensures
        Status::Success.code_spec() == 200,
        Status::Created.code_spec() == 201,
        Status::Accepted.code_spec() == 202,
        Status::BadRequest.code_spec() == 400,
        Status::Unauthorized.code_spec() == 401,
        Status::Forbidden.code_spec() == 403,
        Status::NotFound.code_spec() == 404,
        Status::Conflict.code_spec() == 409,
        Status::Gone.code_spec() == 410,
        Status::MisdirectedRequest.code_spec() == 421,
        Status::InternalServerError.code_spec() == 500,
        Status::BadGateway.code_spec() == 502,
{
}

/// A forwarded envelope is answered as forwarded if the queue of its link took it, and
/// otherwise as a bad gateway, with the reason.
pub proof fn forwards_are_answered_by_what_became_of_them(target: Seq<char>)
    ensures
        forward_answer(target, Delivery::Sent) matches Ok(a) && a.0 == Status::Accepted
            && a.1.status == "forwarded"@ && a.1.route == "federation_forward"@,
        forward_answer(target, Delivery::Closed) matches Err(f) && f.status == Status::BadGateway
            && f.error == "federation_forward_error"@ && f.detail
            == "failed to relay envelope to mesh "@ + target + ": channel closed"@,
        forward_answer(target, Delivery::NoLink) matches Err(f) && f.status == Status::BadGateway
            && f.error == "federation_forward_error"@ && f.detail == "mesh link not found: "@
            + target,
{
}

/// What stands in for what a payload does not name: the name "unknown", the status
/// available, no capabilities, the skills from 0 to 100, the given times, and the empty text
/// for a game.
pub proof fn what_stands_in_for_missing_fields(
    agent: Seq<char>,
    mesh: Seq<char>,
    first: Timestamp,
    second: Timestamp,
)
    ensures
        ({
            let nothing = PayloadView::Object(Seq::empty());
            let msg = announcement_of(agent, mesh, nothing);
            &&& msg.agent_id == agent
            &&& msg.mesh_id == mesh
            &&& msg.display_name == "unknown"@
            &&& msg.status == PeerStatus::Available
            &&& msg.capabilities.len() == 0
            &&& requested_skills(nothing).min.bits == 0
            &&& requested_skills(nothing).max.bits == 0x4059_0000_0000_0000
            &&& requested_times(nothing, first, second).start == first
            &&& requested_times(nothing, first, second).end == second
            &&& nothing.text_or("game"@, ""@) == ""@
        }),
{
    lemma_states_differ();
}

/// Only an announcement gives a peer a new queue at the relay, and only its sender.
pub proof fn only_an_announcer_gets_a_new_queue(e: Envelope, agent: Seq<char>)
    ensures
        requeued(e).contains(agent) <==> e.intent == Intent::Announce && agent
            == e.sender.agent_id@,
{
}

/// An envelope of another mesh that cannot be read is refused with the reason. One that can
/// be read is refused, and changes nothing, or is accepted; then nothing speaks against it,
/// and the answer names its intent.
pub proof fn answers_to_other_meshes_tell_what_was_done(
    node: MeshNodeView,
    parsed: Result<Envelope, String>,
    now: Timestamp,
    readings: ReadingsView,
    answer: Result<(Status, RouteResponseView), FailureView>,
    after: MeshNodeView,
)
    requires
        federated(node, parsed, now, readings, answer, after),
    ensures
        answer is Err ==> after == node,
        parsed matches Err(reason) ==> answer == Err::<(Status, RouteResponseView), FailureView>(
            FailureView {
                status: Status::BadRequest,
                error: "invalid_federated_envelope"@,
                detail: "inner envelope parse error: "@ + reason@,
            },
        ),
        parsed matches Ok(e) ==> (answer is Ok <==> e.schema_version@ == "0.1"@ && (e.expiry is None
            || !now.after(e.expiry->0)) && payload_refusal(e) is None),
        parsed matches Ok(e) && answer is Ok ==> (answer->Ok_0).0 == Status::Accepted && (
        answer->Ok_0).1.status == "accepted"@ && (answer->Ok_0).1.intent == (parsed->Ok_0).intent,
{
}

} // verus!
