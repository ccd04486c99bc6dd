//! Match requests, schedule slots and offers of a mesh.
use crate::double::Double;
use crate::events::{EventBus, EventView};
use crate::ids::fresh_id;
use crate::table::{
    a_selection_holds_what_is_kept, is_value, lists, only, result_view, views, Table,
};
use crate::text::{cat2, cat3};
use crate::time::{clock_reading, Timestamp};
use vstd::prelude::*;

verus! {

/// What can go wrong with matchmaking.
#[derive(Debug)]
pub enum MatchError {
    RequestNotFound(String),
    OfferNotFound(String),
    ScheduleNotFound(String),
    OfferExpired,
    NoMatchFound,
}

/// The content of a `MatchError`.
#[verifier::ext_equal]
pub enum MatchErrorView {
    RequestNotFound(Seq<char>),
    OfferNotFound(Seq<char>),
    ScheduleNotFound(Seq<char>),
    OfferExpired,
    NoMatchFound,
}

impl View for MatchError {
    type V = MatchErrorView;

    open spec fn view(&self) -> MatchErrorView {
        match *self {
            MatchError::RequestNotFound(x) => MatchErrorView::RequestNotFound(x@),
            MatchError::OfferNotFound(x) => MatchErrorView::OfferNotFound(x@),
            MatchError::ScheduleNotFound(x) => MatchErrorView::ScheduleNotFound(x@),
            MatchError::OfferExpired => MatchErrorView::OfferExpired,
            MatchError::NoMatchFound => MatchErrorView::NoMatchFound,
        }
    }
}

impl Clone for MatchError {
    fn clone(&self) -> (r: Self)
        ensures
            r@ == self@,
    {
        match self {
            MatchError::RequestNotFound(x) => MatchError::RequestNotFound(x.clone()),
            MatchError::OfferNotFound(x) => MatchError::OfferNotFound(x.clone()),
            MatchError::ScheduleNotFound(x) => MatchError::ScheduleNotFound(x.clone()),
            MatchError::OfferExpired => MatchError::OfferExpired,
            MatchError::NoMatchFound => MatchError::NoMatchFound,
        }
    }
}

impl MatchErrorView {
    /// The text of the error.
    pub open spec fn text(self) -> Seq<char> {
        match self {
            MatchErrorView::RequestNotFound(id) => "request not found: "@ + id,
            MatchErrorView::OfferNotFound(id) => "offer not found: "@ + id,
            MatchErrorView::ScheduleNotFound(id) => "schedule not found: "@ + id,
            MatchErrorView::OfferExpired => "offer expired"@,
            MatchErrorView::NoMatchFound => "no matching peers found"@,
        }
    }
}

impl MatchError {
    /// The text of the error.
    pub fn to_string(&self) -> (r: String)
        ensures
            r@ == self@.text(),
    {
        match self {
            MatchError::RequestNotFound(id) => cat2("request not found: ", id.as_str()),
            MatchError::OfferNotFound(id) => cat2("offer not found: ", id.as_str()),
            MatchError::ScheduleNotFound(id) => cat2("schedule not found: ", id.as_str()),
            MatchError::OfferExpired => "offer expired".to_owned(),
            MatchError::NoMatchFound => "no matching peers found".to_owned(),
        }
    }
}

/// The skill levels from `min` to `max`.
#[derive(Clone, Copy, Debug, PartialEq, Eq, Structural)]
pub struct SkillRange {
    pub min: Double,
    pub max: Double,
}

/// The time from `start` to `end`.
#[derive(Clone, Copy, Debug, PartialEq, Eq, Structural)]
pub struct TimeWindow {
    pub start: Timestamp,
    pub end: Timestamp,
}

/// The state of a schedule slot.
#[derive(Clone, Copy, Debug, PartialEq, Eq, Structural)]
pub enum SlotState {
    Proposed,
    Confirmed,
    Declined,
}

/// A request of a peer to find a match under constraints.
#[derive(Debug)]
pub struct MatchRequest {
    pub request_id: String,
    pub agent_id: String,
    pub mesh_id: String,
    pub game: String,
    pub skill_range: SkillRange,
    pub time_window: TimeWindow,
    pub created_at: Timestamp,
}

/// The content of a `MatchRequest`.
#[verifier::ext_equal]
pub struct MatchRequestView {
    pub request_id: Seq<char>,
    pub agent_id: Seq<char>,
    pub mesh_id: Seq<char>,
    pub game: Seq<char>,
    pub skill_range: SkillRange,
    pub time_window: TimeWindow,
    pub created_at: Timestamp,
}

impl View for MatchRequest {
    type V = MatchRequestView;

    open spec fn view(&self) -> MatchRequestView {
        MatchRequestView {
            request_id: self.request_id@,
            agent_id: self.agent_id@,
            mesh_id: self.mesh_id@,
            game: self.game@,
            skill_range: self.skill_range,
            time_window: self.time_window,
            created_at: self.created_at,
        }
    }
}

impl Clone for MatchRequest {
    fn clone(&self) -> (r: Self)
        ensures
            r@ == self@,
    {
        MatchRequest {
            request_id: self.request_id.clone(),
            agent_id: self.agent_id.clone(),
            mesh_id: self.mesh_id.clone(),
            game: self.game.clone(),
            skill_range: self.skill_range,
            time_window: self.time_window,
            created_at: self.created_at,
        }
    }
}

/// A schedule slot between peers, proposed, confirmed or declined.
#[derive(Debug)]
pub struct ScheduleSlot {
    pub schedule_id: String,
    pub agent_id: String,
    pub mesh_id: String,
    pub slot_start: Timestamp,
    pub slot_end: Timestamp,
    pub state: SlotState,
    pub created_at: Timestamp,
}

/// The content of a `ScheduleSlot`.
#[verifier::ext_equal]
pub struct ScheduleSlotView {
    pub schedule_id: Seq<char>,
    pub agent_id: Seq<char>,
    pub mesh_id: Seq<char>,
    pub slot_start: Timestamp,
    pub slot_end: Timestamp,
    pub state: SlotState,
    pub created_at: Timestamp,
}

impl View for ScheduleSlot {
    type V = ScheduleSlotView;

    open spec fn view(&self) -> ScheduleSlotView {
        ScheduleSlotView {
            schedule_id: self.schedule_id@,
            agent_id: self.agent_id@,
            mesh_id: self.mesh_id@,
            slot_start: self.slot_start,
            slot_end: self.slot_end,
            state: self.state,
            created_at: self.created_at,
        }
    }
}

impl Clone for ScheduleSlot {
    fn clone(&self) -> (r: Self)
        ensures
            r@ == self@,
    {
        ScheduleSlot {
            schedule_id: self.schedule_id.clone(),
            agent_id: self.agent_id.clone(),
            mesh_id: self.mesh_id.clone(),
            slot_start: self.slot_start,
            slot_end: self.slot_end,
            state: self.state,
            created_at: self.created_at,
        }
    }
}

/// An actionable offer between peers.
#[derive(Debug)]
pub struct PeerOffer {
    pub offer_id: String,
    pub from_agent: String,
    pub mesh_id: String,
    pub summary: String,
    pub expires_at: Timestamp,
    pub created_at: Timestamp,
}

/// The content of a `PeerOffer`.
#[verifier::ext_equal]
pub struct PeerOfferView {
    pub offer_id: Seq<char>,
    pub from_agent: Seq<char>,
    pub mesh_id: Seq<char>,
    pub summary: Seq<char>,
    pub expires_at: Timestamp,
    pub created_at: Timestamp,
}

impl View for PeerOffer {
    type V = PeerOfferView;

    open spec fn view(&self) -> PeerOfferView {
        PeerOfferView {
            offer_id: self.offer_id@,
            from_agent: self.from_agent@,
            mesh_id: self.mesh_id@,
            summary: self.summary@,
            expires_at: self.expires_at,
            created_at: self.created_at,
        }
    }
}

impl Clone for PeerOffer {
    fn clone(&self) -> (r: Self)
        ensures
            r@ == self@,
    {
        PeerOffer {
            offer_id: self.offer_id.clone(),
            from_agent: self.from_agent.clone(),
            mesh_id: self.mesh_id.clone(),
            summary: self.summary.clone(),
            expires_at: self.expires_at,
            created_at: self.created_at,
        }
    }
}

/// The result of a match attempt.
#[derive(Debug)]
pub struct MatchResult {
    pub request_id: String,
    pub matched_agents: Vec<String>,
    pub game: String,
}

/// The content of a `MatchResult`.
#[verifier::ext_equal]
pub struct MatchResultView {
    pub request_id: Seq<char>,
    pub matched_agents: Seq<Seq<char>>,
    pub game: Seq<char>,
}

impl View for MatchResult {
    type V = MatchResultView;

    open spec fn view(&self) -> MatchResultView {
        MatchResultView {
            request_id: self.request_id@,
            matched_agents: views(self.matched_agents@),
            game: self.game@,
        }
    }
}

impl Clone for MatchResult {
    fn clone(&self) -> (r: Self)
        ensures
            r@ == self@,
    {
        let r = MatchResult {
            request_id: self.request_id.clone(),
            matched_agents: self.matched_agents.clone(),
            game: self.game.clone(),
        };
        proof {
            assert(views(r.matched_agents@) =~= views(self.matched_agents@));
            assert(r@ =~= self@);
        }
        r
    }
}

/// Two skill ranges have a level in common.
pub open spec fn skills_meet(a: SkillRange, b: SkillRange) -> bool {
    a.min.at_most_spec(b.max) && b.min.at_most_spec(a.max)
}

/// Two time windows overlap.
pub open spec fn windows_meet(a: TimeWindow, b: TimeWindow) -> bool {
    b.end.after(a.start) && a.end.after(b.start)
}

impl MatchRequestView {
    /// Two requests are compatible: they are of different agents, for the same
    /// game, and their skill ranges and time windows overlap.
    pub open spec fn compatible(self, other: MatchRequestView) -> bool {
        &&& self.request_id != other.request_id
        &&& self.agent_id != other.agent_id
        &&& self.game == other.game
        &&& skills_meet(self.skill_range, other.skill_range)
        &&& windows_meet(self.time_window, other.time_window)
    }

    /// The time window has not passed.
    pub open spec fn open_at(self, now: Timestamp) -> bool {
        !now.after(self.time_window.end)
    }
}

impl PeerOfferView {
    /// The offer has not expired.
    pub open spec fn active_at(self, now: Timestamp) -> bool {
        !now.after(self.expires_at)
    }
}

/// The match requests, schedule slots and offers of a mesh.
#[derive(Debug)]
pub struct Matchmaker {
    mesh_id: String,
    requests: Table<MatchRequest>,
    schedules: Table<ScheduleSlot>,
    offers: Table<PeerOffer>,
    bus: EventBus,
}

/// The content of a `Matchmaker`, with the events it emitted.
#[verifier::ext_equal]
pub struct MatchmakerView {
    pub mesh_id: Seq<char>,
    pub requests: Map<Seq<char>, MatchRequestView>,
    pub schedules: Map<Seq<char>, ScheduleSlotView>,
    pub offers: Map<Seq<char>, PeerOfferView>,
    pub log: Seq<EventView>,
    /// The channel of the bus that the events go to.
    pub channel: int,
}

impl View for Matchmaker {
    type V = MatchmakerView;

    closed spec fn view(&self) -> MatchmakerView {
        MatchmakerView {
            mesh_id: self.mesh_id@,
            requests: self.requests@,
            schedules: self.schedules@,
            offers: self.offers@,
            log: self.bus@,
            channel: self.bus.channel(),
        }
    }
}

impl MatchmakerView {
    /// Requests, slots and offers are filed under their own ids and belong to the
    /// mesh.
    pub open spec fn wf(self) -> bool {
        &&& forall|k: Seq<char>| #[trigger]
            self.requests.contains_key(k) ==> self.requests[k].request_id == k
                && self.requests[k].mesh_id == self.mesh_id
        &&& forall|k: Seq<char>| #[trigger]
            self.schedules.contains_key(k) ==> self.schedules[k].schedule_id == k
                && self.schedules[k].mesh_id == self.mesh_id
        &&& forall|k: Seq<char>| #[trigger]
            self.offers.contains_key(k) ==> self.offers[k].offer_id == k && self.offers[k].mesh_id
                == self.mesh_id
    }

    /// With a `PatchReady` event emitted.
    pub open spec fn announcing(self, description: Seq<char>) -> MatchmakerView {
        MatchmakerView {
            log: self.log.push(EventView::PatchReady { mesh_id: self.mesh_id, description }),
            ..self
        }
    }

    /// After a request was submitted.
    pub open spec fn requested(self, r: MatchRequestView) -> MatchmakerView {
        MatchmakerView { requests: self.requests.insert(r.request_id, r), ..self }.announcing(
            r.agent_id + " submitted match request for "@ + r.game,
        )
    }

    /// After a slot was proposed.
    pub open spec fn proposed(self, s: ScheduleSlotView) -> MatchmakerView {
        MatchmakerView { schedules: self.schedules.insert(s.schedule_id, s), ..self }.announcing(
            s.agent_id + " proposed schedule slot"@,
        )
    }

    /// A slot with its state replaced.
    pub open spec fn slot_in_state(self, id: Seq<char>, state: SlotState) -> ScheduleSlotView {
        ScheduleSlotView { state, ..self.schedules[id] }
    }

    /// After a slot was confirmed or declined, as `verdict` says.
    pub open spec fn settled(self, id: Seq<char>, state: SlotState, verdict: Seq<char>) -> MatchmakerView {
        MatchmakerView {
            schedules: self.schedules.insert(id, self.slot_in_state(id, state)),
            ..self
        }.announcing("schedule "@ + id + verdict)
    }

    /// After an offer was submitted.
    pub open spec fn offered(self, o: PeerOfferView) -> MatchmakerView {
        MatchmakerView { offers: self.offers.insert(o.offer_id, o), ..self }.announcing(
            o.from_agent + " submitted offer "@ + o.offer_id,
        )
    }

    /// The offers that have not expired by `now`.
    pub open spec fn active_offers(self, now: Timestamp) -> Map<Seq<char>, PeerOfferView> {
        only(self.offers, |o: PeerOfferView| o.active_at(now))
    }

    /// What a look at an offer gives at time `now`.
    pub open spec fn offer_at(self, id: Seq<char>, now: Timestamp) -> Result<
        PeerOfferView,
        MatchErrorView,
    > {
        if !self.offers.contains_key(id) {
            Err(MatchErrorView::OfferNotFound(id))
        } else if !self.offers[id].active_at(now) {
            Err(MatchErrorView::OfferExpired)
        } else {
            Ok(self.offers[id])
        }
    }

    /// After everything that expired before `now` was dropped.
    pub open spec fn purged(self, now: Timestamp) -> MatchmakerView {
        MatchmakerView {
            requests: only(self.requests, |r: MatchRequestView| r.open_at(now)),
            offers: self.active_offers(now),
            ..self
        }
    }
}

fn ranges_overlap(a: &SkillRange, b: &SkillRange) -> (r: bool)
    ensures
        r == skills_meet(*a, *b),
{
    a.min.at_most(&b.max) && b.min.at_most(&a.max)
}

fn windows_overlap(a: &TimeWindow, b: &TimeWindow) -> (r: bool)
    ensures
        r == windows_meet(*a, *b),
{
    b.end.is_after(&a.start) && a.end.is_after(&b.start)
}

impl Matchmaker {
    /// The channel of the bus that the events go to.
    pub open spec fn channel(&self) -> int {
        self@.channel
    }

    /// A mesh without requests, slots and offers.
    pub fn new(mesh_id: &str, bus: EventBus) -> (r: Self)
        ensures
            r@ == (MatchmakerView {
                mesh_id: mesh_id@,
                requests: Map::empty(),
                schedules: Map::empty(),
                offers: Map::empty(),
                log: bus@,
                channel: bus.channel(),
            }),
            r@.wf(),
    {
        Matchmaker {
            mesh_id: mesh_id.to_owned(),
            requests: Table::new(),
            schedules: Table::new(),
            offers: Table::new(),
            bus,
        }
    }

    /// Submits a match request now, under a fresh id.
    pub fn submit_request(
        &mut self,
        agent_id: &str,
        game: &str,
        skill_range: SkillRange,
        time_window: TimeWindow,
    ) -> (r: MatchRequest)
        ensures
            r@.request_id.len() == 36,
            clock_reading(r.created_at),
            r@ == (MatchRequestView {
                request_id: r.request_id@,
                agent_id: agent_id@,
                mesh_id: old(self)@.mesh_id,
                game: game@,
                skill_range,
                time_window,
                created_at: r.created_at,
            }),
            final(self)@ == old(self)@.requested(r@),
            old(self)@.wf() ==> final(self)@.wf(),
    {
        self.submit_request_with(
            fresh_id(),
            agent_id,
            game,
            skill_range,
            time_window,
            Timestamp::now(),
        )
    }

    /// Submits a match request at a given time under a given id.
    pub fn submit_request_with(
        &mut self,
        request_id: String,
        agent_id: &str,
        game: &str,
        skill_range: SkillRange,
        time_window: TimeWindow,
        now: Timestamp,
    ) -> (r: MatchRequest)
        ensures
            r@ == (MatchRequestView {
                request_id: request_id@,
                agent_id: agent_id@,
                mesh_id: old(self)@.mesh_id,
                game: game@,
                skill_range,
                time_window,
                created_at: now,
            }),
            final(self)@ == old(self)@.requested(r@),
            old(self)@.wf() ==> final(self)@.wf(),
    {
        let request = MatchRequest {
            request_id,
            agent_id: agent_id.to_owned(),
            mesh_id: self.mesh_id.clone(),
            game: game.to_owned(),
            skill_range,
            time_window,
            created_at: now,
        };
        self.requests.insert(request.request_id.clone(), request.clone());
        let notice = cat3(agent_id, " submitted match request for ", game);
        let _ = self.bus.emit_patch_ready(self.mesh_id.as_str(), notice.as_str());
        request
    }

    /// The requests that are compatible with a given one.
    pub fn find_matches(&self, request_id: &str) -> (r: Result<Vec<MatchRequest>, MatchError>)
        ensures
            r is Ok <==> self@.requests.contains_key(request_id@),
            match r {
                Ok(found) => lists(
                    views(found@),
                    only(
                        self@.requests,
                        |q: MatchRequestView| q.compatible(self@.requests[request_id@]),
                    ),
                ),
                Err(e) => e@ == MatchErrorView::RequestNotFound(request_id@),
            },
    {
        match self.requests.get(request_id) {
            None => Err(MatchError::RequestNotFound(request_id.to_owned())),
            Some(target) => {
                let fits = |q: &MatchRequest| -> (b: bool)
                    ensures
                        b == q@.compatible(target@),
                    {
                        q.request_id != target.request_id && q.agent_id != target.agent_id
                            && q.game == target.game && ranges_overlap(
                            &q.skill_range,
                            &target.skill_range,
                        ) && windows_overlap(&q.time_window, &target.time_window)
                    };
                let found = self.requests.select(
                    fits,
                    Ghost(|q: MatchRequestView| q.compatible(target@)),
                );
                Ok(found)
            },
        }
    }

    /// Takes back a match request.
    pub fn cancel_request(&mut self, request_id: &str) -> (r: Result<MatchRequest, MatchError>)
        ensures
            r is Ok <==> old(self)@.requests.contains_key(request_id@),
            match r {
                Ok(q) => q@ == old(self)@.requests[request_id@],
                Err(e) => e@ == MatchErrorView::RequestNotFound(request_id@),
            },
            final(self)@ == (MatchmakerView {
                requests: old(self)@.requests.remove(request_id@),
                ..old(self)@
            }),
            old(self)@.wf() ==> final(self)@.wf(),
    {
        match self.requests.remove(request_id) {
            Some(q) => Ok(q),
            None => Err(MatchError::RequestNotFound(request_id.to_owned())),
        }
    }

    /// All pending match requests.
    pub fn list_requests(&self) -> (r: Vec<MatchRequest>)
        ensures
            lists(views(r@), self@.requests),
    {
        self.requests.values()
    }

    /// The match requests for a game.
    pub fn requests_for_game(&self, game: &str) -> (r: Vec<MatchRequest>)
        ensures
            lists(views(r@), only(self@.requests, |q: MatchRequestView| q.game == game@)),
    {
        let wanted = game.to_owned();
        let fits = |q: &MatchRequest| -> (b: bool)
            ensures
                b == (q@.game == game@),
            { q.game == wanted };
        self.requests.select(fits, Ghost(|q: MatchRequestView| q.game == game@))
    }

    /// The match requests with an id.
    pub fn requests_with_id(&self, request_id: &str) -> (r: Vec<MatchRequest>)
        ensures
            lists(views(r@), only(self@.requests, |q: MatchRequestView| q.request_id == request_id@)),
    {
        let wanted = request_id.to_owned();
        let fits = |q: &MatchRequest| -> (b: bool)
            ensures
                b == (q@.request_id == request_id@),
            { q.request_id == wanted };
        self.requests.select(fits, Ghost(|q: MatchRequestView| q.request_id == request_id@))
    }

    /// Proposes a schedule slot now, under a fresh id.
    pub fn propose_slot(&mut self, agent_id: &str, slot_start: Timestamp, slot_end: Timestamp) -> (r:
        ScheduleSlot)
        ensures
            r@.schedule_id.len() == 36,
            clock_reading(r.created_at),
            r@ == (ScheduleSlotView {
                schedule_id: r.schedule_id@,
                agent_id: agent_id@,
                mesh_id: old(self)@.mesh_id,
                slot_start,
                slot_end,
                state: SlotState::Proposed,
                created_at: r.created_at,
            }),
            final(self)@ == old(self)@.proposed(r@),
            old(self)@.wf() ==> final(self)@.wf(),
    {
        self.propose_slot_with(fresh_id(), agent_id, slot_start, slot_end, Timestamp::now())
    }

    /// Proposes a schedule slot at a given time under a given id.
    pub fn propose_slot_with(
        &mut self,
        schedule_id: String,
        agent_id: &str,
        slot_start: Timestamp,
        slot_end: Timestamp,
        now: Timestamp,
    ) -> (r: ScheduleSlot)
        ensures
            r@ == (ScheduleSlotView {
                schedule_id: schedule_id@,
                agent_id: agent_id@,
                mesh_id: old(self)@.mesh_id,
                slot_start,
                slot_end,
                state: SlotState::Proposed,
                created_at: now,
            }),
            final(self)@ == old(self)@.proposed(r@),
            old(self)@.wf() ==> final(self)@.wf(),
    {
        let slot = ScheduleSlot {
            schedule_id,
            agent_id: agent_id.to_owned(),
            mesh_id: self.mesh_id.clone(),
            slot_start,
            slot_end,
            state: SlotState::Proposed,
            created_at: now,
        };
        self.schedules.insert(slot.schedule_id.clone(), slot.clone());
        let notice = cat2(agent_id, " proposed schedule slot");
        let _ = self.bus.emit_patch_ready(self.mesh_id.as_str(), notice.as_str());
        slot
    }

    fn settle_slot(&mut self, schedule_id: &str, state: SlotState, verdict: &str) -> (r: Result<
        ScheduleSlot,
        MatchError,
    >)
        ensures
            r is Ok <==> old(self)@.schedules.contains_key(schedule_id@),
            match r {
                Ok(s) => {
                    &&& s@ == old(self)@.slot_in_state(schedule_id@, state)
                    &&& final(self)@ == old(self)@.settled(schedule_id@, state, verdict@)
                },
                Err(e) => e@ == MatchErrorView::ScheduleNotFound(schedule_id@) && final(self)@
                    == old(self)@,
            },
            old(self)@.wf() ==> final(self)@.wf(),
    {
        let ghost start = self@;
        match self.schedules.remove(schedule_id) {
            None => {
                assert(self@.schedules =~= start.schedules);
                Err(MatchError::ScheduleNotFound(schedule_id.to_owned()))
            },
            Some(mut slot) => {
                slot.state = state;
                self.schedules.insert(schedule_id.to_owned(), slot.clone());
                let notice = cat3("schedule ", schedule_id, verdict);
                let _ = self.bus.emit_patch_ready(self.mesh_id.as_str(), notice.as_str());
                assert(slot@ =~= start.slot_in_state(schedule_id@, state));
                assert(self@.schedules =~= start.settled(schedule_id@, state, verdict@).schedules);
                Ok(slot)
            },
        }
    }

    /// Confirms a schedule slot.
    pub fn confirm_slot(&mut self, schedule_id: &str) -> (r: Result<ScheduleSlot, MatchError>)
        ensures
            r is Ok <==> old(self)@.schedules.contains_key(schedule_id@),
            match r {
                Ok(s) => {
                    &&& s@ == old(self)@.slot_in_state(schedule_id@, SlotState::Confirmed)
                    &&& final(self)@ == old(self)@.settled(
                        schedule_id@,
                        SlotState::Confirmed,
                        " confirmed"@,
                    )
                },
                Err(e) => e@ == MatchErrorView::ScheduleNotFound(schedule_id@) && final(self)@
                    == old(self)@,
            },
            old(self)@.wf() ==> final(self)@.wf(),
    {
        self.settle_slot(schedule_id, SlotState::Confirmed, " confirmed")
    }

    /// Declines a schedule slot.
    pub fn decline_slot(&mut self, schedule_id: &str) -> (r: Result<ScheduleSlot, MatchError>)
        ensures
            r is Ok <==> old(self)@.schedules.contains_key(schedule_id@),
            match r {
                Ok(s) => {
                    &&& s@ == old(self)@.slot_in_state(schedule_id@, SlotState::Declined)
                    &&& final(self)@ == old(self)@.settled(
                        schedule_id@,
                        SlotState::Declined,
                        " declined"@,
                    )
                },
                Err(e) => e@ == MatchErrorView::ScheduleNotFound(schedule_id@) && final(self)@
                    == old(self)@,
            },
            old(self)@.wf() ==> final(self)@.wf(),
    {
        self.settle_slot(schedule_id, SlotState::Declined, " declined")
    }

    /// A schedule slot by its id.
    pub fn get_slot(&self, schedule_id: &str) -> (r: Result<ScheduleSlot, MatchError>)
        ensures
            r is Ok <==> self@.schedules.contains_key(schedule_id@),
            match r {
                Ok(s) => s@ == self@.schedules[schedule_id@],
                Err(e) => e@ == MatchErrorView::ScheduleNotFound(schedule_id@),
            },
    {
        match self.schedules.get(schedule_id) {
            Some(s) => Ok(s.clone()),
            None => Err(MatchError::ScheduleNotFound(schedule_id.to_owned())),
        }
    }

    /// All schedule slots.
    pub fn list_schedules(&self) -> (r: Vec<ScheduleSlot>)
        ensures
            lists(views(r@), self@.schedules),
    {
        self.schedules.values()
    }

    /// The schedule slots of an agent.
    pub fn slots_for_agent(&self, agent_id: &str) -> (r: Vec<ScheduleSlot>)
        ensures
            lists(
                views(r@),
                only(self@.schedules, |s: ScheduleSlotView| s.agent_id == agent_id@),
            ),
    {
        let wanted = agent_id.to_owned();
        let fits = |s: &ScheduleSlot| -> (b: bool)
            ensures
                b == (s@.agent_id == agent_id@),
            { s.agent_id == wanted };
        self.schedules.select(fits, Ghost(|s: ScheduleSlotView| s.agent_id == agent_id@))
    }

    /// Submits an offer now.
    pub fn submit_offer(
        &mut self,
        from_agent: &str,
        offer_id: &str,
        summary: &str,
        expires_at: Timestamp,
    ) -> (r: PeerOffer)
        ensures
            clock_reading(r.created_at),
            r@ == (PeerOfferView {
                offer_id: offer_id@,
                from_agent: from_agent@,
                mesh_id: old(self)@.mesh_id,
                summary: summary@,
                expires_at,
                created_at: r.created_at,
            }),
            final(self)@ == old(self)@.offered(r@),
            old(self)@.wf() ==> final(self)@.wf(),
    {
        self.submit_offer_at(from_agent, offer_id, summary, expires_at, Timestamp::now())
    }

    /// Submits an offer at a given time.
    pub fn submit_offer_at(
        &mut self,
        from_agent: &str,
        offer_id: &str,
        summary: &str,
        expires_at: Timestamp,
        now: Timestamp,
    ) -> (r: PeerOffer)
        ensures
            r@ == (PeerOfferView {
                offer_id: offer_id@,
                from_agent: from_agent@,
                mesh_id: old(self)@.mesh_id,
                summary: summary@,
                expires_at,
                created_at: now,
            }),
            final(self)@ == old(self)@.offered(r@),
            old(self)@.wf() ==> final(self)@.wf(),
    {
        let offer = PeerOffer {
            offer_id: offer_id.to_owned(),
            from_agent: from_agent.to_owned(),
            mesh_id: self.mesh_id.clone(),
            summary: summary.to_owned(),
            expires_at,
            created_at: now,
        };
        self.offers.insert(offer.offer_id.clone(), offer.clone());
        let notice = cat3(from_agent, " submitted offer ", offer_id);
        let _ = self.bus.emit_patch_ready(self.mesh_id.as_str(), notice.as_str());
        offer
    }

    /// An offer by its id, unless it has expired by now.
    pub fn get_offer(&self, offer_id: &str) -> (r: Result<PeerOffer, MatchError>)
        ensures
            exists|now: Timestamp|
                clock_reading(now) && result_view(r) == #[trigger] self@.offer_at(offer_id@, now),
    {
        let now = Timestamp::now();
        let r = self.get_offer_at(offer_id, now);
        assert(result_view(r) == self@.offer_at(offer_id@, now));
        r
    }

    /// An offer by its id, unless it has expired by a given time.
    pub fn get_offer_at(&self, offer_id: &str, now: Timestamp) -> (r: Result<PeerOffer, MatchError>)
        ensures
            result_view(r) == self@.offer_at(offer_id@, now),
    {
        match self.offers.get(offer_id) {
            None => Err(MatchError::OfferNotFound(offer_id.to_owned())),
            Some(offer) => {
                if now.is_after(&offer.expires_at) {
                    Err(MatchError::OfferExpired)
                } else {
                    Ok(offer.clone())
                }
            },
        }
    }

    /// The offers that have not expired by now.
    pub fn active_offers(&self) -> (r: Vec<PeerOffer>)
        ensures
            exists|now: Timestamp|
                clock_reading(now) && lists(views(r@), #[trigger] self@.active_offers(now)),
    {
        self.active_offers_at(Timestamp::now())
    }

    /// The offers that have not expired by a given time.
    pub fn active_offers_at(&self, now: Timestamp) -> (r: Vec<PeerOffer>)
        ensures
            lists(views(r@), self@.active_offers(now)),
    {
        let fits = |o: &PeerOffer| -> (b: bool)
            ensures
                b == o@.active_at(now),
            { !now.is_after(&o.expires_at) };
        self.offers.select(fits, Ghost(|o: PeerOfferView| o.active_at(now)))
    }

    /// Takes back an offer.
    pub fn withdraw_offer(&mut self, offer_id: &str) -> (r: Result<PeerOffer, MatchError>)
        ensures
            r is Ok <==> old(self)@.offers.contains_key(offer_id@),
            match r {
                Ok(o) => o@ == old(self)@.offers[offer_id@],
                Err(e) => e@ == MatchErrorView::OfferNotFound(offer_id@),
            },
            final(self)@ == (MatchmakerView {
                offers: old(self)@.offers.remove(offer_id@),
                ..old(self)@
            }),
            old(self)@.wf() ==> final(self)@.wf(),
    {
        match self.offers.remove(offer_id) {
            Some(o) => Ok(o),
            None => Err(MatchError::OfferNotFound(offer_id.to_owned())),
        }
    }

    /// Drops the requests and offers that have expired by now.
    pub fn purge_expired(&mut self)
        ensures
            exists|now: Timestamp|
                clock_reading(now) && final(self)@ == #[trigger] old(self)@.purged(now),
            old(self)@.wf() ==> final(self)@.wf(),
    {
        self.purge_expired_at(Timestamp::now());
    }

    /// Drops the requests and offers that have expired by a given time.
    pub fn purge_expired_at(&mut self, now: Timestamp)
        ensures
            final(self)@ == old(self)@.purged(now),
            old(self)@.wf() ==> final(self)@.wf(),
    {
        let open = |q: &MatchRequest| -> (b: bool)
            ensures
                b == q@.open_at(now),
            { !now.is_after(&q.time_window.end) };
        self.requests.retain(open, Ghost(|q: MatchRequestView| q.open_at(now)));
        let active = |o: &PeerOffer| -> (b: bool)
            ensures
                b == o@.active_at(now),
            { !now.is_after(&o.expires_at) };
        self.offers.retain(active, Ghost(|o: PeerOfferView| o.active_at(now)));
    }
}

/// Being compatible is mutual, and no request is compatible with itself.
pub proof fn compatibility_is_mutual(a: MatchRequestView, b: MatchRequestView)
    ensures
        a.compatible(b) == b.compatible(a),
        !a.compatible(a),
{
}

/// Two proper time windows overlap exactly if some instant lies in both, where
/// each holds its start and not its end.
pub proof fn overlapping_windows_share_an_instant(a: TimeWindow, b: TimeWindow)
    requires
        a.end.after(a.start),
        b.end.after(b.start),
    ensures
        windows_meet(a, b) <==> exists|t: Timestamp|
            !a.start.after(t) && #[trigger] a.end.after(t) && !b.start.after(t) && b.end.after(t),
{
    if windows_meet(a, b) {
        let t = if a.start.after(b.start) {
            a.start
        } else {
            b.start
        };
        assert(!a.start.after(t) && a.end.after(t) && !b.start.after(t) && b.end.after(t));
    }
}

/// Two proper skill ranges overlap exactly if some level lies in both.
pub proof fn overlapping_ranges_share_a_level(a: SkillRange, b: SkillRange)
    requires
        a.min.at_most_spec(a.max),
        b.min.at_most_spec(b.max),
    ensures
        skills_meet(a, b) <==> exists|s: Double|
            #[trigger] a.min.at_most_spec(s) && s.at_most_spec(a.max) && b.min.at_most_spec(s)
                && s.at_most_spec(b.max),
{
    if skills_meet(a, b) {
        let s = if a.min.rank() >= b.min.rank() {
            a.min
        } else {
            b.min
        };
        assert(a.min.at_most_spec(s) && s.at_most_spec(a.max) && b.min.at_most_spec(s)
            && s.at_most_spec(b.max));
    }
}

/// After purging at `now`, everything left is still open or active at `now`, and
/// purging again drops nothing.
pub proof fn purging_leaves_only_the_unexpired(m: MatchmakerView, now: Timestamp)
    ensures
        forall|k: Seq<char>| #[trigger]
            m.purged(now).requests.contains_key(k) ==> m.purged(now).requests[k].open_at(now),
        forall|k: Seq<char>| #[trigger]
            m.purged(now).offers.contains_key(k) ==> m.purged(now).offers[k].active_at(now),
        m.purged(now).purged(now) == m.purged(now),
        m.purged(now).schedules == m.schedules,
{
    let once = m.purged(now);
    assert(once.purged(now).requests =~= once.requests);
    assert(once.purged(now).offers =~= once.offers);
}

/// Taking back a request or an offer that was just submitted, under an id that was
/// not in use, leaves the requests and offers as they were.
pub proof fn taking_back_undoes_submitting(
    m: MatchmakerView,
    request: MatchRequestView,
    offer: PeerOfferView,
)
    requires
        !m.requests.contains_key(request.request_id),
        !m.offers.contains_key(offer.offer_id),
    ensures
        m.requested(request).requests.remove(request.request_id) == m.requests,
        m.offered(offer).offers.remove(offer.offer_id) == m.offers,
{
    assert(m.requested(request).requests.remove(request.request_id) =~= m.requests);
    assert(m.offered(offer).offers.remove(offer.offer_id) =~= m.offers);
}

/// Settling a slot changes its state and nothing else of it, and the last verdict
/// counts.
pub proof fn the_last_verdict_counts(
    m: MatchmakerView,
    id: Seq<char>,
    first: SlotState,
    first_verdict: Seq<char>,
    second: SlotState,
    second_verdict: Seq<char>,
)
    requires
        m.schedules.contains_key(id),
    ensures
        m.settled(id, first, first_verdict).settled(id, second, second_verdict).schedules
            == m.settled(id, second, second_verdict).schedules,
        m.settled(id, first, first_verdict).schedules[id] == (ScheduleSlotView {
            state: first,
            ..m.schedules[id]
        }),
{
    assert(m.settled(id, first, first_verdict).settled(id, second, second_verdict).schedules
        =~= m.settled(id, second, second_verdict).schedules);
}

/// An offer is read back as submitted until it expires, and is expired from then on.
pub proof fn an_offer_is_read_back_until_it_expires(
    m: MatchmakerView,
    offer: PeerOfferView,
    now: Timestamp,
)
    ensures
        m.offered(offer).offer_at(offer.offer_id, now) == if now.after(offer.expires_at) {
            Err::<PeerOfferView, MatchErrorView>(MatchErrorView::OfferExpired)
        } else {
            Ok::<PeerOfferView, MatchErrorView>(offer)
        },
        m.offered(offer).active_offers(now).contains_key(offer.offer_id) <==> !now.after(
            offer.expires_at,
        ),
{
}

/// What is found for a request is of another agent, for the same game, with skill levels
/// and times that meet: neither range starts above the end of the other, neither window
/// starts at or after the end of the other. Every stored request like that is found.
pub proof fn what_matches_a_request(
    m: MatchmakerView,
    id: Seq<char>,
    found: Seq<MatchRequestView>,
)
    requires
        m.wf(),
        m.requests.contains_key(id),
        lists(found, only(m.requests, |q: MatchRequestView| q.compatible(m.requests[id]))),
    ensures
        ({
            let t = m.requests[id];
            &&& forall|i: int|
                0 <= i < found.len() ==> {
                    &&& (#[trigger] found[i]).game == t.game
                    &&& found[i].agent_id != t.agent_id
                    &&& found[i].skill_range.min.at_most_spec(t.skill_range.max)
                    &&& t.skill_range.min.at_most_spec(found[i].skill_range.max)
                    &&& t.time_window.end.after(found[i].time_window.start)
                    &&& found[i].time_window.end.after(t.time_window.start)
                    &&& is_value(m.requests, found[i])
                }
            &&& forall|k: Seq<char>| #[trigger]
                m.requests.contains_key(k) && m.requests[k].game == t.game && m.requests[k].agent_id
                    != t.agent_id && m.requests[k].skill_range.min.at_most_spec(t.skill_range.max)
                    && t.skill_range.min.at_most_spec(m.requests[k].skill_range.max)
                    && t.time_window.end.after(m.requests[k].time_window.start)
                    && m.requests[k].time_window.end.after(t.time_window.start) ==> found.contains(
                    m.requests[k],
                )
        }),
{
    let t = m.requests[id];
    let keep = |q: MatchRequestView| q.compatible(t);
    a_selection_holds_what_is_kept(found, m.requests, keep);
    assert forall|i: int| 0 <= i < found.len() implies keep(#[trigger] found[i]) by {}
    assert forall|k: Seq<char>| #[trigger]
        m.requests.contains_key(k) && m.requests[k].game == t.game && m.requests[k].agent_id
            != t.agent_id && m.requests[k].skill_range.min.at_most_spec(t.skill_range.max)
            && t.skill_range.min.at_most_spec(m.requests[k].skill_range.max)
            && t.time_window.end.after(m.requests[k].time_window.start)
            && m.requests[k].time_window.end.after(t.time_window.start) implies found.contains(
        m.requests[k],
    ) by {
        assert(keep(m.requests[k]));
    }
}

/// Where both requests name proper ranges and windows, what is found has a skill level
/// and an instant in common with the request, and what has both is found.
pub proof fn matches_share_a_level_and_an_instant(
    m: MatchmakerView,
    id: Seq<char>,
    found: Seq<MatchRequestView>,
    k: Seq<char>,
)
    requires
        m.wf(),
        m.requests.contains_key(id),
        m.requests.contains_key(k),
        m.requests[id].skill_range.min.at_most_spec(m.requests[id].skill_range.max),
        m.requests[k].skill_range.min.at_most_spec(m.requests[k].skill_range.max),
        m.requests[id].time_window.end.after(m.requests[id].time_window.start),
        m.requests[k].time_window.end.after(m.requests[k].time_window.start),
        lists(found, only(m.requests, |q: MatchRequestView| q.compatible(m.requests[id]))),
    ensures
        ({
            let t = m.requests[id];
            let q = m.requests[k];
            found.contains(q) <==> q.game == t.game && q.agent_id != t.agent_id && (exists|
                s: Double,
            |
                #[trigger] q.skill_range.min.at_most_spec(s) && s.at_most_spec(q.skill_range.max)
                    && t.skill_range.min.at_most_spec(s) && s.at_most_spec(t.skill_range.max)) && (
            exists|x: Timestamp|
                !q.time_window.start.after(x) && #[trigger] q.time_window.end.after(x)
                    && !t.time_window.start.after(x) && t.time_window.end.after(x))
        }),
{
    let t = m.requests[id];
    let q = m.requests[k];
    what_matches_a_request(m, id, found);
    overlapping_ranges_share_a_level(q.skill_range, t.skill_range);
    overlapping_windows_share_an_instant(q.time_window, t.time_window);
    if found.contains(q) {
        let i = found.index_of(q);
        assert(found[i] == q);
    }
}

/// After a purge a request is stored exactly if it was and its window has not ended
/// before now, whenever it starts; an offer exactly if it was and has not expired before
/// now. What stays is unchanged, slots all stay, and nothing is announced.
pub proof fn a_purge_drops_exactly_the_expired(m: MatchmakerView, now: Timestamp, k: Seq<char>)
    ensures
        m.purged(now).requests.contains_key(k) <==> m.requests.contains_key(k) && !now.after(
            m.requests[k].time_window.end,
        ),
        m.purged(now).requests.contains_key(k) ==> m.purged(now).requests[k] == m.requests[k],
        m.purged(now).offers.contains_key(k) <==> m.offers.contains_key(k) && !now.after(
            m.offers[k].expires_at,
        ),
        m.purged(now).offers.contains_key(k) ==> m.purged(now).offers[k] == m.offers[k],
        m.purged(now).schedules == m.schedules,
        m.purged(now).log == m.log,
        m.purged(now).mesh_id == m.mesh_id,
        m.purged(now).channel == m.channel,
{
}

/// The active offers at `now` are exactly the stored ones that have not expired before
/// `now`, and these are the ones that a look at the offer gives.
pub proof fn active_offers_are_the_unexpired(
    m: MatchmakerView,
    now: Timestamp,
    found: Seq<PeerOfferView>,
    k: Seq<char>,
)
    requires
        m.offers.contains_key(k),
        lists(found, m.active_offers(now)),
    ensures
        found.contains(m.offers[k]) || now.after(m.offers[k].expires_at),
        forall|i: int|
            0 <= i < found.len() ==> !now.after((#[trigger] found[i]).expires_at) && is_value(
                m.offers,
                found[i],
            ),
        m.offer_at(k, now) is Ok <==> !now.after(m.offers[k].expires_at),
        m.offer_at(k, now) is Ok ==> m.offer_at(k, now)->Ok_0 == m.offers[k],
        m.offer_at(k, now) is Err ==> m.offer_at(k, now)->Err_0 == MatchErrorView::OfferExpired,
{
    let keep = |o: PeerOfferView| o.active_at(now);
    a_selection_holds_what_is_kept(found, m.offers, keep);
    assert forall|i: int| 0 <= i < found.len() implies keep(#[trigger] found[i]) by {}
    assert(keep(m.offers[k]) <==> !now.after(m.offers[k].expires_at));
}

/// A request, slot or offer is stored under its own id, replaces nothing else, and is
/// announced by one event.
pub proof fn submissions_are_stored_and_announced(
    m: MatchmakerView,
    request: MatchRequestView,
    slot: ScheduleSlotView,
    offer: PeerOfferView,
)
    ensures
        m.requested(request).requests == m.requests.insert(request.request_id, request),
        m.requested(request).schedules == m.schedules,
        m.requested(request).offers == m.offers,
        m.requested(request).log == m.log.push(
            EventView::PatchReady {
                mesh_id: m.mesh_id,
                description: request.agent_id + " submitted match request for "@ + request.game,
            },
        ),
        m.proposed(slot).schedules == m.schedules.insert(slot.schedule_id, slot),
        m.proposed(slot).requests == m.requests,
        m.proposed(slot).offers == m.offers,
        m.proposed(slot).log == m.log.push(
            EventView::PatchReady {
                mesh_id: m.mesh_id,
                description: slot.agent_id + " proposed schedule slot"@,
            },
        ),
        m.offered(offer).offers == m.offers.insert(offer.offer_id, offer),
        m.offered(offer).requests == m.requests,
        m.offered(offer).schedules == m.schedules,
        m.offered(offer).log == m.log.push(
            EventView::PatchReady {
                mesh_id: m.mesh_id,
                description: offer.from_agent + " submitted offer "@ + offer.offer_id,
            },
        ),
{
}

/// Settling a slot sets its state, keeps its times, agent and id, leaves the other slots,
/// and is announced by one event.
pub proof fn settling_concerns_one_slot(
    m: MatchmakerView,
    id: Seq<char>,
    state: SlotState,
    verdict: Seq<char>,
)
    requires
        m.schedules.contains_key(id),
    ensures
        ({
            let after = m.settled(id, state, verdict);
            let s = after.schedules[id];
            let before = m.schedules[id];
            &&& s == m.slot_in_state(id, state)
            &&& s.state == state
            &&& s.schedule_id == before.schedule_id
            &&& s.agent_id == before.agent_id
            &&& s.mesh_id == before.mesh_id
            &&& s.slot_start == before.slot_start
            &&& s.slot_end == before.slot_end
            &&& s.created_at == before.created_at
            &&& after.schedules.remove(id) == m.schedules.remove(id)
            &&& after.requests == m.requests
            &&& after.offers == m.offers
            &&& after.log == m.log.push(
                EventView::PatchReady {
                    mesh_id: m.mesh_id,
                    description: "schedule "@ + id + verdict,
                },
            )
        }),
{
    assert(m.settled(id, state, verdict).schedules.remove(id) =~= m.schedules.remove(id));
}

/// What the matchmaker stores is filed under its own id and belongs to the mesh.
pub proof fn what_is_stored_is_filed_by_id(m: MatchmakerView, k: Seq<char>)
    requires
        m.wf(),
    ensures
        m.requests.contains_key(k) ==> m.requests[k].request_id == k && m.requests[k].mesh_id
            == m.mesh_id,
        m.schedules.contains_key(k) ==> m.schedules[k].schedule_id == k && m.schedules[k].mesh_id
            == m.mesh_id,
        m.offers.contains_key(k) ==> m.offers[k].offer_id == k && m.offers[k].mesh_id == m.mesh_id,
{
}

} // verus!
