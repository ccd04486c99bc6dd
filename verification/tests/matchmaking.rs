use clawmesh::{
    Double, EventBus, MatchError, Matchmaker, SkillRange, SlotState, TimeWindow, Timestamp,
};

const HOUR: i64 = 3600;

fn make_matchmaker() -> Matchmaker {
    Matchmaker::new("mesh:golf-sim", EventBus::default())
}

fn level(x: f64) -> Double {
    Double { bits: x.to_bits() }
}

fn skill(min: f64, max: f64) -> SkillRange {
    SkillRange { min: level(min), max: level(max) }
}

fn later(t: Timestamp, secs: i64) -> Timestamp {
    Timestamp::new(t.secs() + secs, t.nanos()).unwrap()
}

fn window_from_now(hours: i64) -> TimeWindow {
    let start = Timestamp::now();
    TimeWindow { start, end: later(start, hours * HOUR) }
}

#[test]
fn submit_and_find_match() {
    let mut mm = make_matchmaker();
    let req_a =
        mm.submit_request("agent:alice", "golf-18", skill(50.0, 80.0), window_from_now(2));
    let _req_b = mm.submit_request("agent:bob", "golf-18", skill(60.0, 90.0), window_from_now(2));
    let matches = mm.find_matches(&req_a.request_id).unwrap();
    assert_eq!(matches.len(), 1);
    assert_eq!(matches[0].agent_id, "agent:bob");
}

#[test]
fn no_match_different_game() {
    let mut mm = make_matchmaker();
    let req_a =
        mm.submit_request("agent:alice", "golf-18", skill(50.0, 80.0), window_from_now(2));
    let _req_b = mm.submit_request("agent:bob", "golf-9", skill(60.0, 90.0), window_from_now(2));
    let matches = mm.find_matches(&req_a.request_id).unwrap();
    assert!(matches.is_empty());
}

#[test]
fn no_match_non_overlapping_skill() {
    let mut mm = make_matchmaker();
    let req_a =
        mm.submit_request("agent:alice", "golf-18", skill(10.0, 30.0), window_from_now(2));
    let _req_b = mm.submit_request("agent:bob", "golf-18", skill(60.0, 90.0), window_from_now(2));
    let matches = mm.find_matches(&req_a.request_id).unwrap();
    assert!(matches.is_empty());
}

#[test]
fn no_match_non_overlapping_time() {
    let mut mm = make_matchmaker();
    let window_now = window_from_now(1);
    let now = Timestamp::now();
    let window_later = TimeWindow { start: later(now, 3 * HOUR), end: later(now, 5 * HOUR) };
    let req_a = mm.submit_request("agent:alice", "golf-18", skill(50.0, 80.0), window_now);
    let _req_b = mm.submit_request("agent:bob", "golf-18", skill(60.0, 90.0), window_later);
    let matches = mm.find_matches(&req_a.request_id).unwrap();
    assert!(matches.is_empty());
}

#[test]
fn cancel_request() {
    let mut mm = make_matchmaker();
    let req = mm.submit_request("agent:alice", "golf-18", skill(50.0, 80.0), window_from_now(2));
    assert_eq!(mm.list_requests().len(), 1);
    mm.cancel_request(&req.request_id).unwrap();
    assert!(mm.list_requests().is_empty());
}

#[test]
fn requests_for_game() {
    let mut mm = make_matchmaker();
    mm.submit_request("agent:alice", "golf-18", skill(50.0, 80.0), window_from_now(2));
    mm.submit_request("agent:bob", "golf-9", skill(50.0, 80.0), window_from_now(2));
    mm.submit_request("agent:carol", "golf-18", skill(50.0, 80.0), window_from_now(2));
    let golf18 = mm.requests_for_game("golf-18");
    assert_eq!(golf18.len(), 2);
    let golf9 = mm.requests_for_game("golf-9");
    assert_eq!(golf9.len(), 1);
}

#[test]
fn schedule_lifecycle() {
    let mut mm = make_matchmaker();
    let start = later(Timestamp::now(), HOUR);
    let end = later(start, 2 * HOUR);
    let slot = mm.propose_slot("agent:alice", start, end);
    assert_eq!(slot.state, SlotState::Proposed);
    let confirmed = mm.confirm_slot(&slot.schedule_id).unwrap();
    assert_eq!(confirmed.state, SlotState::Confirmed);
}

#[test]
fn decline_slot() {
    let mut mm = make_matchmaker();
    let start = later(Timestamp::now(), HOUR);
    let end = later(start, 2 * HOUR);
    let slot = mm.propose_slot("agent:alice", start, end);
    let declined = mm.decline_slot(&slot.schedule_id).unwrap();
    assert_eq!(declined.state, SlotState::Declined);
}

#[test]
fn slots_for_agent() {
    let mut mm = make_matchmaker();
    let start = later(Timestamp::now(), HOUR);
    let end = later(start, 2 * HOUR);
    mm.propose_slot("agent:alice", start, end);
    mm.propose_slot("agent:alice", end, later(end, HOUR));
    mm.propose_slot("agent:bob", start, end);
    assert_eq!(mm.slots_for_agent("agent:alice").len(), 2);
    assert_eq!(mm.slots_for_agent("agent:bob").len(), 1);
}

#[test]
fn offer_lifecycle() {
    let mut mm = make_matchmaker();
    let expires = later(Timestamp::now(), 24 * HOUR);
    let offer = mm.submit_offer("agent:alice", "offer-1", "Join my golf round", expires);
    assert_eq!(offer.offer_id, "offer-1");
    let retrieved = mm.get_offer("offer-1").unwrap();
    assert_eq!(retrieved.summary, "Join my golf round");
    let active = mm.active_offers();
    assert_eq!(active.len(), 1);
    mm.withdraw_offer("offer-1").unwrap();
    assert!(mm.active_offers().is_empty());
}

#[test]
fn expired_offer_rejected() {
    let mut mm = make_matchmaker();
    let already_expired = later(Timestamp::now(), -HOUR);
    mm.submit_offer("agent:alice", "offer-old", "Old offer", already_expired);
    let result = mm.get_offer("offer-old");
    assert!(matches!(result, Err(MatchError::OfferExpired)));
}

#[test]
fn purge_expired() {
    let mut mm = make_matchmaker();
    let now = Timestamp::now();
    let expired_window = TimeWindow { start: later(now, -3 * HOUR), end: later(now, -HOUR) };
    mm.submit_request("agent:alice", "golf-18", skill(50.0, 80.0), expired_window);
    mm.submit_request("agent:bob", "golf-18", skill(50.0, 80.0), window_from_now(2));
    mm.submit_offer("agent:alice", "old", "expired", later(now, -HOUR));
    mm.submit_offer("agent:bob", "new", "valid", later(now, 24 * HOUR));
    mm.purge_expired();
    assert_eq!(mm.list_requests().len(), 1);
    assert_eq!(mm.active_offers().len(), 1);
}

#[test]
fn an_agent_does_not_match_itself() {
    let mut mm = make_matchmaker();
    let req = mm.submit_request("agent:alice", "golf-18", skill(50.0, 80.0), window_from_now(2));
    mm.submit_request("agent:alice", "golf-18", skill(50.0, 80.0), window_from_now(2));
    assert!(mm.find_matches(&req.request_id).unwrap().is_empty());
}

#[test]
fn matching_is_mutual() {
    let mut mm = make_matchmaker();
    let a = mm.submit_request("agent:alice", "g", skill(0.0, 50.0), window_from_now(2));
    let b = mm.submit_request("agent:bob", "g", skill(50.0, 90.0), window_from_now(2));
    assert_eq!(mm.find_matches(&a.request_id).unwrap()[0].request_id, b.request_id);
    assert_eq!(mm.find_matches(&b.request_id).unwrap()[0].request_id, a.request_id);
}

#[test]
fn skills_compare_as_numbers() {
    let numbers = [
        f64::NEG_INFINITY,
        -100.0,
        -1.5,
        -0.0,
        0.0,
        f64::MIN_POSITIVE,
        1.0,
        99.5,
        f64::MAX,
        f64::INFINITY,
        f64::NAN,
        -f64::NAN,
    ];
    for a in numbers {
        for b in numbers {
            assert_eq!(level(a).at_most(&level(b)), a <= b, "{a} {b}");
        }
    }
}

#[test]
fn windows_that_only_touch_do_not_match() {
    let mut mm = make_matchmaker();
    let t = |secs: i64| Timestamp::new(secs, 0).unwrap();
    let first = TimeWindow { start: t(0), end: t(10) };
    let second = TimeWindow { start: t(10), end: t(20) };
    let a = mm.submit_request("a", "g", skill(0.0, 1.0), first);
    mm.submit_request("b", "g", skill(0.0, 1.0), second);
    assert!(mm.find_matches(&a.request_id).unwrap().is_empty());
}

#[test]
fn expiry_is_inclusive() {
    let mut mm = make_matchmaker();
    let t = |secs: i64| Timestamp::new(secs, 0).unwrap();
    mm.submit_offer_at("a", "o", "s", t(10), t(0));
    assert!(mm.get_offer_at("o", t(10)).is_ok());
    assert_eq!(mm.active_offers_at(t(10)).len(), 1);
    assert!(matches!(mm.get_offer_at("o", t(11)), Err(MatchError::OfferExpired)));
    assert!(mm.active_offers_at(t(11)).is_empty());
    mm.purge_expired_at(t(10));
    assert!(mm.get_offer_at("o", t(10)).is_ok());
    mm.purge_expired_at(t(11));
    assert!(matches!(mm.get_offer_at("o", t(10)), Err(MatchError::OfferNotFound(_))));
}

#[test]
fn fresh_ids_differ() {
    let mut mm = make_matchmaker();
    let a = mm.submit_request("a", "g", skill(0.0, 1.0), window_from_now(1));
    let b = mm.submit_request("a", "g", skill(0.0, 1.0), window_from_now(1));
    assert_eq!(a.request_id.len(), 36);
    assert_ne!(a.request_id, b.request_id);
    assert_eq!(mm.requests_with_id(&a.request_id).len(), 1);
}

#[test]
fn unknown_ids_are_errors() {
    let mut mm = make_matchmaker();
    assert_eq!(mm.find_matches("x").unwrap_err().to_string(), "request not found: x");
    assert_eq!(mm.cancel_request("x").unwrap_err().to_string(), "request not found: x");
    assert_eq!(mm.confirm_slot("x").unwrap_err().to_string(), "schedule not found: x");
    assert_eq!(mm.decline_slot("x").unwrap_err().to_string(), "schedule not found: x");
    assert_eq!(mm.get_slot("x").unwrap_err().to_string(), "schedule not found: x");
    assert_eq!(mm.withdraw_offer("x").unwrap_err().to_string(), "offer not found: x");
    assert_eq!(mm.get_offer("x").unwrap_err().to_string(), "offer not found: x");
    assert_eq!(MatchError::OfferExpired.to_string(), "offer expired");
    assert_eq!(MatchError::NoMatchFound.to_string(), "no matching peers found");
}

#[test]
fn the_last_verdict_counts() {
    let mut mm = make_matchmaker();
    let t = Timestamp::new(0, 0).unwrap();
    mm.propose_slot_with("s".into(), "a", t, t, t);
    mm.confirm_slot("s").unwrap();
    mm.decline_slot("s").unwrap();
    assert_eq!(mm.get_slot("s").unwrap().state, SlotState::Declined);
    mm.confirm_slot("s").unwrap();
    assert_eq!(mm.get_slot("s").unwrap().state, SlotState::Confirmed);
    assert_eq!(mm.list_schedules().len(), 1);
}
