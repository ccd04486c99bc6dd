use clawmesh::text::{decimal, is_after};
use clawmesh::Timestamp;

#[test]
fn instants_of_the_calendar() {
    assert!(Timestamp::new(0, 999_999_999).is_some());
    assert!(Timestamp::new(0, 1_000_000_000).is_none());
    assert!(Timestamp::new(59, 1_999_999_999).is_some());
    assert!(Timestamp::new(-1, 1_000_000_000).is_some());
    assert!(Timestamp::new(59, 2_000_000_000).is_none());
    for (secs, nanos) in [
        (8_210_266_876_799i64, 0u32),
        (8_210_266_876_800, 0),
        (-8_334_601_228_800, 0),
        (-8_334_601_228_801, 0),
        (59, 1_500_000_000),
        (60, 1_500_000_000),
        (-61, 1_500_000_000),
    ] {
        let theirs = chrono::DateTime::from_timestamp(secs, nanos);
        assert_eq!(Timestamp::new(secs, nanos).is_some(), theirs.is_some(), "{secs} {nanos}");
    }
}

#[test]
fn texts_name_instants() {
    let t = Timestamp::parse("2026-02-20T14:00:00Z").unwrap();
    assert_eq!(t.secs(), 1_771_596_000);
    assert_eq!(t.nanos(), 0);
    let u = Timestamp::parse("2026-02-20T16:00:00.25+02:00").unwrap();
    assert_eq!(u.secs(), t.secs());
    assert_eq!(u.nanos(), 250_000_000);
    assert!(u.is_after(&t));
    assert!(!t.is_after(&u));
    assert!(!t.is_after(&t));
    assert!(Timestamp::parse("yesterday").is_none());
    assert!(Timestamp::now().is_after(&t) || !Timestamp::now().is_after(&t));
}

#[test]
fn the_clock_moves_on() {
    let first = Timestamp::now();
    let theirs = chrono::Utc::now().timestamp();
    let second = Timestamp::now();
    assert!(first.secs() <= theirs && theirs <= second.secs());
}

#[test]
fn numerals_are_decimal() {
    for n in [0u64, 7, 10, 99, 100, 12345, u64::MAX] {
        assert_eq!(decimal(n), format!("{n}"));
    }
}

#[test]
fn texts_are_ordered_by_their_bytes() {
    let texts = ["", "a", "aa", "ab", "agent:alice", "agent:bob", "b", "z", "é", "€", "😀"];
    for a in texts {
        for b in texts {
            assert_eq!(is_after(a, b), a > b, "{a} {b}");
        }
    }
}
