//! Instants of UTC.
use vstd::prelude::*;

verus! {

/// The first second of the calendar, in the year 262144 before our era.
pub const FIRST_SECOND: i64 = -8_334_601_228_800;

/// The last second of the calendar, in the year 262142 of our era.
pub const LAST_SECOND: i64 = 8_210_266_876_799;

/// The seconds are in the calendar, and the nanoseconds are less than a second, or
/// less than two in a second that a leap second can follow.
pub open spec fn in_calendar(secs: i64, nanos: u32) -> bool {
    &&& FIRST_SECOND <= secs <= LAST_SECOND
    &&& nanos < 2_000_000_000
    &&& nanos >= 1_000_000_000 ==> secs % 60 == 59
}

/// An instant of UTC: whole seconds since 1970-01-01T00:00:00Z and the
/// nanoseconds past them, which run past 999,999,999 during a leap second.
#[derive(Clone, Copy, Debug, PartialEq, Eq, Structural)]
pub struct Timestamp {
    secs: i64,
    nanos: u32,
}

impl View for Timestamp {
    type V = Timestamp;

    open spec fn view(&self) -> Timestamp {
        *self
    }
}

impl Timestamp {
    #[verifier::type_invariant]
    spec fn inv(self) -> bool {
        in_calendar(self.secs, self.nanos)
    }

    /// The whole seconds.
    pub closed spec fn secs_spec(self) -> i64 {
        self.secs
    }

    /// The nanoseconds past the whole seconds.
    pub closed spec fn nanos_spec(self) -> u32 {
        self.nanos
    }

    /// `self` is later than `other`.
    pub open spec fn after(self, other: Timestamp) -> bool {
        self.secs_spec() > other.secs_spec() || (self.secs_spec() == other.secs_spec()
            && self.nanos_spec() > other.nanos_spec())
    }

    /// The instant with these seconds and nanoseconds, if there is one.
    pub fn new(secs: i64, nanos: u32) -> (r: Option<Timestamp>)
        ensures
            r is Some <==> in_calendar(secs, nanos),
            r matches Some(t) ==> t.secs_spec() == secs && t.nanos_spec() == nanos,
    {
        if secs < FIRST_SECOND || secs > LAST_SECOND || nanos >= 2_000_000_000 {
            return None;
        }
        if nanos >= 1_000_000_000 {
            let since_first: i64 = secs - FIRST_SECOND;
            if since_first % 60 != 59 {
                assert(secs % 60 != 59);
                return None;
            }
        }
        Some(Timestamp { secs, nanos })
    }

    /// The whole seconds.
    pub fn secs(&self) -> (r: i64)
        ensures
            r == self.secs_spec(),
    {
        self.secs
    }

    /// The nanoseconds past the whole seconds.
    pub fn nanos(&self) -> (r: u32)
        ensures
            r == self.nanos_spec(),
    {
        self.nanos
    }

    /// Whether `self` is later than `other`.
    pub fn is_after(&self, other: &Timestamp) -> (r: bool)
        ensures
            r == self.after(*other),
    {
        self.secs > other.secs || (self.secs == other.secs && self.nanos > other.nanos)
    }

    /// The current instant.
    pub fn now() -> (r: Timestamp)
        ensures
            clock_reading(r),
    {
        utc_now()
    }

    /// The instant that a text names.
    pub fn parse(text: &str) -> (r: Option<Timestamp>)
        ensures
            r == parsed_time(text@),
    {
        let r = parse_utc(text);
        proof {
            if let Some(t) = r {
                lemma_from_parts(t);
            }
        }
        r
    }
}

/// The instant is one that the clock can show: not before 1970, in no leap second.
pub open spec fn clock_reading(t: Timestamp) -> bool {
    t.secs_spec() >= 0 && t.nanos_spec() < 1_000_000_000
}

/// The instant with these seconds and nanoseconds.
pub closed spec fn from_parts(secs: i64, nanos: u32) -> Timestamp {
    Timestamp { secs, nanos }
}

/// An instant is made of its seconds and nanoseconds.
pub proof fn lemma_from_parts(t: Timestamp)
    ensures
        from_parts(t.secs_spec(), t.nanos_spec()) == t,
{
}

/// The instant that a text names.
pub open spec fn parsed_time(text: Seq<char>) -> Option<Timestamp> {
    match utc_time(text) {
        Some((secs, nanos)) => Some(from_parts(secs, nanos)),
        None => None,
    }
}

/// The seconds and nanoseconds of the instant that a text in a relaxed form of
/// RFC 3339 names; `None` where it names none.
pub uninterp spec fn utc_time(text: Seq<char>) -> Option<(i64, u32)>;

/// The RFC 3339 text, with offset zero, of the instant with these seconds and
/// nanoseconds.
pub uninterp spec fn rfc3339_text(secs: i64, nanos: u32) -> Seq<char>;

/// `chrono::Utc::now`. The clock decides, so all that is claimed is that it is not
/// before 1970 and in no leap second. It panics where the clock is before 1970.
#[verifier::external_body]
fn utc_now() -> (r: Timestamp)
    ensures
        clock_reading(r),
{
    let t = chrono::Utc::now();
    Timestamp { secs: t.timestamp(), nanos: t.timestamp_subsec_nanos() }
}

/// `str::parse` into `chrono::DateTime<chrono::Utc>`: the named instant.
#[verifier::external_body]
fn parse_utc(text: &str) -> (r: Option<Timestamp>)
    ensures
        match r {
            Some(t) => utc_time(text@) == Some((t.secs_spec(), t.nanos_spec())),
            None => utc_time(text@) is None,
        },
{
    let t = text.parse::<chrono::DateTime<chrono::Utc>>().ok()?;
    Some(Timestamp { secs: t.timestamp(), nanos: t.timestamp_subsec_nanos() })
}

/// `chrono::DateTime::to_rfc3339` of the instant: the named text. An instant in the
/// calendar is one of `chrono`, so the conversion into it does not fail.
#[verifier::external_body]
pub(crate) fn rfc3339(t: Timestamp) -> (r: String)
    ensures
        r@ == rfc3339_text(t.secs_spec(), t.nanos_spec()),
{
    chrono::DateTime::from_timestamp(t.secs, t.nanos).unwrap().to_rfc3339()
}

/// Of two different instants exactly one is later, being later is transitive, and
/// no instant is later than itself.
pub proof fn time_order_is_total(a: Timestamp, b: Timestamp, c: Timestamp)
    ensures
        !a.after(a),
        !(a.after(b) && b.after(a)),
        a != b ==> a.after(b) || b.after(a),
        a.after(b) && b.after(c) ==> a.after(c),
{
}

/// One instant is later than another exactly if, counted as seconds times a number that
/// no count of nanoseconds reaches, plus nanoseconds, it comes to more.
pub proof fn later_means_more_seconds_then_more_nanoseconds(a: Timestamp, b: Timestamp)
    ensures
        a.after(b) <==> a.secs_spec() * 4_294_967_296 + a.nanos_spec() > b.secs_spec()
            * 4_294_967_296 + b.nanos_spec(),
{
}

/// Every second of the calendar has its thousand million ordinary nanoseconds; further
/// ones belong to the last second of a minute.
pub proof fn the_calendar_has_all_ordinary_instants(secs: i64, nanos: u32)
    ensures
        -8_334_601_228_800 <= secs <= 8_210_266_876_799 && nanos < 1_000_000_000 ==> in_calendar(
            secs,
            nanos,
        ),
        in_calendar(secs, nanos) ==> -8_334_601_228_800 <= secs <= 8_210_266_876_799,
        in_calendar(secs, nanos) && nanos >= 1_000_000_000 ==> (secs + 1) % 60 == 0 && nanos
            < 2_000_000_000,
{
}

} // verus!
