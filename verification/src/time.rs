//! Points in time.
use chrono::{DateTime, Utc};
use vstd::prelude::*;

verus! {

/// The RFC 3339 text of a point in time in UTC, given as seconds since the
/// beginning of 1970 and nanoseconds; `None` where chrono knows no such point.
pub uninterp spec fn rfc3339(secs: i64, nanos: u32) -> Option<Seq<char>>;

/// Calls `chrono::DateTime::<Utc>::from_timestamp` and, on the point in time
/// that it returns, `DateTime::to_rfc3339`. The result is a function of the
/// two numbers alone; which text it is, is left to chrono.
#[verifier::external_body]
fn utc_rfc3339(secs: i64, nanos: u32) -> (text: Option<String>)
    ensures
        text matches Some(t) ==> rfc3339(secs, nanos) == Some(t@),
        text is None ==> rfc3339(secs, nanos) is None,
{
    DateTime::<Utc>::from_timestamp(secs, nanos).map(|at| at.to_rfc3339())
}

/// Calls `chrono::Utc::now`, and `DateTime::timestamp`,
/// `DateTime::timestamp_subsec_nanos` and `DateTime::to_rfc3339` on the point
/// in time that it returns. Which point that is depends on the clock; the
/// text is that of the two numbers.
#[verifier::external_body]
fn utc_now() -> (now: (i64, u32, String))
    ensures
        rfc3339(now.0, now.1) == Some(now.2@),
{
    let now = Utc::now();
    (now.timestamp(), now.timestamp_subsec_nanos(), now.to_rfc3339())
}

/// Calls a function, and says that what is returned is what it returned.
pub fn called<A, F: Fn() -> A>(f: F) -> (res: A)
    requires
        call_requires(f, ()),
    ensures
        call_ensures(f, (), res),
{
    f()
}

/// A point in time in UTC.
#[derive(Debug)]
pub struct Timestamp {
    secs: i64,
    nanos: u32,
    text: String,
}

/// What a [`Timestamp`] stands for.
pub struct TimestampView {
    pub secs: i64,
    pub nanos: u32,
}

impl TimestampView {
    /// The point in time as RFC 3339 writes it.
    pub open spec fn text(self) -> Seq<char> {
        rfc3339(self.secs, self.nanos)->0
    }

    /// Whether this is a point in time that the clock of the system gave.
    pub closed spec fn is_read_off_the_clock(self) -> bool {
        exists|reading: (i64, u32, String)| #[trigger]
            call_ensures(utc_now, (), reading) && reading.0 == self.secs && reading.1 == self.nanos
    }

    /// Whether this point in time is later than the other.
    pub open spec fn after(self, other: TimestampView) -> bool {
        self.secs > other.secs || (self.secs == other.secs && self.nanos > other.nanos)
    }
}

impl View for Timestamp {
    type V = TimestampView;

    closed spec fn view(&self) -> TimestampView {
        TimestampView { secs: self.secs, nanos: self.nanos }
    }
}

impl Clone for Timestamp {
    fn clone(&self) -> (res: Timestamp)
        ensures
            res@ == self@,
    {
        proof {
            use_type_invariant(self);
        }
        Timestamp { secs: self.secs, nanos: self.nanos, text: self.text.clone() }
    }
}

impl Timestamp {
    #[verifier::type_invariant]
    spec fn is_written(self) -> bool {
        rfc3339(self.secs, self.nanos) == Some(self.text@)
    }

    /// The point in time at the given number of seconds since the beginning
    /// of 1970, and nanoseconds; `None` where there is no such point.
    pub fn new(secs: i64, nanos: u32) -> (res: Option<Timestamp>)
        ensures
            res is Some <==> rfc3339(secs, nanos) is Some,
            res matches Some(at) ==> at@ == (TimestampView { secs, nanos }),
    {
        match utc_rfc3339(secs, nanos) {
            Some(text) => Some(Timestamp { secs, nanos, text }),
            None => None,
        }
    }

    /// The present, by the clock of the system.
    pub fn now() -> (at: Timestamp)
        ensures
            rfc3339(at@.secs, at@.nanos) is Some,
            at@.is_read_off_the_clock(),
    {
        let (secs, nanos, text) = called(utc_now);
        Timestamp { secs, nanos, text }
    }

    /// Seconds since the beginning of 1970.
    pub fn secs(&self) -> (secs: i64)
        ensures
            secs == self@.secs,
    {
        self.secs
    }

    /// Nanoseconds into the second.
    pub fn nanos(&self) -> (nanos: u32)
        ensures
            nanos == self@.nanos,
    {
        self.nanos
    }

    /// Writes the point in time as RFC 3339 does.
    pub fn to_rfc3339(&self) -> (text: String)
        ensures
            text@ == self@.text(),
    {
        proof {
            use_type_invariant(self);
        }
        self.text.clone()
    }

    /// Decides whether this point in time is later than the other.
    pub fn after(&self, other: &Timestamp) -> (res: bool)
        ensures
            res == self@.after(other@),
    {
        self.secs > other.secs || (self.secs == other.secs && self.nanos > other.nanos)
    }
}

/// A point in time is made where chrono knows it, and tells its seconds, its
/// nanoseconds, its text, and which of two points is the later.
pub proof fn points_in_time_tell_what_they_are(
    secs: i64,
    nanos: u32,
    made: Option<Timestamp>,
    at: &Timestamp,
    other: &Timestamp,
    text: String,
    res: bool,
)
    ensures
        call_ensures(Timestamp::new, (secs, nanos), made) ==> (made is Some <==> rfc3339(
            secs,
            nanos,
        ) is Some) && (made is Some ==> made->0@.secs == secs && made->0@.nanos == nanos),
        call_ensures(Timestamp::secs, (at,), secs) ==> secs == at@.secs,
        call_ensures(Timestamp::nanos, (at,), nanos) ==> nanos == at@.nanos,
        call_ensures(Timestamp::to_rfc3339, (at,), text) ==> text@ == rfc3339(
            at@.secs,
            at@.nanos,
        )->0,
        call_ensures(Timestamp::after, (at, other), res) ==> (res <==> at@.secs > other@.secs || (
        at@.secs == other@.secs && at@.nanos > other@.nanos)),
{
}

/// The present is what the clock of the system gives.
pub proof fn the_present_is_read_off_the_clock(at: Timestamp)
    requires
        call_ensures(Timestamp::now, (), at),
    ensures
        at@.is_read_off_the_clock(),
{
}

/// A point in time that the clock gave is one that chrono's clock returned,
/// to the nanosecond.
proof fn clock_readings_are_returned_by_the_clock(at: TimestampView)
    requires
        at.is_read_off_the_clock(),
    ensures
        exists|reading: (i64, u32, String)| #[trigger]
            call_ensures(utc_now, (), reading) && reading.0 == at.secs && reading.1 == at.nanos,
{
}

} // verus!
