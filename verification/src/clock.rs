//! Durations, the clocks, and points in time.
use std::time::Duration;
use std::time::SystemTime;
use std::time::SystemTimeError;

use chrono::DateTime;
use chrono::TimeDelta;
use chrono::Utc;
use vstd::prelude::*;

use crate::outside::clock_showed;
use crate::outside::system_clock_gave;
use crate::text::decimal;
use crate::text::push_decimal;
use crate::text::push_text;

verus! {

/// The whole seconds of a duration.
pub uninterp spec fn duration_secs(d: Duration) -> u64;

/// The nanoseconds of a duration beyond its whole seconds.
pub uninterp spec fn duration_nanos(d: Duration) -> u32;

/// `Duration::from_secs` makes a duration of whole seconds.
pub assume_specification[ Duration::from_secs ](secs: u64) -> (r: Duration)
    ensures
        duration_secs(r) == secs,
        duration_nanos(r) == 0,
;

/// `Duration::as_secs` gives the whole seconds.
pub assume_specification[ Duration::as_secs ](d: &Duration) -> (r: u64)
    ensures
        r == duration_secs(*d),
;

/// `std::time::SystemTime`, a reading of the system clock.
#[verifier::external_type_specification]
#[verifier::external_body]
pub struct ExSystemTime(std::time::SystemTime);

/// `std::time::SystemTimeError`, how far a reading lies before the one it is measured from.
#[verifier::external_type_specification]
#[verifier::external_body]
pub struct ExSystemTimeError(std::time::SystemTimeError);

/// `SystemTime::now` reads the system clock. What it gives is a reading of it.
pub assume_specification[ SystemTime::now ]() -> (r: SystemTime)
    ensures
        system_clock_gave(r),
;

/// How long after the start of 1970 a reading of the system clock lies, unless it lies before.
pub uninterp spec fn time_since_epoch(t: SystemTime) -> Option<Duration>;

/// The duration, if there is one.
pub open spec fn elapsed(r: Result<Duration, SystemTimeError>) -> Option<Duration> {
    match r {
        Ok(d) => Some(d),
        Err(_) => None,
    }
}

/// Calls `SystemTime::duration_since` with the start of 1970. It fails where the reading lies
/// before that.
#[verifier::external_body]
fn since_epoch(t: SystemTime) -> (r: Result<Duration, SystemTimeError>)
    ensures
        elapsed(r) == time_since_epoch(t),
{
    t.duration_since(std::time::UNIX_EPOCH)
}

/// The seconds since the start of 1970 at a reading of the system clock, unless it lies before.
pub fn seconds_since_epoch(t: SystemTime) -> (r: Option<u64>)
    ensures
        match time_since_epoch(t) {
            Some(d) => r == Some(duration_secs(d)),
            None => r is None,
        },
{
    match since_epoch(t) {
        Ok(d) => Some(d.as_secs()),
        Err(_) => None,
    }
}

/// The first second of the calendar: the start of the year -262143.
pub const FIRST_SECOND: i64 = -8_334_601_228_800;

/// The last second of the calendar: the end of the year 262142.
pub const LAST_SECOND: i64 = 8_210_266_876_799;

/// A point in time: seconds since the start of 1970 in UTC and nanoseconds. In a leap second the
/// nanoseconds run on to two seconds.
#[derive(Clone, Copy, Debug, PartialEq, Eq, Structural)]
pub struct Timestamp {
    secs: i64,
    nanos: u32,
}

/// The seconds and nanoseconds of a point in time.
#[verifier::ext_equal]
pub struct TimestampView {
    pub secs: int,
    pub nanos: int,
}

impl View for Timestamp {
    type V = TimestampView;

    closed spec fn view(&self) -> TimestampView {
        TimestampView { secs: self.secs as int, nanos: self.nanos as int }
    }
}

/// The point lies in the calendar, and only the last second of a minute runs on into a leap
/// second.
pub open spec fn valid_timestamp(t: TimestampView) -> bool {
    &&& FIRST_SECOND <= t.secs <= LAST_SECOND
    &&& 0 <= t.nanos < 2_000_000_000
    &&& t.nanos >= 1_000_000_000 ==> t.secs % 60 == 59
}

/// The clock may show this point: one of the calendar, not before 1970 and no leap second.
pub open spec fn valid_reading(t: TimestampView) -> bool {
    valid_timestamp(t) && 0 <= t.secs && t.nanos < 1_000_000_000
}

/// `a` is earlier than `b`.
pub open spec fn earlier(a: TimestampView, b: TimestampView) -> bool {
    a.secs < b.secs || (a.secs == b.secs && a.nanos < b.nanos)
}

/// `chrono::TimeDelta`, a signed span of time.
#[verifier::external_type_specification]
#[verifier::external_body]
pub struct ExTimeDelta(chrono::TimeDelta);

/// The nanoseconds that a `chrono::TimeDelta` spans.
pub uninterp spec fn span_nanos(d: TimeDelta) -> int;

/// The nanoseconds of a duration.
pub open spec fn duration_span(d: Duration) -> int {
    duration_secs(d) * 1_000_000_000 + duration_nanos(d)
}

/// The longest span, in nanoseconds.
pub open spec fn longest_span() -> int {
    i64::MAX * 1_000_000
}

/// The message about a duration that is longer than any span.
pub open spec fn too_long_message() -> Seq<char> {
    "Source duration value is out of range for the target type"@
}

/// Calls `chrono::TimeDelta::from_std`, which keeps the span of a duration and refuses one longer
/// than the largest number of milliseconds in 64 bits, always with the same message.
#[verifier::external_body]
fn span_of(d: Duration) -> (r: Result<TimeDelta, String>)
    ensures
        r is Ok <==> duration_span(d) <= longest_span(),
        r matches Ok(span) ==> span_nanos(span) == duration_span(d),
        r matches Err(message) ==> message@ == too_long_message(),
{
    TimeDelta::from_std(d).map_err(|e| e.to_string())
}

/// The point that lies `span` nanoseconds after `t`, for a span that is not negative. Within a
/// leap second the nanoseconds run on; a sum that leaves it counts the leap second and the second
/// before it as one.
pub open spec fn time_after(t: TimestampView, span: int) -> TimestampView {
    if t.nanos >= 1_000_000_000 && t.nanos + span < 2_000_000_000 {
        TimestampView { secs: t.secs, nanos: t.nanos + span }
    } else {
        let nanos = t.nanos % 1_000_000_000 + span;
        TimestampView { secs: t.secs + nanos / 1_000_000_000, nanos: nanos % 1_000_000_000 }
    }
}

/// Calls `chrono::DateTime::checked_add_signed`, which adds a span to a point in time where the
/// sum lies in the calendar.
#[verifier::external_body]
fn checked_sum(t: Timestamp, span: TimeDelta) -> (r: Option<Timestamp>)
    requires
        span_nanos(span) >= 0,
    ensures
        r is Some <==> time_after(t@, span_nanos(span)).secs <= LAST_SECOND,
        r matches Some(sum) ==> sum@ == time_after(t@, span_nanos(span)),
{
    let from = DateTime::from_timestamp(t.secs, t.nanos).unwrap_or_default();
    let sum = from.checked_add_signed(span)?;
    Some(Timestamp { secs: sum.timestamp(), nanos: sum.timestamp_subsec_nanos() })
}

/// The text that `chrono::DateTime::to_rfc3339` writes for a point in time.
pub uninterp spec fn rfc3339_text(t: TimestampView) -> Seq<char>;

/// Calls `chrono::DateTime::to_rfc3339`, whose text depends on the point in time alone.
#[verifier::external_body]
fn write_rfc3339(t: Timestamp) -> (r: String)
    ensures
        r@ == rfc3339_text(t@),
{
    DateTime::from_timestamp(t.secs, t.nanos).unwrap_or_default().to_rfc3339()
}

/// Calls `chrono::Utc::now`, which reads the clock and never gives a leap second. What it gives is
/// what the clock showed. The clock must stand at 1970 or later.
#[verifier::external_body]
fn read_clock() -> (r: Timestamp)
    ensures
        clock_showed(r@),
        0 <= r@.secs,
        r@.nanos < 1_000_000_000,
{
    let now = Utc::now();
    Timestamp { secs: now.timestamp(), nanos: now.timestamp_subsec_nanos() }
}

/// What comes of adding a duration to a point in time.
pub enum Sum {
    /// The sum.
    At(Timestamp),
    /// The duration is longer than any span, with a message about it.
    TooLong(String),
    /// The sum lies outside the calendar.
    OutOfCalendar,
}

impl Timestamp {
    #[verifier::type_invariant]
    spec fn valid(self) -> bool {
        valid_timestamp(self@)
    }

    /// The point in time with these seconds and nanoseconds, if the calendar has it.
    pub fn new(secs: i64, nanos: u32) -> (r: Option<Timestamp>)
        ensures
            r is Some <==> valid_timestamp(
                (TimestampView { secs: secs as int, nanos: nanos as int }),
            ),
            r matches Some(t) ==> t@ == (TimestampView { secs: secs as int, nanos: nanos as int }),
    {
        if secs < FIRST_SECOND || secs > LAST_SECOND || nanos >= 2_000_000_000 {
            return None;
        }
        if nanos >= 1_000_000_000 {
            let in_minute: i64 = if secs >= 0 {
                secs % 60
            } else {
                59 - (-(secs + 1)) % 60
            };
            assert(in_minute == secs as int % 60);
            if in_minute != 59 {
                return None;
            }
        }
        Some(Timestamp { secs, nanos })
    }

    /// Reads the clock.
    pub fn now() -> (r: Timestamp)
        ensures
            clock_showed(r@),
            valid_reading(r@),
    {
        let now: Timestamp = read_clock();
        proof {
            use_type_invariant(now);
        }
        now
    }

    /// The seconds since the start of 1970.
    pub fn timestamp(&self) -> (r: i64)
        ensures
            r == self@.secs,
    {
        self.secs
    }

    /// The nanoseconds, beyond a second only in a leap second.
    pub fn subsec_nanos(&self) -> (r: u32)
        ensures
            r == self@.nanos,
    {
        self.nanos
    }

    /// Whether this point is earlier than `other`.
    pub fn before(&self, other: &Timestamp) -> (r: bool)
        ensures
            r == earlier(self@, other@),
    {
        self.secs < other.secs || (self.secs == other.secs && self.nanos < other.nanos)
    }

    /// The point that lies `d` later.
    pub fn plus(&self, d: Duration) -> (r: Sum)
        ensures
            match r {
                Sum::At(sum) => {
                    &&& duration_span(d) <= longest_span()
                    &&& sum@ == time_after(self@, duration_span(d))
                    &&& sum@.secs <= LAST_SECOND
                },
                Sum::TooLong(message) => {
                    &&& duration_span(d) > longest_span()
                    &&& message@ == too_long_message()
                },
                Sum::OutOfCalendar => {
                    &&& duration_span(d) <= longest_span()
                    &&& time_after(self@, duration_span(d)).secs > LAST_SECOND
                },
            },
    {
        match span_of(d) {
            Ok(span) => match checked_sum(*self, span) {
                Some(sum) => Sum::At(sum),
                None => Sum::OutOfCalendar,
            },
            Err(message) => Sum::TooLong(message),
        }
    }

    /// The date and time as RFC 3339 text.
    pub fn to_rfc3339(&self) -> (r: String)
        ensures
            r@ == rfc3339_text(self@),
    {
        write_rfc3339(*self)
    }
}

/// A number of seconds in hours, minutes and seconds. Seconds beyond whole hours without whole
/// minutes are left out.
pub open spec fn humanized(secs: nat) -> Seq<char> {
    let h = secs / 3600;
    let m = secs % 3600 / 60;
    let s = secs % 60;
    if h > 0 && m > 0 {
        decimal(h) + "h"@ + decimal(m) + "m"@ + decimal(s) + "s"@
    } else if h > 0 {
        decimal(h) + "h0m0s"@
    } else if m > 0 {
        decimal(m) + "m"@ + decimal(s) + "s"@
    } else {
        decimal(s) + "s"@
    }
}

/// Writes a duration in hours, minutes and seconds.
pub fn humanize_duration(d: Duration) -> (r: String)
    ensures
        r@ == humanized(duration_secs(d) as nat),
{
    let total: u64 = d.as_secs();
    let hours: u64 = total / 3600;
    let mins: u64 = (total % 3600) / 60;
    let secs: u64 = total % 60;
    let mut r = String::new();
    assert(r@ =~= Seq::<char>::empty());
    if hours > 0 && mins > 0 {
        push_decimal(&mut r, hours);
        push_text(&mut r, "h");
        push_decimal(&mut r, mins);
        push_text(&mut r, "m");
        push_decimal(&mut r, secs);
        push_text(&mut r, "s");
    } else if hours > 0 {
        push_decimal(&mut r, hours);
        push_text(&mut r, "h0m0s");
    } else if mins > 0 {
        push_decimal(&mut r, mins);
        push_text(&mut r, "m");
        push_decimal(&mut r, secs);
        push_text(&mut r, "s");
    } else {
        push_decimal(&mut r, secs);
        push_text(&mut r, "s");
    }
    assert(r@ =~= humanized(total as nat));
    r
}

} // verus!
