//! Instants and spans in whole values, their texts, and the two rules of
//! time that the bridge follows: which window the daily statistics cover,
//! and when a cadence fires next.

use crate::text::decimal;
use vstd::prelude::*;

verus! {

pub const SECONDS_PER_DAY: i64 = 86_400;

pub const SECONDS_PER_HOUR: i64 = 3_600;

pub const NANOS_PER_SECOND: u32 = 1_000_000_000;

/// The first second of the year 10000, counted from the epoch.
pub const YEAR_10000: i64 = 253_402_300_800;

/// The largest number of whole seconds that a span's text can be asked for.
pub const MAX_SPAN_SECONDS: i64 = 9_223_372_036_854_775;

/// An instant in UTC: whole seconds since 1970-01-01T00:00:00Z and the
/// nanoseconds into that second. During a leap second the nanoseconds run
/// on beyond a full second, as the calendar library counts them.
#[derive(Clone, Copy, Debug, PartialEq, Eq, Structural)]
pub struct Timestamp {
    pub secs: i64,
    pub nanos: u32,
}

/// A span of whole seconds.
#[derive(Clone, Copy, Debug, PartialEq, Eq, Structural)]
pub struct TimeSpan {
    pub secs: i64,
}

/// The window that a statistics query covers.
#[derive(Clone, Copy, Debug, PartialEq, Eq, Structural)]
pub struct Window {
    pub start: Timestamp,
    pub span: TimeSpan,
}

/// The RFC 3339 text of an instant, as `chrono` writes it.
pub uninterp spec fn rfc3339_text(secs: i64, nanos: u32) -> Seq<char>;

/// The ISO 8601 text of a span of whole seconds: `P0D` for nothing, else
/// `PT<seconds>S`, with a leading `-` for a negative span.
pub open spec fn span_text(secs: int) -> Seq<char> {
    if secs == 0 {
        "P0D"@
    } else if secs > 0 {
        "PT"@ + decimal(secs as nat) + "S"@
    } else {
        "-PT"@ + decimal((-secs) as nat) + "S"@
    }
}

/// `chrono::DateTime::<Utc>::from_timestamp` followed by `to_rfc3339`.
/// The text is named, not described. An instant from 1970 up to the end of
/// the year 9999 with less than a second of nanoseconds always has one;
/// outside of that `chrono` may refuse the instant.
#[verifier::external_body]
fn chrono_rfc3339(secs: i64, nanos: u32) -> (r: Option<String>)
    ensures
        r matches Some(s) ==> s@ == rfc3339_text(secs, nanos),
        0 <= secs < YEAR_10000 && nanos < NANOS_PER_SECOND ==> r is Some,
{
    match chrono::DateTime::from_timestamp(secs, nanos) {
        Some(instant) => Some(instant.to_rfc3339()),
        None => None,
    }
}

/// `chrono::TimeDelta::try_seconds` followed by `TimeDelta`'s `Display`.
/// `chrono` holds spans of up to `i64::MAX` milliseconds either way and
/// refuses longer ones; it writes whole seconds as `span_text` says.
#[verifier::external_body]
fn chrono_span_text(secs: i64) -> (r: Option<String>)
    ensures
        r is Some <==> -MAX_SPAN_SECONDS <= secs <= MAX_SPAN_SECONDS,
        r matches Some(s) ==> s@ == span_text(secs as int),
{
    match chrono::TimeDelta::try_seconds(secs) {
        Some(span) => Some(span.to_string()),
        None => None,
    }
}

impl Timestamp {
    /// The seconds that have passed since the last midnight in UTC.
    pub open spec fn seconds_of_day(self) -> int {
        self.secs as int % SECONDS_PER_DAY as int
    }

    /// The instant as one count of nanoseconds since the epoch.
    pub open spec fn total_nanos(self) -> int {
        self.secs as int * NANOS_PER_SECOND as int + self.nanos as int
    }

    /// `self` is not before `other`.
    pub open spec fn not_before(self, other: Timestamp) -> bool {
        self.total_nanos() >= other.total_nanos()
    }

    /// The seconds that have passed since the last midnight in UTC.
    pub fn since_midnight(&self) -> (r: i64)
        ensures
            r == self.seconds_of_day(),
            0 <= r < SECONDS_PER_DAY,
    {
        if self.secs >= 0 {
            self.secs % SECONDS_PER_DAY
        } else {
            let back: i64 = (-(self.secs + 1)) % SECONDS_PER_DAY;
            SECONDS_PER_DAY - 1 - back
        }
    }

    /// Tells whether `self` is not before `other`.
    pub fn is_not_before(&self, other: &Timestamp) -> (r: bool)
        ensures
            r == self.not_before(*other),
    {
        let mine: i128 = self.secs as i128 * 1_000_000_000 + self.nanos as i128;
        let theirs: i128 = other.secs as i128 * 1_000_000_000 + other.nanos as i128;
        mine >= theirs
    }

    /// The RFC 3339 text of the instant, such as `2024-01-15T12:30:45+00:00`,
    /// or `None` for an instant that the calendar library refuses.
    pub fn to_rfc3339(&self) -> (r: Option<String>)
        ensures
            r matches Some(s) ==> s@ == rfc3339_text(self.secs, self.nanos),
            0 <= self.secs < YEAR_10000 && self.nanos < NANOS_PER_SECOND ==> r is Some,
    {
        chrono_rfc3339(self.secs, self.nanos)
    }
}

impl TimeSpan {
    /// The ISO 8601 text of the span, or `None` for a span of more than
    /// `i64::MAX` milliseconds.
    pub fn to_text(&self) -> (r: Option<String>)
        ensures
            r is Some <==> -MAX_SPAN_SECONDS <= self.secs <= MAX_SPAN_SECONDS,
            r matches Some(s) ==> s@ == span_text(self.secs as int),
    {
        chrono_span_text(self.secs)
    }
}

/// The window of the daily statistics at `now`.
///
/// While less than one statistics interval of today has passed, today's
/// window is too short to say anything: the window is then the last hour
/// of yesterday. Otherwise it runs from today's midnight up to the second
/// of `now`. Either way it starts on a whole second.
pub open spec fn statistics_window(now: Timestamp, interval: TimeSpan) -> Window {
    let elapsed = now.seconds_of_day();
    let midnight = now.secs - elapsed;
    if elapsed < interval.secs {
        Window {
            start: Timestamp { secs: (midnight - SECONDS_PER_HOUR) as i64, nanos: 0 },
            span: TimeSpan { secs: SECONDS_PER_HOUR },
        }
    } else {
        Window {
            start: Timestamp { secs: midnight as i64, nanos: 0 },
            span: TimeSpan { secs: elapsed as i64 },
        }
    }
}

/// Chooses the window of the daily statistics at `now`.
pub fn daily_window(now: Timestamp, interval: TimeSpan) -> (w: Window)
    requires
        now.secs >= i64::MIN + SECONDS_PER_DAY + SECONDS_PER_HOUR,
    ensures
        w == statistics_window(now, interval),
{
    let elapsed = now.since_midnight();
    let midnight = now.secs - elapsed;
    if elapsed < interval.secs {
        Window {
            start: Timestamp { secs: midnight - SECONDS_PER_HOUR, nanos: 0 },
            span: TimeSpan { secs: SECONDS_PER_HOUR },
        }
    } else {
        Window {
            start: Timestamp { secs: midnight, nanos: 0 },
            span: TimeSpan { secs: elapsed },
        }
    }
}

/// The instant at which a cadence of `interval` seconds fires next after
/// `time`: the next multiple of the interval on the wall clock, a whole
/// second. The fraction of a second that `time` has is dropped.
pub open spec fn aligned_after(time: Timestamp, interval: int) -> Timestamp {
    Timestamp { secs: (time.secs - (time.secs as int % interval) + interval) as i64, nanos: 0 }
}

/// The next fire time is a whole second and a multiple of the interval,
/// lies after `time`, and is at most one interval away: a cadence never
/// drifts, whatever the time that its work took.
pub proof fn lemma_aligned_after(time: Timestamp, interval: int)
    requires
        interval > 0,
        i64::MIN + interval <= time.secs <= i64::MAX - interval,
    ensures
        aligned_after(time, interval).nanos == 0,
        aligned_after(time, interval).secs as int % interval == 0,
        time.secs < aligned_after(time, interval).secs <= time.secs + interval,
        aligned_after(time, interval).secs - time.secs == interval - (time.secs as int % interval),
{
    let t = time.secs as int;
    let r = t % interval;
    vstd::arithmetic::div_mod::lemma_fundamental_div_mod(t, interval);
    vstd::arithmetic::div_mod::lemma_mod_multiples_basic(t / interval + 1, interval);
    assert(t - r + interval == (t / interval + 1) * interval) by (nonlinear_arith)
        requires
            t == interval * (t / interval) + r,
    ;
}

/// Moves `time` on to the next multiple of `interval` seconds.
pub fn next_interval(time: Timestamp, interval: i64) -> (r: Timestamp)
    requires
        interval > 0,
        i64::MIN + interval <= time.secs <= i64::MAX - interval,
    ensures
        r == aligned_after(time, interval as int),
{
    let remainder: i64 = if time.secs >= 0 {
        time.secs % interval
    } else {
        let back: i64 = (-(time.secs + 1)) % interval;
        proof {
            let t = time.secs as int;
            let i = interval as int;
            vstd::arithmetic::div_mod::lemma_fundamental_div_mod(-(t + 1), i);
            let q = (-(t + 1)) / i;
            assert(t == i * (-q - 1) + (i - 1 - back)) by (nonlinear_arith)
                requires
                    -(t + 1) == i * q + back,
            ;
            vstd::arithmetic::div_mod::lemma_fundamental_div_mod_converse_mod(
                t,
                i,
                -q - 1,
                i - 1 - back,
            );
        }
        interval - 1 - back
    };
    Timestamp { secs: time.secs - remainder + interval, nanos: 0 }
}

} // verus!
