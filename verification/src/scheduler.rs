//! The poll schedule: two cadences, each with its own next fire time on
//! the wall clock.
//!
//! The scheduler decides; it neither reads the clock nor sleeps. Its user
//! asks it, with the time at hand, which cadences are due, does their work,
//! and then asks how long to pause.

use crate::time::{aligned_after, next_interval, Timestamp, NANOS_PER_SECOND};
use vstd::prelude::*;

verus! {

/// The shortest pause between two looks at the clock: a tenth of a second.
pub const MIN_PAUSE_NANOS: u32 = 100_000_000;

/// The cadences that are due.
#[derive(Clone, Copy, Debug, PartialEq, Eq, Structural)]
pub struct Due {
    pub status: bool,
    pub statistics: bool,
}

/// A length of time to sleep.
#[derive(Clone, Copy, Debug, PartialEq, Eq, Structural)]
pub struct Pause {
    pub secs: u64,
    pub nanos: u32,
}

impl Pause {
    /// The pause as one count of nanoseconds.
    pub open spec fn total_nanos(self) -> int {
        self.secs as int * NANOS_PER_SECOND as int + self.nanos as int
    }
}

/// The state of the schedule: the two intervals in seconds and the next
/// fire time of each cadence.
#[derive(Clone, Copy, Debug, PartialEq, Eq, Structural)]
pub struct Scheduler {
    pub interval: i64,
    pub statistic_interval: i64,
    pub next_status: Timestamp,
    pub next_statistics: Timestamp,
}

/// The earlier of two instants.
pub open spec fn earlier(a: Timestamp, b: Timestamp) -> Timestamp {
    if b.not_before(a) {
        a
    } else {
        b
    }
}

/// The longest pause that can be told: all the seconds there are, and
/// one nanosecond less than one more.
pub open spec fn longest_pause() -> int {
    u64::MAX as int * NANOS_PER_SECOND as int + NANOS_PER_SECOND as int - 1
}

/// The nanoseconds to pause at `now` before `next`: the time left until
/// then, but a tenth of a second at least, and no more than can be told.
pub open spec fn pause_nanos(now: Timestamp, next: Timestamp) -> int {
    let left = next.total_nanos() - now.total_nanos();
    if left < MIN_PAUSE_NANOS {
        MIN_PAUSE_NANOS as int
    } else if left > longest_pause() {
        longest_pause()
    } else {
        left
    }
}

impl Scheduler {
    /// Both intervals are a second at least.
    pub open spec fn well_formed(&self) -> bool {
        &&& self.interval >= 1
        &&& self.statistic_interval >= 1
    }

    /// `now` is far enough from the ends of time for both cadences to move on.
    pub open spec fn can_advance(&self, now: Timestamp) -> bool {
        &&& i64::MIN + self.interval <= now.secs <= i64::MAX - self.interval
        &&& i64::MIN + self.statistic_interval <= now.secs <= i64::MAX - self.statistic_interval
    }

    /// The schedule after a look at the clock at `now`: a cadence that is
    /// due moves on to the next multiple of its interval after `now`, a
    /// whole second on the wall clock; the other stays.
    pub open spec fn after_poll(&self, now: Timestamp) -> Scheduler {
        Scheduler {
            interval: self.interval,
            statistic_interval: self.statistic_interval,
            next_status: if now.not_before(self.next_status) {
                aligned_after(now, self.interval as int)
            } else {
                self.next_status
            },
            next_statistics: if now.not_before(self.next_statistics) {
                aligned_after(now, self.statistic_interval as int)
            } else {
                self.next_statistics
            },
        }
    }

    /// A schedule on which both cadences are due at once, at `now`. There
    /// is none for an interval of less than a second.
    pub fn new(interval: i64, statistic_interval: i64, now: Timestamp) -> (r: Option<Scheduler>)
        ensures
            r is Some <==> interval >= 1 && statistic_interval >= 1,
            r matches Some(s) ==> s == (Scheduler {
                interval,
                statistic_interval,
                next_status: now,
                next_statistics: now,
            }) && s.well_formed(),
    {
        if interval >= 1 && statistic_interval >= 1 {
            Some(Scheduler { interval, statistic_interval, next_status: now, next_statistics: now })
        } else {
            None
        }
    }

    /// Tells whether the schedule can be asked at `now`.
    pub fn can_poll(&self, now: Timestamp) -> (r: bool)
        ensures
            r == (self.well_formed() && self.can_advance(now)),
    {
        self.interval >= 1 && self.statistic_interval >= 1 && now.secs >= i64::MIN + self.interval
            && now.secs <= i64::MAX - self.interval && now.secs >= i64::MIN
            + self.statistic_interval && now.secs <= i64::MAX - self.statistic_interval
    }

    /// Looks at the clock: says which cadences are due at `now` and moves
    /// each of them on.
    pub fn poll(&mut self, now: Timestamp) -> (due: Due)
        requires
            old(self).well_formed(),
            old(self).can_advance(now),
        ensures
            due.status == now.not_before(old(self).next_status),
            due.statistics == now.not_before(old(self).next_statistics),
            *final(self) == old(self).after_poll(now),
            final(self).well_formed(),
    {
        let status = now.is_not_before(&self.next_status);
        if status {
            self.next_status = next_interval(now, self.interval);
        }
        let statistics = now.is_not_before(&self.next_statistics);
        if statistics {
            self.next_statistics = next_interval(now, self.statistic_interval);
        }
        Due { status, statistics }
    }

    /// How long to sleep at `now`: until the earlier of the two next fire
    /// times, but a tenth of a second at least.
    pub fn pause(&self, now: Timestamp) -> (p: Pause)
        ensures
            p.total_nanos() == pause_nanos(now, earlier(self.next_status, self.next_statistics)),
            p.nanos < NANOS_PER_SECOND,
    {
        let next = if self.next_statistics.is_not_before(&self.next_status) {
            self.next_status
        } else {
            self.next_statistics
        };
        let seconds: i128 = next.secs as i128 - now.secs as i128;
        let left: i128 = seconds * 1_000_000_000 + (next.nanos as i128 - now.nanos as i128);
        if left < MIN_PAUSE_NANOS as i128 {
            Pause { secs: 0, nanos: MIN_PAUSE_NANOS }
        } else if left / 1_000_000_000 > u64::MAX as i128 {
            Pause { secs: u64::MAX, nanos: NANOS_PER_SECOND - 1 }
        } else {
            Pause { secs: (left / 1_000_000_000) as u64, nanos: (left % 1_000_000_000) as u32 }
        }
    }
}

/// A cadence that is due at `now` fires next on a whole second that is a
/// multiple of its interval, later than `now` and no more than one interval
/// later: the schedule keeps to the wall clock, whatever the time the work
/// takes.
pub proof fn lemma_poll_keeps_to_the_clock(schedule: Scheduler, now: Timestamp)
    requires
        schedule.well_formed(),
        schedule.can_advance(now),
    ensures
        now.not_before(schedule.next_status) ==> ({
            let next = schedule.after_poll(now).next_status;
            &&& next.nanos == 0
            &&& next.secs as int % schedule.interval as int == 0
            &&& now.secs < next.secs <= now.secs + schedule.interval
            &&& next.secs - now.secs == schedule.interval - (now.secs as int
                % schedule.interval as int)
        }),
        now.not_before(schedule.next_statistics) ==> ({
            let next = schedule.after_poll(now).next_statistics;
            &&& next.nanos == 0
            &&& next.secs as int % schedule.statistic_interval as int == 0
            &&& now.secs < next.secs <= now.secs + schedule.statistic_interval
            &&& next.secs - now.secs == schedule.statistic_interval - (now.secs as int
                % schedule.statistic_interval as int)
        }),
{
    crate::time::lemma_aligned_after(now, schedule.interval as int);
    crate::time::lemma_aligned_after(now, schedule.statistic_interval as int);
}

} // verus!
