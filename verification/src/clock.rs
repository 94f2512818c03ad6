//! Counting seconds, and one reading of the local clock: an instant, and how
//! far local time is ahead of UTC at that instant.
//!
//! A day has 86 400 seconds, an hour 3 600 and a minute 60: leap seconds are
//! not counted.

use vstd::prelude::*;

verus! {

/// How far into its day a count of seconds is. Counts before zero belong to
/// the days before: second -1 is the last second of its day.
pub open spec fn second_of_day(seconds: int) -> int {
    seconds % 86_400
}

/// The count of seconds at which the day of `seconds` began.
pub open spec fn start_of_day(seconds: int) -> int {
    seconds - second_of_day(seconds)
}

/// The hour of the day that `seconds` falls in, 0 to 23.
pub open spec fn hour_of_day(seconds: int) -> int {
    second_of_day(seconds) / 3_600
}

/// The minute of the hour that `seconds` falls in, 0 to 59.
pub open spec fn minute_of_hour(seconds: int) -> int {
    second_of_day(seconds) % 3_600 / 60
}

/// The second of the minute that `seconds` falls in, 0 to 59.
pub open spec fn second_of_minute(seconds: int) -> int {
    second_of_day(seconds) % 60
}

/// The hour of the twelve-hour clock that `hour` of the day falls in: 12 for
/// midnight and noon, else 1 to 11.
pub open spec fn hour12(hour: int) -> int {
    if hour % 12 == 0 {
        12
    } else {
        hour % 12
    }
}

/// What a reading of the local clock says, in unbounded integers.
///
/// `timestamp` counts whole seconds from 1970-01-01T00:00:00Z, leap seconds
/// left out. `utc_offset` is what has to be added to UTC to get local time,
/// in seconds: positive east of Greenwich.
pub struct ClockReading {
    pub timestamp: int,
    pub utc_offset: int,
}

/// The local date and time at one instant. Its view is a [`ClockReading`],
/// and a well-formed one: [`LocalDateTime::new`] makes no other.
#[derive(Clone, Copy, Debug, PartialEq, Eq, Structural)]
pub struct LocalDateTime {
    timestamp: i64,
    utc_offset: i32,
}

impl ClockReading {
    /// The offset is less than a day either way, and the instant is a day
    /// or more from either end of `i64`, so that every second of the local
    /// day it falls on has a count that fits.
    pub open spec fn wf(self) -> bool {
        &&& -86_400 < self.utc_offset < 86_400
        &&& i64::MIN + 86_400 <= self.timestamp <= i64::MAX - 86_400
    }

    /// Seconds from 1970-01-01T00:00:00 as the local clock counts them.
    pub open spec fn local_seconds(self) -> int {
        self.timestamp + self.utc_offset
    }

    /// The start of the local day, as the local clock counts seconds.
    pub open spec fn midnight(self) -> int {
        start_of_day(self.local_seconds())
    }

    /// Seconds since the local day began.
    pub open spec fn second_of_day(self) -> int {
        second_of_day(self.local_seconds())
    }

    /// The hour that the local clock shows, 0 to 23.
    pub open spec fn hour(self) -> int {
        hour_of_day(self.local_seconds())
    }

    /// The minute that the local clock shows, 0 to 59.
    pub open spec fn minute(self) -> int {
        minute_of_hour(self.local_seconds())
    }

    /// The second that the local clock shows, 0 to 59.
    pub open spec fn second(self) -> int {
        second_of_minute(self.local_seconds())
    }
}

impl View for LocalDateTime {
    type V = ClockReading;

    closed spec fn view(&self) -> ClockReading {
        ClockReading { timestamp: self.timestamp as int, utc_offset: self.utc_offset as int }
    }
}

impl LocalDateTime {
    /// Every reading that exists is well formed.
    #[verifier::type_invariant]
    pub open spec fn inv(self) -> bool {
        self@.wf()
    }

    /// The reading of a clock that shows the instant `timestamp` with local
    /// time `utc_offset` seconds ahead of UTC, if that is well formed.
    pub fn new(timestamp: i64, utc_offset: i32) -> (now: Option<LocalDateTime>)
        ensures
            now is Some <==> (ClockReading {
                timestamp: timestamp as int,
                utc_offset: utc_offset as int,
            }).wf(),
            now matches Some(reading) ==> reading@ == (ClockReading {
                timestamp: timestamp as int,
                utc_offset: utc_offset as int,
            }),
    {
        if -86_400 < utc_offset && utc_offset < 86_400 && i64::MIN + 86_400 <= timestamp
            && timestamp <= i64::MAX - 86_400 {
            Some(LocalDateTime { timestamp, utc_offset })
        } else {
            None
        }
    }

    /// Whole seconds from 1970-01-01T00:00:00Z to the instant of the reading.
    pub fn timestamp(&self) -> (seconds: i64)
        ensures
            seconds == self@.timestamp,
    {
        self.timestamp
    }

    /// Seconds by which local time is ahead of UTC.
    pub fn utc_offset(&self) -> (seconds: i32)
        ensures
            seconds == self@.utc_offset,
    {
        self.utc_offset
    }

    /// Seconds since the local day began.
    pub fn second_of_day(&self) -> (seconds: i64)
        ensures
            seconds == self@.second_of_day(),
            0 <= seconds < 86_400,
    {
        proof {
            use_type_invariant(self);
        }
        let local: i64 = self.timestamp + self.utc_offset as i64;
        let rest: i64 = local % 86_400;
        if rest < 0 {
            rest + 86_400
        } else {
            rest
        }
    }

    /// The hour that the local clock shows, 0 to 23.
    pub fn hour(&self) -> (hour: u8)
        ensures
            hour == self@.hour(),
            hour < 24,
    {
        (self.second_of_day() / 3_600) as u8
    }

    /// The minute that the local clock shows, 0 to 59.
    pub fn minute(&self) -> (minute: u8)
        ensures
            minute == self@.minute(),
            minute < 60,
    {
        (self.second_of_day() % 3_600 / 60) as u8
    }
}

/// A count of seconds is made up of the start of its day, its hour, its
/// minute and its second, and each of the three is in the range of a clock.
pub proof fn lemma_parts_of_seconds(seconds: int)
    ensures
        seconds == start_of_day(seconds) + 3_600 * hour_of_day(seconds) + 60 * minute_of_hour(
            seconds,
        ) + second_of_minute(seconds),
        start_of_day(seconds) % 86_400 == 0,
        0 <= hour_of_day(seconds) < 24,
        0 <= minute_of_hour(seconds) < 60,
        0 <= second_of_minute(seconds) < 60,
{
}

/// The count made up of the start of a day and an hour, a minute and a
/// second of the clock lies on that day, at that hour, minute and second.
pub proof fn lemma_seconds_of_parts(day: int, hour: int, minute: int, second: int)
    requires
        day % 86_400 == 0,
        0 <= hour < 24,
        0 <= minute < 60,
        0 <= second < 60,
    ensures
        ({
            let seconds = day + 3_600 * hour + 60 * minute + second;
            &&& start_of_day(seconds) == day
            &&& hour_of_day(seconds) == hour
            &&& minute_of_hour(seconds) == minute
            &&& second_of_minute(seconds) == second
        }),
{
}

} // verus!
