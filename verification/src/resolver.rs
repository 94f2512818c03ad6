//! From what was asked for and what the local clock shows to the instant
//! that is meant, and to the line that says it.

use vstd::prelude::*;
use crate::clock::{
    hour_of_day, lemma_parts_of_seconds, lemma_seconds_of_parts, minute_of_hour, second_of_minute,
    start_of_day, ClockReading, LocalDateTime,
};
use crate::instant::{default_format, default_text, utc_strftime, UtcInstant};
use crate::meridian::Meridian;
use crate::time::Time;

verus! {

/// What a caller may ask for; each part may be left out.
#[derive(Clone, Debug, PartialEq, Eq)]
pub struct Args {
    /// The time of day that is meant; the time on the clock if left out.
    pub time: Option<Time>,
    /// The half of the day that is meant; that of the clock if left out.
    pub am_pm: Option<Meridian>,
    /// A strftime-style template for the output; hour and minute if left
    /// out.
    pub time_format: Option<String>,
}

/// The half of the day that counts: the one given, or else the one that the
/// clock is in. The time given plays no part in it.
pub open spec fn meridian_in_force(explicit_meridian: Option<Meridian>, now: ClockReading)
    -> Meridian {
    match explicit_meridian {
        Some(meridian) => meridian,
        None => Meridian::spec_of_hour(now.hour()),
    }
}

/// The time of day that counts: the one given, or else the one that the
/// clock shows, in twelve-hour form.
pub open spec fn time_in_force(explicit_time: Option<Time>, now: ClockReading) -> Time {
    match explicit_time {
        Some(time) => time,
        None => Time::spec_from(now),
    }
}

/// The instant at which the local clock, on the day of `now` and with the
/// offset of `now`, shows the time in force in the half of the day in force,
/// at the full minute.
pub open spec fn resolved(
    explicit_time: Option<Time>,
    explicit_meridian: Option<Meridian>,
    now: ClockReading,
) -> int {
    let time = time_in_force(explicit_time, now);
    let meridian = meridian_in_force(explicit_meridian, now);
    now.midnight() + 3_600 * time.spec_effective_hours(meridian) + 60 * time.minutes
        - now.utc_offset
}

/// Finds the instant that is meant by a time of day and a half of the day,
/// either of which may be left to the clock.
///
/// A time given has to be one that a clock can show: see [`Time::in_range`].
pub fn resolve(
    explicit_time: Option<Time>,
    explicit_meridian: Option<Meridian>,
    now_local: &LocalDateTime,
) -> (instant: UtcInstant)
    requires
        explicit_time matches Some(time) ==> time.spec_in_range(),
    ensures
        instant@ == resolved(explicit_time, explicit_meridian, now_local@),
{
    let meridian = match explicit_meridian {
        Some(meridian) => meridian,
        None => Meridian::of_hour(now_local.hour()),
    };
    let time = match explicit_time {
        Some(time) => time,
        None => Time::from(*now_local),
    };
    let hours = time.effective_hours(meridian);
    let since_midnight: i64 = 3_600 * (hours as i64) + 60 * (time.minutes as i64);
    proof {
        use_type_invariant(now_local);
        lemma_parts_of_seconds(now_local@.local_seconds());
    }
    UtcInstant { seconds: now_local.timestamp() - now_local.second_of_day() + since_midnight }
}

impl Args {
    /// The half of the day that counts.
    pub fn meridian(&self, now: &LocalDateTime) -> (meridian: Meridian)
        ensures
            meridian == meridian_in_force(self.am_pm, now@),
    {
        match self.am_pm {
            Some(meridian) => meridian,
            None => Meridian::of_hour(now.hour()),
        }
    }

    /// The instant that is meant.
    pub fn zulu(&self, now: &LocalDateTime) -> (instant: UtcInstant)
        requires
            self.time matches Some(time) ==> time.spec_in_range(),
        ensures
            instant@ == resolved(self.time, self.am_pm, now@),
    {
        resolve(self.time, self.am_pm, now)
    }
}

/// The line to print: the instant that is meant, written after the template
/// given, or as hour and minute at Greenwich where none is given.
pub fn run(args: &Args, now: &LocalDateTime) -> (line: Option<String>)
    requires
        args.time matches Some(time) ==> time.spec_in_range(),
    ensures
        line.deep_view() == match args.time_format {
            Some(format) => utc_strftime(resolved(args.time, args.am_pm, now@), format@),
            None => default_text(resolved(args.time, args.am_pm, now@)),
        },
{
    let zulu = args.zulu(now);
    match &args.time_format {
        Some(format) => zulu.format(format.as_str()),
        None => {
            proof {
                reveal_strlit("%R");
                assert("%R"@ == default_format());
            }
            zulu.format("%R")
        },
    }
}

/// Asked for nothing, the resolver gives back the instant of the reading cut
/// down to the full minute, as long as the clock is past its first hour.
pub proof fn lemma_clock_alone(now: ClockReading)
    requires
        now.hour() != 0,
    ensures
        resolved(None, None, now) == now.timestamp - now.second(),
        now.timestamp - 60 < resolved(None, None, now) <= now.timestamp,
{
    lemma_parts_of_seconds(now.local_seconds());
}

/// In the hour after midnight the clock reads twelve, with no marker to say
/// that midnight is meant. Asked for nothing, the resolver then gives noon
/// of that day: twelve hours after the full minute of the reading.
pub proof fn lemma_clock_alone_after_midnight(now: ClockReading)
    requires
        now.hour() == 0,
    ensures
        resolved(None, None, now) == now.timestamp - now.second() + 12 * 3_600,
{
    lemma_parts_of_seconds(now.local_seconds());
}

/// The instant found lies on the local day of the reading, and a clock with
/// the same offset shows there the hour and minute in force, at second zero.
pub proof fn lemma_resolved_on_the_day(
    explicit_time: Option<Time>,
    explicit_meridian: Option<Meridian>,
    now: ClockReading,
)
    requires
        explicit_time matches Some(time) ==> time.spec_in_range(),
    ensures
        ({
            let then = resolved(explicit_time, explicit_meridian, now) + now.utc_offset;
            let time = time_in_force(explicit_time, now);
            let meridian = meridian_in_force(explicit_meridian, now);
            &&& start_of_day(then) == now.midnight()
            &&& hour_of_day(then) == time.spec_effective_hours(meridian)
            &&& minute_of_hour(then) == time.minutes
            &&& second_of_minute(then) == 0
        }),
{
    lemma_parts_of_seconds(now.local_seconds());
    let time = time_in_force(explicit_time, now);
    let meridian = meridian_in_force(explicit_meridian, now);
    lemma_seconds_of_parts(
        now.midnight(),
        time.spec_effective_hours(meridian),
        time.minutes as int,
        0,
    );
}

} // verus!
