//! Instants on the UTC scale, and how they are written out.

use vstd::prelude::*;
use crate::clock::{hour_of_day, minute_of_hour};

verus! {

/// The first second of the years that the calendar behind
/// [`UtcInstant::format`] covers: the start of the year 262144 BCE.
pub const FIRST_SECOND: i64 = -8_334_601_228_800;

/// The last second of the years that the calendar behind
/// [`UtcInstant::format`] covers: the end of the year 262142 CE.
pub const LAST_SECOND: i64 = 8_210_266_876_799;

/// A point in time, in whole seconds from 1970-01-01T00:00:00Z, leap seconds
/// left out. Its view is that count.
#[derive(Clone, Copy, Debug, PartialEq, Eq, Structural)]
pub struct UtcInstant {
    pub seconds: i64,
}

impl View for UtcInstant {
    type V = int;

    open spec fn view(&self) -> int {
        self.seconds as int
    }
}

/// Whether the instant lies in the years that the calendar covers.
pub open spec fn on_calendar(instant: int) -> bool {
    FIRST_SECOND <= instant <= LAST_SECOND
}

/// The character that writes the digit `d`.
pub open spec fn digit_char(d: int) -> char {
    (d + '0' as int) as char
}

/// Hour and minute as a twenty-four-hour clock shows them: two digits each,
/// a colon between them.
pub open spec fn clock_text(hour: int, minute: int) -> Seq<char> {
    seq![
        digit_char(hour / 10),
        digit_char(hour % 10),
        ':',
        digit_char(minute / 10),
        digit_char(minute % 10),
    ]
}

/// The template that is used where none is given: `%R`, hour and minute of
/// the twenty-four-hour clock.
pub open spec fn default_format() -> Seq<char> {
    seq!['%', 'R']
}

/// The text that chrono's `DateTime::<Utc>::format` writes for the instant
/// and the strftime-style template `format`; `None` where it writes none,
/// because its calendar does not reach the instant or because the template
/// is malformed.
pub uninterp spec fn utc_strftime(instant: int, format: Seq<char>) -> Option<Seq<char>>;

/// What the default template writes: hour and minute at Greenwich for an
/// instant on the calendar, nothing for any other.
pub open spec fn default_text(instant: int) -> Option<Seq<char>> {
    if on_calendar(instant) {
        Some(clock_text(hour_of_day(instant), minute_of_hour(instant)))
    } else {
        None
    }
}

impl UtcInstant {
    /// Writes the instant after a strftime-style template.
    ///
    /// There is a text exactly where chrono gives one, and never for an
    /// instant off the calendar. For the default template the text is
    /// spelled out: see [`default_text`].
    pub fn format(&self, format: &str) -> (text: Option<String>)
        ensures
            text.deep_view() == utc_strftime(self@, format@),
            text is Some ==> on_calendar(self@),
            format@ == default_format() ==> text.deep_view() == default_text(self@),
    {
        strftime(self.seconds, format)
    }
}

/// Calls chrono's `DateTime::<Utc>::from_timestamp` and, on the instant it
/// gives, `DateTime::format`, whose outcome `DelayedFormat::write_to` writes
/// into a `String`.
///
/// Believed of them, not proved: the text depends on the instant and the
/// template alone; there is none for an instant before [`FIRST_SECOND`] or
/// after [`LAST_SECOND`]; and for every other instant the template `%R`
/// writes the hour and the minute of the day, two digits each with a colon
/// between.
#[verifier::external_body]
fn strftime(seconds: i64, format: &str) -> (text: Option<String>)
    ensures
        text.deep_view() == utc_strftime(seconds as int, format@),
        text is Some ==> on_calendar(seconds as int),
        format@ == default_format() ==> text.deep_view() == default_text(seconds as int),
{
    let instant = chrono::DateTime::from_timestamp(seconds, 0)?;
    let mut text = String::new();
    instant.format(format).write_to(&mut text).ok()?;
    Some(text)
}

} // verus!
