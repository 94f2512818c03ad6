//! A time of day as somebody writes it: hours, a colon, minutes.

use vstd::prelude::*;
use vstd::string::StringExecFns;
use crate::clock::{hour12, ClockReading, LocalDateTime};
use crate::instant::{clock_text, digit_char};
use crate::meridian::Meridian;
use crate::numeral::{
    all_digits, decimal_value, lemma_numeral_accepts, numeral, read_numeral, NumeralErr,
};
use crate::text::chars_of;

verus! {

/// A reading of the clock, without date or zone.
///
/// The fields hold whatever was written: nothing here keeps `hours` below 24
/// or `minutes` below 60. [`Time::in_range`] says whether they are.
#[derive(Clone, Copy, Debug, PartialEq, Eq, Structural)]
pub struct Time {
    pub hours: u8,
    pub minutes: u8,
}

/// Why a text is not a time of day.
#[derive(Clone, Copy, Debug, PartialEq, Eq, Structural)]
pub enum ParseHoursMinutesErr {
    /// There is no field for the hours: the text is empty.
    MissingHours,
    /// The field before the first colon is not a numeral.
    Hours(NumeralErr),
    /// The text has no colon, so no field for the minutes.
    MissingMinutes,
    /// The field after the first colon is not a numeral.
    Minutes(NumeralErr),
    /// A second colon follows the minutes.
    BadFormat,
}

impl ParseHoursMinutesErr {
    /// What [`ParseHoursMinutesErr::message`] returns.
    pub open spec fn spec_message(self) -> Seq<char> {
        match self {
            ParseHoursMinutesErr::MissingHours => "missing hours"@,
            ParseHoursMinutesErr::Hours(e) => "unable to parse hours: "@ + e.spec_message(),
            ParseHoursMinutesErr::MissingMinutes => "missing minutes"@,
            ParseHoursMinutesErr::Minutes(e) => "unable to parse minutes: "@ + e.spec_message(),
            ParseHoursMinutesErr::BadFormat => "bad time format"@,
        }
    }

    /// The fault, in words: which field it is about and, for a field that
    /// is no number, why it is none.
    pub fn message(&self) -> (text: String)
        ensures
            text@ == self.spec_message(),
    {
        match self {
            ParseHoursMinutesErr::MissingHours => "missing hours".to_owned(),
            ParseHoursMinutesErr::Hours(e) => {
                let mut text = "unable to parse hours: ".to_owned();
                text.append(e.message().as_str());
                text
            },
            ParseHoursMinutesErr::MissingMinutes => "missing minutes".to_owned(),
            ParseHoursMinutesErr::Minutes(e) => {
                let mut text = "unable to parse minutes: ".to_owned();
                text.append(e.message().as_str());
                text
            },
            ParseHoursMinutesErr::BadFormat => "bad time format".to_owned(),
        }
    }
}

/// The fields that the colons of `s` part it into, from left to right.
pub open spec fn fields(s: Seq<char>) -> Seq<Seq<char>>
    decreases s.len(),
    via fields_decreases
{
    match s.index_of_first(':') {
        Some(i) => seq![s.take(i)] + fields(s.skip(i + 1)),
        None => seq![s],
    }
}

#[via_fn]
proof fn fields_decreases(s: Seq<char>) {
    s.index_of_first_ensures(':');
}

/// The fields put together again with a colon between each two of them.
pub open spec fn joined(fields: Seq<Seq<char>>) -> Seq<char>
    decreases fields.len(),
{
    if fields.len() == 0 {
        Seq::empty()
    } else if fields.len() == 1 {
        fields[0]
    } else {
        fields[0] + seq![':'] + joined(fields.skip(1))
    }
}

/// What `s` reads as: the first field gives the hours, the second the
/// minutes, and there is no third. The empty text has no hours to give. In
/// any other text the fields are judged from left to right, and the first
/// fault found is the one that is given.
pub open spec fn time_of_text(s: Seq<char>) -> Result<Time, ParseHoursMinutesErr> {
    let f = fields(s);
    if s.len() == 0 {
        Err(ParseHoursMinutesErr::MissingHours)
    } else {
        match numeral(f[0]) {
            Err(e) => Err(ParseHoursMinutesErr::Hours(e)),
            Ok(hours) => if f.len() < 2 {
                Err(ParseHoursMinutesErr::MissingMinutes)
            } else {
                match numeral(f[1]) {
                    Err(e) => Err(ParseHoursMinutesErr::Minutes(e)),
                    Ok(minutes) => if f.len() > 2 {
                        Err(ParseHoursMinutesErr::BadFormat)
                    } else {
                        Ok(Time { hours, minutes })
                    },
                }
            },
        }
    }
}

/// A position that holds the first colon of `s` is what `index_of_first`
/// finds, and where there is no colon it finds none.
proof fn lemma_first_colon(s: Seq<char>, at: int)
    requires
        0 <= at <= s.len(),
        forall|j: int| 0 <= j < at ==> #[trigger] s[j] != ':',
        at < s.len() ==> s[at] == ':',
    ensures
        s.index_of_first(':') == (if at < s.len() {
            Some(at)
        } else {
            None
        }),
{
    s.index_of_first_ensures(':');
}

/// Every text has a first field.
proof fn lemma_fields_nonempty(s: Seq<char>)
    ensures
        fields(s).len() >= 1,
{
}

impl From<LocalDateTime> for Time {
    /// Reads the time of day off a clock, hours in twelve-hour form: 12 in
    /// the hour after midnight and in the hour after noon, else 1 to 11.
    fn from(now: LocalDateTime) -> (time: Time) {
        let hour = now.hour() % 12;
        Time { hours: if hour == 0 { 12 } else { hour }, minutes: now.minute() }
    }
}

impl vstd::std_specs::convert::FromSpecImpl<LocalDateTime> for Time {
    open spec fn obeys_from_spec() -> bool {
        true
    }

    open spec fn from_spec(now: LocalDateTime) -> Time {
        Time::spec_from(now@)
    }
}

/// The first colon of `chars` at or after `from`, or the length of `chars`
/// where there is none.
fn find_colon(chars: &Vec<char>, from: usize) -> (at: usize)
    requires
        from <= chars.len(),
    ensures
        from <= at <= chars.len(),
        chars@.skip(from as int).index_of_first(':') == (if at < chars.len() {
            Some(at - from)
        } else {
            None
        }),
{
    let mut at: usize = from;
    while at < chars.len() && chars[at] != ':'
        invariant
            from <= at <= chars.len(),
            forall|j: int| from <= j < at ==> #[trigger] chars@[j] != ':',
        decreases chars.len() - at,
    {
        at += 1;
    }
    proof {
        lemma_first_colon(chars@.skip(from as int), at - from);
    }
    at
}

impl Time {
    /// Whether the reading is one that a twenty-four-hour clock can show.
    pub open spec fn spec_in_range(self) -> bool {
        self.hours < 24 && self.minutes < 60
    }

    /// The hour of the twenty-four-hour clock that the reading means in the
    /// given half of the day: twelve more where the marker is PM and the
    /// hours are below twelve, else the hours as they are. Hours from twelve
    /// on are never changed, whatever the marker.
    pub open spec fn spec_effective_hours(self, meridian: Meridian) -> int {
        if self.hours < 12 && meridian == Meridian::PM {
            self.hours + 12
        } else {
            self.hours as int
        }
    }

    /// What the clock `now` shows, hours in twelve-hour form.
    pub open spec fn spec_from(now: ClockReading) -> Time {
        Time { hours: hour12(now.hour()) as u8, minutes: now.minute() as u8 }
    }

    /// Whether the reading is one that a twenty-four-hour clock can show.
    pub fn in_range(&self) -> (ok: bool)
        ensures
            ok == self.spec_in_range(),
    {
        self.hours < 24 && self.minutes < 60
    }

    /// The hour of the twenty-four-hour clock that the reading means in the
    /// given half of the day.
    pub fn effective_hours(&self, meridian: Meridian) -> (hours: u8)
        ensures
            hours == self.spec_effective_hours(meridian),
    {
        if self.hours < 12 && meridian.is_pm() {
            self.hours + 12
        } else {
            self.hours
        }
    }

    /// Reads a time of day written as hours, a colon and minutes.
    pub fn from_str(s: &str) -> (time: Result<Time, ParseHoursMinutesErr>)
        ensures
            time == time_of_text(s@),
    {
        let chars = chars_of(s);
        let len = chars.len();
        if len == 0 {
            return Err(ParseHoursMinutesErr::MissingHours);
        }
        let colon = find_colon(&chars, 0);
        let ghost rest = chars@.skip(colon + 1);
        proof {
            assert(chars@.skip(0) == chars@);
            if colon < len {
                lemma_fields_nonempty(rest);
            }
        }
        let hours = match read_numeral(&chars, 0, colon) {
            Ok(hours) => hours,
            Err(e) => {
                return Err(ParseHoursMinutesErr::Hours(e));
            },
        };
        if colon == len {
            return Err(ParseHoursMinutesErr::MissingMinutes);
        }
        let second = find_colon(&chars, colon + 1);
        proof {
            assert(rest.take(second - colon - 1) == chars@.subrange(colon + 1, second as int));
            if second < len {
                lemma_fields_nonempty(rest.skip(second - colon));
            }
        }
        let minutes = match read_numeral(&chars, colon + 1, second) {
            Ok(minutes) => minutes,
            Err(e) => {
                return Err(ParseHoursMinutesErr::Minutes(e));
            },
        };
        if second < len {
            return Err(ParseHoursMinutesErr::BadFormat);
        }
        Ok(Time { hours, minutes })
    }
}

/// The fields of a text hold no colon, and with a colon between each two of
/// them they make up the text again. So a text has one field more than it
/// has colons.
pub proof fn lemma_fields_part_the_text(s: Seq<char>)
    ensures
        forall|i: int| 0 <= i < fields(s).len() ==> !(#[trigger] fields(s)[i]).contains(':'),
        joined(fields(s)) == s,
    decreases s.len(),
{
    s.index_of_first_ensures(':');
    match s.index_of_first(':') {
        Some(at) => {
            let rest = s.skip(at + 1);
            lemma_fields_part_the_text(rest);
            let first = s.take(at);
            assert(!first.contains(':'));
            assert(fields(s).skip(1) == fields(rest));
            assert forall|i: int| 0 <= i < fields(s).len() implies !(#[trigger] fields(
                s,
            )[i]).contains(':') by {
                if i > 0 {
                    assert(fields(s)[i] == fields(rest)[i - 1]);
                }
            }
        },
        None => {},
    }
}

/// Two texts without a colon, written with a colon between them, are the two
/// fields of what was written.
proof fn lemma_fields_of_pair(left: Seq<char>, right: Seq<char>)
    requires
        !left.contains(':'),
        !right.contains(':'),
    ensures
        fields(left + seq![':'] + right) == seq![left, right],
{
    let s = left + seq![':'] + right;
    let at = left.len() as int;
    assert forall|j: int| 0 <= j < at implies #[trigger] s[j] != ':' by {
        assert(left.contains(left[j]));
    }
    lemma_first_colon(s, at);
    assert(s.take(at) == left);
    assert(s.skip(at + 1) == right);
    assert forall|j: int| 0 <= j < right.len() implies #[trigger] right[j] != ':' by {
        assert(right.contains(right[j]));
    }
    lemma_first_colon(right, right.len() as int);
    assert(fields(right) == seq![right]);
}

/// Hours and minutes written in digits, with a colon between them, read back
/// as the numbers that the digits write: nothing is off by one, and leading
/// zeros do no harm. Only the eight bits of a field set a limit.
pub proof fn lemma_written_time_reads_back(hours: Seq<char>, minutes: Seq<char>)
    requires
        all_digits(hours),
        all_digits(minutes),
        decimal_value(hours) <= 255,
        decimal_value(minutes) <= 255,
    ensures
        time_of_text(hours + seq![':'] + minutes) == Ok::<Time, ParseHoursMinutesErr>(
            Time { hours: decimal_value(hours) as u8, minutes: decimal_value(minutes) as u8 },
        ),
{
    assert(!hours.contains(':') && !minutes.contains(':'));
    lemma_fields_of_pair(hours, minutes);
    lemma_numeral_accepts(hours);
    lemma_numeral_accepts(minutes);
}

/// A number below a hundred, written in two digits, is all digits and writes
/// that number.
proof fn lemma_two_digits(n: int)
    requires
        0 <= n < 100,
    ensures
        all_digits(seq![digit_char(n / 10), digit_char(n % 10)]),
        decimal_value(seq![digit_char(n / 10), digit_char(n % 10)]) == n,
{
    reveal_with_fuel(decimal_value, 3);
}

/// What a twenty-four-hour clock shows reads back as the hour and the minute
/// shown.
pub proof fn lemma_clock_text_reads_back(hour: int, minute: int)
    requires
        0 <= hour <= 23,
        0 <= minute <= 59,
    ensures
        time_of_text(clock_text(hour, minute)) == Ok::<Time, ParseHoursMinutesErr>(
            Time { hours: hour as u8, minutes: minute as u8 },
        ),
{
    let hours = seq![digit_char(hour / 10), digit_char(hour % 10)];
    let minutes = seq![digit_char(minute / 10), digit_char(minute % 10)];
    assert(clock_text(hour, minute) == hours + seq![':'] + minutes);
    lemma_two_digits(hour);
    lemma_two_digits(minute);
    lemma_written_time_reads_back(hours, minutes);
}

/// A text with one field, or with more than two, is no time of day. For the
/// empty text the fault is the missing hours. Where the fields that come
/// first are numbers, the fault is the missing minutes for one field and the
/// bad format for more than two; where one of them is no number, that comes
/// first.
pub proof fn lemma_wrong_field_count(s: Seq<char>)
    requires
        fields(s).len() != 2,
    ensures
        time_of_text(s) is Err,
        s.len() == 0 ==> fields(s).len() == 1 && time_of_text(s) == Err::<
            Time,
            ParseHoursMinutesErr,
        >(ParseHoursMinutesErr::MissingHours),
        fields(s).len() == 1 && numeral(fields(s)[0]) is Ok ==> time_of_text(s) == Err::<
            Time,
            ParseHoursMinutesErr,
        >(ParseHoursMinutesErr::MissingMinutes),
        fields(s).len() > 2 && numeral(fields(s)[0]) is Ok && numeral(fields(s)[1]) is Ok
            ==> time_of_text(s) == Err::<Time, ParseHoursMinutesErr>(
            ParseHoursMinutesErr::BadFormat,
        ),
{
    lemma_fields_nonempty(s);
    s.index_of_first_ensures(':');
    if s.len() == 0 {
        assert(fields(s) == seq![s]);
    }
}

} // verus!
