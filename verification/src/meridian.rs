//! The AM/PM marker of the twelve-hour clock.

use vstd::prelude::*;
use vstd::string::StringExecFns;
use crate::text::chars_of;

verus! {

/// Which half of the day a twelve-hour reading belongs to.
#[derive(Clone, Copy, Debug, PartialEq, Eq, Structural)]
pub enum Meridian {
    AM,
    PM,
}

/// A text that is no AM/PM marker. It holds the text as it was given.
#[derive(Clone, Debug, PartialEq, Eq)]
pub struct MeridianErr(pub String);

/// What `s` reads as: the four spellings `AM`, `am`, `PM` and `pm` are
/// markers, and nothing else is, mixed case included.
pub open spec fn meridian_of_text(s: Seq<char>) -> Option<Meridian> {
    if s == seq!['A', 'M'] || s == seq!['a', 'm'] {
        Some(Meridian::AM)
    } else if s == seq!['P', 'M'] || s == seq!['p', 'm'] {
        Some(Meridian::PM)
    } else {
        None
    }
}

impl Meridian {
    /// The half of the day that `hour` of the twenty-four-hour clock lies in.
    pub open spec fn spec_of_hour(hour: int) -> Meridian {
        if hour < 12 {
            Meridian::AM
        } else {
            Meridian::PM
        }
    }

    /// The half of the day that `hour` of the twenty-four-hour clock lies in:
    /// before noon or not.
    pub fn of_hour(hour: u8) -> (meridian: Meridian)
        ensures
            meridian == Self::spec_of_hour(hour as int),
    {
        if hour < 12 {
            Meridian::AM
        } else {
            Meridian::PM
        }
    }

    /// Whether this marker names the half of the day from noon on.
    #[inline]
    pub fn is_pm(self) -> (pm: bool)
        ensures
            pm == (self == Meridian::PM),
    {
        match self {
            Meridian::AM => false,
            Meridian::PM => true,
        }
    }

    /// Reads an AM/PM marker. A text that is none comes back in the error.
    pub fn from_str(s: &str) -> (marker: Result<Meridian, MeridianErr>)
        ensures
            match marker {
                Ok(meridian) => meridian_of_text(s@) == Some(meridian),
                Err(e) => meridian_of_text(s@) is None && e.0@ == s@,
            },
    {
        let chars = chars_of(s);
        if chars.len() == 2 {
            let first = chars[0];
            let second = chars[1];
            assert(s@ == seq![first, second]);
            if (first == 'A' && second == 'M') || (first == 'a' && second == 'm') {
                return Ok(Meridian::AM);
            }
            if (first == 'P' && second == 'M') || (first == 'p' && second == 'm') {
                return Ok(Meridian::PM);
            }
        }
        Err(MeridianErr(s.to_owned()))
    }
}

impl MeridianErr {
    /// What [`MeridianErr::message`] returns.
    pub open spec fn spec_message(self) -> Seq<char> {
        "unknown am/pm marker: "@ + self.0@
    }

    /// The complaint, in words, with the text that was given at its end.
    pub fn message(&self) -> (text: String)
        ensures
            text@ == self.spec_message(),
    {
        let mut text = "unknown am/pm marker: ".to_owned();
        text.append(self.0.as_str());
        text
    }
}

} // verus!
