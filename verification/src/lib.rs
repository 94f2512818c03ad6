//! Turns a time of day, as somebody reads it off a local clock, into the
//! instant on the UTC scale that is meant.
//!
//! [`Time::from_str`] and [`Meridian::from_str`] read what was written,
//! [`resolve`] finds the instant for a given reading of the clock, and
//! [`UtcInstant::format`] writes it out; [`run`] does the last two in a row.
//! Nothing here reads a clock or prints: the caller hands in a
//! [`LocalDateTime`] and gets a line back.
//!
//! The contracts speak of texts as sequences of characters, of the clock as
//! a [`ClockReading`] and of instants as counts of seconds. What is stated
//! of several functions at once stands in the `lemma_` functions at the end
//! of each module.

pub mod clock;
pub mod instant;
pub mod meridian;
pub mod numeral;
pub mod resolver;
mod text;
pub mod time;

pub use clock::{ClockReading, LocalDateTime};
pub use instant::UtcInstant;
pub use meridian::{Meridian, MeridianErr};
pub use numeral::NumeralErr;
pub use resolver::{resolve, run, Args};
pub use time::{ParseHoursMinutesErr, Time};
