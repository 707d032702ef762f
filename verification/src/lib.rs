//! A calendar value library for the proleptic Gregorian calendar.
//!
//! The crate models dates as a year together with an ordinal day within
//! that year, clock-of-day times, and date/time values qualified by a
//! fixed UTC offset.  Every validating constructor either returns a value
//! whose invariant is proved, or a typed [`Error`] saying why the input
//! was rejected.

mod date;
mod error;
mod time;

pub use date::Date;
pub use date::IsoWeekday;
pub use date::Weekday;
pub use error::Error;
pub use time::DateTime;
pub use time::FixedOffset;
pub use time::NaiveTime;
pub use time::Offset;
