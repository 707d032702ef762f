use vstd::prelude::*;

use crate::date::Date;
use crate::error::Error;

verus! {

/// Clock time within a date, without a time zone.
#[derive(Clone, Copy, Debug, Eq, PartialEq, Structural)]
pub struct NaiveTime {
    /// The hour, `0..=23`.
    pub hour: u8,
    /// The minute, `0..=59`.
    pub minute: u8,
    /// The second, `0..=59`; there is no leap-second value `60`.
    pub second: u8,
    /// The nanosecond, `0..=999_999_999`.
    pub nanosecond: u32,
}

impl NaiveTime {
    /// A clock time is well formed when every field lies within its range.
    pub open spec fn wf(self) -> bool {
        &&& self.hour <= 23
        &&& self.minute <= 59
        &&& self.second <= 59
        &&& self.nanosecond <= 999_999_999
    }

    /// Returns a [NaiveTime] from the hour, minute, and second, with the
    /// nanosecond implicitly zero.
    ///
    /// # Errors
    ///
    /// Returns [Error::RangeExceeded] when a value is out of range.
    pub fn from_hms(hour: u8, minute: u8, second: u8) -> (r: Result<Self, Error>)
        ensures
            hour <= 23 && minute <= 59 && second <= 59 ==> r == Ok::<Self, Error>(
                NaiveTime { hour, minute, second, nanosecond: 0 },
            ),
            !(hour <= 23 && minute <= 59 && second <= 59) ==> r == Err::<Self, Error>(
                Error::RangeExceeded,
            ),
            r matches Ok(t) ==> t.wf(),
    {
        Self::from_hms_ns(hour, minute, second, 0)
    }

    /// Returns a [NaiveTime] from the hour, minute, second, and nanosecond.
    ///
    /// # Errors
    ///
    /// Returns [Error::RangeExceeded] when a value is out of range.
    pub fn from_hms_ns(hour: u8, minute: u8, second: u8, nanosecond: u32) -> (r: Result<
        Self,
        Error,
    >)
        ensures
            hour <= 23 && minute <= 59 && second <= 59 && nanosecond <= 999_999_999 ==> r == Ok::<
                Self,
                Error,
            >(NaiveTime { hour, minute, second, nanosecond }),
            !(hour <= 23 && minute <= 59 && second <= 59 && nanosecond <= 999_999_999) ==> r
                == Err::<Self, Error>(Error::RangeExceeded),
            r matches Ok(t) ==> t.wf(),
    {
        if hour <= 23 && minute <= 59 && second <= 59 && nanosecond <= 999_999_999 {
            Ok(NaiveTime { hour, minute, second, nanosecond })
        } else {
            Err(Error::RangeExceeded)
        }
    }
}

/// An offset from UTC, which may be implied by a time zone.
///
/// This is a capability: implementing it says that a type denotes a UTC
/// offset and can tell whether its value lies within the range the type
/// documents.
pub trait Offset: Sized {
    /// Whether the offset value lies within the range its type supports.
    spec fn wf(&self) -> bool;

    /// Returns whether the offset value lies within the range its type
    /// supports.
    fn in_range(&self) -> (b: bool)
        ensures
            b == self.wf(),
    ;
}

/// A fixed offset from UTC, stored as a signed whole number of seconds.
///
/// Offsets of at most 24 hours in magnitude, that is seconds in
/// `-86_400..=86_400`, are within range.
#[derive(Clone, Copy, Debug, Eq, PartialEq, Structural)]
pub struct FixedOffset {
    /// The offset east of UTC in seconds; negative values lie west of UTC.
    pub seconds: i32,
}

impl Offset for FixedOffset {
    open spec fn wf(&self) -> bool {
        -86_400 <= self.seconds <= 86_400
    }

    fn in_range(&self) -> (b: bool)
        ensures
            b == self.wf(),
    {
        -86_400 <= self.seconds && self.seconds <= 86_400
    }
}

/// A date and time with an offset for the time zone.
///
/// The offset representation is chosen statically through the type
/// parameter; no runtime dispatch is involved.
#[derive(Debug)]
pub struct DateTime<O: Offset> {
    /// The calendar date.
    pub date: Date,
    /// The clock time within the date.
    pub time: NaiveTime,
    /// The offset from UTC.
    pub offset: O,
}

impl<O: Offset> DateTime<O> {
    /// Returns a [DateTime] from a [Date], a [NaiveTime], and an offset,
    /// taking ownership of all three.
    ///
    /// # Errors
    ///
    /// Returns [Error::RangeExceeded] when the offset is out of the range
    /// its type supports.
    pub fn new(date: Date, time: NaiveTime, offset: O) -> (r: Result<Self, Error>)
        requires
            date.wf(),
            time.wf(),
        ensures
            offset.wf() ==> (r matches Ok(dt) && dt.date == date && dt.time == time && dt.offset
                == offset),
            !offset.wf() ==> (r matches Err(e) && e == Error::RangeExceeded),
    {
        if offset.in_range() {
            Ok(DateTime { date, time, offset })
        } else {
            Err(Error::RangeExceeded)
        }
    }
}

} // verus!
