use vstd::prelude::*;

verus! {

/// An error returned by a validating constructor of this crate.
///
/// The set of kinds is open: more variants may be added, so consumers
/// must not assume the listed ones are exhaustive.
#[derive(Clone, Copy, Debug, PartialEq, Eq, Structural)]
#[non_exhaustive]
pub enum Error {
    /// The year is out of range.
    ///
    /// Years in the range `-999_999_999..=999_999_999` are supported.
    UnsupportedYear,
    /// Tried to create a value which is invalid because it is out of range.
    RangeExceeded,
    /// The system time is invalid (it likely is before the Unix epoch
    /// or outside the supported year range).
    InvalidSystemTime,
}

} // verus!
