use vstd::prelude::*;

use crate::error::Error;

verus! {

/// An ISO weekday number: Monday is 1, ..., Sunday is 7.
pub type IsoWeekday = u8;

/// A day of the week.
#[derive(Clone, Copy, Debug, Eq, PartialEq, Structural)]
pub enum Weekday {
    #[allow(missing_docs)]
    Monday,
    #[allow(missing_docs)]
    Tuesday,
    #[allow(missing_docs)]
    Wednesday,
    #[allow(missing_docs)]
    Thursday,
    #[allow(missing_docs)]
    Friday,
    #[allow(missing_docs)]
    Saturday,
    #[allow(missing_docs)]
    Sunday,
}

/// The ISO number of a weekday: Monday is 1, ..., Sunday is 7.
pub open spec fn iso_num_spec(w: Weekday) -> int {
    match w {
        Weekday::Monday => 1,
        Weekday::Tuesday => 2,
        Weekday::Wednesday => 3,
        Weekday::Thursday => 4,
        Weekday::Friday => 5,
        Weekday::Saturday => 6,
        Weekday::Sunday => 7,
    }
}

/// The weekday with the given ISO number, for numbers in `1..=7`.
pub open spec fn weekday_of_num(n: int) -> Weekday {
    if n == 1 {
        Weekday::Monday
    } else if n == 2 {
        Weekday::Tuesday
    } else if n == 3 {
        Weekday::Wednesday
    } else if n == 4 {
        Weekday::Thursday
    } else if n == 5 {
        Weekday::Friday
    } else if n == 6 {
        Weekday::Saturday
    } else {
        Weekday::Sunday
    }
}

impl Weekday {
    /// Returns the ISO weekday number: Monday is 1, ..., Sunday is 7.
    pub fn iso_number(self) -> (n: IsoWeekday)
        ensures
            n as int == iso_num_spec(self),
    {
        match self {
            Weekday::Monday => 1,
            Weekday::Tuesday => 2,
            Weekday::Wednesday => 3,
            Weekday::Thursday => 4,
            Weekday::Friday => 5,
            Weekday::Saturday => 6,
            Weekday::Sunday => 7,
        }
    }

    /// Returns the weekday with the given ISO number.
    ///
    /// # Errors
    ///
    /// Returns [Error::RangeExceeded] when the number is not in `1..=7`.
    pub fn from_iso(n: IsoWeekday) -> (r: Result<Self, Error>)
        ensures
            1 <= n <= 7 ==> r == Ok::<Self, Error>(weekday_of_num(n as int)),
            !(1 <= n <= 7) ==> r == Err::<Self, Error>(Error::RangeExceeded),
    {
        match n {
            1 => Ok(Weekday::Monday),
            2 => Ok(Weekday::Tuesday),
            3 => Ok(Weekday::Wednesday),
            4 => Ok(Weekday::Thursday),
            5 => Ok(Weekday::Friday),
            6 => Ok(Weekday::Saturday),
            7 => Ok(Weekday::Sunday),
            _ => Err(Error::RangeExceeded),
        }
    }

    fn from_iso_in_range(n: u8) -> (w: Weekday)
        requires
            1 <= n <= 7,
        ensures
            w == weekday_of_num(n as int),
    {
        match n {
            1 => Weekday::Monday,
            2 => Weekday::Tuesday,
            3 => Weekday::Wednesday,
            4 => Weekday::Thursday,
            5 => Weekday::Friday,
            6 => Weekday::Saturday,
            _ => Weekday::Sunday,
        }
    }
}

/// Mapping a weekday to its ISO number and back yields the weekday again,
/// and the number always lies in `1..=7`.
pub proof fn lemma_weekday_iso_round_trip(w: Weekday)
    ensures
        1 <= iso_num_spec(w) <= 7,
        weekday_of_num(iso_num_spec(w)) == w,
{
}

/// Mapping an ISO number in `1..=7` to its weekday and back yields the
/// number again.
pub proof fn lemma_iso_number_round_trip(n: int)
    requires
        1 <= n <= 7,
    ensures
        iso_num_spec(weekday_of_num(n)) == n,
{
}

/// The leap-year rule of the proleptic Gregorian calendar, extended to
/// year zero and negative years with no historical exceptions.
pub open spec fn is_leap_spec(year: int) -> bool {
    year % 4 == 0 && (year % 100 != 0 || year % 400 == 0)
}

/// How many days the given year has.
pub open spec fn days_in_year_spec(year: int) -> int {
    if is_leap_spec(year) {
        366
    } else {
        365
    }
}

/// The cumulative number of days of the year through the end of month
/// `m`; `m == 0` is the start sentinel and `m == 12` the whole year.
pub open spec fn month_end_spec(leap: bool, m: int) -> int {
    if m <= 0 {
        0
    } else if m == 1 {
        31
    } else if m == 2 {
        if leap {
            60
        } else {
            59
        }
    } else if m == 3 {
        if leap {
            91
        } else {
            90
        }
    } else if m == 4 {
        if leap {
            121
        } else {
            120
        }
    } else if m == 5 {
        if leap {
            152
        } else {
            151
        }
    } else if m == 6 {
        if leap {
            182
        } else {
            181
        }
    } else if m == 7 {
        if leap {
            213
        } else {
            212
        }
    } else if m == 8 {
        if leap {
            244
        } else {
            243
        }
    } else if m == 9 {
        if leap {
            274
        } else {
            273
        }
    } else if m == 10 {
        if leap {
            305
        } else {
            304
        }
    } else if m == 11 {
        if leap {
            335
        } else {
            334
        }
    } else {
        if leap {
            366
        } else {
            365
        }
    }
}

/// Whether `(year, month, day)` names an existing calendar date within
/// the supported year range.
pub open spec fn valid_ymd(year: int, month: int, day: int) -> bool {
    &&& -999_999_999 <= year <= 999_999_999
    &&& 1 <= month <= 12
    &&& 1 <= day
    &&& month_end_spec(is_leap_spec(year), month - 1) + day <= month_end_spec(
        is_leap_spec(year),
        month,
    )
}

/// The ordinal day within the year of a valid `(year, month, day)` date.
pub open spec fn ord_of_ymd(year: int, month: int, day: int) -> int {
    month_end_spec(is_leap_spec(year), month - 1) + day
}

/// The month that an ordinal day of the year falls in: the smallest `m`
/// whose cumulative day count reaches the ordinal.
pub open spec fn month_of_ord(leap: bool, ord: int) -> int {
    if ord <= month_end_spec(leap, 1) {
        1
    } else if ord <= month_end_spec(leap, 2) {
        2
    } else if ord <= month_end_spec(leap, 3) {
        3
    } else if ord <= month_end_spec(leap, 4) {
        4
    } else if ord <= month_end_spec(leap, 5) {
        5
    } else if ord <= month_end_spec(leap, 6) {
        6
    } else if ord <= month_end_spec(leap, 7) {
        7
    } else if ord <= month_end_spec(leap, 8) {
        8
    } else if ord <= month_end_spec(leap, 9) {
        9
    } else if ord <= month_end_spec(leap, 10) {
        10
    } else if ord <= month_end_spec(leap, 11) {
        11
    } else {
        12
    }
}

/// The day within its month of an ordinal day of the year.
pub open spec fn day_of_ord(leap: bool, ord: int) -> int {
    ord - month_end_spec(leap, month_of_ord(leap, ord) - 1)
}

/// The ISO number of the weekday of the date `(year, ord)`, by the
/// closed-form congruence over the mathematical (non-negative) modulo.
pub open spec fn weekday_num_spec(year: int, ord: int) -> int {
    let y = year - 1;
    let r = (ord + 5 * (y % 4) + 4 * (y % 100) + 6 * (y % 400)) % 7;
    if r == 0 {
        7
    } else {
        r
    }
}

/// The weekday of the date `(year, ord)`.
pub open spec fn weekday_spec(year: int, ord: int) -> Weekday {
    weekday_of_num(weekday_num_spec(year, ord))
}

/// The number of weeks of the ISO week-based year: 53 when January 1st
/// falls on a Thursday, or on a Wednesday of a leap year; 52 otherwise.
pub open spec fn weeks_in_iso_year_spec(year: int) -> int {
    if weekday_num_spec(year, 1) == 4 || (is_leap_spec(year) && weekday_num_spec(year, 1) == 3) {
        53
    } else {
        52
    }
}

/// The ordinal day, relative to January 1st of `year` (which is 1, so
/// zero and negative values fall in the year before), of the Monday of
/// ISO week 1: the Monday of the week that holds January 4th.
pub open spec fn week1_monday_ord_spec(year: int) -> int {
    5 - weekday_num_spec(year, 4)
}

/// The ordinal day, relative to January 1st of `year` as above, of the
/// ISO week date `(year, week, wd)` with `wd` an ISO weekday number.
pub open spec fn iso_ywd_ord_spec(year: int, week: int, wd: int) -> int {
    week1_monday_ord_spec(year) + (week - 1) * 7 + (wd - 1)
}

/// The number of leap years on the day line strictly before the given
/// year: the proleptic count of multiples of 4 that are not multiples of
/// 100 unless also of 400, among the years up to and excluding `year`.
pub open spec fn leap_years_before(year: int) -> int {
    (year - 1) / 4 - (year - 1) / 100 + (year - 1) / 400
}

/// The number of the day `(year, ord)` on the continuous day line that
/// numbers January 1st of year 1 as day 1.
pub open spec fn day_number_spec(year: int, ord: int) -> int {
    365 * (year - 1) + leap_years_before(year) + ord
}

/// The day number of January 1st, 1970, the Unix epoch.
pub const UNIX_EPOCH_DAY_NUMBER: i64 = 719_163;

proof fn lemma_div_step(a: int, d: int)
    requires
        d > 0,
    ensures
        (a + 1) % d == 0 ==> (a + 1) / d == a / d + 1,
        (a + 1) % d != 0 ==> (a + 1) / d == a / d,
{
    let q = a / d;
    let r = a % d;
    vstd::arithmetic::div_mod::lemma_fundamental_div_mod(a, d);
    vstd::arithmetic::div_mod::lemma_mod_division_less_than_divisor(a, d);
    vstd::arithmetic::mul::lemma_mul_is_commutative(d, q);
    if r + 1 < d {
        vstd::arithmetic::div_mod::lemma_fundamental_div_mod_converse_div(a + 1, d, q, r + 1);
        vstd::arithmetic::div_mod::lemma_fundamental_div_mod_converse_mod(a + 1, d, q, r + 1);
    } else {
        vstd::arithmetic::mul::lemma_mul_is_commutative(d, q + 1);
        vstd::arithmetic::mul::lemma_mul_is_distributive_add(d, q, 1);
        vstd::arithmetic::mul::lemma_mul_basics(d);
        vstd::arithmetic::div_mod::lemma_fundamental_div_mod_converse_div(a + 1, d, q + 1, 0);
        vstd::arithmetic::div_mod::lemma_fundamental_div_mod_converse_mod(a + 1, d, q + 1, 0);
    }
}

proof fn lemma_leap_divisibility(y: int)
    ensures
        y % 400 == 0 ==> y % 100 == 0,
        y % 100 == 0 ==> y % 4 == 0,
{
    if y % 400 == 0 {
        vstd::arithmetic::div_mod::lemma_fundamental_div_mod(y, 400);
        vstd::arithmetic::div_mod::lemma_mod_multiples_vanish(4 * (y / 400), 0, 100);
        vstd::arithmetic::div_mod::lemma_small_mod(0nat, 100nat);
    }
    if y % 100 == 0 {
        vstd::arithmetic::div_mod::lemma_fundamental_div_mod(y, 100);
        vstd::arithmetic::div_mod::lemma_mod_multiples_vanish(25 * (y / 100), 0, 4);
        vstd::arithmetic::div_mod::lemma_small_mod(0nat, 4nat);
    }
}

/// Stepping one year forward on the day line moves January 1st by
/// exactly the length of the year stepped over.
pub proof fn lemma_day_number_step(year: int)
    ensures
        day_number_spec(year + 1, 1) == day_number_spec(year, 1) + days_in_year_spec(year),
{
    lemma_div_step(year - 1, 4);
    lemma_div_step(year - 1, 100);
    lemma_div_step(year - 1, 400);
    lemma_leap_divisibility(year);
}

proof fn lemma_day_number_bounds()
    ensures
        day_number_spec(-999_999_999, 1) == -365_242_499_999,
        day_number_spec(1_000_000_000, 1) == 365_242_499_635,
{
    vstd::arithmetic::div_mod::lemma_fundamental_div_mod_converse_div(
        -1_000_000_000,
        4,
        -250_000_000,
        0,
    );
    vstd::arithmetic::div_mod::lemma_fundamental_div_mod_converse_div(
        -1_000_000_000,
        100,
        -10_000_000,
        0,
    );
    vstd::arithmetic::div_mod::lemma_fundamental_div_mod_converse_div(
        -1_000_000_000,
        400,
        -2_500_000,
        0,
    );
    vstd::arithmetic::div_mod::lemma_fundamental_div_mod_converse_div(
        999_999_999,
        4,
        249_999_999,
        3,
    );
    vstd::arithmetic::div_mod::lemma_fundamental_div_mod_converse_div(
        999_999_999,
        100,
        9_999_999,
        99,
    );
    vstd::arithmetic::div_mod::lemma_fundamental_div_mod_converse_div(
        999_999_999,
        400,
        2_499_999,
        399,
    );
}

/// A date in the proleptic Gregorian calendar.
///
/// Years in the range `-999_999_999..=999_999_999` are supported.
///
/// Two dates are equal exactly when their years and ordinal days are,
/// and the derived ordering is chronological: by the year first, then by
/// the ordinal day within it.
#[derive(Clone, Copy, Debug, Eq, PartialEq, PartialOrd, Ord, Structural)]
pub struct Date {
    /// The year.
    // This is to support years up to 999,999,999.
    pub year: i32,
    /// The ordinal day within the year.
    pub day: u16,
}

impl Date {
    /// A date is well formed when its year is supported and its ordinal
    /// day exists within that year.
    pub open spec fn wf(self) -> bool {
        &&& -999_999_999 <= self.year <= 999_999_999
        &&& 1 <= self.day <= days_in_year_spec(self.year as int)
    }

    /// The numerical year.
    pub fn year(&self) -> (y: i32)
        ensures
            y == self.year,
    {
        self.year
    }

    /// Returns the ordinal day within the year.
    pub fn day_ord(&self) -> (d: u16)
        ensures
            d == self.day,
    {
        self.day
    }

    /// Whether this represents a leap year.
    pub fn is_leap_year(&self) -> (r: bool)
        ensures
            r == is_leap_spec(self.year as int),
    {
        Self::is_leap(self.year)
    }

    fn is_leap(year: i32) -> (r: bool)
        ensures
            r == is_leap_spec(year as int),
    {
        year % 4 == 0 && (year % 100 != 0 || year % 400 == 0)
    }

    fn days_in_year(year: i32) -> (n: u16)
        ensures
            n as int == days_in_year_spec(year as int),
    {
        if Self::is_leap(year) {
            366
        } else {
            365
        }
    }

    fn month_end(leap: bool, m: u8) -> (r: u16)
        requires
            m <= 12,
        ensures
            r as int == month_end_spec(leap, m as int),
    {
        match m {
            0 => 0,
            1 => 31,
            2 => if leap { 60 } else { 59 },
            3 => if leap { 91 } else { 90 },
            4 => if leap { 121 } else { 120 },
            5 => if leap { 152 } else { 151 },
            6 => if leap { 182 } else { 181 },
            7 => if leap { 213 } else { 212 },
            8 => if leap { 244 } else { 243 },
            9 => if leap { 274 } else { 273 },
            10 => if leap { 305 } else { 304 },
            11 => if leap { 335 } else { 334 },
            _ => if leap { 366 } else { 365 },
        }
    }

    /// Returns a [Date] from the calendar date.
    ///
    /// `year` is the Gregorian ordinal year.
    ///
    /// `month` is a number from 1 to 12.
    ///
    /// `day` is a number from 1 to 31.
    ///
    /// # Errors
    ///
    /// [Error::UnsupportedYear] is returned when the year is outside
    /// `-999_999_999..=999_999_999`, before anything else is checked;
    /// [Error::RangeExceeded] when the date does not exist, e.g. April
    /// 31st or February 29th of a non-leap year.
    pub fn from_ymd(year: i32, month: u8, day: u8) -> (r: Result<Self, Error>)
        ensures
            !(-999_999_999 <= year <= 999_999_999) ==> r == Err::<Self, Error>(
                Error::UnsupportedYear,
            ),
            -999_999_999 <= year <= 999_999_999 && !valid_ymd(
                year as int,
                month as int,
                day as int,
            ) ==> r == Err::<Self, Error>(Error::RangeExceeded),
            valid_ymd(year as int, month as int, day as int) ==> (r matches Ok(d) && d.wf()
                && d.year == year && d.day as int == ord_of_ymd(year as int, month as int, day as int)),
    {
        if year < -999_999_999 || 999_999_999 < year {
            return Err(Error::UnsupportedYear);
        }
        if month < 1 || 12 < month || day < 1 {
            return Err(Error::RangeExceeded);
        }
        let leap = Self::is_leap(year);
        let ord = Self::month_end(leap, month - 1) + day as u16;
        if ord > Self::month_end(leap, month) {
            return Err(Error::RangeExceeded);
        }
        Ok(Date { year, day: ord })
    }

    /// Returns a [Date] from the ISO week date.
    ///
    /// `year` is the Gregorian ordinal year of the ISO week-based year.
    ///
    /// `week` is the ISO week number, counted from the week that holds
    /// January 4th; that week's Monday is day 1 of the week-based year.
    ///
    /// `day` is the [Weekday].
    ///
    /// The resulting date may fall in the calendar year before or after
    /// `year`, since the first and last ISO weeks straddle January 1st.
    ///
    /// # Errors
    ///
    /// [Error::UnsupportedYear] is returned when `year` is outside
    /// `-999_999_999..=999_999_999`; [Error::RangeExceeded] when the week
    /// number does not exist for that week-based year (only 1 to 52 or
    /// 53, by the year's length), or when the date lands in a calendar
    /// year outside the supported range.
    pub fn from_iso_ywd(year: i32, week: u32, day: Weekday) -> (r: Result<Self, Error>)
        ensures
            !(-999_999_999 <= year <= 999_999_999) ==> r == Err::<Self, Error>(
                Error::UnsupportedYear,
            ),
            -999_999_999 <= year <= 999_999_999 && !(1 <= week <= weeks_in_iso_year_spec(
                year as int,
            )) ==> r == Err::<Self, Error>(Error::RangeExceeded),
            -999_999_999 <= year <= 999_999_999 && 1 <= week <= weeks_in_iso_year_spec(year as int)
                ==> {
                let t = iso_ywd_ord_spec(year as int, week as int, iso_num_spec(day));
                &&& (t < 1 && year == -999_999_999) ==> r == Err::<Self, Error>(
                    Error::RangeExceeded,
                )
                &&& (t < 1 && year > -999_999_999) ==> (r matches Ok(d) && d.wf() && d.year
                    == year - 1 && d.day as int == t + days_in_year_spec(year - 1))
                &&& (1 <= t <= days_in_year_spec(year as int)) ==> (r matches Ok(d) && d.wf()
                    && d.year == year && d.day as int == t)
                &&& (t > days_in_year_spec(year as int) && year == 999_999_999) ==> r == Err::<
                    Self,
                    Error,
                >(Error::RangeExceeded)
                &&& (t > days_in_year_spec(year as int) && year < 999_999_999) ==> (r matches Ok(d)
                    && d.wf() && d.year == year + 1 && d.day as int == t - days_in_year_spec(
                    year as int,
                ))
            },
    {
        if year < -999_999_999 || 999_999_999 < year {
            return Err(Error::UnsupportedYear);
        }
        let jan1 = Self::weekday_num(year, 1);
        let leap = Self::is_leap(year);
        let weeks: u32 = if jan1 == 4 || (leap && jan1 == 3) {
            53
        } else {
            52
        };
        if week < 1 || week > weeks {
            return Err(Error::RangeExceeded);
        }
        let jan4 = Self::weekday_num(year, 4);
        let t: i64 = (5 - jan4 as i64) + (week as i64 - 1) * 7 + (day.iso_number() as i64 - 1);
        if t < 1 {
            if year == -999_999_999 {
                return Err(Error::RangeExceeded);
            }
            let prev_len = Self::days_in_year(year - 1);
            Ok(Date { year: year - 1, day: (t + prev_len as i64) as u16 })
        } else {
            let len = Self::days_in_year(year);
            if t <= len as i64 {
                Ok(Date { year, day: t as u16 })
            } else {
                if year == 999_999_999 {
                    return Err(Error::RangeExceeded);
                }
                Ok(Date { year: year + 1, day: (t - len as i64) as u16 })
            }
        }
    }

    /// Returns a [Date] from a count of days since the Unix epoch, day 0
    /// being January 1st, 1970.
    ///
    /// # Errors
    ///
    /// Returns [Error::InvalidSystemTime] when the day falls outside the
    /// supported year range.
    pub fn from_unix_days(days: i64) -> (r: Result<Self, Error>)
        ensures
            day_number_spec(-999_999_999, 1) <= days + UNIX_EPOCH_DAY_NUMBER < day_number_spec(
                1_000_000_000,
                1,
            ) ==> (r matches Ok(d) && d.wf() && day_number_spec(d.year as int, d.day as int) == days
                + UNIX_EPOCH_DAY_NUMBER),
            !(day_number_spec(-999_999_999, 1) <= days + UNIX_EPOCH_DAY_NUMBER < day_number_spec(
                1_000_000_000,
                1,
            )) ==> r == Err::<Self, Error>(Error::InvalidSystemTime),
    {
        proof {
            lemma_day_number_bounds();
        }
        // A coarse bound first, so that the shift to day numbers cannot
        // overflow; everything it rejects lies outside the exact bounds.
        if days < -400_000_000_000 || days > 400_000_000_000 {
            return Err(Error::InvalidSystemTime);
        }
        let target: i64 = days + UNIX_EPOCH_DAY_NUMBER;
        let lo = Self::day_number_jan1(-999_999_999);
        let hi = Self::day_number_jan1(1_000_000_000);
        if target < lo || target >= hi {
            return Err(Error::InvalidSystemTime);
        }
        // An estimate of the year from the average year length of the
        // 400-year cycle; the loops below correct it either way.
        let mut y: i64 = (400 * target) / 146_097 + 1;
        if y < -999_999_999 {
            y = -999_999_999;
        }
        if y > 999_999_999 {
            y = 999_999_999;
        }
        while Self::day_number_jan1(y) > target
            invariant
                -999_999_999 <= y <= 999_999_999,
                day_number_spec(-999_999_999, 1) <= target,
            decreases y + 1_000_000_000,
        {
            y = y - 1;
        }
        while y < 999_999_999 && Self::day_number_jan1(y + 1) <= target
            invariant
                -999_999_999 <= y <= 999_999_999,
                day_number_spec(y as int, 1) <= target,
            decreases 1_000_000_000 - y,
        {
            y = y + 1;
        }
        proof {
            lemma_day_number_step(y as int);
        }
        let ord: i64 = target - Self::day_number_jan1(y) + 1;
        Ok(Date { year: y as i32, day: ord as u16 })
    }

    fn day_number_jan1(year: i64) -> (n: i64)
        requires
            -1_000_000_001 <= year <= 1_000_000_001,
        ensures
            n == day_number_spec(year as int, 1),
    {
        // Shift by a multiple of 400 years so that each quotient is taken
        // of a non-negative value, then take the shift's quotients back out.
        let y: i64 = (year - 1) + 4_000_000_000;
        let leaps: i64 = y / 4 - y / 100 + y / 400 - 970_000_000;
        proof {
            vstd::arithmetic::div_mod::lemma_hoist_over_denominator(
                year as int - 1,
                1_000_000_000,
                4nat,
            );
            vstd::arithmetic::div_mod::lemma_hoist_over_denominator(
                year as int - 1,
                40_000_000,
                100nat,
            );
            vstd::arithmetic::div_mod::lemma_hoist_over_denominator(
                year as int - 1,
                10_000_000,
                400nat,
            );
        }
        365 * (year - 1) + leaps + 1
    }

    /// Returns the weekday.
    pub fn weekday(&self) -> (w: Weekday)
        ensures
            w == weekday_spec(self.year as int, self.day as int),
    {
        let n = Self::weekday_num(self.year, self.day);
        Weekday::from_iso_in_range(n)
    }

    fn weekday_num(year: i32, ord: u16) -> (n: u8)
        ensures
            1 <= n <= 7,
            n as int == weekday_num_spec(year as int, ord as int),
    {
        // Shift the year by a multiple of 400 so that every remainder is
        // taken of a non-negative value; a native remainder of a negative
        // value would not be the mathematical one the rule needs.
        let y: i64 = (year as i64 - 1) + 4_000_000_000;
        let r: i64 = (ord as i64 + 5 * (y % 4) + 4 * (y % 100) + 6 * (y % 400)) % 7;
        proof {
            vstd::arithmetic::div_mod::lemma_mod_multiples_vanish(
                1_000_000_000,
                year as int - 1,
                4,
            );
            vstd::arithmetic::div_mod::lemma_mod_multiples_vanish(40_000_000, year as int - 1, 100);
            vstd::arithmetic::div_mod::lemma_mod_multiples_vanish(10_000_000, year as int - 1, 400);
        }
        if r == 0 {
            7
        } else {
            r as u8
        }
    }

    fn md(&self) -> (r: (u8, u8))
        requires
            self.wf(),
        ensures
            r.0 as int == month_of_ord(is_leap_spec(self.year as int), self.day as int),
            r.1 as int == day_of_ord(is_leap_spec(self.year as int), self.day as int),
    {
        let leap = Self::is_leap(self.year);
        let mut m: u8 = 1;
        while m < 12 && Self::month_end(leap, m) < self.day
            invariant
                1 <= m <= 12,
                self.wf(),
                leap == is_leap_spec(self.year as int),
                month_end_spec(leap, m as int - 1) < self.day as int,
            decreases 12 - m,
        {
            m = m + 1;
        }
        let d = self.day - Self::month_end(leap, m - 1);
        (m, d as u8)
    }

    /// The day within its month.
    pub fn day(&self) -> (d: u8)
        requires
            self.wf(),
        ensures
            d as int == day_of_ord(is_leap_spec(self.year as int), self.day as int),
    {
        self.md().1
    }

    /// The month.
    pub fn month(&self) -> (m: u8)
        requires
            self.wf(),
        ensures
            m as int == month_of_ord(is_leap_spec(self.year as int), self.day as int),
    {
        self.md().0
    }
}

/// Round trip: reading the month and the day within the month back from
/// the ordinal day of a valid calendar date `(year, month, day)` yields
/// exactly `month` and `day` again.
pub proof fn lemma_ymd_round_trip(year: int, month: int, day: int)
    requires
        valid_ymd(year, month, day),
    ensures
        month_of_ord(is_leap_spec(year), ord_of_ymd(year, month, day)) == month,
        day_of_ord(is_leap_spec(year), ord_of_ymd(year, month, day)) == day,
{
}

/// Periodicity: the proleptic Gregorian calendar repeats every 400
/// years, so a valid calendar date keeps both its validity and its
/// weekday when 400 years are added.
pub proof fn lemma_weekday_periodic(year: int, month: int, day: int)
    requires
        valid_ymd(year, month, day),
        year + 400 <= 999_999_999,
    ensures
        valid_ymd(year + 400, month, day),
        weekday_spec(year + 400, ord_of_ymd(year + 400, month, day)) == weekday_spec(
            year,
            ord_of_ymd(year, month, day),
        ),
{
    vstd::arithmetic::div_mod::lemma_mod_multiples_vanish(100, year - 1, 4);
    vstd::arithmetic::div_mod::lemma_mod_multiples_vanish(4, year - 1, 100);
    vstd::arithmetic::div_mod::lemma_mod_multiples_vanish(1, year - 1, 400);
    vstd::arithmetic::div_mod::lemma_mod_multiples_vanish(100, year, 4);
    vstd::arithmetic::div_mod::lemma_mod_multiples_vanish(4, year, 100);
    vstd::arithmetic::div_mod::lemma_mod_multiples_vanish(1, year, 400);
}

} // verus!
