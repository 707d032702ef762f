use hightime::Date;
use hightime::Error;
use hightime::Weekday;

#[test]
fn date_leap_years() {
    assert!(Date { year: -800, day: 0 }.is_leap_year());
    assert!(Date { year: 0, day: 0 }.is_leap_year());
    assert!(Date { year: 1200, day: 0 }.is_leap_year());
    assert!(Date { year: 2000, day: 0 }.is_leap_year());
    assert!(Date { year: 2004, day: 0 }.is_leap_year());
    assert!(!Date { year: -100, day: 0 }.is_leap_year());
    assert!(!Date { year: 1700, day: 0 }.is_leap_year());
    assert!(!Date { year: 1900, day: 0 }.is_leap_year());
    assert!(!Date { year: 2003, day: 0 }.is_leap_year());
    assert!(!Date { year: 2023, day: 0 }.is_leap_year());
}

#[test]
fn date_day() {
    assert_eq!(Date { year: 0, day: 1 }.day(), 1);
    assert_eq!(Date { year: 0, day: 31 }.day(), 31);
    assert_eq!(Date { year: 0, day: 32 }.day(), 1);
    assert_eq!(Date { year: 3, day: 60 }.day(), 1);
    assert_eq!(Date { year: 3, day: 365 }.day(), 31);
    assert_eq!(Date { year: 4, day: 32 }.day(), 1);
    assert_eq!(Date { year: 4, day: 60 }.day(), 29);
    assert_eq!(Date { year: 4, day: 61 }.day(), 1);
    assert_eq!(Date { year: 4, day: 366 }.day(), 31);
}

#[test]
fn date_month() {
    assert_eq!(Date { year: 0, day: 1 }.month(), 1);
    assert_eq!(Date { year: 0, day: 31 }.month(), 1);
    assert_eq!(Date { year: 0, day: 32 }.month(), 2);
    assert_eq!(Date { year: 3, day: 60 }.month(), 3);
    assert_eq!(Date { year: 3, day: 365 }.month(), 12);
    assert_eq!(Date { year: 4, day: 32 }.month(), 2);
    assert_eq!(Date { year: 4, day: 60 }.month(), 2);
    assert_eq!(Date { year: 4, day: 61 }.month(), 3);
    assert_eq!(Date { year: 4, day: 366 }.month(), 12);
}

#[test]
fn date_ymd_range() {
    assert_eq!(Date::from_ymd(2004, 0, 1), Err(Error::RangeExceeded));
    assert_eq!(Date::from_ymd(2004, 13, 1), Err(Error::RangeExceeded));
    assert_eq!(Date::from_ymd(2004, 1, 0), Err(Error::RangeExceeded));
    assert_eq!(Date::from_ymd(2004, 1, 32), Err(Error::RangeExceeded));
    assert_eq!(Date::from_ymd(2003, 2, 29), Err(Error::RangeExceeded));
    assert!(Date::from_ymd(2004, 2, 29).is_ok());
}

#[test]
fn date_ymd() {
    assert_eq!(Date::from_ymd(2004, 2, 29).unwrap().day_ord(), 60);
    assert_eq!(Date::from_ymd(2004, 3, 1).unwrap().day_ord(), 61);
    assert_eq!(Date::from_ymd(2003, 3, 1).unwrap().day_ord(), 60);
    assert_eq!(Date::from_ymd(2002, 12, 31).unwrap().day_ord(), 365);
    assert_eq!(Date::from_ymd(2004, 12, 31).unwrap().day_ord(), 366);
}

#[test]
fn date_weekday() {
    assert_eq!(
        Date::from_ymd(2023, 3, 1).unwrap().weekday(),
        Weekday::Wednesday
    );
    assert_eq!(
        Date::from_ymd(1200, 4, 28).unwrap().weekday(),
        Weekday::Friday
    );
}

#[test]
fn date_unsupported_year() {
    assert_eq!(Date::from_ymd(1_000_000_000, 1, 1), Err(Error::UnsupportedYear));
    assert_eq!(Date::from_ymd(-1_000_000_000, 1, 1), Err(Error::UnsupportedYear));
    assert!(Date::from_ymd(999_999_999, 12, 31).is_ok());
    assert!(Date::from_ymd(-999_999_999, 1, 1).is_ok());
}

#[test]
fn date_ymd_round_trip() {
    let d = Date::from_ymd(2004, 2, 29).unwrap();
    assert_eq!(d.year(), 2004);
    assert_eq!(d.month(), 2);
    assert_eq!(d.day(), 29);
    let d = Date::from_ymd(2023, 12, 31).unwrap();
    assert_eq!(d.year(), 2023);
    assert_eq!(d.month(), 12);
    assert_eq!(d.day(), 31);
    let d = Date::from_ymd(-44, 3, 15).unwrap();
    assert_eq!(d.year(), -44);
    assert_eq!(d.month(), 3);
    assert_eq!(d.day(), 15);
}

#[test]
fn date_weekday_negative_year() {
    assert_eq!(Date { year: -4, day: 1 }.weekday(), Weekday::Monday);
}

#[test]
fn date_weekday_periodic() {
    assert_eq!(
        Date::from_ymd(1623, 3, 1).unwrap().weekday(),
        Date::from_ymd(2023, 3, 1).unwrap().weekday()
    );
    assert_eq!(
        Date::from_ymd(-399_999_980, 7, 4).unwrap().weekday(),
        Date::from_ymd(-400_000_380, 7, 4).unwrap().weekday()
    );
}

#[test]
fn date_ordering() {
    assert!(Date { year: 2003, day: 300 } < Date { year: 2004, day: 1 });
    assert!(Date { year: 2004, day: 1 } < Date { year: 2004, day: 2 });
    assert_eq!(Date { year: 2004, day: 2 }, Date { year: 2004, day: 2 });
}
