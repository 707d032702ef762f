use hightime::Date;
use hightime::Error;
use hightime::Weekday;

#[test]
fn weekday_iso_round_trip() {
    let all = vec![
        Weekday::Monday,
        Weekday::Tuesday,
        Weekday::Wednesday,
        Weekday::Thursday,
        Weekday::Friday,
        Weekday::Saturday,
        Weekday::Sunday,
    ];
    for (i, w) in all.into_iter().enumerate() {
        let n = w.iso_number();
        assert_eq!(n as usize, i + 1);
        assert_eq!(Weekday::from_iso(n), Ok(w));
    }
}

#[test]
fn weekday_iso_range() {
    assert_eq!(Weekday::from_iso(0), Err(Error::RangeExceeded));
    assert_eq!(Weekday::from_iso(8), Err(Error::RangeExceeded));
}

#[test]
fn iso_ywd() {
    // 2023-03-01 is the Wednesday of ISO week 9 of 2023.
    let d = Date::from_iso_ywd(2023, 9, Weekday::Wednesday).unwrap();
    assert_eq!(d, Date::from_ymd(2023, 3, 1).unwrap());
    // Week 1 of 2015 starts in the calendar year 2014.
    let d = Date::from_iso_ywd(2015, 1, Weekday::Monday).unwrap();
    assert_eq!(d, Date::from_ymd(2014, 12, 29).unwrap());
    // The last ISO week of 2020 reaches into the calendar year 2021.
    let d = Date::from_iso_ywd(2020, 53, Weekday::Friday).unwrap();
    assert_eq!(d, Date::from_ymd(2021, 1, 1).unwrap());
}

#[test]
fn iso_ywd_week_range() {
    // 2023 has 52 ISO weeks, 2020 has 53.
    assert_eq!(Date::from_iso_ywd(2023, 53, Weekday::Monday), Err(Error::RangeExceeded));
    assert_eq!(Date::from_iso_ywd(2023, 0, Weekday::Monday), Err(Error::RangeExceeded));
    assert!(Date::from_iso_ywd(2020, 53, Weekday::Monday).is_ok());
    assert_eq!(Date::from_iso_ywd(2020, 54, Weekday::Monday), Err(Error::RangeExceeded));
    assert_eq!(
        Date::from_iso_ywd(1_000_000_000, 1, Weekday::Monday),
        Err(Error::UnsupportedYear)
    );
}

#[test]
fn iso_ywd_weekday_agrees() {
    let d = Date::from_iso_ywd(2020, 53, Weekday::Friday).unwrap();
    assert_eq!(d.weekday(), Weekday::Friday);
    let d = Date::from_iso_ywd(2023, 9, Weekday::Sunday).unwrap();
    assert_eq!(d.weekday(), Weekday::Sunday);
}

#[test]
fn unix_days() {
    assert_eq!(Date::from_unix_days(0).unwrap(), Date::from_ymd(1970, 1, 1).unwrap());
    assert_eq!(Date::from_unix_days(-1).unwrap(), Date::from_ymd(1969, 12, 31).unwrap());
    assert_eq!(Date::from_unix_days(12_477).unwrap(), Date::from_ymd(2004, 2, 29).unwrap());
    assert_eq!(Date::from_unix_days(19_417).unwrap(), Date::from_ymd(2023, 3, 1).unwrap());
}

#[test]
fn unix_days_out_of_range() {
    assert_eq!(Date::from_unix_days(i64::MAX), Err(Error::InvalidSystemTime));
    assert_eq!(Date::from_unix_days(i64::MIN), Err(Error::InvalidSystemTime));
    assert_eq!(Date::from_unix_days(400_000_000_000), Err(Error::InvalidSystemTime));
}
