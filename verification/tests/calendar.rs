use cn_offday::calendar::{days_in_month, is_leap_year};
use cn_offday::{CivilDate, Weekday};

fn weekday_by_time(year: i32, month: u8, day: u8) -> Weekday {
    let month = time::Month::try_from(month).unwrap();
    match time::Date::from_calendar_date(year, month, day).unwrap().weekday() {
        time::Weekday::Monday => Weekday::Monday,
        time::Weekday::Tuesday => Weekday::Tuesday,
        time::Weekday::Wednesday => Weekday::Wednesday,
        time::Weekday::Thursday => Weekday::Thursday,
        time::Weekday::Friday => Weekday::Friday,
        time::Weekday::Saturday => Weekday::Saturday,
        time::Weekday::Sunday => Weekday::Sunday,
    }
}

#[test]
fn leap_years() {
    assert!(is_leap_year(2024));
    assert!(!is_leap_year(2025));
    assert!(!is_leap_year(1900));
    assert!(is_leap_year(2000));
    assert!(is_leap_year(0));
    assert!(is_leap_year(-4));
    assert!(!is_leap_year(-1));
    assert!(!is_leap_year(-100));
    assert!(is_leap_year(-400));
    assert!(!is_leap_year(i32::MAX));
    assert!(is_leap_year(i32::MIN));
}

#[test]
fn month_lengths() {
    let common = [31, 28, 31, 30, 31, 30, 31, 31, 30, 31, 30, 31];
    for month in 1..=12u8 {
        assert_eq!(days_in_month(2025, month), common[month as usize - 1]);
    }
    assert_eq!(days_in_month(2024, 2), 29);
    assert_eq!(days_in_month(1900, 2), 28);
    assert_eq!(days_in_month(2000, 2), 29);
    assert_eq!(days_in_month(2025, 0), 0);
    assert_eq!(days_in_month(2025, 13), 0);
    assert_eq!(days_in_month(2025, 255), 0);
}

#[test]
fn only_days_that_exist_are_dates() {
    assert!(CivilDate::new(2025, 1, 1).is_some());
    assert!(CivilDate::new(2025, 12, 31).is_some());
    assert!(CivilDate::new(2024, 2, 29).is_some());
    assert!(CivilDate::new(2025, 2, 29).is_none());
    assert!(CivilDate::new(2025, 4, 31).is_none());
    assert!(CivilDate::new(2025, 0, 1).is_none());
    assert!(CivilDate::new(2025, 13, 1).is_none());
    assert!(CivilDate::new(2025, 1, 0).is_none());
    assert!(CivilDate::new(2025, 1, 32).is_none());
    assert!(CivilDate::new(i32::MIN, 2, 29).is_some());
    assert!(CivilDate::new(i32::MAX, 2, 29).is_none());
    let date = CivilDate::new(-44, 3, 15).unwrap();
    assert_eq!((date.year(), date.month(), date.day()), (-44, 3, 15));
}

#[test]
fn known_weekdays() {
    let cases = [
        ((1, 1, 1), Weekday::Monday),
        ((1970, 1, 1), Weekday::Thursday),
        ((2000, 1, 1), Weekday::Saturday),
        ((2019, 1, 1), Weekday::Tuesday),
        ((2019, 6, 1), Weekday::Saturday),
        ((2019, 9, 1), Weekday::Sunday),
        ((2024, 2, 29), Weekday::Thursday),
        ((2025, 1, 1), Weekday::Wednesday),
        ((2025, 1, 2), Weekday::Thursday),
        ((2025, 1, 3), Weekday::Friday),
        ((2025, 1, 4), Weekday::Saturday),
        ((2025, 9, 28), Weekday::Sunday),
        ((2025, 9, 29), Weekday::Monday),
        ((0, 12, 31), Weekday::Sunday),
        ((-4713, 11, 24), Weekday::Monday),
    ];
    for ((year, month, day), weekday) in cases {
        let date = CivilDate::new(year, month, day).unwrap();
        assert_eq!(date.weekday(), weekday);
        assert_eq!(
            date.is_weekend(),
            weekday == Weekday::Saturday || weekday == Weekday::Sunday
        );
    }
}

#[test]
fn weekdays_agree_with_time_day_by_day() {
    let years = [
        -9999, -4713, -401, -400, -101, -100, -5, -4, -1, 0, 1, 4, 100, 400, 1582, 1899, 1900,
        1970, 1999, 2000, 2023, 2024, 2025, 2026, 2100, 2400, 9998, 9999,
    ];
    for year in years {
        for month in 1..=12u8 {
            for day in 1..=days_in_month(year, month) {
                let date = CivilDate::new(year, month, day).unwrap();
                assert_eq!(date.weekday(), weekday_by_time(year, month, day));
            }
        }
    }
}

#[test]
fn weekdays_follow_each_other() {
    let order = [
        Weekday::Monday,
        Weekday::Tuesday,
        Weekday::Wednesday,
        Weekday::Thursday,
        Weekday::Friday,
        Weekday::Saturday,
        Weekday::Sunday,
    ];
    for year in [i32::MIN, -1_000_000, -1, 0, 2025, 1_000_000, i32::MAX - 1] {
        let last = CivilDate::new(year, 12, 31).unwrap().weekday();
        let first = CivilDate::new(year + 1, 1, 1).unwrap().weekday();
        let place = order.iter().position(|day| *day == last).unwrap();
        assert_eq!(first, order[(place + 1) % 7]);
    }
}

#[test]
fn dates_of_one_year_fall_as_those_400_years_later() {
    for year in [i32::MIN, -2_000_000_000, -12_345, 12_345, 2_000_000_000] {
        let near = year.rem_euclid(400) + 2000;
        for (month, day) in [(1, 1), (2, 28), (3, 1), (7, 4), (12, 31)] {
            let far = CivilDate::new(year, month, day).unwrap();
            assert_eq!(far.weekday(), weekday_by_time(near, month, day));
        }
    }
}

#[test]
fn iso_text_of_dates() {
    let text = |year, month, day| CivilDate::new(year, month, day).unwrap().to_iso_text();
    assert_eq!(text(2025, 1, 1).unwrap(), "2025-01-01");
    assert_eq!(text(2025, 12, 31).unwrap(), "2025-12-31");
    assert_eq!(text(2024, 2, 29).unwrap(), "2024-02-29");
    assert_eq!(text(987, 6, 5).unwrap(), "0987-06-05");
    assert_eq!(text(7, 10, 20).unwrap(), "0007-10-20");
    assert_eq!(text(0, 1, 1).unwrap(), "0000-01-01");
    assert_eq!(text(9999, 12, 31).unwrap(), "9999-12-31");
    assert_eq!(text(-1, 1, 1).unwrap(), "-0001-01-01");
    assert_eq!(text(-9999, 11, 30).unwrap(), "-9999-11-30");
    assert_eq!(text(10_000, 1, 1), None);
    assert_eq!(text(-10_000, 1, 1), None);
    assert_eq!(text(i32::MAX, 1, 1), None);
    assert_eq!(text(i32::MIN, 1, 1), None);
}

#[test]
fn iso_text_agrees_with_time() {
    let description = time::format_description::parse_borrowed::<1>("[year]-[month]-[day]").unwrap();
    for year in [-9999, -1234, -1, 0, 1, 99, 100, 999, 1000, 2024, 2025, 9999] {
        for month in 1..=12u8 {
            for day in 1..=days_in_month(year, month) {
                let theirs = time::Date::from_calendar_date(
                    year,
                    time::Month::try_from(month).unwrap(),
                    day,
                )
                .unwrap()
                .format(&description)
                .unwrap();
                let ours = CivilDate::new(year, month, day).unwrap().to_iso_text().unwrap();
                assert_eq!(ours, theirs);
            }
        }
    }
}
