use chrono::{Datelike, Days, Duration, Months, NaiveDate, NaiveDateTime, Timelike, Utc};
use flexitime::calendar::{CalendarDate, Timestamp, Weekday};
use flexitime::parser::absolute::{
    AbsoluteTime, AbsoluteTimeBuilder, DayOffset, FlexiDate, TimePeriod, WallClockTime,
};
use flexitime::parser::relative::time::RelativeTime;
use flexitime::{parse_timestring, ParsedTime};

fn stamp(t: NaiveDateTime) -> Timestamp {
    Timestamp {
        date: CalendarDate { year: t.year(), month: t.month(), day: t.day() },
        hour: t.hour(),
        minute: t.minute(),
        second: t.second(),
        nanosecond: t.nanosecond(),
    }
}

fn naive(t: Timestamp) -> NaiveDateTime {
    NaiveDate::from_ymd_opt(t.date.year, t.date.month, t.date.day)
        .unwrap()
        .and_hms_nano_opt(t.hour, t.minute, t.second, t.nanosecond)
        .unwrap()
}

fn at(year: i32, month: u32, day: u32, hour: u32, minute: u32, second: u32) -> NaiveDateTime {
    NaiveDate::from_ymd_opt(year, month, day)
        .unwrap()
        .and_hms_nano_opt(hour, minute, second, 123_456_789)
        .unwrap()
}

fn weekday(w: chrono::Weekday) -> Weekday {
    match w {
        chrono::Weekday::Mon => Weekday::Mon,
        chrono::Weekday::Tue => Weekday::Tue,
        chrono::Weekday::Wed => Weekday::Wed,
        chrono::Weekday::Thu => Weekday::Thu,
        chrono::Weekday::Fri => Weekday::Fri,
        chrono::Weekday::Sat => Weekday::Sat,
        chrono::Weekday::Sun => Weekday::Sun,
    }
}

#[test]
fn test_to_datetime() {
    let base_time = Utc::now().naive_utc();

    let time = RelativeTime::new()
        .years(1)
        .months(2)
        .weeks(3)
        .days(4)
        .hours(5)
        .minutes(6)
        .seconds(7)
        .to_chrono(stamp(base_time.clone()))
        .unwrap();

    let mut new_time = base_time
        + Duration::seconds(7)
        + Duration::minutes(6)
        + Duration::hours(5)
        + Duration::days(4)
        + Duration::weeks(3);
    new_time = new_time.checked_add_months(Months::new(2)).unwrap();
    new_time = new_time.checked_add_months(Months::new(1 * 12)).unwrap();

    assert_eq!(naive(time), new_time)
}

#[test]
fn test_to_datetime_negative() {
    let base_time = Utc::now().naive_utc();

    let time = RelativeTime::new()
        .years(1)
        .months(2)
        .weeks(3)
        .days(4)
        .hours(5)
        .minutes(6)
        .seconds(7)
        .ago()
        .to_chrono(stamp(base_time.clone()))
        .unwrap();

    let mut new_time = base_time
        - Duration::seconds(7)
        - Duration::minutes(6)
        - Duration::hours(5)
        - Duration::days(4)
        - Duration::weeks(3);
    new_time = new_time.checked_sub_months(Months::new(2)).unwrap();
    new_time = new_time.checked_sub_months(Months::new(1 * 12)).unwrap();

    assert_eq!(naive(time), new_time)
}

#[test]
fn two_days_one_hour_ago() {
    let t = at(2024, 3, 1, 0, 30, 0);
    let (rest, parsed) = parse_timestring("2d 1h ago").unwrap();
    assert_eq!(rest, "");
    let got = parsed.to_chrono(stamp(t)).unwrap();
    assert_eq!(naive(got), t - Duration::days(2) - Duration::hours(1));
    assert_eq!(naive(got), at(2024, 2, 27, 23, 30, 0));
    let swapped = parse_timestring("1h 2d ago").unwrap().1;
    assert_eq!(swapped.to_chrono(stamp(t)), Some(got));
}

#[test]
fn fixed_units_add_up_in_seconds() {
    let t = at(2023, 12, 31, 23, 59, 59);
    let time = RelativeTime::new().seconds(1).minutes(1).hours(1).days(1).weeks(1);
    assert_eq!(time.fixed_offset(), 1 + 60 + 3600 + 86400 + 604800);
    assert_eq!(
        naive(time.to_chrono(stamp(t)).unwrap()),
        t + Duration::seconds(1 + 60 + 3600 + 86400 + 604800)
    );
    assert_eq!(naive(time.to_chrono(stamp(t)).unwrap()), at(2024, 1, 9, 1, 1, 0));
    assert_eq!(
        naive(time.ago().to_chrono(stamp(t)).unwrap()),
        t - Duration::seconds(1 + 60 + 3600 + 86400 + 604800)
    );
}

#[test]
fn nothing_given_moves_nothing() {
    let t = at(2023, 6, 15, 12, 0, 0);
    assert_eq!(RelativeTime::new().to_chrono(stamp(t)), Some(stamp(t)));
    assert_eq!(RelativeTime::new().ago().to_chrono(stamp(t)), Some(stamp(t)));
    assert_eq!(RelativeTime::new().days(0).to_chrono(stamp(t)), Some(stamp(t)));
}

#[test]
fn months_keep_or_clamp_the_day() {
    let jan31 = at(2023, 1, 31, 8, 0, 0);
    assert_eq!(
        naive(RelativeTime::new().months(1).to_chrono(stamp(jan31)).unwrap()),
        at(2023, 2, 28, 8, 0, 0)
    );
    assert_eq!(
        naive(RelativeTime::new().months(13).to_chrono(stamp(jan31)).unwrap()),
        at(2024, 2, 29, 8, 0, 0)
    );
    assert_eq!(
        naive(RelativeTime::new().months(2).to_chrono(stamp(jan31)).unwrap()),
        at(2023, 3, 31, 8, 0, 0)
    );
    assert_eq!(
        naive(RelativeTime::new().months(2).ago().to_chrono(stamp(jan31)).unwrap()),
        at(2022, 11, 30, 8, 0, 0)
    );
    assert_eq!(
        naive(RelativeTime::new().months(1).ago().to_chrono(stamp(jan31)).unwrap()),
        at(2022, 12, 31, 8, 0, 0)
    );
}

#[test]
fn years_are_twelve_months_each() {
    let leap = at(2024, 2, 29, 8, 0, 0);
    assert_eq!(
        naive(RelativeTime::new().years(1).to_chrono(stamp(leap)).unwrap()),
        at(2025, 2, 28, 8, 0, 0)
    );
    assert_eq!(
        naive(RelativeTime::new().years(4).ago().to_chrono(stamp(leap)).unwrap()),
        at(2020, 2, 29, 8, 0, 0)
    );
    // The months are applied before the years: the day is clamped twice.
    let jan31 = at(2023, 1, 31, 8, 0, 0);
    assert_eq!(
        naive(RelativeTime::new().months(1).years(1).to_chrono(stamp(jan31)).unwrap()),
        at(2024, 2, 28, 8, 0, 0)
    );
}

#[test]
fn shift_by_months_agrees_with_the_calendar() {
    let bases = [
        at(2023, 1, 31, 1, 2, 3),
        at(2024, 2, 29, 1, 2, 3),
        at(1999, 12, 31, 23, 59, 59),
        at(-1, 3, 31, 0, 0, 0),
        at(2023, 6, 15, 0, 0, 0),
    ];
    for base in bases {
        for n in [0u32, 1, 2, 11, 12, 13, 23, 24, 25, 1200, 4800, 30000] {
            let on = stamp(base).checked_shift_months(n, false);
            assert_eq!(on.map(naive), base.checked_add_months(Months::new(n)));
            let back = stamp(base).checked_shift_months(n, true);
            assert_eq!(back.map(naive), base.checked_sub_months(Months::new(n)));
        }
    }
}

#[test]
fn shift_by_days_and_seconds_agrees_with_the_calendar() {
    let base = at(2024, 2, 28, 23, 59, 59);
    for n in [0u64, 1, 2, 365, 366, 100_000] {
        assert_eq!(
            stamp(base).checked_shift_days(n, false).map(naive),
            base.checked_add_days(Days::new(n))
        );
        assert_eq!(
            stamp(base).checked_shift_days(n, true).map(naive),
            base.checked_sub_days(Days::new(n))
        );
    }
    assert_eq!(
        stamp(base).checked_shift_days(1, false).map(naive),
        Some(at(2024, 2, 29, 23, 59, 59))
    );
    for n in [0i64, 1, -1, 59, 86_400, -86_400, 1_000_000_007, -1_000_000_007] {
        assert_eq!(
            stamp(base).checked_add_seconds(n).map(naive),
            base.checked_add_signed(Duration::seconds(n))
        );
    }
    assert_eq!(
        stamp(base).checked_add_seconds(1).map(naive),
        Some(at(2024, 2, 29, 0, 0, 0))
    );
}

#[test]
fn arithmetic_beyond_the_range_of_dates_gives_nothing() {
    let t = stamp(at(2023, 6, 15, 12, 0, 0));
    assert_eq!(RelativeTime::new().years(4_000_000_000).to_chrono(t), None);
    assert_eq!(RelativeTime::new().years(357_913_942).ago().to_chrono(t), None);
    assert_eq!(RelativeTime::new().years(300_000).to_chrono(t), None);
    assert_eq!(RelativeTime::new().months(4_000_000_000).to_chrono(t), None);
    assert_eq!(RelativeTime::new().weeks(4_000_000_000).to_chrono(t), None);
    assert_eq!(RelativeTime::new().days(200_000_000).ago().to_chrono(t), None);
    assert_eq!(t.checked_shift_days(u64::MAX, false), None);
    assert_eq!(t.checked_shift_days(u64::MAX, true), None);
    assert_eq!(
        FlexiDate::DayOffset(DayOffset::Fixed(i32::MIN)).resolve(t),
        None
    );
    assert_eq!(
        FlexiDate::DayOffset(DayOffset::Fixed(i32::MAX)).resolve(t),
        None
    );
    assert!(RelativeTime::new().years(200_000).to_chrono(t).is_some());
}

#[test]
fn tomorrow_and_yesterday_keep_the_time_of_day() {
    let t = at(2024, 2, 28, 17, 45, 10);
    assert_eq!(
        FlexiDate::DayOffset(DayOffset::Fixed(1)).resolve(stamp(t)).map(naive),
        Some(t + Duration::days(1))
    );
    assert_eq!(
        FlexiDate::DayOffset(DayOffset::Fixed(-1)).resolve(stamp(t)).map(naive),
        Some(t - Duration::days(1))
    );
    assert_eq!(
        FlexiDate::DayOffset(DayOffset::Fixed(1)).resolve(stamp(t)).map(naive),
        Some(at(2024, 2, 29, 17, 45, 10))
    );
    assert_eq!(
        FlexiDate::DayOffset(DayOffset::Fixed(-30)).resolve(stamp(t)).map(naive),
        Some(at(2024, 1, 29, 17, 45, 10))
    );
}

#[test]
fn tomorrow_with_a_time_takes_that_time() {
    let t = at(2024, 2, 28, 17, 45, 10);
    let parsed = parse_timestring("3pm tomorrow").unwrap().1;
    assert_eq!(
        parsed.to_chrono(stamp(t)).map(naive),
        Some(NaiveDate::from_ymd_opt(2024, 2, 29).unwrap().and_hms_opt(15, 0, 0).unwrap())
    );
    let parsed = parse_timestring("yesterday 7:05:09").unwrap().1;
    assert_eq!(
        parsed.to_chrono(stamp(t)).map(naive),
        Some(NaiveDate::from_ymd_opt(2024, 2, 27).unwrap().and_hms_opt(7, 5, 9).unwrap())
    );
}

#[test]
fn date_and_time_in_either_order_give_one_instant() {
    let t = at(2024, 2, 28, 17, 45, 10);
    let one = parse_timestring("25/10/2025 11:25am").unwrap().1;
    let other = parse_timestring("11:25am 25/10/2025").unwrap().1;
    let want = NaiveDate::from_ymd_opt(2025, 10, 25).unwrap().and_hms_opt(11, 25, 0).unwrap();
    assert_eq!(one.to_chrono(stamp(t)).map(naive), Some(want));
    assert_eq!(other.to_chrono(stamp(t)).map(naive), Some(want));
}

#[test]
fn a_date_takes_the_place_of_the_date_of_now() {
    let t = at(2024, 2, 28, 17, 45, 10);
    let day = CalendarDate { year: 2025, month: 10, day: 25 };
    assert_eq!(
        FlexiDate::Date(day).resolve(stamp(t)).map(naive),
        Some(at(2025, 10, 25, 17, 45, 10))
    );
    assert_eq!(stamp(t).with_date(day), stamp(at(2025, 10, 25, 17, 45, 10)));
}

#[test]
fn weekday_is_the_next_one_and_never_today() {
    // 2024-02-26 is a Monday.
    let monday = NaiveDate::from_ymd_opt(2024, 2, 26).unwrap();
    assert_eq!(monday.weekday(), chrono::Weekday::Mon);
    for k in 0..14u64 {
        let now = monday.checked_add_days(Days::new(k)).unwrap().and_hms_opt(10, 0, 0).unwrap();
        for target in [
            chrono::Weekday::Mon,
            chrono::Weekday::Tue,
            chrono::Weekday::Wed,
            chrono::Weekday::Thu,
            chrono::Weekday::Fri,
            chrono::Weekday::Sat,
            chrono::Weekday::Sun,
        ] {
            let got = naive(
                FlexiDate::DayOffset(DayOffset::NextDayOccurrence(weekday(target)))
                    .resolve(stamp(now))
                    .unwrap(),
            );
            assert_eq!(got.weekday(), target);
            assert_eq!(got.time(), now.time());
            let days = (got.date() - now.date()).num_days();
            assert!(1 <= days && days <= 7);
        }
    }
    let now = monday.and_hms_opt(10, 0, 0).unwrap();
    let next = parse_timestring("next monday 9am").unwrap().1;
    let bare = parse_timestring("monday 9am").unwrap().1;
    let want = NaiveDate::from_ymd_opt(2024, 3, 4).unwrap().and_hms_opt(9, 0, 0).unwrap();
    assert_eq!(next.to_chrono(stamp(now)).map(naive), Some(want));
    assert_eq!(bare.to_chrono(stamp(now)).map(naive), Some(want));
}

#[test]
fn weekday_of_a_date() {
    assert_eq!(CalendarDate { year: 2024, month: 2, day: 26 }.weekday(), Weekday::Mon);
    assert_eq!(CalendarDate { year: 2024, month: 2, day: 29 }.weekday(), Weekday::Thu);
    assert_eq!(CalendarDate { year: 2000, month: 1, day: 1 }.weekday(), Weekday::Sat);
    assert_eq!(CalendarDate { year: 2023, month: 12, day: 31 }.weekday(), Weekday::Sun);
}

#[test]
fn time_of_day_replaces_the_whole_time() {
    let t = stamp(at(2024, 2, 28, 17, 45, 10));
    let time = WallClockTime::new(9, 0, 0, Some(TimePeriod::Pm)).unwrap();
    assert_eq!(
        time.on(t),
        Timestamp { date: t.date, hour: 21, minute: 0, second: 0, nanosecond: 0 }
    );
    let built = AbsoluteTimeBuilder::new()
        .time(time)
        .date(FlexiDate::DayOffset(DayOffset::Fixed(0)))
        .build()
        .unwrap();
    assert_eq!(built, AbsoluteTime { time, date: FlexiDate::DayOffset(DayOffset::Fixed(0)) });
    assert_eq!(built.to_chrono(t), Some(time.on(t)));
    assert_eq!(ParsedTime::Absolute(built).to_chrono(t), Some(time.on(t)));
}

#[test]
fn timestamp_is_made_of_parts_in_range() {
    let day = CalendarDate { year: 2024, month: 2, day: 29 };
    assert_eq!(
        Timestamp::new(day, 23, 59, 59, 999_999_999),
        Some(Timestamp { date: day, hour: 23, minute: 59, second: 59, nanosecond: 999_999_999 })
    );
    assert_eq!(Timestamp::new(day, 24, 0, 0, 0), None);
    assert_eq!(Timestamp::new(day, 0, 60, 0, 0), None);
    assert_eq!(Timestamp::new(day, 0, 0, 60, 0), None);
    assert_eq!(Timestamp::new(day, 0, 0, 0, 1_000_000_000), None);
    assert_eq!(
        Timestamp::new(CalendarDate { year: 2023, month: 2, day: 29 }, 0, 0, 0, 0),
        None
    );
}

#[test]
fn validity_of_values_made_by_hand() {
    assert!(CalendarDate { year: 2024, month: 2, day: 29 }.is_valid());
    assert!(!CalendarDate { year: 2023, month: 2, day: 29 }.is_valid());
    assert!(!CalendarDate { year: 2023, month: 13, day: 1 }.is_valid());
    assert!(stamp(at(2024, 2, 29, 23, 59, 59)).is_valid());
    let day = CalendarDate { year: 2024, month: 2, day: 29 };
    assert!(!Timestamp { date: day, hour: 24, minute: 0, second: 0, nanosecond: 0 }.is_valid());
    assert!(WallClockTime { hour: 23, minute: 59, second: 59 }.is_valid());
    assert!(!WallClockTime { hour: 24, minute: 0, second: 0 }.is_valid());
    assert!(!WallClockTime { hour: 0, minute: 60, second: 0 }.is_valid());
    assert!(!WallClockTime { hour: 0, minute: 0, second: 60 }.is_valid());
    assert!(FlexiDate::Date(day).is_valid());
    assert!(FlexiDate::DayOffset(DayOffset::Fixed(-3)).is_valid());
    let bad = FlexiDate::Date(CalendarDate { year: 2023, month: 4, day: 31 });
    assert!(!bad.is_valid());
    let time = WallClockTime { hour: 1, minute: 2, second: 3 };
    assert!(AbsoluteTime { time, date: FlexiDate::Date(day) }.is_valid());
    assert!(!AbsoluteTime { time, date: bad }.is_valid());
    assert!(ParsedTime::Relative(RelativeTime::new().years(9)).is_valid());
    assert!(!ParsedTime::Absolute(AbsoluteTime { time, date: bad }).is_valid());
    assert!(parse_timestring("25/10/2025 11:25am").unwrap().1.is_valid());
}
