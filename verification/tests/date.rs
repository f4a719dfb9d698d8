use chrono::{Datelike, NaiveDate};
use flexitime::calendar::CalendarDate;
use flexitime::error::{FlexitimeError, ParseFailure};
use flexitime::parser::absolute::date::{parse_date, AbsoluteDateError, DateComponent};

fn date(year: i32, month: u32, day: u32) -> CalendarDate {
    let d = NaiveDate::from_ymd_opt(year, month, day).unwrap();
    CalendarDate { year: d.year(), month: d.month(), day: d.day() }
}

fn hard(e: AbsoluteDateError) -> ParseFailure {
    ParseFailure::Hard(FlexitimeError::Date(e))
}

#[test]
fn test_parse_ymd() {
    assert_eq!(parse_date("2023-01-01"), Ok(("", date(2023, 1, 1))));
    assert_eq!(parse_date("2029/01/01"), Ok(("", date(2029, 1, 1))));
}

#[test]
fn test_parse_dmy() {
    assert_eq!(parse_date("01-01-2023"), Ok(("", date(2023, 1, 1))));
    assert_eq!(parse_date("01/01/2029"), Ok(("", date(2029, 1, 1))));
}

#[test]
fn both_orders_give_the_same_date() {
    let ymd = parse_date("2023-01-01").unwrap();
    let dmy = parse_date("01-01-2023").unwrap();
    assert_eq!(ymd, dmy);
    assert_eq!(ymd.1, CalendarDate { year: 2023, month: 1, day: 1 });
}

#[test]
fn day_that_does_not_exist_is_invalid() {
    assert_eq!(parse_date("31-02-2023"), Err(hard(AbsoluteDateError::InvalidDate)));
    assert_eq!(parse_date("2023-02-31"), Err(hard(AbsoluteDateError::InvalidDate)));
    assert_eq!(parse_date("31/04/2023"), Err(hard(AbsoluteDateError::InvalidDate)));
    assert_eq!(parse_date("29-02-2023"), Err(hard(AbsoluteDateError::InvalidDate)));
    assert_eq!(parse_date("00-01-2023"), Err(hard(AbsoluteDateError::InvalidDate)));
    assert_eq!(parse_date("01-00-2023"), Err(hard(AbsoluteDateError::InvalidDate)));
}

#[test]
fn leap_days() {
    assert_eq!(parse_date("29-02-2024"), Ok(("", date(2024, 2, 29))));
    assert_eq!(parse_date("29-02-2000"), Ok(("", date(2000, 2, 29))));
    assert_eq!(parse_date("29-02-1900"), Err(hard(AbsoluteDateError::InvalidDate)));
    assert_eq!(parse_date("0000-02-29"), Ok(("", date(0, 2, 29))));
}

#[test]
fn short_day_and_month() {
    assert_eq!(parse_date("1-2-2023"), Ok(("", date(2023, 2, 1))));
    assert_eq!(parse_date("2023-2-1"), Ok(("", date(2023, 2, 1))));
}

#[test]
fn delimiters_may_differ() {
    assert_eq!(parse_date("25-10/2025"), Ok(("", date(2025, 10, 25))));
    assert_eq!(parse_date("2025/10-25"), Ok(("", date(2025, 10, 25))));
}

#[test]
fn year_above_three_thousand_is_out_of_range() {
    assert_eq!(
        parse_date("01-01-3001"),
        Err(hard(AbsoluteDateError::OutOfRangeComponent(DateComponent::Year, 3001)))
    );
    assert_eq!(
        parse_date("3001-01-01"),
        Err(hard(AbsoluteDateError::OutOfRangeComponent(DateComponent::Year, 3001)))
    );
    assert_eq!(
        parse_date("3200-01-01"),
        Err(hard(AbsoluteDateError::OutOfRangeComponent(DateComponent::Year, 3200)))
    );
    assert_eq!(
        parse_date("9999"),
        Err(hard(AbsoluteDateError::OutOfRangeComponent(DateComponent::Year, 9999)))
    );
    assert_eq!(parse_date("01-01-3000"), Ok(("", date(3000, 1, 1))));
    assert_eq!(parse_date("3000-12-31"), Ok(("", date(3000, 12, 31))));
}

#[test]
fn day_and_month_out_of_range() {
    assert_eq!(
        parse_date("32-01-2023"),
        Err(hard(AbsoluteDateError::OutOfRangeComponent(DateComponent::Day, 32)))
    );
    assert_eq!(
        parse_date("01-13-2023"),
        Err(hard(AbsoluteDateError::OutOfRangeComponent(DateComponent::Month, 13)))
    );
    assert_eq!(
        parse_date("2023-13-01"),
        Err(hard(AbsoluteDateError::OutOfRangeComponent(DateComponent::Month, 13)))
    );
    assert_eq!(
        parse_date("2023-12-32"),
        Err(hard(AbsoluteDateError::OutOfRangeComponent(DateComponent::Day, 32)))
    );
}

#[test]
fn text_of_another_shape_is_a_mismatch() {
    assert_eq!(
        parse_date("tomorrow"),
        Err(ParseFailure::Recoverable(FlexitimeError::Mismatch(0)))
    );
    assert_eq!(parse_date(""), Err(ParseFailure::Recoverable(FlexitimeError::Mismatch(0))));
    assert_eq!(
        parse_date("11:25am"),
        Err(ParseFailure::Recoverable(FlexitimeError::Mismatch(0)))
    );
    assert_eq!(
        parse_date("2023-01"),
        Err(ParseFailure::Recoverable(FlexitimeError::Mismatch(7)))
    );
    assert_eq!(
        parse_date("2023-01-"),
        Err(ParseFailure::Recoverable(FlexitimeError::Mismatch(8)))
    );
    assert_eq!(
        parse_date("01-01-23"),
        Err(ParseFailure::Recoverable(FlexitimeError::Mismatch(0)))
    );
}

#[test]
fn date_leaves_the_rest() {
    assert_eq!(parse_date("25/10/2025 11:25am"), Ok((" 11:25am", date(2025, 10, 25))));
    assert_eq!(parse_date("2025-10-256"), Ok(("6", date(2025, 10, 25))));
    assert_eq!(parse_date("25-10-20255"), Ok(("5", date(2025, 10, 25))));
}

#[test]
fn from_ymd_agrees_with_the_calendar() {
    for year in [-262143, -4, 0, 1900, 2000, 2023, 2024, 262142] {
        for month in 0..=13u32 {
            for day in 0..=32u32 {
                let want = NaiveDate::from_ymd_opt(year, month, day)
                    .map(|d| CalendarDate { year: d.year(), month: d.month(), day: d.day() });
                assert_eq!(CalendarDate::from_ymd(year, month, day), want);
                if let Some(d) = want {
                    assert_eq!(d, CalendarDate { year, month, day });
                }
            }
        }
    }
    assert_eq!(CalendarDate::from_ymd(262143, 1, 1), None);
    assert_eq!(CalendarDate::from_ymd(-262144, 12, 31), None);
}
