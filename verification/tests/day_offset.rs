use flexitime::calendar::Weekday;
use flexitime::error::{FlexitimeError, ParseFailure};
use flexitime::parser::absolute::day_offset::{parse_day_offset, DayOffset};

#[test]
fn test_parse_weekday() {
    assert_eq!(
        parse_day_offset("monday"),
        Ok(("", DayOffset::NextDayOccurrence(Weekday::Mon)))
    );
    assert_eq!(
        parse_day_offset("tue"),
        Ok(("", DayOffset::NextDayOccurrence(Weekday::Tue)))
    );
}

#[test]
fn day_offset_test_parse_weekday() {
    assert_eq!(
        parse_day_offset("monday"),
        Ok(("", DayOffset::NextDayOccurrence(Weekday::Mon)))
    );
    assert_eq!(
        parse_day_offset("tue"),
        Ok(("", DayOffset::NextDayOccurrence(Weekday::Tue)))
    );
}

#[test]
fn test_parse_weekday_with_prefix() {
    assert_eq!(
        parse_day_offset("this wednesday"),
        Ok(("", DayOffset::NextDayOccurrence(Weekday::Wed)))
    );
    assert_eq!(
        parse_day_offset("next thursday"),
        Ok(("", DayOffset::NextDayOccurrence(Weekday::Thu)))
    );
}

#[test]
fn test_parse_yesterday() {
    assert_eq!(parse_day_offset("yesterday"), Ok(("", DayOffset::Fixed(-1))));
}

#[test]
fn test_parse_tomorrow() {
    assert_eq!(parse_day_offset("tomorrow"), Ok(("", DayOffset::Fixed(1))));
}

#[test]
fn every_weekday_in_both_forms() {
    let names = [
        ("monday", "mon", Weekday::Mon),
        ("tuesday", "tue", Weekday::Tue),
        ("wednesday", "wed", Weekday::Wed),
        ("thursday", "thu", Weekday::Thu),
        ("friday", "fri", Weekday::Fri),
        ("saturday", "sat", Weekday::Sat),
        ("sunday", "sun", Weekday::Sun),
    ];
    for (long, short, day) in names {
        let want = DayOffset::NextDayOccurrence(day);
        assert_eq!(parse_day_offset(long), Ok(("", want)));
        assert_eq!(parse_day_offset(short), Ok(("", want)));
        assert_eq!(parse_day_offset(&long.to_uppercase()), Ok(("", want)));
        for prefix in ["this ", "next ", "NEXT \t ", "This  "] {
            assert_eq!(parse_day_offset(&format!("{}{}", prefix, long)), Ok(("", want)));
            assert_eq!(parse_day_offset(&format!("{}{}", prefix, short)), Ok(("", want)));
        }
    }
}

#[test]
fn next_monday_is_monday() {
    assert_eq!(
        parse_day_offset("next monday").unwrap().1,
        parse_day_offset("monday").unwrap().1
    );
    assert_eq!(
        parse_day_offset("this monday").unwrap().1,
        parse_day_offset("monday").unwrap().1
    );
}

#[test]
fn letter_case_does_not_count() {
    assert_eq!(parse_day_offset("ToMoRRoW"), Ok(("", DayOffset::Fixed(1))));
    assert_eq!(parse_day_offset("YESTERDAY"), Ok(("", DayOffset::Fixed(-1))));
}

#[test]
fn day_offset_leaves_the_rest() {
    assert_eq!(
        parse_day_offset("tuesday 9:00pm"),
        Ok((" 9:00pm", DayOffset::NextDayOccurrence(Weekday::Tue)))
    );
    assert_eq!(
        parse_day_offset("mond"),
        Ok(("d", DayOffset::NextDayOccurrence(Weekday::Mon)))
    );
    assert_eq!(parse_day_offset("tomorrows"), Ok(("s", DayOffset::Fixed(1))));
}

#[test]
fn prefix_needs_a_blank_and_a_weekday() {
    assert_eq!(
        parse_day_offset("nextmonday"),
        Err(ParseFailure::Recoverable(FlexitimeError::Mismatch(0)))
    );
    assert_eq!(
        parse_day_offset("next week"),
        Err(ParseFailure::Recoverable(FlexitimeError::Mismatch(5)))
    );
    assert_eq!(
        parse_day_offset("next tomorrow"),
        Err(ParseFailure::Recoverable(FlexitimeError::Mismatch(5)))
    );
    assert_eq!(
        parse_day_offset(""),
        Err(ParseFailure::Recoverable(FlexitimeError::Mismatch(0)))
    );
    assert_eq!(
        parse_day_offset("3pm"),
        Err(ParseFailure::Recoverable(FlexitimeError::Mismatch(0)))
    );
}

#[test]
fn days_since_counts_back_to_the_other_day() {
    assert_eq!(Weekday::Mon.days_since(Weekday::Mon), 0);
    assert_eq!(Weekday::Sun.days_since(Weekday::Tue), 5);
    assert_eq!(Weekday::Wed.days_since(Weekday::Sun), 3);
    assert_eq!(Weekday::Mon.num_days_from_monday(), 0);
    assert_eq!(Weekday::Sun.num_days_from_monday(), 6);
}

#[test]
fn next_weekday_is_one_to_seven_days_away() {
    let days = [
        Weekday::Mon,
        Weekday::Tue,
        Weekday::Wed,
        Weekday::Thu,
        Weekday::Fri,
        Weekday::Sat,
        Weekday::Sun,
    ];
    for (i, today) in days.iter().enumerate() {
        for (j, target) in days.iter().enumerate() {
            let n = today.days_until_next(*target) as usize;
            assert!(1 <= n && n <= 7);
            assert_eq!((i + n) % 7, j);
            if i == j {
                assert_eq!(n, 7);
            }
        }
    }
    assert_eq!(Weekday::Mon.days_until_next(Weekday::Tue), 1);
    assert_eq!(Weekday::Tue.days_until_next(Weekday::Mon), 6);
}
