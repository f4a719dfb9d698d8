use flexitime::error::{FlexitimeError, NumberError, ParseFailure};
use flexitime::parser::relative::parse_relative_time;
use flexitime::parser::relative::suffix::{parse_suffix, Suffix};
use flexitime::parser::relative::time::RelativeTime;
use flexitime::parser::relative::units::{
    parse_unit, ParsedUnit, RelativeUnit, RelativeUnitsError,
};

fn unknown(word: &str) -> ParseFailure {
    ParseFailure::Hard(FlexitimeError::RelativeUnits(RelativeUnitsError::UnknownUnit(
        word.to_string(),
    )))
}

#[test]
fn test_parse_unit() {
    assert_eq!(
        parse_unit("1h"),
        Ok(("", ParsedUnit { amount: 1, unit: RelativeUnit::Hours }))
    );
    assert_eq!(
        parse_unit("2d"),
        Ok(("", ParsedUnit { amount: 2, unit: RelativeUnit::Days }))
    );
    assert_eq!(
        parse_unit("3w"),
        Ok(("", ParsedUnit { amount: 3, unit: RelativeUnit::Weeks }))
    );
    assert_eq!(
        parse_unit("4mo"),
        Ok(("", ParsedUnit { amount: 4, unit: RelativeUnit::Months }))
    );
    assert_eq!(
        parse_unit("5y"),
        Ok(("", ParsedUnit { amount: 5, unit: RelativeUnit::Years }))
    );
}

#[test]
fn every_spelling_of_every_unit() {
    let table: [(&[&str], RelativeUnit); 7] = [
        (&["seconds", "second", "secs", "sec", "s"], RelativeUnit::Seconds),
        (&["minutes", "minute", "mins", "min", "m"], RelativeUnit::Minutes),
        (&["hours", "hour", "hrs", "hr", "h"], RelativeUnit::Hours),
        (&["days", "day", "d"], RelativeUnit::Days),
        (&["weeks", "week", "wks", "wk", "w"], RelativeUnit::Weeks),
        (&["months", "month", "mos", "mo"], RelativeUnit::Months),
        (&["years", "year", "yr", "y"], RelativeUnit::Years),
    ];
    for (words, unit) in table {
        for word in words {
            assert_eq!(
                parse_unit(&format!("7{}", word)),
                Ok(("", ParsedUnit { amount: 7, unit }))
            );
            assert_eq!(
                parse_unit(&format!("7 \t{} x", word)),
                Ok((" x", ParsedUnit { amount: 7, unit }))
            );
        }
    }
}

#[test]
fn unknown_unit_carries_the_word() {
    assert_eq!(parse_unit("3pm"), Err(unknown("pm")));
    assert_eq!(parse_unit("5 monthz ago"), Err(unknown("monthz")));
    assert_eq!(parse_unit("2D"), Err(unknown("D")));
    assert_eq!(parse_unit("2Days"), Err(unknown("Days")));
    assert_eq!(parse_unit("2ds"), Err(unknown("ds")));
}

#[test]
fn unit_needs_an_amount_and_a_word() {
    assert_eq!(parse_unit("d"), Err(ParseFailure::Recoverable(FlexitimeError::Mismatch(0))));
    assert_eq!(parse_unit(""), Err(ParseFailure::Recoverable(FlexitimeError::Mismatch(0))));
    assert_eq!(parse_unit("12"), Err(ParseFailure::Recoverable(FlexitimeError::Mismatch(2))));
    assert_eq!(
        parse_unit("12  :30"),
        Err(ParseFailure::Recoverable(FlexitimeError::Mismatch(4)))
    );
}

#[test]
fn amount_has_thirty_two_bits() {
    assert_eq!(
        parse_unit("4294967295s"),
        Ok(("", ParsedUnit { amount: 4294967295, unit: RelativeUnit::Seconds }))
    );
    assert_eq!(
        parse_unit("0000000000004294967295s"),
        Ok(("", ParsedUnit { amount: 4294967295, unit: RelativeUnit::Seconds }))
    );
    assert_eq!(
        parse_unit("4294967296s"),
        Err(ParseFailure::Recoverable(FlexitimeError::ParseIntError(NumberError::TooLarge)))
    );
    assert_eq!(
        parse_unit("99999999999999999999999999d"),
        Err(ParseFailure::Recoverable(FlexitimeError::ParseIntError(NumberError::TooLarge)))
    );
    assert_eq!(
        parse_unit("0d"),
        Ok(("", ParsedUnit { amount: 0, unit: RelativeUnit::Days }))
    );
}

#[test]
fn suffix_is_optional() {
    assert_eq!(parse_suffix(" ago"), Ok(("", Some(Suffix::Ago))));
    assert_eq!(parse_suffix(" \t HENCE!"), Ok(("!", Some(Suffix::Hence))));
    assert_eq!(parse_suffix("ago"), Ok(("ago", None)));
    assert_eq!(parse_suffix(" later"), Ok((" later", None)));
    assert_eq!(parse_suffix(""), Ok(("", None)));
}

#[test]
fn test_parse() {
    assert_eq!(
        parse_relative_time("2d 1h"),
        Ok(("", RelativeTime::new().days(2).hours(1)))
    );
}

#[test]
fn test_parse_complex() {
    assert_eq!(
        parse_relative_time("3y 2mo 2d 1h 5m"),
        Ok((
            "",
            RelativeTime::new()
                .years(3)
                .months(2)
                .days(2)
                .hours(1)
                .minutes(5)
        ))
    );
}

#[test]
fn test_parse_misordered() {
    assert_eq!(
        parse_relative_time("5m 3d 2mo"),
        Ok(("", RelativeTime::new().minutes(5).days(3).months(2)))
    );
}

#[test]
fn test_parse_spaced_longhand() {
    assert_eq!(
        parse_relative_time("5 months 3 days 1 minute ago"),
        Ok(("", RelativeTime::new().months(5).days(3).minutes(1).ago()))
    );
}

#[test]
fn test_parse_negative() {
    assert_eq!(
        parse_relative_time("2d 1h ago"),
        Ok(("", RelativeTime::new().days(2).hours(1).ago()))
    );
}

#[test]
fn hence_counts_on() {
    assert_eq!(
        parse_relative_time("2d 1h hence"),
        Ok(("", RelativeTime::new().days(2).hours(1)))
    );
    assert_eq!(
        parse_relative_time("2d 1h Hence"),
        Ok(("", RelativeTime::new().days(2).hours(1).hence()))
    );
    assert!(!parse_relative_time("2d").unwrap().1.negative);
    assert!(parse_relative_time("2d AGO").unwrap().1.negative);
}

#[test]
fn later_amount_of_a_unit_wins() {
    assert_eq!(
        parse_relative_time("1h 2h"),
        Ok(("", RelativeTime::new().hours(2)))
    );
    assert_eq!(
        parse_relative_time("1h 5m 2 hours 7m"),
        Ok(("", RelativeTime::new().hours(2).minutes(7)))
    );
}

#[test]
fn order_of_units_does_not_count() {
    assert_eq!(
        parse_relative_time("2d 1h ago").unwrap().1,
        parse_relative_time("1h 2d ago").unwrap().1
    );
    assert_eq!(
        RelativeTime::new().days(2).hours(1),
        RelativeTime::new().hours(1).days(2)
    );
}

#[test]
fn builder_sets_each_field() {
    let t = RelativeTime::new()
        .seconds(1)
        .minutes(2)
        .hours(3)
        .days(4)
        .weeks(5)
        .months(6)
        .years(7)
        .ago();
    assert_eq!(
        t,
        RelativeTime {
            seconds: Some(1),
            minutes: Some(2),
            hours: Some(3),
            days: Some(4),
            weeks: Some(5),
            months: Some(6),
            years: Some(7),
            negative: true,
        }
    );
    assert_eq!(t.hence().negative, false);
    assert_eq!(RelativeTime::new(), RelativeTime::default());
    assert_eq!(
        RelativeTime::new().set(ParsedUnit { unit: RelativeUnit::Weeks, amount: 9 }),
        RelativeTime::new().weeks(9)
    );
    assert_eq!(t.fixed_offset(), -(1 + 2 * 60 + 3 * 3600 + 4 * 86400 + 5 * 604800));
}

#[test]
fn list_ends_where_no_amount_follows() {
    assert_eq!(
        parse_relative_time("2d 1h later"),
        Ok((" later", RelativeTime::new().days(2).hours(1)))
    );
    assert_eq!(
        parse_relative_time("2d  "),
        Ok(("  ", RelativeTime::new().days(2)))
    );
    assert_eq!(
        parse_relative_time("2d1h"),
        Ok(("1h", RelativeTime::new().days(2)))
    );
    assert_eq!(
        parse_relative_time("2d 7"),
        Ok((" 7", RelativeTime::new().days(2)))
    );
    assert_eq!(
        parse_relative_time("2d ago 1h"),
        Ok((" 1h", RelativeTime::new().days(2).ago()))
    );
}

#[test]
fn unknown_unit_ends_the_list_with_a_failure() {
    assert_eq!(parse_relative_time("2d 3pm"), Err(unknown("pm")));
    assert_eq!(parse_relative_time("3pm tomorrow"), Err(unknown("pm")));
    assert_eq!(
        parse_relative_time("tomorrow"),
        Err(ParseFailure::Recoverable(FlexitimeError::Mismatch(0)))
    );
}
