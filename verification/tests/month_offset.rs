use flexitime::calendar::Month;
use flexitime::error::{FlexitimeError, ParseFailure};
use flexitime::parser::absolute::month_offset::{parse_month_offset, MonthOffset};

#[test]
fn test_parse_month_offset() {
    assert_eq!(
        parse_month_offset("december"),
        Ok(("", MonthOffset::NextMonthOccurrence(Month::December)))
    )
}

#[test]
fn test_parse_month_offset_with_prefix() {
    assert_eq!(
        parse_month_offset("this january"),
        Ok(("", MonthOffset::NextMonthOccurrence(Month::January)))
    )
}

#[test]
fn every_month_in_both_forms() {
    let months = [
        ("january", "jan", Month::January),
        ("february", "feb", Month::February),
        ("march", "mar", Month::March),
        ("april", "apr", Month::April),
        ("may", "may", Month::May),
        ("june", "jun", Month::June),
        ("july", "jul", Month::July),
        ("august", "aug", Month::August),
        ("september", "sep", Month::September),
        ("october", "oct", Month::October),
        ("november", "nov", Month::November),
        ("december", "dec", Month::December),
    ];
    for (long, short, month) in months {
        let want = MonthOffset::NextMonthOccurrence(month);
        assert_eq!(parse_month_offset(long), Ok(("", want)));
        assert_eq!(parse_month_offset(short), Ok(("", want)));
        assert_eq!(parse_month_offset(&format!("next {}", long.to_uppercase())), Ok(("", want)));
    }
}

#[test]
fn month_offset_failures_and_rest() {
    assert_eq!(
        parse_month_offset("monday"),
        Err(ParseFailure::Recoverable(FlexitimeError::Mismatch(0)))
    );
    assert_eq!(
        parse_month_offset("this monday"),
        Err(ParseFailure::Recoverable(FlexitimeError::Mismatch(5)))
    );
    assert_eq!(
        parse_month_offset("marches"),
        Ok(("es", MonthOffset::NextMonthOccurrence(Month::March)))
    );
    assert_eq!(
        parse_month_offset("sept"),
        Ok(("t", MonthOffset::NextMonthOccurrence(Month::September)))
    );
}
