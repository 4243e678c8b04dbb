use investments::date::Date;
use investments::decimal::Decimal;
use investments::firstrade::{
    parse_date, parse_period, DecimalField, Ignore, InvalidDate, InvalidPeriod, OfxError,
    PartialBrokerStatement, Report, StatementError, StatementResponse, StatementSection,
    Transactions, OFX,
};

fn date(year: i32, month: u32, day: u32) -> Date {
    Date::from_ymd_opt(year, month, day).unwrap()
}

#[test]
fn date_parsing() {
    assert_eq!(parse_date("20200623").unwrap(), date(2020, 6, 23));
    assert_eq!(parse_date("20200623000000").unwrap(), date(2020, 6, 23));
}

#[test]
fn date_parsing_refuses_malformed_dates() {
    assert_eq!(parse_date(""), Err(InvalidDate));
    assert_eq!(parse_date("2020"), Err(InvalidDate));
    assert_eq!(parse_date("202006"), Err(InvalidDate));
    assert_eq!(parse_date("202006230"), Err(InvalidDate));
    assert_eq!(parse_date("2020-6-23"), Err(InvalidDate));
    assert_eq!(parse_date("20200623000001"), Err(InvalidDate));
    assert_eq!(parse_date("2020062a000000"), Err(InvalidDate));
    assert_eq!(parse_date("20201323"), Err(InvalidDate));
    assert_eq!(parse_date("20200230"), Err(InvalidDate));
    assert_eq!(parse_date("20210229"), Err(InvalidDate));
    assert_eq!(parse_date("20200000"), Err(InvalidDate));
}

#[test]
fn date_parsing_reads_fields_of_varying_width() {
    assert_eq!(parse_date("2020062").unwrap(), date(2020, 6, 2));
    assert_eq!(parse_date("2020111").unwrap(), date(2020, 11, 1));
    assert_eq!(parse_date("202011").unwrap_err(), InvalidDate);
    assert_eq!(parse_date(" 2020 6 23").unwrap(), date(2020, 6, 23));
    assert_eq!(parse_date("2020\u{3000}06\t23").unwrap(), date(2020, 6, 23));
    assert_eq!(parse_date("+2020 06 23").unwrap(), date(2020, 6, 23));
    assert_eq!(parse_date("-1 06 23").unwrap(), date(-1, 6, 23));
    assert_eq!(parse_date("-00010623"), Err(InvalidDate));
    assert_eq!(parse_date("+99999999999999999999999 1 1"), Err(InvalidDate));
    assert_eq!(parse_date("20200623 "), Err(InvalidDate));
    // Fourteen bytes: the format ends in six zeros.
    assert_eq!(parse_date("20206 20000000").unwrap(), date(2020, 6, 20));
    assert_eq!(parse_date("2020 6 23000000"), Err(InvalidDate));
    assert_eq!(parse_date("2020 06 23 "), Err(InvalidDate));
}

#[test]
fn date_parsing_accepts_leap_days() {
    assert_eq!(parse_date("20200229").unwrap(), date(2020, 2, 29));
    assert_eq!(parse_date("20000229000000").unwrap(), date(2000, 2, 29));
    assert_eq!(parse_date("19000229"), Err(InvalidDate));
}

#[test]
fn period_parsing() {
    let (start, end) = parse_period(date(2020, 1, 1), date(2020, 12, 31)).unwrap();
    assert_eq!(start, date(2020, 1, 1));
    assert_eq!(end, date(2021, 1, 1));

    let (start, end) = parse_period(date(2020, 3, 5), date(2020, 3, 5)).unwrap();
    assert_eq!(start, date(2020, 3, 5));
    assert_eq!(end, date(2020, 3, 6));

    assert_eq!(parse_period(date(2020, 3, 5), date(2020, 3, 4)), Err(InvalidPeriod));
}

fn ofx(report_date: Date, start: Date, end: Date) -> OFX {
    OFX {
        statement: StatementSection {
            response: StatementResponse {
                report: Report {
                    date: report_date,
                    currency: "USD".to_string(),
                    transactions: Transactions { start_date: start, end_date: end },
                },
            },
        },
    }
}

#[test]
fn ofx_parsing() {
    let statement = ofx(date(2020, 6, 23), date(2019, 1, 10), date(2020, 6, 23)).parse().unwrap();
    assert_eq!(statement.period, Some((date(2019, 1, 10), date(2020, 6, 24))));
    assert_eq!(statement.starting_assets, Some(false));
}

#[test]
fn ofx_parsing_refuses_reports_outside_the_period() {
    let r = ofx(date(2020, 6, 24), date(2019, 1, 10), date(2020, 6, 23)).parse();
    assert!(matches!(r, Err(OfxError::ReportDateOutsidePeriod)));
    let r = ofx(date(2019, 1, 9), date(2019, 1, 10), date(2020, 6, 23)).parse();
    assert!(matches!(r, Err(OfxError::ReportDateOutsidePeriod)));
    let r = ofx(date(2020, 6, 23), date(2020, 6, 24), date(2020, 6, 23)).parse();
    assert!(matches!(r, Err(OfxError::InvalidPeriod)));
}

#[test]
fn partial_statement_fields_are_set_once() {
    let mut statement = PartialBrokerStatement::new();
    assert!(matches!(statement.validate(), Err(StatementError::MissingPeriod)));

    let mut statement = PartialBrokerStatement::new();
    let period = (date(2020, 1, 1), date(2020, 2, 1));
    assert_eq!(statement.set_period(period), Ok(()));
    assert_eq!(statement.set_period(period), Err(StatementError::DuplicatePeriod));
    assert_eq!(statement.set_starting_assets(true), Ok(()));
    assert_eq!(statement.set_starting_assets(false), Err(StatementError::DuplicateStartingAssets));
    assert_eq!(statement.starting_assets, Some(true));

    let mut statement = PartialBrokerStatement::new();
    statement.set_period(period).unwrap();
    assert!(matches!(statement.validate(), Err(StatementError::MissingStartingAssets)));
}

#[test]
fn ofx_fields() {
    let _ignored = Ignore {};
    let field = DecimalField { value: Decimal::new(1050, 2) };
    assert_eq!(field.value.to_text(), "10.50");
}
