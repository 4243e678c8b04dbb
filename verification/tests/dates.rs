use investments::date::{month_length, Date};

fn date(year: i32, month: u32, day: u32) -> Date {
    Date::from_ymd_opt(year, month, day).unwrap()
}

#[test]
fn dates_are_validated() {
    assert!(Date::from_ymd_opt(2019, 2, 29).is_none());
    assert!(Date::from_ymd_opt(2020, 4, 31).is_none());
    assert!(Date::from_ymd_opt(2020, 0, 1).is_none());
    assert!(Date::from_ymd_opt(2020, 1, 0).is_none());
    assert!(Date::from_ymd_opt(262144, 1, 1).is_none());
    assert!(Date::from_ymd_opt(-262145, 12, 31).is_none());
    assert!(Date::from_ymd_opt(-262144, 1, 1).is_some());
    assert_eq!(month_length(2000, 2), 29);
    assert_eq!(month_length(2100, 2), 28);
    assert_eq!(month_length(-4, 2), 29);
    assert_eq!(month_length(2021, 9), 30);
}

#[test]
fn next_day() {
    assert_eq!(date(2020, 2, 28).succ(), date(2020, 2, 29));
    assert_eq!(date(2020, 2, 29).succ(), date(2020, 3, 1));
    assert_eq!(date(2021, 2, 28).succ(), date(2021, 3, 1));
    assert_eq!(date(2020, 12, 31).succ(), date(2021, 1, 1));
    assert_eq!(date(2020, 4, 30).succ(), date(2020, 5, 1));
}

#[test]
fn date_order() {
    assert!(date(2019, 12, 31).is_before(&date(2020, 1, 1)));
    assert!(date(2020, 1, 31).is_before(&date(2020, 2, 1)));
    assert!(!date(2020, 2, 1).is_before(&date(2020, 2, 1)));
    assert!(!date(2020, 2, 2).is_before(&date(2020, 2, 1)));
    let d = date(2020, 6, 23);
    assert_eq!((d.year(), d.month(), d.day()), (2020, 6, 23));
}
