use foundation_api::date::{calendar_date, CalendarDate, DateError};

#[test]
fn date_round_trips_through_text() {
    let d = CalendarDate { year: 2024, month: 2, day: 29 };
    assert_eq!(d.to_text(), "2024-02-29");
    assert_eq!(CalendarDate::parse(&d.to_text()), Ok(d));
    let early = CalendarDate { year: 33, month: 7, day: 4 };
    assert_eq!(early.to_text(), "0033-07-04");
    assert_eq!(CalendarDate::parse("0033-07-04"), Ok(early));
}

#[test]
fn malformed_dates_are_refused() {
    assert_eq!(CalendarDate::parse("2024-01"), Err(DateError::WrongFieldCount));
    assert_eq!(CalendarDate::parse("2024-01-02-03"), Err(DateError::WrongFieldCount));
    assert_eq!(CalendarDate::parse("2024-xx-02"), Err(DateError::InvalidNumber));
    assert_eq!(CalendarDate::parse("2024-300-02"), Err(DateError::InvalidNumber));
    assert_eq!(CalendarDate::parse("2019-02-29"), Err(DateError::InvalidDate));
    assert_eq!(CalendarDate::parse("2019-13-01"), Err(DateError::InvalidDate));
    assert_eq!(CalendarDate::parse("10000-01-01"), Err(DateError::InvalidDate));
}

#[test]
fn calendar_dates_are_checked() {
    assert_eq!(calendar_date(2000, 2, 29), Some(CalendarDate { year: 2000, month: 2, day: 29 }));
    assert_eq!(calendar_date(1900, 2, 29), None);
    assert_eq!(calendar_date(2023, 4, 31), None);
    assert_eq!(calendar_date(2023, 0, 1), None);
}
