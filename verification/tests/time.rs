use mashinka::command::Error;
use mashinka::grow::time::{Timestamp, MAX_SECONDS, MIN_SECONDS};

#[test]
fn timestamp_is_written_as_date_and_time() {
    let at = Timestamp::from_seconds(1637090160).unwrap();
    assert_eq!("2021-11-16 19:16:00", at.date_time());
    assert_eq!("2021-11-16", at.date());
    assert_eq!("1970-01-01 00:00:00", Timestamp::default().date_time());
    assert_eq!("1969-12-31 23:59:59", Timestamp::from_seconds(-1).unwrap().date_time());
}

#[test]
fn timestamp_is_read_from_date_and_time() {
    assert_eq!(1637090160, Timestamp::parse("2021-11-16 19:16:00").unwrap().seconds());
    assert_eq!(0, Timestamp::parse("1970-01-01 00:00:00").unwrap().seconds());
    assert!(matches!(Timestamp::parse("2021-11-16"), Err(Error::DateTimeError(_))));
    assert!(matches!(Timestamp::parse("2021-02-30 00:00:00"), Err(Error::DateTimeError(_))));
    assert!(matches!(Timestamp::parse(""), Err(Error::DateTimeError(_))));
}

#[test]
fn timestamp_goes_from_the_first_to_the_last_instant() {
    assert!(Timestamp::from_seconds(MIN_SECONDS).is_some());
    assert!(Timestamp::from_seconds(MAX_SECONDS).is_some());
    assert!(Timestamp::from_seconds(MIN_SECONDS - 1).is_none());
    assert!(Timestamp::from_seconds(MAX_SECONDS + 1).is_none());
    assert_eq!(
        Some(MIN_SECONDS),
        chrono::DateTime::<chrono::Utc>::MIN_UTC.timestamp().into()
    );
    assert_eq!(
        Some(MAX_SECONDS),
        chrono::DateTime::<chrono::Utc>::MAX_UTC.timestamp().into()
    );
    assert!(chrono::DateTime::from_timestamp(MIN_SECONDS - 1, 0).is_none());
    assert!(chrono::DateTime::from_timestamp(MAX_SECONDS + 1, 0).is_none());
    assert_eq!("-262143-01-01 00:00:00", Timestamp::from_seconds(MIN_SECONDS).unwrap().date_time());
    assert_eq!("+262142-12-31", Timestamp::from_seconds(MAX_SECONDS).unwrap().date());
}

#[test]
fn now_is_the_present_instant() {
    let before = chrono::Utc::now().timestamp();
    let now = Timestamp::now().seconds();
    let after = chrono::Utc::now().timestamp();
    assert!(before <= now && now <= after);
}
