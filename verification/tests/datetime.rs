use chrono::{NaiveDate, NaiveTime};
use tomboy_toml_dom::datetime::OffsetDateTime;
use tomboy_toml_dom::toml::Toml;

#[test]
fn naive_date() {
    let (d, _) = Toml::from_str("d = 1979-05-27\nx = 1979-13-01\n");
    assert_eq!(d.get_naive_date_by_key("d"), NaiveDate::from_ymd_opt(1979, 5, 27));
    assert_eq!(d.get_naive_date_by_key("x"), None);
}

#[test]
fn naive_time() {
    let (d, _) = Toml::from_str("t = 07:32:00.5\nx = 25:00:00\n");
    assert_eq!(d.get_naive_time_by_key("t"), NaiveTime::from_hms_milli_opt(7, 32, 0, 500));
    assert_eq!(d.get_naive_time_by_key("x"), None);
}

#[test]
fn naive_datetime() {
    let (d, _) = Toml::from_str("t = 1979-05-27T07:32:00\n");
    assert_eq!(
        d.get_naive_datetime_by_key("t"),
        NaiveDate::from_ymd_opt(1979, 5, 27).unwrap().and_hms_opt(7, 32, 0)
    );
    assert_eq!(d.get_naive_date_by_key("t"), None);
}

#[test]
fn datetime_with_offset() {
    let (d, diagnostics) = Toml::from_str("t = 1979-05-27T00:32:00-07:00\nz = 1970-01-01T00:00:01.5Z\n");
    assert!(diagnostics.is_empty());
    assert_eq!(
        d.get_datetime_fixed_offset_by_key("t"),
        Some(OffsetDateTime { timestamp: 296638320, nanosecond: 0, offset: -7 * 3600 })
    );
    assert_eq!(
        d.get_datetime_utc_by_key("t"),
        Some(OffsetDateTime { timestamp: 296638320, nanosecond: 0, offset: 0 })
    );
    assert_eq!(
        d.get_datetime_utc_by_key("z"),
        Some(OffsetDateTime { timestamp: 1, nanosecond: 500_000_000, offset: 0 })
    );
    assert_eq!(
        d.get_datetime_local_by_key("t"),
        Some(OffsetDateTime { timestamp: 296638320, nanosecond: 0, offset: -7 * 3600 })
    );
    assert_eq!(d.get_naive_datetime_by_key("t"), None);
}

#[test]
fn dates_want_a_literal() {
    let (d, _) = Toml::from_str("d = '1979-05-27'\n");
    assert_eq!(d.get_naive_date_by_key("d"), None);
    assert_eq!(d.get_datetime_utc_by_key("d"), None);
    assert_eq!(d.get_datetime_local_by_key("d"), None);
}

#[test]
fn local_datetime_is_the_same_point_in_time() {
    let (d, _) = Toml::from_str("t = 2012-12-12T12:12:12.5+09:00\nz = 2012-12-12 12:12:12Z\nx = 2012-12-12\n");
    let fixed = d.get_datetime_fixed_offset_by_key("t").unwrap();
    let local = d.get_datetime_local_by_key("t").unwrap();
    assert_eq!(local.timestamp, 1355281932);
    assert_eq!(local.nanosecond, 500_000_000);
    assert_eq!(local, fixed);
    assert_eq!(d.get_datetime_local_by_key("z"), None);
    assert_eq!(d.get_datetime_local_by_key("x"), None);
}
