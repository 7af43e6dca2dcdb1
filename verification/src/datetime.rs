//! Dates and times: read by the `chrono` crate.

use vstd::prelude::*;

verus! {

/// `chrono::NaiveDate`, a date without a time zone: opaque, carried through.
#[verifier::external_type_specification]
#[verifier::external_body]
pub struct ExNaiveDate(chrono::NaiveDate);

/// `chrono::NaiveTime`, a time of day without a time zone: opaque,
/// carried through.
#[verifier::external_type_specification]
#[verifier::external_body]
pub struct ExNaiveTime(chrono::NaiveTime);

/// `chrono::NaiveDateTime`, a date and time without a time zone: opaque,
/// carried through.
#[verifier::external_type_specification]
#[verifier::external_body]
pub struct ExNaiveDateTime(chrono::NaiveDateTime);

/// A point in time, and the offset from UTC it is told in.
#[derive(Clone, Copy, Debug, PartialEq, Eq, Structural)]
pub struct OffsetDateTime {
    /// Seconds since 1970-01-01T00:00:00Z, leap seconds not counted.
    pub timestamp: i64,
    /// Nanoseconds since the last full second; above 999,999,999 in a leap
    /// second.
    pub nanosecond: u32,
    /// Seconds that local time is ahead of UTC.
    pub offset: i32,
}

/// The date and time with offset that `text` writes, as `chrono` reads it.
pub uninterp spec fn fixed_offset_datetime_of(text: Seq<char>) -> Option<OffsetDateTime>;

/// The date and time that `text` writes, told in UTC: the same point in
/// time as with the offset it is written with, and the offset zero.
pub open spec fn utc_datetime_of(text: Seq<char>) -> Option<OffsetDateTime> {
    match fixed_offset_datetime_of(text) {
        Some(v) => Some(OffsetDateTime { offset: 0, ..v }),
        None => None,
    }
}

/// The date and time without offset that `text` writes, as `chrono` reads
/// it.
pub uninterp spec fn naive_datetime_of(text: Seq<char>) -> Option<chrono::NaiveDateTime>;

/// The date that `text` writes, as `chrono` reads it.
pub uninterp spec fn naive_date_of(text: Seq<char>) -> Option<chrono::NaiveDate>;

/// The time of day that `text` writes, as `chrono` reads it.
pub uninterp spec fn naive_time_of(text: Seq<char>) -> Option<chrono::NaiveTime>;

/// `str::parse` to `chrono::DateTime<chrono::FixedOffset>`: a date, `T` or
/// a space, a time and an offset, in a relaxed form of RFC 3339. The
/// contract claims that the result depends on `text` alone.
#[verifier::external_body]
pub(crate) fn parse_datetime_fixed_offset(text: &str) -> (r: Option<OffsetDateTime>)
    ensures
        r == fixed_offset_datetime_of(text@),
{
    match text.parse::<chrono::DateTime<chrono::FixedOffset>>() {
        Ok(v) => Some(
            OffsetDateTime {
                timestamp: v.timestamp(),
                nanosecond: v.timestamp_subsec_nanos(),
                offset: v.offset().local_minus_utc(),
            },
        ),
        Err(_) => None,
    }
}

/// `str::parse` to `chrono::DateTime<chrono::Utc>`: it reads as with a
/// fixed offset and then tells the point in time in UTC. The contract
/// claims that: the result is that of the reading with a fixed offset,
/// with the same seconds and nanoseconds and the offset zero.
#[verifier::external_body]
pub(crate) fn parse_datetime_utc(text: &str) -> (r: Option<OffsetDateTime>)
    ensures
        r == utc_datetime_of(text@),
{
    match text.parse::<chrono::DateTime<chrono::Utc>>() {
        Ok(v) => Some(
            OffsetDateTime {
                timestamp: v.timestamp(),
                nanosecond: v.timestamp_subsec_nanos(),
                offset: v.fixed_offset().offset().local_minus_utc(),
            },
        ),
        Err(_) => None,
    }
}

/// `str::parse` to `chrono::NaiveDateTime`: a date, `T` and a time. The
/// contract claims that the result depends on `text` alone.
#[verifier::external_body]
pub(crate) fn parse_naive_datetime(text: &str) -> (r: Option<chrono::NaiveDateTime>)
    ensures
        r == naive_datetime_of(text@),
{
    match text.parse::<chrono::NaiveDateTime>() {
        Ok(v) => Some(v),
        Err(_) => None,
    }
}

/// `str::parse` to `chrono::NaiveDate`: year, month and day. The contract
/// claims that the result depends on `text` alone.
#[verifier::external_body]
pub(crate) fn parse_naive_date(text: &str) -> (r: Option<chrono::NaiveDate>)
    ensures
        r == naive_date_of(text@),
{
    match text.parse::<chrono::NaiveDate>() {
        Ok(v) => Some(v),
        Err(_) => None,
    }
}

/// `str::parse` to `chrono::NaiveTime`: hour and minute, and optionally
/// second and fraction. The contract claims that the result depends on
/// `text` alone.
#[verifier::external_body]
pub(crate) fn parse_naive_time(text: &str) -> (r: Option<chrono::NaiveTime>)
    ensures
        r == naive_time_of(text@),
{
    match text.parse::<chrono::NaiveTime>() {
        Ok(v) => Some(v),
        Err(_) => None,
    }
}

} // verus!
