//! Calendar dates, held as day numbers (`chrono`'s days from the Common Era,
//! January 1 of year 1 being day 1), and the conversions the dashboard needs.
use vstd::prelude::*;
use chrono::{Datelike, NaiveDate, TimeZone};

verus! {

/// Whether a day number is a date `chrono::NaiveDate` can represent.
pub uninterp spec fn in_calendar(days: int) -> bool;

/// The day number that `NaiveDate::parse_from_str(s, "%Y-%m-%d")` reads.
pub uninterp spec fn iso_date_parse(s: Seq<char>) -> Option<int>;

/// `NaiveDate::format("%Y-%m-%d")` of a day.
pub uninterp spec fn iso_text(days: int) -> Seq<char>;

/// `NaiveDate::format("%b %-d")` of a day: abbreviated month and unpadded day.
pub uninterp spec fn month_day_text(days: int) -> Seq<char>;

/// `DateTime::<Utc>::from_timestamp_millis(ms)` formatted `"%b %-d, %Y"`
/// (such as `Mar 5, 2024`), or `None` when chrono cannot represent the instant.
pub uninterp spec fn long_date_text(ms: int) -> Option<Seq<char>>;

/// Whether `NaiveDate::from_num_days_from_ce_opt` accepts a day number.
#[verifier::external_body]
pub(crate) fn is_valid_day(days: i32) -> (b: bool)
    ensures
        b == in_calendar(days as int),
{
    NaiveDate::from_num_days_from_ce_opt(days).is_some()
}

/// Parses a `YYYY-MM-DD` date with `NaiveDate::parse_from_str(s, "%Y-%m-%d")`
/// and returns its day number. The grammar chrono accepts is named, not spelled
/// out; a parsed date is one chrono can represent.
#[verifier::external_body]
pub(crate) fn parse_iso_date(s: &str) -> (r: Option<i32>)
    ensures
        r matches Some(d) ==> iso_date_parse(s@) == Some(d as int) && in_calendar(d as int),
        r is None ==> iso_date_parse(s@) is None,
{
    NaiveDate::parse_from_str(s, "%Y-%m-%d").ok().map(|d| d.num_days_from_ce())
}

/// Formats a day as `YYYY-MM-DD` with chrono's `format("%Y-%m-%d")`.
#[verifier::external_body]
pub(crate) fn iso_date_string(days: i32) -> (r: String)
    requires
        in_calendar(days as int),
    ensures
        r@ == iso_text(days as int),
{
    NaiveDate::from_num_days_from_ce_opt(days).unwrap().format("%Y-%m-%d").to_string()
}

/// Formats a day as `Mon D` with chrono's `format("%b %-d")`.
#[verifier::external_body]
pub(crate) fn month_day_label(days: i32) -> (r: String)
    requires
        in_calendar(days as int),
    ensures
        r@ == month_day_text(days as int),
{
    NaiveDate::from_num_days_from_ce_opt(days).unwrap().format("%b %-d").to_string()
}

/// Day number of 1970-01-01, the unix epoch.
pub const UNIX_EPOCH_DAY: i64 = 719163;

/// Unix milliseconds of the wall-clock time `secs_of_day` seconds after
/// midnight on day `days`, read as UTC.
pub open spec fn utc_ms(days: int, secs_of_day: int) -> int {
    ((days - UNIX_EPOCH_DAY) * 86400 + secs_of_day) * 1000
}

/// `ms` is the wall-clock time `secs_of_day` on day `days` in a time zone
/// that is `off` seconds ahead of UTC (chrono keeps every offset strictly
/// within a day).
pub open spec fn read_at_offset(ms: int, days: int, secs_of_day: int, off: int) -> bool {
    -86400 < off < 86400 && ms + off * 1000 == utc_ms(days, secs_of_day)
}

/// `ms` is the wall-clock time `secs_of_day` on day `days` in some time zone.
pub open spec fn local_reading(ms: int, days: int, secs_of_day: int) -> bool {
    exists|off: int| #[trigger] read_at_offset(ms, days, secs_of_day, off)
}

/// Seconds after midnight of the time of day a period bound stands for.
pub open spec fn wall_clock_secs(end_of_day: bool) -> int {
    if end_of_day { 86399 } else { 0 }
}

/// The time of day a period bound stands for: 00:00:00 for its start,
/// 23:59:59 for its end.
pub fn wall_clock(end_of_day: bool) -> (t: (u32, u32, u32))
    ensures
        t == (if end_of_day { (23u32, 59u32, 59u32) } else { (0u32, 0u32, 0u32) }),
        t.0 * 3600 + t.1 * 60 + t.2 == wall_clock_secs(end_of_day),
{
    if end_of_day {
        (23, 59, 59)
    } else {
        (0, 0, 0)
    }
}

/// The instant at which the local time zone reads the wall-clock time
/// `h:m:s` on day `days`: `chrono::Local.from_local_datetime(..).single()`,
/// returned as unix milliseconds with the zone's offset from UTC in seconds.
/// Which offset applies, and whether the local time exists and is unambiguous,
/// depends on the machine's time zone and is not stated; chrono computes the
/// instant as the wall-clock time less that offset, which its `FixedOffset`
/// keeps strictly within a day.
#[verifier::external_body]
fn local_ms(days: i32, h: u32, m: u32, s: u32) -> (r: Option<(i64, i32)>)
    requires
        in_calendar(days as int),
        h < 24,
        m < 60,
        s < 60,
    ensures
        r matches Some((ms, off)) ==> read_at_offset(ms as int, days as int, h * 3600 + m * 60 + s, off as int),
{
    let nd = NaiveDate::from_num_days_from_ce_opt(days)?;
    let nt = chrono::NaiveTime::from_hms_opt(h, m, s)?;
    let local = chrono::Local.from_local_datetime(&chrono::NaiveDateTime::new(nd, nt)).single()?;
    Some((local.timestamp_millis(), local.offset().local_minus_utc()))
}

/// Convert `YYYY-MM-DD` and a time of day (start or end) to unix milliseconds
/// in the local time zone. A text that is not a date gives `None`; a date
/// gives, when the local zone reads its 00:00:00 (or 23:59:59 for the end of
/// the day) at a single instant, that instant. Whether it does depends on the
/// machine's time zone.
pub fn parse_date_to_ms(date: &str, end_of_day: bool) -> (r: Option<i64>)
    ensures
        iso_date_parse(date@) is None ==> r is None,
        r matches Some(ms) ==> (iso_date_parse(date@) matches Some(d) && local_reading(
            ms as int,
            d,
            wall_clock_secs(end_of_day),
        )),
{
    match parse_iso_date(date) {
        Some(d) => {
            let (h, m, s) = wall_clock(end_of_day);
            match local_ms(d, h, m, s) {
                Some((ms, off)) => {
                    assert(read_at_offset(ms as int, d as int, wall_clock_secs(end_of_day), off as int));
                    Some(ms)
                },
                None => None,
            }
        },
        None => None,
    }
}

/// Formats unix milliseconds as `Mon D, YYYY` in UTC with chrono.
#[verifier::external_body]
fn long_date(ms: i64) -> (r: Option<String>)
    ensures
        match r {
            Some(t) => long_date_text(ms as int) == Some(t@),
            None => long_date_text(ms as int) is None,
        },
{
    chrono::DateTime::<chrono::Utc>::from_timestamp_millis(ms).map(|d| d.format("%b %-d, %Y").to_string())
}

/// The date of the first event ever collected, for the home page: `None` when
/// there is none, or when its time cannot be represented.
pub fn first_event_label(first_created_at: Option<i64>) -> (r: Option<String>)
    ensures
        first_created_at is None ==> r is None,
        first_created_at matches Some(ms) ==> match long_date_text(ms as int) {
            Some(t) => r matches Some(s) && s@ == t,
            None => r is None,
        },
{
    match first_created_at {
        Some(ms) => long_date(ms),
        None => None,
    }
}

} // verus!
