//! Timestamps of imported quotes and bars, read with `chrono`.

use vstd::prelude::*;
use crate::models::{message_with, opt_view};
use crate::text::{string_of, trim, trim_str};

verus! {

/// An instant: seconds since the Unix epoch, and nanoseconds past that second.
#[derive(Debug, Clone, Copy, PartialEq, Eq, Structural)]
pub struct Timestamp {
    pub secs: i64,
    pub nanos: u32,
}

/// The instant an RFC 3339 text denotes, as `chrono` reads it.
pub uninterp spec fn rfc3339_instant(s: Seq<char>) -> Option<(i64, u32)>;

/// The start (00:00:00 UTC) of the calendar date a text denotes in format `fmt`.
pub uninterp spec fn date_start(s: Seq<char>, fmt: Seq<char>) -> Option<i64>;

/// The instant a date-and-time text denotes in format `fmt`, taken as UTC.
pub uninterp spec fn datetime_instant(s: Seq<char>, fmt: Seq<char>) -> Option<(i64, u32)>;

/// `chrono::DateTime::parse_from_rfc3339`, with the result given as its Unix
/// timestamp (`timestamp`, `timestamp_subsec_nanos`); `None` where chrono
/// refuses the text. The contract names the result and says nothing more of it.
#[verifier::external_body]
fn parse_rfc3339(s: &str) -> (r: Option<(i64, u32)>)
    ensures
        r == rfc3339_instant(s@),
{
    match chrono::DateTime::parse_from_rfc3339(s) {
        Ok(dt) => Some((dt.timestamp(), dt.timestamp_subsec_nanos())),
        Err(_) => None,
    }
}

/// `chrono::NaiveDate::parse_from_str`, with the date given as the Unix
/// timestamp of its midnight in UTC (`and_hms_opt(0, 0, 0)`, which chrono
/// documents as `None` only for an invalid time, then `and_utc().timestamp()`);
/// `None` where chrono refuses the text. The contract names the result.
#[verifier::external_body]
fn parse_date(s: &str, fmt: &str) -> (r: Option<i64>)
    ensures
        r == date_start(s@, fmt@),
{
    match chrono::NaiveDate::parse_from_str(s, fmt) {
        Ok(d) => match d.and_hms_opt(0, 0, 0) {
            Some(t) => Some(t.and_utc().timestamp()),
            None => None,
        },
        Err(_) => None,
    }
}

/// `chrono::NaiveDateTime::parse_from_str`, with the result taken as UTC and
/// given as its Unix timestamp; `None` where chrono refuses the text. The
/// contract names the result.
#[verifier::external_body]
fn parse_datetime(s: &str, fmt: &str) -> (r: Option<(i64, u32)>)
    ensures
        r == datetime_instant(s@, fmt@),
{
    match chrono::NaiveDateTime::parse_from_str(s, fmt) {
        Ok(t) => Some((t.and_utc().timestamp(), t.and_utc().timestamp_subsec_nanos())),
        Err(_) => None,
    }
}

/// The instant of a trimmed timestamp text, given what each accepted form
/// reads it as: RFC 3339 first, then a bare date, then date and time.
pub open spec fn instant_of(
    s: Seq<char>,
    rfc: Option<(i64, u32)>,
    date: Option<i64>,
    datetime: Option<(i64, u32)>,
) -> Result<Timestamp, Seq<char>> {
    match rfc {
        Some((secs, nanos)) => Ok(Timestamp { secs, nanos }),
        None => match date {
            Some(secs) => Ok(Timestamp { secs, nanos: 0 }),
            None => match datetime {
                Some((secs, nanos)) => Ok(Timestamp { secs, nanos }),
                None => Err("invalid timestamp (use RFC3339 or YYYY-MM-DD): "@ + s),
            },
        },
    }
}

/// Picks the instant of a trimmed timestamp text from what each accepted
/// form reads it as.
pub fn pick_instant(
    s: &[char],
    rfc: Option<(i64, u32)>,
    date: Option<i64>,
    datetime: Option<(i64, u32)>,
) -> (r: Result<Timestamp, String>)
    ensures
        match instant_of(s@, rfc, date, datetime) {
            Ok(t) => r == Ok::<Timestamp, String>(t),
            Err(e) => r matches Err(m) && m@ == e,
        },
{
    match rfc {
        Some((secs, nanos)) => Ok(Timestamp { secs, nanos }),
        None => match date {
            Some(secs) => Ok(Timestamp { secs, nanos: 0 }),
            None => match datetime {
                Some((secs, nanos)) => Ok(Timestamp { secs, nanos }),
                None => Err(message_with("invalid timestamp (use RFC3339 or YYYY-MM-DD): ", s)),
            },
        },
    }
}

/// Reads an import timestamp: RFC 3339, `YYYY-MM-DD` (midnight UTC), or
/// `YYYY-MM-DD HH:MM:SS` (UTC); surrounding whitespace is ignored.
pub fn parse_ts(raw: &str) -> (r: Result<Timestamp, String>)
    ensures
        match instant_of(
            trim(raw@),
            rfc3339_instant(trim(raw@)),
            date_start(trim(raw@), "%Y-%m-%d"@),
            datetime_instant(trim(raw@), "%Y-%m-%d %H:%M:%S"@),
        ) {
            Ok(t) => r == Ok::<Timestamp, String>(t),
            Err(e) => r matches Err(m) && m@ == e,
        },
{
    let t = trim_str(raw);
    let s = string_of(t.as_slice());
    let rfc = parse_rfc3339(s.as_str());
    let date = parse_date(s.as_str(), "%Y-%m-%d");
    let datetime = parse_datetime(s.as_str(), "%Y-%m-%d %H:%M:%S");
    pick_instant(t.as_slice(), rfc, date, datetime)
}

/// The UTC calendar date (`%Y-%m-%d`) of an instant as chrono writes it, or
/// none where chrono cannot represent the instant.
pub uninterp spec fn utc_date_text(secs: i64, nanos: u32) -> Option<Seq<char>>;

/// The RFC 3339 text of an instant in UTC, to the second and with `Z`, as
/// chrono writes it, or none where chrono cannot represent the instant.
pub uninterp spec fn utc_rfc3339_secs(secs: i64, nanos: u32) -> Option<Seq<char>>;

/// `chrono::DateTime::from_timestamp` followed by `format("%Y-%m-%d")`. The
/// contract names the result and says nothing more of it.
#[verifier::external_body]
fn format_utc_date(secs: i64, nanos: u32) -> (r: Option<String>)
    ensures
        opt_view(r) == utc_date_text(secs, nanos),
{
    match chrono::DateTime::from_timestamp(secs, nanos) {
        Some(dt) => Some(dt.format("%Y-%m-%d").to_string()),
        None => None,
    }
}

/// `chrono::DateTime::from_timestamp` followed by
/// `to_rfc3339_opts(SecondsFormat::Secs, true)`. The contract names the
/// result and says nothing more of it.
#[verifier::external_body]
fn format_utc_rfc3339_secs(secs: i64, nanos: u32) -> (r: Option<String>)
    ensures
        opt_view(r) == utc_rfc3339_secs(secs, nanos),
{
    match chrono::DateTime::from_timestamp(secs, nanos) {
        Some(dt) => Some(dt.to_rfc3339_opts(chrono::SecondsFormat::Secs, true)),
        None => None,
    }
}

/// The key under which a bar is stored: its UTC date for daily and longer
/// bars, else its RFC 3339 instant to the second; none for an instant that
/// chrono cannot represent.
pub fn bar_ts_key(ts: Timestamp, daily: bool) -> (r: Option<String>)
    ensures
        opt_view(r) == if daily {
            utc_date_text(ts.secs, ts.nanos)
        } else {
            utc_rfc3339_secs(ts.secs, ts.nanos)
        },
{
    if daily {
        format_utc_date(ts.secs, ts.nanos)
    } else {
        format_utc_rfc3339_secs(ts.secs, ts.nanos)
    }
}

} // verus!
