use vstd::prelude::*;

use chrono::format::ParseError;
use chrono::DateTime;

verus! {

#[verifier::external_type_specification]
#[verifier::external_body]
pub struct ExParseError(ParseError);

/// The textual form of a publish date: `05 Jan 2024 10:00:00 +0000`.
pub const DATE_FORMAT: &'static str = "%d %b %Y %H:%M:%S %z";

/// The weekday's name: `Friday`.
pub const WEEKDAY_FORMAT: &'static str = "%A";

/// The day of the month, unpadded: `5`.
pub const DAY_FORMAT: &'static str = "%-d";

/// The month's name and the year: `January 2024`.
pub const MONTH_YEAR_FORMAT: &'static str = "%B %Y";

/// 0000-01-01 00:00:00 UTC, in seconds since the Unix epoch.
pub const EARLIEST: i64 = -62167219200;

/// 9999-12-31 23:59:59 UTC, in seconds since the Unix epoch.
pub const LATEST: i64 = 253402300799;

/// Whether a time, in seconds since the epoch, falls in the years 0 to 9999
/// (UTC), the years that RFC 2822 can write.
pub open spec fn in_rfc2822_range(t: int) -> bool {
    EARLIEST <= t <= LATEST
}

/// The instant, in seconds since the epoch, that chrono parses from `s` in
/// the format `fmt`, with its offset applied.
pub uninterp spec fn parsed_instant(s: Seq<char>, fmt: Seq<char>) -> Option<int>;

/// RFC 2822 text of an instant in UTC.
pub uninterp spec fn rfc2822_of(t: int) -> Seq<char>;

/// An instant in UTC written in the strftime format `fmt`.
pub uninterp spec fn formatted_instant(t: int, fmt: Seq<char>) -> Seq<char>;

/// Relies on `chrono::DateTime::parse_from_str` and `DateTime::timestamp`:
/// the instant that `s` names in the format `fmt`, or why it names none.
#[verifier::external_body]
fn parse_instant(s: &str, fmt: &str) -> (r: Result<i64, ParseError>)
    ensures
        r is Ok <==> parsed_instant(s@, fmt@) is Some,
        r matches Ok(t) ==> parsed_instant(s@, fmt@) == Some(t as int),
{
    DateTime::parse_from_str(s, fmt).map(|d| d.timestamp())
}

/// Relies on `chrono::DateTime::from_timestamp` and `DateTime::to_rfc2822`,
/// which writes the years 0 to 9999 (and panics on others).
#[verifier::external_body]
pub(crate) fn rfc2822(t: i64) -> (r: String)
    requires
        in_rfc2822_range(t as int),
    ensures
        r@ == rfc2822_of(t as int),
{
    DateTime::from_timestamp(t, 0).map(|d| d.to_rfc2822()).unwrap_or_default()
}

/// Relies on `chrono::DateTime::from_timestamp` and `DateTime::format`; the
/// format is one of the post list's, which chrono accepts.
#[verifier::external_body]
pub(crate) fn format_instant(t: i64, fmt: &str) -> (r: String)
    requires
        in_rfc2822_range(t as int),
        fmt@ == WEEKDAY_FORMAT@ || fmt@ == DAY_FORMAT@ || fmt@ == MONTH_YEAR_FORMAT@,
    ensures
        r@ == formatted_instant(t as int, fmt@),
{
    DateTime::from_timestamp(t, 0).map(|d| d.format(fmt).to_string()).unwrap_or_default()
}

/// Relies on `chrono::Utc::now` and `DateTime::to_rfc2822`: the time now, in
/// RFC 2822 text.
#[verifier::external_body]
pub(crate) fn now_rfc2822() -> String {
    chrono::Utc::now().to_rfc2822()
}

/// The English ordinal suffix of a day number written in digits: `st`,
/// `nd`, `rd`, or `th` (also for 11, 12 and 13).
pub open spec fn ordinal_suffix(day: Seq<char>) -> Seq<char> {
    if day.len() >= 2 && day[day.len() - 2] == '1' {
        "th"@
    } else if day.len() >= 1 && day.last() == '1' {
        "st"@
    } else if day.len() >= 1 && day.last() == '2' {
        "nd"@
    } else if day.len() >= 1 && day.last() == '3' {
        "rd"@
    } else {
        "th"@
    }
}

fn ordinal_suffix_of(day: &str) -> (r: &'static str)
    ensures
        r@ == ordinal_suffix(day@),
{
    let v = crate::text::chars_of(day);
    let n = v.len();
    if n >= 2 && v[n - 2] == '1' {
        "th"
    } else if n >= 1 && v[n - 1] == '1' {
        "st"
    } else if n >= 1 && v[n - 1] == '2' {
        "nd"
    } else if n >= 1 && v[n - 1] == '3' {
        "rd"
    } else {
        "th"
    }
}

/// A date as the post list writes it: `Friday the 5th of January 2024`.
pub open spec fn long_date_of(t: int) -> Seq<char> {
    let day = formatted_instant(t, DAY_FORMAT@);
    formatted_instant(t, WEEKDAY_FORMAT@) + " the "@ + day + ordinal_suffix(day) + " of "@
        + formatted_instant(t, MONTH_YEAR_FORMAT@)
}

/// Writes a date as the post list does: `Friday the 5th of January 2024`.
pub fn long_date(t: i64) -> (r: String)
    requires
        in_rfc2822_range(t as int),
    ensures
        r@ == long_date_of(t as int),
{
    let mut r = format_instant(t, WEEKDAY_FORMAT);
    r.append(" the ");
    let day = format_instant(t, DAY_FORMAT);
    r.append(day.as_str());
    r.append(ordinal_suffix_of(day.as_str()));
    r.append(" of ");
    let month_year = format_instant(t, MONTH_YEAR_FORMAT);
    r.append(month_year.as_str());
    r
}

/// Why a publish date was refused.
#[derive(Clone, Copy, Debug)]
pub enum DateError {
    /// The text does not have the publish-date format.
    Malformed(ParseError),
    /// The date lies outside the years 0 to 9999 (UTC).
    OutOfRange,
}

/// Parses a publish date, `05 Jan 2024 10:00:00 +0000`, into seconds since
/// the epoch.
pub fn parse_publish_date(s: &str) -> (r: Result<i64, DateError>)
    ensures
        parsed_instant(s@, DATE_FORMAT@) is None <==> r matches Err(DateError::Malformed(_)),
        r matches Ok(t) ==> parsed_instant(s@, DATE_FORMAT@) == Some(t as int) && in_rfc2822_range(
            t as int,
        ),
        r matches Err(DateError::OutOfRange) ==> parsed_instant(s@, DATE_FORMAT@) matches Some(t)
            && !in_rfc2822_range(t),
        parsed_instant(s@, DATE_FORMAT@) matches Some(t) && in_rfc2822_range(t) ==> r is Ok,
{
    match parse_instant(s, DATE_FORMAT) {
        Err(e) => Err(DateError::Malformed(e)),
        Ok(t) => if EARLIEST <= t && t <= LATEST {
            Ok(t)
        } else {
            Err(DateError::OutOfRange)
        },
    }
}

} // verus!
