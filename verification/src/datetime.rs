//! Dates of a page: reading them from front matter, writing them for the
//! wire. The calendar work is chrono's; this module decides which date wins.

use vstd::prelude::*;
use crate::domain::{in_calendar, option_view, Timestamp};
use std::fmt::Write;

verus! {

/// The moment that chrono reads from an RFC 3339 date and time, in UTC, as
/// seconds since 1970 and nanoseconds; `None` where the text is not one.
pub uninterp spec fn rfc3339_moment(text: Seq<char>) -> Option<(i64, u32)>;

/// Midnight of the day that chrono reads from `text` by `pattern`, as
/// seconds since 1970 and nanoseconds; `None` where the text does not fit
/// the pattern.
pub uninterp spec fn date_moment(text: Seq<char>, pattern: Seq<char>) -> Option<(i64, u32)>;

/// The text that chrono writes by `pattern` for the moment at `secs` seconds
/// since 1970 and `nanos` nanoseconds; `None` where the moment lies outside
/// chrono's calendar or the pattern cannot be written.
pub uninterp spec fn moment_text(secs: i64, nanos: u32, pattern: Seq<char>) -> Option<Seq<char>>;

/// The timestamp of a pair of seconds and nanoseconds.
pub open spec fn as_timestamp(moment: Option<(i64, u32)>) -> Option<Timestamp> {
    match moment {
        Some((secs, nanos)) => Some(Timestamp::at(secs, nanos)),
        None => None,
    }
}

/// `chrono::DateTime::parse_from_rfc3339`, then `naive_utc`: the result is a
/// function of the text alone, and is handed back as seconds and nanoseconds
/// of the UTC moment. What chrono has read is a moment of its calendar.
#[verifier::external_body]
fn parse_rfc3339(text: &str) -> (r: Option<Timestamp>)
    ensures
        r == as_timestamp(rfc3339_moment(text@)),
        r is Some ==> r->0.in_range(),
{
    match chrono::DateTime::parse_from_rfc3339(text) {
        Ok(parsed) => {
            let utc = parsed.naive_utc().and_utc();
            Some(Timestamp { secs: utc.timestamp(), nanos: utc.timestamp_subsec_nanos() })
        },
        Err(_) => None,
    }
}

/// `chrono::NaiveDate::parse_from_str`, then the first instant of that day:
/// the result is a function of the text and the pattern alone. What chrono
/// has read is a moment of its calendar.
#[verifier::external_body]
fn parse_date(text: &str, pattern: &str) -> (r: Option<Timestamp>)
    ensures
        r == as_timestamp(date_moment(text@, pattern@)),
        r is Some ==> r->0.in_range(),
{
    match chrono::NaiveDate::parse_from_str(text, pattern) {
        Ok(day) => {
            let utc = day.and_time(chrono::NaiveTime::MIN).and_utc();
            Some(Timestamp { secs: utc.timestamp(), nanos: utc.timestamp_subsec_nanos() })
        },
        Err(_) => None,
    }
}

/// `chrono::DateTime::from_timestamp`, then `format` with the pattern,
/// written into a string: the result is a function of the moment and the
/// pattern alone, and a moment that the calendar holds has a text by the
/// pattern of year, month, day, hour, minute and second.
#[verifier::external_body]
fn format_moment(moment: Timestamp, pattern: &str) -> (r: Option<String>)
    ensures
        option_view(r) == moment_text(moment.seconds(), moment.nanoseconds(), pattern@),
        in_calendar(moment.seconds(), moment.nanoseconds()) && pattern@
            == "%Y-%m-%d %H:%M:%S"@ ==> r is Some,
{
    let utc = chrono::DateTime::from_timestamp(moment.secs, moment.nanos)?;
    let mut out = String::new();
    write!(out, "{}", utc.naive_utc().format(pattern)).ok()?;
    Some(out)
}

/// The date that a page gets, from what each source gave: the front matter
/// read as RFC 3339 comes first, then the front matter read as a plain day,
/// then the date of the file.
pub open spec fn preferred_date(
    as_rfc3339: Option<Timestamp>,
    as_day: Option<Timestamp>,
    of_file: Option<Timestamp>,
) -> Option<Timestamp> {
    if as_rfc3339 is Some {
        as_rfc3339
    } else if as_day is Some {
        as_day
    } else {
        of_file
    }
}

/// Chooses among the three readings of a date.
pub fn prefer_date(
    as_rfc3339: Option<Timestamp>,
    as_day: Option<Timestamp>,
    of_file: Option<Timestamp>,
) -> (r: Option<Timestamp>)
    ensures
        r == preferred_date(as_rfc3339, as_day, of_file),
{
    if as_rfc3339.is_some() {
        as_rfc3339
    } else if as_day.is_some() {
        as_day
    } else {
        of_file
    }
}

/// The date of a page whose front matter says `frontmatter_date` and whose
/// file has the date `os_date`.
pub open spec fn resolved_datetime(
    frontmatter_date: Option<Seq<char>>,
    os_date: Option<Timestamp>,
) -> Option<Timestamp> {
    match frontmatter_date {
        Some(text) => preferred_date(
            as_timestamp(rfc3339_moment(text)),
            as_timestamp(date_moment(text, "%Y-%m-%d"@)),
            os_date,
        ),
        None => os_date,
    }
}

/// Resolves a date: the front matter where it can be read, else the file's.
pub fn resolve_datetime(frontmatter_date: &Option<String>, os_date: Option<Timestamp>) -> (r:
    Option<Timestamp>)
    ensures
        r == resolved_datetime(option_view(*frontmatter_date), os_date),
{
    match frontmatter_date {
        Some(text) => {
            let as_rfc3339 = parse_rfc3339(text.as_str());
            let as_day = parse_date(text.as_str(), "%Y-%m-%d");
            prefer_date(as_rfc3339, as_day, os_date)
        },
        None => os_date,
    }
}

/// The text of a date on the wire: `YYYY-MM-DD HH:MM:SS`, or nothing where
/// the date is absent.
pub open spec fn wire_datetime(moment: Option<Timestamp>) -> Option<Seq<char>> {
    match moment {
        Some(at) => moment_text(at.seconds(), at.nanoseconds(), "%Y-%m-%d %H:%M:%S"@),
        None => None,
    }
}

/// Writes a date for the wire: a date that is present has a text, and an
/// absent one stays absent.
pub fn format_wire_datetime(moment: Option<Timestamp>) -> (r: Option<String>)
    ensures
        option_view(r) == wire_datetime(moment),
        r is Some == moment is Some,
{
    match moment {
        Some(at) => {
            proof {
                use_type_invariant(&at);
            }
            format_moment(at, "%Y-%m-%d %H:%M:%S")
        },
        None => None,
    }
}

} // verus!
