//! Reading of dates: a full date and time, a calendar day, or a span before
//! now such as `7 days ago`.

use vstd::prelude::*;
use vstd::string::*;
use crate::clock::is_valid_timestamp;
use crate::errors::{FsError, FsErrorView};
use crate::text::{
    lowercase_of, parse_decimal, read_signed, str_eq, substring, to_chars, to_lowercase,
    trim_window, trimmed, window_text, windows_text, word_windows, words,
};

verus! {

/// The instant that a date and time in the format of RFC 3339 denotes, in
/// epoch seconds; `None` for a text that is no such date.
pub uninterp spec fn rfc3339_instant(text: Seq<char>) -> Option<i64>;

/// The first second, in universal time, of the calendar day that a text of
/// the form `YYYY-MM-DD` denotes; `None` for a text that is no such day.
pub uninterp spec fn calendar_day_start(text: Seq<char>) -> Option<i64>;

/// Calls `chrono::DateTime::parse_from_rfc3339` and hands back the
/// `timestamp` of the date that it parsed, if it parsed one.
#[verifier::external_body]
pub(crate) fn parse_rfc3339(text: &str) -> (r: Option<i64>)
    ensures
        r == rfc3339_instant(text@),
{
    match chrono::DateTime::parse_from_rfc3339(text) {
        Ok(date) => Some(date.timestamp()),
        Err(_) => None,
    }
}

/// Calls `chrono::NaiveDate::parse_from_str` with the format `%Y-%m-%d` and
/// hands back the `timestamp` of midnight, universal time, of the day that
/// it parsed, if it parsed one.
#[verifier::external_body]
pub(crate) fn parse_calendar_day(text: &str) -> (r: Option<i64>)
    ensures
        r == calendar_day_start(text@),
{
    match chrono::NaiveDate::parse_from_str(text, "%Y-%m-%d") {
        Ok(day) => Some(day.and_time(chrono::NaiveTime::MIN).and_utc().timestamp()),
        Err(_) => None,
    }
}

/// The number of seconds in a unit of time, by its lower-case name. A month
/// counts thirty days and a year 365.
pub open spec fn unit_seconds(unit: Seq<char>) -> Option<int> {
    if unit == "second"@ || unit == "seconds"@ || unit == "sec"@ || unit == "secs"@ {
        Some(1)
    } else if unit == "minute"@ || unit == "minutes"@ || unit == "min"@ || unit == "mins"@ {
        Some(60)
    } else if unit == "hour"@ || unit == "hours"@ || unit == "hr"@ || unit == "hrs"@ {
        Some(3_600)
    } else if unit == "day"@ || unit == "days"@ {
        Some(86_400)
    } else if unit == "week"@ || unit == "weeks"@ {
        Some(604_800)
    } else if unit == "month"@ || unit == "months"@ {
        Some(2_592_000)
    } else if unit == "year"@ || unit == "years"@ {
        Some(31_536_000)
    } else {
        None
    }
}

/// The span in seconds that a lower-case text of the form `<number> <unit>
/// ago` denotes.
pub open spec fn relative_span(text: Seq<char>) -> Option<int> {
    let w = words(text);
    if w.len() == 3 && w[2] == "ago"@ {
        match (parse_decimal(w[0], true, i64::MIN as int, i64::MAX as int), unit_seconds(w[1])) {
            (Some(number), Some(unit)) => Some(number * unit),
            _ => None,
        }
    } else {
        None
    }
}

/// The instant that lies `span` seconds before `now`, if the calendar can
/// represent it.
pub open spec fn instant_before(now: i64, span: int) -> Option<i64> {
    if crate::clock::MIN_TIMESTAMP <= now - span <= crate::clock::MAX_TIMESTAMP {
        Some((now - span) as i64)
    } else {
        None
    }
}

/// The instant that the three readings of a text yield: the full date if
/// there is one, else the calendar day, else the span before `now`.
pub open spec fn resolved_date(
    full: Option<i64>,
    day: Option<i64>,
    span: Option<int>,
    now: i64,
) -> Option<i64> {
    match full {
        Some(t) => Some(t),
        None => match day {
            Some(t) => Some(t),
            None => match span {
                Some(s) => instant_before(now, s),
                None => None,
            },
        },
    }
}

/// The instant that a text denotes at the instant `now`.
pub open spec fn date_of(input: Seq<char>, now: i64) -> Option<i64> {
    resolved_date(
        rfc3339_instant(input),
        calendar_day_start(input),
        relative_span(lowercase_of(trimmed(input))),
        now,
    )
}

/// The number of seconds in a unit of time with exactly this lower-case
/// name.
pub fn seconds_in(unit: &str) -> (r: Option<i64>)
    ensures
        match unit_seconds(unit@) {
            Some(n) => r == Some(n as i64),
            None => r.is_none(),
        },
{
    if str_eq(unit, "second") || str_eq(unit, "seconds") || str_eq(unit, "sec") || str_eq(
        unit,
        "secs",
    ) {
        Some(1)
    } else if str_eq(unit, "minute") || str_eq(unit, "minutes") || str_eq(unit, "min") || str_eq(
        unit,
        "mins",
    ) {
        Some(60)
    } else if str_eq(unit, "hour") || str_eq(unit, "hours") || str_eq(unit, "hr") || str_eq(
        unit,
        "hrs",
    ) {
        Some(3_600)
    } else if str_eq(unit, "day") || str_eq(unit, "days") {
        Some(86_400)
    } else if str_eq(unit, "week") || str_eq(unit, "weeks") {
        Some(604_800)
    } else if str_eq(unit, "month") || str_eq(unit, "months") {
        Some(2_592_000)
    } else if str_eq(unit, "year") || str_eq(unit, "years") {
        Some(31_536_000)
    } else {
        None
    }
}

/// The span in seconds that a lower-case text of the form `<number> <unit>
/// ago` denotes.
pub fn relative_span_of(text: &str) -> (r: Option<i128>)
    ensures
        match relative_span(text@) {
            Some(span) => r == Some(span as i128) && i128::MIN <= span <= i128::MAX,
            None => r.is_none(),
        },
{
    let v = to_chars(text);
    let ws = word_windows(&v, 0, v.len());
    proof {
        assert(v@.subrange(0, v.len() as int) =~= v@);
    }
    if ws.len() != 3 {
        return None;
    }
    proof {
        assert(windows_text(v@, ws@)[0] == window_text(v@, ws@[0]));
        assert(windows_text(v@, ws@)[1] == window_text(v@, ws@[1]));
        assert(windows_text(v@, ws@)[2] == window_text(v@, ws@[2]));
    }
    let last = substring(text, ws[2].0, ws[2].1);
    if !str_eq(last.as_str(), "ago") {
        return None;
    }
    let number = match read_signed(&v, ws[0].0, ws[0].1) {
        Some(n) => n,
        None => {
            return None;
        },
    };
    let unit = substring(text, ws[1].0, ws[1].1);
    match seconds_in(unit.as_str()) {
        Some(seconds) => {
            assert(-0x8000_0000_0000_0000 * 31_536_000 <= number * seconds
                <= 0x8000_0000_0000_0000 * 31_536_000) by (nonlinear_arith)
                requires
                    -0x8000_0000_0000_0000 <= number <= 0x7fff_ffff_ffff_ffff,
                    1 <= seconds <= 31_536_000,
            ;
            Some((number as i128) * (seconds as i128))
        },
        None => None,
    }
}

/// The instant that the three readings of a text yield.
pub fn resolve_date(full: Option<i64>, day: Option<i64>, span: Option<i128>, now: i64) -> (r:
    Option<i64>)
    ensures
        r == resolved_date(
            full,
            day,
            match span {
                Some(s) => Some(s as int),
                None => None,
            },
            now,
        ),
{
    if let Some(t) = full {
        return Some(t);
    }
    if let Some(t) = day {
        return Some(t);
    }
    match span {
        Some(s) => {
            if -0x1_0000_0000_0000_0000_0000 <= s && s <= 0x1_0000_0000_0000_0000_0000 {
                let then: i128 = now as i128 - s;
                if crate::clock::MIN_TIMESTAMP as i128 <= then && then
                    <= crate::clock::MAX_TIMESTAMP as i128 {
                    Some(then as i64)
                } else {
                    None
                }
            } else {
                None
            }
        },
        None => None,
    }
}

/// Reads a date at the instant `now`: a date and time in the format of
/// RFC 3339, a day as `YYYY-MM-DD`, or a span such as `7 days ago`.
pub fn parse_date_at(input: &str, now: i64) -> (r: Result<i64, FsError>)
    ensures
        match date_of(input@, now) {
            Some(t) => r == Ok::<i64, FsError>(t),
            None => r matches Err(e) && e@ == (FsErrorView::InvalidDate { input: input@ }),
        },
{
    let full = parse_rfc3339(input);
    let day = parse_calendar_day(input);
    let v = to_chars(input);
    let (a, b) = trim_window(&v, 0, v.len());
    proof {
        assert(v@.subrange(0, v.len() as int) =~= v@);
    }
    let lower = to_lowercase(substring(input, a, b).as_str());
    let span = relative_span_of(lower.as_str());
    match resolve_date(full, day, span, now) {
        Some(t) => Ok(t),
        None => Err(FsError::InvalidDate { input: String::from_str(input) }),
    }
}

/// Reads a date at the instant that the clock shows.
pub fn parse_date(input: &str) -> (r: Result<i64, FsError>)
    ensures
        exists|now: i64|
            is_valid_timestamp(now) && match #[trigger] date_of(input@, now) {
                Some(t) => r == Ok::<i64, FsError>(t),
                None => r matches Err(e) && e@ == (FsErrorView::InvalidDate { input: input@ }),
            },
{
    let now = crate::clock::now();
    parse_date_at(input, now)
}

} // verus!
