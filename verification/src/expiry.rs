//! Time left until a market's end date, read with `chrono`.
use vstd::prelude::*;

verus! {

broadcast use vstd::string::group_string_axioms;

/// Whole seconds from the instant `now_secs.now_nanos` (Unix time) until the
/// RFC 3339 date-time `text`, as chrono counts them, or `None` when `text`
/// is not RFC 3339 or the instant is out of chrono's range.
pub uninterp spec fn rfc3339_seconds_from(text: Seq<char>, now_secs: i64, now_nanos: u32) -> Option<
    i64,
>;

/// Whole seconds from the instant `now_secs.now_nanos` until the date `text`
/// read with the chrono format `fmt`, taken at `hour:minute:second` UTC, as
/// chrono counts them; `None` when the date does not parse, the time of day
/// is invalid, or the instant is out of chrono's range.
pub uninterp spec fn date_seconds_from(
    text: Seq<char>,
    fmt: Seq<char>,
    hour: u32,
    minute: u32,
    second: u32,
    now_secs: i64,
    now_nanos: u32,
) -> Option<i64>;

/// Current time from chrono's `Utc::now`, as Unix seconds and the nanoseconds
/// within that second. Trusted; nothing is stated of it, as it is the clock.
#[verifier::external_body]
fn utc_now() -> (r: (i64, u32)) {
    let now = chrono::Utc::now();
    (now.timestamp(), now.timestamp_subsec_nanos())
}

/// Calls chrono's `DateTime::parse_from_rfc3339` on `text` and
/// `signed_duration_since` the instant rebuilt by `DateTime::from_timestamp`,
/// then `TimeDelta::num_seconds`. Trusted: the result is
/// `rfc3339_seconds_from` of the arguments.
#[verifier::external_body]
fn rfc3339_seconds_until(text: &str, now_secs: i64, now_nanos: u32) -> (r: Option<i64>)
    ensures
        r == rfc3339_seconds_from(text@, now_secs, now_nanos),
{
    let now = chrono::DateTime::from_timestamp(now_secs, now_nanos)?;
    match chrono::DateTime::parse_from_rfc3339(text) {
        Ok(end) => Some(end.signed_duration_since(now).num_seconds()),
        Err(_) => None,
    }
}

/// Calls chrono's `NaiveDate::parse_from_str(text, fmt)`, places the date at
/// `hour:minute:second` with `and_hms_opt` and `and_utc`, and takes
/// `signed_duration_since` the instant rebuilt by `DateTime::from_timestamp`,
/// then `num_seconds`. Trusted: the result is `date_seconds_from` of the
/// arguments.
#[verifier::external_body]
fn date_seconds_until(
    text: &str,
    fmt: &str,
    hour: u32,
    minute: u32,
    second: u32,
    now_secs: i64,
    now_nanos: u32,
) -> (r: Option<i64>)
    ensures
        r == date_seconds_from(text@, fmt@, hour, minute, second, now_secs, now_nanos),
{
    let now = chrono::DateTime::from_timestamp(now_secs, now_nanos)?;
    let date = chrono::NaiveDate::parse_from_str(text, fmt).ok()?;
    let end = date.and_hms_opt(hour, minute, second)?.and_utc();
    Some(end.signed_duration_since(now).num_seconds())
}

/// A duration counts only while it is still ahead.
pub open spec fn still_ahead(d: Option<i64>) -> Option<i64> {
    match d {
        Some(x) => if x > 0 {
            Some(x)
        } else {
            None
        },
        None => None,
    }
}

/// Seconds left given the RFC 3339 reading of the end date and, when that
/// failed, its plain-date reading.
pub open spec fn remaining_from(rfc3339: Option<i64>, plain_date: Option<i64>) -> Option<i64> {
    match rfc3339 {
        Some(d) => still_ahead(Some(d)),
        None => still_ahead(plain_date),
    }
}

/// Seconds left from the two readings of an end date: the RFC 3339 one
/// first, the plain date (end of that day, UTC) when the first failed;
/// `None` once the end has passed.
pub fn remaining_seconds(rfc3339: Option<i64>, plain_date: Option<i64>) -> (r: Option<i64>)
    ensures
        r == remaining_from(rfc3339, plain_date),
{
    let d = match rfc3339 {
        Some(d) => Some(d),
        None => plain_date,
    };
    match d {
        Some(x) => if x > 0 {
            Some(x)
        } else {
            None
        },
        None => None,
    }
}

/// The text of an optional string slice.
pub open spec fn opt_str_view(o: Option<&str>) -> Option<Seq<char>> {
    match o {
        Some(s) => Some(s@),
        None => None,
    }
}

/// Seconds from the instant `now` until the end date, read first as RFC 3339
/// and else as "%Y-%m-%d" at 23:59:59 UTC; `None` for a missing, unreadable
/// or past end date.
pub open spec fn seconds_to_expiry_from(end_date: Option<Seq<char>>, now_secs: i64, now_nanos: u32) -> Option<i64> {
    match end_date {
        None => None,
        Some(t) => match rfc3339_seconds_from(t, now_secs, now_nanos) {
            Some(d) => remaining_from(Some(d), None),
            None => remaining_from(
                None,
                date_seconds_from(t, "%Y-%m-%d"@, 23, 59, 59, now_secs, now_nanos),
            ),
        },
    }
}

/// Seconds to expiry of an end date, measured from the given instant.
pub fn seconds_to_expiry_at(end_date: Option<&str>, now_secs: i64, now_nanos: u32) -> (r: Option<i64>)
    ensures
        r == seconds_to_expiry_from(opt_str_view(end_date), now_secs, now_nanos),
{
    match end_date {
        None => None,
        Some(text) => {
            let rfc = rfc3339_seconds_until(text, now_secs, now_nanos);
            match rfc {
                Some(_) => remaining_seconds(rfc, None),
                None => {
                    let plain = date_seconds_until(text, "%Y-%m-%d", 23, 59, 59, now_secs, now_nanos);
                    remaining_seconds(None, plain)
                },
            }
        },
    }
}

/// Seconds to expiry of an end date, measured from the current time; `None`
/// for missing, unreadable or expired dates.
pub fn seconds_to_expiry(end_date: Option<&str>) -> (r: Option<i64>)
    ensures
        exists|now_secs: i64, now_nanos: u32|
            r == seconds_to_expiry_from(opt_str_view(end_date), now_secs, now_nanos),
        r matches Some(x) ==> x > 0,
{
    let (now_secs, now_nanos) = utc_now();
    let r = seconds_to_expiry_at(end_date, now_secs, now_nanos);
    assert(r == seconds_to_expiry_from(opt_str_view(end_date), now_secs, now_nanos));
    r
}

} // verus!
