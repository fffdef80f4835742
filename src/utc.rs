use chrono::{Datelike, Timelike};
use vstd::prelude::*;

use crate::codec::{dec_text, push_char, push_decimal};
use crate::error::FetchError;

verus! {

/// A moment of UTC calendar time, field by field.
#[derive(Debug, Clone, Copy, PartialEq, Eq)]
pub struct CivilTime {
    pub year: i32,
    pub month: u32,
    pub day: u32,
    pub hour: u32,
    pub minute: u32,
    pub second: u32,
}

/// The proleptic Gregorian date `(year, month, day)` of the day `days` after
/// 1970-01-01, for days before it too (negative `days`).
pub open spec fn civil_from_days(days: int) -> (int, int, int) {
    let z = days + 719468;
    let era = z / 146097;
    let doe = z - era * 146097;
    let yoe = (doe - doe / 1460 + doe / 36524 - doe / 146096) / 365;
    let doy = doe - (365 * yoe + yoe / 4 - yoe / 100);
    let mp = (5 * doy + 2) / 153;
    let day = doy - (153 * mp + 2) / 5 + 1;
    let month = if mp < 10 {
        mp + 3
    } else {
        mp - 9
    };
    let year = if month <= 2 {
        yoe + era * 400 + 1
    } else {
        yoe + era * 400
    };
    (year, month, day)
}

/// The UTC date of a Unix timestamp: the date of the day that holds it.
pub open spec fn utc_date(secs: int) -> (int, int, int) {
    civil_from_days(secs / 86400)
}

/// The years that the calendar of chrono's `NaiveDate` covers.
pub open spec fn year_in_calendar_range(year: int) -> bool {
    -262143 <= year <= 262142
}

/// Relies on chrono's `DateTime::<Utc>::from_timestamp`, which gives `None` exactly
/// when the timestamp's date falls outside `NaiveDate`'s years, and on the date and
/// time-of-day accessors of its result. The date is the proleptic Gregorian date of
/// the timestamp's day; the time of day is the remainder of the day in seconds, split
/// into hours, minutes and seconds.
#[verifier::external_body]
fn utc_calendar(secs: i64) -> (r: Option<CivilTime>)
    ensures
        r is Some <==> year_in_calendar_range(utc_date(secs as int).0),
        r matches Some(t) ==> {
            &&& utc_date(secs as int) == (t.year as int, t.month as int, t.day as int)
            &&& t.hour == (secs as int % 86400) / 3600
            &&& t.minute == (secs as int % 3600) / 60
            &&& t.second == secs as int % 60
        },
{
    match chrono::DateTime::<chrono::Utc>::from_timestamp(secs, 0) {
        Some(d) => Some(
            CivilTime {
                year: d.year(),
                month: d.month(),
                day: d.day(),
                hour: d.hour(),
                minute: d.minute(),
                second: d.second(),
            },
        ),
        None => None,
    }
}

/// `v` in decimal, zero-padded to two digits.
pub open spec fn two_digits(v: nat) -> Seq<char> {
    if v < 10 {
        seq!['0'] + dec_text(v)
    } else {
        dec_text(v)
    }
}

/// `v` in decimal, zero-padded to four digits.
pub open spec fn four_digits(v: nat) -> Seq<char> {
    if v < 10 {
        seq!['0', '0', '0'] + dec_text(v)
    } else if v < 100 {
        seq!['0', '0'] + dec_text(v)
    } else if v < 1000 {
        seq!['0'] + dec_text(v)
    } else {
        dec_text(v)
    }
}

/// A year as four digits; a year outside `0..=9999` carries its sign.
pub open spec fn year_text(y: int) -> Seq<char> {
    if 0 <= y <= 9999 {
        four_digits(y as nat)
    } else if y > 9999 {
        seq!['+'] + dec_text(y as nat)
    } else {
        seq!['-'] + four_digits((-y) as nat)
    }
}

/// `YYYY-MM-DD HH:MM:SS UTC` for the given fields.
pub open spec fn civil_text(
    year: int,
    month: nat,
    day: nat,
    hour: nat,
    minute: nat,
    second: nat,
) -> Seq<char> {
    year_text(year) + seq!['-'] + two_digits(month) + seq!['-'] + two_digits(day) + seq![' ']
        + two_digits(hour) + seq![':'] + two_digits(minute) + seq![':'] + two_digits(second)
        + seq![' ', 'U', 'T', 'C']
}

/// The UTC text of a Unix timestamp, or `None` where it cannot be represented.
pub open spec fn utc_text(secs: int) -> Option<Seq<char>> {
    let (y, m, d) = utc_date(secs);
    if secs > i64::MAX || !year_in_calendar_range(y) {
        None
    } else {
        Some(
            civil_text(
                y,
                m as nat,
                d as nat,
                ((secs % 86400) / 3600) as nat,
                ((secs % 3600) / 60) as nat,
                (secs % 60) as nat,
            ),
        )
    }
}

/// Every timestamp up to the end of year 9999 has a calendar date.
pub proof fn lemma_four_digit_years_representable(secs: int)
    requires
        0 <= secs <= 253402300799,
    ensures
        year_in_calendar_range(utc_date(secs).0),
        utc_text(secs) is Some,
{
}

fn push_two_digits(s: &mut String, v: u32)
    ensures
        final(s)@ == old(s)@ + two_digits(v as nat),
{
    if v < 10 {
        push_char(s, '0');
    }
    push_decimal(s, v as u64);
    assert(final(s)@ =~= old(s)@ + two_digits(v as nat));
}

fn push_four_digits(s: &mut String, v: u64)
    ensures
        final(s)@ == old(s)@ + four_digits(v as nat),
{
    if v < 1000 {
        push_char(s, '0');
    }
    if v < 100 {
        push_char(s, '0');
    }
    if v < 10 {
        push_char(s, '0');
    }
    push_decimal(s, v);
    assert(final(s)@ =~= old(s)@ + four_digits(v as nat));
}

/// Renders calendar fields as `YYYY-MM-DD HH:MM:SS UTC`, zero-padded, on a 24-hour clock.
pub fn format_civil(t: &CivilTime) -> (r: String)
    ensures
        r@ == civil_text(
            t.year as int,
            t.month as nat,
            t.day as nat,
            t.hour as nat,
            t.minute as nat,
            t.second as nat,
        ),
{
    let mut s = String::new();
    let y = t.year as i64;
    if 0 <= y && y <= 9999 {
        push_four_digits(&mut s, y as u64);
    } else if y > 9999 {
        push_char(&mut s, '+');
        push_decimal(&mut s, y as u64);
    } else {
        push_char(&mut s, '-');
        push_four_digits(&mut s, (-y) as u64);
    }
    let ghost after_year = s@;
    assert(after_year =~= year_text(t.year as int));
    push_char(&mut s, '-');
    push_two_digits(&mut s, t.month);
    push_char(&mut s, '-');
    push_two_digits(&mut s, t.day);
    push_char(&mut s, ' ');
    push_two_digits(&mut s, t.hour);
    push_char(&mut s, ':');
    push_two_digits(&mut s, t.minute);
    push_char(&mut s, ':');
    push_two_digits(&mut s, t.second);
    push_char(&mut s, ' ');
    push_char(&mut s, 'U');
    push_char(&mut s, 'T');
    push_char(&mut s, 'C');
    assert(s@ =~= civil_text(
        t.year as int,
        t.month as nat,
        t.day as nat,
        t.hour as nat,
        t.minute as nat,
        t.second as nat,
    ));
    s
}

/// Converts a Unix timestamp to its UTC text, `YYYY-MM-DD HH:MM:SS UTC`; a timestamp
/// that cannot be represented as a calendar time is an `InvalidTimestamp` error.
pub fn format_utc(secs: u64) -> (r: Result<String, FetchError>)
    ensures
        match utc_text(secs as int) {
            Some(text) => r matches Ok(s) && s@ == text,
            None => r matches Err(FetchError::InvalidTimestamp { secs: e }) && e == secs,
        },
        secs <= 253402300799 ==> r is Ok,
{
    proof {
        if secs <= 253402300799 {
            lemma_four_digit_years_representable(secs as int);
        }
    }
    if secs > 0x7FFF_FFFF_FFFF_FFFF {
        return Err(FetchError::InvalidTimestamp { secs });
    }
    match utc_calendar(secs as i64) {
        Some(t) => Ok(format_civil(&t)),
        None => Err(FetchError::InvalidTimestamp { secs }),
    }
}

} // verus!
