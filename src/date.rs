//! Calendar dates of the proleptic Gregorian calendar, read from the two
//! accepted statement formats.
use crate::decimal::low_digits;
use crate::text::{chars_of, nat_text, trim, trimmed};
use chrono::Datelike;
use vstd::prelude::*;

verus! {

/// Earliest year that a parsed date can carry.
pub const MIN_YEAR: i32 = -262143;

/// Latest year that a parsed date can carry.
pub const MAX_YEAR: i32 = 262142;

/// A day given by year, month (1 to 12) and day of the month.
#[derive(Clone, Copy, Debug, PartialEq, Eq, Structural)]
pub struct CivilDate {
    pub year: i32,
    pub month: u32,
    pub day: u32,
}

pub open spec fn is_leap_year(y: int) -> bool {
    (y % 4 == 0 && y % 100 != 0) || y % 400 == 0
}

pub open spec fn days_in_month(y: int, m: int) -> int {
    if m == 2 {
        if is_leap_year(y) {
            29
        } else {
            28
        }
    } else if m == 4 || m == 6 || m == 9 || m == 11 {
        30
    } else {
        31
    }
}

/// Days of the year that come before the first of month `m`.
pub open spec fn days_before_month(y: int, m: int) -> int {
    let common = if m <= 1 {
        0int
    } else if m == 2 {
        31
    } else if m == 3 {
        59
    } else if m == 4 {
        90
    } else if m == 5 {
        120
    } else if m == 6 {
        151
    } else if m == 7 {
        181
    } else if m == 8 {
        212
    } else if m == 9 {
        243
    } else if m == 10 {
        273
    } else if m == 11 {
        304
    } else {
        334
    };
    common + if m > 2 && is_leap_year(y) { 1int } else { 0int }
}

/// Within the calendar and within the range of years that dates may carry.
pub open spec fn is_valid_ymd(y: int, m: int, d: int) -> bool {
    MIN_YEAR <= y <= MAX_YEAR && 1 <= m <= 12 && 1 <= d <= days_in_month(y, m)
}

impl CivilDate {
    pub open spec fn wf(self) -> bool {
        is_valid_ymd(self.year as int, self.month as int, self.day as int)
    }
}

/// The day's count from 0001-01-01, which is day 1.
pub open spec fn day_number(d: CivilDate) -> int {
    let y = d.year - 1;
    365 * y + y / 4 - y / 100 + y / 400 + days_before_month(d.year as int, d.month as int)
        + d.day
}

/// `a` is the same day as `b` or an earlier one.
pub open spec fn date_le(a: CivilDate, b: CivilDate) -> bool {
    a.year < b.year || (a.year == b.year && (a.month < b.month || (a.month == b.month
        && a.day <= b.day)))
}

/// Exec form of [`date_le`].
pub fn date_le_exec(a: CivilDate, b: CivilDate) -> (r: bool)
    ensures
        r == date_le(a, b),
{
    a.year < b.year || (a.year == b.year && (a.month < b.month || (a.month == b.month && a.day
        <= b.day)))
}

/// What chrono's `NaiveDate::parse_from_str(s, fmt)` yields, as year, month and day.
pub uninterp spec fn chrono_date_of(s: Seq<char>, fmt: Seq<char>) -> Option<(i32, u32, u32)>;

/// Relies on chrono's `NaiveDate::parse_from_str`: the outcome depends on the
/// text and the format alone, and a parsed `NaiveDate` is a valid calendar day
/// within chrono's range of years.
#[verifier::external_body]
fn chrono_parse_date(s: &Vec<char>, fmt: &str) -> (r: Option<(i32, u32, u32)>)
    ensures
        r == chrono_date_of(s@, fmt@),
        r matches Some(t) ==> is_valid_ymd(t.0 as int, t.1 as int, t.2 as int),
{
    let text: String = s.iter().collect();
    chrono::NaiveDate::parse_from_str(&text, fmt).ok().map(|d| (d.year(), d.month(), d.day()))
}

/// Relies on chrono's `NaiveDate::signed_duration_since` and
/// `TimeDelta::num_days`: the whole days from `from` to `to`.
#[verifier::external_body]
pub(crate) fn day_span(from: CivilDate, to: CivilDate) -> (r: i64)
    requires
        from.wf(),
        to.wf(),
    ensures
        r == day_number(to) - day_number(from),
{
    let a = chrono::NaiveDate::from_ymd_opt(from.year, from.month, from.day).unwrap();
    let b = chrono::NaiveDate::from_ymd_opt(to.year, to.month, to.day).unwrap();
    b.signed_duration_since(a).num_days()
}

/// A year as `%Y` writes it: four digits, zero-padded, for years 0 to 9999;
/// otherwise a sign and at least four digits.
pub open spec fn iso_year_text(y: int) -> Seq<char> {
    if 0 <= y <= 9999 {
        low_digits(y as nat, 4)
    } else {
        let a = if y < 0 {
            -y
        } else {
            y
        };
        seq![if y < 0 { '-' } else { '+' }] + if a < 10000 {
            low_digits(a as nat, 4)
        } else {
            nat_text(a as nat)
        }
    }
}

/// A date as `%Y-%m-%d` writes it.
pub open spec fn iso_text(d: CivilDate) -> Seq<char> {
    iso_year_text(d.year as int) + seq!['-'] + low_digits(d.month as nat, 2) + seq!['-']
        + low_digits(d.day as nat, 2)
}

/// Relies on chrono's `NaiveDate::format` with `%Y-%m-%d`: the year padded
/// with zeros to four digits (with a sign outside 0 to 9999), then month and
/// day as two digits each.
#[verifier::external_body]
pub(crate) fn chrono_format_iso(d: CivilDate) -> (r: String)
    requires
        d.wf(),
    ensures
        r@ == iso_text(d),
{
    chrono::NaiveDate::from_ymd_opt(d.year, d.month, d.day).unwrap().format("%Y-%m-%d").to_string()
}

/// Relies on chrono's `NaiveDate::checked_sub_days`: the day `n` days
/// earlier, or `None` when `n` exceeds `i32::MAX` or the day falls before
/// chrono's earliest date, the first of January of `MIN_YEAR`.
#[verifier::external_body]
pub(crate) fn days_before(d: CivilDate, n: u32) -> (r: Option<CivilDate>)
    requires
        d.wf(),
    ensures
        r matches Some(e) ==> e.wf() && day_number(e) == day_number(d) - n,
        r is None ==> n > i32::MAX || day_number(d) - n < day_number(
            CivilDate { year: MIN_YEAR, month: 1, day: 1 },
        ),
{
    let day = chrono::NaiveDate::from_ymd_opt(d.year, d.month, d.day).unwrap();
    day.checked_sub_days(chrono::Days::new(n as u64)).map(
        |e| CivilDate { year: e.year(), month: e.month(), day: e.day() },
    )
}

pub open spec fn civil_of(t: (i32, u32, u32)) -> CivilDate {
    CivilDate { year: t.0, month: t.1, day: t.2 }
}

/// A raw date field read as `YYYY-MM-DD`, or else as `MM/DD/YYYY`.
pub open spec fn date_field(raw: Seq<char>) -> Option<CivilDate> {
    let t = trim(raw);
    match chrono_date_of(t, "%Y-%m-%d"@) {
        Some(x) => Some(civil_of(x)),
        None => match chrono_date_of(t, "%m/%d/%Y"@) {
            Some(x) => Some(civil_of(x)),
            None => None,
        },
    }
}

/// Reads a raw date field in either accepted format.
pub fn date_field_of(raw: &Vec<char>) -> (r: Option<CivilDate>)
    ensures
        r == date_field(raw@),
        r matches Some(d) ==> d.wf(),
{
    let t = trimmed(raw);
    match chrono_parse_date(&t, "%Y-%m-%d") {
        Some(x) => Some(CivilDate { year: x.0, month: x.1, day: x.2 }),
        None => match chrono_parse_date(&t, "%m/%d/%Y") {
            Some(x) => Some(CivilDate { year: x.0, month: x.1, day: x.2 }),
            None => None,
        },
    }
}

/// Reads a date as `YYYY-MM-DD` or `MM/DD/YYYY`, surrounding white space ignored.
pub fn parse_date_any(raw: &str) -> (r: Result<CivilDate, ()>)
    ensures
        r == match date_field(raw@) {
            Some(d) => Ok(d),
            None => Err::<CivilDate, ()>(()),
        },
        r matches Ok(d) ==> d.wf(),
{
    let v = chars_of(raw);
    match date_field_of(&v) {
        Some(d) => Ok(d),
        None => Err(()),
    }
}

} // verus!
