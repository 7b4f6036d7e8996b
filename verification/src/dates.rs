//! Calendar facts taken from `chrono`: parsing ISO dates, today's date, the
//! distance in days between two dates, and the day of the week.

use vstd::prelude::*;
use chrono::Datelike;
use crate::calendar::{days_from_civil, month_length, valid_date, weekday_from_sunday};
use crate::text::fmt_padded;

verus! {

/// What `NaiveDate::parse_from_str(s, "%Y-%m-%d")` yields for `s`, as
/// `(year, month, day)`, or `None` where it reports an error.
pub uninterp spec fn iso_date_of(s: Seq<char>) -> Option<(i32, u32, u32)>;

/// `chrono::NaiveDate::parse_from_str` with the format `%Y-%m-%d`. Claims that
/// the result is a function of the text alone and that a parsed date is a valid
/// calendar date, since a `NaiveDate` cannot hold any other.
#[verifier::external_body]
pub(crate) fn parse_iso_date(s: &str) -> (r: Option<(i32, u32, u32)>)
    ensures
        r == iso_date_of(s@),
        r matches Some(t) ==> valid_date(t.0 as int, t.1 as int, t.2 as int),
{
    match chrono::NaiveDate::parse_from_str(s, "%Y-%m-%d") {
        Ok(d) => Some((d.year(), d.month(), d.day())),
        Err(_) => None,
    }
}

/// `chrono::Utc::now().date_naive()`: today's date in UTC. Claims only that it
/// is a valid calendar date; which date it is depends on the clock.
#[verifier::external_body]
pub(crate) fn today_utc() -> (r: (i32, u32, u32))
    ensures
        valid_date(r.0 as int, r.1 as int, r.2 as int),
{
    let d = chrono::Utc::now().date_naive();
    (d.year(), d.month(), d.day())
}

/// `(later - earlier).num_days()` on two `chrono::NaiveDate`s. Claims that it
/// counts the days between them on the proleptic Gregorian calendar, which is
/// the calendar `NaiveDate` documents.
#[verifier::external_body]
pub(crate) fn days_between(later: (i32, u32, u32), earlier: (i32, u32, u32)) -> (r: i64)
    requires
        valid_date(later.0 as int, later.1 as int, later.2 as int),
        valid_date(earlier.0 as int, earlier.1 as int, earlier.2 as int),
    ensures
        r == days_from_civil(later.0 as int, later.1 as int, later.2 as int)
            - days_from_civil(earlier.0 as int, earlier.1 as int, earlier.2 as int),
{
    let a = chrono::NaiveDate::from_ymd_opt(later.0, later.1, later.2).unwrap();
    let b = chrono::NaiveDate::from_ymd_opt(earlier.0, earlier.1, earlier.2).unwrap();
    (a - b).num_days()
}

/// `NaiveDate::weekday().num_days_from_sunday()` for a valid date. Claims the
/// day of the week on the proleptic Gregorian calendar, Sunday being 0.
#[verifier::external_body]
pub(crate) fn weekday_sunday0(year: i32, month: u32, day: u32) -> (r: u32)
    requires
        valid_date(year as int, month as int, day as int),
    ensures
        r == weekday_from_sunday(year as int, month as int, day as int),
{
    chrono::NaiveDate::from_ymd_opt(year, month, day).unwrap().weekday().num_days_from_sunday()
}

/// The day after a date.
pub open spec fn next_day(d: (i32, u32, u32)) -> (int, int, int) {
    if (d.2 as int) < month_length(d.0 as int, d.1 as int) {
        (d.0 as int, d.1 as int, d.2 + 1)
    } else if d.1 < 12 {
        (d.0 as int, d.1 + 1, 1)
    } else {
        (d.0 + 1, 1, 1)
    }
}

/// The date `n` calendar months earlier, on the same day of the month or,
/// where that month is shorter, on its last day.
pub open spec fn months_back(d: (i32, u32, u32), n: int) -> (int, int, int) {
    let total = d.0 * 12 + (d.1 - 1) - n;
    let y = total / 12;
    let m = total % 12 + 1;
    let len = month_length(y, m);
    (y, m, if (d.2 as int) > len {
        len
    } else {
        d.2 as int
    })
}

/// What `%Y` prints: years 0 to 9999 as four digits, other years with a sign
/// and at least four digits.
pub open spec fn year_text(y: int) -> Seq<char> {
    if 0 <= y <= 9999 {
        fmt_padded(y, 4)
    } else if y < 0 {
        fmt_padded(y, 5)
    } else {
        "+"@ + fmt_padded(y, 4)
    }
}

/// What `%Y-%m-%d` prints for a date.
pub open spec fn ymd_text(d: (int, int, int)) -> Seq<char> {
    year_text(d.0) + "-"@ + fmt_padded(d.1, 2) + "-"@ + fmt_padded(d.2, 2)
}

/// `NaiveDate + Duration::days(1)`. Claims that the result is the next
/// calendar day, as the documentation describes adding days; the date must
/// not be the last one `NaiveDate` can hold, where the addition panics.
#[verifier::external_body]
pub(crate) fn add_one_day(d: (i32, u32, u32)) -> (r: (i32, u32, u32))
    requires
        valid_date(d.0 as int, d.1 as int, d.2 as int),
        valid_date(next_day(d).0, next_day(d).1, next_day(d).2),
    ensures
        (r.0 as int, r.1 as int, r.2 as int) == next_day(d),
{
    let date = chrono::NaiveDate::from_ymd_opt(d.0, d.1, d.2).unwrap() + chrono::Duration::days(1);
    (date.year(), date.month(), date.day())
}

/// `NaiveDate - Months::new(n)`. Claims the documented calendar-month
/// subtraction: the same day `n` months earlier, clamped to the end of a
/// shorter month; the result must lie in `NaiveDate`'s range, where the
/// subtraction panics otherwise.
#[verifier::external_body]
pub(crate) fn sub_months(d: (i32, u32, u32), n: u32) -> (r: (i32, u32, u32))
    requires
        valid_date(d.0 as int, d.1 as int, d.2 as int),
        n <= 12,
        valid_date(months_back(d, n as int).0, months_back(d, n as int).1, months_back(d, n as int).2),
    ensures
        (r.0 as int, r.1 as int, r.2 as int) == months_back(d, n as int),
{
    let date = chrono::NaiveDate::from_ymd_opt(d.0, d.1, d.2).unwrap() - chrono::Months::new(n);
    (date.year(), date.month(), date.day())
}

/// `NaiveDate::format("%Y-%m-%d").to_string()`. Claims the text of the
/// format items as chrono's formatter writes them: the year per `year_text`,
/// then the month and the day as two digits each.
#[verifier::external_body]
pub(crate) fn format_ymd(d: (i32, u32, u32)) -> (r: String)
    requires
        valid_date(d.0 as int, d.1 as int, d.2 as int),
    ensures
        r@ == ymd_text((d.0 as int, d.1 as int, d.2 as int)),
{
    chrono::NaiveDate::from_ymd_opt(d.0, d.1, d.2).unwrap().format("%Y-%m-%d").to_string()
}

/// The day before a date.
pub open spec fn prev_day(d: (i32, u32, u32)) -> (int, int, int) {
    if d.2 > 1 {
        (d.0 as int, d.1 as int, d.2 - 1)
    } else if d.1 > 1 {
        (d.0 as int, d.1 - 1, month_length(d.0 as int, d.1 - 1))
    } else {
        (d.0 - 1, 12, 31)
    }
}

/// `NaiveDate::pred_opt`. Claims the previous calendar day, or `None` for
/// the first date `NaiveDate` can hold, as documented.
#[verifier::external_body]
pub(crate) fn pred_date(d: (i32, u32, u32)) -> (r: Option<(i32, u32, u32)>)
    requires
        valid_date(d.0 as int, d.1 as int, d.2 as int),
    ensures
        match r {
            Some(p) => valid_date(prev_day(d).0, prev_day(d).1, prev_day(d).2) && (p.0 as int, p.1 as int, p.2 as int)
                == prev_day(d),
            None => !valid_date(prev_day(d).0, prev_day(d).1, prev_day(d).2),
        },
{
    chrono::NaiveDate::from_ymd_opt(d.0, d.1, d.2).unwrap().pred_opt().map(|p| (p.year(), p.month(), p.day()))
}

/// The `%Y-%m-%d` text of the day before the date `text` holds: `None` when
/// the text is not such a date, or is the first date the calendar holds.
pub open spec fn day_before_of(text: Seq<char>) -> Option<Seq<char>> {
    match iso_date_of(text) {
        None => None,
        Some(d) => if valid_date(prev_day(d).0, prev_day(d).1, prev_day(d).2) {
            Some(ymd_text(prev_day(d)))
        } else {
            None
        },
    }
}

/// The day before a `YYYY-MM-DD` date, in the same form.
pub fn day_before(date: &str) -> (r: Option<String>)
    ensures
        match r {
            Some(s) => day_before_of(date@) == Some(s@),
            None => day_before_of(date@) is None,
        },
{
    match parse_iso_date(date) {
        None => None,
        Some(d) => match pred_date(d) {
            Some(p) => Some(format_ymd(p)),
            None => None,
        },
    }
}

} // verus!
