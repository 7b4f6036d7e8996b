//! Recipe schedules: when a recipe runs next, decided from its cadence and
//! the current date and time of day.

use vstd::prelude::*;
use crate::calendar::increment_month_of;
use crate::text::chars_eq_str;

verus! {

/// When the next run falls.
#[derive(Debug, Clone, Copy, PartialEq, Eq, Structural)]
pub enum NextRun {
    /// At 09:00 UTC this many days from today.
    DaysAhead(u32),
    /// At 09:00 UTC on this date.
    OnDate(i32, u32, u32),
    /// Thirty days from now, at the current time of day.
    ThirtyDaysLater,
}

pub open spec fn clamp_int(v: int, lo: int, hi: int) -> int {
    if v < lo {
        lo
    } else if v > hi {
        hi
    } else {
        v
    }
}

/// The next run: daily recipes run tomorrow; weekly ones on their weekday
/// (Monday = 0, clamped to the week), today only while it is before 09:00;
/// monthly ones on their day (clamped to 1..=28) of this month, or of next
/// month once that day's run time has passed; any other cadence in thirty
/// days.
pub open spec fn next_run_of(
    cadence: Seq<char>,
    day_of_week: Option<i64>,
    day_of_month: Option<i64>,
    today: (i32, u32, u32),
    weekday_from_monday: u32,
    before_nine: bool,
) -> NextRun {
    if cadence == "daily"@ {
        NextRun::DaysAhead(1)
    } else if cadence == "weekly"@ {
        let target = clamp_int(
            match day_of_week {
                Some(d) => d as int,
                None => 0,
            },
            0,
            6,
        );
        let ahead = (target + 7 - weekday_from_monday) % 7;
        NextRun::DaysAhead(
            if ahead == 0 && !before_nine {
                7
            } else {
                ahead as u32
            },
        )
    } else if cadence == "monthly"@ {
        let target = clamp_int(
            match day_of_month {
                Some(d) => d as int,
                None => 1,
            },
            1,
            28,
        );
        if today.2 > target || (today.2 == target && !before_nine) {
            let next = increment_month_of(today.0 as int, today.1 as int);
            NextRun::OnDate(next.0 as i32, next.1 as u32, target as u32)
        } else {
            NextRun::OnDate(today.0, today.1, target as u32)
        }
    } else {
        NextRun::ThirtyDaysLater
    }
}

/// When a recipe with this schedule next runs, from today's date, today's
/// weekday (Monday = 0) and whether it is still before 09:00 UTC.
pub fn next_run(
    cadence: &str,
    day_of_week: Option<i64>,
    day_of_month: Option<i64>,
    today: (i32, u32, u32),
    weekday_from_monday: u32,
    before_nine: bool,
) -> (r: NextRun)
    requires
        weekday_from_monday < 7,
        1 <= today.1 <= 12,
        today.1 == 12 ==> today.0 < i32::MAX,
    ensures
        r == next_run_of(cadence@, day_of_week, day_of_month, today, weekday_from_monday, before_nine),
{
    let c = crate::text::chars_of(cadence);
    if chars_eq_str(&c, "daily") {
        NextRun::DaysAhead(1)
    } else if chars_eq_str(&c, "weekly") {
        let d: i64 = match day_of_week {
            Some(d) => d,
            None => 0,
        };
        let target: u32 = if d < 0 {
            0
        } else if d > 6 {
            6
        } else {
            d as u32
        };
        let ahead = (target + 7 - weekday_from_monday) % 7;
        NextRun::DaysAhead(
            if ahead == 0 && !before_nine {
                7
            } else {
                ahead
            },
        )
    } else if chars_eq_str(&c, "monthly") {
        let d: i64 = match day_of_month {
            Some(d) => d,
            None => 1,
        };
        let target: u32 = if d < 1 {
            1
        } else if d > 28 {
            28
        } else {
            d as u32
        };
        if today.2 > target || (today.2 == target && !before_nine) {
            let (y, m) = crate::calendar::increment_month(today.0, today.1);
            NextRun::OnDate(y, m, target)
        } else {
            NextRun::OnDate(today.0, today.1, target)
        }
    } else {
        NextRun::ThirtyDaysLater
    }
}

/// The next run never falls before now: a weekly run is at most a week
/// ahead and falls today only while today's 09:00 is still to come; a
/// monthly run falls later this month, today only before 09:00, or in the
/// month after; a daily run is tomorrow.
pub proof fn law_next_run_is_ahead(
    cadence: Seq<char>,
    day_of_week: Option<i64>,
    day_of_month: Option<i64>,
    today: (i32, u32, u32),
    weekday_from_monday: u32,
    before_nine: bool,
)
    requires
        weekday_from_monday < 7,
        1 <= today.1 <= 12,
        today.1 == 12 ==> today.0 < i32::MAX,
    ensures
        match next_run_of(cadence, day_of_week, day_of_month, today, weekday_from_monday, before_nine) {
            NextRun::DaysAhead(k) => k <= 7 && (k == 0 ==> before_nine),
            NextRun::OnDate(y, m, d) => {
                ||| (y == today.0 && m == today.1 && d >= today.2 && (d == today.2 ==> before_nine))
                ||| (y as int, m as int) == increment_month_of(today.0 as int, today.1 as int)
            },
            NextRun::ThirtyDaysLater => true,
        },
{
}

} // verus!
