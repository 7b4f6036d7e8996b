use finsight_core::schedule::{
    cron_dow_matches, cron_field_matches, cron_is_due_in_month, interval_days_from_str,
    interval_in_range, interval_is_due_in_month, schedule_due_checked, schedule_is_due, schedule_month_check,
};
use finsight_core::calendar::month_key_ok;

#[test]
fn cron_field_star_lists_steps_and_ranges() {
    assert!(cron_field_matches("*", 17, 1, 31));
    assert!(cron_field_matches(" 5 ", 5, 1, 31));
    assert!(!cron_field_matches("5", 6, 1, 31));
    assert!(cron_field_matches("1,15", 15, 1, 31));
    assert!(!cron_field_matches("1,15", 14, 1, 31));
    assert!(cron_field_matches("*/10", 21, 1, 31));
    assert!(!cron_field_matches("*/10", 20, 1, 31));
    assert!(cron_field_matches("10-20/5", 15, 1, 31));
    assert!(!cron_field_matches("10-20/5", 25, 1, 31));
    assert!(cron_field_matches("5/15", 20, 1, 31));
    assert!(!cron_field_matches("5/15", 4, 1, 31));
    assert!(!cron_field_matches("*/0", 4, 1, 31));
    assert!(cron_field_matches("3-7", 7, 1, 31));
    assert!(!cron_field_matches("3-x", 4, 1, 31));
    assert!(!cron_field_matches("abc", 4, 1, 31));
}

#[test]
fn cron_field_seven_is_sunday_in_the_weekday_field() {
    assert!(cron_field_matches("7", 0, 0, 6));
    assert!(!cron_field_matches("7", 0, 1, 31));
}

#[test]
fn cron_weekdays_wrap_and_treat_seven_as_sunday() {
    assert!(cron_dow_matches("*", 3));
    assert!(cron_dow_matches("7", 0));
    assert!(cron_dow_matches("0", 0));
    assert!(cron_dow_matches("1-5", 3));
    assert!(!cron_dow_matches("1-5", 6));
    assert!(cron_dow_matches("5-1", 6));
    assert!(cron_dow_matches("5-1", 0));
    assert!(!cron_dow_matches("5-1", 3));
    assert!(cron_dow_matches("1,3", 3));
    assert!(cron_dow_matches("*/2", 4));
    assert!(!cron_dow_matches("*/2", 3));
    assert!(cron_dow_matches("1-5/2", 3));
    assert!(!cron_dow_matches("1-5/2", 2));
    assert!(!cron_dow_matches("mon", 1));
}

#[test]
fn cron_is_due_when_some_day_of_the_month_matches() {
    // The first of every month.
    assert!(cron_is_due_in_month("0 9 1 * *", "2026-05"));
    // Only in March.
    assert!(cron_is_due_in_month("0 9 1 3 *", "2026-03"));
    assert!(!cron_is_due_in_month("0 9 1 3 *", "2026-04"));
    // The 31st never falls in April.
    assert!(!cron_is_due_in_month("0 9 31 * *", "2026-04"));
    // 29 February only in leap years.
    assert!(cron_is_due_in_month("0 0 29 2 *", "2024-02"));
    assert!(!cron_is_due_in_month("0 0 29 2 *", "2026-02"));
    // Six fields, seconds first.
    assert!(cron_is_due_in_month("0 0 9 15 * *", "2026-07"));
    // Not five or six fields.
    assert!(!cron_is_due_in_month("0 9 1 *", "2026-05"));
    // A bad month never matches.
    assert!(!cron_is_due_in_month("* * * * *", "2026-13"));
}

#[test]
fn cron_weekday_and_month_day_combine_as_either() {
    // 2026-02-01 is a Sunday; every Sunday of February 2026.
    assert!(cron_is_due_in_month("0 9 * 2 0", "2026-02"));
    // The 30th or any Monday: February has no 30th but has Mondays.
    assert!(cron_is_due_in_month("0 9 30 2 1", "2026-02"));
}

#[test]
fn interval_keywords_and_counts_read_as_days() {
    assert_eq!(interval_days_from_str("Daily"), Some(1));
    assert_eq!(interval_days_from_str(" every week "), Some(7));
    assert_eq!(interval_days_from_str("bi-weekly"), Some(14));
    assert_eq!(interval_days_from_str("monthly"), Some(30));
    assert_eq!(interval_days_from_str("quarterly"), Some(90));
    assert_eq!(interval_days_from_str("semi-annually"), Some(180));
    assert_eq!(interval_days_from_str("annually"), Some(365));
    assert_eq!(interval_days_from_str("every 3 days"), Some(3));
    assert_eq!(interval_days_from_str("2 weeks"), Some(14));
    assert_eq!(interval_days_from_str("every 2 months"), Some(60));
    assert_eq!(interval_days_from_str("1 year"), Some(365));
    assert_eq!(interval_days_from_str("10d"), Some(10));
    assert_eq!(interval_days_from_str("3w"), Some(21));
    assert_eq!(interval_days_from_str("14"), Some(14));
    assert_eq!(interval_days_from_str("twice weekly"), Some(7));
    assert_eq!(interval_days_from_str("whenever"), None);
}

#[test]
fn interval_due_months_follow_the_cadence_bucket() {
    assert_eq!(interval_is_due_in_month("weekly", "2026-05"), Some(true));
    assert_eq!(interval_is_due_in_month("quarterly", "2026-04"), Some(true));
    assert_eq!(interval_is_due_in_month("quarterly", "2026-05"), Some(false));
    assert_eq!(interval_is_due_in_month("every 6 months", "2026-07"), Some(true));
    assert_eq!(interval_is_due_in_month("every 6 months", "2026-08"), Some(false));
    assert_eq!(interval_is_due_in_month("yearly", "2026-01"), Some(true));
    assert_eq!(interval_is_due_in_month("yearly", "2026-02"), Some(false));
    assert_eq!(interval_is_due_in_month("sometimes", "2026-02"), None);
}

#[test]
fn schedule_is_due_tries_cron_then_intervals() {
    assert!(!schedule_is_due("   ", "2026-05"));
    assert!(schedule_is_due("0 9 1 * *", "2026-05"));
    assert!(!schedule_is_due("0 9 1 3 *", "2026-05"));
    assert!(schedule_is_due("monthly", "2026-05"));
    assert!(!schedule_is_due("yearly", "2026-05"));
    assert!(schedule_is_due("yearly", "2026-01"));
    assert!(!schedule_is_due("gibberish", "2026-05"));
}

#[test]
fn interval_ranges_and_schedule_inputs_are_checked_before_reading() {
    assert!(interval_in_range("every 2 weeks"));
    assert!(interval_in_range("4294967295 days"));
    assert!(!interval_in_range("4294967295 weeks"));
    assert!(interval_in_range("no interval here"));
    assert_eq!(interval_days_from_str("11767033 years"), Some(4_294_967_045));
    assert!(schedule_month_check("weekly", "2026-05"));
    assert!(!schedule_month_check("weekly", "2026"));
    assert!(!schedule_month_check("0 9 1 * *", "2026"));
    assert!(schedule_month_check("", "x"));
    assert!(!schedule_month_check("99999999 years", "2026-05"));
    assert!(month_key_ok("2026-05"));
    assert!(!month_key_ok("2026-5"));
    assert!(!month_key_ok("2026é05"));
}

#[test]
fn common_schedules_fall_due_by_month() {
    for y in [0, 1999, 2026, 9999] {
        for m in 1..=12 {
            let month = format!("{:04}-{:02}", y, m);
            assert!(schedule_is_due("weekly", &month));
            assert!(schedule_is_due("monthly", &month));
            assert!(schedule_is_due("0 0 1 * *", &month));
            assert_eq!(schedule_is_due("quarterly", &month), m % 3 == 1, "{month}");
            assert_eq!(schedule_is_due("yearly", &month), m == 1, "{month}");
        }
    }
}

#[test]
fn checked_schedules_refuse_what_would_panic() {
    assert_eq!(schedule_due_checked("monthly", "2026-03"), Some(true));
    assert_eq!(schedule_due_checked("yearly", "2026-03"), Some(false));
    assert_eq!(schedule_due_checked("", "x"), Some(false));
    // A day count beyond u32 cannot be read.
    assert_eq!(schedule_due_checked("99999999 years", "2026-03"), None);
    // A cron schedule needs a month key it can slice.
    assert_eq!(schedule_due_checked("0 0 1 * *", "2026"), None);
}

#[test]
fn common_schedules_fall_due_in_years_before_zero() {
    for m in 1..=12u32 {
        let key = format!("-005-{:02}", m);
        assert!(schedule_is_due("weekly", &key));
        assert!(schedule_is_due("monthly", &key));
        assert!(schedule_is_due("0 0 1 * *", &key));
        assert_eq!(schedule_is_due("quarterly", &key), m % 3 == 1);
        assert_eq!(schedule_is_due("yearly", &key), m == 1);
    }
}

#[test]
fn cron_field_values_below_the_unit_are_read_without_counting() {
    assert!(!cron_field_matches("7", 0, 1, 12));
    assert!(!cron_field_matches("abc", 3, 1, 12));
    assert!(!cron_field_matches("1,15", 0, 1, 31));
    assert!(cron_field_matches("0-3", 0, 1, 31));
}
