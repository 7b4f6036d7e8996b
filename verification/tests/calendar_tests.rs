use finsight_core::calendar::{days_in_month, increment_month, month_before, months_between};

#[test]
fn month_before_steps_back_across_year_boundary() {
    assert_eq!(month_before("2026-01", 1), "2025-12");
    assert_eq!(month_before("2026-03", 3), "2025-12");
    assert_eq!(month_before("2026-05", 0), "2026-05");
    assert_eq!(month_before("2026-01", -1), "2026-02");
}

#[test]
fn months_between_counts_calendar_months() {
    assert_eq!(months_between("2026-01", "2026-04"), 3);
    assert_eq!(months_between("2025-11", "2026-02"), 3);
    assert_eq!(months_between("2026-04", "2026-01"), -3);
}

#[test]
fn increment_month_rolls_december_into_january() {
    assert_eq!(increment_month(2025, 12), (2026, 1));
    assert_eq!(increment_month(2026, 3), (2026, 4));
}

#[test]
fn days_in_month_follows_the_leap_rule() {
    assert_eq!(days_in_month(2024, 2), 29);
    assert_eq!(days_in_month(2023, 2), 28);
    assert_eq!(days_in_month(1900, 2), 28);
    assert_eq!(days_in_month(2000, 2), 29);
    assert_eq!(days_in_month(2026, 4), 30);
    assert_eq!(days_in_month(2026, 12), 31);
}

#[test]
fn month_before_steps_into_years_before_zero() {
    assert_eq!(month_before("0000-01", 1), "-001-12");
    assert_eq!(month_before("0001-03", 15), "-001-12");
    assert_eq!(month_before("-001-12", -1), "0000-01");
}
