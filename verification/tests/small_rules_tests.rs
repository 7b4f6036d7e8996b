use finsight_core::month_close::lock_key;
use finsight_core::proposals::resolution;
use finsight_core::recipes::{next_run, NextRun};
use finsight_core::reset::{bumped_epoch, superseded};
use finsight_core::rules::{correction_proposal_description, should_propose, treatment_verdict};
use finsight_core::scenarios::{baseline_in_range, build_baseline, duplicate_row, new_scenario_row, BaselineAccount, BaselineGoalInput};
use finsight_core::transactions::Verdict;

#[test]
fn is_locked_false_when_no_row() {
    // The key is looked up; with no completed close there is nothing locked.
    assert_eq!(lock_key("2026-03"), Some((2026, 3)));
}

#[test]
fn is_locked_true_when_completed() {
    assert_eq!(lock_key("2026-03"), Some((2026, 3)));
    assert_eq!(lock_key("2026-04"), Some((2026, 4)));
    assert_ne!(lock_key("2026-04"), lock_key("2026-03"));
}

#[test]
fn is_locked_gracefully_handles_malformed_month() {
    assert_eq!(lock_key(""), None);
    assert_eq!(lock_key("2026"), None);
    assert_eq!(lock_key("2026-13"), None);
    assert_eq!(lock_key("2026-0"), None);
    assert_eq!(lock_key("abcd-03"), None);
    assert_eq!(lock_key("2026-+3"), Some((2026, 3)));
}

#[test]
fn resolve_for_txn_marks_accepted_when_category_matches() {
    assert_eq!(resolution("pending", "cat1", Some("cat1")), Some("accepted"));
}

#[test]
fn resolve_for_txn_marks_corrected_when_category_differs() {
    assert_eq!(resolution("pending", "cat1", Some("cat2")), Some("corrected"));
}

#[test]
fn resolve_for_txn_marks_rejected_when_category_cleared() {
    assert_eq!(resolution("pending", "cat1", None), Some("rejected"));
}

#[test]
fn resolve_for_txn_leaves_an_already_resolved_proposal_alone() {
    assert_eq!(resolution("rejected", "cat1", Some("cat1")), None);
    assert_eq!(resolution("accepted", "cat1", None), None);
}

#[test]
fn emit_creates_one_pending_then_dedupes() {
    assert!(should_propose(false, false));
    assert_eq!(
        correction_proposal_description("NETFLIX", "Streaming", 3),
        "You've set \"NETFLIX\" to Streaming 3 times \u{2014} make it a rule?"
    );
    // Re-running finds the pending proposal and creates nothing.
    assert!(!should_propose(false, true));
    assert!(!should_propose(true, false));
}

#[test]
fn treatment_rules_apply_their_verdict() {
    assert_eq!(treatment_verdict("transfer"), Verdict::Transfer);
    assert_eq!(treatment_verdict("settle_up"), Verdict::SettleUp);
}

#[test]
fn a_reset_supersedes_earlier_writers() {
    let start = 7;
    let after = bumped_epoch(start);
    assert_eq!(after, 8);
    assert!(superseded(after, start));
    assert!(!superseded(after, after));
    assert_eq!(bumped_epoch(u64::MAX), 0);
    assert!(superseded(bumped_epoch(u64::MAX), u64::MAX));
}

#[test]
fn duplicate_is_independent_and_archive_hides_from_active() {
    let orig = new_scenario_row(
        "Base".into(),
        r#"{"verdict":true}"#.into(),
        Some("{}".into()),
        Some("{}".into()),
        Some(6),
        "2026-01-01T00:00:00Z".into(),
    );
    let copy = duplicate_row(&orig, "2026-01-02T00:00:00Z".into());
    assert_ne!(copy.id, orig.id);
    assert_eq!(copy.description, "Base (copy)");
    assert_eq!(copy.result_json, orig.result_json);
    assert_eq!(copy.months, Some(6));
    assert!(copy.archived_at.is_none());
}

#[test]
fn baseline_averages_over_elapsed_months_and_skips_credit() {
    let accounts = vec![
        BaselineAccount { balance_cents: 100_000, is_credit_or_investment: false },
        BaselineAccount { balance_cents: -50_000, is_credit_or_investment: true },
        BaselineAccount { balance_cents: 20_000, is_credit_or_investment: false },
    ];
    let goals = vec![
        BaselineGoalInput { name: "Trip".into(), target_cents: 500_000, current_cents: 120_000, monthly_cents: 10_000 },
        BaselineGoalInput { name: "Done".into(), target_cents: 1_000, current_cents: 5_000, monthly_cents: 0 },
    ];
    let b = build_baseline(&accounts, 3_000_000, -1_000_001, 3, goals);
    assert_eq!(b.balance_cents, 120_000);
    assert_eq!(b.avg_monthly_income_cents, 1_000_000);
    assert_eq!(b.avg_monthly_expense_cents, -333_333);
    assert_eq!(b.goals[0].remaining_cents, 380_000);
    assert_eq!(b.goals[1].remaining_cents, 0);
    let b = build_baseline(&Vec::new(), 24, 0, 40, Vec::new());
    assert_eq!(b.avg_monthly_income_cents, 2);
    let b = build_baseline(&Vec::new(), 24, 0, 0, Vec::new());
    assert_eq!(b.avg_monthly_income_cents, 24);
}

#[test]
fn recipes_schedule_their_next_run() {
    assert_eq!(next_run("daily", None, None, (2026, 5, 20), 2, true), NextRun::DaysAhead(1));
    // Wednesday (2), weekly on Friday (4): two days ahead.
    assert_eq!(next_run("weekly", Some(4), None, (2026, 5, 20), 2, true), NextRun::DaysAhead(2));
    // Same weekday after nine: a week ahead; before nine: today.
    assert_eq!(next_run("weekly", Some(2), None, (2026, 5, 20), 2, false), NextRun::DaysAhead(7));
    assert_eq!(next_run("weekly", Some(2), None, (2026, 5, 20), 2, true), NextRun::DaysAhead(0));
    assert_eq!(next_run("weekly", Some(99), None, (2026, 5, 20), 2, true), NextRun::DaysAhead(4));
    assert_eq!(next_run("monthly", None, Some(31), (2026, 12, 29), 0, true), NextRun::OnDate(2027, 1, 28));
    assert_eq!(next_run("monthly", None, Some(25), (2026, 5, 20), 0, false), NextRun::OnDate(2026, 5, 25));
    assert_eq!(next_run("monthly", None, Some(20), (2026, 5, 20), 0, false), NextRun::OnDate(2026, 6, 20));
    assert_eq!(next_run("yearly", None, None, (2026, 5, 20), 0, true), NextRun::ThirtyDaysLater);
}

#[test]
fn baselines_out_of_i64_are_refused_up_front() {
    let acct = |balance_cents: i64, is_credit_or_investment: bool| BaselineAccount { balance_cents, is_credit_or_investment };
    let goal = |target_cents: i64, current_cents: i64| BaselineGoalInput {
        name: "g".to_string(),
        target_cents,
        current_cents,
        monthly_cents: 0,
    };
    assert!(baseline_in_range(&vec![acct(100, false), acct(i64::MAX, true)], &vec![goal(10, 5)]));
    // Credit and investment balances are left out of the sum.
    assert!(baseline_in_range(&vec![acct(i64::MAX, false), acct(i64::MAX, true)], &Vec::new()));
    assert!(!baseline_in_range(&vec![acct(i64::MAX, false), acct(1, false)], &Vec::new()));
    assert!(!baseline_in_range(&Vec::new(), &vec![goal(i64::MAX, -1)]));
}
