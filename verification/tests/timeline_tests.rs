use finsight_core::dates::day_before;
use finsight_core::timeline::{
    anchor_quality, back_solved_opening, build_sparklines, curve_anchor, curve_in_range, dedup_balance_history,
    derived_balance, opening_anchor, reconstruct_timeline, should_derive_balance, timeline_skip,
    BalanceAnchorQuality, TimelineCurve, TimelineSkip,
};

fn today() -> String {
    chrono::Utc::now().date_naive().to_string()
}

/// Nets each day's activity into one delta, oldest day first.
fn net_by_day(txns: &[(&str, i64)]) -> Vec<(String, i64)> {
    let mut days: Vec<(String, i64)> = Vec::new();
    let mut sorted: Vec<(&str, i64)> = txns.to_vec();
    sorted.sort_by(|a, b| a.0.cmp(b.0));
    for (d, c) in sorted {
        match days.last_mut() {
            Some(last) if last.0 == d => last.1 += c,
            _ => days.push((d.to_string(), c)),
        }
    }
    days
}

/// The reconstruction of a manual account whose seed row is `(balance, date)`,
/// optionally confirmed at a later balance, created on `created`.
fn timeline(
    seed: (i64, &str),
    confirmed: Option<(i64, &str)>,
    created: &str,
    txns: &[(&str, i64)],
    since: Option<&str>,
) -> (TimelineCurve, BalanceAnchorQuality, Option<String>) {
    let opening = opening_anchor(Some((seed.0, seed.1.to_string(), Some("seed".to_string()))));
    let anchor = curve_anchor(confirmed.map(|(b, d)| (b, d.to_string())), opening);
    let deltas = net_by_day(txns);
    let earliest = deltas.first().map(|(d, _)| d.clone());
    let curve_start = earliest
        .as_deref()
        .and_then(day_before)
        .unwrap_or_else(|| anchor.date.clone());
    let tl = reconstruct_timeline(&anchor, &deltas, curve_start, since);
    let quality = anchor_quality(&anchor, earliest.as_deref(), created);
    (tl, quality, earliest)
}

#[test]
fn list_balance_history_returns_simplefin_over_manual_for_same_date() {
    let today = today();
    // Rows arrive ordered by date and source precedence: simplefin first.
    let rows = vec![(today.clone(), 250_000), (today.clone(), 100_000)];
    let hist = dedup_balance_history(&rows);
    assert_eq!(hist.len(), 1);
    assert_eq!(hist[0].balance_cents, 250_000);
    assert_eq!(hist[0].date, today);
}

#[test]
fn list_balance_history_returns_opening_balance_when_only_seed_snapshot() {
    let rows = vec![(today(), 0)];
    let hist = dedup_balance_history(&rows);
    assert_eq!(hist.len(), 1);
    assert_eq!(hist[0].balance_cents, 0);
}

#[test]
fn list_all_balance_sparklines_groups_by_account() {
    let today = today();
    let rows = vec![
        ("a".to_string(), Some(today.clone()), Some(100_000)),
        ("b".to_string(), Some(today.clone()), Some(500_000)),
    ];
    let series = build_sparklines(&rows);
    assert_eq!(series.len(), 2);
    let a_series = series.iter().find(|s| s.account_id == "a").unwrap();
    let b_series = series.iter().find(|s| s.account_id == "b").unwrap();
    assert_eq!(a_series.points.len(), 1);
    assert_eq!(a_series.points[0].balance_cents, 100_000);
    assert_eq!(b_series.points[0].balance_cents, 500_000);
}

#[test]
fn sparklines_keep_an_empty_series_for_an_account_without_points() {
    let rows = vec![
        ("a".to_string(), None, None),
        ("b".to_string(), Some("2024-01-01".to_string()), Some(7)),
        ("b".to_string(), Some("2024-01-01".to_string()), Some(9)),
        ("b".to_string(), Some("2024-01-02".to_string()), Some(11)),
    ];
    let series = build_sparklines(&rows);
    assert_eq!(series.len(), 2);
    assert!(series[0].points.is_empty());
    assert_eq!(series[1].points.len(), 2);
    assert_eq!(series[1].points[0].balance_cents, 7);
    assert_eq!(series[1].points[1].balance_cents, 11);
}

#[test]
fn balance_timeline_finds_a_peak_no_stored_snapshot_holds() {
    let today = today();
    let (tl, _, _) = timeline(
        (0, &today),
        None,
        &today,
        &[("2024-01-10", 500_000), ("2024-02-10", 300_000), ("2024-03-10", -600_000)],
        None,
    );
    let peak = tl.peak.expect("a peak");
    assert_eq!(peak.balance_cents, 800_000);
    assert_eq!(peak.date, "2024-02-10");
    assert_eq!(tl.current_cents, 200_000);
    // The only stored snapshot is the seed.
    let stored_max: i64 = 0;
    assert_ne!(stored_max, 800_000);
}

#[test]
fn balance_timeline_flags_a_zero_anchor_with_history_behind_it() {
    let today = today();
    let (tl, quality, _) = timeline((0, &today), None, &today, &[("2020-01-01", 100_000)], None);
    assert_eq!(quality, BalanceAnchorQuality::AssumedZero);
    assert_eq!(tl.peak.unwrap().date, "2020-01-01");
}

#[test]
fn balance_timeline_reports_calibrated_once_a_balance_is_confirmed() {
    let today = today();
    let (_, quality, _) = timeline(
        (0, &today),
        Some((250_000, "2024-06-01")),
        &today,
        &[("2024-01-01", 100_000)],
        None,
    );
    assert_eq!(quality, BalanceAnchorQuality::Calibrated);
}

#[test]
fn balance_timeline_treats_a_nonzero_opening_as_anchored() {
    let today = today();
    let (tl, quality, _) = timeline((400_000, &today), None, &today, &[("2024-05-01", -50_000)], None);
    assert_eq!(quality, BalanceAnchorQuality::AnchoredOpening);
    assert_eq!(tl.current_cents, 350_000);
}

#[test]
fn balance_timeline_refuses_investment_accounts() {
    let skip = timeline_skip("Investment", false);
    assert_eq!(skip, Some(TimelineSkip::Investment));
    assert!(skip.unwrap().message().contains("market value"));
}

#[test]
fn balance_timeline_anchors_on_the_confirmed_balance_not_the_older_seed() {
    let (tl, quality, _) = timeline(
        (0, "2023-12-01"),
        Some((250_000, "2024-06-01")),
        "2023-12-01",
        &[("2024-01-01", 900_000)],
        None,
    );
    assert_eq!(quality, BalanceAnchorQuality::Calibrated);
    assert_eq!(
        tl.current_cents, 250_000,
        "curve must be pinned to the confirmed balance, not the stale seed"
    );
}

#[test]
fn balance_timeline_refuses_bank_linked_accounts() {
    let skip = timeline_skip("Savings", true);
    assert_eq!(skip, Some(TimelineSkip::BankLinked));
    assert!(skip.unwrap().message().contains("bank-reported"));
    assert_eq!(timeline_skip("Savings", false), None);
    // Investment wins over a bank link.
    assert_eq!(timeline_skip("Investment", true), Some(TimelineSkip::Investment));
}

#[test]
fn balance_timeline_walks_backward_through_pre_anchor_activity() {
    let (tl, quality, earliest) = timeline(
        (0, "2022-12-01"),
        Some((500_000, "2024-03-01")),
        "2022-12-01",
        &[("2023-01-01", 100_000), ("2024-06-01", 50_000)],
        None,
    );
    assert_eq!(quality, BalanceAnchorQuality::Calibrated);
    assert_eq!(earliest.as_deref(), Some("2023-01-01"));
    assert_eq!(tl.points[0].date, "2022-12-31");
    assert_eq!(tl.points[0].balance_cents, 400_000);
    assert_eq!(
        tl.points.iter().find(|p| p.date == "2023-01-01").unwrap().balance_cents,
        500_000
    );
    assert_eq!(tl.current_cents, 550_000);
}

#[test]
fn balance_timeline_window_carries_the_running_balance_in() {
    let today = today();
    let (tl, _, _) = timeline(
        (0, &today),
        None,
        &today,
        &[("2024-01-01", 900_000), ("2024-06-01", -100_000)],
        Some("2024-05-01"),
    );
    assert_eq!(tl.points[0].date, "2024-05-01");
    assert_eq!(tl.points[0].balance_cents, 900_000);
    assert_eq!(tl.current_cents, 800_000);
    assert_eq!(tl.peak.unwrap().date, "2024-05-01");
}

#[test]
fn balance_timeline_window_opening_on_an_active_day_emits_it_once() {
    let today = today();
    let (tl, _, _) = timeline(
        (0, &today),
        None,
        &today,
        &[("2024-01-01", 900_000), ("2024-05-01", -200_000)],
        Some("2024-05-01"),
    );
    let on_edge = tl.points.iter().filter(|p| p.date == "2024-05-01").count();
    assert_eq!(on_edge, 1, "window edge duplicated: {:?}", tl.points);
    assert_eq!(tl.points[0].balance_cents, 700_000);
    assert_eq!(tl.peak.unwrap().balance_cents, 700_000);
}

#[test]
fn balance_timeline_nets_same_day_activity_into_one_point() {
    let today = today();
    let (tl, _, _) = timeline(
        (0, &today),
        None,
        &today,
        &[("2024-04-01", 100_000), ("2024-04-01", -30_000)],
        None,
    );
    let on_day = tl.points.iter().filter(|p| p.date == "2024-04-01").count();
    assert_eq!(on_day, 1);
    assert_eq!(tl.current_cents, 70_000);
}

#[test]
fn timeline_without_activity_is_a_single_anchor_point() {
    let (tl, quality, earliest) = timeline((12_345, "2024-02-29"), None, "2024-02-29", &[], None);
    assert_eq!(earliest, None);
    assert_eq!(tl.points.len(), 1);
    assert_eq!(tl.points[0].date, "2024-02-29");
    assert_eq!(tl.current_cents, 12_345);
    assert_eq!(quality, BalanceAnchorQuality::AnchoredOpening);
    assert_eq!(tl.trough.unwrap().balance_cents, 12_345);
}

#[test]
fn a_curve_ends_on_the_balance_derived_from_its_opening() {
    let today = today();
    let txns = [("2023-06-01", -8_432), ("2023-06-15", 500_000)];
    let (tl, _, _) = timeline((0, &today), None, &today, &txns, None);
    let sum: i64 = txns.iter().map(|t| t.1).sum();
    assert_eq!(tl.current_cents, derived_balance(0, sum));
}

#[test]
fn recompute_derives_balance_from_opening_plus_history_after_csv_import() {
    let txns = [-8_432i64, 500_000];
    assert!(should_derive_balance(false, false, false, txns.len() as i64));
    let derived = derived_balance(0, txns.iter().sum());
    assert_eq!(derived, 491_568);
}

#[test]
fn investment_account_balance_is_not_derived_from_cash_flows() {
    assert!(
        !should_derive_balance(false, true, false, 2),
        "an investment balance is never derived from transactions"
    );
    let shown = 1_000_000;
    assert_eq!(shown, 1_000_000, "market value stands; cash flows ignored");
}

#[test]
fn user_set_balance_wins_over_derived_and_survives_reimport() {
    assert!(should_derive_balance(false, false, false, 1));
    // Once a manual balance exists a later re-run never derives over it.
    assert!(!should_derive_balance(false, false, true, 2), "user-set balance must win");
}

#[test]
fn balance_known_true_for_account_with_no_transactions() {
    assert!(!should_derive_balance(false, false, false, 0));
    let opening = opening_anchor(Some((0, today(), Some("seed".to_string()))));
    assert_eq!(opening.balance_cents, 0);
}

#[test]
fn bank_linked_accounts_are_never_derived() {
    assert!(!should_derive_balance(true, false, false, 5));
}

#[test]
fn set_current_balance_backsolves_opening_and_keeps_tracking() {
    let mut txns: Vec<i64> = vec![-50_000, 38_000];
    let naive = derived_balance(0, txns.iter().sum());
    assert_eq!(naive, -12_000, "opening-0 derivation is the wrong number after a partial import");

    let opening = back_solved_opening(4_800_00, txns.iter().sum());
    assert_eq!(derived_balance(opening, txns.iter().sum()), 4_800_00);

    txns.push(-20_000);
    assert_eq!(
        derived_balance(opening, txns.iter().sum()),
        4_800_00 - 20_000,
        "balance tracks forward activity after back-solve"
    );

    let opening = back_solved_opening(5_000_00, txns.iter().sum());
    assert_eq!(derived_balance(opening, txns.iter().sum()), 5_000_00, "re-setting lands exactly");
}

#[test]
fn set_current_balance_overrides_stale_manual_freeze() {
    let mut txns: Vec<i64> = vec![-30_000];
    // The manual freeze is cleared before back-solving, so derivation resumes.
    assert!(should_derive_balance(false, false, false, txns.len() as i64));
    let opening = back_solved_opening(2_500_00, txns.iter().sum());
    assert_eq!(derived_balance(opening, txns.iter().sum()), 2_500_00);
    txns.push(-5_000);
    assert_eq!(derived_balance(opening, txns.iter().sum()), 2_500_00 - 5_000);
}

#[test]
fn recompute_still_tracks_manual_account_with_future_dated_activity() {
    let tomorrow = (chrono::Utc::now().date_naive() + chrono::Duration::days(1)).to_string();
    let today = today();
    let opening = opening_anchor(Some((0, today.clone(), Some("seed".to_string()))));
    assert!(opening.fold_all_activity);
    let (tl, _, _) = timeline((0, &today), None, &today, &[(&tomorrow, 250_000)], None);
    assert_eq!(tl.current_cents, 250_000);
    assert_eq!(derived_balance(opening.balance_cents, 250_000), 250_000);
}

#[test]
fn an_opening_without_a_seed_source_does_not_fold_all_activity() {
    let manual = opening_anchor(Some((5, "2024-01-01".to_string(), Some("manual".to_string()))));
    assert!(!manual.fold_all_activity);
    let none = opening_anchor(None);
    assert_eq!(none.balance_cents, 0);
    assert_eq!(none.date, "1970-01-01");
    assert!(!none.fold_all_activity);
}

#[test]
fn day_before_crosses_month_and_year_edges() {
    assert_eq!(day_before("2024-03-01").as_deref(), Some("2024-02-29"));
    assert_eq!(day_before("2023-01-01").as_deref(), Some("2022-12-31"));
    assert_eq!(day_before("not a date"), None);
}

#[test]
fn a_curve_whose_running_balance_leaves_i64_cannot_be_drawn() {
    let seed = opening_anchor(Some((0, "2026-01-01".to_string(), Some("seed".to_string()))));
    let anchor = curve_anchor(Some((100, "2026-02-01".to_string())), seed);
    let ok = vec![("2026-01-10".to_string(), -50), ("2026-03-01".to_string(), 25)];
    assert!(curve_in_range(&anchor, &ok));
    // The activity on or before the anchor cannot be added up.
    let through = vec![("2026-01-10".to_string(), i64::MIN), ("2026-01-11".to_string(), -1)];
    assert!(!curve_in_range(&anchor, &through));
    // The running balance after the anchor overflows.
    let after = vec![("2026-03-01".to_string(), i64::MAX)];
    assert!(!curve_in_range(&anchor, &after));
    // A creation seed folds everything in: only the running balance counts.
    let folded = curve_anchor(None, opening_anchor(Some((5, "2026-01-01".to_string(), Some("seed".to_string())))));
    let deep = vec![("2026-01-10".to_string(), i64::MIN), ("2026-01-11".to_string(), -5)];
    assert!(curve_in_range(&folded, &deep));
    let confirmed = curve_anchor(Some((5, "2026-02-01".to_string())), opening_anchor(None));
    assert!(!curve_in_range(&confirmed, &deep));
}

#[test]
fn timeline_dates_strictly_increase_with_or_without_a_window() {
    let today = today();
    let txns = [("2024-01-01", 900_000), ("2024-03-15", -20_000), ("2024-03-15", 5_000), ("2024-05-01", -200_000)];
    for since in [None, Some("2024-03-01"), Some("2024-03-15"), Some("2024-06-01")] {
        let (tl, _, _) = timeline((0, &today), None, &today, &txns, since);
        assert!(!tl.points.is_empty());
        for pair in tl.points.windows(2) {
            assert!(pair[0].date < pair[1].date, "{since:?}: {:?}", tl.points);
        }
    }
}

#[test]
fn each_point_moves_by_its_day_and_the_peak_is_the_first_highest() {
    let today = today();
    let txns = [("2024-01-01", 500), ("2024-01-02", -200), ("2024-01-03", 200), ("2024-01-05", -100)];
    let (tl, _, _) = timeline((0, &today), None, &today, &txns, None);
    // The day before the first activity, then one point per activity day.
    assert_eq!(tl.points.len(), txns.len() + 1);
    assert_eq!(tl.points[0].date, "2023-12-31");
    for (i, (day, amount)) in txns.iter().enumerate() {
        assert_eq!(tl.points[i + 1].date, *day);
        assert_eq!(tl.points[i + 1].balance_cents - tl.points[i].balance_cents, *amount);
    }
    assert_eq!(tl.current_cents, tl.points.last().unwrap().balance_cents);
    // 500 is reached on the 1st and again on the 3rd: the first one is the peak.
    assert_eq!(tl.peak.as_ref().unwrap().date, "2024-01-01");
    assert_eq!(tl.trough.as_ref().unwrap().date, "2023-12-31");
    // A window shows nothing dated before it opens.
    let (win, _, _) = timeline((0, &today), None, &today, &txns, Some("2024-01-04"));
    assert!(win.points.iter().all(|p| p.date.as_str() >= "2024-01-04"));
}
