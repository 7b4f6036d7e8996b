use chrono::Datelike;
use finsight_core::payees::{payee_report, payee_report_in_range, PayeeTxn};
use finsight_core::reports::{
    metric_kind, payee_query, period_bounds, period_bounds_from, report_from_rows, report_query, report_rows_in_range,
    split_plan, CustomReportParams, MetricKind, Period, ReportRow, SplitBy,
};

fn txn(merchant: &str, key: &str, amount_cents: i64, settle_up: i64) -> PayeeTxn {
    PayeeTxn {
        merchant_raw: merchant.to_string(),
        canonical_key: key.to_string(),
        amount_cents,
        settle_up,
    }
}

fn today() -> (i32, u32, u32) {
    let d = chrono::Utc::now().date_naive();
    (d.year(), d.month(), d.day())
}

#[test]
fn custom_report_expense_only() {
    let rows = vec![txn("Test", "", -5000, 0), txn("Test", "", 8000, 0), txn("Test", "", 2000, 1)];
    let res = payee_report(&rows, &None);
    assert_eq!(res.total_cents, 3000, "expense - reimbursement, income ignored");
    assert_eq!(res.rows[0].total_cents, 3000);
    assert_eq!(res.rows[0].label, "test");
    assert_eq!(res.rows[0].txn_count, 3);
}

#[test]
fn custom_report_anchors_on_max_posted_at() {
    let (start, end) = period_bounds_from(Some((2025, 1, 15)), today(), Period::Last1Month);
    assert_eq!(start.as_deref(), Some("2024-12-15T00:00:00Z"));
    assert_eq!(end, "2025-01-16T00:00:00Z");
    let posted = "2025-01-15T00:00:00Z";
    assert!(posted >= start.as_deref().unwrap() && posted < end.as_str());
    let res = report_from_rows(vec![ReportRow { label: "Food".into(), total_cents: 1000, txn_count: 1 }]);
    assert_eq!(res.total_cents, 1000);
}

#[test]
fn custom_report_excludes_future_rows() {
    let now = chrono::Utc::now();
    let future = (now + chrono::Duration::days(2)).date_naive();
    let anchor = (future.year(), future.month(), future.day());
    let (_, end) = period_bounds_from(Some(anchor), today(), Period::Last1Month);
    let tomorrow = (now + chrono::Duration::days(1)).format("%Y-%m-%d").to_string();
    assert_eq!(end, format!("{tomorrow}T00:00:00Z"));
    let future_text = format!("{}T00:00:00Z", future.format("%Y-%m-%d"));
    assert!(future_text >= end, "future row excluded by end bound");
    let (_, end2) = period_bounds(&Some(future.format("%Y-%m-%d").to_string()), Period::Last1Month).unwrap();
    assert_eq!(end2, end);
}

#[test]
fn custom_report_self_consistent_sums() {
    let mut rows = Vec::new();
    for m in 1..=6i64 {
        let key = format!("cat{m}");
        rows.push(txn("x", &key, -1000 * m, 0));
        rows.push(txn("x", &key, 5000, 0));
        rows.push(txn("x", &key, 200, 1));
    }
    let fixed_sum: i64 = rows
        .iter()
        .map(|t| if t.settle_up == 1 || t.amount_cents < 0 { -t.amount_cents } else { 0 })
        .sum();
    let custom = payee_report(&rows, &None);
    let custom_sum: i64 = custom.rows.iter().map(|r| r.total_cents).sum();
    assert_eq!(custom.total_cents, custom_sum, "custom.total_cents must equal sum of rows");
    assert_eq!(fixed_sum, custom_sum);
    assert_eq!(fixed_sum, 19_800, "expected 19800 from seeded fixture (transfer excluded)");
    assert_ne!(custom.total_cents, 19_800 + 9_999);
    // Largest first.
    assert_eq!(custom.rows[0].label, "cat6");
    assert_eq!(custom.rows[0].total_cents, 5_800);
}

#[test]
fn custom_report_filters_by_account_category_payee_and_amount() {
    let p = CustomReportParams {
        include_archived: true,
        account_ids: vec!["acc1".to_string()],
        ..Default::default()
    };
    let end = "2030-01-01T00:00:00Z".to_string();
    let (sql, binds) = report_query(&p, &None, &end);
    assert!(sql.contains(" AND t.account_id IN (?)"));
    assert_eq!(binds, vec!["acc1".to_string(), end.clone()]);

    let p = CustomReportParams { include_archived: true, payee: Some(" Whole ".to_string()), ..Default::default() };
    let (sql, binds) = report_query(&p, &None, &end);
    assert!(sql.contains(" AND lower(t.merchant_raw) LIKE lower(?)"));
    assert_eq!(binds, vec!["%Whole%".to_string(), end.clone()]);

    let p = CustomReportParams { include_archived: true, min_amount_cents: Some(1000), ..Default::default() };
    let (sql, binds) = report_query(&p, &Some("2029-01-01T00:00:00Z".into()), &end);
    assert!(sql.contains(" AND ABS(t.amount_cents) >= CAST(? AS INTEGER) AND t.posted_at >= ? AND t.posted_at < ?"));
    assert_eq!(binds, vec!["1000".to_string(), "2029-01-01T00:00:00Z".to_string(), end.clone()]);

    let p = CustomReportParams { include_archived: true, spending_type: Some("Need".to_string()), ..Default::default() };
    let (sql, binds) = report_query(&p, &None, &end);
    assert!(sql.contains(" AND c.spending_type = ?"));
    assert_eq!(binds, vec!["Need".to_string(), end.clone()]);
}

#[test]
fn the_default_report_query_is_exact() {
    let p = CustomReportParams::default();
    let end = "E".to_string();
    let (sql, binds) = report_query(&p, &None, &end);
    assert_eq!(
        sql,
        "SELECT COALESCE(c.label, 'Uncategorized') AS label, CAST(SUM(CASE WHEN t.settle_up=1 THEN -t.amount_cents WHEN t.amount_cents < 0 THEN -t.amount_cents ELSE 0 END) AS INTEGER) AS total, COUNT(*) AS cnt FROM transactions t LEFT JOIN categories c ON c.id = t.category_id WHERE 1=1 AND t.is_transfer = 0 AND (c.archived_at IS NULL OR c.id IS NULL) AND t.posted_at < ? GROUP BY COALESCE(c.id, 'uncategorized'), COALESCE(c.label, 'Uncategorized') ORDER BY total DESC, label ASC"
    );
    assert_eq!(binds, vec!["E".to_string()]);
    let g = CustomReportParams {
        split_by: SplitBy::Payee,
        group_ids: vec!["g1".into(), "g2".into()],
        include_transfers: true,
        ..Default::default()
    };
    let (sql, binds) = payee_query(&g, &None, &end);
    assert_eq!(
        sql,
        "SELECT t.merchant_raw, t.amount_cents, t.settle_up FROM transactions t LEFT JOIN categories c ON c.id = t.category_id LEFT JOIN category_groups g ON g.id = c.group_id WHERE 1=1 AND g.id IN (?,?) AND t.posted_at < ?"
    );
    assert_eq!(binds, vec!["g1".to_string(), "g2".to_string(), "E".to_string()]);
}

#[test]
fn metrics_and_month_intervals_read_case_insensitively() {
    assert_eq!(metric_kind(&Some("COUNT".into())), MetricKind::Count);
    assert_eq!(metric_kind(&Some("Avg".into())), MetricKind::Average);
    assert_eq!(metric_kind(&Some("median".into())), MetricKind::Sum);
    assert_eq!(metric_kind(&None), MetricKind::Sum);
    assert_eq!(split_plan(SplitBy::Month, &Some("WEEK".into())).select_label, "strftime('%Y-%W', t.posted_at)");
    assert_eq!(split_plan(SplitBy::Month, &None).group_by, "strftime('%Y-%m', t.posted_at)");
}

#[test]
fn period_starts_count_back_from_the_anchor() {
    let (s, e) = period_bounds_from(Some((2024, 5, 31)), (2026, 1, 1), Period::Last3Months);
    assert_eq!(s.as_deref(), Some("2024-02-29T00:00:00Z"));
    assert_eq!(e, "2024-06-01T00:00:00Z");
    let (s, _) = period_bounds_from(Some((2024, 5, 31)), (2026, 1, 1), Period::YTD);
    assert_eq!(s.as_deref(), Some("2024-01-01T00:00:00Z"));
    let (s, e) = period_bounds_from(None, (2025, 12, 31), Period::All);
    assert_eq!(s, None);
    assert_eq!(e, "2026-01-01T00:00:00Z");
}

#[test]
fn payee_reports_merge_merchant_variants_and_count() {
    let rows = vec![
        txn("  STARBUCKS #12 ", "starbucks", -500, 0),
        txn("Starbucks 99", "starbucks", -300, 0),
        txn("  Corner Deli  ", "", -800, 0),
        txn("   ", "", -100, 0),
    ];
    let count = payee_report(&rows, &Some("count".into()));
    assert_eq!(count.rows.len(), 2);
    assert_eq!(count.rows[0].label, "starbucks");
    assert_eq!(count.rows[0].total_cents, 2);
    assert_eq!(count.rows[1].label, "corner deli");
    assert_eq!(count.total_cents, 3);
    let avg = payee_report(&rows, &Some("average".into()));
    assert_eq!(avg.rows[0].label, "corner deli");
    assert_eq!(avg.rows[0].total_cents, 800);
    assert_eq!(avg.rows[1].total_cents, 400);
}

#[test]
fn payee_reports_out_of_i64_are_refused_up_front() {
    let fine = vec![txn("Shop", "shop", -5000, 0), txn("Cafe", "cafe", -300, 0)];
    assert!(payee_report_in_range(&fine, &None));
    // A contribution that cannot be negated.
    assert!(!payee_report_in_range(&vec![txn("Shop", "shop", i64::MIN, 0)], &None));
    // One merchant's running sum overflows.
    let one_group = vec![txn("Shop", "shop", -i64::MAX, 0), txn("Shop", "shop", -1, 0)];
    assert!(!payee_report_in_range(&one_group, &None));
    // Two groups that each fit but whose report total does not.
    let two_groups = vec![txn("Shop", "shop", -i64::MAX, 0), txn("Cafe", "cafe", -1, 0)];
    assert!(!payee_report_in_range(&two_groups, &None));
    // Counted instead of summed, the same rows fit.
    assert!(payee_report_in_range(&two_groups, &Some("count".into())));
    assert_eq!(payee_report(&two_groups, &Some("count".into())).total_cents, 2);
    // Rows without a key are left out, so their sums never matter.
    let keyless = vec![txn("  ", "", -i64::MAX, 0), txn("", "", -i64::MAX, 0), txn("Cafe", "cafe", -1, 0)];
    assert!(payee_report_in_range(&keyless, &None));
    assert_eq!(payee_report(&keyless, &None).total_cents, 1);
}

#[test]
fn grouped_report_totals_out_of_i64_are_refused_up_front() {
    let row = |label: &str, total_cents: i64| ReportRow { label: label.to_string(), total_cents, txn_count: 1 };
    assert!(report_rows_in_range(&vec![row("a", 10), row("b", -4)]));
    assert!(!report_rows_in_range(&vec![row("a", i64::MAX), row("b", 1)]));
    assert!(report_rows_in_range(&vec![row("a", i64::MAX), row("b", -1), row("c", 1)]));
}

#[test]
fn grouped_queries_sort_by_total_and_leave_transfers_out() {
    for split_by in [SplitBy::Category, SplitBy::Group, SplitBy::Account, SplitBy::Month, SplitBy::SpendingType] {
        let p = CustomReportParams { split_by, ..Default::default() };
        let (sql, _) = report_query(&p, &Some("2026-01-01".to_string()), &"2026-02-01".to_string());
        assert!(sql.ends_with(" ORDER BY total DESC, label ASC"), "{sql}");
        assert!(sql.contains(" AND t.is_transfer = 0"), "{sql}");
        let with = CustomReportParams { include_transfers: true, ..p };
        let (sql, _) = report_query(&with, &None, &"2026-02-01".to_string());
        assert!(!sql.contains("is_transfer"), "{sql}");
    }
    let (payee_sql, _) = payee_query(&CustomReportParams::default(), &None, &"2026-02-01".to_string());
    assert!(payee_sql.contains(" AND t.is_transfer = 0"));
}
