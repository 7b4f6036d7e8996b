use finsight_core::sql::{contains_pattern, SqlParam};
use finsight_core::transactions::{
    correction_key, correction_memo, is_generalized_pattern, list_filter_clause, search_query,
    sibling_offer, verdict_for_override, verdict_update, SearchTxnQuery, TxnFilter, Verdict,
};

#[test]
fn settle_up_verdict_marks_and_leaves_the_undecided_queue() {
    let u = verdict_update(Verdict::SettleUp);
    assert_eq!(u.settle_up, Some(true), "settle-up verdict marks the row settled");
    assert!(!u.is_transfer, "settle-up is real spending, netted — not a transfer");
    // Leaves the undecided queue: the row is no longer settle_up = 0.
    assert!(!u.transfer_override);
    assert!(u.unlinks_peer);
}

#[test]
fn real_verdict_marks_decided_not_transfer() {
    let u = verdict_update(Verdict::Real);
    assert_eq!(u.settle_up, Some(false), "real verdict is not settled-up");
    assert!(!u.is_transfer, "real verdict is not a transfer");
    assert!(!u.transfer_override, "real is a decided (non-transfer) verdict");
}

#[test]
fn transfer_verdict_still_flags() {
    let u = verdict_update(Verdict::Transfer);
    assert!(u.is_transfer, "transfer verdict delegates to the existing arm");
    assert!(u.transfer_override);
    assert!(u.clears_category);
    assert!(u.clears_anomaly);
    assert_eq!(u.settle_up, None);
}

#[test]
fn transfer_override_mark_clears_category_and_anomaly_and_survives_recategorization() {
    let v = verdict_for_override(true);
    assert_eq!(v, Verdict::Transfer);
    let u = verdict_update(v);
    assert!(u.clears_category && u.clears_anomaly && u.is_transfer);
}

#[test]
fn transfer_override_unmark_unlinks_peer_and_survives_reruns() {
    let v = verdict_for_override(false);
    assert_eq!(v, Verdict::Real);
    let u = verdict_update(v);
    assert!(u.unlinks_peer);
    assert!(!u.is_transfer);
}

#[test]
fn user_category_change_records_agent_memory() {
    let memo = correction_memo("AMAZON", "Food", 1);
    assert!(memo.contains("AMAZON"));
    assert!(memo.contains("Food"));
    assert!(memo.contains("1×"));
    assert_eq!(memo, "AMAZON → Food · you've set this 1×");
    assert_eq!(correction_key("AMAZON Mktp"), "amazon mktp");
    assert_eq!(correction_key("ÉCOLE"), "école");
}

#[test]
fn bulk_transfer_verdict_covers_a_counterparty_and_only_undecided_rows() {
    assert!(is_generalized_pattern("%joe%"));
    assert!(!is_generalized_pattern("e-transfer joe 001"));
    assert!(!is_generalized_pattern(""));
    assert_eq!(sibling_offer("%joe%".to_string(), 2), Some(("%joe%".to_string(), 2)));
    assert_eq!(sibling_offer("%joe%".to_string(), 0), None);
}

#[test]
fn search_binds_each_present_criterion_in_order() {
    let q = SearchTxnQuery {
        merchant: Some("coffee".into()),
        end_date: Some("2026-01-31".into()),
        min_amount_cents: Some(-500),
        direction: Some("expense".into()),
        ..Default::default()
    };
    let (sql, params) = search_query(&q, 20);
    assert!(sql.starts_with("SELECT t.merchant_raw"));
    assert!(sql.contains(" AND lower(t.merchant_raw) LIKE lower(?) AND t.posted_at <= ? AND ABS(t.amount_cents) >= ? AND t.amount_cents < 0 ORDER BY t.posted_at DESC LIMIT ?"));
    assert_eq!(
        params,
        vec![
            SqlParam::Text("%coffee%".into()),
            SqlParam::Text("2026-01-31T23:59:59".into()),
            SqlParam::Int(500),
            SqlParam::Int(20),
        ]
    );
    let (sql, params) = search_query(&SearchTxnQuery::default(), 5);
    assert!(sql.ends_with("WHERE 1=1 ORDER BY t.posted_at DESC LIMIT ?"));
    assert_eq!(params, vec![SqlParam::Int(5)]);
}

#[test]
fn listing_filters_join_their_conditions() {
    let f = TxnFilter {
        account_id: Some("a1".into()),
        search: Some("rent".into()),
        filter_preset: Some("anomalies".into()),
        ..Default::default()
    };
    let (tail, params) = list_filter_clause(&f, "NI", "TR");
    assert_eq!(
        tail,
        "WHERE t.account_id = ? AND (lower(t.merchant_raw) LIKE lower(?) OR lower(COALESCE(t.notes,'')) LIKE lower(?)) AND t.is_anomaly = 1 ORDER BY t.posted_at DESC LIMIT ? OFFSET ?"
    );
    assert_eq!(
        params,
        vec![
            SqlParam::Text("a1".into()),
            SqlParam::Text("%rent%".into()),
            SqlParam::Text("%rent%".into()),
            SqlParam::Int(100),
            SqlParam::Int(0),
        ]
    );
    let review = TxnFilter { filter_preset: Some("transfer_review".into()), ..Default::default() };
    let (tail, _) = list_filter_clause(&review, "NI", "TR");
    assert_eq!(tail, "WHERE TR ORDER BY t.posted_at DESC LIMIT ? OFFSET ?");
    let none = TxnFilter { filter_preset: Some("no_category".into()), ..Default::default() };
    let (tail, _) = list_filter_clause(&none, "NI", "TR");
    assert_eq!(
        tail,
        "WHERE t.category_id IS NULL AND t.is_transfer = 0 AND NI ORDER BY t.posted_at DESC LIMIT ? OFFSET ?"
    );
    let (tail, params) = list_filter_clause(&TxnFilter::default(), "NI", "TR");
    assert_eq!(tail, "ORDER BY t.posted_at DESC LIMIT ? OFFSET ?");
    assert_eq!(params.len(), 2);
    assert_eq!(contains_pattern("x"), "%x%");
}
