use finsight_core::splits::{split_rows, split_sum_in_range, validate_split_count, validate_split_total, SplitError, SplitInput};

fn part(amount_cents: i64) -> SplitInput {
    SplitInput { category_id: None, amount_cents }
}

#[test]
fn set_and_list_splits() {
    let parts = vec![part(6000), part(4000)];
    assert_eq!(validate_split_count(&parts), Ok(()));
    assert_eq!(validate_split_total(&parts, 10000), Ok(()));
    let rows = split_rows("txn-1", parts);
    assert_eq!(rows.len(), 2);
    assert_eq!(rows[0].amount_cents, 6000);
    assert_eq!(rows[1].amount_cents, 4000);
    assert_eq!(rows[0].txn_id, "txn-1");
    assert_ne!(rows[0].id, rows[1].id);
}

#[test]
fn clear_splits_resets_flag() {
    // Clearing is the empty request, which both checks accept.
    let none: Vec<SplitInput> = Vec::new();
    assert_eq!(validate_split_count(&none), Ok(()));
    assert!(split_rows("txn-1", none).is_empty());
}

#[test]
fn rejects_sum_mismatch() {
    let parts = vec![part(3000), part(3000)];
    let err = validate_split_total(&parts, 10000).unwrap_err();
    assert!(matches!(err, SplitError::SumMismatch { .. }));
    assert_eq!(err, SplitError::SumMismatch { total: 6000, parent_abs: 10000 });
    assert_eq!(err.message(), "splits sum 6000 != transaction abs amount 10000");
}

#[test]
fn a_single_part_is_not_a_split() {
    let err = validate_split_count(&vec![part(10000)]).unwrap_err();
    assert_eq!(err, SplitError::TooFewParts);
    assert_eq!(err.message(), "at least 2 splits required");
}

#[test]
fn split_rows_keep_each_part_category() {
    let parts = vec![
        SplitInput { category_id: Some("food".into()), amount_cents: 1 },
        SplitInput { category_id: None, amount_cents: -3 },
    ];
    assert_eq!(validate_split_total(&parts, -2), Ok(()));
    let rows = split_rows("t", parts);
    assert_eq!(rows[0].category_id.as_deref(), Some("food"));
    assert_eq!(rows[1].category_id, None);
    assert_eq!(
        SplitError::SumMismatch { total: -2, parent_abs: 5 }.message(),
        "splits sum -2 != transaction abs amount 5"
    );
}

#[test]
fn split_parts_that_cannot_be_added_up_are_refused_up_front() {
    let part = |amount_cents: i64| SplitInput { category_id: Some("c".to_string()), amount_cents };
    assert!(split_sum_in_range(&vec![part(100), part(200)]));
    assert!(!split_sum_in_range(&vec![part(i64::MAX), part(1)]));
    assert!(split_sum_in_range(&vec![part(i64::MIN), part(i64::MAX)]));
}
