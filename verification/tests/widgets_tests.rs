use finsight_core::widgets::{
    compacted_position, shifted_position,
    default_widgets, insert_position, normalize_filters, validate_reorder, validate_title, WidgetError,
};

fn ids(v: &[&str]) -> Vec<String> {
    v.iter().map(|s| s.to_string()).collect()
}

#[test]
fn list_seeds_default_widgets_when_empty() {
    let widgets = default_widgets();
    assert_eq!(widgets.len(), 5);
    assert_eq!(widgets[0].title, "Monthly overview");
    assert_eq!(widgets[4].title, "Net worth");
    assert_eq!(widgets[3].split_by, "payee");
    for w in &widgets {
        assert_eq!(w.period, "All");
        assert_eq!(w.filters_json, r#"{"includeTransfers":false,"includeArchived":false}"#);
    }
}

#[test]
fn create_append_and_position_insert() {
    // Five seeded widgets at positions 0..4: a new one appends at 5.
    assert_eq!(insert_position(None, Some(4)), Ok(5));
    // An explicit position is taken as asked.
    assert_eq!(insert_position(Some(0), Some(5)), Ok(0));
    // The very first widget goes at 0.
    assert_eq!(insert_position(None, None), Ok(0));
    assert_eq!(
        normalize_filters(Some(r#"{"includeTransfers":true}"#)).unwrap(),
        r#"{"includeTransfers":true}"#
    );
}

#[test]
fn reorder_exact_set() {
    let existing = ids(&["a", "b", "c", "d", "e"]);
    let mut order = existing.clone();
    order.reverse();
    assert_eq!(validate_reorder(&existing, &order), Ok(()));
    let mut bad = order.clone();
    bad.pop();
    let err = validate_reorder(&existing, &bad).unwrap_err();
    assert!(err.message().contains("exactly all"));
    assert_eq!(err.message(), "ordered_ids must contain exactly all 5 widget ids once");
}

#[test]
fn reorder_rejects_empty_duplicated_and_padded_orders() {
    let existing = ids(&["a", "b"]);
    assert_eq!(validate_reorder(&existing, &Vec::new()), Err(WidgetError::EmptyOrder));
    assert_eq!(
        validate_reorder(&existing, &ids(&["a", "b", "b"])),
        Err(WidgetError::OrderLengthMismatch)
    );
    let dup_existing = ids(&["a", "b", "a"]);
    assert_eq!(
        validate_reorder(&dup_existing, &ids(&["a", "b", "b"])),
        Err(WidgetError::OrderHasDuplicates)
    );
    assert_eq!(
        validate_reorder(&existing, &ids(&["a", "z"])),
        Err(WidgetError::OrderNotExactSet(2))
    );
}

#[test]
fn validation_rejects_bad_inputs() {
    let err = validate_title("").unwrap_err();
    assert!(err.message().contains("title"));
    let err = normalize_filters(Some("not json")).unwrap_err();
    assert!(err.message().contains("valid JSON"));
}

#[test]
fn titles_are_trimmed_and_bounded_in_bytes() {
    assert_eq!(validate_title("   "), Err(WidgetError::EmptyTitle));
    assert_eq!(validate_title("  ok  "), Ok(()));
    let long = "x".repeat(121);
    assert_eq!(validate_title(&long), Err(WidgetError::TitleTooLong));
    assert_eq!(validate_title(&"x".repeat(120)), Ok(()));
    // 41 three-byte characters are 123 bytes.
    assert_eq!(validate_title(&"€".repeat(41)), Err(WidgetError::TitleTooLong));
    assert_eq!(WidgetError::TitleTooLong.message(), "title must be <= 120 characters");
}

#[test]
fn filters_default_to_an_empty_object_and_must_be_objects() {
    assert_eq!(normalize_filters(None).unwrap(), "{}");
    assert_eq!(normalize_filters(Some("   ")).unwrap(), "{}");
    assert_eq!(normalize_filters(Some(" { \"a\" : 1 } ")).unwrap(), "{\"a\":1}");
    assert_eq!(normalize_filters(Some("[1,2]")), Err(WidgetError::FiltersNotObject));
    assert_eq!(
        WidgetError::FiltersNotObject.message(),
        "filters_json must be a JSON object"
    );
}

#[test]
fn a_negative_position_is_refused() {
    let err = insert_position(Some(-1), Some(3)).unwrap_err();
    assert_eq!(err, WidgetError::NegativePosition);
    assert_eq!(err.message(), "position must be >= 0");
}

#[test]
fn inserting_and_deleting_widgets_keeps_positions_dense() {
    // Five widgets at 0..5; a new one inserted at 0 pushes them all down.
    let mut positions: Vec<i64> = (0..5).collect();
    positions = positions.iter().map(|&p| shifted_position(p, 0)).collect();
    positions.push(0);
    let mut sorted = positions.clone();
    sorted.sort();
    assert_eq!(sorted, (0..6).collect::<Vec<i64>>());
    // Inserting in the middle moves only those at or after it.
    assert_eq!(shifted_position(1, 2), 1);
    assert_eq!(shifted_position(2, 2), 3);
    // Deleting the widget at 2 closes the gap.
    let after: Vec<i64> = [0, 1, 3, 4, 5].iter().map(|&p| compacted_position(p, 2)).collect();
    assert_eq!(after, vec![0, 1, 2, 3, 4]);
}

#[test]
fn delete_compacts_positions() {
    // Five seeded widgets at 0..4; deleting the middle one leaves 0..3.
    let widgets = default_widgets();
    let positions: Vec<i64> = (0..widgets.len() as i64).collect();
    let removed = positions[2];
    let after: Vec<i64> = positions
        .iter()
        .filter(|&&p| p != removed)
        .map(|&p| compacted_position(p, removed))
        .collect();
    assert_eq!(after.len(), 4);
    for (i, p) in after.iter().enumerate() {
        assert_eq!(*p, i as i64);
    }
}
