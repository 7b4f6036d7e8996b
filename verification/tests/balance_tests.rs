use finsight_core::balance::{balance_snapshot_order, latest_balance_subquery};

#[test]
fn source_ranking_names_the_alias_once_trimmed() {
    let expected = "ORDER BY CASE b.source WHEN 'simplefin' THEN 1 WHEN 'ledger_recomputed' THEN 2 ELSE 3 END";
    assert_eq!(latest_balance_subquery("b"), expected);
    assert_eq!(latest_balance_subquery("  b.. "), expected);
    assert_eq!(
        latest_balance_subquery(" . "),
        "ORDER BY CASE source WHEN 'simplefin' THEN 1 WHEN 'ledger_recomputed' THEN 2 ELSE 3 END"
    );
}

#[test]
fn snapshot_order_splices_alias_and_direction_verbatim() {
    assert_eq!(
        balance_snapshot_order("b.", "DESC"),
        "b.as_of_date DESC, CASE b.source WHEN 'simplefin' THEN 0 WHEN 'derived' THEN 2 WHEN 'seed' THEN 3 ELSE 1 END"
    );
    assert_eq!(
        balance_snapshot_order("", "ASC"),
        "as_of_date ASC, CASE source WHEN 'simplefin' THEN 0 WHEN 'derived' THEN 2 WHEN 'seed' THEN 3 ELSE 1 END"
    );
}
