use finsight_core::net_worth::{breakdown, net_worth_in_range, snapshot_total, AccountBalanceLine};

fn line(name: &str, balance_cents: i64, balance_known: bool) -> AccountBalanceLine {
    AccountBalanceLine { name: name.to_string(), balance_cents, balance_known }
}

#[test]
fn record_today_folds_assets_and_liabilities() {
    let accounts = vec![line("Checking", 10_000_000, true)];
    let total = snapshot_total(&accounts, &vec![50_000_000], &vec![30_000_000]);
    // 10,000,000 accounts + 50,000,000 assets − 30,000,000 liabilities
    assert_eq!(total, Some(30_000_000));
}

#[test]
fn breakdown_excludes_unknown_balance_accounts() {
    let accounts = vec![line("Checking", 500_000, true), line("Imported Card", -4_200, false)];
    let b = breakdown(&accounts, &Vec::new(), &vec![120_000]);
    assert!(b.has_data);
    assert_eq!(b.known_account_balance_cents, 500_000);
    assert_eq!(b.accounts_with_known_balance, 1);
    assert_eq!(b.accounts_with_unknown_balance, 1);
    assert_eq!(b.unknown_balance_accounts, vec!["Imported Card".to_string()]);
    assert_eq!(b.liability_cents, 120_000);
    assert_eq!(b.net_worth_cents, 380_000);
}

#[test]
fn breakdown_has_no_data_on_empty_db() {
    let b = breakdown(&Vec::new(), &Vec::new(), &Vec::new());
    assert!(!b.has_data);
    assert_eq!(b.net_worth_cents, 0);
}

#[test]
fn record_today_clears_stale_snapshots_when_nothing_to_track() {
    let accounts = vec![line("Checking", 100_000, true)];
    assert_eq!(snapshot_total(&accounts, &Vec::new(), &Vec::new()), Some(100_000));
    // With the only account archived there is nothing to record.
    assert_eq!(snapshot_total(&Vec::new(), &Vec::new(), &Vec::new()), None);
}

#[test]
fn the_snapshot_records_the_breakdown_net_worth() {
    let accounts = vec![line("A", 1_000, true), line("B", 7, false), line("C", -300, true)];
    let assets = vec![5_000, 2];
    let liabilities = vec![400];
    let b = breakdown(&accounts, &assets, &liabilities);
    assert_eq!(b.total_assets_cents, 700 + 5_002);
    assert_eq!(b.manual_asset_cents, 5_002);
    assert_eq!(snapshot_total(&accounts, &assets, &liabilities), Some(b.net_worth_cents));
    assert_eq!(b.net_worth_cents, 5_302);
}

#[test]
fn an_account_of_unknown_balance_alone_still_counts_as_data() {
    let accounts = vec![line("Imported", 123, false)];
    let b = breakdown(&accounts, &Vec::new(), &Vec::new());
    assert!(b.has_data);
    assert_eq!(b.net_worth_cents, 0);
    assert_eq!(snapshot_total(&accounts, &Vec::new(), &Vec::new()), Some(0));
}

#[test]
fn net_worth_out_of_i64_is_refused_up_front() {
    let accounts = vec![line("Checking", i64::MAX, true), line("Imported Card", i64::MAX, false)];
    // The unconfirmed balance is left out of the sum, so it does not matter.
    assert!(net_worth_in_range(&accounts, &Vec::new(), &Vec::new()));
    // Assets on top of a maximal balance overflow the total assets.
    assert!(!net_worth_in_range(&accounts, &vec![1], &Vec::new()));
    // Netting a liability does not help: the total assets come first.
    assert!(!net_worth_in_range(&accounts, &vec![1], &vec![1]));
    // A liability pushes a minimal total below i64.
    let low = vec![line("Loan", i64::MIN, true)];
    assert!(!net_worth_in_range(&low, &Vec::new(), &vec![1]));
    assert!(net_worth_in_range(&low, &Vec::new(), &vec![-1]));
}
