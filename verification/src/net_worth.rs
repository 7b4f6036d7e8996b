//! Net worth: known-balance accounts plus manual assets, minus liabilities.
//! Accounts whose balance is not confirmed are left out of the totals and
//! named instead, so that they are reported as unknown rather than as zero.

use vstd::prelude::*;
use crate::sums::{checked_total, prefix_sums_fit, sum_i64, total_i64};

verus! {

/// The breakdown of net worth.
#[derive(Debug)]
pub struct NetWorthBreakdown {
    pub net_worth_cents: i64,
    pub total_assets_cents: i64,
    pub known_account_balance_cents: i64,
    pub manual_asset_cents: i64,
    pub liability_cents: i64,
    pub accounts_with_known_balance: i64,
    pub accounts_with_unknown_balance: i64,
    pub unknown_balance_accounts: Vec<String>,
    pub has_data: bool,
}

/// What net worth reads of an account.
#[derive(Debug)]
pub struct AccountBalanceLine {
    pub name: String,
    pub balance_cents: i64,
    pub balance_known: bool,
}

/// The balances of the accounts whose balance is confirmed, in order.
pub open spec fn known_balances(accounts: Seq<AccountBalanceLine>) -> Seq<i64>
    decreases accounts.len(),
{
    if accounts.len() == 0 {
        Seq::empty()
    } else if accounts.last().balance_known {
        known_balances(accounts.drop_last()).push(accounts.last().balance_cents)
    } else {
        known_balances(accounts.drop_last())
    }
}

/// The names of the accounts whose balance is not confirmed, in order.
pub open spec fn unknown_names(accounts: Seq<AccountBalanceLine>) -> Seq<Seq<char>>
    decreases accounts.len(),
{
    if accounts.len() == 0 {
        Seq::empty()
    } else if accounts.last().balance_known {
        unknown_names(accounts.drop_last())
    } else {
        unknown_names(accounts.drop_last()).push(accounts.last().name@)
    }
}

/// The inputs whose sums stay within `i64`, as summing them requires.
pub open spec fn net_worth_fits(accounts: Seq<AccountBalanceLine>, assets: Seq<i64>, liabilities: Seq<i64>) -> bool {
    &&& prefix_sums_fit(known_balances(accounts))
    &&& prefix_sums_fit(assets)
    &&& prefix_sums_fit(liabilities)
    &&& i64::MIN <= sum_i64(known_balances(accounts)) + sum_i64(assets) <= i64::MAX
    &&& i64::MIN <= sum_i64(known_balances(accounts)) + sum_i64(assets) - sum_i64(liabilities) <= i64::MAX
}

/// Net worth as the breakdown reports it: total assets (confirmed account
/// balances plus manual assets) less liabilities.
pub open spec fn net_worth_of(accounts: Seq<AccountBalanceLine>, assets: Seq<i64>, liabilities: Seq<i64>) -> int {
    let total_assets = sum_i64(known_balances(accounts)) + sum_i64(assets);
    total_assets - sum_i64(liabilities)
}

/// The total a daily snapshot records: nothing when there is no account,
/// asset or liability at all, else the confirmed account balances, plus the
/// assets, minus the liabilities.
pub open spec fn snapshot_of(accounts: Seq<AccountBalanceLine>, assets: Seq<i64>, liabilities: Seq<i64>) -> Option<int> {
    if accounts.len() == 0 && assets.len() == 0 && liabilities.len() == 0 {
        None
    } else {
        Some(sum_i64(known_balances(accounts)) + sum_i64(assets) - sum_i64(liabilities))
    }
}

fn split_accounts(accounts: &Vec<AccountBalanceLine>) -> (r: (Vec<i64>, Vec<String>))
    ensures
        r.0@ == known_balances(accounts@),
        r.1@.map_values(|s: String| s@) == unknown_names(accounts@),
{
    let mut known: Vec<i64> = Vec::new();
    let mut unknown: Vec<String> = Vec::new();
    let mut i: usize = 0;
    while i < accounts.len()
        invariant
            i <= accounts.len(),
            known@ == known_balances(accounts@.take(i as int)),
            unknown@.map_values(|s: String| s@) == unknown_names(accounts@.take(i as int)),
        decreases accounts.len() - i,
    {
        let a = &accounts[i];
        assert(accounts@.take(i + 1).drop_last() =~= accounts@.take(i as int));
        if a.balance_known {
            known.push(a.balance_cents);
        } else {
            let name = a.name.clone();
            unknown.push(name);
            assert(unknown@.map_values(|s: String| s@) =~= unknown_names(accounts@.take(i as int)).push(
                a.name@,
            ));
        }
        i += 1;
    }
    assert(accounts@.take(i as int) =~= accounts@);
    (known, unknown)
}

/// The net-worth breakdown of the given accounts, manual asset values and
/// liability balances.
pub fn breakdown(accounts: &Vec<AccountBalanceLine>, assets: &Vec<i64>, liabilities: &Vec<i64>) -> (r: NetWorthBreakdown)
    requires
        net_worth_fits(accounts@, assets@, liabilities@),
        accounts.len() <= i64::MAX,
    ensures
        r.known_account_balance_cents == sum_i64(known_balances(accounts@)),
        r.manual_asset_cents == sum_i64(assets@),
        r.liability_cents == sum_i64(liabilities@),
        r.total_assets_cents == r.known_account_balance_cents + r.manual_asset_cents,
        r.net_worth_cents == r.total_assets_cents - r.liability_cents,
        r.net_worth_cents == net_worth_of(accounts@, assets@, liabilities@),
        r.accounts_with_known_balance == known_balances(accounts@).len(),
        r.accounts_with_unknown_balance == unknown_names(accounts@).len(),
        r.accounts_with_known_balance + r.accounts_with_unknown_balance == accounts.len(),
        r.unknown_balance_accounts@.map_values(|s: String| s@) == unknown_names(accounts@),
        r.has_data == !(accounts.len() == 0 && assets.len() == 0 && liabilities.len() == 0),
{
    let has_data = !(accounts.len() == 0 && assets.len() == 0 && liabilities.len() == 0);
    let (known, unknown) = split_accounts(accounts);
    proof {
        lemma_split_counts(accounts@);
    }
    let known_sum = total_i64(&known);
    let asset_sum = total_i64(assets);
    let liability_sum = total_i64(liabilities);
    let total_assets = known_sum + asset_sum;
    let known_count = known.len() as i64;
    let unknown_count = unknown.len() as i64;
    assert(unknown@.map_values(|s: String| s@).len() == unknown@.len());
    NetWorthBreakdown {
        net_worth_cents: total_assets - liability_sum,
        total_assets_cents: total_assets,
        known_account_balance_cents: known_sum,
        manual_asset_cents: asset_sum,
        liability_cents: liability_sum,
        accounts_with_known_balance: known_count,
        accounts_with_unknown_balance: unknown_count,
        unknown_balance_accounts: unknown,
        has_data,
    }
}

/// Whether the breakdown and the snapshot can be added up within `i64`.
pub fn net_worth_in_range(accounts: &Vec<AccountBalanceLine>, assets: &Vec<i64>, liabilities: &Vec<i64>) -> (r: bool)
    ensures
        r == net_worth_fits(accounts@, assets@, liabilities@),
{
    let (known, _unknown) = split_accounts(accounts);
    match (checked_total(&known), checked_total(assets), checked_total(liabilities)) {
        (Some(k), Some(a), Some(l)) => {
            let wide: i128 = k as i128 + a as i128;
            let net: i128 = wide - l as i128;
            i64::MIN as i128 <= wide && wide <= i64::MAX as i128 && i64::MIN as i128 <= net && net
                <= i64::MAX as i128
        },
        _ => false,
    }
}

/// Each account is either counted or named.
pub proof fn lemma_split_counts(accounts: Seq<AccountBalanceLine>)
    ensures
        known_balances(accounts).len() + unknown_names(accounts).len() == accounts.len(),
    decreases accounts.len(),
{
    if accounts.len() > 0 {
        lemma_split_counts(accounts.drop_last());
    }
}

/// Today's snapshot total, or `None` when there is nothing to trend (no
/// account, asset or liability), in which case stale snapshots are cleared.
pub fn snapshot_total(accounts: &Vec<AccountBalanceLine>, assets: &Vec<i64>, liabilities: &Vec<i64>) -> (r: Option<i64>)
    requires
        net_worth_fits(accounts@, assets@, liabilities@),
    ensures
        match r {
            Some(t) => snapshot_of(accounts@, assets@, liabilities@) == Some(t as int),
            None => snapshot_of(accounts@, assets@, liabilities@) is None,
        },
{
    if accounts.len() == 0 && assets.len() == 0 && liabilities.len() == 0 {
        return None;
    }
    let (known, _unknown) = split_accounts(accounts);
    let accounts_sum = total_i64(&known);
    let assets_sum = total_i64(assets);
    let liabilities_sum = total_i64(liabilities);
    Some(accounts_sum + assets_sum - liabilities_sum)
}

/// The recorded snapshot and the breakdown follow the same inclusion rule:
/// whenever there is data, the snapshot total is the breakdown's net worth,
/// and there is a snapshot exactly when the breakdown has data.
pub proof fn law_snapshot_matches_breakdown(
    accounts: Seq<AccountBalanceLine>,
    assets: Seq<i64>,
    liabilities: Seq<i64>,
)
    ensures
        snapshot_of(accounts, assets, liabilities) is Some <==> !(accounts.len() == 0 && assets.len() == 0
            && liabilities.len() == 0),
        snapshot_of(accounts, assets, liabilities) matches Some(t) ==> t == net_worth_of(
            accounts,
            assets,
            liabilities,
        ),
{
}

} // verus!
