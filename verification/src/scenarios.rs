//! What-if scenarios: the baseline a scenario projects against, and the rows
//! that record scenarios and their copies.

use vstd::prelude::*;
use crate::ids::{hyphenated_uuid, new_record_id};
use crate::sums::{checked_total, prefix_sums_fit, sum_i64, total_i64};
use crate::text::{push_str, string_of};

verus! {

/// A saved scenario.
#[derive(Debug)]
pub struct ScenarioRow {
    pub id: String,
    pub description: String,
    pub result_json: String,
    pub created_at: String,
    pub params_json: Option<String>,
    pub baseline_json: Option<String>,
    pub months: Option<i64>,
    pub archived_at: Option<String>,
    pub revised_params_json: Option<String>,
}

/// A freshly saved scenario: a new id, the given fields, not archived and
/// not revised.
pub fn new_scenario_row(
    description: String,
    result_json: String,
    params_json: Option<String>,
    baseline_json: Option<String>,
    months: Option<i64>,
    created_at: String,
) -> (r: ScenarioRow)
    ensures
        hyphenated_uuid(r.id@),
        r.description == description,
        r.result_json == result_json,
        r.created_at == created_at,
        r.params_json == params_json,
        r.baseline_json == baseline_json,
        r.months == months,
        r.archived_at is None,
        r.revised_params_json is None,
{
    ScenarioRow {
        id: new_record_id(),
        description,
        result_json,
        created_at,
        params_json,
        baseline_json,
        months,
        archived_at: None,
        revised_params_json: None,
    }
}

/// The description a duplicate gets.
pub open spec fn copy_description_of(d: Seq<char>) -> Seq<char> {
    d + " (copy)"@
}

/// An independent copy of a scenario: its own id and timestamp, the same
/// result, parameters, baseline and horizon, and none of the original's
/// archive mark or revision.
pub fn duplicate_row(src: &ScenarioRow, created_at: String) -> (r: ScenarioRow)
    ensures
        hyphenated_uuid(r.id@),
        r.description@ == copy_description_of(src.description@),
        r.result_json == src.result_json,
        r.params_json == src.params_json,
        r.baseline_json == src.baseline_json,
        r.months == src.months,
        r.created_at == created_at,
        r.archived_at is None,
        r.revised_params_json is None,
{
    let mut d: Vec<char> = Vec::new();
    push_str(&mut d, src.description.as_str());
    push_str(&mut d, " (copy)");
    new_scenario_row(
        string_of(d.as_slice()),
        src.result_json.clone(),
        src.params_json.clone(),
        src.baseline_json.clone(),
        src.months,
        created_at,
    )
}

/// What the baseline reads of an account.
#[derive(Debug)]
pub struct BaselineAccount {
    pub balance_cents: i64,
    pub is_credit_or_investment: bool,
}

/// What the baseline reads of a goal.
#[derive(Debug)]
pub struct BaselineGoalInput {
    pub name: String,
    pub target_cents: i64,
    pub current_cents: i64,
    pub monthly_cents: i64,
}

/// A goal as the baseline carries it.
#[derive(Debug)]
pub struct BaselineGoal {
    pub name: String,
    pub remaining_cents: i64,
    pub monthly_cents: i64,
}

/// The financial baseline a scenario projects against.
#[derive(Debug)]
pub struct Baseline {
    pub balance_cents: i64,
    pub avg_monthly_income_cents: i64,
    pub avg_monthly_expense_cents: i64,
    pub goals: Vec<BaselineGoal>,
}

/// The balances that count as spendable: every account but credit and
/// investment accounts.
pub open spec fn spendable_balances(accounts: Seq<BaselineAccount>) -> Seq<i64>
    decreases accounts.len(),
{
    if accounts.len() == 0 {
        Seq::empty()
    } else if accounts.last().is_credit_or_investment {
        spendable_balances(accounts.drop_last())
    } else {
        spendable_balances(accounts.drop_last()).push(accounts.last().balance_cents)
    }
}

/// The months averaged over: those elapsed since the first transaction in the
/// window, between one and twelve.
pub open spec fn averaging_months(span: int) -> int {
    if span < 1 {
        1
    } else if span > 12 {
        12
    } else {
        span
    }
}

/// Integer division rounding toward zero, as `/` on `i64`.
pub open spec fn div_toward_zero(a: int, b: int) -> int {
    if a >= 0 {
        a / b
    } else {
        -((-a) / b)
    }
}

/// What is left to save for a goal, never below zero.
pub open spec fn goal_remaining(target: int, current: int) -> int {
    if target - current > 0 {
        target - current
    } else {
        0
    }
}

fn spendable_exec(accounts: &Vec<BaselineAccount>) -> (r: Vec<i64>)
    ensures
        r@ == spendable_balances(accounts@),
{
    let mut out: Vec<i64> = Vec::new();
    let mut i: usize = 0;
    while i < accounts.len()
        invariant
            i <= accounts.len(),
            out@ == spendable_balances(accounts@.take(i as int)),
        decreases accounts.len() - i,
    {
        assert(accounts@.take(i + 1).drop_last() =~= accounts@.take(i as int));
        if !accounts[i].is_credit_or_investment {
            out.push(accounts[i].balance_cents);
        }
        i += 1;
    }
    assert(accounts@.take(i as int) =~= accounts@);
    out
}

fn div_months(a: i64, m: i64) -> (r: i64)
    requires
        1 <= m <= 12,
    ensures
        r == div_toward_zero(a as int, m as int),
{
    if a >= 0 {
        a / m
    } else {
        let neg: i128 = -(a as i128);
        let q: i128 = neg / (m as i128);
        (0 - q) as i64
    }
}

/// The inputs on which the baseline's arithmetic stays within `i64`.
pub open spec fn baseline_fits(accounts: Seq<BaselineAccount>, goals: Seq<BaselineGoalInput>) -> bool {
    &&& prefix_sums_fit(spendable_balances(accounts))
    &&& forall|k: int|
        0 <= k < goals.len() ==> i64::MIN <= #[trigger] goals[k].target_cents - goals[k].current_cents <= i64::MAX
}

/// Whether the baseline of these accounts and goals can be worked out
/// within `i64`.
pub fn baseline_in_range(accounts: &Vec<BaselineAccount>, goals: &Vec<BaselineGoalInput>) -> (r: bool)
    ensures
        r == baseline_fits(accounts@, goals@),
{
    if checked_total(&spendable_exec(accounts)).is_none() {
        return false;
    }
    let mut k: usize = 0;
    while k < goals.len()
        invariant
            k <= goals.len(),
            forall|j: int|
                0 <= j < k ==> i64::MIN <= #[trigger] goals@[j].target_cents - goals@[j].current_cents <= i64::MAX,
        decreases goals.len() - k,
    {
        if goals[k].target_cents.checked_sub(goals[k].current_cents).is_none() {
            assert(!(i64::MIN <= goals@[k as int].target_cents - goals@[k as int].current_cents <= i64::MAX));
            return false;
        }
        k += 1;
    }
    true
}

/// The baseline: the spendable balance, average monthly income and expense
/// over the elapsed months (one to twelve), and what is left on each goal.
pub fn build_baseline(
    accounts: &Vec<BaselineAccount>,
    sum_income: i64,
    sum_expense: i64,
    span_months: i64,
    goals: Vec<BaselineGoalInput>,
) -> (r: Baseline)
    requires
        baseline_fits(accounts@, goals@),
    ensures
        r.balance_cents == sum_i64(spendable_balances(accounts@)),
        r.avg_monthly_income_cents == div_toward_zero(sum_income as int, averaging_months(span_months as int)),
        r.avg_monthly_expense_cents == div_toward_zero(sum_expense as int, averaging_months(span_months as int)),
        r.goals.len() == goals.len(),
        forall|k: int|
            0 <= k < goals.len() ==> {
                &&& (#[trigger] r.goals@[k]).name == goals@[k].name
                &&& r.goals@[k].remaining_cents == goal_remaining(
                    goals@[k].target_cents as int,
                    goals@[k].current_cents as int,
                )
                &&& r.goals@[k].monthly_cents == goals@[k].monthly_cents
            },
{
    let spendable = spendable_exec(accounts);
    let balance = total_i64(&spendable);
    let am: i64 = if span_months < 1 {
        1
    } else if span_months > 12 {
        12
    } else {
        span_months
    };
    let ghost parts = goals@;
    let mut infos: Vec<BaselineGoal> = Vec::new();
    let mut rest = goals;
    while rest.len() > 0
        invariant
            infos.len() + rest.len() == parts.len(),
            rest@ == parts.skip(infos.len() as int),
            forall|k: int|
                0 <= k < parts.len() ==> i64::MIN <= #[trigger] parts[k].target_cents - parts[k].current_cents
                    <= i64::MAX,
            forall|k: int|
                0 <= k < infos.len() ==> {
                    &&& (#[trigger] infos@[k]).name == parts[k].name
                    &&& infos@[k].remaining_cents == goal_remaining(
                        parts[k].target_cents as int,
                        parts[k].current_cents as int,
                    )
                    &&& infos@[k].monthly_cents == parts[k].monthly_cents
                },
        decreases rest.len(),
    {
        let g = rest.remove(0);
        assert(g == parts[infos.len() as int]);
        let diff = g.target_cents - g.current_cents;
        let remaining = if diff > 0 {
            diff
        } else {
            0
        };
        infos.push(BaselineGoal { name: g.name, remaining_cents: remaining, monthly_cents: g.monthly_cents });
        assert(rest@ =~= parts.skip(infos.len() as int));
    }
    assert(parts == goals@);
    Baseline {
        balance_cents: balance,
        avg_monthly_income_cents: div_months(sum_income, am),
        avg_monthly_expense_cents: div_months(sum_expense, am),
        goals: infos,
    }
}

} // verus!
