use finsight_core::budgets::{
    average_months, by_params, TemplateParamsError,
    allocation_step, available, available_funds, average_spending, carryover_amount, carryover_start,
    check_spare, initial_pool, look_back_facts, normalize_params_json, parse_schedule_string,
    should_clear_hold, template_need, template_need_in_range, to_budget, validate_funding_kind, validate_hold, validate_to_budget,
    validate_transfer, zero_spend_streak, BudgetError, LookBackRow, TemplateRule,
};

fn carryover(rollover: Option<i64>, first: Option<&str>, month: &str, budgeted: i64, spent: i64) -> i64 {
    let window = carryover_start(rollover, first, month);
    carryover_amount(&window, budgeted, spent)
}

#[test]
fn carryover_is_zero_for_never_budgeted_category() {
    assert_eq!(carryover(None, None, "2026-05", 0, 0), 0);
}

#[test]
fn carryover_is_zero_when_first_budgeted_month_is_current_or_future() {
    assert_eq!(carryover_start(None, Some("2026-05"), "2026-05"), None);
    assert_eq!(carryover(None, Some("2026-05"), "2026-05", 10_000, 0), 0);
}

#[test]
fn carryover_accumulates_positive_when_underspent() {
    assert_eq!(carryover_start(None, Some("2026-04"), "2026-05"), Some("2026-04".to_string()));
    assert_eq!(carryover(None, Some("2026-04"), "2026-05", 10_000, 8_000), 2_000);
}

#[test]
fn carryover_accumulates_negative_when_overspent() {
    assert_eq!(carryover(None, Some("2026-04"), "2026-05", 10_000, 15_000), -5_000);
}

#[test]
fn carryover_sums_across_multiple_prior_months() {
    assert_eq!(carryover_start(None, Some("2026-03"), "2026-05"), Some("2026-03".to_string()));
    assert_eq!(carryover(None, Some("2026-03"), "2026-05", 20_000, 19_000), 1_000);
}

#[test]
fn carryover_caps_at_24_month_lookback() {
    // Thirty budgeted months starting 2026-01; only the trailing 24 count.
    let window = carryover_start(None, Some("2026-01"), "2028-07");
    assert_eq!(window, Some("2026-07".to_string()));
    assert_eq!(carryover_amount(&window, 24 * 10_000, 24 * 9_000), 24_000);
}

#[test]
fn carryover_stops_when_rollover_is_disabled() {
    assert_eq!(carryover_start(Some(0), Some("2026-01"), "2026-05"), None);
    assert_eq!(carryover_start(Some(1), Some("2026-01"), "2026-05"), Some("2026-01".to_string()));
}

fn row(id: &str, budget: i64, spent: i64) -> LookBackRow {
    LookBackRow {
        category_id: id.to_string(),
        category_label: id.to_uppercase(),
        budget_cents: budget,
        spent_cents: spent,
    }
}

#[test]
fn look_back_flags_the_biggest_overage_and_underage() {
    let rows = vec![row("dining", 40_000, 41_200), row("travel", 50_000, 0)];
    let facts = look_back_facts(&rows, &vec![1, 1]);
    assert!(facts.iter().any(|f| f.category_id == "dining" && f.kind == "over" && f.amount_cents == 1_200));
    assert!(facts.iter().any(|f| f.category_id == "travel" && f.kind == "under" && f.amount_cents == 50_000));
}

#[test]
fn look_back_flags_a_zero_spend_streak() {
    // Budgeted with no spend in 2026-04, -03 and -02; not budgeted in 2026-01.
    let mut history = vec![(true, 0), (true, 0), (true, 0), (false, 0)];
    history.extend(std::iter::repeat((false, 0)).take(7));
    let streak = zero_spend_streak(&history);
    assert_eq!(streak, 4);
    let facts = look_back_facts(&vec![row("travel", 50_000, 0)], &vec![streak]);
    let s = facts.iter().find(|f| f.category_id == "travel" && f.kind == "streak").unwrap();
    assert_eq!(s.streak_months, 4);
}

#[test]
fn look_back_ignores_unbudgeted_categories() {
    let facts = look_back_facts(&vec![row("food", 0, 5_000)], &vec![1]);
    assert!(facts.iter().all(|f| f.category_id != "food"));
}

#[test]
fn look_back_picks_only_the_largest_of_each_kind() {
    let rows = vec![row("a", 1_000, 1_500), row("b", 1_000, 3_000), row("c", 5_000, 1_000), row("d", 5_000, 4_000)];
    let facts = look_back_facts(&rows, &vec![1, 1, 1, 1]);
    assert_eq!(facts.len(), 2);
    assert_eq!(facts[0].kind, "over");
    assert_eq!(facts[0].category_id, "b");
    assert_eq!(facts[0].amount_cents, 2_000);
    assert_eq!(facts[1].kind, "under");
    assert_eq!(facts[1].category_id, "c");
    assert_eq!(facts[1].amount_cents, 4_000);
}

#[test]
fn zero_spend_streak_counts_the_month_itself() {
    assert_eq!(zero_spend_streak(&vec![]), 1);
    assert_eq!(zero_spend_streak(&vec![(true, 100), (true, 0)]), 1);
    assert_eq!(zero_spend_streak(&vec![(true, 0), (true, 0), (true, 5)]), 3);
}

#[test]
fn to_budget_subtracts_budgeted_and_hold() {
    assert_eq!(to_budget(10_000, 7_000, None), 3_000);
    assert_eq!(to_budget(10_000, 7_000, Some(1_000)), 2_000);
}

#[test]
fn available_funds_includes_last_months_hold() {
    assert_eq!(available_funds(10_000, 7_000, Some(1_000), Some(1_500)), 3_500);
    assert_eq!(available_funds(0, 0, None, Some(1_500)), 1_500);
}

#[test]
fn over_assign_guard_blocks_and_allows_with_flag() {
    assert_eq!(validate_to_budget(false, 10_000, -51), Err(BudgetError::OverAssigned { to_budget_cents: -51 }));
    assert_eq!(validate_to_budget(false, 10_000, -50), Ok(()));
    assert_eq!(validate_to_budget(true, 10_000, -5_000), Ok(()));
    assert_eq!(validate_to_budget(false, 0, -5_000), Ok(()));
}

#[test]
fn holds_must_not_be_negative() {
    assert_eq!(validate_hold(-1), Err(BudgetError::NegativeHold));
    assert_eq!(validate_hold(0), Ok(()));
}

#[test]
fn transfer_validation_rejects_each_malformed_request() {
    assert_eq!(validate_transfer(Some("a"), Some("b"), 0, "2026-09"), Err(BudgetError::TransferNotPositive));
    assert_eq!(validate_transfer(None, None, 100, "2026-09"), Err(BudgetError::TransferWithoutSides));
    assert_eq!(validate_transfer(Some("a"), Some("a"), 100, "2026-09"), Err(BudgetError::TransferToSelf));
    assert_eq!(validate_transfer(Some(" "), Some("b"), 100, "2026-09"), Err(BudgetError::BlankCategory));
    assert_eq!(validate_transfer(Some("a"), Some("b"), 100, "2026/09"), Err(BudgetError::BadMonth));
    assert_eq!(validate_transfer(Some("a"), Some("b"), 100, "2026-9"), Err(BudgetError::BadMonth));
    assert_eq!(validate_transfer(Some("a"), None, 100, "2026-09"), Ok(()));
}

#[test]
fn transfer_optional_insufficient_spare_validation() {
    // The donor has 1000 budgeted and 900 spent: 100 to spare, 500 asked.
    let spare = available(1_000, 0, 0, 0, 900);
    assert_eq!(spare, 100);
    assert_eq!(
        check_spare(spare, 500),
        Err(BudgetError::InsufficientSpare { available_cents: 100, amount_cents: 500 })
    );
    assert_eq!(check_spare(spare, 100), Ok(()));
}

#[test]
fn envelope_available_adds_and_subtracts_every_flow() {
    assert_eq!(available(5_000, 1_000, 500, 200, 3_000), 3_300);
}

#[test]
fn funding_kinds_are_a_closed_set() {
    for k in ["fixed", "up_to", "by", "average", "percent", "remainder", "schedule"] {
        assert_eq!(validate_funding_kind(k), Ok(()));
    }
    assert_eq!(validate_funding_kind("weekly"), Err(BudgetError::UnknownTemplateKind));
    assert_eq!(validate_funding_kind("Fixed"), Err(BudgetError::UnknownTemplateKind));
}

#[test]
fn params_json_blank_becomes_empty_object() {
    assert_eq!(normalize_params_json("   "), Ok("{}".to_string()));
    assert_eq!(normalize_params_json("{\"amount\":5}"), Ok("{\"amount\":5}".to_string()));
    assert_eq!(normalize_params_json("{not json"), Err(BudgetError::ParamsNotJson));
}

#[test]
fn schedule_string_is_read_from_the_first_named_key() {
    assert_eq!(parse_schedule_string("{\"cron\":\" 0 9 1 * * \"}"), Some("0 9 1 * *".to_string()));
    assert_eq!(parse_schedule_string("{\"schedule\":\"\",\"interval\":\"monthly\"}"), Some("monthly".to_string()));
    assert_eq!(parse_schedule_string("{\"amount\":5}"), None);
    assert_eq!(parse_schedule_string("nope"), None);
}

#[test]
fn template_needs_follow_each_rule() {
    assert_eq!(template_need(TemplateRule::Fixed { amount: 5_000 }, 2_000, 0, 9_999), 3_000);
    assert_eq!(template_need(TemplateRule::Fixed { amount: 5_000 }, 6_000, 0, 9_999), 0);
    assert_eq!(template_need(TemplateRule::UpTo { cap: 10_000 }, 0, 7_000, 9_999), 3_000);
    assert_eq!(template_need(TemplateRule::By { target: 10_000, months_left: 3 }, 0, 1_000, 9_999), 3_000);
    assert_eq!(template_need(TemplateRule::By { target: 10_000, months_left: 0 }, 0, 0, 9_999), 10_000);
    assert_eq!(template_need(TemplateRule::Average { average: 1_234 }, 0, 0, 9_999), 1_234);
    assert_eq!(template_need(TemplateRule::Remainder, 0, 0, 9_999), 9_999);
    assert_eq!(template_need(TemplateRule::Schedule { amount: 5_000, due: false }, 0, 0, 9_999), 0);
    assert_eq!(template_need(TemplateRule::Schedule { amount: 5_000, due: true }, 1_000, 0, 9_999), 4_000);
    assert_eq!(template_need(TemplateRule::Unrecognised, 0, 0, 9_999), 0);
}

/// Runs one allocation pass the way the month's templates are applied.
fn apply(needs: &[i64], pool: i64) -> (Vec<i64>, i64) {
    let mut pool = initial_pool(pool);
    let mut takes = Vec::new();
    for &n in needs {
        let (take, rest) = allocation_step(n, pool);
        takes.push(take);
        pool = rest;
    }
    (takes, pool)
}

#[test]
fn apply_templates_writes_and_clears_hold() {
    // Income 10000, budgeted 0, hold 5000: 5000 to allocate between a fixed
    // 3000 and a fixed 4000 — the second is capped by what is left.
    let pool = available_funds(10_000, 0, Some(5_000), None);
    let needs = [
        template_need(TemplateRule::Fixed { amount: 3_000 }, 0, 0, pool),
        template_need(TemplateRule::Fixed { amount: 4_000 }, 0, 0, pool),
    ];
    let (takes, rest) = apply(&needs, pool);
    assert_eq!(takes.len(), 2);
    assert_eq!(takes[0], 3_000);
    assert_eq!(takes[1], 2_000, "capped by to_budget 5000");
    assert_eq!(rest, 0);
    assert!(should_clear_hold(&takes));
    assert_eq!(takes[0] + takes[1], 5_000);
}

#[test]
fn apply_templates_second_call_idempotent() {
    // Income 10000, hold 5000: to_budget 5000; an up_to of 5000 takes it all.
    let pool = available_funds(10_000, 0, Some(5_000), None);
    let (c1, _) = apply(&[template_need(TemplateRule::UpTo { cap: 5_000 }, 0, 0, pool)], pool);
    assert_eq!(c1[0], 5_000);
    assert!(should_clear_hold(&c1));
    // Second run: the hold is gone, 5000 budgeted and available in the envelope.
    let pool2 = available_funds(10_000, 5_000, None, None);
    let cat_avail = available(5_000, 0, 0, 0, 0);
    let (c2, _) = apply(&[template_need(TemplateRule::UpTo { cap: 5_000 }, 5_000, cat_avail, pool2)], pool2);
    assert!(c2.iter().all(|&c| c == 0), "second call no double-spend, got {:?}", c2);
    assert_eq!(5_000 + c2[0], 5_000, "budget not doubled");
}

#[test]
fn apply_templates_fixed_second_call_idempotent_via_available_zero() {
    let pool = available_funds(5_000, 0, None, None);
    let (c1, _) = apply(&[template_need(TemplateRule::Fixed { amount: 5_000 }, 0, 0, pool)], pool);
    assert_eq!(c1[0], 5_000);
    let pool2 = available_funds(5_000, 5_000, None, None);
    let (c2, _) = apply(&[template_need(TemplateRule::Fixed { amount: 5_000 }, 5_000, 5_000, pool2)], pool2);
    assert!(c2.iter().all(|&c| c == 0), "second call no double-spend");
    assert_eq!(5_000 + c2[0], 5_000);
}

#[test]
fn apply_templates_upto_uses_category_available() {
    // Income 20000; 5000 pre-budgeted and 2000 spent: 3000 available in the
    // envelope, so a cap of 10000 needs 7000, and 15000 is free to give it.
    let cat_avail = available(5_000, 0, 0, 0, 2_000);
    assert_eq!(cat_avail, 3_000);
    let pool = available_funds(20_000, 5_000, None, None);
    let (changes, _) = apply(&[template_need(TemplateRule::UpTo { cap: 10_000 }, 5_000, cat_avail, pool)], pool);
    assert_eq!(changes[0], 7_000);
    assert_eq!(5_000 + changes[0], 12_000);
}

#[test]
fn apply_templates_fixed_with_hold_is_idempotent_via_cur_cap() {
    let pool = available_funds(10_000, 0, Some(5_000), None);
    let (c1, _) = apply(&[template_need(TemplateRule::Fixed { amount: 5_000 }, 0, 0, pool)], pool);
    assert_eq!(c1[0], 5_000, "first fixed consumes hold-limited pool");
    assert!(should_clear_hold(&c1));
    let pool2 = available_funds(10_000, 5_000, None, None);
    assert_eq!(pool2, 5_000);
    let (c2, _) = apply(&[template_need(TemplateRule::Fixed { amount: 5_000 }, 5_000, 5_000, pool2)], pool2);
    assert!(c2.iter().all(|&c| c == 0), "second Fixed must be 0 via cur cap, got {:?}", c2);
    assert_eq!(5_000 + c2[0], 5_000, "budget not doubled");
}

#[test]
fn apply_templates_available_funds_includes_prev_hold() {
    // Nothing earned in September, but August parked 1500 for it.
    let pool = available_funds(0, 0, None, Some(1_500));
    let (changes, _) = apply(&[template_need(TemplateRule::Fixed { amount: 1_500 }, 0, 0, pool)], pool);
    assert_eq!(changes[0], 1_500, "prev_hold rolls forward via available_funds");
}

#[test]
fn allocation_never_takes_more_than_the_pool() {
    let (takes, rest) = apply(&[4_000, -100, 4_000, 4_000], 10_000);
    assert_eq!(takes, vec![4_000, 0, 4_000, 2_000]);
    assert_eq!(rest, 0);
    assert!(takes.iter().sum::<i64>() <= 10_000);
    assert_eq!(initial_pool(-300), 0);
}

#[test]
fn average_spending_rounds_toward_zero() {
    assert_eq!(average_spending(&vec![]), 0);
    assert_eq!(average_spending(&vec![100, 200, 301]), 200);
    assert_eq!(average_spending(&vec![-100, -201]), -150);
}

#[test]
fn a_second_run_asks_only_for_the_shortfall() {
    // Fixed 5_000 from a pool of 3_000: the rerun asks for the missing 2_000.
    let need = template_need(TemplateRule::Fixed { amount: 5_000 }, 0, 0, 3_000);
    let (take, _) = allocation_step(need, 3_000);
    assert_eq!(take, 3_000);
    assert_eq!(template_need(TemplateRule::Fixed { amount: 5_000 }, take, take, 9_999), need - take);
    // Up-to 8_000 with 1_000 available, fully funded: nothing the second time.
    let need = template_need(TemplateRule::UpTo { cap: 8_000 }, 0, 1_000, 9_999);
    let (take, _) = allocation_step(need, 9_999);
    assert_eq!(take, 7_000);
    assert_eq!(template_need(TemplateRule::UpTo { cap: 8_000 }, take, 1_000 + take, 2_999), 0);
    // A "by" template tops the month up to its monthly share: nothing more the
    // second time.
    let need = template_need(TemplateRule::By { target: 1_200, months_left: 12 }, 0, 0, 9_999);
    assert_eq!(need, 100);
    assert_eq!(template_need(TemplateRule::By { target: 1_200, months_left: 12 }, 100, 100, 9_999), 0);
}

#[test]
fn a_second_run_funds_an_average_template_once() {
    // Income 1_000 and one average-100 template: 100 the first time, 0 after.
    let pool = available_funds(1_000, 0, None, None);
    let (c1, rest) = apply(&[template_need(TemplateRule::Average { average: 100 }, 0, 0, pool)], pool);
    assert_eq!(c1, vec![100]);
    assert_eq!(rest, 900);
    let pool2 = available_funds(1_000, 100, None, None);
    assert_eq!(pool2, rest);
    let (c2, _) = apply(&[template_need(TemplateRule::Average { average: 100 }, 100, 100, pool2)], pool2);
    assert_eq!(c2, vec![0]);
}

#[test]
fn a_second_run_funds_a_percent_template_once() {
    // A 10% template over 2_000 unallocated asks for 200; the second run sees
    // 1_800 unallocated, a share of 180, and the month already holds 200.
    let pool = available_funds(2_000, 0, None, None);
    let (c1, _) = apply(&[template_need(TemplateRule::Percent { share: 200 }, 0, 0, pool)], pool);
    assert_eq!(c1, vec![200]);
    let pool2 = available_funds(2_000, 200, None, None);
    assert_eq!(pool2, 1_800);
    let (c2, _) = apply(&[template_need(TemplateRule::Percent { share: 180 }, 200, 200, pool2)], pool2);
    assert_eq!(c2, vec![0]);
}

#[test]
fn a_second_run_funds_a_remainder_template_once() {
    // The remainder takes all 700 left; the second run finds nothing left.
    let pool = available_funds(1_000, 300, None, None);
    let (c1, rest) = apply(&[template_need(TemplateRule::Remainder, 0, 0, pool)], pool);
    assert_eq!(c1, vec![700]);
    assert_eq!(rest, 0);
    let pool2 = available_funds(1_000, 1_000, None, None);
    let (c2, _) = apply(&[template_need(TemplateRule::Remainder, 700, 700, pool2)], pool2);
    assert_eq!(c2, vec![0]);
}

#[test]
fn a_second_run_funds_a_spread_by_template_once() {
    // 3_000 over 3 months from nothing: 1_000 now, then nothing this month.
    let rule = TemplateRule::By { target: 3_000, months_left: 3 };
    let pool = available_funds(5_000, 0, None, None);
    let (c1, _) = apply(&[template_need(rule, 0, 0, pool)], pool);
    assert_eq!(c1, vec![1_000]);
    let pool2 = available_funds(5_000, 1_000, None, None);
    let (c2, _) = apply(&[template_need(rule, 1_000, 1_000, pool2)], pool2);
    assert_eq!(c2, vec![0]);
}

#[test]
fn a_hold_moves_money_into_the_next_month() {
    // 1_500 held in September leaves September's To Budget 1_500 lower...
    assert_eq!(to_budget(10_000, 2_000, Some(1_500)), to_budget(10_000, 2_000, None) - 1_500);
    // ...and reappears in October's available funds with no October income.
    assert_eq!(available_funds(0, 0, None, Some(1_500)), 1_500);
    assert_eq!(available_funds(4_000, 1_000, Some(500), Some(1_500)), to_budget(4_000, 1_000, Some(500)) + 1_500);
}

#[test]
fn a_cover_transfer_moves_money_without_creating_any() {
    let donor_before = available(5_000, 200, 0, 0, 1_000);
    let recipient_before = available(1_000, 0, 0, 0, 3_000);
    let donor_after = available(5_000, 200, 0, 1_500, 1_000);
    let recipient_after = available(1_000, 0, 1_500, 0, 3_000);
    assert_eq!(donor_after, donor_before - 1_500);
    assert_eq!(recipient_after, recipient_before + 1_500);
    assert_eq!(donor_after + recipient_after, donor_before + recipient_before);
    assert_eq!(check_spare(donor_before, 1_500), Ok(()));
    assert!(donor_after >= 0);
}

#[test]
fn the_carryover_window_starts_no_earlier_than_two_years_back() {
    assert_eq!(carryover_start(None, Some("2020-01"), "2026-05"), Some("2024-05".to_string()));
    assert_eq!(carryover_start(None, Some("2025-01"), "2026-05"), Some("2025-01".to_string()));
    assert_eq!(carryover_start(Some(1), Some("2025-01"), "2026-05"), Some("2025-01".to_string()));
}

#[test]
fn template_needs_out_of_i64_are_refused_up_front() {
    assert!(template_need_in_range(TemplateRule::Fixed { amount: 100 }, 50, 0));
    assert!(!template_need_in_range(TemplateRule::Fixed { amount: i64::MAX }, -1, 0));
    // An unscheduled month needs nothing, whatever the figures.
    assert!(template_need_in_range(TemplateRule::Schedule { amount: i64::MAX, due: false }, -1, 0));
    assert!(!template_need_in_range(TemplateRule::Schedule { amount: i64::MAX, due: true }, -1, 0));
    assert!(!template_need_in_range(TemplateRule::UpTo { cap: i64::MIN }, 0, 1));
    // The shortfall saturates, and rounding up adds the months.
    assert!(template_need_in_range(TemplateRule::By { target: i64::MAX, months_left: 1 }, 0, 1));
    assert!(!template_need_in_range(TemplateRule::By { target: i64::MAX, months_left: 1 }, 0, -5));
    assert!(template_need_in_range(TemplateRule::Remainder, i64::MIN, i64::MAX));
}

#[test]
fn by_templates_save_toward_their_by_month() {
    assert_eq!(by_params(r#"{"target":1000,"by":"2026-12"}"#, "2026-01"), Ok("2026-12".to_string()));
    // No (string) `by` member: the month being funded.
    assert_eq!(by_params("{}", "2026-01"), Ok("2026-01".to_string()));
    assert_eq!(by_params(r#"{"by":202612}"#, "2026-01"), Ok("2026-01".to_string()));
    assert_eq!(by_params("[1, 2]", "2026-01"), Err(TemplateParamsError::NotObject));
    match by_params("{not json", "2026-01") {
        Err(TemplateParamsError::NotJson(detail)) => assert!(detail.contains("line 1"), "{detail}"),
        other => panic!("expected a parse error, got {other:?}"),
    }
}

#[test]
fn average_templates_read_their_look_back() {
    assert_eq!(average_months("{}"), Ok(3));
    assert_eq!(average_months(r#"{"months":6}"#), Ok(6));
    assert_eq!(average_months(r#"{"months":"6"}"#), Ok(3));
    assert_eq!(average_months(r#"{"months":2.5}"#), Ok(3));
    // A negative count wraps as `i64 as u64`, then is cut to 32 bits.
    assert_eq!(average_months(r#"{"months":-1}"#), Ok(u32::MAX));
    assert_eq!(average_months(r#"{"months":4294967297}"#), Ok(1));
    assert_eq!(average_months("3"), Err(TemplateParamsError::NotObject));
    assert!(matches!(average_months(""), Err(TemplateParamsError::NotJson(_))));
}

#[test]
fn available_funds_are_to_budget_plus_the_previous_hold() {
    // A hold of 1500 parked in September, nothing else in October.
    assert_eq!(available_funds(0, 0, None, Some(1500)), 1500);
    assert_eq!(available_funds(10_000, 4_000, Some(500), Some(1500)), to_budget(10_000, 4_000, Some(500)) + 1500);
}

#[test]
fn apply_templates_by_malformed_json_bubbles_validation() {
    // A `by` template whose params are not JSON stops the run before any
    // allocation: nothing is taken from the 5_000 earned.
    match by_params("{ not json", "2026-09") {
        Err(TemplateParamsError::NotJson(detail)) => {
            assert!(!detail.is_empty());
            assert!(detail.contains("line 1"), "got {}", detail);
        }
        other => panic!("expected NotJson, got {:?}", other),
    }
    assert_eq!(by_params("{\"by\":\"2026-12\"}", "2026-09"), Ok("2026-12".to_string()));
}
