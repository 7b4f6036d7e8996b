use finsight_core::goals::{goal_from_new, new_contribution, saved_amount, DeadlineStrictness, Goal, GoalPriority, NewGoal};
use finsight_core::imports::ImportSource;

fn goal(priority: GoalPriority, strictness: DeadlineStrictness, date: Option<&str>) -> Goal {
    let g = goal_from_new(
        NewGoal {
            name: "Emergency fund".to_string(),
            goal_type: "savings".to_string(),
            target_cents: 500_000,
            monthly_cents: 25_000,
            target_date: date.map(|d| d.to_string()),
            color: "#0f0".to_string(),
            notes: None,
            purpose: None,
            account_id: None,
            priority: Some(priority),
            deadline_strictness: Some(strictness),
        },
        "2026-01-01T00:00:00Z".to_string(),
    );
    g
}

#[test]
fn goal_priority_reads_case_insensitively_and_defaults_to_normal() {
    assert_eq!(GoalPriority::from_db("critical"), GoalPriority::Critical);
    assert_eq!(GoalPriority::from_db(" HIGH "), GoalPriority::High);
    assert_eq!(GoalPriority::from_db("someday"), GoalPriority::Someday);
    assert_eq!(GoalPriority::from_db("urgent"), GoalPriority::Normal);
    assert_eq!(GoalPriority::from_db(""), GoalPriority::Normal);
}

#[test]
fn goal_priority_round_trips_and_ranks_in_declaration_order() {
    for p in [GoalPriority::Critical, GoalPriority::High, GoalPriority::Normal, GoalPriority::Someday] {
        assert_eq!(GoalPriority::from_db(p.as_db()), p);
    }
    assert_eq!(GoalPriority::Critical.rank(), 0);
    assert_eq!(GoalPriority::High.rank(), 1);
    assert_eq!(GoalPriority::Normal.rank(), 2);
    assert_eq!(GoalPriority::Someday.rank(), 3);
    assert_eq!(GoalPriority::Normal.as_db(), "normal");
}

#[test]
fn deadline_strictness_reads_and_round_trips() {
    assert_eq!(DeadlineStrictness::from_db("Hard"), DeadlineStrictness::Hard);
    assert_eq!(DeadlineStrictness::from_db("none"), DeadlineStrictness::NoDeadline);
    assert_eq!(DeadlineStrictness::from_db("whenever"), DeadlineStrictness::Target);
    for s in [DeadlineStrictness::Hard, DeadlineStrictness::Target, DeadlineStrictness::NoDeadline] {
        assert_eq!(DeadlineStrictness::from_db(s.as_db()), s);
    }
    assert_eq!(DeadlineStrictness::NoDeadline.as_db(), "none");
}

#[test]
fn a_goal_without_a_date_has_no_deadline() {
    assert_eq!(goal(GoalPriority::High, DeadlineStrictness::Hard, None).effective_strictness(), DeadlineStrictness::NoDeadline);
    assert_eq!(goal(GoalPriority::High, DeadlineStrictness::Hard, Some("  ")).effective_strictness(), DeadlineStrictness::NoDeadline);
    assert_eq!(goal(GoalPriority::High, DeadlineStrictness::Hard, Some("2027-01-01")).effective_strictness(), DeadlineStrictness::Hard);
}

#[test]
fn funding_order_puts_priority_then_hard_deadlines_first() {
    let a = goal(GoalPriority::Critical, DeadlineStrictness::Target, Some("2027-06-01"));
    let b = goal(GoalPriority::High, DeadlineStrictness::Hard, Some("2026-06-01"));
    let c = goal(GoalPriority::High, DeadlineStrictness::Target, Some("2026-03-01"));
    assert_eq!(a.funding_order_key(), (0, 1, Some("2027-06-01".to_string())));
    assert_eq!(b.funding_order_key(), (1, 0, Some("2026-06-01".to_string())));
    assert!(a.funding_order_key() < b.funding_order_key());
    assert!(b.funding_order_key() < c.funding_order_key());
}

#[test]
fn a_new_goal_starts_empty_with_defaults() {
    let g = goal_from_new(
        NewGoal {
            name: "Trip".to_string(),
            goal_type: "savings".to_string(),
            target_cents: 100_000,
            monthly_cents: 10_000,
            target_date: None,
            color: "#00f".to_string(),
            notes: None,
            purpose: Some("fun".to_string()),
            account_id: Some("acc1".to_string()),
            priority: None,
            deadline_strictness: None,
        },
        "2026-02-02T00:00:00Z".to_string(),
    );
    assert_eq!(g.id.len(), 36);
    assert_eq!(g.current_cents, 0);
    assert_eq!(g.sort_order, 0);
    assert_eq!(g.priority, GoalPriority::Normal);
    assert_eq!(g.deadline_strictness, DeadlineStrictness::Target);
    assert_eq!(g.account_id.as_deref(), Some("acc1"));
}

#[test]
fn contributions_derive_current_balance_and_are_auditable() {
    let g = goal_from_new(
        NewGoal {
            priority: None,
            deadline_strictness: None,
            name: "Emergency".to_string(),
            goal_type: "build-balance".to_string(),
            target_cents: 1_000_000,
            monthly_cents: 0,
            target_date: None,
            color: "#C9F950".to_string(),
            notes: None,
            purpose: None,
            account_id: None,
        },
        "2026-01-01T00:00:00Z".to_string(),
    );
    assert_eq!(g.current_cents, 0);
    let mut ledger = vec![
        new_contribution(&g.id, 50_000, Some("Parked surplus"), "sweep", "2026-01-02T00:00:00Z".to_string()),
        new_contribution(&g.id, 30_000, None, "manual", "2026-01-03T00:00:00Z".to_string()),
    ];
    assert_eq!(saved_amount(&ledger), Some(80_000));
    ledger.push(new_contribution(&g.id, -20_000, Some("Pulled out"), "manual", "2026-01-04T00:00:00Z".to_string()));
    assert_eq!(saved_amount(&ledger), Some(60_000));
    assert_eq!(ledger.len(), 3, "every movement is an auditable row");
    assert_eq!(ledger.iter().map(|c| c.amount_cents).sum::<i64>(), 60_000);
    assert_eq!(ledger[0].note.as_deref(), Some("Parked surplus"));
    assert_eq!(ledger[0].source, "sweep");
    assert_ne!(ledger[0].id, ledger[1].id);
    // A balance that cannot be held in i64 is refused rather than wrapped.
    ledger.push(new_contribution(&g.id, i64::MAX, None, "manual", "2026-01-05T00:00:00Z".to_string()));
    assert_eq!(saved_amount(&ledger), None);
}

#[test]
fn import_sources_round_trip_and_default_to_csv() {
    for s in [ImportSource::Csv, ImportSource::Manual, ImportSource::Sample, ImportSource::SimpleFin] {
        assert_eq!(ImportSource::from_db(s.as_db()), s);
    }
    assert_eq!(ImportSource::from_db("plaid"), ImportSource::Csv);
    assert_eq!(ImportSource::SimpleFin.as_db(), "simplefin");
}
