use finsight_core::restoration::{
    days_open, days_open_at, figures_in_range, new_envelope, new_leg, restoration_status, restored_total,
    still_held_ceiling, NewRestorationEnvelope, RestorationEnvelope, RestorationLeg,
    RestorationStatus, TroughReading, STALE_AFTER_DAYS,
};
use finsight_core::timeline::{curve_anchor, opening_anchor, reconstruct_timeline};

fn open_envelope(original: i64, counterparty: Option<&str>) -> RestorationEnvelope {
    new_envelope(
        NewRestorationEnvelope {
            label: "Car fund".into(),
            source_account_id: None,
            destination_account_id: None,
            original_cents: original,
            opened_on: "2026-01-10".into(),
            counterparty_pattern: counterparty.map(str::to_string),
            note: None,
        },
        "2026-01-10T00:00:00Z".into(),
    )
}

/// The status with no still-held reading, as an envelope without a
/// destination account gets it.
fn status(env: RestorationEnvelope, legs: Vec<RestorationLeg>, owed: Option<i64>) -> RestorationStatus {
    let (ceiling, basis) = still_held_ceiling(env.destination_account_id.is_some(), None);
    let days = days_open(&env.opened_on);
    restoration_status(env, legs, owed, ceiling, basis, days)
}

#[test]
fn it_answers_what_it_takes_to_put_the_money_back() {
    // $3,000 went to Joe and $2,500 came back: $500 is outstanding with him.
    let env = open_envelope(1_000_000, Some("joe"));
    let st = status(env, Vec::new(), Some(300_000 - 250_000));
    assert_eq!(st.left_to_restore_cents, 1_000_000, "nothing has gone back yet");
    assert_eq!(st.collectable_cents, 50_000, "$500 outstanding with Joe");
    assert_eq!(
        st.fund_yourself_cents, 950_000,
        "the rest is the user's own to move or replace"
    );
}

#[test]
fn restoring_money_reduces_what_is_left_and_the_arithmetic_stays_consistent() {
    let env = open_envelope(1_000_000, None);
    let legs = vec![
        new_leg(&env.id, 400_000, "2026-02-01", None),
        new_leg(&env.id, 100_000, "2026-03-01", None),
    ];
    let st = status(env, legs, None);
    assert_eq!(st.restored_cents, 500_000);
    assert_eq!(st.left_to_restore_cents, 500_000);
    assert_eq!(st.envelope.original_cents, st.restored_cents + st.left_to_restore_cents);
    assert_eq!(st.fund_yourself_cents, st.left_to_restore_cents - st.collectable_cents);
}

#[test]
fn over_restoring_does_not_produce_a_negative_remainder() {
    let env = open_envelope(100_000, None);
    let legs = vec![new_leg(&env.id, 250_000, "2026-02-01", None)];
    let st = status(env, legs, None);
    assert_eq!(st.left_to_restore_cents, 0);
    assert_eq!(st.fund_yourself_cents, 0);
}

#[test]
fn a_restoration_leg_counts_however_the_caller_signs_it() {
    let env = open_envelope(100_000, None);
    let leg = new_leg(&env.id, -30_000, "2026-02-01", Some("txn-9"));
    assert_eq!(leg.amount_cents, 30_000);
    assert_eq!(leg.envelope_id, env.id);
    assert_eq!(leg.transaction_id.as_deref(), Some("txn-9"));
    assert_eq!(leg.noted_on, "2026-02-01");
    let st = status(env, vec![leg], None);
    assert_eq!(st.restored_cents, 30_000);
}

#[test]
fn collectable_never_exceeds_what_is_actually_outstanding() {
    let env = open_envelope(100_000, Some("joe"));
    let st = status(env, Vec::new(), Some(900_000));
    assert_eq!(st.collectable_cents, 100_000, "capped at what is left");
    assert_eq!(st.fund_yourself_cents, 0);
}

#[test]
fn an_envelope_naming_nobody_collects_nothing_rather_than_guessing() {
    let env = open_envelope(1_000_000, None);
    let st = status(env, Vec::new(), None);
    assert_eq!(st.collectable_cents, 0);
    assert_eq!(st.fund_yourself_cents, 1_000_000);
}

#[test]
fn what_you_still_have_is_bounded_by_the_account_low_point_not_asserted() {
    // The destination account has no balance rows, only activity.
    let anchor = curve_anchor(None, opening_anchor(None));
    let deltas = vec![
        ("2026-01-10".to_string(), 1_000_000),
        ("2026-02-01".to_string(), -800_000),
        ("2026-03-01".to_string(), 600_000),
    ];
    let tl = reconstruct_timeline(&anchor, &deltas, "2026-01-09".to_string(), Some("2026-01-10"));
    let trough = tl.trough.expect("a reconstructable account has a trough");
    let reading = TroughReading {
        account_name: "Everyday".to_string(),
        trough: Some((trough.balance_cents, trough.date.clone())),
    };
    let (ceiling, basis) = still_held_ceiling(true, Some(reading));
    let ceiling = ceiling.expect("a reconstructable account has a trough");
    assert!(
        ceiling < 1_000_000,
        "the balance dipped, so the ceiling must be below the original: {ceiling}"
    );
    assert_eq!(ceiling, 200_000);
    assert!(basis.contains("lowest point"));
    assert_eq!(
        basis,
        "Everyday dipped to its lowest point on 2026-02-01, so no more than that can still be sitting there."
    );
}

#[test]
fn a_negative_trough_bounds_what_is_held_at_zero() {
    let reading = TroughReading {
        account_name: "Everyday".to_string(),
        trough: Some((-5_000, "2026-02-01".to_string())),
    };
    assert_eq!(still_held_ceiling(true, Some(reading)).0, Some(0));
}

#[test]
fn an_unreadable_or_unreconstructable_account_has_no_ceiling() {
    let (c, basis) = still_held_ceiling(true, None);
    assert_eq!(c, None);
    assert_eq!(basis, "That account's balance history could not be read.");
    let reading = TroughReading { account_name: "Everyday".to_string(), trough: None };
    let (c, basis) = still_held_ceiling(true, Some(reading));
    assert_eq!(c, None);
    assert_eq!(
        basis,
        "Everyday's balance cannot be reconstructed, so there is no verifiable ceiling."
    );
}

#[test]
fn no_destination_account_means_no_ceiling_rather_than_a_guess() {
    let env = open_envelope(1_000_000, None);
    let st = status(env, Vec::new(), None);
    assert_eq!(st.still_held_ceiling_cents, None);
    assert!(st.still_held_basis.contains("No destination account"));
}

fn old_date() -> String {
    (chrono::Utc::now().date_naive() - chrono::Duration::days(STALE_AFTER_DAYS + 5))
        .format("%Y-%m-%d")
        .to_string()
}

#[test]
fn an_envelope_left_open_too_long_is_flagged_for_reconciling() {
    let env = new_envelope(
        NewRestorationEnvelope {
            label: "Old one".into(),
            source_account_id: None,
            destination_account_id: None,
            original_cents: 100_000,
            opened_on: old_date(),
            counterparty_pattern: None,
            note: None,
        },
        "2026-01-01T00:00:00Z".into(),
    );
    let st = status(env, Vec::new(), None);
    assert!(st.stale);
    assert!(st.days_open >= STALE_AFTER_DAYS);
}

#[test]
fn a_closed_envelope_stops_being_nagged_about_and_leaves_the_open_list() {
    let mut env = new_envelope(
        NewRestorationEnvelope {
            label: "Done".into(),
            source_account_id: None,
            destination_account_id: None,
            original_cents: 100_000,
            opened_on: old_date(),
            counterparty_pattern: None,
            note: None,
        },
        "2026-01-01T00:00:00Z".into(),
    );
    assert!(env.closed_at.is_none());
    env.closed_at = Some(chrono::Utc::now().to_rfc3339());
    let st = status(env, Vec::new(), None);
    assert!(!st.stale, "a reconciled envelope is not clutter");
    assert!(st.envelope.closed_at.is_some());
}

#[test]
fn a_negative_original_is_clamped_rather_than_inverting_everything() {
    let env = open_envelope(-500_000, None);
    let st = status(env, Vec::new(), None);
    assert_eq!(st.envelope.original_cents, 0);
    assert_eq!(st.left_to_restore_cents, 0);
}

#[test]
fn new_envelopes_get_distinct_ids_and_keep_the_caller_fields() {
    let a = open_envelope(1, Some("joe"));
    let b = open_envelope(1, None);
    assert_ne!(a.id, b.id);
    assert_eq!(a.id.len(), 36);
    assert_eq!(a.label, "Car fund");
    assert_eq!(a.opened_on, "2026-01-10");
    assert_eq!(a.counterparty_pattern.as_deref(), Some("joe"));
    assert_eq!(a.created_at, "2026-01-10T00:00:00Z");
}

#[test]
fn days_open_counts_whole_days_from_the_opening_date() {
    assert_eq!(days_open_at("2026-01-10", (2026, 3, 1)), 50);
    assert_eq!(days_open_at("2026-01-10T08:00:00Z", (2026, 1, 11)), 1);
    assert_eq!(days_open_at("2026-03-10", (2026, 3, 1)), 0, "never negative");
    assert_eq!(days_open_at("garbage", (2026, 3, 1)), 0);
    assert_eq!(days_open("garbage"), 0);
}

#[test]
fn restored_total_sums_every_leg() {
    let legs = vec![new_leg("e", 1, "2026-01-01", None), new_leg("e", -2, "2026-01-02", None)];
    assert_eq!(restored_total(&legs), 3);
    assert_eq!(restored_total(&Vec::new()), 0);
}

#[test]
fn envelope_figures_out_of_i64_are_refused_up_front() {
    let env = open_envelope(1_000_000, None);
    let legs = vec![new_leg(&env.id, 400_000, "2026-02-01", None)];
    assert!(figures_in_range(env.original_cents, &legs, Some(50_000)));
    // The restored total itself overflows.
    let huge = vec![new_leg(&env.id, i64::MAX, "2026-02-01", None), new_leg(&env.id, 1, "2026-02-02", None)];
    assert!(!figures_in_range(env.original_cents, &huge, None));
    // Original less restored leaves i64.
    let one = vec![new_leg(&env.id, i64::MAX, "2026-02-01", None)];
    assert!(!figures_in_range(-2, &one, None));
    // A negative tab makes what the user funds exceed i64.
    assert!(!figures_in_range(i64::MAX, &Vec::new(), Some(-1)));
    assert!(figures_in_range(i64::MAX, &Vec::new(), Some(1)));
}
