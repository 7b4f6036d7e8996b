//! Restoration envelopes: what it takes to put withdrawn money back. Three
//! figures are reliable (what is left to restore, what a person can be asked
//! for, and what the user must fund themselves); what is still held is only
//! ever bounded from above by the destination account's low point.

use vstd::prelude::*;
use crate::calendar::{days_from_civil, valid_date};
use crate::dates::{days_between, iso_date_of, parse_iso_date, today_utc};
use crate::ids::{hyphenated_uuid, new_record_id};
use crate::sums::{checked_total, prefix_sums_fit, sum_i64, total_i64};
use crate::text::{byte_prefix, byte_prefix_vec, chars_of, push_chars, push_str, string_of};

verus! {

/// Days after which an open envelope should be reconciled and closed.
pub const STALE_AFTER_DAYS: i64 = 45;

/// A running tab against an intention to put money back.
#[derive(Debug)]
pub struct RestorationEnvelope {
    pub id: String,
    pub label: String,
    pub source_account_id: Option<String>,
    pub destination_account_id: Option<String>,
    pub original_cents: i64,
    pub opened_on: String,
    pub counterparty_pattern: Option<String>,
    pub closed_at: Option<String>,
    pub note: Option<String>,
    pub created_at: String,
}

/// Money recorded as gone back into an envelope.
#[derive(Debug)]
pub struct RestorationLeg {
    pub id: String,
    pub envelope_id: String,
    pub transaction_id: Option<String>,
    pub amount_cents: i64,
    pub noted_on: String,
}

/// The figures of an envelope, and an honest bound on what is still held.
#[derive(Debug)]
pub struct RestorationStatus {
    pub envelope: RestorationEnvelope,
    pub legs: Vec<RestorationLeg>,
    pub restored_cents: i64,
    pub left_to_restore_cents: i64,
    pub collectable_cents: i64,
    pub fund_yourself_cents: i64,
    pub still_held_ceiling_cents: Option<i64>,
    pub still_held_basis: String,
    pub days_open: i64,
    pub stale: bool,
}

/// What a caller supplies to open an envelope.
#[derive(Debug)]
pub struct NewRestorationEnvelope {
    pub label: String,
    pub source_account_id: Option<String>,
    pub destination_account_id: Option<String>,
    pub original_cents: i64,
    pub opened_on: String,
    pub counterparty_pattern: Option<String>,
    pub note: Option<String>,
}

/// The new envelope row: a fresh id, the caller's fields, an original amount
/// that is never negative (a negative one would invert every figure), and no
/// closing time.
pub fn new_envelope(input: NewRestorationEnvelope, created_at: String) -> (r: RestorationEnvelope)
    ensures
        hyphenated_uuid(r.id@),
        r.label == input.label,
        r.source_account_id == input.source_account_id,
        r.destination_account_id == input.destination_account_id,
        r.original_cents == if input.original_cents < 0 {
            0
        } else {
            input.original_cents
        },
        r.opened_on == input.opened_on,
        r.counterparty_pattern == input.counterparty_pattern,
        r.closed_at is None,
        r.note == input.note,
        r.created_at == created_at,
{
    let original = if input.original_cents < 0 {
        0
    } else {
        input.original_cents
    };
    RestorationEnvelope {
        id: new_record_id(),
        label: input.label,
        source_account_id: input.source_account_id,
        destination_account_id: input.destination_account_id,
        original_cents: original,
        opened_on: input.opened_on,
        counterparty_pattern: input.counterparty_pattern,
        closed_at: None,
        note: input.note,
        created_at,
    }
}

pub open spec fn str_opt_view(o: Option<&str>) -> Option<Seq<char>> {
    match o {
        Some(s) => Some(s@),
        None => None,
    }
}

pub open spec fn string_opt_view(o: Option<String>) -> Option<Seq<char>> {
    match o {
        Some(s) => Some(s@),
        None => None,
    }
}

/// A new leg: money gone back is an inflow to the pot however the caller
/// signed it, so the amount is stored as its absolute value.
pub fn new_leg(envelope_id: &str, amount_cents: i64, noted_on: &str, transaction_id: Option<&str>) -> (r: RestorationLeg)
    requires
        amount_cents != i64::MIN,
    ensures
        hyphenated_uuid(r.id@),
        r.envelope_id@ == envelope_id@,
        string_opt_view(r.transaction_id) == str_opt_view(transaction_id),
        r.amount_cents == if amount_cents < 0 {
            -amount_cents
        } else {
            amount_cents as int
        },
        r.noted_on@ == noted_on@,
{
    let amount = if amount_cents < 0 {
        -amount_cents
    } else {
        amount_cents
    };
    let txn = match transaction_id {
        Some(t) => Some(t.to_owned()),
        None => None,
    };
    RestorationLeg {
        id: new_record_id(),
        envelope_id: envelope_id.to_owned(),
        transaction_id: txn,
        amount_cents: amount,
        noted_on: noted_on.to_owned(),
    }
}

/// The amounts of the legs, in order.
pub open spec fn leg_amounts(legs: Seq<RestorationLeg>) -> Seq<i64> {
    legs.map_values(|l: RestorationLeg| l.amount_cents)
}

/// Original minus restored, never below zero: the headline figure.
pub open spec fn left_to_restore(original: int, restored: int) -> int {
    if original - restored > 0 {
        original - restored
    } else {
        0
    }
}

/// What a person owes, never more than is left to restore. An envelope that
/// names nobody, or whose counterparty has no tab, has nothing collectable.
pub open spec fn collectable_of(owed: Option<i64>, left: int) -> int {
    let o: int = match owed {
        Some(v) => v as int,
        None => 0,
    };
    if o < left {
        o
    } else {
        left
    }
}

/// What the user must find themselves.
pub open spec fn fund_yourself_of(left: int, collectable: int) -> int {
    if left - collectable > 0 {
        left - collectable
    } else {
        0
    }
}

/// The inputs on which the status arithmetic stays within `i64`.
pub open spec fn figures_fit(original: i64, legs: Seq<RestorationLeg>, owed: Option<i64>) -> bool {
    let restored = sum_i64(leg_amounts(legs));
    let left = left_to_restore(original as int, restored);
    &&& prefix_sums_fit(leg_amounts(legs))
    &&& i64::MIN <= original - restored <= i64::MAX
    &&& left - collectable_of(owed, left) <= i64::MAX
}

fn amounts_of(legs: &Vec<RestorationLeg>) -> (r: Vec<i64>)
    ensures
        r@ == leg_amounts(legs@),
{
    let mut amounts: Vec<i64> = Vec::new();
    let mut i: usize = 0;
    while i < legs.len()
        invariant
            i <= legs.len(),
            amounts@ == leg_amounts(legs@).take(i as int),
        decreases legs.len() - i,
    {
        amounts.push(legs[i].amount_cents);
        i += 1;
        assert(amounts@ =~= leg_amounts(legs@).take(i as int));
    }
    assert(amounts@ =~= leg_amounts(legs@));
    amounts
}

/// The total restored so far.
pub fn restored_total(legs: &Vec<RestorationLeg>) -> (r: i64)
    requires
        prefix_sums_fit(leg_amounts(legs@)),
    ensures
        r == sum_i64(leg_amounts(legs@)),
{
    total_i64(&amounts_of(legs))
}

/// Whether an envelope's status can be worked out within `i64`.
pub fn figures_in_range(original: i64, legs: &Vec<RestorationLeg>, owed: Option<i64>) -> (r: bool)
    ensures
        r == figures_fit(original, legs@, owed),
{
    let restored = match checked_total(&amounts_of(legs)) {
        Some(t) => t,
        None => {
            return false;
        },
    };
    let left_wide: i128 = original as i128 - restored as i128;
    if left_wide < i64::MIN as i128 || left_wide > i64::MAX as i128 {
        return false;
    }
    let left: i128 = if left_wide > 0 {
        left_wide
    } else {
        0
    };
    let o: i128 = match owed {
        Some(v) => v as i128,
        None => 0,
    };
    let coll: i128 = if o < left {
        o
    } else {
        left
    };
    left - coll <= i64::MAX as i128
}

/// Assembles the status of an envelope from its legs, what its counterparty
/// owes (`None` when it names nobody or there is no tab), the still-held
/// bound, and how long it has been open.
pub fn restoration_status(
    envelope: RestorationEnvelope,
    legs: Vec<RestorationLeg>,
    owed: Option<i64>,
    ceiling: Option<i64>,
    basis: String,
    days_open: i64,
) -> (r: RestorationStatus)
    requires
        figures_fit(envelope.original_cents, legs@, owed),
    ensures
        r.restored_cents == sum_i64(leg_amounts(legs@)),
        r.left_to_restore_cents == left_to_restore(envelope.original_cents as int, r.restored_cents as int),
        r.collectable_cents == collectable_of(owed, r.left_to_restore_cents as int),
        r.fund_yourself_cents == fund_yourself_of(r.left_to_restore_cents as int, r.collectable_cents as int),
        r.fund_yourself_cents == r.left_to_restore_cents - r.collectable_cents,
        0 <= r.left_to_restore_cents,
        0 <= r.fund_yourself_cents,
        r.collectable_cents <= r.left_to_restore_cents,
        r.restored_cents <= envelope.original_cents ==> envelope.original_cents == r.restored_cents + r.left_to_restore_cents,
        r.stale == (envelope.closed_at is None && days_open >= STALE_AFTER_DAYS),
        r.envelope == envelope,
        r.legs == legs,
        r.still_held_ceiling_cents == ceiling,
        r.still_held_basis == basis,
        r.days_open == days_open,
{
    let restored = restored_total(&legs);
    let diff = envelope.original_cents - restored;
    let left = if diff > 0 {
        diff
    } else {
        0
    };
    let owed_cents: i64 = match owed {
        Some(v) => v,
        None => 0,
    };
    let collectable = if owed_cents < left {
        owed_cents
    } else {
        left
    };
    let gap = left - collectable;
    let fund = if gap > 0 {
        gap
    } else {
        0
    };
    let stale = envelope.closed_at.is_none() && days_open >= STALE_AFTER_DAYS;
    RestorationStatus {
        envelope,
        legs,
        restored_cents: restored,
        left_to_restore_cents: left,
        collectable_cents: collectable,
        fund_yourself_cents: fund,
        still_held_ceiling_cents: ceiling,
        still_held_basis: basis,
        days_open,
        stale,
    }
}

/// For every envelope: what was restored and what is left make up the
/// original whenever no more than the original has gone back; what the user
/// funds and what is collectable make up what is left; and none of the three
/// figures is negative when the counterparty owes nothing negative.
pub proof fn law_restoration_figures_partition(original: int, restored: int, owed: Option<i64>)
    requires
        original >= 0,
    ensures
        ({
            let left = left_to_restore(original, restored);
            let collectable = collectable_of(owed, left);
            &&& restored <= original ==> original == restored + left
            &&& fund_yourself_of(left, collectable) + collectable == left
            &&& left >= 0
            &&& fund_yourself_of(left, collectable) >= 0
            &&& (owed matches Some(v) ==> v >= 0) ==> collectable >= 0
        }),
{
}

/// The date part of `opened_on`: its first ten bytes, as `str::get(..10)`
/// takes them, or the whole text where that slice does not exist.
pub open spec fn opened_date_text(opened: Seq<char>) -> Seq<char> {
    match byte_prefix(opened, 10) {
        Some(p) => p,
        None => opened,
    }
}

/// Whole days an envelope opened on `opened` has been open on `today`: zero
/// when the date does not parse, and never negative.
pub open spec fn days_open_on(opened: Seq<char>, today: (i32, u32, u32)) -> int {
    match iso_date_of(opened_date_text(opened)) {
        Some(d) => {
            let n = days_from_civil(today.0 as int, today.1 as int, today.2 as int) - days_from_civil(
                d.0 as int,
                d.1 as int,
                d.2 as int,
            );
            if n > 0 {
                n
            } else {
                0
            }
        },
        None => 0,
    }
}

/// Days open as of the given date.
pub fn days_open_at(opened_on: &str, today: (i32, u32, u32)) -> (r: i64)
    requires
        valid_date(today.0 as int, today.1 as int, today.2 as int),
    ensures
        r == days_open_on(opened_on@, today),
{
    let chars = chars_of(opened_on);
    let text = match byte_prefix_vec(&chars, 10) {
        Some(p) => string_of(p.as_slice()),
        None => string_of(chars.as_slice()),
    };
    assert(text@ == opened_date_text(opened_on@));
    match parse_iso_date(text.as_str()) {
        Some(d) => {
            let n = days_between(today, d);
            if n > 0 {
                n
            } else {
                0
            }
        },
        None => 0,
    }
}

/// Days open as of today's date in UTC. Whatever the clock says, the result
/// is the count for some valid date, never negative, and zero when the
/// opening date does not parse.
pub fn days_open(opened_on: &str) -> (r: i64)
    ensures
        r >= 0,
        iso_date_of(opened_date_text(opened_on@)) is None ==> r == 0,
        exists|t: (i32, u32, u32)|
            valid_date(t.0 as int, t.1 as int, t.2 as int) && r == #[trigger] days_open_on(opened_on@, t),
{
    let today = today_utc();
    days_open_at(opened_on, today)
}

/// What the still-held bound is computed from: the destination account's
/// name and its lowest end-of-day balance since the envelope opened, with the
/// day it was reached, or `None` when the balance cannot be reconstructed.
#[derive(Debug)]
pub struct TroughReading {
    pub account_name: String,
    pub trough: Option<(i64, String)>,
}

pub open spec fn ceiling_of(destination_known: bool, reading: Option<TroughReading>) -> (Option<int>, Seq<char>) {
    if !destination_known {
        (None, "No destination account recorded, so there is no balance history to bound this against."@)
    } else {
        match reading {
            None => (None, "That account's balance history could not be read."@),
            Some(rd) => match rd.trough {
                Some(t) => (
                    Some(
                        if t.0 < 0 {
                            0
                        } else {
                            t.0 as int
                        },
                    ),
                    rd.account_name@ + " dipped to its lowest point on "@ + t.1@
                        + ", so no more than that can still be sitting there."@,
                ),
                None => (
                    None,
                    rd.account_name@ + "'s balance cannot be reconstructed, so there is no verifiable ceiling."@,
                ),
            },
        }
    }
}

/// The upper bound on what could still sit in the destination account, and
/// why: money cannot still be there if the balance went below it.
pub fn still_held_ceiling(destination_known: bool, reading: Option<TroughReading>) -> (r: (Option<i64>, String))
    ensures
        ceiling_of(destination_known, reading).0 == match r.0 {
            Some(v) => Some(v as int),
            None => None::<int>,
        },
        ceiling_of(destination_known, reading).1 == r.1@,
{
    if !destination_known {
        return (
            None,
            "No destination account recorded, so there is no balance history to bound this against.".to_owned(),
        );
    }
    match reading {
        None => (None, "That account's balance history could not be read.".to_owned()),
        Some(rd) => {
            let mut out: Vec<char> = Vec::new();
            push_str(&mut out, rd.account_name.as_str());
            match rd.trough {
                Some(t) => {
                    let bound = if t.0 < 0 {
                        0
                    } else {
                        t.0
                    };
                    push_str(&mut out, " dipped to its lowest point on ");
                    push_str(&mut out, t.1.as_str());
                    push_str(&mut out, ", so no more than that can still be sitting there.");
                    (Some(bound), string_of(out.as_slice()))
                },
                None => {
                    push_str(&mut out, "'s balance cannot be reconstructed, so there is no verifiable ceiling.");
                    (None, string_of(out.as_slice()))
                },
            }
        },
    }
}

} // verus!
