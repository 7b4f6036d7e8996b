//! Splitting one transaction across categories: either no split at all, or
//! at least two parts whose amounts add up to the transaction's magnitude.

use vstd::prelude::*;
use crate::ids::{hyphenated_uuid, new_record_id};
use crate::sums::{checked_total, prefix_sums_fit, sum_i64, total_i64};
use crate::text::{fmt_int, push_padded, push_str, string_of};

verus! {

/// One stored part of a split transaction.
#[derive(Debug, PartialEq)]
pub struct TransactionSplit {
    pub id: String,
    pub txn_id: String,
    pub category_id: Option<String>,
    pub amount_cents: i64,
}

/// One requested part of a split.
#[derive(Debug)]
pub struct SplitInput {
    pub category_id: Option<String>,
    pub amount_cents: i64,
}

/// Why a split was refused.
#[derive(Debug, Clone, Copy, PartialEq, Eq, Structural)]
pub enum SplitError {
    TooFewParts,
    SumMismatch { total: i64, parent_abs: i64 },
}

pub open spec fn split_error_message(e: SplitError) -> Seq<char> {
    match e {
        SplitError::TooFewParts => "at least 2 splits required"@,
        SplitError::SumMismatch { total, parent_abs } => "splits sum "@ + fmt_int(total as int)
            + " != transaction abs amount "@ + fmt_int(parent_abs as int),
    }
}

impl SplitError {
    /// The message reported for the error.
    pub fn message(&self) -> (r: String)
        ensures
            r@ == split_error_message(*self),
    {
        match self {
            SplitError::TooFewParts => "at least 2 splits required".to_owned(),
            SplitError::SumMismatch { total, parent_abs } => {
                let mut out: Vec<char> = Vec::new();
                push_str(&mut out, "splits sum ");
                push_padded(*total, 0, &mut out);
                push_str(&mut out, " != transaction abs amount ");
                push_padded(*parent_abs, 0, &mut out);
                string_of(out.as_slice())
            },
        }
    }
}

/// The amounts of the parts, in order.
pub open spec fn split_amounts(splits: Seq<SplitInput>) -> Seq<i64> {
    splits.map_values(|s: SplitInput| s.amount_cents)
}

/// Whether the request has the shape of a split: clearing (no parts) or at
/// least two parts.
pub open spec fn split_count_check(n: int) -> Result<(), SplitError> {
    if n == 1 {
        Err(SplitError::TooFewParts)
    } else {
        Ok(())
    }
}

/// Checks the number of parts before anything is read.
pub fn validate_split_count(splits: &Vec<SplitInput>) -> (r: Result<(), SplitError>)
    ensures
        r == split_count_check(splits.len() as int),
{
    if splits.len() == 1 {
        Err(SplitError::TooFewParts)
    } else {
        Ok(())
    }
}

/// The parts must add up to the transaction's absolute amount.
pub open spec fn split_total_check(splits: Seq<SplitInput>, parent_abs: i64) -> Result<(), SplitError> {
    let total = sum_i64(split_amounts(splits));
    if total == parent_abs {
        Ok(())
    } else {
        Err(SplitError::SumMismatch { total: total as i64, parent_abs })
    }
}

fn amounts_of(splits: &Vec<SplitInput>) -> (r: Vec<i64>)
    ensures
        r@ == split_amounts(splits@),
{
    let mut amounts: Vec<i64> = Vec::new();
    let mut i: usize = 0;
    while i < splits.len()
        invariant
            i <= splits.len(),
            amounts@ == split_amounts(splits@).take(i as int),
        decreases splits.len() - i,
    {
        amounts.push(splits[i].amount_cents);
        i += 1;
        assert(amounts@ =~= split_amounts(splits@).take(i as int));
    }
    assert(amounts@ =~= split_amounts(splits@));
    amounts
}

/// Whether the parts can be added up within `i64`.
pub fn split_sum_in_range(splits: &Vec<SplitInput>) -> (r: bool)
    ensures
        r == prefix_sums_fit(split_amounts(splits@)),
{
    checked_total(&amounts_of(splits)).is_some()
}

/// Checks the parts of a split against the absolute amount of the
/// transaction they divide.
pub fn validate_split_total(splits: &Vec<SplitInput>, parent_abs: i64) -> (r: Result<(), SplitError>)
    requires
        prefix_sums_fit(split_amounts(splits@)),
    ensures
        r == split_total_check(splits@, parent_abs),
{
    let total = total_i64(&amounts_of(splits));
    if total == parent_abs {
        Ok(())
    } else {
        Err(SplitError::SumMismatch { total, parent_abs })
    }
}

/// An accepted split divides the transaction exactly: when both checks pass
/// on a non-empty request, there are at least two parts and they add up to
/// the transaction's absolute amount.
pub proof fn law_accepted_split_is_exact(splits: Seq<SplitInput>, parent_abs: i64)
    requires
        splits.len() > 0,
        split_count_check(splits.len() as int) is Ok,
        split_total_check(splits, parent_abs) is Ok,
    ensures
        splits.len() >= 2,
        sum_i64(split_amounts(splits)) == parent_abs,
{
}

/// The rows that replace a transaction's splits: one per part, in order, each
/// with a fresh id.
pub fn split_rows(txn_id: &str, splits: Vec<SplitInput>) -> (r: Vec<TransactionSplit>)
    ensures
        r.len() == splits.len(),
        forall|k: int|
            0 <= k < r.len() ==> {
                &&& hyphenated_uuid(#[trigger] r@[k].id@)
                &&& r@[k].txn_id@ == txn_id@
                &&& r@[k].category_id == splits@[k].category_id
                &&& r@[k].amount_cents == splits@[k].amount_cents
            },
{
    let mut out: Vec<TransactionSplit> = Vec::new();
    let ghost parts = splits@;
    assert(parts == splits@);
    let mut rest = splits;
    while rest.len() > 0
        invariant
            out.len() + rest.len() == parts.len(),
            rest@ == parts.skip(out.len() as int),
            forall|k: int|
                0 <= k < out.len() ==> {
                    &&& hyphenated_uuid(#[trigger] out@[k].id@)
                    &&& out@[k].txn_id@ == txn_id@
                    &&& out@[k].category_id == parts[k].category_id
                    &&& out@[k].amount_cents == parts[k].amount_cents
                },
        decreases rest.len(),
    {
        let part = rest.remove(0);
        let row = TransactionSplit {
            id: new_record_id(),
            txn_id: txn_id.to_owned(),
            category_id: part.category_id,
            amount_cents: part.amount_cents,
        };
        out.push(row);
        assert(rest@ =~= parts.skip(out.len() as int));
    }
    assert(parts == splits@);
    assert(out.len() == parts.len());
    out
}

} // verus!
