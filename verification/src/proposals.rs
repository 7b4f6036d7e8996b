//! Category proposals: how a pending proposal is resolved by the category
//! the user finally gives a transaction.

use vstd::prelude::*;
use crate::text::{chars_eq, chars_eq_str, chars_of};

verus! {

/// How a pending proposal ends: accepted when the user chose the proposed
/// category, corrected when they chose another, rejected when they cleared
/// it. A proposal that is no longer pending is left alone.
pub open spec fn resolution_of(status: Seq<char>, proposed: Seq<char>, chosen: Option<Seq<char>>) -> Option<Seq<char>> {
    if status != "pending"@ {
        None
    } else {
        match chosen {
            Some(c) => if c == proposed {
                Some("accepted"@)
            } else {
                Some("corrected"@)
            },
            None => Some("rejected"@),
        }
    }
}

/// The new status of a transaction's proposal, if it changes.
pub fn resolution(status: &str, proposed_category_id: &str, new_category_id: Option<&str>) -> (r: Option<&'static str>)
    ensures
        match r {
            Some(s) => resolution_of(status@, proposed_category_id@, match new_category_id {
                Some(c) => Some(c@),
                None => None,
            }) == Some(s@),
            None => resolution_of(status@, proposed_category_id@, match new_category_id {
                Some(c) => Some(c@),
                None => None,
            }) is None,
        },
{
    if !chars_eq_str(&chars_of(status), "pending") {
        return None;
    }
    match new_category_id {
        Some(c) => {
            if chars_eq(&chars_of(c), &chars_of(proposed_category_id)) {
                Some("accepted")
            } else {
                Some("corrected")
            }
        },
        None => Some("rejected"),
    }
}

} // verus!
