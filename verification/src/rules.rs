//! Categorization rules: the proposals raised from repeated user corrections,
//! and the verdict a treatment rule applies.

use vstd::prelude::*;
use crate::text::{chars_eq_str, chars_of, fmt_int, push_padded, push_str, string_of};
use crate::transactions::Verdict;

verus! {

/// What a proposal raised from corrections says.
pub open spec fn correction_proposal_text(merchant: Seq<char>, label: Seq<char>, n: int) -> Seq<char> {
    "You've set \""@ + merchant + "\" to "@ + label + " "@ + fmt_int(n) + " times \u{2014} make it a rule?"@
}

/// The description of a proposal raised after the user set `merchant_raw`
/// to the category `category_label` `n` times.
pub fn correction_proposal_description(merchant_raw: &str, category_label: &str, n: i64) -> (r: String)
    ensures
        r@ == correction_proposal_text(merchant_raw@, category_label@, n as int),
{
    let mut out: Vec<char> = Vec::new();
    push_str(&mut out, "You've set \"");
    push_str(&mut out, merchant_raw);
    push_str(&mut out, "\" to ");
    push_str(&mut out, category_label);
    push_str(&mut out, " ");
    push_padded(n, 0, &mut out);
    push_str(&mut out, " times \u{2014} make it a rule?");
    string_of(out.as_slice())
}

/// A correction becomes a proposal only when no enabled rule and no pending
/// proposal already covers it.
pub fn should_propose(rule_exists: bool, pending_exists: bool) -> (r: bool)
    ensures
        r == (!rule_exists && !pending_exists),
{
    !(rule_exists || pending_exists)
}

/// The verdict a treatment rule applies: `transfer` marks transfers, any
/// other treatment it is applied for (settling up) marks settle-ups.
pub fn treatment_verdict(treatment: &str) -> (r: Verdict)
    ensures
        r == if treatment@ == "transfer"@ {
            Verdict::Transfer
        } else {
            Verdict::SettleUp
        },
{
    if chars_eq_str(&chars_of(treatment), "transfer") {
        Verdict::Transfer
    } else {
        Verdict::SettleUp
    }
}

} // verus!
