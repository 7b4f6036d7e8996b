//! Precedence of balance-snapshot sources, as `ORDER BY` fragments that every
//! query picking "the latest known balance" shares.

use vstd::prelude::*;
use crate::text::{push_chars, push_str, string_of, strip_trailing, strip_trailing_vec, trim, trim_str};

verus! {

/// The ranking clause for an alias: bank-reported `simplefin` first, then
/// `ledger_recomputed`, then any other source. The alias is trimmed and loses
/// its trailing dots; an empty alias ranks the bare `source` column.
pub open spec fn source_rank_clause(alias: Seq<char>) -> Seq<char> {
    let a = strip_trailing(trim(alias), '.');
    if a.len() == 0 {
        "ORDER BY CASE source WHEN 'simplefin' THEN 1 WHEN 'ledger_recomputed' THEN 2 ELSE 3 END"@
    } else {
        "ORDER BY CASE "@ + a
            + ".source WHEN 'simplefin' THEN 1 WHEN 'ledger_recomputed' THEN 2 ELSE 3 END"@
    }
}

/// The `ORDER BY` clause that ranks snapshot sources for `alias`.
pub fn latest_balance_subquery(alias: &str) -> (r: String)
    ensures
        r@ == source_rank_clause(alias@),
{
    let trimmed = trim_str(alias);
    let a = strip_trailing_vec(&trimmed, '.');
    let mut out: Vec<char> = Vec::new();
    if a.len() == 0 {
        push_str(
            &mut out,
            "ORDER BY CASE source WHEN 'simplefin' THEN 1 WHEN 'ledger_recomputed' THEN 2 ELSE 3 END",
        );
    } else {
        push_str(&mut out, "ORDER BY CASE ");
        push_chars(&mut out, &a);
        push_str(
            &mut out,
            ".source WHEN 'simplefin' THEN 1 WHEN 'ledger_recomputed' THEN 2 ELSE 3 END",
        );
        assert(out@ =~= "ORDER BY CASE "@ + a@
            + ".source WHEN 'simplefin' THEN 1 WHEN 'ledger_recomputed' THEN 2 ELSE 3 END"@);
    }
    assert(out@ =~= source_rank_clause(alias@));
    string_of(out.as_slice())
}

/// The date-then-source ordering: newest (or oldest) `as_of_date` first, and
/// on one date `simplefin` before any other source, then `derived`, then `seed`.
/// The alias is spliced in verbatim, dot included.
pub open spec fn snapshot_order_clause(alias: Seq<char>, direction: Seq<char>) -> Seq<char> {
    alias + "as_of_date "@ + direction + ", CASE "@ + alias
        + "source WHEN 'simplefin' THEN 0 WHEN 'derived' THEN 2 WHEN 'seed' THEN 3 ELSE 1 END"@
}

/// The ordering fragment by snapshot date and source for `alias`.
pub fn balance_snapshot_order(alias: &str, direction: &str) -> (r: String)
    ensures
        r@ == snapshot_order_clause(alias@, direction@),
{
    let mut out: Vec<char> = Vec::new();
    push_str(&mut out, alias);
    push_str(&mut out, "as_of_date ");
    push_str(&mut out, direction);
    push_str(&mut out, ", CASE ");
    push_str(&mut out, alias);
    push_str(
        &mut out,
        "source WHEN 'simplefin' THEN 0 WHEN 'derived' THEN 2 WHEN 'seed' THEN 3 ELSE 1 END",
    );
    assert(out@ =~= snapshot_order_clause(alias@, direction@));
    string_of(out.as_slice())
}

} // verus!
