//! Transactions: the list and search filters, the user's verdicts on
//! transfer-like rows, and the memo kept when a user corrects a category.

use vstd::prelude::*;
use crate::sql::{
    contains_pattern, like_pattern, param_view, params_view, push_int, push_text, ParamView, SqlParam,
};
use crate::text::{chars_eq_str, chars_of, fmt_int, push_chars, push_padded, push_str, string_of};
use crate::unicode::{to_lowercase, unicode_lowercase};

verus! {

/// Which transactions a listing shows, and which page of them.
#[derive(Debug)]
pub struct TxnFilter {
    pub account_id: Option<String>,
    pub limit: i64,
    pub offset: i64,
    pub search: Option<String>,
    pub filter_preset: Option<String>,
    pub start_date: Option<String>,
    pub end_date: Option<String>,
}

impl Default for TxnFilter {
    /// The first page of a hundred, unfiltered.
    fn default() -> (r: Self)
        ensures
            r.account_id is None,
            r.limit == 100,
            r.offset == 0,
            r.search is None,
            r.filter_preset is None,
            r.start_date is None,
            r.end_date is None,
    {
        TxnFilter {
            account_id: None,
            limit: 100,
            offset: 0,
            search: None,
            filter_preset: None,
            start_date: None,
            end_date: None,
        }
    }
}

/// The Copilot's transaction search.
#[derive(Debug, Default)]
pub struct SearchTxnQuery {
    pub merchant: Option<String>,
    pub account: Option<String>,
    pub start_date: Option<String>,
    pub end_date: Option<String>,
    pub min_amount_cents: Option<i64>,
    pub direction: Option<String>,
}

/// One row the search returns.
#[derive(Debug)]
pub struct SearchTxnRow {
    pub date: String,
    pub merchant: String,
    pub amount_cents: i64,
    pub account: String,
    pub category: String,
}

/// `s` when `b` holds, else nothing.
pub open spec fn text_if(b: bool, s: Seq<char>) -> Seq<char> {
    if b {
        s
    } else {
        Seq::empty()
    }
}

/// `p` when `b` holds, else no value.
pub open spec fn param_if(b: bool, p: ParamView) -> Seq<ParamView> {
    if b {
        seq![p]
    } else {
        Seq::empty()
    }
}

pub open spec fn text_or_empty(o: Option<String>) -> Seq<char> {
    match o {
        Some(s) => s@,
        None => Seq::empty(),
    }
}

pub open spec fn int_or_zero(o: Option<i64>) -> int {
    match o {
        Some(v) => v as int,
        None => 0,
    }
}

pub open spec fn abs_int(v: int) -> int {
    if v < 0 {
        -v
    } else {
        v
    }
}

pub open spec fn direction_is(q: SearchTxnQuery, d: Seq<char>) -> bool {
    q.direction matches Some(s) && s@ == d
}

pub open spec fn search_base() -> Seq<char> {
    "SELECT t.merchant_raw, t.amount_cents, t.posted_at, COALESCE(c.label, 'Uncategorized'), COALESCE(a.name, 'Unknown account') FROM transactions t LEFT JOIN categories c ON c.id = t.category_id LEFT JOIN accounts a ON a.id = t.account_id WHERE 1=1"@
}

/// The search's SQL: each present criterion adds its condition, in a fixed
/// order; newest first, limited.
pub open spec fn search_sql_of(q: SearchTxnQuery) -> Seq<char> {
    search_base()
        + text_if(q.merchant is Some, " AND lower(t.merchant_raw) LIKE lower(?)"@)
        + text_if(q.account is Some, " AND lower(a.name) LIKE lower(?)"@)
        + text_if(q.start_date is Some, " AND t.posted_at >= ?"@)
        + text_if(q.end_date is Some, " AND t.posted_at <= ?"@)
        + text_if(q.min_amount_cents is Some, " AND ABS(t.amount_cents) >= ?"@)
        + (if direction_is(q, "expense"@) {
        " AND t.amount_cents < 0"@
    } else if direction_is(q, "income"@) {
        " AND t.amount_cents > 0"@
    } else {
        Seq::empty()
    }) + " ORDER BY t.posted_at DESC LIMIT ?"@
}

/// The values bound to the search's placeholders: merchant and account as
/// substring patterns, the end date stretched to the end of its day, the
/// minimum amount as a magnitude, then the limit.
pub open spec fn search_params_of(q: SearchTxnQuery, limit: i64) -> Seq<ParamView> {
    param_if(q.merchant is Some, ParamView::Text(like_pattern(text_or_empty(q.merchant))))
        + param_if(q.account is Some, ParamView::Text(like_pattern(text_or_empty(q.account))))
        + param_if(q.start_date is Some, ParamView::Text(text_or_empty(q.start_date)))
        + param_if(q.end_date is Some, ParamView::Text(text_or_empty(q.end_date) + "T23:59:59"@))
        + param_if(q.min_amount_cents is Some, ParamView::Int(abs_int(int_or_zero(q.min_amount_cents))))
        + seq![ParamView::Int(limit as int)]
}

fn opt_is(o: &Option<String>, lit: &str) -> (r: bool)
    ensures
        r == (o matches Some(s) && s@ == lit@),
{
    match o {
        Some(s) => chars_eq_str(&chars_of(s.as_str()), lit),
        None => false,
    }
}

/// The search's SQL text and bound values.
pub fn search_query(query: &SearchTxnQuery, limit: i64) -> (r: (String, Vec<SqlParam>))
    requires
        query.min_amount_cents matches Some(m) ==> m != i64::MIN,
    ensures
        r.0@ == search_sql_of(*query),
        params_view(r.1@) == search_params_of(*query, limit),
{
    let mut sql: Vec<char> = Vec::new();
    let mut ps: Vec<SqlParam> = Vec::new();
    push_str(
        &mut sql,
        "SELECT t.merchant_raw, t.amount_cents, t.posted_at, COALESCE(c.label, 'Uncategorized'), COALESCE(a.name, 'Unknown account') FROM transactions t LEFT JOIN categories c ON c.id = t.category_id LEFT JOIN accounts a ON a.id = t.account_id WHERE 1=1",
    );
    let ghost s0 = sql@;
    let ghost p0 = params_view(ps@);
    if let Some(m) = &query.merchant {
        push_str(&mut sql, " AND lower(t.merchant_raw) LIKE lower(?)");
        push_text(&mut ps, contains_pattern(m.as_str()));
    }
    let ghost s1 = sql@;
    let ghost p1 = params_view(ps@);
    if let Some(a) = &query.account {
        push_str(&mut sql, " AND lower(a.name) LIKE lower(?)");
        push_text(&mut ps, contains_pattern(a.as_str()));
    }
    let ghost s2 = sql@;
    let ghost p2 = params_view(ps@);
    if let Some(s) = &query.start_date {
        push_str(&mut sql, " AND t.posted_at >= ?");
        push_text(&mut ps, s.clone());
    }
    let ghost s3 = sql@;
    let ghost p3 = params_view(ps@);
    if let Some(e) = &query.end_date {
        push_str(&mut sql, " AND t.posted_at <= ?");
        let mut v: Vec<char> = Vec::new();
        push_str(&mut v, e.as_str());
        push_str(&mut v, "T23:59:59");
        push_text(&mut ps, string_of(v.as_slice()));
    }
    let ghost s4 = sql@;
    let ghost p4 = params_view(ps@);
    if let Some(min) = query.min_amount_cents {
        push_str(&mut sql, " AND ABS(t.amount_cents) >= ?");
        let mag = if min < 0 {
            -min
        } else {
            min
        };
        push_int(&mut ps, mag);
    }
    let ghost s5 = sql@;
    let ghost p5 = params_view(ps@);
    if opt_is(&query.direction, "expense") {
        push_str(&mut sql, " AND t.amount_cents < 0");
    } else if opt_is(&query.direction, "income") {
        push_str(&mut sql, " AND t.amount_cents > 0");
    }
    push_str(&mut sql, " ORDER BY t.posted_at DESC LIMIT ?");
    push_int(&mut ps, limit);
    proof {
        let q = *query;
        assert(s0 == search_base());
        assert(s1 == s0 + text_if(q.merchant is Some, " AND lower(t.merchant_raw) LIKE lower(?)"@));
        assert(s2 == s1 + text_if(q.account is Some, " AND lower(a.name) LIKE lower(?)"@));
        assert(s3 == s2 + text_if(q.start_date is Some, " AND t.posted_at >= ?"@));
        assert(s4 == s3 + text_if(q.end_date is Some, " AND t.posted_at <= ?"@));
        assert(s5 == s4 + text_if(q.min_amount_cents is Some, " AND ABS(t.amount_cents) >= ?"@));
        assert(sql@ =~= search_sql_of(q));
        assert(p0 =~= Seq::<ParamView>::empty());
        assert(p1 =~= p0 + param_if(q.merchant is Some, ParamView::Text(like_pattern(text_or_empty(q.merchant)))));
        assert(p2 =~= p1 + param_if(q.account is Some, ParamView::Text(like_pattern(text_or_empty(q.account)))));
        assert(p3 =~= p2 + param_if(q.start_date is Some, ParamView::Text(text_or_empty(q.start_date))));
        assert(p4 =~= p3 + param_if(q.end_date is Some, ParamView::Text(text_or_empty(q.end_date) + "T23:59:59"@)));
        assert(p5 =~= p4 + param_if(q.min_amount_cents is Some, ParamView::Int(abs_int(int_or_zero(q.min_amount_cents)))));
        assert(params_view(ps@) =~= search_params_of(q, limit));
    }
    (string_of(sql.as_slice()), ps)
}

/// Joins conditions with `AND`.
pub open spec fn join_and(conds: Seq<Seq<char>>) -> Seq<char>
    decreases conds.len(),
{
    if conds.len() == 0 {
        Seq::empty()
    } else if conds.len() == 1 {
        conds[0]
    } else {
        join_and(conds.drop_last()) + " AND "@ + conds.last()
    }
}

pub open spec fn cond_if(b: bool, c: Seq<char>) -> Seq<Seq<char>> {
    if b {
        seq![c]
    } else {
        Seq::empty()
    }
}

pub open spec fn preset_is(f: TxnFilter, p: Seq<char>) -> bool {
    f.filter_preset matches Some(s) && s@ == p
}

/// The condition a listing preset adds, if any: rows the model was unsure of,
/// anomalies, rows that still need a category (never transfers or
/// investment-account activity), or rows awaiting a transfer verdict.
pub open spec fn preset_conditions(f: TxnFilter, non_investment: Seq<char>, transfer_review: Seq<char>) -> Seq<Seq<char>> {
    if preset_is(f, "needs_review"@) {
        seq!["t.ai_confidence IS NOT NULL AND t.ai_confidence < 0.6"@]
    } else if preset_is(f, "anomalies"@) {
        seq!["t.is_anomaly = 1"@]
    } else if preset_is(f, "no_category"@) {
        seq!["t.category_id IS NULL AND t.is_transfer = 0 AND "@ + non_investment]
    } else if preset_is(f, "transfer_review"@) {
        seq![transfer_review]
    } else {
        Seq::empty()
    }
}

/// The conditions of a listing, in the order they are applied.
pub open spec fn list_conditions(f: TxnFilter, non_investment: Seq<char>, transfer_review: Seq<char>) -> Seq<Seq<char>> {
    cond_if(f.account_id is Some, "t.account_id = ?"@)
        + cond_if(
        f.search is Some,
        "(lower(t.merchant_raw) LIKE lower(?) OR lower(COALESCE(t.notes,'')) LIKE lower(?))"@,
    ) + cond_if(f.start_date is Some, "t.posted_at >= ?"@) + cond_if(f.end_date is Some, "t.posted_at <= ?"@)
        + preset_conditions(f, non_investment, transfer_review)
}

/// The tail of a listing's SQL: its conditions, if any, then newest first,
/// one page.
pub open spec fn list_tail_of(f: TxnFilter, non_investment: Seq<char>, transfer_review: Seq<char>) -> Seq<char> {
    let conds = list_conditions(f, non_investment, transfer_review);
    text_if(conds.len() > 0, "WHERE "@ + join_and(conds) + " "@) + "ORDER BY t.posted_at DESC LIMIT ? OFFSET ?"@
}

/// The values bound to a listing's conditions: the account, the search
/// pattern twice (merchant and notes), then the date bounds.
pub open spec fn list_condition_params_of(f: TxnFilter) -> Seq<ParamView> {
    param_if(f.account_id is Some, ParamView::Text(text_or_empty(f.account_id)))
        + (if f.search is Some {
        seq![
            ParamView::Text(like_pattern(text_or_empty(f.search))),
            ParamView::Text(like_pattern(text_or_empty(f.search))),
        ]
    } else {
        Seq::empty()
    }) + param_if(f.start_date is Some, ParamView::Text(text_or_empty(f.start_date)))
        + param_if(f.end_date is Some, ParamView::Text(text_or_empty(f.end_date)))
}

/// The values bound to a listing: those of its conditions, then the page.
pub open spec fn list_params_of(f: TxnFilter) -> Seq<ParamView> {
    list_condition_params_of(f) + seq![ParamView::Int(f.limit as int), ParamView::Int(f.offset as int)]
}

pub open spec fn texts_view(v: Seq<String>) -> Seq<Seq<char>> {
    v.map_values(|s: String| s@)
}

fn push_cond(conds: &mut Vec<String>, c: &str)
    ensures
        texts_view(final(conds)@) == texts_view(old(conds)@).push(c@),
{
    conds.push(c.to_owned());
    assert(texts_view(conds@) =~= texts_view(old(conds)@).push(c@));
}

fn join_conditions(conds: &Vec<String>) -> (r: Vec<char>)
    ensures
        r@ == join_and(texts_view(conds@)),
{
    let ghost all = texts_view(conds@);
    let mut out: Vec<char> = Vec::new();
    let mut i: usize = 0;
    while i < conds.len()
        invariant
            i <= conds.len(),
            all == texts_view(conds@),
            out@ == join_and(all.take(i as int)),
        decreases conds.len() - i,
    {
        assert(all.take(i + 1).drop_last() =~= all.take(i as int));
        if i > 0 {
            push_str(&mut out, " AND ");
        }
        push_str(&mut out, conds[i].as_str());
        i += 1;
        proof {
            if i == 1 {
                assert(join_and(all.take(0)) =~= Seq::<char>::empty());
                assert(out@ =~= all.take(1)[0]);
            }
        }
    }
    assert(all.take(i as int) =~= all);
    out
}

fn push_preset_condition(conds: &mut Vec<String>, filter: &TxnFilter, non_investment: &str, transfer_review: &str)
    ensures
        texts_view(final(conds)@) == texts_view(old(conds)@) + preset_conditions(
            *filter,
            non_investment@,
            transfer_review@,
        ),
{
    if opt_is(&filter.filter_preset, "needs_review") {
        push_cond(conds, "t.ai_confidence IS NOT NULL AND t.ai_confidence < 0.6");
    } else if opt_is(&filter.filter_preset, "anomalies") {
        push_cond(conds, "t.is_anomaly = 1");
    } else if opt_is(&filter.filter_preset, "no_category") {
        let mut v: Vec<char> = Vec::new();
        push_str(&mut v, "t.category_id IS NULL AND t.is_transfer = 0 AND ");
        push_str(&mut v, non_investment);
        let c = string_of(v.as_slice());
        push_cond(conds, c.as_str());
    } else if opt_is(&filter.filter_preset, "transfer_review") {
        push_cond(conds, transfer_review);
    }
    assert(texts_view(conds@) =~= texts_view(old(conds)@) + preset_conditions(
        *filter,
        non_investment@,
        transfer_review@,
    ));
}

fn list_conditions_exec(filter: &TxnFilter, non_investment: &str, transfer_review: &str) -> (r: (Vec<String>, Vec<SqlParam>))
    ensures
        texts_view(r.0@) == list_conditions(*filter, non_investment@, transfer_review@),
        params_view(r.1@) == list_condition_params_of(*filter),
{
    let mut conds: Vec<String> = Vec::new();
    let mut ps: Vec<SqlParam> = Vec::new();
    let ghost f = *filter;
    if let Some(aid) = &filter.account_id {
        push_cond(&mut conds, "t.account_id = ?");
        push_text(&mut ps, aid.clone());
    }
    let ghost c1 = texts_view(conds@);
    let ghost p1 = params_view(ps@);
    if let Some(search) = &filter.search {
        push_cond(
            &mut conds,
            "(lower(t.merchant_raw) LIKE lower(?) OR lower(COALESCE(t.notes,'')) LIKE lower(?))",
        );
        push_text(&mut ps, contains_pattern(search.as_str()));
        push_text(&mut ps, contains_pattern(search.as_str()));
    }
    let ghost c2 = texts_view(conds@);
    if let Some(sd) = &filter.start_date {
        push_cond(&mut conds, "t.posted_at >= ?");
        push_text(&mut ps, sd.clone());
    }
    let ghost c3 = texts_view(conds@);
    if let Some(ed) = &filter.end_date {
        push_cond(&mut conds, "t.posted_at <= ?");
        push_text(&mut ps, ed.clone());
    }
    let ghost c4 = texts_view(conds@);
    push_preset_condition(&mut conds, filter, non_investment, transfer_review);
    assert(c1 =~= cond_if(f.account_id is Some, "t.account_id = ?"@));
    assert(c2 =~= c1 + cond_if(
        f.search is Some,
        "(lower(t.merchant_raw) LIKE lower(?) OR lower(COALESCE(t.notes,'')) LIKE lower(?))"@,
    ));
    assert(c3 =~= c2 + cond_if(f.start_date is Some, "t.posted_at >= ?"@));
    assert(c4 =~= c3 + cond_if(f.end_date is Some, "t.posted_at <= ?"@));
    assert(texts_view(conds@) =~= list_conditions(f, non_investment@, transfer_review@));
    assert(p1 =~= param_if(f.account_id is Some, ParamView::Text(text_or_empty(f.account_id))));
    assert(params_view(ps@) =~= list_condition_params_of(f));
    (conds, ps)
}

/// The conditions, ordering and page of a transaction listing, with their
/// bound values. The two predicates are those that the presets for rows
/// needing a category and rows awaiting a transfer verdict apply.
pub fn list_filter_clause(filter: &TxnFilter, non_investment: &str, transfer_review: &str) -> (r: (String, Vec<SqlParam>))
    ensures
        r.0@ == list_tail_of(*filter, non_investment@, transfer_review@),
        params_view(r.1@) == list_params_of(*filter),
{
    let (conds, mut ps) = list_conditions_exec(filter, non_investment, transfer_review);
    let mut out: Vec<char> = Vec::new();
    if conds.len() > 0 {
        push_str(&mut out, "WHERE ");
        let j = join_conditions(&conds);
        push_chars(&mut out, &j);
        push_str(&mut out, " ");
    }
    push_str(&mut out, "ORDER BY t.posted_at DESC LIMIT ? OFFSET ?");
    push_int(&mut ps, filter.limit);
    push_int(&mut ps, filter.offset);
    assert(out@ =~= list_tail_of(*filter, non_investment@, transfer_review@));
    assert(params_view(ps@) =~= list_params_of(*filter));
    (string_of(out.as_slice()), ps)
}

/// A user's ruling on a transfer-like counterparty.
#[derive(Debug, Clone, Copy, PartialEq, Eq, Structural)]
pub enum Verdict {
    Transfer,
    SettleUp,
    Real,
}

/// The columns a verdict writes. `settle_up` is `None` where the verdict
/// leaves that flag as it was.
#[derive(Debug, Clone, Copy, PartialEq, Eq, Structural)]
pub struct VerdictUpdate {
    pub settle_up: Option<bool>,
    pub transfer_override: bool,
    pub is_transfer: bool,
    pub clears_category: bool,
    pub clears_anomaly: bool,
    pub unlinks_peer: bool,
}

/// What each verdict writes. A transfer is never categorized and never an
/// anomaly; settling up is decided, netted against the person, and not
/// unusual spending; real spending is decided and not settled up. Both
/// non-transfer verdicts drop any transfer pairing.
pub open spec fn verdict_update_of(v: Verdict) -> VerdictUpdate {
    match v {
        Verdict::Transfer => VerdictUpdate {
            settle_up: None,
            transfer_override: true,
            is_transfer: true,
            clears_category: true,
            clears_anomaly: true,
            unlinks_peer: false,
        },
        Verdict::SettleUp => VerdictUpdate {
            settle_up: Some(true),
            transfer_override: false,
            is_transfer: false,
            clears_category: false,
            clears_anomaly: true,
            unlinks_peer: true,
        },
        Verdict::Real => VerdictUpdate {
            settle_up: Some(false),
            transfer_override: false,
            is_transfer: false,
            clears_category: false,
            clears_anomaly: false,
            unlinks_peer: true,
        },
    }
}

/// The columns a verdict writes.
pub fn verdict_update(v: Verdict) -> (r: VerdictUpdate)
    ensures
        r == verdict_update_of(v),
{
    match v {
        Verdict::Transfer => VerdictUpdate {
            settle_up: None,
            transfer_override: true,
            is_transfer: true,
            clears_category: true,
            clears_anomaly: true,
            unlinks_peer: false,
        },
        Verdict::SettleUp => VerdictUpdate {
            settle_up: Some(true),
            transfer_override: false,
            is_transfer: false,
            clears_category: false,
            clears_anomaly: true,
            unlinks_peer: true,
        },
        Verdict::Real => VerdictUpdate {
            settle_up: Some(false),
            transfer_override: false,
            is_transfer: false,
            clears_category: false,
            clears_anomaly: false,
            unlinks_peer: true,
        },
    }
}

/// The verdict for a transfer override flag.
pub fn verdict_for_override(is_transfer: bool) -> (r: Verdict)
    ensures
        r == if is_transfer {
            Verdict::Transfer
        } else {
            Verdict::Real
        },
{
    if is_transfer {
        Verdict::Transfer
    } else {
        Verdict::Real
    }
}

/// Every verdict takes the row out of the undecided queue: it records an
/// override, the row is a transfer exactly under the transfer verdict, a
/// transfer is never left categorized, and only a transfer keeps its pairing.
pub proof fn law_verdict_decides(v: Verdict)
    ensures
        verdict_update_of(v).is_transfer == (v == Verdict::Transfer),
        verdict_update_of(v).transfer_override == verdict_update_of(v).is_transfer,
        verdict_update_of(v).is_transfer ==> verdict_update_of(v).clears_category,
        verdict_update_of(v).unlinks_peer == !verdict_update_of(v).is_transfer,
        (v == Verdict::SettleUp) == (verdict_update_of(v).settle_up == Some(true)),
{
}

/// Only a generalized `%counterparty%` pattern identifies siblings; a raw
/// descriptor only ever matches itself.
pub fn is_generalized_pattern(pattern: &str) -> (r: bool)
    ensures
        r == (pattern@.len() > 0 && pattern@[0] == '%'),
{
    let v = chars_of(pattern);
    v.len() > 0 && v[0] == '%'
}

/// The bulk offer for a counterparty: the pattern and how many other
/// undecided rows it covers, or nothing when there are none.
pub fn sibling_offer(pattern: String, count: i64) -> (r: Option<(String, i64)>)
    ensures
        count == 0 ==> r is None,
        count != 0 ==> r == Some((pattern, count)),
{
    if count == 0 {
        None
    } else {
        Some((pattern, count))
    }
}

/// What the agent remembers of a user's category correction.
pub open spec fn correction_memo_of(merchant: Seq<char>, label: Seq<char>, count: int) -> Seq<char> {
    merchant + " \u{2192} "@ + label + " \u{b7} you've set this "@ + fmt_int(count) + "\u{d7}"@
}

/// The memo recorded when a user sets a merchant's category.
pub fn correction_memo(merchant_raw: &str, category_label: &str, user_count: i64) -> (r: String)
    ensures
        r@ == correction_memo_of(merchant_raw@, category_label@, user_count as int),
{
    let mut out: Vec<char> = Vec::new();
    push_str(&mut out, merchant_raw);
    push_str(&mut out, " \u{2192} ");
    push_str(&mut out, category_label);
    push_str(&mut out, " \u{b7} you've set this ");
    push_padded(user_count, 0, &mut out);
    push_str(&mut out, "\u{d7}");
    string_of(out.as_slice())
}

/// The key a correction is remembered under: the merchant, lowercased.
pub fn correction_key(merchant_raw: &str) -> (r: String)
    ensures
        r@ == unicode_lowercase(merchant_raw@),
{
    to_lowercase(merchant_raw)
}

} // verus!
