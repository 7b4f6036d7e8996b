//! Custom spending reports: how a report's parameters become a grouped query
//! (the label and grouping of each split, the joins its filters need, its
//! conditions and bound values), and how payee reports are aggregated and
//! ordered from the raw rows.

use vstd::prelude::*;
use crate::text::{
    chars_of, contains_seq, contains_str, fmt_int, occurs_at, push_chars, push_padded, push_str, string_of, trim,
    trim_str,
};
use crate::transactions::text_if;
use crate::sql::like_pattern;
use crate::payees::{int_sum, report_totals};
use crate::calendar::{month_length, valid_date};
use crate::dates::{add_one_day, format_ymd, iso_date_of, months_back, next_day, parse_iso_date, sub_months, today_utc, ymd_text};
use crate::unicode::{to_lowercase, unicode_lowercase};

verus! {

/// The window a report covers, counted back from the latest activity.
#[derive(Debug, Clone, Copy, PartialEq, Eq, Structural)]
pub enum Period {
    All,
    Last1Month,
    Last3Months,
    Last6Months,
    YTD,
}

/// What a report groups by.
#[derive(Debug, Clone, Copy, PartialEq, Eq, Structural)]
pub enum SplitBy {
    Category,
    Group,
    Payee,
    Account,
    Month,
    SpendingType,
}

/// What a report adds up per group.
#[derive(Debug, Clone, Copy, PartialEq, Eq, Structural)]
pub enum MetricKind {
    Sum,
    Count,
    Average,
}

/// The parameters of a custom report.
#[derive(Debug)]
pub struct CustomReportParams {
    pub period: Period,
    pub split_by: SplitBy,
    pub interval: Option<String>,
    pub metric: Option<String>,
    pub include_transfers: bool,
    pub include_archived: bool,
    pub member_id: Option<String>,
    pub account_ids: Vec<String>,
    pub category_ids: Vec<String>,
    pub group_ids: Vec<String>,
    pub payee: Option<String>,
    pub spending_type: Option<String>,
    pub min_amount_cents: Option<i64>,
    pub max_amount_cents: Option<i64>,
}

impl Default for CustomReportParams {
    /// Everything, by category, summed, without transfers or archived rows.
    fn default() -> (r: Self)
        ensures
            r.period == Period::All,
            r.split_by == SplitBy::Category,
            r.interval is None,
            r.metric is None,
            !r.include_transfers,
            !r.include_archived,
            r.member_id is None,
            r.account_ids@.len() == 0,
            r.category_ids@.len() == 0,
            r.group_ids@.len() == 0,
            r.payee is None,
            r.spending_type is None,
            r.min_amount_cents is None,
            r.max_amount_cents is None,
    {
        CustomReportParams {
            period: Period::All,
            split_by: SplitBy::Category,
            interval: None,
            metric: None,
            include_transfers: false,
            include_archived: false,
            member_id: None,
            account_ids: Vec::new(),
            category_ids: Vec::new(),
            group_ids: Vec::new(),
            payee: None,
            spending_type: None,
            min_amount_cents: None,
            max_amount_cents: None,
        }
    }
}

/// One line of a report.
#[derive(Debug)]
pub struct ReportRow {
    pub label: String,
    pub total_cents: i64,
    pub txn_count: i64,
}

/// A report: its lines and their total.
#[derive(Debug)]
pub struct CustomReportResult {
    pub rows: Vec<ReportRow>,
    pub total_cents: i64,
}

/// How a metric name reads, case-insensitively: `count`, `average` or
/// `avg`; anything else, or none, sums.
pub open spec fn metric_kind_of(metric: Option<Seq<char>>) -> MetricKind {
    match metric {
        Some(m) => {
            let l = unicode_lowercase(m);
            if l == "count"@ {
                MetricKind::Count
            } else if l == "average"@ || l == "avg"@ {
                MetricKind::Average
            } else {
                MetricKind::Sum
            }
        },
        None => MetricKind::Sum,
    }
}

pub open spec fn opt_string_view(o: Option<String>) -> Option<Seq<char>> {
    match o {
        Some(s) => Some(s@),
        None => None,
    }
}

fn lower_is(lowered: &Vec<char>, lit: &str) -> (r: bool)
    ensures
        r == (lowered@ == lit@),
{
    crate::text::chars_eq_str(lowered, lit)
}

/// Reads the metric name.
pub fn metric_kind(metric: &Option<String>) -> (r: MetricKind)
    ensures
        r == metric_kind_of(opt_string_view(*metric)),
{
    match metric {
        Some(m) => {
            let l = chars_of(to_lowercase(m.as_str()).as_str());
            if lower_is(&l, "count") {
                MetricKind::Count
            } else if lower_is(&l, "average") || lower_is(&l, "avg") {
                MetricKind::Average
            } else {
                MetricKind::Sum
            }
        },
        None => MetricKind::Sum,
    }
}

/// The `strftime` format a month split uses for an interval name, read
/// case-insensitively: days, ISO weeks, years, or (by default) months.
pub open spec fn interval_format_of(interval: Option<Seq<char>>) -> Seq<char> {
    match interval {
        Some(i) => {
            let l = unicode_lowercase(i);
            if l == "day"@ {
                "%Y-%m-%d"@
            } else if l == "week"@ {
                "%Y-%W"@
            } else if l == "year"@ {
                "%Y"@
            } else {
                "%Y-%m"@
            }
        },
        None => "%Y-%m"@,
    }
}

/// The label expression, the joins and the grouping of a split.
pub struct SplitPlan {
    pub select_label: String,
    pub join_clause: String,
    pub group_by: String,
}

pub open spec fn month_expr(interval: Option<Seq<char>>) -> Seq<char> {
    "strftime('"@ + interval_format_of(interval) + "', t.posted_at)"@
}

/// How each split labels and groups its rows. Missing categories, groups and
/// spending types fall into their own named buckets; an account falls back
/// to its id.
pub open spec fn split_plan_of(split_by: SplitBy, interval: Option<Seq<char>>) -> (Seq<char>, Seq<char>, Seq<char>) {
    match split_by {
        SplitBy::Category => (
            "COALESCE(c.label, 'Uncategorized')"@,
            " LEFT JOIN categories c ON c.id = t.category_id"@,
            "COALESCE(c.id, 'uncategorized'), COALESCE(c.label, 'Uncategorized')"@,
        ),
        SplitBy::Group => (
            "COALESCE(g.label, 'Uncategorized')"@,
            " LEFT JOIN categories c ON c.id = t.category_id LEFT JOIN category_groups g ON g.id = c.group_id"@,
            "COALESCE(g.id, 'uncategorized'), COALESCE(g.label, 'Uncategorized')"@,
        ),
        SplitBy::Payee => ("t.merchant_raw"@, ""@, "t.merchant_raw"@),
        SplitBy::Account => (
            "COALESCE(a.name, t.account_id)"@,
            " LEFT JOIN accounts a ON a.id = t.account_id"@,
            "COALESCE(a.id, t.account_id), COALESCE(a.name, t.account_id)"@,
        ),
        SplitBy::Month => (month_expr(interval), ""@, month_expr(interval)),
        SplitBy::SpendingType => (
            "COALESCE(c.spending_type, 'Untagged')"@,
            " LEFT JOIN categories c ON c.id = t.category_id"@,
            "COALESCE(c.spending_type, 'Untagged')"@,
        ),
    }
}

fn interval_format(interval: &Option<String>) -> (r: &'static str)
    ensures
        r@ == interval_format_of(opt_string_view(*interval)),
{
    match interval {
        Some(i) => {
            let l = chars_of(to_lowercase(i.as_str()).as_str());
            if lower_is(&l, "day") {
                "%Y-%m-%d"
            } else if lower_is(&l, "week") {
                "%Y-%W"
            } else if lower_is(&l, "year") {
                "%Y"
            } else {
                "%Y-%m"
            }
        },
        None => "%Y-%m",
    }
}

/// A month split groups by the date, the week, the year alone or the month,
/// by the interval's name in any case: an interval whose lowercase is
/// `year` yields one row per year, `day` one per day, `week` one per week,
/// and any other name, or none, one per month. The four formats differ.
pub proof fn law_month_split_interval(i: Seq<char>)
    ensures
        unicode_lowercase(i) == "year"@ ==> interval_format_of(Some(i)) == "%Y"@,
        unicode_lowercase(i) == "day"@ ==> interval_format_of(Some(i)) == "%Y-%m-%d"@,
        unicode_lowercase(i) == "week"@ ==> interval_format_of(Some(i)) == "%Y-%W"@,
        unicode_lowercase(i) != "year"@ && unicode_lowercase(i) != "day"@ && unicode_lowercase(i) != "week"@
            ==> interval_format_of(Some(i)) == "%Y-%m"@,
        interval_format_of(None) == "%Y-%m"@,
        split_plan_of(SplitBy::Month, Some(i)).0 == "strftime('"@ + interval_format_of(Some(i)) + "', t.posted_at)"@,
        "%Y"@ != "%Y-%m"@ && "%Y"@ != "%Y-%m-%d"@ && "%Y"@ != "%Y-%W"@ && "%Y-%m"@ != "%Y-%m-%d"@ && "%Y-%m"@
            != "%Y-%W"@ && "%Y-%m-%d"@ != "%Y-%W"@,
{
    reveal_strlit("year");
    reveal_strlit("day");
    reveal_strlit("week");
    reveal_strlit("%Y");
    reveal_strlit("%Y-%m");
    reveal_strlit("%Y-%m-%d");
    reveal_strlit("%Y-%W");
    assert("%Y"@.len() == 2 && "%Y-%m"@.len() == 5 && "%Y-%W"@.len() == 5 && "%Y-%m-%d"@.len() == 8);
    assert("%Y"@ != "%Y-%m"@ && "%Y"@ != "%Y-%m-%d"@ && "%Y"@ != "%Y-%W"@ && "%Y-%m"@ != "%Y-%m-%d"@
        && "%Y-%m-%d"@ != "%Y-%W"@);
    assert("%Y-%m"@[4] != "%Y-%W"@[4]);
    assert("year"@[0] != "week"@[0]);
    assert("year"@.len() != "day"@.len() && "week"@.len() != "day"@.len());
}

/// The label, joins and grouping of a split.
pub fn split_plan(split_by: SplitBy, interval: &Option<String>) -> (r: SplitPlan)
    ensures
        (r.select_label@, r.join_clause@, r.group_by@) == split_plan_of(split_by, opt_string_view(*interval)),
{
    match split_by {
        SplitBy::Category => SplitPlan {
            select_label: "COALESCE(c.label, 'Uncategorized')".to_owned(),
            join_clause: " LEFT JOIN categories c ON c.id = t.category_id".to_owned(),
            group_by: "COALESCE(c.id, 'uncategorized'), COALESCE(c.label, 'Uncategorized')".to_owned(),
        },
        SplitBy::Group => SplitPlan {
            select_label: "COALESCE(g.label, 'Uncategorized')".to_owned(),
            join_clause: " LEFT JOIN categories c ON c.id = t.category_id LEFT JOIN category_groups g ON g.id = c.group_id".to_owned(),
            group_by: "COALESCE(g.id, 'uncategorized'), COALESCE(g.label, 'Uncategorized')".to_owned(),
        },
        SplitBy::Payee => SplitPlan {
            select_label: "t.merchant_raw".to_owned(),
            join_clause: "".to_owned(),
            group_by: "t.merchant_raw".to_owned(),
        },
        SplitBy::Account => SplitPlan {
            select_label: "COALESCE(a.name, t.account_id)".to_owned(),
            join_clause: " LEFT JOIN accounts a ON a.id = t.account_id".to_owned(),
            group_by: "COALESCE(a.id, t.account_id), COALESCE(a.name, t.account_id)".to_owned(),
        },
        SplitBy::Month => {
            let fmt = interval_format(interval);
            let mut e: Vec<char> = Vec::new();
            push_str(&mut e, "strftime('");
            push_str(&mut e, fmt);
            push_str(&mut e, "', t.posted_at)");
            let expr = string_of(e.as_slice());
            let expr2 = string_of(e.as_slice());
            SplitPlan { select_label: expr, join_clause: "".to_owned(), group_by: expr2 }
        },
        SplitBy::SpendingType => SplitPlan {
            select_label: "COALESCE(c.spending_type, 'Untagged')".to_owned(),
            join_clause: " LEFT JOIN categories c ON c.id = t.category_id".to_owned(),
            group_by: "COALESCE(c.spending_type, 'Untagged')".to_owned(),
        },
    }
}

/// The joins after the filters' needs are met: the categories table when
/// filtering by category, group or spending type, and the groups table when
/// filtering by group, each added only when absent.
pub open spec fn report_join_of(base: Seq<char>, needs_categories: bool, needs_groups: bool) -> Seq<char> {
    let with_c = if needs_categories && !contains_seq(base, "categories c"@) {
        base + " LEFT JOIN categories c ON c.id = t.category_id"@
    } else {
        base
    };
    if needs_groups && !contains_seq(with_c, "category_groups g"@) {
        with_c + " LEFT JOIN category_groups g ON g.id = c.group_id"@
    } else {
        with_c
    }
}

pub open spec fn needs_categories(p: CustomReportParams) -> bool {
    p.category_ids@.len() > 0 || p.group_ids@.len() > 0 || p.spending_type is Some
}

/// The joins of a report.
pub fn report_join(base: &String, p: &CustomReportParams) -> (r: String)
    ensures
        r@ == report_join_of(base@, needs_categories(*p), p.group_ids@.len() > 0),
{
    let mut j = chars_of(base.as_str());
    let nc = p.category_ids.len() > 0 || p.group_ids.len() > 0 || p.spending_type.is_some();
    if nc && !contains_str(&j, "categories c") {
        push_str(&mut j, " LEFT JOIN categories c ON c.id = t.category_id");
    }
    if p.group_ids.len() > 0 && !contains_str(&j, "category_groups g") {
        push_str(&mut j, " LEFT JOIN category_groups g ON g.id = c.group_id");
    }
    string_of(j.as_slice())
}

/// `n` placeholders separated by commas.
pub open spec fn placeholders(n: nat) -> Seq<char>
    decreases n,
{
    if n <= 1 {
        "?"@
    } else {
        placeholders((n - 1) as nat) + ",?"@
    }
}

fn push_placeholders(out: &mut Vec<char>, n: usize)
    requires
        n >= 1,
    ensures
        final(out)@ == old(out)@ + placeholders(n as nat),
{
    push_str(out, "?");
    let mut k: usize = 1;
    while k < n
        invariant
            1 <= k <= n,
            out@ == old(out)@ + placeholders(k as nat),
        decreases n - k,
    {
        push_str(out, ",?");
        k += 1;
        assert(out@ =~= old(out)@ + placeholders(k as nat));
    }
}

pub open spec fn texts_of(v: Seq<String>) -> Seq<Seq<char>> {
    v.map_values(|s: String| s@)
}

pub open spec fn trimmed_nonempty(o: Option<String>) -> bool {
    o matches Some(s) && trim(s@).len() > 0
}

pub open spec fn trimmed_text(o: Option<String>) -> Seq<char> {
    match o {
        Some(s) => trim(s@),
        None => Seq::empty(),
    }
}

pub open spec fn in_list(column: Seq<char>, n: nat) -> Seq<char> {
    " AND "@ + column + " IN ("@ + placeholders(n) + ")"@
}

/// The archived rows a report hides, for the splits that join the table they
/// are archived in.
pub open spec fn archived_clause_of(p: CustomReportParams) -> Seq<char> {
    if p.include_archived {
        Seq::empty()
    } else {
        match p.split_by {
            SplitBy::Category | SplitBy::Group | SplitBy::SpendingType => " AND (c.archived_at IS NULL OR c.id IS NULL)"@,
            SplitBy::Account => " AND (a.archived_at IS NULL OR a.id IS NULL)"@,
            _ => Seq::empty(),
        }
    }
}

pub open spec fn member_condition(p: CustomReportParams) -> Seq<char> {
    text_if(
        trimmed_nonempty(p.member_id),
        " AND EXISTS (SELECT 1 FROM account_owners ao WHERE ao.account_id = t.account_id AND ao.member_id = ?)"@,
    )
}

pub open spec fn payee_conditions(p: CustomReportParams) -> Seq<char> {
    text_if(trimmed_nonempty(p.payee), " AND lower(t.merchant_raw) LIKE lower(?)"@)
        + text_if(trimmed_nonempty(p.spending_type), " AND c.spending_type = ?"@)
}

pub open spec fn bound_conditions(p: CustomReportParams, has_start: bool) -> Seq<char> {
    text_if(p.min_amount_cents is Some, " AND ABS(t.amount_cents) >= CAST(? AS INTEGER)"@)
        + text_if(p.max_amount_cents is Some, " AND ABS(t.amount_cents) <= CAST(? AS INTEGER)"@)
        + text_if(has_start, " AND t.posted_at >= ?"@) + " AND t.posted_at < ?"@
}

/// The conditions after the transfer and archived filters, in order: the
/// household member owning the account, the account, category and group
/// lists, the payee substring, the spending type, the magnitude bounds and
/// the period.
pub open spec fn filter_conditions_of(p: CustomReportParams, has_start: bool) -> Seq<char> {
    member_condition(p) + text_if(p.account_ids@.len() > 0, in_list("t.account_id"@, p.account_ids@.len()))
        + text_if(p.category_ids@.len() > 0, in_list("t.category_id"@, p.category_ids@.len()))
        + text_if(p.group_ids@.len() > 0, in_list("g.id"@, p.group_ids@.len()))
        + payee_conditions(p) + bound_conditions(p, has_start)
}

pub open spec fn texts_if(b: bool, s: Seq<Seq<char>>) -> Seq<Seq<char>> {
    if b {
        s
    } else {
        Seq::empty()
    }
}

pub open spec fn int_text(o: Option<i64>) -> Seq<char> {
    match o {
        Some(v) => fmt_int(v as int),
        None => Seq::empty(),
    }
}

pub open spec fn member_binds(p: CustomReportParams) -> Seq<Seq<char>> {
    texts_if(trimmed_nonempty(p.member_id), seq![trimmed_text(p.member_id)])
}

pub open spec fn payee_binds(p: CustomReportParams) -> Seq<Seq<char>> {
    texts_if(trimmed_nonempty(p.payee), seq![like_pattern(trimmed_text(p.payee))])
        + texts_if(trimmed_nonempty(p.spending_type), seq![trimmed_text(p.spending_type)])
}

pub open spec fn bound_binds(p: CustomReportParams, start: Option<Seq<char>>, end: Seq<char>) -> Seq<Seq<char>> {
    texts_if(p.min_amount_cents is Some, seq![int_text(p.min_amount_cents)])
        + texts_if(p.max_amount_cents is Some, seq![int_text(p.max_amount_cents)])
        + texts_if(start is Some, seq![match start {
        Some(s) => s,
        None => Seq::empty(),
    }]) + seq![end]
}

/// The values bound to those conditions, in the same order.
pub open spec fn filter_binds_of(p: CustomReportParams, start: Option<Seq<char>>, end: Seq<char>) -> Seq<Seq<char>> {
    member_binds(p) + texts_of(p.account_ids@) + texts_of(p.category_ids@) + texts_of(p.group_ids@)
        + payee_binds(p) + bound_binds(p, start, end)
}

/// Regrouping a concatenation.
pub proof fn lemma_concat_regroup<A>(s0: Seq<A>, a: Seq<A>, b: Seq<A>, c: Seq<A>, d: Seq<A>, e: Seq<A>, f: Seq<A>)
    ensures
        s0 + a + b + c + d + e + f == s0 + (a + b + c + d + e + f),
{
    assert(s0 + a + b + c + d + e + f =~= s0 + (a + b + c + d + e + f));
}

fn push_bind(binds: &mut Vec<String>, s: String)
    ensures
        texts_of(final(binds)@) == texts_of(old(binds)@).push(s@),
{
    binds.push(s);
    assert(texts_of(binds@) =~= texts_of(old(binds)@).push(s@));
}

fn push_id_list(sql: &mut Vec<char>, binds: &mut Vec<String>, column: &str, ids: &Vec<String>)
    ensures
        final(sql)@ == old(sql)@ + text_if(ids@.len() > 0, in_list(column@, ids@.len())),
        texts_of(final(binds)@) == texts_of(old(binds)@) + texts_of(ids@),
{
    if ids.len() > 0 {
        push_str(sql, " AND ");
        push_str(sql, column);
        push_str(sql, " IN (");
        push_placeholders(sql, ids.len());
        push_str(sql, ")");
        assert(sql@ =~= old(sql)@ + in_list(column@, ids@.len()));
    } else {
        assert(sql@ =~= old(sql)@ + text_if(ids@.len() > 0, in_list(column@, ids@.len())));
    }
    let mut i: usize = 0;
    while i < ids.len()
        invariant
            i <= ids.len(),
            texts_of(binds@) == texts_of(old(binds)@) + texts_of(ids@.take(i as int)),
        decreases ids.len() - i,
    {
        push_bind(binds, ids[i].clone());
        i += 1;
        assert(texts_of(ids@.take(i as int)) =~= texts_of(ids@.take(i - 1)).push(ids@[i - 1]@));
        assert(texts_of(binds@) =~= texts_of(old(binds)@) + texts_of(ids@.take(i as int)));
    }
    assert(ids@.take(i as int) =~= ids@);
}

fn trimmed_opt(o: &Option<String>) -> (r: Option<Vec<char>>)
    ensures
        match r {
            Some(t) => trimmed_nonempty(*o) && t@ == trimmed_text(*o),
            None => !trimmed_nonempty(*o),
        },
{
    match o {
        Some(s) => {
            let t = trim_str(s.as_str());
            if t.len() > 0 {
                Some(t)
            } else {
                None
            }
        },
        None => None,
    }
}

fn push_member_payee(sql: &mut Vec<char>, binds: &mut Vec<String>, p: &CustomReportParams, first: bool)
    ensures
        final(sql)@ == old(sql)@ + if first {
            member_condition(*p)
        } else {
            payee_conditions(*p)
        },
        texts_of(final(binds)@) == texts_of(old(binds)@) + if first {
            member_binds(*p)
        } else {
            payee_binds(*p)
        },
{
    if first {
        if let Some(mid) = trimmed_opt(&p.member_id) {
            push_str(
                sql,
                " AND EXISTS (SELECT 1 FROM account_owners ao WHERE ao.account_id = t.account_id AND ao.member_id = ?)",
            );
            push_bind(binds, string_of(mid.as_slice()));
        }
        assert(sql@ =~= old(sql)@ + text_if(
            trimmed_nonempty(p.member_id),
            " AND EXISTS (SELECT 1 FROM account_owners ao WHERE ao.account_id = t.account_id AND ao.member_id = ?)"@,
        ));
        assert(texts_of(binds@) =~= texts_of(old(binds)@) + texts_if(
            trimmed_nonempty(p.member_id),
            seq![trimmed_text(p.member_id)],
        ));
    } else {
        let ghost s0 = sql@;
        let ghost b0 = texts_of(binds@);
        if let Some(py) = trimmed_opt(&p.payee) {
            push_str(sql, " AND lower(t.merchant_raw) LIKE lower(?)");
            let mut pat: Vec<char> = Vec::new();
            push_str(&mut pat, "%");
            push_chars(&mut pat, &py);
            push_str(&mut pat, "%");
            push_bind(binds, string_of(pat.as_slice()));
        }
        let ghost s1 = sql@;
        let ghost b1 = texts_of(binds@);
        if let Some(st) = trimmed_opt(&p.spending_type) {
            push_str(sql, " AND c.spending_type = ?");
            push_bind(binds, string_of(st.as_slice()));
        }
        assert(s1 =~= s0 + text_if(trimmed_nonempty(p.payee), " AND lower(t.merchant_raw) LIKE lower(?)"@));
        assert(b1 =~= b0 + texts_if(trimmed_nonempty(p.payee), seq![like_pattern(trimmed_text(p.payee))]));
        assert(sql@ =~= old(sql)@ + (text_if(trimmed_nonempty(p.payee), " AND lower(t.merchant_raw) LIKE lower(?)"@)
            + text_if(trimmed_nonempty(p.spending_type), " AND c.spending_type = ?"@)));
        assert(texts_of(binds@) =~= texts_of(old(binds)@) + (texts_if(
            trimmed_nonempty(p.payee),
            seq![like_pattern(trimmed_text(p.payee))],
        ) + texts_if(trimmed_nonempty(p.spending_type), seq![trimmed_text(p.spending_type)])));
    }
}

fn push_bounds(sql: &mut Vec<char>, binds: &mut Vec<String>, p: &CustomReportParams, start: &Option<String>, end: &String)
    ensures
        final(sql)@ == old(sql)@ + bound_conditions(*p, start is Some),
        texts_of(final(binds)@) == texts_of(old(binds)@) + bound_binds(*p, opt_string_view(*start), end@),
{
    let ghost s0 = sql@;
    let ghost b0 = texts_of(binds@);
    if let Some(min) = p.min_amount_cents {
        push_str(sql, " AND ABS(t.amount_cents) >= CAST(? AS INTEGER)");
        let mut v: Vec<char> = Vec::new();
        push_padded(min, 0, &mut v);
        push_bind(binds, string_of(v.as_slice()));
    }
    let ghost s1 = sql@;
    let ghost b1 = texts_of(binds@);
    if let Some(max) = p.max_amount_cents {
        push_str(sql, " AND ABS(t.amount_cents) <= CAST(? AS INTEGER)");
        let mut v: Vec<char> = Vec::new();
        push_padded(max, 0, &mut v);
        push_bind(binds, string_of(v.as_slice()));
    }
    let ghost s2 = sql@;
    let ghost b2 = texts_of(binds@);
    if let Some(s) = start {
        push_str(sql, " AND t.posted_at >= ?");
        push_bind(binds, s.clone());
    }
    let ghost s3 = sql@;
    let ghost b3 = texts_of(binds@);
    push_str(sql, " AND t.posted_at < ?");
    push_bind(binds, end.clone());
    assert(s1 =~= s0 + text_if(p.min_amount_cents is Some, " AND ABS(t.amount_cents) >= CAST(? AS INTEGER)"@));
    assert(s2 =~= s1 + text_if(p.max_amount_cents is Some, " AND ABS(t.amount_cents) <= CAST(? AS INTEGER)"@));
    assert(s3 =~= s2 + text_if(start is Some, " AND t.posted_at >= ?"@));
    assert(b1 =~= b0 + texts_if(p.min_amount_cents is Some, seq![int_text(p.min_amount_cents)]));
    assert(b2 =~= b1 + texts_if(p.max_amount_cents is Some, seq![int_text(p.max_amount_cents)]));
    assert(b3 =~= b2 + texts_if(start is Some, seq![match opt_string_view(*start) {
        Some(s) => s,
        None => Seq::empty(),
    }]));
    assert(sql@ =~= old(sql)@ + (text_if(p.min_amount_cents is Some, " AND ABS(t.amount_cents) >= CAST(? AS INTEGER)"@)
        + text_if(p.max_amount_cents is Some, " AND ABS(t.amount_cents) <= CAST(? AS INTEGER)"@)
        + text_if(start is Some, " AND t.posted_at >= ?"@) + " AND t.posted_at < ?"@));
    assert(texts_of(binds@) =~= texts_of(old(binds)@) + (texts_if(p.min_amount_cents is Some, seq![int_text(p.min_amount_cents)])
        + texts_if(p.max_amount_cents is Some, seq![int_text(p.max_amount_cents)])
        + texts_if(start is Some, seq![match opt_string_view(*start) {
        Some(s) => s,
        None => Seq::empty(),
    }]) + seq![end@]));
}

/// Appends the filter conditions after the transfer and archived ones, and
/// their bound values.
pub fn push_filter_conditions(
    sql: &mut Vec<char>,
    binds: &mut Vec<String>,
    p: &CustomReportParams,
    start: &Option<String>,
    end: &String,
)
    ensures
        final(sql)@ == old(sql)@ + filter_conditions_of(*p, start is Some),
        texts_of(final(binds)@) == texts_of(old(binds)@) + filter_binds_of(*p, opt_string_view(*start), end@),
{
    let ghost s0 = sql@;
    let ghost b0 = texts_of(binds@);
    push_member_payee(sql, binds, p, true);
    push_id_list(sql, binds, "t.account_id", &p.account_ids);
    push_id_list(sql, binds, "t.category_id", &p.category_ids);
    push_id_list(sql, binds, "g.id", &p.group_ids);
    push_member_payee(sql, binds, p, false);
    push_bounds(sql, binds, p, start, end);
    proof {
        let q = *p;
        lemma_concat_regroup(
            s0,
            member_condition(q),
            text_if(q.account_ids@.len() > 0, in_list("t.account_id"@, q.account_ids@.len())),
            text_if(q.category_ids@.len() > 0, in_list("t.category_id"@, q.category_ids@.len())),
            text_if(q.group_ids@.len() > 0, in_list("g.id"@, q.group_ids@.len())),
            payee_conditions(q),
            bound_conditions(q, start is Some),
        );
        lemma_concat_regroup(
            b0,
            member_binds(q),
            texts_of(q.account_ids@),
            texts_of(q.category_ids@),
            texts_of(q.group_ids@),
            payee_binds(q),
            bound_binds(q, opt_string_view(*start), end@),
        );
    }
}

/// What each metric adds up per group: transactions counted, or expense
/// magnitudes (a settled-up row nets against spending, income counts as
/// nothing) averaged or summed.
pub open spec fn total_expr_of(kind: MetricKind) -> Seq<char> {
    match kind {
        MetricKind::Count => "COUNT(*)"@,
        MetricKind::Average => "CAST(AVG(CASE WHEN t.settle_up=1 THEN -t.amount_cents WHEN t.amount_cents < 0 THEN -t.amount_cents ELSE 0 END) AS INTEGER)"@,
        MetricKind::Sum => "CAST(SUM(CASE WHEN t.settle_up=1 THEN -t.amount_cents WHEN t.amount_cents < 0 THEN -t.amount_cents ELSE 0 END) AS INTEGER)"@,
    }
}

fn total_expr(kind: MetricKind) -> (r: &'static str)
    ensures
        r@ == total_expr_of(kind),
{
    match kind {
        MetricKind::Count => "COUNT(*)",
        MetricKind::Average => "CAST(AVG(CASE WHEN t.settle_up=1 THEN -t.amount_cents WHEN t.amount_cents < 0 THEN -t.amount_cents ELSE 0 END) AS INTEGER)",
        MetricKind::Sum => "CAST(SUM(CASE WHEN t.settle_up=1 THEN -t.amount_cents WHEN t.amount_cents < 0 THEN -t.amount_cents ELSE 0 END) AS INTEGER)",
    }
}

pub open spec fn transfer_condition(p: CustomReportParams) -> Seq<char> {
    text_if(!p.include_transfers, " AND t.is_transfer = 0"@)
}

/// The joins of a report's query.
pub open spec fn joins_of(p: CustomReportParams) -> Seq<char> {
    report_join_of(
        split_plan_of(p.split_by, opt_string_view(p.interval)).1,
        needs_categories(p),
        p.group_ids@.len() > 0,
    )
}

/// The grouped query of a report that does not split by payee.
pub open spec fn report_sql_of(p: CustomReportParams, has_start: bool) -> Seq<char> {
    let plan = split_plan_of(p.split_by, opt_string_view(p.interval));
    "SELECT "@ + plan.0 + " AS label, "@ + total_expr_of(metric_kind_of(opt_string_view(p.metric)))
        + " AS total, COUNT(*) AS cnt FROM transactions t"@ + joins_of(p) + " WHERE 1=1"@
        + transfer_condition(p) + archived_clause_of(p) + filter_conditions_of(p, has_start)
        + " GROUP BY "@ + plan.2 + " ORDER BY total DESC, label ASC"@
}

/// The grouped query sorts its lines by total, largest first, and equal
/// totals by label; and unless transfers are asked for, neither query reads
/// a transaction flagged as a transfer.
pub proof fn law_report_queries_order_and_exclude_transfers(p: CustomReportParams, has_start: bool)
    ensures
        ({
            let sql = report_sql_of(p, has_start);
            let tail = " ORDER BY total DESC, label ASC"@;
            sql.len() >= tail.len() && sql.subrange(sql.len() - tail.len(), sql.len() as int) == tail
        }),
        !p.include_transfers ==> contains_seq(report_sql_of(p, has_start), " AND t.is_transfer = 0"@),
        !p.include_transfers ==> contains_seq(payee_sql_of(p, has_start), " AND t.is_transfer = 0"@),
{
    let plan = split_plan_of(p.split_by, opt_string_view(p.interval));
    let tail = " ORDER BY total DESC, label ASC"@;
    let head = "SELECT "@ + plan.0 + " AS label, "@ + total_expr_of(metric_kind_of(opt_string_view(p.metric)))
        + " AS total, COUNT(*) AS cnt FROM transactions t"@ + joins_of(p) + " WHERE 1=1"@;
    let tc = transfer_condition(p);
    let rest = archived_clause_of(p) + filter_conditions_of(p, has_start) + " GROUP BY "@ + plan.2;
    let sql = report_sql_of(p, has_start);
    assert(sql =~= head + tc + rest + tail);
    assert(sql.subrange(sql.len() - tail.len(), sql.len() as int) =~= tail);
    let phead = "SELECT t.merchant_raw, t.amount_cents, t.settle_up FROM transactions t"@ + joins_of(p)
        + " WHERE 1=1"@;
    let psql = payee_sql_of(p, has_start);
    assert(psql =~= phead + tc + filter_conditions_of(p, has_start));
    if !p.include_transfers {
        assert(tc == " AND t.is_transfer = 0"@);
        assert(sql.subrange(head.len() as int, (head.len() + tc.len()) as int) =~= tc);
        assert(occurs_at(sql, tc, head.len() as int));
        assert(psql.subrange(phead.len() as int, (phead.len() + tc.len()) as int) =~= tc);
        assert(occurs_at(psql, tc, phead.len() as int));
    }
}

/// The query that fetches the raw rows of a payee report.
pub open spec fn payee_sql_of(p: CustomReportParams, has_start: bool) -> Seq<char> {
    "SELECT t.merchant_raw, t.amount_cents, t.settle_up FROM transactions t"@ + joins_of(p) + " WHERE 1=1"@
        + transfer_condition(p) + filter_conditions_of(p, has_start)
}

fn push_archived(sql: &mut Vec<char>, p: &CustomReportParams)
    ensures
        final(sql)@ == old(sql)@ + archived_clause_of(*p),
{
    if !p.include_archived {
        match p.split_by {
            SplitBy::Category | SplitBy::Group | SplitBy::SpendingType => {
                push_str(sql, " AND (c.archived_at IS NULL OR c.id IS NULL)");
            },
            SplitBy::Account => {
                push_str(sql, " AND (a.archived_at IS NULL OR a.id IS NULL)");
            },
            _ => {},
        }
    }
    assert(sql@ =~= old(sql)@ + archived_clause_of(*p));
}

/// The grouped query of a report that does not split by payee, between the
/// period's start (if bounded) and its exclusive end, with its bound values.
pub fn report_query(p: &CustomReportParams, start: &Option<String>, end: &String) -> (r: (String, Vec<String>))
    ensures
        r.0@ == report_sql_of(*p, start is Some),
        texts_of(r.1@) == filter_binds_of(*p, opt_string_view(*start), end@),
{
    let plan = split_plan(p.split_by, &p.interval);
    let join = report_join(&plan.join_clause, p);
    let kind = metric_kind(&p.metric);
    let mut sql: Vec<char> = Vec::new();
    let mut binds: Vec<String> = Vec::new();
    push_str(&mut sql, "SELECT ");
    push_str(&mut sql, plan.select_label.as_str());
    push_str(&mut sql, " AS label, ");
    push_str(&mut sql, total_expr(kind));
    push_str(&mut sql, " AS total, COUNT(*) AS cnt FROM transactions t");
    push_str(&mut sql, join.as_str());
    push_str(&mut sql, " WHERE 1=1");
    if !p.include_transfers {
        push_str(&mut sql, " AND t.is_transfer = 0");
    }
    let ghost s0 = sql@;
    push_archived(&mut sql, p);
    push_filter_conditions(&mut sql, &mut binds, p, start, end);
    let ghost s1 = sql@;
    push_str(&mut sql, " GROUP BY ");
    push_str(&mut sql, plan.group_by.as_str());
    push_str(&mut sql, " ORDER BY total DESC, label ASC");
    assert(binds@ =~= binds@);
    assert(texts_of(binds@) =~= filter_binds_of(*p, opt_string_view(*start), end@));
    assert(sql@ =~= report_sql_of(*p, start is Some));
    (string_of(sql.as_slice()), binds)
}

/// The query that fetches a payee report's raw rows, with its bound values.
pub fn payee_query(p: &CustomReportParams, start: &Option<String>, end: &String) -> (r: (String, Vec<String>))
    ensures
        r.0@ == payee_sql_of(*p, start is Some),
        texts_of(r.1@) == filter_binds_of(*p, opt_string_view(*start), end@),
{
    let plan = split_plan(p.split_by, &p.interval);
    let join = report_join(&plan.join_clause, p);
    let mut sql: Vec<char> = Vec::new();
    let mut binds: Vec<String> = Vec::new();
    push_str(&mut sql, "SELECT t.merchant_raw, t.amount_cents, t.settle_up FROM transactions t");
    push_str(&mut sql, join.as_str());
    push_str(&mut sql, " WHERE 1=1");
    if !p.include_transfers {
        push_str(&mut sql, " AND t.is_transfer = 0");
    }
    push_filter_conditions(&mut sql, &mut binds, p, start, end);
    assert(texts_of(binds@) =~= filter_binds_of(*p, opt_string_view(*start), end@));
    assert(sql@ =~= payee_sql_of(*p, start is Some));
    (string_of(sql.as_slice()), binds)
}

/// Every running total of the report's figures, in order, fits in `i64`.
pub open spec fn report_rows_fit(rows: Seq<ReportRow>) -> bool {
    forall|k: int|
        0 <= k <= rows.len() ==> i64::MIN <= #[trigger] int_sum(report_totals(rows.take(k))) <= i64::MAX
}

/// A grouped report as the query returned its lines, with their total.
pub fn report_from_rows(rows: Vec<ReportRow>) -> (r: CustomReportResult)
    requires
        report_rows_fit(rows@),
    ensures
        r.rows == rows,
        r.total_cents == int_sum(report_totals(rows@)),
{
    let mut total: i64 = 0;
    let mut i: usize = 0;
    while i < rows.len()
        invariant
            i <= rows.len(),
            report_rows_fit(rows@),
            total == int_sum(report_totals(rows@.take(i as int))),
        decreases rows.len() - i,
    {
        assert(report_totals(rows@.take(i + 1)) =~= report_totals(rows@.take(i as int)).push(
            rows@[i as int].total_cents as int,
        ));
        assert(report_totals(rows@.take(i + 1)).drop_last() =~= report_totals(rows@.take(i as int)));
        assert(i64::MIN <= int_sum(report_totals(rows@.take(i + 1))) <= i64::MAX);
        total = total + rows[i].total_cents;
        i += 1;
    }
    assert(rows@.take(i as int) =~= rows@);
    CustomReportResult { rows, total_cents: total }
}

/// Whether the report's lines can be totalled within `i64`.
pub fn report_rows_in_range(rows: &Vec<ReportRow>) -> (r: bool)
    ensures
        r == report_rows_fit(rows@),
{
    let mut total: i64 = 0;
    let mut i: usize = 0;
    assert(report_totals(rows@.take(0)) =~= Seq::<int>::empty());
    while i < rows.len()
        invariant
            i <= rows.len(),
            total == int_sum(report_totals(rows@.take(i as int))),
            forall|k: int| 0 <= k <= i ==> i64::MIN <= #[trigger] int_sum(report_totals(rows@.take(k))) <= i64::MAX,
        decreases rows.len() - i,
    {
        assert(report_totals(rows@.take(i + 1)).drop_last() =~= report_totals(rows@.take(i as int)));
        assert(report_totals(rows@.take(i + 1)).last() == rows@[i as int].total_cents as int);
        match total.checked_add(rows[i].total_cents) {
            Some(t) => {
                total = t;
            },
            None => {
                assert(!(i64::MIN <= int_sum(report_totals(rows@.take((i + 1) as int))) <= i64::MAX));
                return false;
            },
        }
        i += 1;
    }
    assert(rows@.take(i as int) =~= rows@);
    true
}

/// `a` falls after `b`.
pub open spec fn date_after(a: (i32, u32, u32), b: (i32, u32, u32)) -> bool {
    a.0 > b.0 || (a.0 == b.0 && (a.1 > b.1 || (a.1 == b.1 && a.2 > b.2)))
}

/// The day a report's window is counted back from: the latest activity, or
/// today when there is none, and never later than today (so that a single
/// future-dated row does not slide the window forward).
pub open spec fn effective_anchor(anchor: Option<(i32, u32, u32)>, today: (i32, u32, u32)) -> (i32, u32, u32) {
    match anchor {
        Some(a) => if date_after(a, today) {
            today
        } else {
            a
        },
        None => today,
    }
}

pub open spec fn months_in(period: Period) -> int {
    match period {
        Period::Last1Month => 1,
        Period::Last3Months => 3,
        Period::Last6Months => 6,
        _ => 0,
    }
}

/// The period's inclusive start, as an RFC 3339 midnight: none for all
/// time, the anchor one, three or six months back, or the first of the
/// anchor's year.
pub open spec fn period_start_of(a: (i32, u32, u32), period: Period) -> Option<Seq<char>> {
    match period {
        Period::All => None,
        Period::YTD => Some(fmt_int(a.0 as int) + "-01-01"@ + "T00:00:00Z"@),
        _ => Some(ymd_text(months_back(a, months_in(period))) + "T00:00:00Z"@),
    }
}

/// The period's exclusive end: midnight after the anchor day.
pub open spec fn period_end_of(a: (i32, u32, u32)) -> Seq<char> {
    ymd_text(next_day(a)) + "T00:00:00Z"@
}

/// A report window over the last one, three or six months starts that many
/// calendar months before the anchor day, on the same day of the month or
/// on the last day of a shorter month; all time has no start.
pub proof fn law_report_window_starts(a: (i32, u32, u32), n: int)
    requires
        valid_date(a.0 as int, a.1 as int, a.2 as int),
    ensures
        period_start_of(a, Period::All) is None,
        period_start_of(a, Period::Last1Month) == Some(ymd_text(months_back(a, 1)) + "T00:00:00Z"@),
        period_start_of(a, Period::Last3Months) == Some(ymd_text(months_back(a, 3)) + "T00:00:00Z"@),
        period_start_of(a, Period::Last6Months) == Some(ymd_text(months_back(a, 6)) + "T00:00:00Z"@),
        ({
            let b = months_back(a, n);
            &&& b.0 * 12 + (b.1 - 1) == a.0 * 12 + (a.1 - 1) - n
            &&& 1 <= b.1 <= 12
            &&& 1 <= b.2 <= a.2
            &&& b.2 == a.2 || b.2 == month_length(b.0, b.1)
        }),
{
    let b = months_back(a, n);
    assert(1 <= month_length(b.0, b.1));
}

/// The dates the bounds are computed on lie in the calendar's range.
pub open spec fn period_in_range(a: (i32, u32, u32), period: Period) -> bool {
    &&& valid_date(next_day(a).0, next_day(a).1, next_day(a).2)
    &&& months_in(period) > 0 ==> valid_date(
        months_back(a, months_in(period)).0,
        months_back(a, months_in(period)).1,
        months_back(a, months_in(period)).2,
    )
}

pub open spec fn valid_opt_date(d: Option<(i32, u32, u32)>) -> bool {
    match d {
        Some(t) => valid_date(t.0 as int, t.1 as int, t.2 as int),
        None => true,
    }
}

/// The window of a report, given the date of the latest activity (if any)
/// and today's date.
pub fn period_bounds_from(anchor: Option<(i32, u32, u32)>, today: (i32, u32, u32), period: Period) -> (r: (
    Option<String>,
    String,
))
    requires
        valid_date(today.0 as int, today.1 as int, today.2 as int),
        valid_opt_date(anchor),
        period_in_range(effective_anchor(anchor, today), period),
    ensures
        opt_string_view(r.0) == period_start_of(effective_anchor(anchor, today), period),
        r.1@ == period_end_of(effective_anchor(anchor, today)),
{
    let a = match anchor {
        Some(d) => {
            if d.0 > today.0 || (d.0 == today.0 && (d.1 > today.1 || (d.1 == today.1 && d.2 > today.2))) {
                today
            } else {
                d
            }
        },
        None => today,
    };
    let next = add_one_day(a);
    let mut end: Vec<char> = Vec::new();
    push_str(&mut end, format_ymd(next).as_str());
    push_str(&mut end, "T00:00:00Z");
    let start = match period {
        Period::All => None,
        Period::YTD => {
            let mut v: Vec<char> = Vec::new();
            push_padded(a.0 as i64, 0, &mut v);
            push_str(&mut v, "-01-01");
            push_str(&mut v, "T00:00:00Z");
            Some(string_of(v.as_slice()))
        },
        _ => {
            let n: u32 = match period {
                Period::Last1Month => 1,
                Period::Last3Months => 3,
                _ => 6,
            };
            let back = sub_months(a, n);
            let mut v: Vec<char> = Vec::new();
            push_str(&mut v, format_ymd(back).as_str());
            push_str(&mut v, "T00:00:00Z");
            Some(string_of(v.as_slice()))
        },
    };
    (start, string_of(end.as_slice()))
}

/// The window of a report as of today's date in UTC, given the text of the
/// latest activity's date (if any). `None` where a bound would fall outside
/// the calendar's range, on which the date arithmetic cannot be done.
pub fn period_bounds(anchor_text: &Option<String>, period: Period) -> (r: Option<(Option<String>, String)>)
    ensures
        exists|today: (i32, u32, u32)|
            #![trigger valid_date(today.0 as int, today.1 as int, today.2 as int)]
            valid_date(today.0 as int, today.1 as int, today.2 as int) && {
                let anchor = match anchor_text {
                    Some(t) => iso_date_of(t@),
                    None => None,
                };
                let a = effective_anchor(anchor, today);
                match r {
                    Some(b) => {
                        &&& period_in_range(a, period)
                        &&& opt_string_view(b.0) == period_start_of(a, period)
                        &&& b.1@ == period_end_of(a)
                    },
                    None => !period_in_range(a, period),
                }
            },
{
    let today = today_utc();
    let anchor = match anchor_text {
        Some(t) => parse_iso_date(t.as_str()),
        None => None,
    };
    let a = match anchor {
        Some(d) => {
            if d.0 > today.0 || (d.0 == today.0 && (d.1 > today.1 || (d.1 == today.1 && d.2 > today.2))) {
                today
            } else {
                d
            }
        },
        None => today,
    };
    if !next_day_in_range(a) {
        return None;
    }
    let n: u32 = match period {
        Period::Last1Month => 1,
        Period::Last3Months => 3,
        Period::Last6Months => 6,
        _ => 0,
    };
    if n > 0 && !months_back_in_range(a, n) {
        return None;
    }
    Some(period_bounds_from(anchor, today, period))
}

/// Whether the day after `d` is in the calendar's range.
fn next_day_in_range(d: (i32, u32, u32)) -> (r: bool)
    requires
        valid_date(d.0 as int, d.1 as int, d.2 as int),
    ensures
        r == valid_date(next_day(d).0, next_day(d).1, next_day(d).2),
{
    !(d.0 == 262142 && d.1 == 12 && d.2 == 31)
}

/// Whether the date `n` months before `d` is in the calendar's range.
fn months_back_in_range(d: (i32, u32, u32), n: u32) -> (r: bool)
    requires
        valid_date(d.0 as int, d.1 as int, d.2 as int),
        n <= 12,
    ensures
        r == valid_date(months_back(d, n as int).0, months_back(d, n as int).1, months_back(d, n as int).2),
{
    let total: i64 = d.0 as i64 * 12 + (d.1 as i64 - 1) - n as i64;
    total >= -262143 * 12
}

} // verus!
