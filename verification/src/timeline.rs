//! Account balance series: the deduplicated balance history, per-account
//! sparklines, and the reconstruction of an account's balance curve from its
//! anchor and its cleared activity.

use vstd::prelude::*;
use crate::text::{chars_eq, chars_eq_str, chars_lt, chars_of, seq_lt, string_of};

verus! {

/// An account's balance at the end of a day.
#[derive(Debug, Clone)]
pub struct AccountBalancePoint {
    pub date: String,
    pub balance_cents: i64,
}

pub open spec fn pt(p: AccountBalancePoint) -> (Seq<char>, int) {
    (p.date@, p.balance_cents as int)
}

pub open spec fn pts(s: Seq<AccountBalancePoint>) -> Seq<(Seq<char>, int)> {
    Seq::new(s.len(), |i: int| pt(s[i]))
}

pub open spec fn row_view(r: (String, i64)) -> (Seq<char>, int) {
    (r.0@, r.1 as int)
}

pub open spec fn rows_view(s: Seq<(String, i64)>) -> Seq<(Seq<char>, int)> {
    Seq::new(s.len(), |i: int| row_view(s[i]))
}

fn point(date: &String, balance_cents: i64) -> (p: AccountBalancePoint)
    ensures
        pt(p) == (date@, balance_cents as int),
{
    AccountBalancePoint { date: date.clone(), balance_cents }
}

/// Keep the first row of each run of rows sharing a date (rows arrive sorted
/// by date and by source precedence, so this keeps the preferred source).
pub open spec fn first_per_date(rows: Seq<(Seq<char>, int)>) -> Seq<(Seq<char>, int)>
    decreases rows.len(),
{
    if rows.len() == 0 {
        Seq::empty()
    } else {
        let prev = first_per_date(rows.drop_last());
        if prev.len() > 0 && prev.last().0 == rows.last().0 {
            prev
        } else {
            prev.push(rows.last())
        }
    }
}

/// The balance history of an account from rows ordered by date and source
/// precedence: one point per date, the first row's.
pub fn dedup_balance_history(rows: &Vec<(String, i64)>) -> (out: Vec<AccountBalancePoint>)
    ensures
        pts(out@) == first_per_date(rows_view(rows@)),
{
    let mut out: Vec<AccountBalancePoint> = Vec::new();
    let mut i: usize = 0;
    while i < rows.len()
        invariant
            i <= rows.len(),
            pts(out@) == first_per_date(rows_view(rows@.subrange(0, i as int))),
        decreases rows.len() - i,
    {
        let ghost pre = rows_view(rows@.subrange(0, i as int));
        let ghost next = rows_view(rows@.subrange(0, i + 1));
        assert(next.drop_last() =~= pre);
        let (date, bal) = (&rows[i].0, rows[i].1);
        let dup = if out.len() > 0 {
            let dv = chars_of(out[out.len() - 1].date.as_str());
            let nv = chars_of(date.as_str());
            chars_eq(&dv, &nv)
        } else {
            false
        };
        if !dup {
            out.push(point(date, bal));
            assert(pts(out@) =~= first_per_date(next));
        } else {
            assert(pts(out@) =~= first_per_date(next));
        }
        i += 1;
    }
    assert(rows@.subrange(0, rows.len() as int) =~= rows@);
    out
}

} // verus!

verus! {

/// An account's recent balance points.
#[derive(Debug, Clone)]
pub struct AccountSparkline {
    pub account_id: String,
    pub points: Vec<AccountBalancePoint>,
}

pub open spec fn spark(s: AccountSparkline) -> (Seq<char>, Seq<(Seq<char>, int)>) {
    (s.account_id@, pts(s.points@))
}

pub open spec fn sparks(s: Seq<AccountSparkline>) -> Seq<(Seq<char>, Seq<(Seq<char>, int)>)> {
    Seq::new(s.len(), |i: int| spark(s[i]))
}

/// A joined (account, date, balance) row: its point, if it has one.
pub open spec fn spark_row(r: (String, Option<String>, Option<i64>)) -> (Seq<char>, Option<(Seq<char>, int)>) {
    (r.0@, match (r.1, r.2) {
        (Some(d), Some(b)) => Some((d@, b as int)),
        _ => None,
    })
}

pub open spec fn spark_rows(s: Seq<(String, Option<String>, Option<i64>)>) -> Seq<(Seq<char>, Option<(Seq<char>, int)>)> {
    Seq::new(s.len(), |i: int| spark_row(s[i]))
}

/// One series per account, in row order; each series keeps the first point
/// of each date; an account with no point in the window still gets an empty
/// series.
pub open spec fn group_sparklines(rows: Seq<(Seq<char>, Option<(Seq<char>, int)>)>) -> Seq<(Seq<char>, Seq<(Seq<char>, int)>)>
    decreases rows.len(),
{
    if rows.len() == 0 {
        Seq::empty()
    } else {
        let prev = group_sparklines(rows.drop_last());
        let acct = rows.last().0;
        let same = prev.len() > 0 && prev.last().0 == acct;
        match rows.last().1 {
            Some(p) => if same {
                let s = prev.last();
                if s.1.len() > 0 && s.1.last().0 == p.0 {
                    prev
                } else {
                    prev.update(prev.len() - 1, (acct, s.1.push(p)))
                }
            } else {
                prev.push((acct, seq![p]))
            },
            None => if same {
                prev
            } else {
                prev.push((acct, Seq::empty()))
            },
        }
    }
}

fn str_eq(a: &String, b: &String) -> (r: bool)
    ensures
        r == (a@ == b@),
{
    let av = chars_of(a.as_str());
    let bv = chars_of(b.as_str());
    chars_eq(&av, &bv)
}

/// Sparkline series for every account from rows ordered by account, date
/// and source precedence.
pub fn build_sparklines(rows: &Vec<(String, Option<String>, Option<i64>)>) -> (out: Vec<AccountSparkline>)
    ensures
        sparks(out@) == group_sparklines(spark_rows(rows@)),
{
    let mut out: Vec<AccountSparkline> = Vec::new();
    let mut i: usize = 0;
    while i < rows.len()
        invariant
            i <= rows.len(),
            sparks(out@) == group_sparklines(spark_rows(rows@.subrange(0, i as int))),
        decreases rows.len() - i,
    {
        let ghost pre = spark_rows(rows@.subrange(0, i as int));
        let ghost next = spark_rows(rows@.subrange(0, i + 1));
        assert(next.drop_last() =~= pre);
        assert(next.last() == spark_row(rows@[i as int]));
        let acct = &rows[i].0;
        let ghost prev_sp = sparks(out@);
        let same = out.len() > 0 && str_eq(&out[out.len() - 1].account_id, acct);
        assert(same == (prev_sp.len() > 0 && prev_sp.last().0 == acct@));
        assert(group_sparklines(pre) == prev_sp);
        match (&rows[i].1, &rows[i].2) {
            (Some(d), Some(b)) => {
                let ghost p = (d@, *b as int);
                assert(next.last().1 == Some(p));
                if same {
                    let mut s = out.pop().unwrap();
                    assert(spark(s) == prev_sp.last());
                    assert(sparks(out@) =~= prev_sp.drop_last());
                    let ghost before = pts(s.points@);
                    let dup = s.points.len() > 0 && str_eq(&s.points[s.points.len() - 1].date, d);
                    assert(dup == (before.len() > 0 && before.last().0 == p.0));
                    if !dup {
                        s.points.push(point(d, *b));
                        assert(pts(s.points@) =~= before.push(p));
                        assert(group_sparklines(next) == prev_sp.update(
                            prev_sp.len() - 1,
                            (acct@, before.push(p)),
                        ));
                    } else {
                        assert(group_sparklines(next) == prev_sp);
                    }
                    let ghost ns = spark(s);
                    out.push(s);
                    assert(sparks(out@) =~= prev_sp.drop_last().push(ns));
                    assert(sparks(out@) =~= group_sparklines(next));
                } else {
                    let mut ps: Vec<AccountBalancePoint> = Vec::new();
                    ps.push(point(d, *b));
                    assert(pts(ps@) =~= seq![p]);
                    out.push(AccountSparkline { account_id: acct.clone(), points: ps });
                    assert(sparks(out@) =~= group_sparklines(next));
                }
            },
            _ => {
                assert(next.last().1 is None);
                if !same {
                    let ps: Vec<AccountBalancePoint> = Vec::new();
                    assert(pts(ps@) =~= Seq::<(Seq<char>, int)>::empty());
                    out.push(AccountSparkline { account_id: acct.clone(), points: ps });
                }
                assert(sparks(out@) =~= group_sparklines(next));
            },
        }
        i += 1;
    }
    assert(rows@.subrange(0, rows.len() as int) =~= rows@);
    out
}

} // verus!

verus! {

/// The earliest recorded balance of an account: the opening its derived
/// balance builds on. When that opening is the creation seed, it stands
/// before all history and every cleared transaction folds onto it.
#[derive(Debug, Clone)]
pub struct OpeningAnchor {
    pub balance_cents: i64,
    pub date: String,
    pub fold_all_activity: bool,
}

/// The point a reconstructed curve is pinned to: the latest confirmed balance
/// if there is one, else the opening.
#[derive(Debug, Clone)]
pub struct CurveAnchor {
    pub balance_cents: i64,
    pub date: String,
    pub fold_all_activity: bool,
    pub confirmed: bool,
}

/// The opening from the earliest balance row `(balance, date, source)`; an
/// account with none opens at zero on 1970-01-01.
pub fn opening_anchor(earliest: Option<(i64, String, Option<String>)>) -> (r: OpeningAnchor)
    ensures
        match earliest {
            Some((b, d, src)) => r.balance_cents == b && r.date@ == d@ && r.fold_all_activity
                == (match src {
                Some(s) => s@ == "seed"@,
                None => false,
            }),
            None => r.balance_cents == 0 && r.date@ == "1970-01-01"@ && !r.fold_all_activity,
        },
{
    match earliest {
        Some((b, d, src)) => {
            let fold = match &src {
                Some(s) => chars_eq_str(&chars_of(s.as_str()), "seed"),
                None => false,
            };
            OpeningAnchor { balance_cents: b, date: d, fold_all_activity: fold }
        },
        None => OpeningAnchor {
            balance_cents: 0,
            date: string_of(chars_of("1970-01-01").as_slice()),
            fold_all_activity: false,
        },
    }
}

/// The curve's anchor: the latest confirmed `(balance, date)` when one
/// exists (activity after it folds on), else the opening.
pub fn curve_anchor(confirmed: Option<(i64, String)>, opening: OpeningAnchor) -> (r: CurveAnchor)
    ensures
        match confirmed {
            Some((b, d)) => r.balance_cents == b && r.date@ == d@ && !r.fold_all_activity
                && r.confirmed,
            None => r.balance_cents == opening.balance_cents && r.date@ == opening.date@
                && r.fold_all_activity == opening.fold_all_activity && !r.confirmed,
        },
{
    match confirmed {
        Some((b, d)) => CurveAnchor { balance_cents: b, date: d, fold_all_activity: false, confirmed: true },
        None => CurveAnchor {
            balance_cents: opening.balance_cents,
            date: opening.date,
            fold_all_activity: opening.fold_all_activity,
            confirmed: false,
        },
    }
}

/// Sum of the movements of days on or before `date`.
pub open spec fn sum_through(deltas: Seq<(Seq<char>, int)>, date: Seq<char>) -> int
    decreases deltas.len(),
{
    if deltas.len() == 0 {
        0
    } else {
        sum_through(deltas.drop_last(), date) + if !seq_lt(date, deltas.last().0) {
            deltas.last().1
        } else {
            0
        }
    }
}

/// Sum of all movements.
pub open spec fn sum_all(deltas: Seq<(Seq<char>, int)>) -> int
    decreases deltas.len(),
{
    if deltas.len() == 0 {
        0
    } else {
        sum_all(deltas.drop_last()) + deltas.last().1
    }
}

/// The balance before any activity, chosen so the curve passes through the
/// anchor: the anchor less everything dated on or before it (nothing, for a
/// creation seed).
pub open spec fn curve_base(anchor_balance: int, fold_all: bool, anchor_date: Seq<char>, deltas: Seq<(Seq<char>, int)>) -> int {
    if fold_all {
        anchor_balance
    } else {
        anchor_balance - sum_through(deltas, anchor_date)
    }
}

/// End-of-day points: the starting point, then one point per activity day
/// carrying the running balance; activity on the last point's own date
/// updates that point.
pub open spec fn curve_points(start: Seq<char>, base: int, deltas: Seq<(Seq<char>, int)>) -> Seq<(Seq<char>, int)>
    decreases deltas.len(),
{
    if deltas.len() == 0 {
        seq![(start, base)]
    } else {
        let prev = curve_points(start, base, deltas.drop_last());
        let running = prev.last().1 + deltas.last().1;
        if prev.last().0 == deltas.last().0 {
            prev.update(prev.len() - 1, (deltas.last().0, running))
        } else {
            prev.push((deltas.last().0, running))
        }
    }
}

pub proof fn lemma_curve_points(start: Seq<char>, base: int, deltas: Seq<(Seq<char>, int)>)
    ensures
        curve_points(start, base, deltas).len() >= 1,
        curve_points(start, base, deltas).last().1 == base + sum_all(deltas),
    decreases deltas.len(),
{
    if deltas.len() > 0 {
        lemma_curve_points(start, base, deltas.drop_last());
    }
}

/// Every running total the reconstruction computes fits in an `i64`.
pub open spec fn curve_fits(anchor_balance: int, fold_all: bool, anchor_date: Seq<char>, deltas: Seq<(Seq<char>, int)>) -> bool {
    &&& !fold_all ==> forall|k: int|
        0 <= k <= deltas.len() ==> i64::MIN <= #[trigger] sum_through(deltas.subrange(0, k), anchor_date) <= i64::MAX
    &&& i64::MIN <= curve_base(anchor_balance, fold_all, anchor_date, deltas) <= i64::MAX
    &&& forall|k: int| 0 <= k <= deltas.len() ==> i64::MIN <= curve_base(anchor_balance, fold_all, anchor_date, deltas) + #[trigger] sum_all(deltas.subrange(0, k)) <= i64::MAX
}

fn date_lt(a: &String, b: &String) -> (r: bool)
    ensures
        r == seq_lt(a@, b@),
{
    chars_lt(&chars_of(a.as_str()), &chars_of(b.as_str()))
}

fn date_lt_str(a: &String, b: &str) -> (r: bool)
    ensures
        r == seq_lt(a@, b@),
{
    chars_lt(&chars_of(a.as_str()), &chars_of(b))
}

/// The whole reconstructed curve of an account, from `curve_start` (the day
/// before its earliest activity, or the anchor date) through every cleared
/// activity day.
pub fn curve(anchor: &CurveAnchor, deltas: &Vec<(String, i64)>, curve_start: String) -> (out: Vec<AccountBalancePoint>)
    requires
        curve_fits(anchor.balance_cents as int, anchor.fold_all_activity, anchor.date@, rows_view(deltas@)),
    ensures
        pts(out@) == curve_points(
            curve_start@,
            curve_base(anchor.balance_cents as int, anchor.fold_all_activity, anchor.date@, rows_view(deltas@)),
            rows_view(deltas@),
        ),
{
    let ghost dv = rows_view(deltas@);
    let mut offset: i64 = 0;
    if !anchor.fold_all_activity {
        let mut i: usize = 0;
        assert(dv.subrange(0, 0) =~= Seq::<(Seq<char>, int)>::empty());
        while i < deltas.len()
            invariant
                i <= deltas.len(),
                !anchor.fold_all_activity,
                dv == rows_view(deltas@),
                curve_fits(anchor.balance_cents as int, anchor.fold_all_activity, anchor.date@, dv),
                offset == sum_through(dv.subrange(0, i as int), anchor.date@),
            decreases deltas.len() - i,
        {
            assert(dv.subrange(0, i + 1).drop_last() =~= dv.subrange(0, i as int));
            assert(dv.subrange(0, i + 1).last() == dv[i as int]);
            let ghost nxt = sum_through(dv.subrange(0, i + 1), anchor.date@);
            assert(i64::MIN <= nxt <= i64::MAX);
            if !date_lt(&anchor.date, &deltas[i].0) {
                offset = offset + deltas[i].1;
            }
            i += 1;
        }
        assert(dv.subrange(0, deltas.len() as int) =~= dv);
    }
    let base: i64 = anchor.balance_cents - offset;
    let mut out: Vec<AccountBalancePoint> = Vec::new();
    out.push(point(&curve_start, base));
    let mut running: i64 = base;
    let mut j: usize = 0;
    assert(pts(out@) =~= curve_points(curve_start@, base as int, dv.subrange(0, 0)));
    while j < deltas.len()
        invariant
            j <= deltas.len(),
            dv == rows_view(deltas@),
            curve_fits(anchor.balance_cents as int, anchor.fold_all_activity, anchor.date@, dv),
            base == curve_base(anchor.balance_cents as int, anchor.fold_all_activity, anchor.date@, dv),
            pts(out@) == curve_points(curve_start@, base as int, dv.subrange(0, j as int)),
            running == base + sum_all(dv.subrange(0, j as int)),
            out@.len() >= 1,
        decreases deltas.len() - j,
    {
        let ghost pre = dv.subrange(0, j as int);
        let ghost nxt = dv.subrange(0, j + 1);
        assert(nxt.drop_last() =~= pre);
        assert(nxt.last() == dv[j as int]);
        proof {
            lemma_curve_points(curve_start@, base as int, pre);
        }
        assert(i64::MIN <= base + sum_all(nxt) <= i64::MAX);
        running = running + deltas[j].1;
        let last = out.len() - 1;
        if str_eq(&out[last].date, &deltas[j].0) {
            let mut p = out.pop().unwrap();
            p.balance_cents = running;
            out.push(p);
        } else {
            out.push(point(&deltas[j].0, running));
        }
        assert(pts(out@) =~= curve_points(curve_start@, base as int, nxt));
        j += 1;
    }
    assert(dv.subrange(0, deltas.len() as int) =~= dv);
    out
}

/// Whether every running total of the reconstruction fits in an `i64`, so
/// that the curve can be drawn.
pub fn curve_in_range(anchor: &CurveAnchor, deltas: &Vec<(String, i64)>) -> (r: bool)
    ensures
        r == curve_fits(anchor.balance_cents as int, anchor.fold_all_activity, anchor.date@, rows_view(deltas@)),
{
    let ghost dv = rows_view(deltas@);
    let ghost ad = anchor.date@;
    let mut offset: i64 = 0;
    if !anchor.fold_all_activity {
        let mut i: usize = 0;
        assert(dv.subrange(0, 0) =~= Seq::<(Seq<char>, int)>::empty());
        while i < deltas.len()
            invariant
                i <= deltas.len(),
                !anchor.fold_all_activity,
                dv == rows_view(deltas@),
                ad == anchor.date@,
                offset == sum_through(dv.subrange(0, i as int), ad),
                forall|k: int| 0 <= k <= i ==> i64::MIN <= #[trigger] sum_through(dv.subrange(0, k), ad) <= i64::MAX,
            decreases deltas.len() - i,
        {
            assert(dv.subrange(0, i + 1).drop_last() =~= dv.subrange(0, i as int));
            assert(dv.subrange(0, i + 1).last() == dv[i as int]);
            let next: i128 = if !date_lt(&anchor.date, &deltas[i].0) {
                offset as i128 + deltas[i].1 as i128
            } else {
                offset as i128
            };
            assert(next == sum_through(dv.subrange(0, i + 1), ad));
            if next < i64::MIN as i128 || next > i64::MAX as i128 {
                assert(!(i64::MIN <= sum_through(dv.subrange(0, (i + 1) as int), ad) <= i64::MAX));
                return false;
            }
            offset = next as i64;
            i += 1;
        }
        assert(dv.subrange(0, deltas.len() as int) =~= dv);
    }
    let base_wide: i128 = anchor.balance_cents as i128 - offset as i128;
    if base_wide < i64::MIN as i128 || base_wide > i64::MAX as i128 {
        return false;
    }
    let ghost base_spec = curve_base(anchor.balance_cents as int, anchor.fold_all_activity, ad, dv);
    assert(base_wide == base_spec);
    let base = base_wide as i64;
    let mut running: i64 = base;
    let mut j: usize = 0;
    assert(dv.subrange(0, 0) =~= Seq::<(Seq<char>, int)>::empty());
    while j < deltas.len()
        invariant
            j <= deltas.len(),
            dv == rows_view(deltas@),
            ad == anchor.date@,
            base_spec == curve_base(anchor.balance_cents as int, anchor.fold_all_activity, ad, dv),
            base == base_spec,
            running == base + sum_all(dv.subrange(0, j as int)),
            forall|k: int| 0 <= k <= j ==> i64::MIN <= base_spec + #[trigger] sum_all(dv.subrange(0, k)) <= i64::MAX,
        decreases deltas.len() - j,
    {
        assert(dv.subrange(0, j + 1).drop_last() =~= dv.subrange(0, j as int));
        assert(dv.subrange(0, j + 1).last() == dv[j as int]);
        let next: i128 = running as i128 + deltas[j].1 as i128;
        assert(next == base + sum_all(dv.subrange(0, j + 1)));
        if next < i64::MIN as i128 || next > i64::MAX as i128 {
            assert(!(i64::MIN <= base_spec + sum_all(dv.subrange(0, (j + 1) as int)) <= i64::MAX));
            return false;
        }
        running = next as i64;
        j += 1;
    }
    assert(dv.subrange(0, deltas.len() as int) =~= dv);
    true
}

/// The points of a window opening on `since`: every point dated on or after
/// it, led by a carried-in point on `since` itself (the balance of the last
/// point before it) unless the window already opens on that date.
pub open spec fn window_split(points: Seq<(Seq<char>, int)>, since: Seq<char>) -> (Option<int>, Seq<(Seq<char>, int)>)
    decreases points.len(),
{
    if points.len() == 0 {
        (None, Seq::empty())
    } else {
        let (c, k) = window_split(points.drop_last(), since);
        let p = points.last();
        if seq_lt(p.0, since) {
            (Some(p.1), k)
        } else {
            (c, k.push(p))
        }
    }
}

pub open spec fn windowed(points: Seq<(Seq<char>, int)>, since: Seq<char>) -> Seq<(Seq<char>, int)> {
    let (c, k) = window_split(points, since);
    match c {
        Some(b) => if k.len() == 0 || k[0].0 != since {
            seq![(since, b)] + k
        } else {
            k
        },
        None => k,
    }
}

/// Dates never go backwards along the points.
pub open spec fn dates_ascending(points: Seq<(Seq<char>, int)>) -> bool {
    forall|i: int, j: int| 0 <= i < j < points.len() ==> !seq_lt(#[trigger] points[j].0, #[trigger] points[i].0)
}

proof fn lemma_window_all_before(points: Seq<(Seq<char>, int)>, since: Seq<char>)
    requires
        points.len() > 0,
        dates_ascending(points),
        seq_lt(points.last().0, since),
    ensures
        window_split(points, since).1.len() == 0,
        window_split(points, since).0 == Some(points.last().1),
    decreases points.len(),
{
    let prev = points.drop_last();
    if prev.len() > 0 {
        let d = prev.last().0;
        let l = points.last().0;
        assert(prev.last() == points[points.len() - 2]);
        assert(!seq_lt(l, d));
        if d != l {
            crate::text::lemma_seq_lt_total(d, l);
            crate::text::lemma_seq_lt_transitive(d, l, since);
        }
        assert(dates_ascending(prev)) by {
            assert forall|i: int, j: int| 0 <= i < j < prev.len() implies !seq_lt(
                #[trigger] prev[j].0,
                #[trigger] prev[i].0,
            ) by {
                assert(prev[i] == points[i] && prev[j] == points[j]);
            }
        }
        lemma_window_all_before(prev, since);
    }
    assert(window_split(points, since) == (Some(points.last().1), window_split(prev, since).1));
}

/// Windowing never restarts the arithmetic: a window of a non-empty curve
/// ends on the balance the whole curve ends on, whatever day it opens.
pub proof fn law_window_keeps_final_balance(points: Seq<(Seq<char>, int)>, since: Seq<char>)
    requires
        points.len() > 0,
        dates_ascending(points),
    ensures
        windowed(points, since).len() > 0,
        windowed(points, since).last().1 == points.last().1,
{
    let (c, k) = window_split(points, since);
    if seq_lt(points.last().0, since) {
        lemma_window_all_before(points, since);
        assert(windowed(points, since) =~= seq![(since, points.last().1)]);
    } else {
        assert(k.len() > 0 && k.last() == points.last());
        match c {
            Some(b) => {
                if k[0].0 != since {
                    let w = seq![(since, b)] + k;
                    assert(w.last() == k.last());
                }
            },
            None => {},
        }
    }
}

/// Dates strictly increase along the points: no date appears twice.
pub open spec fn dates_increasing(points: Seq<(Seq<char>, int)>) -> bool {
    forall|i: int, j: int| 0 <= i < j < points.len() ==> seq_lt(#[trigger] points[i].0, #[trigger] points[j].0)
}

/// The points a window keeps are points of the curve, dated on or after
/// `since`, in the curve's order.
proof fn lemma_window_kept(points: Seq<(Seq<char>, int)>, since: Seq<char>)
    requires
        dates_increasing(points),
    ensures
        forall|i: int|
            0 <= i < window_split(points, since).1.len() ==> !seq_lt(
                (#[trigger] window_split(points, since).1[i]).0,
                since,
            ),
        forall|i: int|
            0 <= i < window_split(points, since).1.len() ==> exists|j: int|
                0 <= j < points.len() && #[trigger] window_split(points, since).1[i] == points[j],
        dates_increasing(window_split(points, since).1),
    decreases points.len(),
{
    if points.len() > 0 {
        let prev = points.drop_last();
        assert(dates_increasing(prev)) by {
            assert forall|i: int, j: int| 0 <= i < j < prev.len() implies seq_lt(
                #[trigger] prev[i].0,
                #[trigger] prev[j].0,
            ) by {
                assert(prev[i] == points[i] && prev[j] == points[j]);
            }
        }
        lemma_window_kept(prev, since);
        let k = window_split(prev, since).1;
        let p = points.last();
        assert forall|i: int| 0 <= i < k.len() implies exists|j: int|
            0 <= j < points.len() && #[trigger] k[i] == points[j] by {
            let j = choose|j: int| 0 <= j < prev.len() && k[i] == prev[j];
            assert(prev[j] == points[j]);
        }
        if !seq_lt(p.0, since) {
            let k2 = k.push(p);
            assert(window_split(points, since).1 == k2);
            assert forall|i: int, j: int| 0 <= i < j < k2.len() implies seq_lt(
                #[trigger] k2[i].0,
                #[trigger] k2[j].0,
            ) by {
                if j == k.len() {
                    let jj = choose|jj: int| 0 <= jj < prev.len() && k[i] == prev[jj];
                    assert(prev[jj] == points[jj]);
                    assert(p == points[points.len() - 1]);
                } else {
                    assert(k2[i] == k[i] && k2[j] == k[j]);
                }
            }
            assert forall|i: int| 0 <= i < k2.len() implies exists|j: int|
                0 <= j < points.len() && #[trigger] k2[i] == points[j] by {
                if i == k.len() {
                    assert(k2[i] == points[points.len() - 1]);
                } else {
                    assert(k2[i] == k[i]);
                }
            }
        }
    }
}

/// A window never shows a date twice: when the curve's dates strictly
/// increase, so do the window's, the carried-in opening point included; and
/// no point of the window is dated before it opens.
pub proof fn law_window_dates_increase(points: Seq<(Seq<char>, int)>, since: Seq<char>)
    requires
        dates_increasing(points),
    ensures
        dates_increasing(windowed(points, since)),
        forall|i: int|
            0 <= i < windowed(points, since).len() ==> !seq_lt((#[trigger] windowed(points, since)[i]).0, since),
{
    lemma_window_kept(points, since);
    crate::text::lemma_seq_lt_irreflexive(since);
    let (c, k) = window_split(points, since);
    assert forall|i: int| 0 <= i < windowed(points, since).len() implies !seq_lt(
        (#[trigger] windowed(points, since)[i]).0,
        since,
    ) by {
        if c is Some && (k.len() == 0 || k[0].0 != since) {
            let w = seq![(since, c->0)] + k;
            assert(windowed(points, since) == w);
            if i > 0 {
                assert(w[i] == k[i - 1]);
            }
        }
    }
    if c is Some && (k.len() == 0 || k[0].0 != since) {
        let w = seq![(since, c->0)] + k;
        assert(windowed(points, since) == w);
        if k.len() > 0 {
            assert(!seq_lt(k[0].0, since));
            crate::text::lemma_seq_lt_total(k[0].0, since);
        }
        assert forall|i: int, j: int| 0 <= i < j < w.len() implies seq_lt(#[trigger] w[i].0, #[trigger] w[j].0) by {
            assert(w[j] == k[j - 1]);
            if i == 0 {
                if j > 1 {
                    crate::text::lemma_seq_lt_transitive(since, k[0].0, k[j - 1].0);
                }
            } else {
                assert(w[i] == k[i - 1]);
            }
        }
    }
}

/// Trims a curve to the window opening on `since`.
pub fn window_points(points: Vec<AccountBalancePoint>, since: &str) -> (out: Vec<AccountBalancePoint>)
    ensures
        pts(out@) == windowed(pts(points@), since@),
{
    let ghost pv = pts(points@);
    let mut carried: Option<i64> = None;
    let mut kept: Vec<AccountBalancePoint> = Vec::new();
    let mut i: usize = 0;
    while i < points.len()
        invariant
            i <= points.len(),
            pv == pts(points@),
            window_split(pv.subrange(0, i as int), since@) == (match carried {
                Some(b) => Some(b as int),
                None => None::<int>,
            }, pts(kept@)),
        decreases points.len() - i,
    {
        assert(pv.subrange(0, i + 1).drop_last() =~= pv.subrange(0, i as int));
        assert(pv.subrange(0, i + 1).last() == pt(points@[i as int]));
        if date_lt_str(&points[i].date, since) {
            carried = Some(points[i].balance_cents);
        } else {
            let p = point(&points[i].date, points[i].balance_cents);
            kept.push(p);
            assert(pts(kept@) =~= pts(kept@.drop_last()).push(pt(p)));
        }
        i += 1;
    }
    assert(pv.subrange(0, points.len() as int) =~= pv);
    match carried {
        Some(b) => {
            let opens_on_since = kept.len() > 0 && chars_eq_str(&chars_of(kept[0].date.as_str()), since);
            if !opens_on_since {
                let mut out: Vec<AccountBalancePoint> = Vec::new();
                out.push(AccountBalancePoint {
                    date: string_of(chars_of(since).as_slice()),
                    balance_cents: b,
                });
                let mut j: usize = 0;
                let ghost kv = pts(kept@);
                while j < kept.len()
                    invariant
                        j <= kept.len(),
                        kv == pts(kept@),
                        pts(out@) == seq![(since@, b as int)] + kv.subrange(0, j as int),
                    decreases kept.len() - j,
                {
                    let p = point(&kept[j].date, kept[j].balance_cents);
                    assert(pt(p) == kv[j as int]);
                    let ghost before = pts(out@);
                    out.push(p);
                    assert(pts(out@) =~= before.push(pt(p)));
                    j += 1;
                    assert(pts(out@) =~= seq![(since@, b as int)] + kv.subrange(0, j as int));
                }
                assert(kv.subrange(0, kept.len() as int) =~= kv);
                out
            } else {
                kept
            }
        },
        None => kept,
    }
}

pub open spec fn bal_of(p: (Seq<char>, int)) -> int {
    p.1
}

/// The first highest and first lowest points.
pub open spec fn peak_of(points: Seq<(Seq<char>, int)>) -> Option<(Seq<char>, int)>
    decreases points.len(),
{
    if points.len() == 0 {
        None
    } else {
        let prev = peak_of(points.drop_last());
        if prev is None || points.last().1 > bal_of(prev->0) {
            Some(points.last())
        } else {
            prev
        }
    }
}

pub open spec fn trough_of(points: Seq<(Seq<char>, int)>) -> Option<(Seq<char>, int)>
    decreases points.len(),
{
    if points.len() == 0 {
        None
    } else {
        let prev = trough_of(points.drop_last());
        if prev is None || points.last().1 < bal_of(prev->0) {
            Some(points.last())
        } else {
            prev
        }
    }
}

/// Where the first highest point sits.
pub open spec fn peak_index(points: Seq<(Seq<char>, int)>) -> int
    decreases points.len(),
{
    if points.len() <= 1 {
        0
    } else {
        let k = peak_index(points.drop_last());
        if points.last().1 > points[k].1 {
            points.len() - 1
        } else {
            k
        }
    }
}

/// Where the first lowest point sits.
pub open spec fn trough_index(points: Seq<(Seq<char>, int)>) -> int
    decreases points.len(),
{
    if points.len() <= 1 {
        0
    } else {
        let k = trough_index(points.drop_last());
        if points.last().1 < points[k].1 {
            points.len() - 1
        } else {
            k
        }
    }
}

/// The peak is the earliest of the highest points and the trough the
/// earliest of the lowest: no point is higher (lower), and every point
/// before it is strictly lower (higher).
pub proof fn law_peak_and_trough_are_first_extremes(points: Seq<(Seq<char>, int)>)
    requires
        points.len() > 0,
    ensures
        0 <= peak_index(points) < points.len(),
        peak_of(points) == Some(points[peak_index(points)]),
        forall|i: int| 0 <= i < points.len() ==> (#[trigger] points[i]).1 <= points[peak_index(points)].1,
        forall|i: int| 0 <= i < peak_index(points) ==> (#[trigger] points[i]).1 < points[peak_index(points)].1,
        0 <= trough_index(points) < points.len(),
        trough_of(points) == Some(points[trough_index(points)]),
        forall|i: int| 0 <= i < points.len() ==> (#[trigger] points[i]).1 >= points[trough_index(points)].1,
        forall|i: int|
            0 <= i < trough_index(points) ==> (#[trigger] points[i]).1 > points[trough_index(points)].1,
    decreases points.len(),
{
    if points.len() == 1 {
        assert(points.drop_last() =~= Seq::<(Seq<char>, int)>::empty());
    } else {
        let pre = points.drop_last();
        law_peak_and_trough_are_first_extremes(pre);
        assert forall|i: int| 0 <= i < pre.len() implies #[trigger] pre[i] == points[i] by {}
        assert(pre[peak_index(pre)] == points[peak_index(pre)]);
        assert(pre[trough_index(pre)] == points[trough_index(pre)]);
        assert forall|i: int| 0 <= i < points.len() implies (#[trigger] points[i]).1 <= points[peak_index(points)].1 by {
            if i < pre.len() {
                assert(pre[i] == points[i]);
            }
        }
        assert forall|i: int| 0 <= i < peak_index(points) implies (#[trigger] points[i]).1 < points[peak_index(points)].1 by {
            assert(pre[i] == points[i]);
        }
        assert forall|i: int| 0 <= i < points.len() implies (#[trigger] points[i]).1 >= points[trough_index(points)].1 by {
            if i < pre.len() {
                assert(pre[i] == points[i]);
            }
        }
        assert forall|i: int| 0 <= i < trough_index(points) implies (#[trigger] points[i]).1 > points[trough_index(points)].1 by {
            assert(pre[i] == points[i]);
        }
    }
}

pub open spec fn opt_pt(o: Option<AccountBalancePoint>) -> Option<(Seq<char>, int)> {
    match o {
        Some(p) => Some(pt(p)),
        None => None,
    }
}

/// The highest and lowest points, the earliest of each on ties.
pub fn peak_and_trough(points: &Vec<AccountBalancePoint>) -> (r: (Option<AccountBalancePoint>, Option<AccountBalancePoint>))
    ensures
        opt_pt(r.0) == peak_of(pts(points@)),
        opt_pt(r.1) == trough_of(pts(points@)),
{
    let ghost pv = pts(points@);
    let mut peak: Option<usize> = None;
    let mut trough: Option<usize> = None;
    let mut i: usize = 0;
    while i < points.len()
        invariant
            i <= points.len(),
            pv == pts(points@),
            match peak {
                Some(k) => k < i && peak_of(pv.subrange(0, i as int)) == Some(pv[k as int]),
                None => peak_of(pv.subrange(0, i as int)) is None,
            },
            match trough {
                Some(k) => k < i && trough_of(pv.subrange(0, i as int)) == Some(pv[k as int]),
                None => trough_of(pv.subrange(0, i as int)) is None,
            },
        decreases points.len() - i,
    {
        assert(pv.subrange(0, i + 1).drop_last() =~= pv.subrange(0, i as int));
        assert(pv.subrange(0, i + 1).last() == pv[i as int]);
        let b = points[i].balance_cents;
        let higher = match peak {
            None => true,
            Some(k) => b > points[k].balance_cents,
        };
        if higher {
            peak = Some(i);
        }
        let lower = match trough {
            None => true,
            Some(k) => b < points[k].balance_cents,
        };
        if lower {
            trough = Some(i);
        }
        i += 1;
    }
    assert(pv.subrange(0, points.len() as int) =~= pv);
    let p = match peak {
        Some(k) => Some(point(&points[k].date, points[k].balance_cents)),
        None => None,
    };
    let t = match trough {
        Some(k) => Some(point(&points[k].date, points[k].balance_cents)),
        None => None,
    };
    (p, t)
}

/// How far a reconstructed curve's absolute figures can be trusted.
#[derive(Debug, Clone, Copy, PartialEq, Eq, Structural)]
pub enum BalanceAnchorQuality {
    /// Pinned to a confirmed balance.
    Calibrated,
    /// Pinned to a real opening balance.
    AnchoredOpening,
    /// A zero opening with history before the account was created: every
    /// absolute figure is off by an unknown constant.
    AssumedZero,
}

pub open spec fn anchor_quality_of(
    confirmed: bool,
    anchor_balance: int,
    earliest_txn_date: Option<Seq<char>>,
    created_date: Seq<char>,
) -> BalanceAnchorQuality {
    if confirmed {
        BalanceAnchorQuality::Calibrated
    } else if anchor_balance != 0 {
        BalanceAnchorQuality::AnchoredOpening
    } else if earliest_txn_date matches Some(d) && seq_lt(d, created_date) {
        BalanceAnchorQuality::AssumedZero
    } else {
        BalanceAnchorQuality::AnchoredOpening
    }
}

/// How trustworthy the curve's anchor is: calibrated when confirmed, an
/// assumed zero when the opening is zero and activity predates the
/// account's creation, else an anchored opening.
pub fn anchor_quality(anchor: &CurveAnchor, earliest_txn_date: Option<&str>, created_date: &str) -> (r: BalanceAnchorQuality)
    ensures
        r == anchor_quality_of(
            anchor.confirmed,
            anchor.balance_cents as int,
            match earliest_txn_date {
                Some(d) => Some(d@),
                None => None,
            },
            created_date@,
        ),
{
    if anchor.confirmed {
        BalanceAnchorQuality::Calibrated
    } else if anchor.balance_cents != 0 {
        BalanceAnchorQuality::AnchoredOpening
    } else {
        let behind = match earliest_txn_date {
            Some(d) => chars_lt(&chars_of(d), &chars_of(created_date)),
            None => false,
        };
        if behind {
            BalanceAnchorQuality::AssumedZero
        } else {
            BalanceAnchorQuality::AnchoredOpening
        }
    }
}

} // verus!

verus! {

/// A reconstructed curve, trimmed to its window, with its extremes and the
/// balance it ends on.
#[derive(Debug, Clone)]
pub struct TimelineCurve {
    pub points: Vec<AccountBalancePoint>,
    pub peak: Option<AccountBalancePoint>,
    pub trough: Option<AccountBalancePoint>,
    pub current_cents: i64,
}

pub open spec fn timeline_points(
    anchor_balance: int,
    fold_all: bool,
    anchor_date: Seq<char>,
    deltas: Seq<(Seq<char>, int)>,
    curve_start: Seq<char>,
    since: Option<Seq<char>>,
) -> Seq<(Seq<char>, int)> {
    let all = curve_points(curve_start, curve_base(anchor_balance, fold_all, anchor_date, deltas), deltas);
    match since {
        None => all,
        Some(s) => windowed(all, s),
    }
}

/// An account's balance over time: `balance(t) = base + activity through t`,
/// pinned to the anchor, one end-of-day point per activity day; `since`
/// trims the returned points only, the running balance always starting from
/// the account's beginning.
pub fn reconstruct_timeline(
    anchor: &CurveAnchor,
    deltas: &Vec<(String, i64)>,
    curve_start: String,
    since: Option<&str>,
) -> (r: TimelineCurve)
    requires
        curve_fits(anchor.balance_cents as int, anchor.fold_all_activity, anchor.date@, rows_view(deltas@)),
    ensures
        ({
            let p = timeline_points(
                anchor.balance_cents as int,
                anchor.fold_all_activity,
                anchor.date@,
                rows_view(deltas@),
                curve_start@,
                match since {
                    Some(s) => Some(s@),
                    None => None,
                },
            );
            &&& pts(r.points@) == p
            &&& opt_pt(r.peak) == peak_of(p)
            &&& opt_pt(r.trough) == trough_of(p)
            &&& r.current_cents == (if p.len() == 0 {
                anchor.balance_cents as int
            } else {
                p.last().1
            })
        }),
{
    let all = curve(anchor, deltas, curve_start);
    let points = match since {
        None => all,
        Some(s) => window_points(all, s),
    };
    let (peak, trough) = peak_and_trough(&points);
    let current_cents = if points.len() == 0 {
        anchor.balance_cents
    } else {
        points[points.len() - 1].balance_cents
    };
    TimelineCurve { points, peak, trough, current_cents }
}

/// With day totals in increasing date order, none dated before the start, the
/// curve's points carry increasing dates and end on the last activity day.
proof fn lemma_curve_dates_increase(start: Seq<char>, base: int, deltas: Seq<(Seq<char>, int)>)
    requires
        dates_increasing(deltas),
        deltas.len() > 0 ==> !seq_lt(deltas[0].0, start),
    ensures
        dates_increasing(curve_points(start, base, deltas)),
        curve_points(start, base, deltas).last().0 == if deltas.len() == 0 {
            start
        } else {
            deltas.last().0
        },
    decreases deltas.len(),
{
    if deltas.len() > 0 {
        let pre = deltas.drop_last();
        assert(dates_increasing(pre)) by {
            assert forall|i: int, j: int| 0 <= i < j < pre.len() implies seq_lt(
                #[trigger] pre[i].0,
                #[trigger] pre[j].0,
            ) by {
                assert(pre[i] == deltas[i] && pre[j] == deltas[j]);
            }
        }
        if pre.len() > 0 {
            assert(pre[0] == deltas[0]);
        }
        lemma_curve_dates_increase(start, base, pre);
        lemma_curve_points(start, base, pre);
        let prev = curve_points(start, base, pre);
        let d = deltas.last().0;
        // The new day falls after the previous last point, or on the start.
        if pre.len() > 0 {
            assert(seq_lt(pre.last().0, d)) by {
                assert(pre.last() == deltas[deltas.len() - 2]);
            }
            crate::text::lemma_seq_lt_irreflexive(d);
        } else if d != start {
            crate::text::lemma_seq_lt_total(d, start);
        }
        let running = prev.last().1 + deltas.last().1;
        if prev.last().0 == d {
            let next = prev.update(prev.len() - 1, (d, running));
            assert forall|i: int, j: int| 0 <= i < j < next.len() implies seq_lt(
                #[trigger] next[i].0,
                #[trigger] next[j].0,
            ) by {
                assert(next[i].0 == prev[i].0 && next[j].0 == prev[j].0);
            }
        } else {
            let next = prev.push((d, running));
            assert(seq_lt(prev.last().0, d));
            assert forall|i: int, j: int| 0 <= i < j < next.len() implies seq_lt(
                #[trigger] next[i].0,
                #[trigger] next[j].0,
            ) by {
                if j == prev.len() {
                    if i < prev.len() - 1 {
                        crate::text::lemma_seq_lt_transitive(prev[i].0, prev.last().0, d);
                    }
                } else {
                    assert(next[i] == prev[i] && next[j] == prev[j]);
                }
            }
        }
    }
}

/// With day totals in strictly increasing date order, all after the start,
/// the curve is the starting point followed by one point per day, carrying
/// the base plus everything through that day.
proof fn lemma_curve_points_per_day(start: Seq<char>, base: int, deltas: Seq<(Seq<char>, int)>)
    requires
        dates_increasing(deltas),
        deltas.len() > 0 ==> seq_lt(start, deltas[0].0),
    ensures
        curve_points(start, base, deltas) == seq![(start, base)] + Seq::new(
            deltas.len(),
            |i: int| (deltas[i].0, base + sum_all(deltas.take(i + 1))),
        ),
    decreases deltas.len(),
{
    let want = seq![(start, base)] + Seq::new(
        deltas.len(),
        |i: int| (deltas[i].0, base + sum_all(deltas.take(i + 1))),
    );
    if deltas.len() == 0 {
        assert(curve_points(start, base, deltas) =~= want);
    } else {
        let pre = deltas.drop_last();
        assert(dates_increasing(pre)) by {
            assert forall|i: int, j: int| 0 <= i < j < pre.len() implies seq_lt(
                #[trigger] pre[i].0,
                #[trigger] pre[j].0,
            ) by {
                assert(pre[i] == deltas[i] && pre[j] == deltas[j]);
            }
        }
        if pre.len() > 0 {
            assert(pre[0] == deltas[0]);
        }
        lemma_curve_points_per_day(start, base, pre);
        let prev = curve_points(start, base, pre);
        let d = deltas.last();
        assert forall|i: int| 0 <= i < pre.len() implies #[trigger] pre.take(i + 1) == deltas.take(i + 1) by {
            assert(pre.take(i + 1) =~= deltas.take(i + 1));
        }
        // The new day is later than the previous last point.
        if pre.len() > 0 {
            assert(prev.last() == (pre.last().0, base + sum_all(pre.take(pre.len() as int))));
            assert(seq_lt(pre.last().0, d.0)) by {
                assert(pre.last() == deltas[deltas.len() - 2]);
            }
            crate::text::lemma_seq_lt_irreflexive(d.0);
            assert(pre.take(pre.len() as int) =~= pre);
        } else {
            assert(prev.last() == (start, base));
            crate::text::lemma_seq_lt_irreflexive(d.0);
            assert(pre =~= Seq::<(Seq<char>, int)>::empty());
        }
        assert(prev.last().0 != d.0);
        lemma_curve_points(start, base, pre);
        assert(deltas.take(deltas.len() as int) =~= deltas);
        assert(deltas.take(deltas.len() as int).drop_last() =~= pre);
        assert(curve_points(start, base, deltas) =~= want);
    }
}

/// Each point of a whole curve, after its starting point, sits on one
/// activity day and moves the balance by exactly that day's total, given
/// one total per day in increasing date order after the start.
pub proof fn law_curve_moves_by_each_day(start: Seq<char>, base: int, deltas: Seq<(Seq<char>, int)>)
    requires
        dates_increasing(deltas),
        deltas.len() > 0 ==> seq_lt(start, deltas[0].0),
    ensures
        curve_points(start, base, deltas).len() == deltas.len() + 1,
        curve_points(start, base, deltas)[0] == (start, base),
        forall|i: int|
            1 <= i < curve_points(start, base, deltas).len() ==> {
                &&& (#[trigger] curve_points(start, base, deltas)[i]).0 == deltas[i - 1].0
                &&& curve_points(start, base, deltas)[i].1 - curve_points(start, base, deltas)[i - 1].1
                    == deltas[i - 1].1
            },
{
    lemma_curve_points_per_day(start, base, deltas);
    let p = curve_points(start, base, deltas);
    assert forall|i: int| 1 <= i < p.len() implies {
        &&& (#[trigger] p[i]).0 == deltas[i - 1].0
        &&& p[i].1 - p[i - 1].1 == deltas[i - 1].1
    } by {
        assert(p[i] == (deltas[i - 1].0, base + sum_all(deltas.take(i))));
        assert(deltas.take(i).drop_last() =~= deltas.take(i - 1));
        assert(deltas.take(i).last() == deltas[i - 1]);
        assert(sum_all(deltas.take(i)) == sum_all(deltas.take(i - 1)) + deltas[i - 1].1);
        if i == 1 {
            assert(deltas.take(0) =~= Seq::<(Seq<char>, int)>::empty());
            assert(p[0] == (start, base));
        } else {
            assert(p[i - 1] == (deltas[i - 2].0, base + sum_all(deltas.take(i - 1))));
        }
    }
}

/// A reconstructed timeline never shows a day twice: with one total per
/// activity day, in date order, and a curve starting no later than the first
/// of them, the returned points carry strictly increasing dates, windowed or
/// not; and a window shows no point dated before it opens.
pub proof fn law_timeline_dates_increase(
    anchor_balance: int,
    fold_all: bool,
    anchor_date: Seq<char>,
    deltas: Seq<(Seq<char>, int)>,
    curve_start: Seq<char>,
    since: Option<Seq<char>>,
)
    requires
        dates_increasing(deltas),
        deltas.len() > 0 ==> !seq_lt(deltas[0].0, curve_start),
    ensures
        dates_increasing(timeline_points(anchor_balance, fold_all, anchor_date, deltas, curve_start, since)),
        since matches Some(s) ==> forall|i: int|
            0 <= i < timeline_points(anchor_balance, fold_all, anchor_date, deltas, curve_start, since).len()
                ==> !seq_lt(
                (#[trigger] timeline_points(anchor_balance, fold_all, anchor_date, deltas, curve_start, since)[i]).0,
                s,
            ),
{
    let base = curve_base(anchor_balance, fold_all, anchor_date, deltas);
    lemma_curve_dates_increase(curve_start, base, deltas);
    match since {
        Some(s) => law_window_dates_increase(curve_points(curve_start, base, deltas), s),
        None => {},
    }
}

/// What a derived balance is: the opening plus the cleared activity it does
/// not already account for.
pub open spec fn derived_balance_of(anchor_balance: int, fold_all: bool, anchor_date: Seq<char>, deltas: Seq<(Seq<char>, int)>) -> int {
    if fold_all {
        anchor_balance + sum_all(deltas)
    } else {
        anchor_balance + (sum_all(deltas) - sum_through(deltas, anchor_date))
    }
}

/// The reconstructed curve, when pinned to the opening, ends exactly on the
/// balance the account derives from that opening: the two never disagree.
pub proof fn law_curve_ends_on_derived_balance(
    anchor_balance: int,
    fold_all: bool,
    anchor_date: Seq<char>,
    deltas: Seq<(Seq<char>, int)>,
    curve_start: Seq<char>,
)
    ensures
        curve_points(curve_start, curve_base(anchor_balance, fold_all, anchor_date, deltas), deltas).last().1
            == derived_balance_of(anchor_balance, fold_all, anchor_date, deltas),
{
    lemma_curve_points(curve_start, curve_base(anchor_balance, fold_all, anchor_date, deltas), deltas);
}

/// Why an account's balance is not reconstructed from its transactions.
#[derive(Debug, Clone, Copy, PartialEq, Eq, Structural)]
pub enum TimelineSkip {
    /// An investment account is worth its market value, not its cash flows.
    Investment,
    /// A bank-linked account's recorded balances are the history.
    BankLinked,
}

impl TimelineSkip {
    /// Why the account's curve is not reconstructed.
    pub fn message(&self) -> (r: String)
        ensures
            r@ == (match self {
                TimelineSkip::Investment => "an investment account's value is its market value, not the sum of its cash flows, so it cannot be reconstructed from transactions"@,
                TimelineSkip::BankLinked => "this account is linked to a bank feed, so its balances are bank-reported rather than derived — its recorded balance history is the source of truth"@,
            }),
    {
        match self {
            TimelineSkip::Investment => string_of(chars_of("an investment account's value is its market value, not the sum of its cash flows, so it cannot be reconstructed from transactions").as_slice()),
            TimelineSkip::BankLinked => string_of(chars_of("this account is linked to a bank feed, so its balances are bank-reported rather than derived — its recorded balance history is the source of truth").as_slice()),
        }
    }
}

/// Investment accounts, then bank-linked ones, are not reconstructed.
pub fn timeline_skip(account_type: &str, is_linked: bool) -> (r: Option<TimelineSkip>)
    ensures
        r == (if account_type@ == "Investment"@ {
            Some(TimelineSkip::Investment)
        } else if is_linked {
            Some(TimelineSkip::BankLinked)
        } else {
            None
        }),
{
    if chars_eq_str(&chars_of(account_type), "Investment") {
        Some(TimelineSkip::Investment)
    } else if is_linked {
        Some(TimelineSkip::BankLinked)
    } else {
        None
    }
}

/// Whether an account's balance is re-derived from its activity: never for
/// bank-linked or investment accounts, never over a balance the user set,
/// and not while it has no cleared activity.
pub fn should_derive_balance(is_linked: bool, is_investment: bool, user_set_balance: bool, cleared_txn_count: i64) -> (r: bool)
    ensures
        r == (!is_linked && !is_investment && !user_set_balance && cleared_txn_count != 0),
{
    !is_linked && !is_investment && !user_set_balance && cleared_txn_count != 0
}

/// The derived balance: the opening plus the activity folded onto it.
pub fn derived_balance(opening_cents: i64, folded_activity_cents: i64) -> (r: i64)
    requires
        i64::MIN <= opening_cents + folded_activity_cents <= i64::MAX,
    ensures
        r == opening_cents + folded_activity_cents,
{
    opening_cents + folded_activity_cents
}

/// The opening that makes the current balance come out as `current_cents`
/// given all cleared activity: `opening = current − Σ activity`.
pub fn back_solved_opening(current_cents: i64, cleared_sum_cents: i64) -> (r: i64)
    requires
        i64::MIN <= current_cents - cleared_sum_cents <= i64::MAX,
    ensures
        r == current_cents - cleared_sum_cents,
{
    current_cents - cleared_sum_cents
}

/// Setting the current balance back-solves the seed opening; deriving the
/// balance from that seed then gives back exactly the balance that was set,
/// and keeps tracking: activity recorded later moves it by that activity.
pub proof fn law_set_balance_round_trip(current: int, seed_date: Seq<char>, deltas: Seq<(Seq<char>, int)>, later: (Seq<char>, int))
    ensures
        derived_balance_of(current - sum_all(deltas), true, seed_date, deltas) == current,
        derived_balance_of(current - sum_all(deltas), true, seed_date, deltas.push(later)) == current + later.1,
{
    assert(deltas.push(later).drop_last() =~= deltas);
}

} // verus!
