//! Payee reports: raw rows are grouped under their merchant key (so that
//! variants of one merchant merge), added up by the report's metric, and
//! ordered from the largest total down, ties by label.

use vstd::prelude::*;
use crate::reports::{metric_kind, metric_kind_of, opt_string_view, CustomReportResult, MetricKind, ReportRow};
use crate::text::{chars_eq, chars_lt, chars_of, seq_lt, string_of, trim, trim_str};
use crate::unicode::{to_lowercase, unicode_lowercase};

verus! {

/// A raw row of a payee report, with the canonical merchant key computed for
/// its descriptor (empty when there is none).
#[derive(Debug)]
pub struct PayeeTxn {
    pub merchant_raw: String,
    pub canonical_key: String,
    pub amount_cents: i64,
    pub settle_up: i64,
}

/// What a row contributes: a settled-up row nets against spending, an
/// outflow counts as its magnitude, income counts as nothing.
pub open spec fn expense_amount(t: PayeeTxn) -> int {
    if t.settle_up == 1 {
        -t.amount_cents
    } else if t.amount_cents < 0 {
        -t.amount_cents
    } else {
        0
    }
}

/// The key a row is grouped under: its canonical merchant key, or, when it
/// has none, its descriptor trimmed and lowercased. Rows whose key is empty
/// are left out.
pub open spec fn payee_key(t: PayeeTxn) -> Seq<char> {
    if t.canonical_key@.len() == 0 {
        unicode_lowercase(trim(t.merchant_raw@))
    } else {
        t.canonical_key@
    }
}

/// The sum of the contributions of the rows under key `k`.
pub open spec fn group_sum(rows: Seq<PayeeTxn>, k: Seq<char>) -> int
    decreases rows.len(),
{
    if rows.len() == 0 {
        0
    } else {
        group_sum(rows.drop_last(), k) + if payee_key(rows.last()) == k {
            expense_amount(rows.last())
        } else {
            0
        }
    }
}

/// The number of rows under key `k`.
pub open spec fn group_count(rows: Seq<PayeeTxn>, k: Seq<char>) -> int
    decreases rows.len(),
{
    if rows.len() == 0 {
        0
    } else {
        group_count(rows.drop_last(), k) + if payee_key(rows.last()) == k {
            1int
        } else {
            0
        }
    }
}

/// The non-empty keys, in the order they first appear.
pub open spec fn payee_keys(rows: Seq<PayeeTxn>) -> Seq<Seq<char>>
    decreases rows.len(),
{
    if rows.len() == 0 {
        Seq::empty()
    } else {
        let ks = payee_keys(rows.drop_last());
        let k = payee_key(rows.last());
        if k.len() > 0 && !ks.contains(k) {
            ks.push(k)
        } else {
            ks
        }
    }
}

/// Integer division rounding toward zero.
pub open spec fn quotient_toward_zero(a: int, b: int) -> int {
    if a >= 0 {
        a / b
    } else {
        -((-a) / b)
    }
}

/// A group's figure under the metric: its count, its average contribution
/// (rounded toward zero), or its sum.
pub open spec fn metric_total(kind: MetricKind, sum: int, count: int) -> int {
    match kind {
        MetricKind::Count => count,
        MetricKind::Average => if count > 0 {
            quotient_toward_zero(sum, count)
        } else {
            0
        },
        MetricKind::Sum => sum,
    }
}

/// Every running sum of every group (a non-empty key) fits in an `i64`.
pub open spec fn group_sums_fit(rows: Seq<PayeeTxn>) -> bool {
    forall|i: int, k: Seq<char>|
        0 <= i <= rows.len() && k.len() > 0 ==> i64::MIN <= #[trigger] group_sum(rows.take(i), k) <= i64::MAX
}

/// The inputs on which the report's arithmetic stays within `i64`: no
/// amount is `i64::MIN` (its contribution is computed by negation), and
/// every group's running sum fits.
pub open spec fn payee_rows_fit(rows: Seq<PayeeTxn>) -> bool {
    &&& rows.len() <= i64::MAX
    &&& forall|i: int| 0 <= i < rows.len() ==> (#[trigger] rows[i]).amount_cents != i64::MIN
    &&& group_sums_fit(rows)
}

pub proof fn lemma_absent_key(rows: Seq<PayeeTxn>, k: Seq<char>)
    requires
        k.len() > 0,
        !payee_keys(rows).contains(k),
    ensures
        group_sum(rows, k) == 0,
        group_count(rows, k) == 0,
    decreases rows.len(),
{
    if rows.len() > 0 {
        let ks = payee_keys(rows.drop_last());
        let kk = payee_key(rows.last());
        assert(!ks.contains(k)) by {
            if ks.contains(k) {
                let j = choose|j: int| 0 <= j < ks.len() && ks[j] == k;
                assert(payee_keys(rows)[j] == k);
                assert(payee_keys(rows).contains(k));
            }
        }
        assert(kk != k) by {
            if kk == k {
                assert(payee_keys(rows) == ks.push(k));
                assert(payee_keys(rows)[ks.len() as int] == k);
                assert(payee_keys(rows).contains(k));
            }
        }
        lemma_absent_key(rows.drop_last(), k);
    }
}

pub proof fn lemma_keys_distinct(rows: Seq<PayeeTxn>)
    ensures
        payee_keys(rows).no_duplicates(),
        forall|j: int| 0 <= j < payee_keys(rows).len() ==> (#[trigger] payee_keys(rows)[j]).len() > 0,
    decreases rows.len(),
{
    if rows.len() > 0 {
        lemma_keys_distinct(rows.drop_last());
    }
}

/// Where `k` sits among the keys gathered so far.
fn find_key(keys: &Vec<Vec<char>>, k: &Vec<char>) -> (r: Option<usize>)
    ensures
        match r {
            Some(j) => j < keys.len() && keys@[j as int]@ == k@,
            None => forall|j: int| 0 <= j < keys.len() ==> keys@[j]@ != k@,
        },
{
    let mut j: usize = 0;
    while j < keys.len()
        invariant
            j <= keys.len(),
            forall|i: int| 0 <= i < j ==> keys@[i]@ != k@,
        decreases keys.len() - j,
    {
        if chars_eq(&keys[j], k) {
            return Some(j);
        }
        j += 1;
    }
    None
}

pub open spec fn keys_view(keys: Seq<Vec<char>>) -> Seq<Seq<char>> {
    keys.map_values(|k: Vec<char>| k@)
}

/// The key of a row.
fn row_key(t: &PayeeTxn) -> (r: Vec<char>)
    ensures
        r@ == payee_key(*t),
{
    let c = chars_of(t.canonical_key.as_str());
    if c.len() == 0 {
        let trimmed = string_of(trim_str(t.merchant_raw.as_str()).as_slice());
        chars_of(to_lowercase(trimmed.as_str()).as_str())
    } else {
        c
    }
}

/// The groups of the rows: each key in first-appearance order with its sum
/// and count, or nothing when some group's running sum leaves `i64`.
fn group_rows(rows: &Vec<PayeeTxn>) -> (r: Option<(Vec<Vec<char>>, Vec<i64>, Vec<i64>)>)
    requires
        rows.len() <= i64::MAX,
    ensures
        r is Some <==> group_sums_fit(rows@),
        match r {
            Some((keys, sums, counts)) => {
                &&& keys_view(keys@) == payee_keys(rows@)
                &&& sums.len() == keys.len()
                &&& counts.len() == keys.len()
                &&& forall|j: int|
                    0 <= j < keys.len() ==> sums@[j] == group_sum(rows@, #[trigger] keys_view(keys@)[j])
                        && counts@[j] == group_count(rows@, keys_view(keys@)[j])
            },
            None => true,
        },
{
    let mut keys: Vec<Vec<char>> = Vec::new();
    let mut sums: Vec<i64> = Vec::new();
    let mut counts: Vec<i64> = Vec::new();
    let mut i: usize = 0;
    assert(group_sums_fit(rows@.take(0))) by {
        assert forall|ii: int, k: Seq<char>| 0 <= ii <= 0 && k.len() > 0 implies i64::MIN <= #[trigger] group_sum(
            rows@.take(0).take(ii),
            k,
        ) <= i64::MAX by {
            assert(rows@.take(0).take(ii).len() == 0);
        }
    }
    while i < rows.len()
        invariant
            i <= rows.len() <= i64::MAX,
            keys_view(keys@) == payee_keys(rows@.take(i as int)),
            sums.len() == keys.len(),
            counts.len() == keys.len(),
            forall|j: int|
                0 <= j < keys.len() ==> sums@[j] == group_sum(rows@.take(i as int), #[trigger] keys_view(keys@)[j])
                    && counts@[j] == group_count(rows@.take(i as int), keys_view(keys@)[j]),
            forall|j: int| 0 <= j < keys.len() ==> 0 <= #[trigger] counts@[j] <= i,
            forall|ii: int, k: Seq<char>|
                0 <= ii <= i && k.len() > 0 ==> i64::MIN <= #[trigger] group_sum(rows@.take(ii), k) <= i64::MAX,
        decreases rows.len() - i,
    {
        let ghost pre = rows@.take(i as int);
        let ghost post = rows@.take(i + 1);
        assert(post.drop_last() =~= pre);
        assert(post.last() == rows@[i as int]);
        let t = &rows[i];
        let k = row_key(t);
        let amt: i128 = if t.settle_up == 1 {
            -(t.amount_cents as i128)
        } else if t.amount_cents < 0 {
            -(t.amount_cents as i128)
        } else {
            0
        };
        assert(amt == expense_amount(rows@[i as int]));
        proof {
            lemma_keys_distinct(pre);
        }
        // Only the row's own group moves at this step.
        assert forall|kk: Seq<char>| kk != k@ implies group_sum(post, kk) == group_sum(pre, kk)
            && group_count(post, kk) == group_count(pre, kk) by {}
        if k.len() > 0 {
            let found = find_key(&keys, &k);
            let old_sum: i64 = match found {
                Some(j) => sums[j],
                None => 0,
            };
            proof {
                match found {
                    Some(j) => {
                        assert(keys_view(keys@)[j as int] == k@);
                    },
                    None => {
                        assert(!payee_keys(pre).contains(k@)) by {
                            if payee_keys(pre).contains(k@) {
                                let jj = choose|jj: int| 0 <= jj < payee_keys(pre).len() && payee_keys(pre)[jj] == k@;
                                assert(keys@[jj]@ == keys_view(keys@)[jj]);
                            }
                        }
                        lemma_absent_key(pre, k@);
                    },
                }
            }
            assert(old_sum == group_sum(pre, k@));
            let wide: i128 = old_sum as i128 + amt;
            assert(wide == group_sum(post, k@));
            if wide < i64::MIN as i128 || wide > i64::MAX as i128 {
                assert(rows@.take(i + 1) == post);
                assert(!(i64::MIN <= group_sum(rows@.take((i + 1) as int), k@) <= i64::MAX));
                return None;
            }
            let new_sum = wide as i64;
            match found {
                Some(j) => {
                    assert(payee_keys(pre).contains(k@)) by {
                        assert(payee_keys(pre)[j as int] == k@);
                    }
                    assert(payee_keys(post) == payee_keys(pre));
                    let new_count = counts[j] + 1;
                    sums.set(j, new_sum);
                    counts.set(j, new_count);
                    assert forall|jj: int| 0 <= jj < keys.len() implies sums@[jj] == group_sum(post, #[trigger] keys_view(keys@)[jj])
                        && counts@[jj] == group_count(post, keys_view(keys@)[jj]) by {
                        if jj != j {
                            assert(keys_view(keys@)[jj] != keys_view(keys@)[j as int]);
                        }
                    }
                },
                None => {
                    let ghost old_keys = keys_view(keys@);
                    keys.push(k);
                    sums.push(new_sum);
                    counts.push(1);
                    assert(keys_view(keys@) =~= old_keys.push(k@));
                    assert forall|jj: int| 0 <= jj < keys.len() implies sums@[jj] == group_sum(post, #[trigger] keys_view(keys@)[jj])
                        && counts@[jj] == group_count(post, keys_view(keys@)[jj]) by {
                        if jj < old_keys.len() {
                            assert(keys_view(keys@)[jj] == old_keys[jj]);
                            assert(old_keys[jj] != k@);
                        }
                    }
                },
            }
        } else {
            assert(payee_keys(post) == payee_keys(pre));
            assert forall|jj: int| 0 <= jj < keys.len() implies sums@[jj] == group_sum(post, #[trigger] keys_view(keys@)[jj])
                && counts@[jj] == group_count(post, keys_view(keys@)[jj]) by {
                assert(keys_view(keys@)[jj].len() > 0);
            }
        }
        assert forall|ii: int, kk: Seq<char>| 0 <= ii <= i + 1 && kk.len() > 0 implies i64::MIN <= #[trigger] group_sum(
            rows@.take(ii),
            kk,
        ) <= i64::MAX by {
            if ii == i + 1 {
                assert(rows@.take(ii) == post);
                if kk != k@ {
                    assert(rows@.take(i as int) == pre);
                }
            }
        }
        i += 1;
    }
    assert(rows@.take(i as int) =~= rows@);
    assert(group_sums_fit(rows@)) by {
        assert forall|ii: int, kk: Seq<char>| 0 <= ii <= rows@.len() && kk.len() > 0 implies i64::MIN <= #[trigger] group_sum(
            rows@.take(ii),
            kk,
        ) <= i64::MAX by {
            assert(rows@.take(i as int) == rows@);
        }
    }
    Some((keys, sums, counts))
}

/// A group's figure.
pub open spec fn key_total(rows: Seq<PayeeTxn>, kind: MetricKind, k: Seq<char>) -> int {
    metric_total(kind, group_sum(rows, k), group_count(rows, k))
}

/// The groups' figures, in key order.
pub open spec fn key_totals(rows: Seq<PayeeTxn>, kind: MetricKind) -> Seq<int> {
    payee_keys(rows).map_values(|k: Seq<char>| key_total(rows, kind, k))
}

pub open spec fn int_sum(s: Seq<int>) -> int
    decreases s.len(),
{
    if s.len() == 0 {
        0
    } else {
        int_sum(s.drop_last()) + s.last()
    }
}

/// The sum of the positive elements.
pub open spec fn positive_sum(s: Seq<int>) -> int
    decreases s.len(),
{
    if s.len() == 0 {
        0
    } else {
        positive_sum(s.drop_last()) + if s.last() > 0 {
            s.last()
        } else {
            0
        }
    }
}

/// The report's total, added up from the largest figure down, never leaves
/// `i64`: its highest running value is the sum of the positive figures and
/// its lowest is the smaller of zero and the total.
pub open spec fn report_total_fits(rows: Seq<PayeeTxn>, kind: MetricKind) -> bool {
    positive_sum(key_totals(rows, kind)) <= i64::MAX && int_sum(key_totals(rows, kind)) >= i64::MIN
}

/// Line `a` comes before line `b`: a larger figure first, and on equal
/// figures the smaller label first.
pub open spec fn row_before(ta: int, la: Seq<char>, tb: int, lb: Seq<char>) -> bool {
    ta > tb || (ta == tb && seq_lt(la, lb))
}

pub open spec fn report_totals(rows: Seq<ReportRow>) -> Seq<int> {
    rows.map_values(|r: ReportRow| r.total_cents as int)
}

/// The sum of the figures of the groups not yet used.
pub open spec fn unused_sum(t: Seq<i64>, used: Seq<bool>) -> int
    decreases t.len(),
{
    if t.len() == 0 || used.len() == 0 {
        0
    } else {
        unused_sum(t.drop_last(), used.drop_last()) + if used.last() {
            0
        } else {
            t.last() as int
        }
    }
}

pub open spec fn count_used(used: Seq<bool>) -> int
    decreases used.len(),
{
    if used.len() == 0 {
        0
    } else {
        count_used(used.drop_last()) + if used.last() {
            1int
        } else {
            0
        }
    }
}

proof fn lemma_unused_sum_update(t: Seq<i64>, used: Seq<bool>, b: int)
    requires
        t.len() == used.len(),
        0 <= b < used.len(),
        !used[b],
    ensures
        unused_sum(t, used.update(b, true)) == unused_sum(t, used) - t[b],
        count_used(used.update(b, true)) == count_used(used) + 1,
    decreases t.len(),
{
    let u2 = used.update(b, true);
    if b == used.len() - 1 {
        assert(u2.drop_last() =~= used.drop_last());
    } else {
        assert(u2.drop_last() =~= used.drop_last().update(b, true));
        lemma_unused_sum_update(t.drop_last(), used.drop_last(), b);
    }
}

proof fn lemma_unused_sum_none(t: Seq<i64>, used: Seq<bool>)
    requires
        t.len() == used.len(),
        forall|j: int| 0 <= j < used.len() ==> !used[j],
    ensures
        unused_sum(t, used) == int_sum(t.map_values(|x: i64| x as int)),
        count_used(used) == 0,
    decreases t.len(),
{
    if t.len() > 0 {
        assert(t.drop_last().map_values(|x: i64| x as int) =~= t.map_values(|x: i64| x as int).drop_last());
        lemma_unused_sum_none(t.drop_last(), used.drop_last());
    }
}

proof fn lemma_unused_sum_all(t: Seq<i64>, used: Seq<bool>)
    requires
        t.len() == used.len(),
        forall|j: int| 0 <= j < used.len() ==> used[j],
    ensures
        unused_sum(t, used) == 0,
    decreases t.len(),
{
    if t.len() > 0 {
        lemma_unused_sum_all(t.drop_last(), used.drop_last());
    }
}

proof fn lemma_some_unused(used: Seq<bool>)
    requires
        count_used(used) < used.len(),
    ensures
        exists|j: int| 0 <= j < used.len() && !used[j],
    decreases used.len(),
{
    if used.len() > 0 {
        if used.last() {
            lemma_some_unused(used.drop_last());
            let j = choose|j: int| 0 <= j < used.drop_last().len() && !used.drop_last()[j];
            assert(!used[j]);
        } else {
            assert(!used[used.len() - 1]);
        }
    }
}

proof fn lemma_count_used_bounds(used: Seq<bool>)
    ensures
        0 <= count_used(used) <= used.len(),
        count_used(used) == used.len() ==> forall|j: int| 0 <= j < used.len() ==> used[j],
    decreases used.len(),
{
    if used.len() > 0 {
        lemma_count_used_bounds(used.drop_last());
        if count_used(used) == used.len() {
            assert forall|j: int| 0 <= j < used.len() implies used[j] by {
                if j < used.len() - 1 {
                    assert(used.drop_last()[j] == used[j]);
                }
            }
        }
    }
}

proof fn lemma_int_sum_push(s: Seq<int>, x: int)
    ensures
        int_sum(s.push(x)) == int_sum(s) + x,
{
    assert(s.push(x).drop_last() =~= s);
}

proof fn lemma_int_sum_le_positive(s: Seq<int>)
    ensures
        int_sum(s) <= positive_sum(s),
    decreases s.len(),
{
    if s.len() > 0 {
        lemma_int_sum_le_positive(s.drop_last());
    }
}

/// A group's figure under the metric.
fn group_total(kind: MetricKind, sum: i64, count: i64) -> (r: i64)
    requires
        count >= 1,
    ensures
        r == metric_total(kind, sum as int, count as int),
{
    match kind {
        MetricKind::Count => count,
        MetricKind::Average => {
            if sum >= 0 {
                sum / count
            } else {
                let neg: i128 = -(sum as i128);
                let q: i128 = neg / (count as i128);
                proof {
                    assert(q <= neg) by (nonlinear_arith)
                        requires
                            q == neg / (count as i128),
                            count >= 1,
                            neg >= 0,
                    ;
                }
                (0 - q) as i64
            }
        },
        MetricKind::Sum => sum,
    }
}

/// Among the unused groups, the one that comes first.
fn pick_first(totals: &Vec<i64>, keys: &Vec<Vec<char>>, used: &Vec<bool>) -> (r: usize)
    requires
        totals.len() == keys.len() == used.len(),
        keys_view(keys@).no_duplicates(),
        exists|j: int| 0 <= j < used.len() && !used@[j],
    ensures
        r < used.len(),
        !used@[r as int],
        forall|j: int|
            0 <= j < used.len() && !used@[j] && j != r ==> row_before(
                totals@[r as int] as int,
                keys@[r as int]@,
                totals@[j] as int,
                #[trigger] keys@[j]@,
            ),
{
    let mut best: Option<usize> = None;
    let mut j: usize = 0;
    while j < used.len()
        invariant
            j <= used.len(),
            totals.len() == keys.len() == used.len(),
            keys_view(keys@).no_duplicates(),
            match best {
                Some(b) => b < j && !used@[b as int] && forall|i: int|
                    0 <= i < j && !used@[i] && i != b ==> row_before(
                        totals@[b as int] as int,
                        keys@[b as int]@,
                        totals@[i] as int,
                        #[trigger] keys@[i]@,
                    ),
                None => forall|i: int| 0 <= i < j ==> used@[i],
            },
        decreases used.len() - j,
    {
        if !used[j] {
            match best {
                None => {
                    best = Some(j);
                },
                Some(b) => {
                    let better = totals[j] > totals[b] || (totals[j] == totals[b] && chars_lt(&keys[j], &keys[b]));
                    proof {
                        assert(keys_view(keys@)[j as int] != keys_view(keys@)[b as int]);
                        crate::text::lemma_seq_lt_total(keys@[j as int]@, keys@[b as int]@);
                    }
                    if better {
                        proof {
                            assert forall|i: int|
                                0 <= i < j + 1 && !used@[i] && i != j implies row_before(
                                totals@[j as int] as int,
                                keys@[j as int]@,
                                totals@[i] as int,
                                #[trigger] keys@[i]@,
                            ) by {
                                if i != b {
                                    if totals@[j as int] == totals@[b as int] && totals@[b as int] == totals@[i] {
                                        crate::text::lemma_seq_lt_transitive(keys@[j as int]@, keys@[b as int]@, keys@[i]@);
                                    }
                                }
                            }
                        }
                        best = Some(j);
                    }
                },
            }
        }
        j += 1;
    }
    match best {
        Some(b) => b,
        None => {
            proof {
                let w = choose|w: int| 0 <= w < used.len() && !used@[w];
                assert(used@[w]);
            }
            0
        },
    }
}

proof fn lemma_keys_len(rows: Seq<PayeeTxn>)
    ensures
        payee_keys(rows).len() <= rows.len(),
    decreases rows.len(),
{
    if rows.len() > 0 {
        lemma_keys_len(rows.drop_last());
    }
}

/// Whether the payee report of these rows can be worked out within `i64`:
/// the rows' contributions, every group's running sum, and the report's
/// total added up from the largest figure down.
pub fn payee_report_in_range(rows: &Vec<PayeeTxn>, metric: &Option<String>) -> (r: bool)
    ensures
        r == (payee_rows_fit(rows@) && report_total_fits(rows@, metric_kind_of(opt_string_view(*metric)))),
{
    if rows.len() as u128 > i64::MAX as u128 {
        return false;
    }
    let mut i: usize = 0;
    while i < rows.len()
        invariant
            i <= rows.len(),
            forall|j: int| 0 <= j < i ==> (#[trigger] rows@[j]).amount_cents != i64::MIN,
        decreases rows.len() - i,
    {
        if rows[i].amount_cents == i64::MIN {
            assert(rows@[i as int].amount_cents == i64::MIN);
            return false;
        }
        i += 1;
    }
    let (keys, sums, counts) = match group_rows(rows) {
        Some(g) => g,
        None => {
            return false;
        },
    };
    let kind = metric_kind(metric);
    let ghost kd = metric_kind_of(opt_string_view(*metric));
    let ghost kt = key_totals(rows@, kd);
    proof {
        lemma_keys_len(rows@);
    }
    let n = keys.len();
    let mut ps: i128 = 0;
    let mut ts: i128 = 0;
    let mut j: usize = 0;
    while j < n
        invariant
            j <= n == keys.len() == sums.len() == counts.len(),
            n <= rows.len() <= i64::MAX,
            kd == kind,
            kt == key_totals(rows@, kd),
            keys_view(keys@) == payee_keys(rows@),
            forall|jj: int|
                0 <= jj < keys.len() ==> sums@[jj] == group_sum(rows@, #[trigger] keys_view(keys@)[jj])
                    && counts@[jj] == group_count(rows@, keys_view(keys@)[jj]),
            ps == positive_sum(kt.take(j as int)),
            ts == int_sum(kt.take(j as int)),
            0 <= ps <= j * 0x8000_0000_0000_0000,
            -(j * 0x8000_0000_0000_0000) <= ts <= j * 0x8000_0000_0000_0000,
        decreases n - j,
    {
        let ghost k = keys_view(keys@)[j as int];
        proof {
            assert(payee_keys(rows@)[j as int] == k);
            assert(payee_keys(rows@).contains(k));
            lemma_count_positive(rows@, k);
        }
        let t = group_total(kind, sums[j], counts[j]);
        assert(t == kt[j as int]);
        assert(kt.take(j + 1).drop_last() =~= kt.take(j as int));
        if t > 0 {
            ps = ps + t as i128;
        }
        ts = ts + t as i128;
        j += 1;
    }
    assert(kt.take(n as int) =~= kt);
    ps <= i64::MAX as i128 && ts >= i64::MIN as i128
}

/// The payee report of the rows under the metric: one line per merchant
/// key, ordered by figure (largest first, ties by label), and their total.
pub fn payee_report(rows: &Vec<PayeeTxn>, metric: &Option<String>) -> (r: CustomReportResult)
    requires
        payee_rows_fit(rows@),
        report_total_fits(rows@, metric_kind_of(opt_string_view(*metric))),
    ensures
        r.rows.len() == payee_keys(rows@).len(),
        forall|i: int| 0 <= i < r.rows.len() ==> payee_keys(rows@).contains(#[trigger] r.rows@[i].label@),
        forall|j: int|
            #![trigger payee_keys(rows@)[j]]
            0 <= j < payee_keys(rows@).len() ==> exists|i: int|
                0 <= i < r.rows.len() && #[trigger] r.rows@[i].label@ == payee_keys(rows@)[j],
        forall|i: int|
            0 <= i < r.rows.len() ==> {
                &&& (#[trigger] r.rows@[i]).txn_count == group_count(rows@, r.rows@[i].label@)
                &&& r.rows@[i].total_cents == key_total(
                    rows@,
                    metric_kind_of(opt_string_view(*metric)),
                    r.rows@[i].label@,
                )
            },
        forall|a: int, b: int|
            0 <= a < b < r.rows.len() ==> row_before(
                (#[trigger] r.rows@[a]).total_cents as int,
                r.rows@[a].label@,
                (#[trigger] r.rows@[b]).total_cents as int,
                r.rows@[b].label@,
            ),
        r.total_cents == int_sum(report_totals(r.rows@)),
        r.total_cents == int_sum(key_totals(rows@, metric_kind_of(opt_string_view(*metric)))),
        forall|i: int| 0 <= i < r.rows.len() ==> (#[trigger] r.rows@[i]).txn_count >= 1,
{
    let kind = metric_kind(metric);
    let ghost kd = metric_kind_of(opt_string_view(*metric));
    let (keys, sums, counts) = match group_rows(rows) {
        Some(g) => g,
        None => {
            return CustomReportResult { rows: Vec::new(), total_cents: 0 };
        },
    };
    assert(keys_view(keys@) == payee_keys(rows@));
    let n = keys.len();
    let ghost ks = payee_keys(rows@);
    proof {
        lemma_keys_distinct(rows@);
    }
    let mut totals: Vec<i64> = Vec::new();
    let mut used: Vec<bool> = Vec::new();
    let mut i: usize = 0;
    while i < n
        invariant
            i <= n == keys.len() == sums.len() == counts.len(),
            keys_view(keys@) == ks,
            ks == payee_keys(rows@),
            kd == kind,
            payee_rows_fit(rows@),
            forall|j: int|
                0 <= j < n ==> sums@[j] == group_sum(rows@, #[trigger] keys_view(keys@)[j]) && counts@[j]
                    == group_count(rows@, keys_view(keys@)[j]),
            forall|j: int| 0 <= j < n ==> (#[trigger] ks[j]).len() > 0,
            totals.len() == i,
            used.len() == i,
            forall|j: int| 0 <= j < i ==> !(#[trigger] used@[j]),
            forall|j: int| 0 <= j < i ==> #[trigger] totals@[j] == key_total(rows@, kd, ks[j]),
        decreases n - i,
    {
        proof {
            assert(keys_view(keys@)[i as int] == ks[i as int]);
            lemma_count_positive(rows@, ks[i as int]);
        }
        totals.push(group_total(kind, sums[i], counts[i]));
        used.push(false);
        i += 1;
    }
    proof {
        assert(totals@.map_values(|x: i64| x as int) =~= key_totals(rows@, kd));
        lemma_unused_sum_none(totals@, used@);
    }
    let mut out: Vec<ReportRow> = Vec::new();
    let ghost mut perm: Seq<int> = Seq::empty();
    let mut running: i128 = 0;
    let mut m: usize = 0;
    while m < n
        invariant
            m <= n == keys.len() == totals.len() == used.len() == counts.len(),
            keys_view(keys@) == ks,
            ks == payee_keys(rows@),
            ks.no_duplicates(),
            forall|j: int| 0 <= j < n ==> #[trigger] totals@[j] == key_total(rows@, kd, ks[j]),
            forall|j: int|
                0 <= j < n ==> counts@[j] == group_count(rows@, #[trigger] keys_view(keys@)[j]),
            count_used(used@) == m,
            out.len() == m,
            perm.len() == m,
            forall|k: int| 0 <= k < m ==> 0 <= #[trigger] perm[k] < n && used@[perm[k]],
            forall|j: int|
                0 <= j < n && #[trigger] used@[j] ==> exists|k: int| 0 <= k < m && perm[k] == j,
            forall|k: int|
                0 <= k < m ==> {
                    &&& (#[trigger] out@[k]).label@ == ks[perm[k]]
                    &&& out@[k].total_cents == totals@[perm[k]]
                    &&& out@[k].txn_count == counts@[perm[k]]
                },
            forall|a: int, b: int|
                0 <= a < b < m ==> row_before(
                    (#[trigger] out@[a]).total_cents as int,
                    out@[a].label@,
                    (#[trigger] out@[b]).total_cents as int,
                    out@[b].label@,
                ),
            forall|k: int, j: int|
                0 <= k < m && 0 <= j < n && !used@[j] ==> row_before(
                    (#[trigger] out@[k]).total_cents as int,
                    out@[k].label@,
                    totals@[j] as int,
                    #[trigger] ks[j],
                ),
            running == int_sum(report_totals(out@)),
            running + unused_sum(totals@, used@) == int_sum(key_totals(rows@, kd)),
            -(m as int) * 9223372036854775808 <= running <= (m as int) * 9223372036854775808,
        decreases n - m,
    {
        proof {
            lemma_count_used_bounds(used@);
            lemma_some_unused(used@);
        }
        let b = pick_first(&totals, &keys, &used);
        proof {
            lemma_unused_sum_update(totals@, used@, b as int);
        }
        let ghost old_used = used@;
        used.set(b, true);
        let row = ReportRow { label: string_of(keys[b].as_slice()), total_cents: totals[b], txn_count: counts[b] };
        let ghost old_out = out@;
        running = running + totals[b] as i128;
        out.push(row);
        let ghost old_perm = perm;
        proof {
            perm = perm.push(b as int);
            assert(keys_view(keys@)[b as int] == keys@[b as int]@);
            assert(report_totals(out@) =~= report_totals(old_out).push(totals@[b as int] as int));
            lemma_int_sum_push(report_totals(old_out), totals@[b as int] as int);
            assert forall|j: int| 0 <= j < n && #[trigger] used@[j] implies exists|k: int| 0 <= k < m + 1 && perm[k] == j by {
                if j == b {
                    assert(perm[m as int] == j);
                } else {
                    assert(old_used[j]);
                    let k = choose|k: int| 0 <= k < m && old_perm[k] == j;
                    assert(perm[k] == old_perm[k]);
                }
            }
            assert forall|k: int, j: int|
                0 <= k < m + 1 && 0 <= j < n && !used@[j] implies row_before(
                (#[trigger] out@[k]).total_cents as int,
                out@[k].label@,
                totals@[j] as int,
                #[trigger] ks[j],
            ) by {
                assert(j != b);
                if k < m {
                    assert(out@[k] == old_out[k]);
                } else {
                    assert(keys_view(keys@)[j] == keys@[j]@);
                }
            }
            assert forall|a: int, c: int|
                0 <= a < c < m + 1 implies row_before(
                (#[trigger] out@[a]).total_cents as int,
                out@[a].label@,
                (#[trigger] out@[c]).total_cents as int,
                out@[c].label@,
            ) by {
                assert(out@[a] == old_out[a]);
                if c < m {
                    assert(out@[c] == old_out[c]);
                } else {
                    assert(!old_used[b as int]);
                }
            }
        }
        m += 1;
    }
    proof {
        lemma_count_used_bounds(used@);
        lemma_unused_sum_all(totals@, used@);
        lemma_int_sum_le_positive(key_totals(rows@, kd));
        assert(n == payee_keys(rows@).len());
        assert forall|i: int| 0 <= i < out.len() implies ks.contains(#[trigger] out@[i].label@) by {
            assert(ks[perm[i]] == out@[i].label@);
        }
        assert forall|i: int| 0 <= i < out.len() implies {
            &&& (#[trigger] out@[i]).txn_count == group_count(rows@, out@[i].label@)
            &&& out@[i].total_cents == key_total(rows@, kd, out@[i].label@)
        } by {
            assert(keys_view(keys@)[perm[i]] == ks[perm[i]]);
        }
    }
    let total = running as i64;
    let r = CustomReportResult { rows: out, total_cents: total };
    proof {
        assert forall|j: int| #![trigger payee_keys(rows@)[j]] 0 <= j < payee_keys(rows@).len() implies exists|i: int|
            0 <= i < r.rows.len() && #[trigger] r.rows@[i].label@ == payee_keys(rows@)[j] by {
            assert(used@[j]);
            let k = choose|k: int| 0 <= k < m && perm[k] == j;
            assert(r.rows@[k].label@ == ks[j]);
        }
        assert forall|i: int| 0 <= i < r.rows.len() implies (#[trigger] r.rows@[i]).txn_count >= 1 by {
            lemma_count_positive(rows@, r.rows@[i].label@);
        }
    }
    r
}

/// Every group has at least one row.
proof fn lemma_count_positive(rows: Seq<PayeeTxn>, k: Seq<char>)
    requires
        payee_keys(rows).contains(k),
    ensures
        group_count(rows, k) >= 1,
        group_count(rows, k) <= rows.len(),
    decreases rows.len(),
{
    lemma_count_bounded(rows, k);
    if rows.len() > 0 {
        lemma_count_bounded(rows.drop_last(), k);
        let ks = payee_keys(rows.drop_last());
        if ks.contains(k) {
            lemma_count_positive(rows.drop_last(), k);
        } else {
            let j = choose|j: int| 0 <= j < payee_keys(rows).len() && payee_keys(rows)[j] == k;
            if payee_key(rows.last()) != k {
                assert(payee_keys(rows) == ks || payee_keys(rows) == ks.push(payee_key(rows.last())));
                if payee_keys(rows) == ks {
                    assert(ks.contains(k));
                } else {
                    if j < ks.len() {
                        assert(ks[j] == k);
                        assert(ks.contains(k));
                    }
                }
            }
        }
    }
}

proof fn lemma_count_bounded(rows: Seq<PayeeTxn>, k: Seq<char>)
    ensures
        0 <= group_count(rows, k) <= rows.len(),
    decreases rows.len(),
{
    if rows.len() > 0 {
        lemma_count_bounded(rows.drop_last(), k);
    }
}

} // verus!
