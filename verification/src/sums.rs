//! Running totals of cents: the sum of a sequence, the condition under which
//! summing it left to right never leaves `i64`, and the checked sum itself.

use vstd::prelude::*;

verus! {

/// The sum of `s`, added from the left.
pub open spec fn sum_i64(s: Seq<i64>) -> int
    decreases s.len(),
{
    if s.len() == 0 {
        0
    } else {
        sum_i64(s.drop_last()) + s.last()
    }
}

/// Every running total of `s` fits in an `i64`.
pub open spec fn prefix_sums_fit(s: Seq<i64>) -> bool {
    forall|k: int| 0 <= k <= s.len() ==> i64::MIN <= #[trigger] sum_i64(s.subrange(0, k)) <= i64::MAX
}

/// The sum of `v`, as `Iterator::sum` computes it when no running total overflows.
pub fn total_i64(v: &Vec<i64>) -> (r: i64)
    requires
        prefix_sums_fit(v@),
    ensures
        r == sum_i64(v@),
{
    let mut total: i64 = 0;
    let mut i: usize = 0;
    while i < v.len()
        invariant
            i <= v.len(),
            prefix_sums_fit(v@),
            total == sum_i64(v@.subrange(0, i as int)),
        decreases v.len() - i,
    {
        assert(v@.subrange(0, i + 1).drop_last() =~= v@.subrange(0, i as int));
        assert(i64::MIN <= sum_i64(v@.subrange(0, i + 1)) <= i64::MAX);
        total = total + v[i];
        i += 1;
    }
    assert(v@.subrange(0, i as int) =~= v@);
    total
}

/// The sum of `v` when every running total fits in an `i64`, and nothing
/// when one does not.
pub fn checked_total(v: &Vec<i64>) -> (r: Option<i64>)
    ensures
        r is Some <==> prefix_sums_fit(v@),
        r matches Some(t) ==> t == sum_i64(v@),
{
    let mut total: i64 = 0;
    let mut i: usize = 0;
    assert(v@.subrange(0, 0) =~= Seq::<i64>::empty());
    while i < v.len()
        invariant
            i <= v.len(),
            total == sum_i64(v@.subrange(0, i as int)),
            forall|k: int| 0 <= k <= i ==> i64::MIN <= #[trigger] sum_i64(v@.subrange(0, k)) <= i64::MAX,
        decreases v.len() - i,
    {
        assert(v@.subrange(0, i + 1).drop_last() =~= v@.subrange(0, i as int));
        match total.checked_add(v[i]) {
            Some(t) => {
                total = t;
            },
            None => {
                assert(!(i64::MIN <= sum_i64(v@.subrange(0, (i + 1) as int)) <= i64::MAX));
                return None;
            },
        }
        i += 1;
    }
    assert(v@.subrange(0, i as int) =~= v@);
    Some(total)
}

} // verus!
