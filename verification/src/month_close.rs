//! Month close: which `(year, month)` a month key names for the lock check.

use vstd::prelude::*;
use crate::text::{chars_of, find_char, index_of, parse_i32, parse_i32_spec, slice_chars};

verus! {

/// The year and month a key such as `2026-03` names for the lock check: the
/// text before the first hyphen and the text after it must both parse as
/// integers, and the month must lie in 1..=12. Anything else names no month,
/// and such a month is never locked.
pub open spec fn lock_key_of(month: Seq<char>) -> Option<(i32, i32)> {
    match index_of(month, '-') {
        None => None,
        Some(k) => match (parse_i32_spec(month.take(k)), parse_i32_spec(month.skip(k + 1))) {
            (Some(y), Some(m)) => if 1 <= m <= 12 {
                Some((y, m))
            } else {
                None
            },
            _ => None,
        },
    }
}

/// The `(year, month)` to look up a completed close for.
pub fn lock_key(month: &str) -> (r: Option<(i32, i32)>)
    ensures
        r == lock_key_of(month@),
{
    let s = chars_of(month);
    match find_char(&s, '-') {
        None => None,
        Some(k) => {
            proof {
                crate::text::lemma_index_of_props(s@, '-');
            }
            let ys = slice_chars(&s, 0, k);
            let ms = slice_chars(&s, k + 1, s.len());
            assert(ys@ =~= s@.take(k as int));
            assert(ms@ =~= s@.skip(k + 1));
            match (parse_i32(&ys), parse_i32(&ms)) {
                (Some(y), Some(m)) => {
                    if 1 <= m && m <= 12 {
                        Some((y, m))
                    } else {
                        None
                    }
                },
                _ => None,
            }
        },
    }
}

} // verus!
