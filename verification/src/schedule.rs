//! The schedule grammar of `schedule` funding templates: five- or six-field
//! cron expressions and plain-language intervals ("weekly", "every 2 weeks"),
//! and whether a schedule falls due within a given month.

use vstd::prelude::*;
use vstd::string::StringSliceAdditionalSpecFns;
use vstd::utf8::{encode_utf8, is_ascii_chars, is_char_boundary};
use crate::text::{
    ascii_lower_seq, chars_eq_str, chars_of, contains_seq, digits_value, contains_str, find_char, index_of,
    is_ws, lemma_index_of_props, occurs_at, parse_u32, parse_u32_or, parse_u32_or_default,
    parse_u32_spec, slice_chars, split_chars, split_on, starts_with_str, trim, trim_vec, words,
    words_of,
};
use crate::unicode::{is_alphabetic, lowercase_of, to_lowercase, unicode_alphabetic, unicode_lowercase};
use crate::calendar::{
    date_year_ok, days_in_month, key_year, latin1, month_key_of, month_key_sliceable, month_length,
    weekday_from_sunday,
};
use crate::dates::weekday_sunday0;

verus! {

/// `t[..k]` where `k` is the first `c`.
pub open spec fn before_first(t: Seq<char>, c: char) -> Seq<char> {
    t.subrange(0, index_of(t, c)->0)
}

/// `t[k+1..]` where `k` is the first `c`.
pub open spec fn after_first(t: Seq<char>, c: char) -> Seq<char> {
    t.subrange(index_of(t, c)->0 + 1, t.len() as int)
}

/// One comma-free cron field already trimmed and not `*`.
pub open spec fn cron_term(t: Seq<char>, value: int, min: int, max: int) -> bool {
    if index_of(t, '/') is Some {
        let step = parse_u32_or(trim(after_first(t, '/')), 0) as int;
        let base = trim(before_first(t, '/'));
        if step == 0 {
            false
        } else if base == "*"@ {
            (value - min) % step == 0
        } else if index_of(base, '-') is Some {
            let start = parse_u32_or(trim(before_first(base, '-')), min as u32) as int;
            let end = parse_u32_or(trim(after_first(base, '-')), max as u32) as int;
            start <= value && value <= end && (value - start) % step == 0
        } else {
            match parse_u32_spec(base) {
                Some(start) => start <= value && (value - start) % step == 0,
                None => false,
            }
        }
    } else if index_of(t, '-') is Some {
        match (parse_u32_spec(trim(before_first(t, '-'))), parse_u32_spec(trim(after_first(t, '-')))) {
            (Some(start), Some(end)) => start <= value && value <= end,
            _ => false,
        }
    } else {
        match parse_u32_spec(t) {
            Some(n) => (min == 0 && n == 7 && value == 0) || value == n,
            None => false,
        }
    }
}

/// One element of a comma list.
pub open spec fn cron_item(part: Seq<char>, value: int, min: int, max: int) -> bool {
    let t = trim(part);
    t == "*"@ || cron_term(t, value, min, max)
}

/// Whether a cron field (`*`, `a`, `a-b`, `*/s`, `a-b/s`, `a/s`, or a comma
/// list of these) admits `value` for a unit whose smallest value is `min`.
pub open spec fn cron_field(field: Seq<char>, value: int, min: int, max: int) -> bool {
    let t = trim(field);
    if t == "*"@ {
        true
    } else if index_of(t, ',') is Some {
        exists|i: int|
            0 <= i < split_on(t, ',').len() && cron_item(#[trigger] split_on(t, ',')[i], value, min, max)
    } else {
        cron_term(t, value, min, max)
    }
}

/// Whether a comma-free term, already trimmed and not `*`, is `*/s` with a
/// step other than zero: the one form that counts from the unit's smallest
/// value, so the one whose value must not lie below it.
pub open spec fn cron_term_counts_from_min(t: Seq<char>) -> bool {
    &&& index_of(t, '/') is Some
    &&& parse_u32_or(trim(after_first(t, '/')), 0) != 0
    &&& trim(before_first(t, '/')) == "*"@
}

/// `cron_term_counts_from_min` for one element of a comma list.
pub open spec fn cron_item_counts_from_min(part: Seq<char>) -> bool {
    let t = trim(part);
    t != "*"@ && cron_term_counts_from_min(t)
}

/// Whether reading the field for `value` reaches a `*/s` term: a comma list
/// is read item by item and stops at the first item that admits `value`.
pub open spec fn cron_field_counts_from_min(field: Seq<char>, value: int, min: int, max: int) -> bool {
    let t = trim(field);
    if t == "*"@ {
        false
    } else if index_of(t, ',') is Some {
        exists|i: int|
            0 <= i < split_on(t, ',').len() && #[trigger] cron_item_counts_from_min(split_on(t, ',')[i])
                && forall|j: int| 0 <= j < i ==> !cron_item(#[trigger] split_on(t, ',')[j], value, min, max)
    } else {
        cron_term_counts_from_min(t)
    }
}

/// `s[..k]` and `s[k+1..]` around the first `c`, which is known to occur.
fn split_first(s: &Vec<char>, c: char, k: usize) -> (r: (Vec<char>, Vec<char>))
    requires
        index_of(s@, c) == Some(k as int),
    ensures
        r.0@ == before_first(s@, c),
        r.1@ == after_first(s@, c),
{
    proof {
        lemma_index_of_props(s@, c);
    }
    assert(k < s.len());
    (slice_chars(s, 0, k), slice_chars(s, k + 1, s.len()))
}

fn cron_term_exec(t: &Vec<char>, value: u32, min: u32, max: u32) -> (r: bool)
    requires
        min <= value || !cron_term_counts_from_min(t@),
    ensures
        r == cron_term(t@, value as int, min as int, max as int),
{
    match find_char(t, '/') {
        Some(k) => {
            let (base0, step0) = split_first(t, '/', k);
            let step = parse_u32_or_default(&trim_vec(&step0), 0);
            if step == 0 {
                return false;
            }
            let base = trim_vec(&base0);
            if chars_eq_str(&base, "*") {
                return (value - min) % step == 0;
            }
            match find_char(&base, '-') {
                Some(k2) => {
                    let (s, e) = split_first(&base, '-', k2);
                    let start = parse_u32_or_default(&trim_vec(&s), min);
                    let end = parse_u32_or_default(&trim_vec(&e), max);
                    if value < start || value > end {
                        return false;
                    }
                    (value - start) % step == 0
                },
                None => match parse_u32(&base) {
                    Some(start) => {
                        if value < start {
                            return false;
                        }
                        (value - start) % step == 0
                    },
                    None => false,
                },
            }
        },
        None => match find_char(t, '-') {
            Some(k) => {
                let (s, e) = split_first(t, '-', k);
                match (parse_u32(&trim_vec(&s)), parse_u32(&trim_vec(&e))) {
                    (Some(start), Some(end)) => value >= start && value <= end,
                    _ => false,
                }
            },
            None => match parse_u32(t) {
                Some(n) => {
                    if min == 0 && n == 7 && value == 0 {
                        return true;
                    }
                    value == n
                },
                None => false,
            },
        },
    }
}

fn cron_item_exec(part: &Vec<char>, value: u32, min: u32, max: u32) -> (r: bool)
    requires
        min <= value || !cron_item_counts_from_min(part@),
    ensures
        r == cron_item(part@, value as int, min as int, max as int),
{
    let t = trim_vec(part);
    if chars_eq_str(&t, "*") {
        return true;
    }
    cron_term_exec(&t, value, min, max)
}

/// Does the cron field admit `value`? `min` is the unit's smallest value;
/// `max` is the fallback end of an open range. `value` may lie below `min`
/// only where the reading does not reach a `*/s` term, which counts from `min`.
pub fn cron_field_matches(field: &str, value: u32, min: u32, max: u32) -> (r: bool)
    requires
        min <= value || !cron_field_counts_from_min(field@, value as int, min as int, max as int),
    ensures
        r == cron_field(field@, value as int, min as int, max as int),
{
    let t = crate::text::trim_str(field);
    if chars_eq_str(&t, "*") {
        return true;
    }
    if find_char(&t, ',').is_some() {
        let parts = split_chars(&t, ',');
        let mut i: usize = 0;
        while i < parts.len()
            invariant
                i <= parts@.len() == split_on(t@, ',').len(),
                forall|j: int| 0 <= j < parts@.len() ==> (#[trigger] parts@[j])@ == split_on(t@, ',')[j],
                forall|j: int| 0 <= j < i ==> !cron_item(#[trigger] split_on(t@, ',')[j], value as int, min as int, max as int),
                min <= value || !cron_field_counts_from_min(field@, value as int, min as int, max as int),
                t@ == trim(field@),
                index_of(t@, ',') is Some,
                t@ != "*"@,
            decreases parts.len() - i,
        {
            if value < min {
                assert(!cron_item_counts_from_min(split_on(t@, ',')[i as int])) by {
                    if cron_item_counts_from_min(split_on(t@, ',')[i as int]) {
                        assert(cron_field_counts_from_min(field@, value as int, min as int, max as int));
                    }
                }
            }
            if cron_item_exec(&parts[i], value, min, max) {
                assert(cron_item(split_on(t@, ',')[i as int], value as int, min as int, max as int));
                assert(exists|j: int|
                    0 <= j < split_on(t@, ',').len() && cron_item(#[trigger] split_on(t@, ',')[j], value as int, min as int, max as int));
                return true;
            }
            i += 1;
        }
        return false;
    }
    cron_term_exec(&t, value, min, max)
}

/// `7` and `0` both name Sunday.
pub open spec fn sunday_norm(n: int) -> int {
    if n == 7 {
        0
    } else {
        n
    }
}

/// One comma-free day-of-week field, already trimmed and not `*`; ranges
/// may wrap past Saturday (`5-1` is Friday to Monday).
pub open spec fn dow_term(t: Seq<char>, dow: int) -> bool {
    if index_of(t, '/') is Some {
        let step = parse_u32_or(trim(after_first(t, '/')), 0) as int;
        let base = trim(before_first(t, '/'));
        if step == 0 {
            false
        } else if base == "*"@ {
            dow % step == 0
        } else if index_of(base, '-') is Some {
            let s = sunday_norm(parse_u32_or(trim(before_first(base, '-')), 0) as int);
            let e = sunday_norm(parse_u32_or(trim(after_first(base, '-')), 7) as int);
            if s <= e {
                s <= dow && dow <= e && (dow - s) % step == 0
            } else {
                dow >= s || dow <= e
            }
        } else {
            match parse_u32_spec(base) {
                Some(start) => sunday_norm(start as int) <= dow && (dow - sunday_norm(start as int))
                    % step == 0,
                None => false,
            }
        }
    } else if index_of(t, '-') is Some {
        let s = sunday_norm(parse_u32_or(trim(before_first(t, '-')), 0) as int);
        let e = sunday_norm(parse_u32_or(trim(after_first(t, '-')), 7) as int);
        if s <= e {
            s <= dow && dow <= e
        } else {
            dow >= s || dow <= e
        }
    } else {
        match parse_u32_spec(t) {
            Some(n) => dow == sunday_norm(n as int),
            None => false,
        }
    }
}

pub open spec fn dow_item(part: Seq<char>, dow: int) -> bool {
    let t = trim(part);
    t == "*"@ || dow_term(t, dow)
}

/// Whether a cron day-of-week field admits `dow` (Sunday = 0).
pub open spec fn dow_field(field: Seq<char>, dow: int) -> bool {
    let t = trim(field);
    if t == "*"@ {
        true
    } else if index_of(t, ',') is Some {
        exists|i: int| 0 <= i < split_on(t, ',').len() && dow_item(#[trigger] split_on(t, ',')[i], dow)
    } else {
        dow_term(t, dow)
    }
}

fn norm7(n: u32) -> (r: u32)
    ensures
        r == sunday_norm(n as int),
{
    if n == 7 {
        0
    } else {
        n
    }
}

fn dow_term_exec(t: &Vec<char>, dow: u32) -> (r: bool)
    ensures
        r == dow_term(t@, dow as int),
{
    match find_char(t, '/') {
        Some(k) => {
            let (base0, step0) = split_first(t, '/', k);
            let step = parse_u32_or_default(&trim_vec(&step0), 0);
            if step == 0 {
                return false;
            }
            let base = trim_vec(&base0);
            if chars_eq_str(&base, "*") {
                return dow % step == 0;
            }
            match find_char(&base, '-') {
                Some(k2) => {
                    let (s, e) = split_first(&base, '-', k2);
                    let start_n = norm7(parse_u32_or_default(&trim_vec(&s), 0));
                    let end_n = norm7(parse_u32_or_default(&trim_vec(&e), 7));
                    if start_n <= end_n {
                        if dow < start_n || dow > end_n {
                            return false;
                        }
                        (dow - start_n) % step == 0
                    } else {
                        dow >= start_n || dow <= end_n
                    }
                },
                None => match parse_u32(&base) {
                    Some(start) => {
                        let start_n = norm7(start);
                        if dow < start_n {
                            return false;
                        }
                        (dow - start_n) % step == 0
                    },
                    None => false,
                },
            }
        },
        None => match find_char(t, '-') {
            Some(k) => {
                let (s, e) = split_first(t, '-', k);
                let start_n = norm7(parse_u32_or_default(&trim_vec(&s), 0));
                let end_n = norm7(parse_u32_or_default(&trim_vec(&e), 7));
                if start_n <= end_n {
                    dow >= start_n && dow <= end_n
                } else {
                    dow >= start_n || dow <= end_n
                }
            },
            None => match parse_u32(t) {
                Some(n) => dow == norm7(n),
                None => false,
            },
        },
    }
}

fn dow_item_exec(part: &Vec<char>, dow: u32) -> (r: bool)
    ensures
        r == dow_item(part@, dow as int),
{
    let t = trim_vec(part);
    if chars_eq_str(&t, "*") {
        return true;
    }
    dow_term_exec(&t, dow)
}

/// Does the day-of-week field admit `dow_sunday0`?
pub fn cron_dow_matches(field: &str, dow_sunday0: u32) -> (r: bool)
    ensures
        r == dow_field(field@, dow_sunday0 as int),
{
    let t = crate::text::trim_str(field);
    if chars_eq_str(&t, "*") {
        return true;
    }
    if find_char(&t, ',').is_some() {
        let parts = split_chars(&t, ',');
        let mut i: usize = 0;
        while i < parts.len()
            invariant
                i <= parts@.len() == split_on(t@, ',').len(),
                forall|j: int| 0 <= j < parts@.len() ==> (#[trigger] parts@[j])@ == split_on(t@, ',')[j],
                forall|j: int| 0 <= j < i ==> !dow_item(#[trigger] split_on(t@, ',')[j], dow_sunday0 as int),
                t@ == trim(field@),
                index_of(t@, ',') is Some,
                t@ != "*"@,
            decreases parts.len() - i,
        {
            if dow_item_exec(&parts[i], dow_sunday0) {
                assert(dow_item(split_on(t@, ',')[i as int], dow_sunday0 as int));
                assert(exists|j: int|
                    0 <= j < split_on(t@, ',').len() && dow_item(#[trigger] split_on(t@, ',')[j], dow_sunday0 as int));
                return true;
            }
            i += 1;
        }
        return false;
    }
    dow_term_exec(&t, dow_sunday0)
}

} // verus!

verus! {

/// `month[5..7]` can be taken without panicking.
pub open spec fn month_num_sliceable(b: Seq<u8>) -> bool {
    b.len() >= 7 && is_char_boundary(b, 5) && is_char_boundary(b, 7)
}

/// Month of a key read as `u32`, falling back to 1.
pub open spec fn key_month_u32(b: Seq<u8>) -> int {
    parse_u32_or(latin1(b.subrange(5, 7)), 1) as int
}

/// Whether day `day` of the month satisfies the day-of-month and
/// day-of-week fields, with cron's rule that when both are restricted
/// either one suffices.
pub open spec fn cron_day(dom: Seq<char>, dow: Seq<char>, year: int, mon: int, day: int) -> bool {
    let dom_star = trim(dom) == "*"@;
    let dow_star = trim(dow) == "*"@;
    let dm = cron_field(dom, day, 1, 31);
    let wm = dow_field(dow, weekday_from_sunday(year, mon, day));
    if dom_star && dow_star {
        true
    } else if dom_star {
        wm
    } else if dow_star {
        dm
    } else {
        dm || wm
    }
}

/// The day-of-month, month and day-of-week fields of a five-field
/// (`min hour dom mon dow`) or six-field (seconds first) expression.
pub open spec fn cron_dom(p: Seq<Seq<char>>) -> Seq<char> {
    if p.len() == 5 {
        p[2]
    } else {
        p[3]
    }
}

pub open spec fn cron_mon(p: Seq<Seq<char>>) -> Seq<char> {
    if p.len() == 5 {
        p[3]
    } else {
        p[4]
    }
}

pub open spec fn cron_dow(p: Seq<Seq<char>>) -> Seq<char> {
    if p.len() == 5 {
        p[4]
    } else {
        p[5]
    }
}

/// Whether a cron expression fires on some day of the month keyed by `mb`.
/// Hours and minutes are not consulted.
pub open spec fn cron_due(s: Seq<char>, mb: Seq<u8>) -> bool {
    let p = words(s);
    if p.len() != 5 && p.len() != 6 {
        false
    } else {
        let year = key_year(mb);
        let mon = key_month_u32(mb);
        if mon < 1 || mon > 12 {
            false
        } else if !cron_field(cron_mon(p), mon, 1, 12) {
            false
        } else {
            exists|day: int|
                1 <= day <= month_length(year, mon) && #[trigger] cron_day(
                    cron_dom(p),
                    cron_dow(p),
                    year,
                    mon,
                    day,
                )
        }
    }
}

/// What `cron_is_due_in_month` needs of its month key.
pub open spec fn cron_month_ok(s: Seq<char>, mb: Seq<u8>) -> bool {
    (words(s).len() == 5 || words(s).len() == 6) ==> month_key_sliceable(mb)
}

fn month_u32_of(month: &str) -> (r: u32)
    requires
        month_num_sliceable(month.spec_bytes()),
    ensures
        r == key_month_u32(month.spec_bytes()),
{
    let b = month.as_bytes();
    let ms = crate::calendar::latin1_vec(b, 5, 7);
    parse_u32_or_default(&ms, 1)
}

fn cron_day_exec(
    dom: &Vec<char>,
    dow: &Vec<char>,
    dom_is_star: bool,
    dow_is_star: bool,
    year: i32,
    mon: u32,
    day: u32,
) -> (r: bool)
    requires
        dom_is_star == (trim(dom@) == "*"@),
        dow_is_star == (trim(dow@) == "*"@),
        1 <= mon <= 12,
        1 <= day <= month_length(year as int, mon as int),
        date_year_ok(year as int),
    ensures
        r == cron_day(dom@, dow@, year as int, mon as int, day as int),
{
    let dom_s = crate::text::string_of(dom.as_slice());
    let dow_s = crate::text::string_of(dow.as_slice());
    let dom_match = cron_field_matches(dom_s.as_str(), day, 1, 31);
    let w = weekday_sunday0(year, mon, day);
    let dow_match = cron_dow_matches(dow_s.as_str(), w);
    if dom_is_star && dow_is_star {
        true
    } else if dom_is_star {
        dow_match
    } else if dow_is_star {
        dom_match
    } else {
        dom_match || dow_match
    }
}

/// Whether the cron expression fires on some day of `month` ("YYYY-MM").
pub fn cron_is_due_in_month(cron_str: &str, month: &str) -> (r: bool)
    requires
        cron_month_ok(cron_str@, month.spec_bytes()),
    ensures
        r == cron_due(cron_str@, month.spec_bytes()),
{
    let cs = chars_of(cron_str);
    let parts = words_of(&cs);
    if parts.len() != 5 && parts.len() != 6 {
        return false;
    }
    let off: usize = if parts.len() == 5 {
        2
    } else {
        3
    };
    let ghost p = words(cron_str@);
    proof {
        crate::calendar::lemma_key_bounds(month.spec_bytes());
    }
    let b = month.as_bytes();
    let ys = crate::calendar::latin1_vec(b, 0, 4);
    let year: i32 = match crate::text::parse_i32(&ys) {
        Some(v) => v,
        None => 1970,
    };
    let mon = month_u32_of(month);
    if mon < 1 || mon > 12 {
        return false;
    }
    let mon_s = crate::text::string_of(parts[off + 1].as_slice());
    if !cron_field_matches(mon_s.as_str(), mon, 1, 12) {
        return false;
    }
    let dim = days_in_month(year, mon);
    let dom = &parts[off];
    let dow = &parts[off + 2];
    let dom_is_star = chars_eq_str(&trim_vec(dom), "*");
    let dow_is_star = chars_eq_str(&trim_vec(dow), "*");
    let mut day: u32 = 1;
    while day <= dim
        invariant
            1 <= day <= dim + 1,
            dim == month_length(year as int, mon as int),
            dim <= 31,
            1 <= mon <= 12,
            date_year_ok(year as int),
            p == words(cron_str@),
            p.len() == 5 || p.len() == 6,
            year == key_year(month.spec_bytes()),
            mon == key_month_u32(month.spec_bytes()),
            cron_field(cron_mon(p), mon as int, 1, 12),
            dom@ == cron_dom(p),
            dow@ == cron_dow(p),
            dom_is_star == (trim(dom@) == "*"@),
            dow_is_star == (trim(dow@) == "*"@),
            forall|d: int| 1 <= d < day ==> !#[trigger] cron_day(cron_dom(p), cron_dow(p), year as int, mon as int, d),
        decreases dim + 1 - day,
    {
        if cron_day_exec(dom, dow, dom_is_star, dow_is_star, year, mon, day) {
            assert(cron_day(cron_dom(p), cron_dow(p), year as int, mon as int, day as int));
            return true;
        }
        day += 1;
    }
    false
}

} // verus!

verus! {

/// End of the run of ASCII digits starting at `i`.
pub open spec fn digit_run_end(c: Seq<char>, i: int) -> int
    decreases c.len() - i,
{
    if 0 <= i < c.len() && crate::text::is_digit(c[i]) {
        digit_run_end(c, i + 1)
    } else {
        i
    }
}

pub proof fn lemma_digit_run_bounds(c: Seq<char>, i: int)
    requires
        0 <= i <= c.len(),
    ensures
        i <= digit_run_end(c, i) <= c.len(),
    decreases c.len() - i,
{
    if 0 <= i < c.len() && crate::text::is_digit(c[i]) {
        lemma_digit_run_bounds(c, i + 1);
    }
}

pub proof fn lemma_ws_run_bounds(c: Seq<char>, i: int)
    requires
        0 <= i <= c.len(),
    ensures
        i <= ws_run_end(c, i) <= c.len(),
    decreases c.len() - i,
{
    if 0 <= i < c.len() && crate::text::is_ws(c[i]) {
        lemma_ws_run_bounds(c, i + 1);
    }
}

/// End of the run of whitespace starting at `i`.
pub open spec fn ws_run_end(c: Seq<char>, i: int) -> int
    decreases c.len() - i,
{
    if 0 <= i < c.len() && crate::text::is_ws(c[i]) {
        ws_run_end(c, i + 1)
    } else {
        i
    }
}

/// Days for `num` followed by the unit text `rest`.
pub open spec fn unit_days(rest: Seq<char>, num: int) -> Option<int> {
    if occurs_at(rest, "day"@, 0) {
        Some(num)
    } else if occurs_at(rest, "week"@, 0) {
        Some(num * 7)
    } else if occurs_at(rest, "month"@, 0) {
        Some(num * 30)
    } else if occurs_at(rest, "year"@, 0) {
        Some(num * 365)
    } else if rest.len() >= 1 && rest[0] == 'd' && (rest.len() == 1 || !unicode_alphabetic(
        rest[1],
    )) {
        Some(num)
    } else if rest.len() >= 1 && rest[0] == 'w' {
        Some(num * 7)
    } else if rest.len() == 0 {
        Some(num)
    } else {
        None
    }
}

/// The first "<number> <unit>" in `c` at or after `i`.
pub open spec fn scan_interval(c: Seq<char>, i: int) -> Option<int>
    decreases c.len() - i,
{
    if i < 0 || i >= c.len() {
        None
    } else if crate::text::is_digit(c[i]) {
        proof {
            lemma_digit_run_bounds(c, i);
        }
        let e = digit_run_end(c, i);
        if e <= i {
            None
        } else {
            match parse_u32_spec(c.subrange(i, e)) {
                Some(num) => match unit_days(c.subrange(ws_run_end(c, e), c.len() as int), num as int) {
                    Some(d) => Some(d),
                    None => scan_interval(c, e),
                },
                None => scan_interval(c, e),
            }
        }
    } else {
        scan_interval(c, i + 1)
    }
}

pub open spec fn is_one_of(t: Seq<char>, ws: Seq<Seq<char>>) -> bool {
    exists|i: int| 0 <= i < ws.len() && t == #[trigger] ws[i]
}

/// The day count of a plain-language interval: keywords first, then the
/// first "<number> <unit>", then a keyword anywhere in the text. Computed
/// without bounds; the caller's value is a `u32`.
pub open spec fn interval_days(s: Seq<char>) -> Option<int> {
    let lower = lowercase_of(s);
    let t = trim(lower);
    if t == "daily"@ || t == "day"@ || t == "every day"@ || t == "everyday"@ {
        Some(1)
    } else if t == "weekly"@ || t == "every week"@ || t == "week"@ {
        Some(7)
    } else if t == "biweekly"@ || t == "bi-weekly"@ || t == "fortnightly"@ || t
        == "every 2 weeks"@ || t == "every fortnight"@ {
        Some(14)
    } else if t == "monthly"@ || t == "every month"@ || t == "month"@ || t == "once a month"@ {
        Some(30)
    } else if t == "quarterly"@ || t == "every quarter"@ || t == "every 3 months"@ {
        Some(90)
    } else if t == "semiannually"@ || t == "semi-annually"@ || t == "every 6 months"@ {
        Some(180)
    } else if t == "yearly"@ || t == "annually"@ || t == "annual"@ || t == "every year"@ || t
        == "every 12 months"@ {
        Some(365)
    } else {
        match scan_interval(lower, 0) {
            Some(d) => Some(d),
            None => if contains_seq(lower, "daily"@) {
                Some(1)
            } else if contains_seq(lower, "weekly"@) {
                Some(7)
            } else if contains_seq(lower, "monthly"@) {
                Some(30)
            } else {
                None
            },
        }
    }
}

/// The interval's day count fits a `u32`, as the arithmetic requires.
pub open spec fn interval_fits(s: Seq<char>) -> bool {
    interval_days(s) matches Some(d) ==> d <= u32::MAX
}

fn unit_days_exec(c: &Vec<char>, j: usize, num: u32) -> (r: Option<u64>)
    requires
        j <= c.len(),
    ensures
        match r {
            Some(v) => unit_days(c@.subrange(j as int, c.len() as int), num as int) == Some(
                v as int,
            ),
            None => unit_days(c@.subrange(j as int, c.len() as int), num as int) is None,
        },
{
    let rest = slice_chars(c, j, c.len());
    let n = num as u64;
    if starts_with_str(&rest, "day") {
        return Some(n);
    } else if starts_with_str(&rest, "week") {
        return Some(n * 7);
    } else if starts_with_str(&rest, "month") {
        return Some(n * 30);
    } else if starts_with_str(&rest, "year") {
        return Some(n * 365);
    } else if rest.len() >= 1 && rest[0] == 'd' && (rest.len() == 1 || !is_alphabetic(
        rest[1],
    )) {
        return Some(n);
    } else if rest.len() >= 1 && rest[0] == 'w' {
        return Some(n * 7);
    } else if rest.len() == 0 {
        return Some(n);
    }
    None
}

fn scan_interval_exec(c: &Vec<char>) -> (r: Option<u64>)
    ensures
        match r {
            Some(v) => scan_interval(c@, 0) == Some(v as int),
            None => scan_interval(c@, 0) is None,
        },
{
    let mut i: usize = 0;
    while i < c.len()
        invariant
            i <= c.len(),
            scan_interval(c@, 0) == scan_interval(c@, i as int),
        decreases c.len() - i,
    {
        if '0' <= c[i] && c[i] <= '9' {
            let start = i;
            while i < c.len() && '0' <= c[i] && c[i] <= '9'
                invariant
                    start < i <= c.len() || (start == i && i < c.len() && crate::text::is_digit(
                        c@[i as int],
                    )),
                    digit_run_end(c@, start as int) == digit_run_end(c@, i as int),
                decreases c.len() - i,
            {
                i += 1;
            }
            let run = slice_chars(c, start, i);
            match parse_u32(&run) {
                Some(num) => {
                    let mut j = i;
                    while j < c.len() && crate::text::is_whitespace(c[j])
                        invariant
                            i <= j <= c.len(),
                            ws_run_end(c@, i as int) == ws_run_end(c@, j as int),
                        decreases c.len() - j,
                    {
                        j += 1;
                    }
                    match unit_days_exec(c, j, num) {
                        Some(d) => {
                            return Some(d);
                        },
                        None => {},
                    }
                },
                None => {},
            }
        } else {
            i += 1;
        }
    }
    None
}

fn chars_in(t: &Vec<char>, a: &str) -> (r: bool)
    ensures
        r == (t@ == a@),
{
    chars_eq_str(t, a)
}

/// The day count of a plain-language interval, if it reads as one,
/// computed without overflow.
fn interval_days_wide(s: &str) -> (r: Option<u64>)
    ensures
        match r {
            Some(v) => interval_days(s@) == Some(v as int),
            None => interval_days(s@) is None,
        },
{
    let lower_s = to_lowercase(s);
    let lower = chars_of(lower_s.as_str());
    let t = trim_vec(&lower);
    if chars_in(&t, "daily") || chars_in(&t, "day") || chars_in(&t, "every day") || chars_in(
        &t,
        "everyday",
    ) {
        return Some(1);
    }
    if chars_in(&t, "weekly") || chars_in(&t, "every week") || chars_in(&t, "week") {
        return Some(7);
    }
    if chars_in(&t, "biweekly") || chars_in(&t, "bi-weekly") || chars_in(&t, "fortnightly")
        || chars_in(&t, "every 2 weeks") || chars_in(&t, "every fortnight") {
        return Some(14);
    }
    if chars_in(&t, "monthly") || chars_in(&t, "every month") || chars_in(&t, "month")
        || chars_in(&t, "once a month") {
        return Some(30);
    }
    if chars_in(&t, "quarterly") || chars_in(&t, "every quarter") || chars_in(
        &t,
        "every 3 months",
    ) {
        return Some(90);
    }
    if chars_in(&t, "semiannually") || chars_in(&t, "semi-annually") || chars_in(
        &t,
        "every 6 months",
    ) {
        return Some(180);
    }
    if chars_in(&t, "yearly") || chars_in(&t, "annually") || chars_in(&t, "annual") || chars_in(
        &t,
        "every year",
    ) || chars_in(&t, "every 12 months") {
        return Some(365);
    }
    match scan_interval_exec(&lower) {
        Some(d) => {
            return Some(d);
        },
        None => {},
    }
    if contains_str(&lower, "daily") {
        return Some(1);
    }
    if contains_str(&lower, "weekly") {
        return Some(7);
    }
    if contains_str(&lower, "monthly") {
        return Some(30);
    }
    None
}

/// The day count of a plain-language interval, if it reads as one.
pub fn interval_days_from_str(s: &str) -> (r: Option<u32>)
    requires
        interval_fits(s@),
    ensures
        match r {
            Some(v) => interval_days(s@) == Some(v as int),
            None => interval_days(s@) is None,
        },
{
    match interval_days_wide(s) {
        Some(d) => Some(d as u32),
        None => None,
    }
}

/// Whether an interval's day count fits a `u32`, as reading it requires.
pub fn interval_in_range(s: &str) -> (r: bool)
    ensures
        r == interval_fits(s@),
{
    match interval_days_wide(s) {
        Some(d) => d <= 0xffff_ffff,
        None => true,
    }
}

/// Whether an interval schedule is due in the month keyed by `mb`:
/// monthly-or-faster always; quarterly in January, April, July and October;
/// half-yearly in January and July; anything longer in January.
pub open spec fn interval_due(s: Seq<char>, mb: Seq<u8>) -> Option<bool> {
    match interval_days(s) {
        None => None,
        Some(days) => {
            let mon = key_month_u32(mb);
            Some(
                if days <= 45 {
                    true
                } else if days <= 100 {
                    mon % 3 == 1
                } else if days <= 200 {
                    mon % 6 == 1
                } else {
                    mon == 1
                },
            )
        },
    }
}

/// What `interval_is_due_in_month` needs: a day count that fits, and a
/// month key it can read when there is one.
pub open spec fn interval_month_ok(s: Seq<char>, mb: Seq<u8>) -> bool {
    interval_fits(s) && (interval_days(s) is Some ==> month_num_sliceable(mb))
}

/// Whether a plain-language interval falls due in `month`: anything up to
/// 45 days every month, up to 100 days in quarter months, up to 200 days in
/// January and July, longer only in January; `None` when it names no
/// interval.
pub fn interval_is_due_in_month(interval_str: &str, month: &str) -> (r: Option<bool>)
    requires
        interval_month_ok(interval_str@, month.spec_bytes()),
    ensures
        r == interval_due(interval_str@, month.spec_bytes()),
{
    let days = match interval_days_from_str(interval_str) {
        Some(d) => d,
        None => {
            return None;
        },
    };
    let mon = month_u32_of(month);
    let due = if days <= 45 {
        true
    } else if days <= 100 {
        mon % 3 == 1
    } else if days <= 200 {
        mon % 6 == 1
    } else {
        mon == 1
    };
    Some(due)
}

/// Whether a schedule string (cron or interval) falls due in the month
/// keyed by `mb`. Cron-looking text (a `*`, a `/`, or five or more words)
/// with five or six fields is read as cron; otherwise it is read as an
/// interval, and failing that as cron.
pub open spec fn schedule_due(s: Seq<char>, mb: Seq<u8>) -> bool {
    let t = trim(s);
    let n = words(t).len();
    let cron_like = index_of(t, '*') is Some || index_of(t, '/') is Some || n >= 5;
    if t.len() == 0 {
        false
    } else if cron_like && (n == 5 || n == 6) {
        cron_due(t, mb)
    } else {
        match interval_due(t, mb) {
            Some(d) => d,
            None => cron_due(t, mb),
        }
    }
}

/// What `schedule_is_due` needs of its inputs to run without panicking.
pub open spec fn schedule_month_ok(s: Seq<char>, mb: Seq<u8>) -> bool {
    let t = trim(s);
    let n = words(t).len();
    let cron_like = index_of(t, '*') is Some || index_of(t, '/') is Some || n >= 5;
    if t.len() == 0 {
        true
    } else if cron_like && (n == 5 || n == 6) {
        cron_month_ok(t, mb)
    } else {
        interval_month_ok(t, mb) && (interval_days(t) is None ==> cron_month_ok(t, mb))
    }
}

/// Whether a template's schedule falls due in `month`: a cron-like text of
/// five or six fields by its day, month and weekday fields, otherwise as a
/// plain-language interval, falling back to cron; blank text never.
pub fn schedule_is_due(schedule_str: &str, month: &str) -> (r: bool)
    requires
        schedule_month_ok(schedule_str@, month.spec_bytes()),
    ensures
        r == schedule_due(schedule_str@, month.spec_bytes()),
{
    let t = crate::text::trim_str(schedule_str);
    if t.len() == 0 {
        return false;
    }
    let s = crate::text::string_of(t.as_slice());
    let n = words_of(&t).len();
    let is_cron_like = find_char(&t, '*').is_some() || find_char(&t, '/').is_some() || n >= 5;
    if is_cron_like {
        if n == 5 || n == 6 {
            return cron_is_due_in_month(s.as_str(), month);
        }
    }
    if let Some(due) = interval_is_due_in_month(s.as_str(), month) {
        return due;
    }
    cron_is_due_in_month(s.as_str(), month)
}

/// Whether a schedule and a month key are inputs `schedule_is_due` can
/// read: the day count of an interval fits, and the month key can be sliced
/// where the schedule needs it.
pub fn schedule_month_check(schedule_str: &str, month: &str) -> (r: bool)
    ensures
        r == schedule_month_ok(schedule_str@, month.spec_bytes()),
{
    let t = crate::text::trim_str(schedule_str);
    if t.len() == 0 {
        return true;
    }
    let s = crate::text::string_of(t.as_slice());
    let n = words_of(&t).len();
    let is_cron_like = find_char(&t, '*').is_some() || find_char(&t, '/').is_some() || n >= 5;
    let key_ok = crate::calendar::month_key_ok(month);
    let num_ok = month.as_bytes().len() >= 7 && month.is_char_boundary(5) && month.is_char_boundary(7);
    let cron_ok = !(n == 5 || n == 6) || key_ok;
    if is_cron_like && (n == 5 || n == 6) {
        return cron_ok;
    }
    let fits = interval_in_range(s.as_str());
    if !fits {
        return false;
    }
    let days = interval_days_from_str(s.as_str());
    let interval_ok = days.is_none() || num_ok;
    interval_ok && (days.is_some() || cron_ok)
}

/// Whether a schedule falls due in `month`, when `schedule_is_due` can read
/// the two: `None` for the inputs on which it would panic (an interval whose
/// day count overflows, or a month key that cannot be sliced where needed).
pub fn schedule_due_checked(schedule_str: &str, month: &str) -> (r: Option<bool>)
    ensures
        r is Some <==> schedule_month_ok(schedule_str@, month.spec_bytes()),
        r matches Some(d) ==> d == schedule_due(schedule_str@, month.spec_bytes()),
{
    if schedule_month_check(schedule_str, month) {
        Some(schedule_is_due(schedule_str, month))
    } else {
        None
    }
}

/// A word of lowercase ASCII letters lowercases to itself, trims to itself,
/// is one word, and holds neither `*` nor `/`.
proof fn lemma_lowercase_word(w: Seq<char>)
    requires
        w.len() > 0,
        forall|i: int| 0 <= i < w.len() ==> 'a' <= #[trigger] w[i] <= 'z',
    ensures
        lowercase_of(w) == w,
        trim(w) == w,
        words(w).len() == 1,
        index_of(w, '*') is None,
        index_of(w, '/') is None,
    decreases w.len(),
{
    assert('a' <= w[0] <= 'z');
    assert(is_ascii_chars(w));
    assert(ascii_lower_seq(w) =~= w);
    crate::goals::lemma_trim_no_ws(w);
    if w.len() > 1 {
        let d = w.drop_last();
        let f = w.drop_first();
        assert forall|i: int| 0 <= i < d.len() implies 'a' <= #[trigger] d[i] <= 'z' by {
            assert(d[i] == w[i]);
        }
        assert forall|i: int| 0 <= i < f.len() implies 'a' <= #[trigger] f[i] <= 'z' by {
            assert(f[i] == w[i + 1]);
        }
        lemma_lowercase_word(d);
        lemma_lowercase_word(f);
        assert('a' <= w[w.len() - 2] <= 'z');
        assert('a' <= w[w.len() - 1] <= 'z');
        assert(w[w.len() - 2] == d.last());
        assert(!is_ws(w.last()) && !is_ws(w[w.len() - 2]));
    } else {
        assert('a' <= w[0] <= 'z');
        assert(!is_ws(w.last()));
        assert(words(w.drop_last()) =~= Seq::<Seq<char>>::empty());
        assert(w.drop_last() =~= Seq::<char>::empty());
        assert(w.drop_first() =~= Seq::<char>::empty());
    }
}

/// A text of lowercase ASCII letters, digits, hyphens and inner spaces
/// lowercases and trims to itself.
proof fn lemma_plain_text(w: Seq<char>)
    requires
        w.len() > 0,
        forall|i: int|
            0 <= i < w.len() ==> ('a' <= #[trigger] w[i] <= 'z') || ('0' <= w[i] <= '9') || w[i] == '-' || w[i]
                == ' ',
        w[0] != ' ',
        w.last() != ' ',
    ensures
        lowercase_of(w) == w,
        trim(w) == w,
{
    assert(is_ascii_chars(w));
    assert(ascii_lower_seq(w) =~= w);
    crate::goals::lemma_trim_no_ws(w);
}

/// Semi-annual schedules, under each name the schedule grammar gives them,
/// are a 180-day interval and fall due in January and July only, for every
/// month key from year -999 to 9999.
pub proof fn law_semiannual_schedules(t: int)
    requires
        -11988 <= t < 120000,
    ensures
        interval_days("semiannually"@) == Some(180int),
        interval_days("semi-annually"@) == Some(180int),
        interval_days("every 6 months"@) == Some(180int),
        ({
            let mb = encode_utf8(month_key_of(t));
            let m = t % 12 + 1;
            &&& schedule_due("semiannually"@, mb) <==> (m == 1 || m == 7)
            &&& schedule_due("semi-annually"@, mb) <==> (m == 1 || m == 7)
            &&& schedule_due("every 6 months"@, mb) <==> (m == 1 || m == 7)
        }),
{
    let mb = encode_utf8(month_key_of(t));
    let m = t % 12 + 1;
    crate::calendar::law_month_key_round_trip(t);
    assert(key_month_u32(mb) == m);
    reveal_strlit("daily");
    reveal_strlit("day");
    reveal_strlit("every day");
    reveal_strlit("everyday");
    reveal_strlit("weekly");
    reveal_strlit("every week");
    reveal_strlit("week");
    reveal_strlit("biweekly");
    reveal_strlit("bi-weekly");
    reveal_strlit("fortnightly");
    reveal_strlit("every 2 weeks");
    reveal_strlit("every fortnight");
    reveal_strlit("monthly");
    reveal_strlit("every month");
    reveal_strlit("month");
    reveal_strlit("once a month");
    reveal_strlit("quarterly");
    reveal_strlit("every quarter");
    reveal_strlit("every 3 months");
    reveal_strlit("semiannually");
    reveal_strlit("semi-annually");
    reveal_strlit("every 6 months");
    let a = "semiannually"@;
    let b = "semi-annually"@;
    let c = "every 6 months"@;
    lemma_plain_text(a);
    lemma_plain_text(b);
    lemma_plain_text(c);
    assert(interval_days(a) == Some(180int));
    assert(interval_days(b) == Some(180int));
    assert(c[6] != "every 3 months"@[6]);
    assert(interval_days(c) == Some(180int));
    assert(index_of(a, '*') is None && index_of(a, '/') is None) by {
        reveal_with_fuel(index_of, 16);
    }
    assert(index_of(b, '*') is None && index_of(b, '/') is None) by {
        reveal_with_fuel(index_of, 16);
    }
    assert(index_of(c, '*') is None && index_of(c, '/') is None) by {
        reveal_with_fuel(index_of, 16);
    }
    assert(words(a).len() == 1) by {
        reveal_with_fuel(words, 16);
    }
    assert(words(b).len() == 1) by {
        reveal_with_fuel(words, 16);
    }
    assert(words(c).len() == 3) by {
        reveal_with_fuel(words, 16);
    }
    assert(schedule_due(a, mb) <==> (m == 1 || m == 7));
    assert(schedule_due(b, mb) <==> (m == 1 || m == 7));
    assert(schedule_due(c, mb) <==> (m == 1 || m == 7));
}

/// The common schedules over every month key from year -999 to 9999 (the
/// keys `format!("{:04}-{:02}", y, m)` writes): weekly, monthly and "0 0 1 * *"
/// fall due every month, quarterly in January, April, July and October, and
/// yearly in January only.
pub proof fn law_common_schedules_by_month(t: int)
    requires
        -11988 <= t < 120000,
    ensures
        ({
            let mb = encode_utf8(month_key_of(t));
            let m = t % 12 + 1;
            &&& schedule_due("weekly"@, mb)
            &&& schedule_due("monthly"@, mb)
            &&& schedule_due("0 0 1 * *"@, mb)
            &&& schedule_due("quarterly"@, mb) <==> m % 3 == 1
            &&& schedule_due("yearly"@, mb) <==> m == 1
        }),
{
    let mb = encode_utf8(month_key_of(t));
    let m = t % 12 + 1;
    crate::calendar::law_month_key_round_trip(t);
    assert(key_month_u32(mb) == m);
    reveal_strlit("daily");
    reveal_strlit("day");
    reveal_strlit("every day");
    reveal_strlit("everyday");
    reveal_strlit("weekly");
    reveal_strlit("every week");
    reveal_strlit("week");
    reveal_strlit("biweekly");
    reveal_strlit("bi-weekly");
    reveal_strlit("fortnightly");
    reveal_strlit("every 2 weeks");
    reveal_strlit("every fortnight");
    reveal_strlit("monthly");
    reveal_strlit("every month");
    reveal_strlit("month");
    reveal_strlit("once a month");
    reveal_strlit("quarterly");
    reveal_strlit("every quarter");
    reveal_strlit("every 3 months");
    reveal_strlit("semiannually");
    reveal_strlit("semi-annually");
    reveal_strlit("every 6 months");
    reveal_strlit("yearly");
    reveal_strlit("0 0 1 * *");
    reveal_strlit("*");
    lemma_lowercase_word("weekly"@);
    lemma_lowercase_word("monthly"@);
    lemma_lowercase_word("quarterly"@);
    lemma_lowercase_word("yearly"@);
    assert(interval_days("weekly"@) == Some(7int));
    assert(interval_days("monthly"@) == Some(30int));
    assert(interval_days("quarterly"@) == Some(90int));
    assert(interval_days("yearly"@) == Some(365int));
    assert(schedule_due("weekly"@, mb));
    assert(schedule_due("monthly"@, mb));
    assert(schedule_due("quarterly"@, mb) <==> m % 3 == 1);
    assert(schedule_due("yearly"@, mb) <==> m == 1);
    // The cron expression: five fields, every month, day 1.
    let c = "0 0 1 * *"@;
    let one = seq!['1'];
    let star = seq!['*'];
    crate::goals::lemma_trim_no_ws(c);
    crate::goals::lemma_trim_no_ws(one);
    crate::goals::lemma_trim_no_ws(star);
    assert(words(c) =~= seq![seq!['0'], seq!['0'], one, star, star]) by {
        reveal_with_fuel(words, 10);
    }
    assert(index_of(c, '*') is Some) by {
        reveal_with_fuel(index_of, 10);
    }
    assert(star == "*"@);
    assert(one != "*"@);
    assert(index_of(one, ',') is None) by {
        reveal_with_fuel(index_of, 3);
    }
    assert(index_of(one, '/') is None) by {
        reveal_with_fuel(index_of, 3);
    }
    assert(index_of(one, '-') is None) by {
        reveal_with_fuel(index_of, 3);
    }
    assert(digits_value(one) == 1) by {
        reveal_with_fuel(crate::text::digits_value, 3);
        assert(one.drop_last() =~= Seq::<char>::empty());
    }
    assert(parse_u32_spec(one) == Some(1u32));
    assert(cron_field(one, 1, 1, 31));
    let year = key_year(mb);
    let p = words(c);
    assert(cron_dom(p) == one && cron_mon(p) == star && cron_dow(p) == star);
    assert(cron_field(star, m, 1, 12));
    assert(1 <= month_length(year, m));
    assert(cron_day(one, star, year, m, 1));
    assert(cron_due(c, mb));
    assert(trim(c) == c);
    assert(schedule_due(c, mb));
}

} // verus!
