//! Calendar arithmetic on `YYYY-MM` month keys and proleptic Gregorian dates.

use vstd::prelude::*;
use vstd::utf8::is_char_boundary;
use vstd::string::StringSliceAdditionalSpecFns;
use crate::text::{
    all_digits, dec_digits, digit_char, digit_val, digits_value, fmt_padded, is_digit, parse_i32,
    parse_i32_spec, parse_u32_spec, push_padded, string_of,
};
use vstd::utf8::{encode_utf8, is_ascii_chars};

verus! {

/// Bytes read one-to-one as characters. A slice of ASCII digits reads the same
/// either way, and any other byte makes the number parsers below fail, so it
/// parses exactly as the `&str` slice over those bytes does.
pub open spec fn latin1(b: Seq<u8>) -> Seq<char> {
    Seq::new(b.len(), |i: int| (b[i] as char))
}

/// `month[0..4]` and `month[5..7]` can be taken without panicking.
pub open spec fn month_key_sliceable(b: Seq<u8>) -> bool {
    &&& b.len() >= 7
    &&& is_char_boundary(b, 4)
    &&& is_char_boundary(b, 5)
    &&& is_char_boundary(b, 7)
}

/// The year of a `YYYY-MM` key: its first four bytes as an `i32`, or 1970.
pub open spec fn key_year(b: Seq<u8>) -> int {
    match parse_i32_spec(latin1(b.subrange(0, 4))) {
        Some(v) => v as int,
        None => 1970,
    }
}

/// The month of a `YYYY-MM` key: bytes 5..7 as an `i32`, or 1.
pub open spec fn key_month(b: Seq<u8>) -> int {
    match parse_i32_spec(latin1(b.subrange(5, 7))) {
        Some(v) => v as int,
        None => 1,
    }
}

/// Zero-based month count since year 0.
pub open spec fn key_index(b: Seq<u8>) -> int {
    key_year(b) * 12 + (key_month(b) - 1)
}

/// The key for a zero-based month count: `format!("{y:04}-{m:02}")`.
pub open spec fn month_key_of(total: int) -> Seq<char> {
    fmt_padded(total / 12, 4) + seq!['-'] + fmt_padded(total % 12 + 1, 2)
}

/// The bytes `b[lo..hi]`, each read as the character of that code point.
pub fn latin1_vec(b: &[u8], lo: usize, hi: usize) -> (r: Vec<char>)
    requires
        lo <= hi <= b@.len(),
    ensures
        r@ == latin1(b@.subrange(lo as int, hi as int)),
{
    let mut r: Vec<char> = Vec::new();
    let mut i = lo;
    while i < hi
        invariant
            lo <= i <= hi <= b@.len(),
            r@ =~= latin1(b@.subrange(lo as int, i as int)),
        decreases hi - i,
    {
        r.push(b[i] as char);
        i += 1;
    }
    r
}

/// Year and month numbers of a key, with the fallbacks applied.
fn key_parts(month: &str) -> (r: (i32, i32))
    requires
        month_key_sliceable(month.spec_bytes()),
    ensures
        r.0 == key_year(month.spec_bytes()),
        r.1 == key_month(month.spec_bytes()),
{
    let b = month.as_bytes();
    let ys = latin1_vec(b, 0, 4);
    let ms = latin1_vec(b, 5, 7);
    let y = match parse_i32(&ys) {
        Some(v) => v,
        None => 1970,
    };
    let m = match parse_i32(&ms) {
        Some(v) => v,
        None => 1,
    };
    (y, m)
}

pub proof fn lemma_key_bounds(b: Seq<u8>)
    requires
        b.len() >= 7,
    ensures
        -999 <= key_year(b) <= 9999,
        -9 <= key_month(b) <= 99,
{
    lemma_parse_short_bounds(latin1(b.subrange(0, 4)));
    lemma_parse_short_bounds(latin1(b.subrange(5, 7)));
}

proof fn lemma_parse_short_bounds(s: Seq<char>)
    ensures
        s.len() <= 4 ==> (parse_i32_spec(s) matches Some(v) ==> -999 <= v <= 9999),
        s.len() <= 2 ==> (parse_i32_spec(s) matches Some(v) ==> -9 <= v <= 99),
{
    let body = if s.len() > 0 && (s[0] == '+' || s[0] == '-') {
        s.drop_first()
    } else {
        s
    };
    if s.len() <= 4 && body.len() > 0 && all_digits(body) {
        lemma_digits_bound(body);
        if s.len() > 0 && (s[0] == '+' || s[0] == '-') {
            assert(body.len() <= 3);
        }
    }
}

proof fn lemma_digits_bound(s: Seq<char>)
    requires
        all_digits(s),
    ensures
        0 <= digits_value(s),
        s.len() <= 1 ==> digits_value(s) <= 9,
        s.len() <= 2 ==> digits_value(s) <= 99,
        s.len() <= 3 ==> digits_value(s) <= 999,
        s.len() <= 4 ==> digits_value(s) <= 9999,
    decreases s.len(),
{
    if s.len() > 0 {
        assert(all_digits(s.drop_last())) by {
            assert forall|i: int| 0 <= i < s.drop_last().len() implies is_digit(
                #[trigger] s.drop_last()[i],
            ) by {
                assert(s.drop_last()[i] == s[i]);
            }
        }
        lemma_digits_bound(s.drop_last());
        assert(is_digit(s[s.len() - 1]));
    }
}

/// Whether a month key can be sliced into its year and month parts.
pub fn month_key_ok(month: &str) -> (r: bool)
    ensures
        r == month_key_sliceable(month.spec_bytes()),
{
    let b = month.as_bytes();
    b.len() >= 7 && month.is_char_boundary(4) && month.is_char_boundary(5) && month.is_char_boundary(7)
}

/// The `YYYY-MM` key `n` months before `month` (after it, for negative `n`).
pub fn month_before(month: &str, n: i32) -> (r: String)
    requires
        month_key_sliceable(month.spec_bytes()),
        i32::MIN <= key_index(month.spec_bytes()) - n <= i32::MAX,
    ensures
        r@ == month_key_of(key_index(month.spec_bytes()) - n),
{
    proof {
        lemma_key_bounds(month.spec_bytes());
    }
    let (year, mon) = key_parts(month);
    let total: i32 = year * 12 + (mon - 1) - n;
    month_key_from_index(total)
}

/// `format!("{y:04}-{m:02}")` for the month with zero-based count `total`.
pub fn month_key_from_index(total: i32) -> (r: String)
    ensures
        r@ == month_key_of(total as int),
{
    let shifted: u64 = (total as i64 + 12 * 0x8000_0000i64) as u64;
    let y: i64 = (shifted / 12) as i64 - 0x8000_0000i64;
    let m: i64 = (shifted % 12) as i64 + 1;
    proof {
        let t = total as int;
        assert(shifted == t + 12 * 0x8000_0000);
        assert((t + 12 * 0x8000_0000) / 12 == t / 12 + 0x8000_0000) by (nonlinear_arith);
        assert((t + 12 * 0x8000_0000) % 12 == t % 12) by (nonlinear_arith);
    }
    let mut out: Vec<char> = Vec::new();
    push_padded(y, 4, &mut out);
    out.push('-');
    push_padded(m, 2, &mut out);
    proof {
        assert(out@ =~= month_key_of(total as int));
    }
    string_of(&out)
}

/// Months from `from_month` to `to_month`.
pub fn months_between(from_month: &str, to_month: &str) -> (r: i64)
    requires
        month_key_sliceable(from_month.spec_bytes()),
        month_key_sliceable(to_month.spec_bytes()),
    ensures
        r == key_index(to_month.spec_bytes()) - key_index(from_month.spec_bytes()),
{
    proof {
        lemma_key_bounds(from_month.spec_bytes());
        lemma_key_bounds(to_month.spec_bytes());
    }
    let (fy, fm) = key_parts(from_month);
    let (ty, tm) = key_parts(to_month);
    ((ty - fy) * 12 + (tm - fm)) as i64
}

/// The month after `(y, m)`: December rolls into January of the next year.
pub open spec fn increment_month_of(y: int, m: int) -> (int, int) {
    if m == 12 {
        (y + 1, 1)
    } else {
        (y, m + 1)
    }
}

/// The month after `(year, month)`.
pub fn increment_month(year: i32, month: u32) -> (r: (i32, u32))
    requires
        month == 12 ==> year < i32::MAX,
        month < u32::MAX,
    ensures
        (r.0 as int, r.1 as int) == increment_month_of(year as int, month as int),
{
    if month == 12 {
        (year + 1, 1)
    } else {
        (year, month + 1)
    }
}

pub open spec fn is_leap(y: int) -> bool {
    (y % 4 == 0 && y % 100 != 0) || y % 400 == 0
}

/// Days in month `m` of year `y`.
pub open spec fn month_length(y: int, m: int) -> int {
    if m == 2 {
        if is_leap(y) {
            29
        } else {
            28
        }
    } else if m == 4 || m == 6 || m == 9 || m == 11 {
        30
    } else {
        31
    }
}

/// The years a date can hold.
pub open spec fn date_year_ok(y: int) -> bool {
    -262143 <= y <= 262142
}

/// Number of days in `month` of `year`.
pub fn days_in_month(year: i32, month: u32) -> (r: u32)
    requires
        1 <= month <= 12,
        date_year_ok(year as int),
        month == 12 ==> date_year_ok(year + 1),
    ensures
        r == month_length(year as int, month as int),
{
    if month == 2 {
        let y = year as i64 + 400 * 1000;
        proof {
            assert((year + 400 * 1000) % 4 == year % 4) by (nonlinear_arith);
            assert((year + 400 * 1000) % 100 == year % 100) by (nonlinear_arith);
            assert((year + 400 * 1000) % 400 == year % 400) by (nonlinear_arith);
        }
        if (y % 4 == 0 && y % 100 != 0) || y % 400 == 0 {
            29
        } else {
            28
        }
    } else if month == 4 || month == 6 || month == 9 || month == 11 {
        30
    } else {
        31
    }
}

/// Days since 1970-01-01 of a proleptic Gregorian date.
pub open spec fn days_from_civil(y: int, m: int, d: int) -> int {
    let yy = if m <= 2 {
        y - 1
    } else {
        y
    };
    let era = yy / 400;
    let yoe = yy - era * 400;
    let mp = if m > 2 {
        m - 3
    } else {
        m + 9
    };
    let doy = (153 * mp + 2) / 5 + d - 1;
    let doe = yoe * 365 + yoe / 4 - yoe / 100 + doy;
    era * 146097 + doe - 719468
}

/// A calendar date that `chrono::NaiveDate` can hold.
pub open spec fn valid_date(y: int, m: int, d: int) -> bool {
    date_year_ok(y) && 1 <= m <= 12 && 1 <= d <= month_length(y, m)
}

/// Day of the week, Sunday = 0 (1970-01-01 was a Thursday).
pub open spec fn weekday_from_sunday(y: int, m: int, d: int) -> int {
    (days_from_civil(y, m, d) + 4) % 7
}

proof fn lemma_digit_char(d: int)
    requires
        0 <= d <= 9,
    ensures
        is_digit(digit_char(d)),
        digit_val(digit_char(d)) == d,
{
}

proof fn lemma_dec_digits_value(n: nat)
    ensures
        all_digits(dec_digits(n)),
        digits_value(dec_digits(n)) == n,
        1 <= dec_digits(n).len(),
        n < 10 ==> dec_digits(n).len() == 1,
        n < 100 ==> dec_digits(n).len() <= 2,
        n < 1000 ==> dec_digits(n).len() <= 3,
        n < 10000 ==> dec_digits(n).len() <= 4,
    decreases n,
{
    if n < 10 {
        lemma_digit_char(n as int);
        assert(dec_digits(n).drop_last() =~= Seq::<char>::empty());
        assert(digits_value(Seq::<char>::empty()) == 0);
        assert(dec_digits(n).last() == digit_char(n as int));
    } else {
        lemma_dec_digits_value(n / 10);
        let s = dec_digits(n);
        assert(s.drop_last() =~= dec_digits(n / 10));
        lemma_digit_char((n % 10) as int);
        assert(s.last() == digit_char((n % 10) as int));
        assert((n / 10) * 10 + n % 10 == n);
        assert forall|i: int| 0 <= i < s.len() implies is_digit(#[trigger] s[i]) by {
            if i < s.len() - 1 {
                assert(s[i] == dec_digits(n / 10)[i]);
            }
        }
    }
}

proof fn lemma_zeros_value(k: nat)
    ensures
        all_digits(Seq::new(k, |i: int| '0')),
        digits_value(Seq::new(k, |i: int| '0')) == 0,
    decreases k,
{
    if k > 0 {
        lemma_zeros_value((k - 1) as nat);
        assert(Seq::new(k, |i: int| '0').drop_last() =~= Seq::new((k - 1) as nat, |i: int| '0'));
    }
}

proof fn lemma_zero_pad_value(k: nat, s: Seq<char>)
    requires
        all_digits(s),
    ensures
        all_digits(Seq::new(k, |i: int| '0') + s),
        digits_value(Seq::new(k, |i: int| '0') + s) == digits_value(s),
    decreases s.len(),
{
    let z = Seq::new(k, |i: int| '0');
    lemma_zeros_value(k);
    if s.len() == 0 {
        assert(z + s =~= z);
    } else {
        assert((z + s).drop_last() =~= z + s.drop_last());
        assert(all_digits(s.drop_last())) by {
            assert forall|i: int| 0 <= i < s.drop_last().len() implies is_digit(#[trigger] s.drop_last()[i]) by {
                assert(s.drop_last()[i] == s[i]);
            }
        }
        lemma_zero_pad_value(k, s.drop_last());
        assert((z + s).last() == s.last());
    }
    assert forall|i: int| 0 <= i < (z + s).len() implies is_digit(#[trigger] (z + s)[i]) by {
        if i >= z.len() {
            assert((z + s)[i] == s[i - z.len()]);
        }
    }
}

/// A non-negative number printed zero-padded to `w` digits, `w` being at
/// least its digit count: `w` digits that read back as the number.
proof fn lemma_padded_reads_back(v: int, w: nat)
    requires
        0 <= v,
        dec_digits(v as nat).len() <= w,
    ensures
        fmt_padded(v, w).len() == w,
        all_digits(fmt_padded(v, w)),
        digits_value(fmt_padded(v, w)) == v,
        w > 0 ==> is_digit(fmt_padded(v, w)[0]),
{
    let d = dec_digits(v as nat);
    lemma_dec_digits_value(v as nat);
    let pad = (w - d.len()) as nat;
    assert(fmt_padded(v, w) =~= Seq::new(pad, |i: int| '0') + d);
    lemma_zero_pad_value(pad, d);
}

/// The year field of a month key for a year from -999 to 9999: four ASCII
/// characters (a sign and three digits below year 0) that read back as the
/// year.
proof fn lemma_year_field(y: int)
    requires
        -999 <= y <= 9999,
    ensures
        fmt_padded(y, 4).len() == 4,
        forall|i: int| 0 <= i < 4 ==> '\0' <= #[trigger] fmt_padded(y, 4)[i] <= '\u{7f}',
        parse_i32_spec(fmt_padded(y, 4)) == Some(y as i32),
{
    let ys = fmt_padded(y, 4);
    if y >= 0 {
        lemma_dec_digits_value(y as nat);
        lemma_padded_reads_back(y, 4);
        assert forall|i: int| 0 <= i < 4 implies '\0' <= #[trigger] ys[i] <= '\u{7f}' by {
            assert(is_digit(ys[i]));
        }
    } else {
        let d = dec_digits((-y) as nat);
        lemma_dec_digits_value((-y) as nat);
        let pad = (3 - d.len()) as nat;
        let z = Seq::new(pad, |i: int| '0');
        lemma_zero_pad_value(pad, d);
        assert(ys =~= seq!['-'] + (z + d));
        assert(ys.drop_first() =~= z + d);
        assert forall|i: int| 0 <= i < 4 implies '\0' <= #[trigger] ys[i] <= '\u{7f}' by {
            if i > 0 {
                assert(ys[i] == (z + d)[i - 1]);
                assert(is_digit((z + d)[i - 1]));
            }
        }
    }
}

/// A month key that `month_before` writes reads back as the month it names:
/// for every month from year -999 to year 9999, the key is seven ASCII bytes
/// that can be sliced as a key, and its year and month give back the index.
pub proof fn law_month_key_round_trip(t: int)
    requires
        -11988 <= t < 120000,
    ensures
        month_key_sliceable(encode_utf8(month_key_of(t))),
        key_index(encode_utf8(month_key_of(t))) == t,
        key_year(encode_utf8(month_key_of(t))) == t / 12,
        key_month(encode_utf8(month_key_of(t))) == t % 12 + 1,
        parse_u32_spec(latin1(encode_utf8(month_key_of(t)).subrange(5, 7))) == Some((t % 12 + 1) as u32),
{
    let y = t / 12;
    let m = t % 12 + 1;
    lemma_year_field(y);
    lemma_dec_digits_value(m as nat);
    lemma_padded_reads_back(m, 2);
    let ys = fmt_padded(y, 4);
    let ms = fmt_padded(m, 2);
    let s = month_key_of(t);
    assert(s == ys + seq!['-'] + ms);
    assert(s.len() == 7);
    assert(is_ascii_chars(s)) by {
        assert forall|i: int| 0 <= i < s.len() implies '\0' <= #[trigger] s[i] <= '\u{7f}' by {
            if i < 4 {
                assert(s[i] == ys[i]);
            } else if i > 4 {
                assert(s[i] == ms[i - 5]);
                assert(is_digit(ms[i - 5]));
            }
        }
    }
    let b = encode_utf8(s);
    vstd::utf8::is_ascii_chars_encode_utf8(s);
    vstd::utf8::encode_utf8_valid_utf8(s);
    assert(latin1(b.subrange(0, 4)) =~= ys) by {
        assert forall|i: int| 0 <= i < 4 implies latin1(b.subrange(0, 4))[i] == ys[i] by {
            assert(s[i] == ys[i]);
            assert(b[i] == s[i] as u8);
        }
    }
    assert(latin1(b.subrange(5, 7)) =~= ms) by {
        assert forall|i: int| 0 <= i < 2 implies latin1(b.subrange(5, 7))[i] == ms[i] by {
            assert(s[i + 5] == ms[i]);
            assert(b[i + 5] == s[i + 5] as u8);
        }
    }
    assert(parse_i32_spec(ys) == Some(y as i32));
    assert(parse_i32_spec(ms) == Some(m as i32));
    assert(parse_u32_spec(ms) == Some(m as u32));
    vstd::utf8::is_char_boundary_iff_is_leading_byte(b, 4);
    vstd::utf8::is_char_boundary_iff_is_leading_byte(b, 5);
    vstd::utf8::is_char_boundary_start_end_of_seq(b);
    assert(b[4] == s[4] as u8);
    assert(b[5] == s[5] as u8);
    assert(is_digit(ms[0]));
}

/// Stepping a month key back `a` months and then `c` more is stepping it
/// back `a + c` months, and the number of months from a key to the key `a`
/// months before it is `-a`, whenever the intermediate key lies in years
/// -999 to 9999.
pub proof fn law_month_steps_compose(b: Seq<u8>, a: int, c: int)
    requires
        -11988 <= key_index(b) - a < 120000,
    ensures
        month_key_of(key_index(encode_utf8(month_key_of(key_index(b) - a))) - c) == month_key_of(
            key_index(b) - (a + c),
        ),
        key_index(encode_utf8(month_key_of(key_index(b) - a))) - key_index(b) == -a,
{
    law_month_key_round_trip(key_index(b) - a);
    assert(key_index(b) - a - c == key_index(b) - (a + c));
}

} // verus!
