//! Envelope budgeting: the To-Budget and available-funds arithmetic, the
//! guards on writes, funding templates and how they allocate, carryover, and
//! the month look-back.

use vstd::prelude::*;
use vstd::string::StringSliceAdditionalSpecFns;
use vstd::utf8::is_char_boundary;
use crate::calendar::{key_index, lemma_key_bounds, month_before, month_key_of, month_key_sliceable};
use crate::json::{
    json_check, json_check_of, json_error_text, json_error_text_of, json_i64_member, json_i64_member_of, json_str_member,
    json_str_member_of, json_u64_member, json_u64_member_of, JsonCheck,
};
use crate::text::{chars_eq_str, chars_lt, chars_of, seq_lt, string_of, trim, trim_str, trim_vec};
use crate::sums::{prefix_sums_fit, sum_i64, total_i64};

verus! {

/// Over-assigning a month by up to this much is tolerated.
pub const TO_BUDGET_TOLERANCE_CENTS: i64 = 50;

/// Why a budgeting write was refused.
#[derive(Debug, Clone, Copy, PartialEq, Eq, Structural)]
pub enum BudgetError {
    /// The month's To-Budget would fall below minus the tolerance.
    OverAssigned { to_budget_cents: i64 },
    /// A hold must not be negative.
    NegativeHold,
    /// A transfer must move a positive amount.
    TransferNotPositive,
    /// A transfer needs a source or a destination.
    TransferWithoutSides,
    /// A transfer between a category and itself.
    TransferToSelf,
    /// A blank category id.
    BlankCategory,
    /// The month is not shaped `YYYY-MM`.
    BadMonth,
    /// The donor category cannot spare the amount.
    InsufficientSpare { available_cents: i64, amount_cents: i64 },
    /// A funding template kind outside the known set.
    UnknownTemplateKind,
    /// Template parameters that are not JSON.
    ParamsNotJson,
    /// Template parameters that are JSON but not an object.
    ParamsNotObject,
}

/// To Budget: income less what is budgeted and what is held for next month.
pub open spec fn to_budget_of(income: int, budgeted: int, hold: int) -> int {
    income - budgeted - hold
}

/// To Budget for a month from its income, its budgeted total and its hold.
pub fn to_budget(income: i64, budgeted: i64, hold: Option<i64>) -> (r: i64)
    requires
        i64::MIN <= income - budgeted <= i64::MAX,
        i64::MIN <= to_budget_of(income as int, budgeted as int, match hold {
            Some(h) => h as int,
            None => 0,
        }) <= i64::MAX,
    ensures
        r == to_budget_of(income as int, budgeted as int, match hold {
            Some(h) => h as int,
            None => 0,
        }),
{
    let h = match hold {
        Some(h) => h,
        None => 0,
    };
    income - budgeted - h
}

/// Available funds: To Budget plus what last month held for this one.
pub open spec fn available_funds_of(income: int, budgeted: int, hold: int, prev_hold: int) -> int {
    income - budgeted - hold + prev_hold
}

/// Available funds for a month: To Budget plus the previous month's hold.
pub fn available_funds(income: i64, budgeted: i64, hold: Option<i64>, prev_hold: Option<i64>) -> (r: i64)
    requires
        i64::MIN <= income - budgeted <= i64::MAX,
        i64::MIN <= income - budgeted - (match hold {
            Some(h) => h as int,
            None => 0,
        }) <= i64::MAX,
        i64::MIN <= available_funds_of(income as int, budgeted as int, match hold {
            Some(h) => h as int,
            None => 0,
        }, match prev_hold {
            Some(h) => h as int,
            None => 0,
        }) <= i64::MAX,
    ensures
        r == available_funds_of(income as int, budgeted as int, match hold {
            Some(h) => h as int,
            None => 0,
        }, match prev_hold {
            Some(h) => h as int,
            None => 0,
        }),
{
    let h = match hold {
        Some(h) => h,
        None => 0,
    };
    let p = match prev_hold {
        Some(h) => h,
        None => 0,
    };
    income - budgeted - h + p
}

/// The over-assignment guard: skipped when explicitly allowed or while the
/// month has no income yet; otherwise To Budget may not fall below minus
/// the tolerance.
pub open spec fn to_budget_guard(allow_over_assign: bool, income: int, to_budget: int) -> Result<
    (),
    BudgetError,
> {
    if allow_over_assign || income == 0 || to_budget >= -TO_BUDGET_TOLERANCE_CENTS {
        Ok(())
    } else {
        Err(BudgetError::OverAssigned { to_budget_cents: to_budget as i64 })
    }
}

/// Refuses a write that leaves the month over-assigned beyond the
/// tolerance, unless allowed or the month has no income yet.
pub fn validate_to_budget(allow_over_assign: bool, income: i64, to_budget: i64) -> (r: Result<
    (),
    BudgetError,
>)
    ensures
        r == to_budget_guard(allow_over_assign, income as int, to_budget as int),
{
    if allow_over_assign {
        return Ok(());
    }
    if income == 0 {
        return Ok(());
    }
    if to_budget < -TO_BUDGET_TOLERANCE_CENTS {
        return Err(BudgetError::OverAssigned { to_budget_cents: to_budget });
    }
    Ok(())
}

/// A hold must be zero or more.
pub fn validate_hold(amount_cents: i64) -> (r: Result<(), BudgetError>)
    ensures
        r == (if amount_cents < 0 {
            Err(BudgetError::NegativeHold)
        } else {
            Ok(())
        }),
{
    if amount_cents < 0 {
        return Err(BudgetError::NegativeHold);
    }
    Ok(())
}

pub open spec fn opt_str_view(o: Option<&str>) -> Option<Seq<char>> {
    match o {
        Some(s) => Some(s@),
        None => None,
    }
}

/// The checks a transfer passes before any money moves, in order.
pub open spec fn transfer_check(
    from: Option<Seq<char>>,
    to: Option<Seq<char>>,
    amount: int,
    month: Seq<u8>,
) -> Result<(), BudgetError> {
    if amount <= 0 {
        Err(BudgetError::TransferNotPositive)
    } else if from is None && to is None {
        Err(BudgetError::TransferWithoutSides)
    } else if from is Some && to is Some && from->0 == to->0 {
        Err(BudgetError::TransferToSelf)
    } else if from is Some && to is Some && (trim(from->0).len() == 0 || trim(to->0).len() == 0) {
        Err(BudgetError::BlankCategory)
    } else if month.len() != 7 || month[4] != 45u8 {
        Err(BudgetError::BadMonth)
    } else {
        Ok(())
    }
}

/// `month[4..5]` can be taken when the month is seven bytes long.
pub open spec fn transfer_month_ok(month: Seq<u8>) -> bool {
    month.len() == 7 ==> is_char_boundary(month, 4) && is_char_boundary(month, 5)
}

/// Checks a cover transfer: a positive amount, at least one side, two
/// different non-blank categories, and a `YYYY-MM` month.
pub fn validate_transfer(
    from_category: Option<&str>,
    to_category: Option<&str>,
    amount_cents: i64,
    month: &str,
) -> (r: Result<(), BudgetError>)
    requires
        transfer_month_ok(month.spec_bytes()),
    ensures
        r == transfer_check(
            opt_str_view(from_category),
            opt_str_view(to_category),
            amount_cents as int,
            month.spec_bytes(),
        ),
{
    if amount_cents <= 0 {
        return Err(BudgetError::TransferNotPositive);
    }
    if from_category.is_none() && to_category.is_none() {
        return Err(BudgetError::TransferWithoutSides);
    }
    if let (Some(f), Some(t)) = (from_category, to_category) {
        let fv = chars_of(f);
        let tv = chars_of(t);
        if crate::text::chars_eq(&fv, &tv) {
            return Err(BudgetError::TransferToSelf);
        }
        if trim_vec(&fv).len() == 0 || trim_vec(&tv).len() == 0 {
            return Err(BudgetError::BlankCategory);
        }
    }
    let b = month.as_bytes();
    if b.len() != 7 || b[4] != 45u8 {
        return Err(BudgetError::BadMonth);
    }
    Ok(())
}

/// The donor must have at least the amount available.
pub fn check_spare(available_cents: i64, amount_cents: i64) -> (r: Result<(), BudgetError>)
    ensures
        r == (if available_cents < amount_cents {
            Err(BudgetError::InsufficientSpare { available_cents, amount_cents })
        } else {
            Ok(())
        }),
{
    if available_cents < amount_cents {
        return Err(BudgetError::InsufficientSpare { available_cents, amount_cents });
    }
    Ok(())
}

/// An envelope's available amount: budgeted plus carryover plus transfers
/// in, less transfers out and spending.
pub open spec fn envelope_available(
    budgeted: int,
    carryover: int,
    transfers_in: int,
    transfers_out: int,
    spent: int,
) -> int {
    budgeted + carryover + transfers_in - transfers_out - spent
}

/// A category's available amount in a month.
pub fn available(
    budgeted: i64,
    carryover: i64,
    transfers_in: i64,
    transfers_out: i64,
    spent: i64,
) -> (r: i64)
    requires
        i64::MIN <= budgeted + carryover <= i64::MAX,
        i64::MIN <= budgeted + carryover + transfers_in <= i64::MAX,
        i64::MIN <= budgeted + carryover + transfers_in - transfers_out <= i64::MAX,
        i64::MIN <= envelope_available(
            budgeted as int,
            carryover as int,
            transfers_in as int,
            transfers_out as int,
            spent as int,
        ) <= i64::MAX,
    ensures
        r == envelope_available(
            budgeted as int,
            carryover as int,
            transfers_in as int,
            transfers_out as int,
            spent as int,
        ),
{
    budgeted + carryover + transfers_in - transfers_out - spent
}

/// The template kinds the engine knows.
pub open spec fn funding_kinds() -> Seq<Seq<char>> {
    seq!["fixed"@, "up_to"@, "by"@, "average"@, "percent"@, "remainder"@, "schedule"@]
}

pub open spec fn is_funding_kind(kind: Seq<char>) -> bool {
    exists|i: int| 0 <= i < funding_kinds().len() && funding_kinds()[i] == kind
}

fn validate_funding_kind_chars(kind: &Vec<char>) -> (r: bool)
    ensures
        r == is_funding_kind(kind@),
{
    let ghost ks = funding_kinds();
    if chars_eq_str(kind, "fixed") {
        assert(ks[0] == kind@);
        return true;
    }
    if chars_eq_str(kind, "up_to") {
        assert(ks[1] == kind@);
        return true;
    }
    if chars_eq_str(kind, "by") {
        assert(ks[2] == kind@);
        return true;
    }
    if chars_eq_str(kind, "average") {
        assert(ks[3] == kind@);
        return true;
    }
    if chars_eq_str(kind, "percent") {
        assert(ks[4] == kind@);
        return true;
    }
    if chars_eq_str(kind, "remainder") {
        assert(ks[5] == kind@);
        return true;
    }
    if chars_eq_str(kind, "schedule") {
        assert(ks[6] == kind@);
        return true;
    }
    false
}

/// A template kind must be one of the known kinds.
pub fn validate_funding_kind(kind: &str) -> (r: Result<(), BudgetError>)
    ensures
        r == (if is_funding_kind(kind@) {
            Ok(())
        } else {
            Err(BudgetError::UnknownTemplateKind)
        }),
{
    if validate_funding_kind_chars(&chars_of(kind)) {
        Ok(())
    } else {
        Err(BudgetError::UnknownTemplateKind)
    }
}

/// Template parameters as stored: blank means `{}`, anything else must be JSON.
pub open spec fn params_stored(params: Seq<char>) -> Result<Seq<char>, BudgetError> {
    if trim(params).len() == 0 {
        Ok("{}"@)
    } else if json_check_of(params) == JsonCheck::Invalid {
        Err(BudgetError::ParamsNotJson)
    } else {
        Ok(params)
    }
}

/// Template parameters as they are stored: `{}` for blank text, the text
/// itself when it is JSON, refused otherwise.
pub fn normalize_params_json(params_json: &str) -> (r: Result<String, BudgetError>)
    ensures
        match r {
            Ok(s) => params_stored(params_json@) == Ok::<Seq<char>, BudgetError>(s@),
            Err(e) => params_stored(params_json@) == Err::<Seq<char>, BudgetError>(e),
        },
{
    if trim_str(params_json).len() == 0 {
        return Ok(string_of(chars_of("{}").as_slice()));
    }
    match json_check(params_json) {
        JsonCheck::Invalid => Err(BudgetError::ParamsNotJson),
        _ => Ok(string_of(chars_of(params_json).as_slice())),
    }
}

/// Why the parameters of a `by` or `average` template cannot be read: they
/// are not JSON (with the parser's message), or not a JSON object.
#[derive(Debug, Clone, PartialEq, Eq)]
pub enum TemplateParamsError {
    NotJson(String),
    NotObject,
}

/// The month a `by` template saves toward: its `by` member when that is a
/// string, else the month being funded.
pub open spec fn by_month_of(params: Seq<char>, month: Seq<char>) -> Seq<char> {
    match json_str_member_of(params, "by"@) {
        Some(b) => b,
        None => month,
    }
}

/// The number of months an `average` template looks back over: its `months`
/// member read as a `u64` (a negative integer wrapping, as `i64 as u64`
/// does), three when there is none, then cut to a `u32` as `as u32` does.
pub open spec fn average_months_of(params: Seq<char>) -> u32 {
    let m: int = match json_u64_member_of(params, "months"@) {
        Some(u) => u as int,
        None => match json_i64_member_of(params, "months"@) {
            Some(i) => if i >= 0 {
                i as int
            } else {
                i + 0x1_0000_0000_0000_0000
            },
            None => 3,
        },
    };
    (m % 0x1_0000_0000) as u32
}

/// Whether the parameters read as a JSON object, and the error otherwise.
fn params_object(params_json: &str) -> (r: Result<(), TemplateParamsError>)
    ensures
        match r {
            Ok(()) => json_check_of(params_json@) == JsonCheck::Object,
            Err(TemplateParamsError::NotJson(d)) => json_check_of(params_json@) == JsonCheck::Invalid && d@
                == json_error_text_of(params_json@),
            Err(TemplateParamsError::NotObject) => json_check_of(params_json@) == JsonCheck::NotObject,
        },
{
    match json_check(params_json) {
        JsonCheck::Invalid => Err(TemplateParamsError::NotJson(json_error_text(params_json))),
        JsonCheck::NotObject => Err(TemplateParamsError::NotObject),
        JsonCheck::Object => Ok(()),
    }
}

/// The month a `by` template saves toward, once its parameters are checked
/// to be a JSON object.
pub fn by_params(params_json: &str, month: &str) -> (r: Result<String, TemplateParamsError>)
    ensures
        match r {
            Ok(b) => json_check_of(params_json@) == JsonCheck::Object && b@ == by_month_of(params_json@, month@),
            Err(TemplateParamsError::NotJson(d)) => json_check_of(params_json@) == JsonCheck::Invalid && d@
                == json_error_text_of(params_json@),
            Err(TemplateParamsError::NotObject) => json_check_of(params_json@) == JsonCheck::NotObject,
        },
{
    match params_object(params_json) {
        Err(e) => Err(e),
        Ok(()) => match json_str_member(params_json, "by") {
            Some(b) => Ok(b),
            None => Ok(string_of(chars_of(month).as_slice())),
        },
    }
}

/// The look-back of an `average` template, once its parameters are checked
/// to be a JSON object.
pub fn average_months(params_json: &str) -> (r: Result<u32, TemplateParamsError>)
    ensures
        match r {
            Ok(m) => json_check_of(params_json@) == JsonCheck::Object && m == average_months_of(params_json@),
            Err(TemplateParamsError::NotJson(d)) => json_check_of(params_json@) == JsonCheck::Invalid && d@
                == json_error_text_of(params_json@),
            Err(TemplateParamsError::NotObject) => json_check_of(params_json@) == JsonCheck::NotObject,
        },
{
    match params_object(params_json) {
        Err(e) => Err(e),
        Ok(()) => {
            let m: u64 = match json_u64_member(params_json, "months") {
                Some(u) => u,
                None => match json_i64_member(params_json, "months") {
                    Some(i) => if i >= 0 {
                        i as u64
                    } else {
                        (i as i128 + 0x1_0000_0000_0000_0000i128) as u64
                    },
                    None => 3,
                },
            };
            Ok((m % 0x1_0000_0000) as u32)
        },
    }
}

/// The keys a schedule template's timing may be written under, in the order
/// they are tried.
pub open spec fn schedule_keys() -> Seq<Seq<char>> {
    seq!["schedule"@, "cron"@, "pattern"@, "interval"@, "frequency"@, "cadence"@]
}

/// The first of the schedule keys holding a non-blank string, trimmed.
pub open spec fn schedule_string_from(params: Seq<char>, k: int) -> Option<Seq<char>>
    decreases 6 - k,
{
    if k < 0 || k >= 6 {
        None
    } else {
        match json_str_member_of(params, schedule_keys()[k]) {
            Some(s) => if trim(s).len() > 0 {
                Some(trim(s))
            } else {
                schedule_string_from(params, k + 1)
            },
            None => schedule_string_from(params, k + 1),
        }
    }
}

/// Where a schedule template says when it falls due.
pub fn parse_schedule_string(params_json: &str) -> (r: Option<String>)
    ensures
        match r {
            Some(s) => schedule_string_from(params_json@, 0) == Some(s@),
            None => schedule_string_from(params_json@, 0) is None,
        },
{
    let mut k: usize = 0;
    while k < 6
        invariant
            k <= 6,
            schedule_string_from(params_json@, 0) == schedule_string_from(params_json@, k as int),
        decreases 6 - k,
    {
        let key: &str = if k == 0 {
            "schedule"
        } else if k == 1 {
            "cron"
        } else if k == 2 {
            "pattern"
        } else if k == 3 {
            "interval"
        } else if k == 4 {
            "frequency"
        } else {
            "cadence"
        };
        assert(key@ == schedule_keys()[k as int]);
        match json_str_member(params_json, key) {
            Some(s) => {
                let t = trim_str(s.as_str());
                if t.len() > 0 {
                    return Some(string_of(t.as_slice()));
                }
            },
            None => {},
        }
        k += 1;
    }
    None
}

/// `(a + b - 1) / b` for `a >= 0`, `b >= 1`: the ceiling of `a / b`.
pub open spec fn ceil_div(a: int, b: int) -> int {
    (a + b - 1) / b
}

/// What a `by` template still needs this month: the shortfall against the
/// target spread evenly over the months left (at least one), rounded up.
pub open spec fn by_need(target: int, cat_avail: int, months_left: int) -> int {
    let shortfall = if target - cat_avail < 0 {
        0
    } else {
        target - cat_avail
    };
    let months = if months_left < 1 {
        1
    } else {
        months_left
    };
    ceil_div(shortfall, months)
}

/// How a template computes its need.
#[derive(Debug, Clone, Copy, PartialEq, Eq, Structural)]
pub enum TemplateRule {
    /// Bring the month's budget up to `amount`.
    Fixed { amount: i64 },
    /// Bring the envelope's available up to `cap`.
    UpTo { cap: i64 },
    /// Save toward `target` over `months_left` months.
    By { target: i64, months_left: i64 },
    /// Bring the month's budget up to the average spend over recent months,
    /// already computed.
    Average { average: i64 },
    /// Bring the month's budget up to a share of what is still unallocated,
    /// already computed from it.
    Percent { share: i64 },
    /// Everything still unallocated.
    Remainder,
    /// Like `Fixed`, but only in months the schedule falls due.
    Schedule { amount: i64, due: bool },
    /// A kind the engine does not know: needs nothing.
    Unrecognised,
}

/// What the month's budget `cur` still lacks to reach `v`, never below zero.
pub open spec fn short_of(v: int, cur: int) -> int {
    if v - cur < 0 {
        0
    } else {
        v - cur
    }
}

/// A `by` template's share of the month: the shortfall against the target,
/// counting what was available before this month's budget, spread over the
/// months left (at least one) and rounded up.
pub open spec fn by_share(target: int, avail_before: int, months_left: int) -> int {
    by_need(sat_sub(target, avail_before), 0, months_left)
}

/// The need of a template in a month where the category is budgeted `cur`
/// and has `cat_avail` available, with `pool` still unallocated. Every kind
/// but up-to and remainder tops the month's budget up to its figure, so a
/// month already funded needs nothing more; up-to tops up what is
/// available, and remainder takes what is left.
pub open spec fn template_need_of(rule: TemplateRule, cur: int, cat_avail: int, pool: int) -> int {
    match rule {
        TemplateRule::Fixed { amount } => short_of(amount as int, cur),
        TemplateRule::UpTo { cap } => short_of(cap as int, cat_avail),
        TemplateRule::By { target, months_left } => short_of(
            by_share(target as int, cat_avail - cur, months_left as int),
            cur,
        ),
        TemplateRule::Average { average } => short_of(average as int, cur),
        TemplateRule::Percent { share } => short_of(share as int, cur),
        TemplateRule::Remainder => pool,
        TemplateRule::Schedule { amount, due } => if !due {
            0
        } else {
            short_of(amount as int, cur)
        },
        TemplateRule::Unrecognised => 0,
    }
}

/// `i64::saturating_sub`.
pub open spec fn sat_sub(a: int, b: int) -> int {
    if a - b > i64::MAX {
        i64::MAX as int
    } else if a - b < i64::MIN {
        i64::MIN as int
    } else {
        a - b
    }
}

/// What `template_need` needs to compute without overflow: the subtractions
/// the arithmetic makes in `i64`, and a need that fits.
pub open spec fn template_need_ok(rule: TemplateRule, cur: int, cat_avail: int) -> bool {
    match rule {
        TemplateRule::Fixed { amount } => i64::MIN <= amount - cur <= i64::MAX,
        TemplateRule::Schedule { amount, due } => !due || i64::MIN <= amount - cur <= i64::MAX,
        TemplateRule::UpTo { cap } => i64::MIN <= cap - cat_avail <= i64::MAX,
        TemplateRule::By { target, months_left } => {
            let s = sat_sub(target as int, cat_avail - cur);
            let shortfall = if s < 0 {
                0
            } else {
                s
            };
            let months = if months_left < 1 {
                1
            } else {
                months_left as int
            };
            &&& shortfall + months <= i64::MAX
            &&& by_share(target as int, cat_avail - cur, months_left as int) - cur <= i64::MAX
        },
        TemplateRule::Average { average } => average - cur <= i64::MAX,
        TemplateRule::Percent { share } => share - cur <= i64::MAX,
        _ => true,
    }
}

/// `v - cur` floored at zero, when it fits.
fn top_up(v: i64, cur: i64) -> (r: i64)
    requires
        v - cur <= i64::MAX,
    ensures
        r == short_of(v as int, cur as int),
{
    let d: i128 = v as i128 - cur as i128;
    if d < 0 {
        0
    } else {
        d as i64
    }
}

/// A `by` template's share of the month, with the wide intermediate values
/// it needs.
fn by_share_exec(target: i64, cat_avail: i64, cur: i64, months_left: i64) -> (r: i128)
    ensures
        r == by_share(target as int, cat_avail - cur, months_left as int),
        0 <= r,
        ({
            let s = sat_sub(target as int, cat_avail - cur);
            let shortfall = if s < 0 { 0 } else { s };
            r <= shortfall
        }),
{
    let before: i128 = cat_avail as i128 - cur as i128;
    let wide: i128 = target as i128 - before;
    let s: i128 = if wide > i64::MAX as i128 {
        i64::MAX as i128
    } else if wide < i64::MIN as i128 {
        i64::MIN as i128
    } else {
        wide
    };
    let shortfall: i128 = if s < 0 {
        0
    } else {
        s
    };
    let months: i128 = if months_left < 1 {
        1
    } else {
        months_left as i128
    };
    let r = (shortfall + months - 1) / months;
    assert(r <= shortfall) by (nonlinear_arith)
        requires
            r as int == (shortfall + months - 1) as int / months as int,
            months >= 1,
            shortfall >= 0,
    ;
    assert(r >= 0) by (nonlinear_arith)
        requires
            r as int == (shortfall + months - 1) as int / months as int,
            months >= 1,
            shortfall >= 0,
    ;
    r
}

/// Whether `template_need` can work out this rule's need within `i64`.
pub fn template_need_in_range(rule: TemplateRule, cur: i64, cat_avail: i64) -> (r: bool)
    ensures
        r == template_need_ok(rule, cur as int, cat_avail as int),
{
    match rule {
        TemplateRule::Fixed { amount } => amount.checked_sub(cur).is_some(),
        TemplateRule::Schedule { amount, due } => !due || amount.checked_sub(cur).is_some(),
        TemplateRule::UpTo { cap } => cap.checked_sub(cat_avail).is_some(),
        TemplateRule::By { target, months_left } => {
            let before: i128 = cat_avail as i128 - cur as i128;
            let wide: i128 = target as i128 - before;
            let s: i128 = if wide > i64::MAX as i128 {
                i64::MAX as i128
            } else if wide < i64::MIN as i128 {
                i64::MIN as i128
            } else {
                wide
            };
            let shortfall: i128 = if s < 0 {
                0
            } else {
                s
            };
            let months: i128 = if months_left < 1 {
                1
            } else {
                months_left as i128
            };
            let share = by_share_exec(target, cat_avail, cur, months_left);
            shortfall + months <= i64::MAX as i128 && share - cur as i128 <= i64::MAX as i128
        },
        TemplateRule::Average { average } => average as i128 - cur as i128 <= i64::MAX as i128,
        TemplateRule::Percent { share } => share as i128 - cur as i128 <= i64::MAX as i128,
        _ => true,
    }
}

/// The need of a template this month (see `template_need_of`): a fixed,
/// scheduled, saving-target, average or percentage figure less what the
/// month is already budgeted, an up-to cap less what is available, or the
/// whole pool.
pub fn template_need(rule: TemplateRule, cur: i64, cat_avail: i64, pool: i64) -> (r: i64)
    requires
        template_need_ok(rule, cur as int, cat_avail as int),
    ensures
        r == template_need_of(rule, cur as int, cat_avail as int, pool as int),
{
    match rule {
        TemplateRule::Fixed { amount } => top_up(amount, cur),
        TemplateRule::UpTo { cap } => top_up(cap, cat_avail),
        TemplateRule::By { target, months_left } => {
            let share = by_share_exec(target, cat_avail, cur, months_left);
            let d: i128 = share - cur as i128;
            if d < 0 {
                0
            } else {
                d as i64
            }
        },
        TemplateRule::Average { average } => top_up(average, cur),
        TemplateRule::Percent { share } => top_up(share, cur),
        TemplateRule::Remainder => pool,
        TemplateRule::Schedule { amount, due } => {
            if !due {
                0
            } else {
                top_up(amount, cur)
            }
        },
        TemplateRule::Unrecognised => 0,
    }
}

/// One allocation step: a template takes what it needs, capped by the pool
/// and never negative; the pool shrinks by the take and never below zero.
pub open spec fn take_of(need: int, pool: int) -> int {
    let t = if need < pool {
        need
    } else {
        pool
    };
    if t < 0 {
        0
    } else {
        t
    }
}

pub open spec fn pool_after(need: int, pool: int) -> int {
    let p = pool - take_of(need, pool);
    if p < 0 {
        0
    } else {
        p
    }
}

/// One template's take from the pool, and the pool left after it.
pub fn allocation_step(need: i64, pool: i64) -> (r: (i64, i64))
    requires
        pool >= 0,
    ensures
        r.0 == take_of(need as int, pool as int),
        r.1 == pool_after(need as int, pool as int),
{
    let t = if need < pool {
        need
    } else {
        pool
    };
    let take = if t < 0 {
        0
    } else {
        t
    };
    let mut rest = pool - take;
    if rest < 0 {
        rest = 0;
    }
    (take, rest)
}

/// The pool a month's allocation starts from: available funds, floored at zero.
pub fn initial_pool(available_funds: i64) -> (r: i64)
    ensures
        r == (if available_funds < 0 {
            0
        } else {
            available_funds as int
        }),
{
    if available_funds < 0 {
        0
    } else {
        available_funds
    }
}

/// The takes of a run of templates with the given needs, from `pool`.
pub open spec fn takes_from(needs: Seq<int>, pool: int) -> Seq<int>
    decreases needs.len(),
{
    if needs.len() == 0 {
        Seq::empty()
    } else {
        seq![take_of(needs[0], pool)] + takes_from(needs.drop_first(), pool_after(needs[0], pool))
    }
}

pub open spec fn seq_sum(s: Seq<int>) -> int
    decreases s.len(),
{
    if s.len() == 0 {
        0
    } else {
        s[0] + seq_sum(s.drop_first())
    }
}

/// Allocation never hands out more than the pool it starts from: every take
/// is between zero and its template's need, and together they sum to at most
/// the starting pool.
pub proof fn law_allocation_within_pool(needs: Seq<int>, pool: int)
    requires
        pool >= 0,
    ensures
        takes_from(needs, pool).len() == needs.len(),
        forall|i: int|
            0 <= i < needs.len() ==> 0 <= #[trigger] takes_from(needs, pool)[i] && (needs[i] >= 0
                ==> takes_from(needs, pool)[i] <= needs[i]),
        0 <= seq_sum(takes_from(needs, pool)) <= pool,
    decreases needs.len(),
{
    if needs.len() > 0 {
        let t = take_of(needs[0], pool);
        let p2 = pool_after(needs[0], pool);
        law_allocation_within_pool(needs.drop_first(), p2);
        let rest = takes_from(needs.drop_first(), p2);
        let all = takes_from(needs, pool);
        assert(all == seq![t] + rest);
        assert(all.drop_first() =~= rest);
        assert forall|i: int| 0 <= i < needs.len() implies 0 <= #[trigger] all[i] && (needs[i]
            >= 0 ==> all[i] <= needs[i]) by {
            if i > 0 {
                assert(all[i] == rest[i - 1]);
                assert(needs[i] == needs.drop_first()[i - 1]);
            }
        }
    }
}

/// Running the templates a second time asks a template whose figure does
/// not depend on the pool (fixed, up-to, saving target, average, due
/// schedule) only for what the first run could not fund: the first run
/// raised both the month's budget and the category's available amount by
/// its take. A template funded in full therefore needs nothing the second
/// time, however much the pool holds then.
pub proof fn law_second_run_needs_only_the_shortfall(
    rule: TemplateRule,
    cur: int,
    cat_avail: int,
    pool: int,
    pool2: int,
)
    requires
        pool >= 0,
        rule is Fixed || rule is UpTo || rule is Schedule || rule is By || rule is Average,
    ensures
        ({
            let need = template_need_of(rule, cur, cat_avail, pool);
            let take = take_of(need, pool);
            &&& template_need_of(rule, cur + take, cat_avail + take, pool2) == need - take
            &&& take == need ==> template_need_of(rule, cur + take, cat_avail + take, pool2) == 0
        }),
{
}

/// One template's turn in a run: its rule, what its category is budgeted
/// for the month, and what the category has available, when its turn comes.
pub open spec fn run_takes(steps: Seq<(TemplateRule, int, int)>, pool: int) -> Seq<int>
    decreases steps.len(),
{
    if steps.len() == 0 {
        Seq::empty()
    } else {
        let need = template_need_of(steps[0].0, steps[0].1, steps[0].2, pool);
        seq![take_of(need, pool)] + run_takes(steps.drop_first(), pool_after(need, pool))
    }
}

/// What a run leaves unallocated.
pub open spec fn run_left(steps: Seq<(TemplateRule, int, int)>, pool: int) -> int
    decreases steps.len(),
{
    if steps.len() == 0 {
        pool
    } else {
        let need = template_need_of(steps[0].0, steps[0].1, steps[0].2, pool);
        run_left(steps.drop_first(), pool_after(need, pool))
    }
}

/// A run never leaves more than it started with, nor less than nothing.
proof fn lemma_run_left_bounds(steps: Seq<(TemplateRule, int, int)>, pool: int)
    requires
        pool >= 0,
    ensures
        0 <= run_left(steps, pool) <= pool,
        run_takes(steps, pool).len() == steps.len(),
    decreases steps.len(),
{
    if steps.len() > 0 {
        let need = template_need_of(steps[0].0, steps[0].1, steps[0].2, pool);
        lemma_run_left_bounds(steps.drop_first(), pool_after(need, pool));
    }
}

/// How a template's rule may differ in a second run: not at all, except
/// that a percentage template's share is recomputed from the pool, which
/// (rounding a non-negative percentage of a pool no larger) makes it no
/// larger.
pub open spec fn rule_again(first: TemplateRule, second: TemplateRule) -> bool {
    ||| second == first
    ||| (first matches TemplateRule::Percent { share: s1 } && second matches TemplateRule::Percent {
        share: s2,
    } && s2 <= s1)
}

/// A template whose turn comes with no more in the pool than its first
/// turn left, after its month's budget (and with it its available amount)
/// grew by at least its first take, takes nothing.
proof fn lemma_second_turn_takes_nothing(
    rule: TemplateRule,
    cur: int,
    cat_avail: int,
    pool: int,
    rule2: TemplateRule,
    cur2: int,
    cat_avail2: int,
    pool2: int,
)
    requires
        pool >= 0,
        0 <= pool2 <= pool - take_of(template_need_of(rule, cur, cat_avail, pool), pool),
        rule_again(rule, rule2),
        cur2 >= cur + take_of(template_need_of(rule, cur, cat_avail, pool), pool),
        cat_avail2 - cur2 == cat_avail - cur,
    ensures
        take_of(template_need_of(rule2, cur2, cat_avail2, pool2), pool2) == 0,
{
}

/// Running the funding templates a second time in a month funds nothing:
/// every template takes zero. This holds for every kind of template as long
/// as the second run finds no more unallocated than the first left over
/// (releasing a hold can add to it; a fixed, up-to, saving-target, average
/// or due scheduled template takes nothing even then, by
/// `law_second_run_needs_only_the_shortfall`). Between the runs each
/// category's budget grew by at least what its template took, its available
/// amount with it, and a percentage share is recomputed no larger.
pub proof fn law_second_run_funds_nothing(
    first: Seq<(TemplateRule, int, int)>,
    second: Seq<(TemplateRule, int, int)>,
    pool: int,
    pool2: int,
)
    requires
        pool >= 0,
        0 <= pool2 <= run_left(first, pool),
        second.len() == first.len(),
        forall|i: int| 0 <= i < first.len() ==> rule_again(#[trigger] first[i].0, second[i].0),
        forall|i: int| 0 <= i < first.len() ==> (#[trigger] second[i]).1 >= first[i].1 + run_takes(first, pool)[i],
        forall|i: int| 0 <= i < first.len() ==> (#[trigger] second[i]).2 - second[i].1 == first[i].2 - first[i].1,
    ensures
        run_takes(second, pool2).len() == second.len(),
        forall|i: int| 0 <= i < second.len() ==> #[trigger] run_takes(second, pool2)[i] == 0,
    decreases first.len(),
{
    lemma_run_left_bounds(first, pool);
    lemma_run_left_bounds(second, pool2);
    if first.len() > 0 {
        let need = template_need_of(first[0].0, first[0].1, first[0].2, pool);
        let t = take_of(need, pool);
        let rest_pool = pool_after(need, pool);
        lemma_run_left_bounds(first.drop_first(), rest_pool);
        assert(run_takes(first, pool)[0] == t);
        assert(second[0].1 >= first[0].1 + t);
        lemma_second_turn_takes_nothing(
            first[0].0,
            first[0].1,
            first[0].2,
            pool,
            second[0].0,
            second[0].1,
            second[0].2,
            pool2,
        );
        let need2 = template_need_of(second[0].0, second[0].1, second[0].2, pool2);
        assert(pool_after(need2, pool2) == pool2);
        let f1 = first.drop_first();
        let s1 = second.drop_first();
        assert forall|i: int| 0 <= i < f1.len() implies rule_again(#[trigger] f1[i].0, s1[i].0) by {
            assert(f1[i] == first[i + 1] && s1[i] == second[i + 1]);
        }
        assert forall|i: int| 0 <= i < f1.len() implies (#[trigger] s1[i]).1 >= f1[i].1 + run_takes(f1, rest_pool)[i] by {
            assert(f1[i] == first[i + 1] && s1[i] == second[i + 1]);
            assert(run_takes(first, pool)[i + 1] == run_takes(f1, rest_pool)[i]);
        }
        assert forall|i: int| 0 <= i < f1.len() implies (#[trigger] s1[i]).2 - s1[i].1 == f1[i].2 - f1[i].1 by {
            assert(f1[i] == first[i + 1] && s1[i] == second[i + 1]);
        }
        law_second_run_funds_nothing(f1, s1, rest_pool, pool2);
        assert forall|i: int| 0 <= i < second.len() implies #[trigger] run_takes(second, pool2)[i] == 0 by {
            if i > 0 {
                assert(run_takes(second, pool2)[i] == run_takes(s1, pool2)[i - 1]);
            }
        }
    }
}

/// A hold parks money for the next month: it comes off this month's To
/// Budget and adds to next month's available funds, amount for amount;
/// and available funds are To Budget plus what the previous month held.
pub proof fn law_hold_moves_money_forward(income: int, budgeted: int, hold: int, next_income: int, next_budgeted: int, next_hold: int)
    ensures
        to_budget_of(income, budgeted, hold) == to_budget_of(income, budgeted, 0) - hold,
        available_funds_of(next_income, next_budgeted, next_hold, hold) == available_funds_of(
            next_income,
            next_budgeted,
            next_hold,
            0,
        ) + hold,
        available_funds_of(next_income, next_budgeted, next_hold, hold) == to_budget_of(
            next_income,
            next_budgeted,
            next_hold,
        ) + hold,
{
}

/// To Budget is exactly what came in less what was budgeted and held, with
/// no floor: every cent budgeted or held beyond income shows as a negative
/// figure, and a month budgeted past its income plus hold is over-assigned
/// by that much. Available funds add last month's hold on top.
pub proof fn law_to_budget_is_what_is_left(income: int, budgeted: int, hold: int, prev_hold: int)
    ensures
        to_budget_of(income, budgeted, hold) + budgeted + hold == income,
        budgeted + hold > income ==> to_budget_of(income, budgeted, hold) == -(budgeted + hold - income),
        to_budget_of(income, budgeted + 1, hold) == to_budget_of(income, budgeted, hold) - 1,
        available_funds_of(income, budgeted, hold, prev_hold) + budgeted + hold == income + prev_hold,
{
}

/// The look-back's picks are the extremes among the first `n` rows: none
/// exactly when no row qualifies, and otherwise a qualifying row whose
/// overage, underage or streak is at least that of every other qualifying
/// row. Ties go to the later row for overage and underage and to the
/// earlier row for the streak.
pub proof fn law_look_back_picks_are_extremes(rows: Seq<LookBackRow>, streaks: Seq<i64>, n: int)
    requires
        0 <= n <= rows.len(),
        streaks.len() == rows.len(),
    ensures
        pick_over(rows, n) is None <==> forall|i: int| 0 <= i < n ==> !is_over(#[trigger] rows[i]),
        pick_over(rows, n) matches Some(p) ==> 0 <= p < n && is_over(rows[p]) && forall|i: int|
            0 <= i < n && is_over(#[trigger] rows[i]) ==> rows[i].spent_cents - rows[i].budget_cents
                <= rows[p].spent_cents - rows[p].budget_cents && (rows[i].spent_cents - rows[i].budget_cents
                == rows[p].spent_cents - rows[p].budget_cents ==> i <= p),
        pick_under(rows, n) is None <==> forall|i: int| 0 <= i < n ==> !is_under(#[trigger] rows[i]),
        pick_under(rows, n) matches Some(p) ==> 0 <= p < n && is_under(rows[p]) && forall|i: int|
            0 <= i < n && is_under(#[trigger] rows[i]) ==> rows[i].budget_cents - rows[i].spent_cents
                <= rows[p].budget_cents - rows[p].spent_cents && (rows[i].budget_cents - rows[i].spent_cents
                == rows[p].budget_cents - rows[p].spent_cents ==> i <= p),
        pick_streak(rows, streaks, n) is None <==> forall|i: int|
            0 <= i < n ==> !streak_eligible(#[trigger] rows[i], streaks[i] as int),
        pick_streak(rows, streaks, n) matches Some(p) ==> 0 <= p < n && streak_eligible(rows[p], streaks[p] as int)
            && forall|i: int|
            0 <= i < n && streak_eligible(#[trigger] rows[i], streaks[i] as int) ==> streaks[i] <= streaks[p] && (
            streaks[i] == streaks[p] ==> p <= i),
    decreases n,
{
    if n > 0 {
        law_look_back_picks_are_extremes(rows, streaks, n - 1);
    }
}

/// A cover transfer moves money between two envelopes without creating or
/// destroying any: the donor loses the amount, the recipient gains it, their
/// total is unchanged; and a transfer the spare check accepts leaves the
/// donor with nothing negative.
pub proof fn law_transfer_conserves_available(
    amount: int,
    b1: int,
    c1: int,
    i1: int,
    o1: int,
    s1: int,
    b2: int,
    c2: int,
    i2: int,
    o2: int,
    s2: int,
)
    ensures
        envelope_available(b1, c1, i1, o1 + amount, s1) == envelope_available(b1, c1, i1, o1, s1) - amount,
        envelope_available(b2, c2, i2 + amount, o2, s2) == envelope_available(b2, c2, i2, o2, s2) + amount,
        envelope_available(b1, c1, i1, o1 + amount, s1) + envelope_available(b2, c2, i2 + amount, o2, s2)
            == envelope_available(b1, c1, i1, o1, s1) + envelope_available(b2, c2, i2, o2, s2),
        envelope_available(b1, c1, i1, o1, s1) >= amount ==> envelope_available(b1, c1, i1, o1 + amount, s1)
            >= 0,
{
}

/// Carryover only ever reflects money the user earmarked, over at most two
/// years: nothing carries for a category that does not roll over or was
/// never budgeted before the month, and otherwise the window starts at the
/// first budgeted month or two years back, whichever is later.
pub proof fn law_carryover_window_is_earmarked_and_capped(
    rollover: Option<i64>,
    first_budgeted: Option<Seq<char>>,
    month: Seq<char>,
    two_years_back: Seq<char>,
)
    ensures
        rollover == Some(0i64) ==> carryover_window(rollover, first_budgeted, month, two_years_back) is None,
        first_budgeted is None ==> carryover_window(rollover, first_budgeted, month, two_years_back) is None,
        carryover_window(rollover, first_budgeted, month, two_years_back) matches Some(start) ==> {
            &&& first_budgeted matches Some(f) && seq_lt(f, month)
            &&& (start == first_budgeted->0 || start == two_years_back)
            &&& !seq_lt(start, two_years_back)
        },
{
    if let Some(start) = carryover_window(rollover, first_budgeted, month, two_years_back) {
        let f = first_budgeted->0;
        if start == two_years_back {
            crate::text::lemma_seq_lt_irreflexive(two_years_back);
        } else {
            assert(seq_lt(two_years_back, f));
            if seq_lt(f, two_years_back) {
                crate::text::lemma_seq_lt_transitive(f, two_years_back, f);
                crate::text::lemma_seq_lt_irreflexive(f);
            }
        }
    }
}

/// After a run that moved any money, the month's hold is cleared.
pub fn should_clear_hold(takes: &Vec<i64>) -> (r: bool)
    ensures
        r == exists|i: int| 0 <= i < takes@.len() && takes@[i] != 0,
{
    let mut i: usize = 0;
    while i < takes.len()
        invariant
            i <= takes.len(),
            forall|j: int| 0 <= j < i ==> takes@[j] == 0,
        decreases takes.len() - i,
    {
        if takes[i] != 0 {
            return true;
        }
        i += 1;
    }
    false
}

/// The mean of the given monthly amounts, rounded toward zero; zero months
/// average to zero.
pub open spec fn trunc_div(a: int, b: int) -> int {
    if a >= 0 {
        a / b
    } else {
        -((-a) / b)
    }
}

/// The mean monthly spend over the given months, rounded toward zero; zero
/// when there are none.
pub fn average_spending(spent_by_month: &Vec<i64>) -> (r: i64)
    requires
        prefix_sums_fit(spent_by_month@),
        spent_by_month.len() <= u32::MAX,
    ensures
        spent_by_month.len() == 0 ==> r == 0,
        spent_by_month.len() > 0 ==> r == trunc_div(
            sum_i64(spent_by_month@),
            spent_by_month.len() as int,
        ),
{
    let n = spent_by_month.len();
    if n == 0 {
        return 0;
    }
    let total = total_i64(spent_by_month);
    let m = n as i64;
    if total >= 0 {
        total / m
    } else {
        proof {
            assert(total > i64::MIN || m >= 1);
        }
        let neg: i128 = -(total as i128);
        let q: i128 = neg / (m as i128);
        (0 - q) as i64
    }
}

/// The window carryover is summed over: `None` when nothing carries (the
/// category does not roll over, was never budgeted, or was first budgeted
/// this month or later), else from the later of its first budgeted month and
/// two years back.
pub open spec fn carryover_window(
    rollover: Option<i64>,
    first_budgeted: Option<Seq<char>>,
    month: Seq<char>,
    two_years_back: Seq<char>,
) -> Option<Seq<char>> {
    if rollover == Some(0i64) {
        None
    } else {
        match first_budgeted {
            None => None,
            Some(f) => if !seq_lt(f, month) {
                None
            } else if seq_lt(two_years_back, f) {
                Some(f)
            } else {
                Some(two_years_back)
            },
        }
    }
}

/// The first month whose leftover carries into `month` (see
/// `carryover_window`), two years back being counted from `month`.
pub fn carryover_start(rollover: Option<i64>, first_budgeted: Option<&str>, month: &str) -> (r:
    Option<String>)
    requires
        month_key_sliceable(month.spec_bytes()),
    ensures
        match r {
            Some(s) => carryover_window(
                rollover,
                opt_str_view(first_budgeted),
                month@,
                month_key_of(key_index(month.spec_bytes()) - 24),
            ) == Some(s@),
            None => carryover_window(
                rollover,
                opt_str_view(first_budgeted),
                month@,
                month_key_of(key_index(month.spec_bytes()) - 24),
            ) is None,
        },
{
    if rollover == Some(0i64) {
        return None;
    }
    let first = match first_budgeted {
        None => {
            return None;
        },
        Some(f) => chars_of(f),
    };
    let mv = chars_of(month);
    if !chars_lt(&first, &mv) {
        return None;
    }
    proof {
        lemma_key_bounds(month.spec_bytes());
    }
    let earliest = month_before(month, 24);
    let ev = chars_of(earliest.as_str());
    if chars_lt(&ev, &first) {
        Some(string_of(first.as_slice()))
    } else {
        Some(earliest)
    }
}

/// The carryover into a month: nothing when no window carries, else what was
/// budgeted over the window less what was spent over it.
pub fn carryover_amount(window: &Option<String>, budgeted_cents: i64, spent_cents: i64) -> (r: i64)
    requires
        window is Some ==> i64::MIN <= budgeted_cents - spent_cents <= i64::MAX,
    ensures
        r == (if window is Some {
            budgeted_cents - spent_cents
        } else {
            0
        }),
{
    match window {
        Some(_) => budgeted_cents - spent_cents,
        None => 0,
    }
}

} // verus!

verus! {

/// One budgeted category's month, as the look-back reads it.
#[derive(Debug, Clone)]
pub struct LookBackRow {
    pub category_id: String,
    pub category_label: String,
    pub budget_cents: i64,
    pub spent_cents: i64,
}

/// A single plain-language fact about how a month went for one category.
#[derive(Debug, Clone)]
pub struct LookBackFact {
    pub category_id: String,
    pub category_label: String,
    /// "over" | "under" | "streak"
    pub kind: String,
    /// Spent over budget ("over"), budget not spent ("under"); 0 for "streak".
    pub amount_cents: i64,
    /// Consecutive zero-spend months up to the month ("streak"); 0 otherwise.
    pub streak_months: i64,
}

pub open spec fn is_over(r: LookBackRow) -> bool {
    r.budget_cents > 0 && r.spent_cents > r.budget_cents
}

pub open spec fn is_under(r: LookBackRow) -> bool {
    r.budget_cents > 0 && r.budget_cents > r.spent_cents
}

pub open spec fn streak_eligible(r: LookBackRow, streak: int) -> bool {
    r.budget_cents > 0 && r.spent_cents == 0 && streak >= 2
}

/// Index of the biggest overage among the first `n` rows; on a tie the later
/// row wins, as `Iterator::max_by_key` does.
pub open spec fn pick_over(rows: Seq<LookBackRow>, n: int) -> Option<int>
    decreases n,
{
    if n <= 0 {
        None
    } else {
        let prev = pick_over(rows, n - 1);
        let r = rows[n - 1];
        if is_over(r) && (prev is None || r.spent_cents - r.budget_cents >= rows[prev->0].spent_cents
            - rows[prev->0].budget_cents) {
            Some(n - 1)
        } else {
            prev
        }
    }
}

/// Index of the biggest underage among the first `n` rows; later wins ties.
pub open spec fn pick_under(rows: Seq<LookBackRow>, n: int) -> Option<int>
    decreases n,
{
    if n <= 0 {
        None
    } else {
        let prev = pick_under(rows, n - 1);
        let r = rows[n - 1];
        if is_under(r) && (prev is None || r.budget_cents - r.spent_cents
            >= rows[prev->0].budget_cents - rows[prev->0].spent_cents) {
            Some(n - 1)
        } else {
            prev
        }
    }
}

/// Index of the longest qualifying zero-spend streak among the first `n`
/// rows; the earlier row wins ties.
pub open spec fn pick_streak(rows: Seq<LookBackRow>, streaks: Seq<i64>, n: int) -> Option<int>
    decreases n,
{
    if n <= 0 {
        None
    } else {
        let prev = pick_streak(rows, streaks, n - 1);
        if streak_eligible(rows[n - 1], streaks[n - 1] as int) && (prev is None || streaks[n - 1]
            > streaks[prev->0]) {
            Some(n - 1)
        } else {
            prev
        }
    }
}

proof fn lemma_picks_in_range(rows: Seq<LookBackRow>, streaks: Seq<i64>, n: int)
    requires
        0 <= n,
    ensures
        pick_over(rows, n) matches Some(i) ==> 0 <= i < n && is_over(rows[i]),
        pick_under(rows, n) matches Some(i) ==> 0 <= i < n && is_under(rows[i]),
        pick_streak(rows, streaks, n) matches Some(i) ==> 0 <= i < n && streak_eligible(
            rows[i],
            streaks[i] as int,
        ),
    decreases n,
{
    if n > 0 {
        lemma_picks_in_range(rows, streaks, n - 1);
    }
}

/// Whether a row's category is the subject of a fact of the given kind with
/// the given numbers.
pub open spec fn fact_about(f: LookBackFact, r: LookBackRow, kind: Seq<char>, amount: int, streak: int) -> bool {
    &&& f.category_id@ == r.category_id@
    &&& f.category_label@ == r.category_label@
    &&& f.kind@ == kind
    &&& f.amount_cents == amount
    &&& f.streak_months == streak
}

/// The look-back's facts in order: the biggest overage, the biggest
/// underage, the longest zero-spend streak, each present only if some
/// budgeted category qualifies.
pub open spec fn look_back_ok(rows: Seq<LookBackRow>, streaks: Seq<i64>, facts: Seq<LookBackFact>) -> bool {
    let n = rows.len() as int;
    let o = pick_over(rows, n);
    let u = pick_under(rows, n);
    let s = pick_streak(rows, streaks, n);
    let no: int = if o is Some {
        1
    } else {
        0
    };
    let nu: int = if u is Some {
        1
    } else {
        0
    };
    let ns: int = if s is Some {
        1
    } else {
        0
    };
    &&& facts.len() == no + nu + ns
    &&& o matches Some(i) ==> fact_about(
        facts[0],
        rows[i],
        "over"@,
        rows[i].spent_cents - rows[i].budget_cents,
        0,
    )
    &&& u matches Some(i) ==> fact_about(
        facts[no],
        rows[i],
        "under"@,
        rows[i].budget_cents - rows[i].spent_cents,
        0,
    )
    &&& s matches Some(i) ==> fact_about(facts[no + nu], rows[i], "streak"@, 0, streaks[i] as int)
}

/// Budget less spending fits in an `i64` for every row the underage reads.
pub open spec fn look_back_fits(rows: Seq<LookBackRow>) -> bool {
    forall|i: int|
        0 <= i < rows.len() ==> i64::MIN <= #[trigger] rows[i].budget_cents - rows[i].spent_cents
            <= i64::MAX
}

fn fact_of(r: &LookBackRow, kind: &str, amount: i64, streak: i64) -> (f: LookBackFact)
    ensures
        fact_about(f, *r, kind@, amount as int, streak as int),
{
    LookBackFact {
        category_id: r.category_id.clone(),
        category_label: r.category_label.clone(),
        kind: string_of(chars_of(kind).as_slice()),
        amount_cents: amount,
        streak_months: streak,
    }
}

/// Up to three facts about a month: the biggest overage, the biggest
/// underage, and the longest zero-spend streak of two months or more, each
/// among categories budgeted for the month. `streaks[i]` is the streak of
/// `rows[i]` (see `zero_spend_streak`).
pub fn look_back_facts(rows: &Vec<LookBackRow>, streaks: &Vec<i64>) -> (facts: Vec<LookBackFact>)
    requires
        streaks.len() == rows.len(),
        look_back_fits(rows@),
    ensures
        look_back_ok(rows@, streaks@, facts@),
{
    let n = rows.len();
    let mut over: Option<usize> = None;
    let mut under: Option<usize> = None;
    let mut streak: Option<usize> = None;
    let mut i: usize = 0;
    while i < n
        invariant
            i <= n == rows.len() == streaks.len(),
            look_back_fits(rows@),
            match over {
                Some(k) => pick_over(rows@, i as int) == Some(k as int),
                None => pick_over(rows@, i as int) is None,
            },
            match under {
                Some(k) => pick_under(rows@, i as int) == Some(k as int),
                None => pick_under(rows@, i as int) is None,
            },
            match streak {
                Some(k) => pick_streak(rows@, streaks@, i as int) == Some(k as int),
                None => pick_streak(rows@, streaks@, i as int) is None,
            },
        decreases n - i,
    {
        proof {
            lemma_picks_in_range(rows@, streaks@, i as int);
        }
        let r = &rows[i];
        if r.budget_cents > 0 && r.spent_cents > r.budget_cents {
            let better = match over {
                None => true,
                Some(k) => r.spent_cents - r.budget_cents >= rows[k].spent_cents - rows[k].budget_cents,
            };
            if better {
                over = Some(i);
            }
        }
        if r.budget_cents > 0 && r.budget_cents > r.spent_cents {
            let better = match under {
                None => true,
                Some(k) => r.budget_cents - r.spent_cents >= rows[k].budget_cents - rows[k].spent_cents,
            };
            if better {
                under = Some(i);
            }
        }
        if r.budget_cents > 0 && r.spent_cents == 0 && streaks[i] >= 2 {
            let better = match streak {
                None => true,
                Some(k) => streaks[i] > streaks[k],
            };
            if better {
                streak = Some(i);
            }
        }
        i += 1;
    }
    proof {
        lemma_picks_in_range(rows@, streaks@, n as int);
    }
    let mut facts: Vec<LookBackFact> = Vec::new();
    if let Some(k) = over {
        let f = fact_of(&rows[k], "over", rows[k].spent_cents - rows[k].budget_cents, 0);
        facts.push(f);
    }
    if let Some(k) = under {
        let f = fact_of(&rows[k], "under", rows[k].budget_cents - rows[k].spent_cents, 0);
        facts.push(f);
    }
    if let Some(k) = streak {
        let f = fact_of(&rows[k], "streak", 0, streaks[k]);
        facts.push(f);
    }
    facts
}

/// A zero-spend streak: the month itself, plus each earlier month, most
/// recent first, for as long as the category was budgeted and nothing was
/// spent.
pub open spec fn streak_of(history: Seq<(bool, i64)>) -> int
    decreases history.len(),
{
    if history.len() == 0 {
        1
    } else if history[0].0 && history[0].1 == 0 {
        1 + streak_of(history.drop_first())
    } else {
        1
    }
}

/// `history[k]` is (was budgeted, spent) for the month `k + 1` months back.
pub fn zero_spend_streak(history: &Vec<(bool, i64)>) -> (r: i64)
    requires
        history.len() < i64::MAX,
    ensures
        r == streak_of(history@),
{
    let mut k: usize = 0;
    assert(history@.subrange(0, history.len() as int) =~= history@);
    while k < history.len() && history[k].0 && history[k].1 == 0
        invariant
            k <= history.len() < i64::MAX,
            streak_of(history@) == k + streak_of(history@.subrange(k as int, history.len() as int)),
        decreases history.len() - k,
    {
        let ghost sub = history@.subrange(k as int, history.len() as int);
        assert(sub.drop_first() =~= history@.subrange(k + 1, history.len() as int));
        k += 1;
    }
    (k as i64) + 1
}

} // verus!
