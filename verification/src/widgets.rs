//! Report widgets: title rules, filter normalisation, and the dense ordering
//! of widget positions.

use vstd::prelude::*;
use vstd::utf8::encode_utf8;
use crate::json::{json_canonical, json_canonical_of, json_check, json_check_of, json_error_text, json_error_text_of, JsonCheck};
use crate::text::{chars_eq, chars_of, fmt_int, push_u64, push_str, string_of, trim, trim_str, utf8_len_exceeds};

verus! {

/// Why a widget write was refused.
#[derive(Debug, PartialEq, Eq)]
pub enum WidgetError {
    EmptyTitle,
    TitleTooLong,
    /// The filters are not JSON; the parser's account of why.
    FiltersNotJson(String),
    FiltersNotObject,
    NegativePosition,
    EmptyOrder,
    /// The order does not name the existing widgets, of which there are this many.
    OrderNotExactSet(usize),
    OrderLengthMismatch,
    OrderHasDuplicates,
}

pub open spec fn widget_error_message(e: WidgetError) -> Seq<char> {
    match e {
        WidgetError::EmptyTitle => "title must be non-empty"@,
        WidgetError::TitleTooLong => "title must be <= 120 characters"@,
        WidgetError::FiltersNotJson(d) => "filters_json must be valid JSON: "@ + d@,
        WidgetError::FiltersNotObject => "filters_json must be a JSON object"@,
        WidgetError::NegativePosition => "position must be >= 0"@,
        WidgetError::EmptyOrder => "ordered_ids must be non-empty"@,
        WidgetError::OrderNotExactSet(n) => "ordered_ids must contain exactly all "@ + fmt_int(n as int)
            + " widget ids once"@,
        WidgetError::OrderLengthMismatch => "ordered_ids length mismatch"@,
        WidgetError::OrderHasDuplicates => "ordered_ids contains duplicate ids"@,
    }
}

impl WidgetError {
    /// The message shown for the error.
    pub fn message(&self) -> (r: String)
        ensures
            r@ == widget_error_message(*self),
    {
        match self {
            WidgetError::EmptyTitle => "title must be non-empty".to_owned(),
            WidgetError::TitleTooLong => "title must be <= 120 characters".to_owned(),
            WidgetError::FiltersNotJson(d) => {
                let mut out: Vec<char> = Vec::new();
                push_str(&mut out, "filters_json must be valid JSON: ");
                push_str(&mut out, d.as_str());
                string_of(out.as_slice())
            },
            WidgetError::FiltersNotObject => "filters_json must be a JSON object".to_owned(),
            WidgetError::NegativePosition => "position must be >= 0".to_owned(),
            WidgetError::EmptyOrder => "ordered_ids must be non-empty".to_owned(),
            WidgetError::OrderNotExactSet(n) => {
                let mut out: Vec<char> = Vec::new();
                push_str(&mut out, "ordered_ids must contain exactly all ");
                push_u64(*n as u64, &mut out);
                push_str(&mut out, " widget ids once");
                string_of(out.as_slice())
            },
            WidgetError::OrderLengthMismatch => "ordered_ids length mismatch".to_owned(),
            WidgetError::OrderHasDuplicates => "ordered_ids contains duplicate ids".to_owned(),
        }
    }
}

/// A title, once trimmed, must be non-empty and at most 120 bytes long.
pub open spec fn title_check(title: Seq<char>) -> Result<(), WidgetError> {
    let t = trim(title);
    if t.len() == 0 {
        Err(WidgetError::EmptyTitle)
    } else if encode_utf8(t).len() > 120 {
        Err(WidgetError::TitleTooLong)
    } else {
        Ok(())
    }
}

/// A widget title must not be blank and, trimmed, must fit in 120 bytes.
pub fn validate_title(title: &str) -> (r: Result<(), WidgetError>)
    ensures
        r == title_check(title@),
{
    let trimmed = trim_str(title);
    if trimmed.len() == 0 {
        return Err(WidgetError::EmptyTitle);
    }
    if utf8_len_exceeds(&trimmed, 120) {
        return Err(WidgetError::TitleTooLong);
    }
    Ok(())
}

/// Why filters were refused.
pub enum FilterFault {
    NotJson,
    NotObject,
}

/// The filter text a widget is checked against: the given text trimmed, and
/// `{}` when it is missing or blank.
pub open spec fn filters_text(filters: Option<Seq<char>>) -> Seq<char> {
    let raw = trim(match filters {
        Some(f) => f,
        None => "{}"@,
    });
    if raw.len() == 0 {
        "{}"@
    } else {
        raw
    }
}

/// Filters as stored: missing or blank means `{}`; anything else must be a
/// JSON object, stored in its canonical serialisation.
pub open spec fn filters_stored(filters: Option<Seq<char>>) -> Result<Seq<char>, FilterFault> {
    let s = filters_text(filters);
    match json_check_of(s) {
        JsonCheck::Invalid => Err(FilterFault::NotJson),
        JsonCheck::NotObject => Err(FilterFault::NotObject),
        JsonCheck::Object => Ok(json_canonical_of(s)),
    }
}

pub open spec fn opt_str_view(o: Option<&str>) -> Option<Seq<char>> {
    match o {
        Some(f) => Some(f@),
        None => None,
    }
}

/// The filters a widget stores, in canonical JSON; refused when they are not
/// JSON (with the parser's message) or not a JSON object.
pub fn normalize_filters(filters_json: Option<&str>) -> (r: Result<String, WidgetError>)
    ensures
        match r {
            Ok(s) => filters_stored(opt_str_view(filters_json)) == Ok::<Seq<char>, FilterFault>(s@),
            Err(WidgetError::FiltersNotJson(detail)) => {
                &&& filters_stored(opt_str_view(filters_json)) == Err::<Seq<char>, FilterFault>(FilterFault::NotJson)
                &&& detail@ == json_error_text_of(filters_text(opt_str_view(filters_json)))
            },
            Err(WidgetError::FiltersNotObject) => filters_stored(opt_str_view(filters_json)) == Err::<
                Seq<char>,
                FilterFault,
            >(FilterFault::NotObject),
            Err(_) => false,
        },
{
    let raw = match filters_json {
        Some(f) => trim_str(f),
        None => trim_str("{}"),
    };
    let s = if raw.len() == 0 {
        string_of(chars_of("{}").as_slice())
    } else {
        string_of(raw.as_slice())
    };
    match json_check(s.as_str()) {
        JsonCheck::Invalid => Err(WidgetError::FiltersNotJson(json_error_text(s.as_str()))),
        JsonCheck::NotObject => Err(WidgetError::FiltersNotObject),
        JsonCheck::Object => Ok(json_canonical(s.as_str())),
    }
}

/// Where a new widget goes: the requested position, which must not be
/// negative, or after the last widget (first, when there are none).
pub open spec fn insert_position_of(requested: Option<i64>, max_position: Option<i64>) -> Result<int, WidgetError> {
    match requested {
        Some(p) => if p < 0 {
            Err(WidgetError::NegativePosition)
        } else {
            Ok(p as int)
        },
        None => match max_position {
            Some(m) => Ok(m + 1),
            None => Ok(0),
        },
    }
}

/// Where a new widget goes (see `insert_position_of`).
pub fn insert_position(requested: Option<i64>, max_position: Option<i64>) -> (r: Result<i64, WidgetError>)
    requires
        max_position matches Some(m) ==> m < i64::MAX,
    ensures
        match r {
            Ok(p) => insert_position_of(requested, max_position) == Ok::<int, WidgetError>(p as int),
            Err(e) => insert_position_of(requested, max_position) == Err::<int, WidgetError>(e),
        },
{
    match requested {
        Some(p) => {
            if p < 0 {
                Err(WidgetError::NegativePosition)
            } else {
                Ok(p)
            }
        },
        None => match max_position {
            Some(m) => Ok(m + 1),
            None => Ok(0),
        },
    }
}

/// Where a widget at `pos` moves when a new one is inserted at `at`: one
/// place down when it sat at or after `at`.
pub open spec fn shifted_position_of(pos: int, at: int) -> int {
    if pos >= at {
        pos + 1
    } else {
        pos
    }
}

/// Where a widget at `pos` moves when the one at `removed` is deleted: one
/// place up when it sat after it.
pub open spec fn compacted_position_of(pos: int, removed: int) -> int {
    if pos > removed {
        pos - 1
    } else {
        pos
    }
}

/// The new position of a widget when another is inserted at `at`.
pub fn shifted_position(pos: i64, at: i64) -> (r: i64)
    requires
        pos < i64::MAX,
    ensures
        r == shifted_position_of(pos as int, at as int),
{
    if pos >= at {
        pos + 1
    } else {
        pos
    }
}

/// The new position of a widget when the one at `removed` is deleted.
pub fn compacted_position(pos: i64, removed: i64) -> (r: i64)
    requires
        pos > i64::MIN,
    ensures
        r == compacted_position_of(pos as int, removed as int),
{
    if pos > removed {
        pos - 1
    } else {
        pos
    }
}

/// The positions of `n` widgets are exactly `0..n`, each once.
pub open spec fn dense_positions(ps: Seq<int>) -> bool {
    &&& forall|i: int| 0 <= i < ps.len() ==> 0 <= #[trigger] ps[i] < ps.len()
    &&& ps.no_duplicates()
}

/// Inserting a widget at any place from the top to just after the last
/// keeps the positions dense: the others shift down past it, and with the
/// new one they are exactly `0..=n`.
pub proof fn law_insert_keeps_positions_dense(ps: Seq<int>, at: int)
    requires
        dense_positions(ps),
        0 <= at <= ps.len(),
    ensures
        dense_positions(ps.map_values(|x: int| shifted_position_of(x, at)).push(at)),
{
    let q = ps.map_values(|x: int| shifted_position_of(x, at)).push(at);
    assert forall|i: int, j: int| 0 <= i < q.len() && 0 <= j < q.len() && i != j implies q[i] != q[j] by {
        if i < ps.len() && j < ps.len() {
            assert(ps[i] != ps[j]);
        }
    }
}

/// Deleting a widget keeps the positions dense: those after it move up,
/// and the rest are exactly `0..n-1`.
pub proof fn law_delete_keeps_positions_dense(ps: Seq<int>, k: int)
    requires
        dense_positions(ps),
        0 <= k < ps.len(),
    ensures
        dense_positions(ps.remove(k).map_values(|x: int| compacted_position_of(x, ps[k]))),
{
    let d = ps[k];
    let r = ps.remove(k);
    let q = r.map_values(|x: int| compacted_position_of(x, d));
    assert forall|i: int| 0 <= i < r.len() implies r[i] != d && #[trigger] r[i] == ps[if i < k {
        i
    } else {
        i + 1
    }] by {
        if i >= k {
            assert(ps[i + 1] != ps[k]);
        } else {
            assert(ps[i] != ps[k]);
        }
    }
    assert forall|i: int| 0 <= i < q.len() implies 0 <= #[trigger] q[i] < q.len() by {
        assert(r[i] != d);
    }
    assert forall|i: int, j: int| 0 <= i < q.len() && 0 <= j < q.len() && i != j implies q[i] != q[j] by {
        let a = if i < k { i } else { i + 1 };
        let b = if j < k { j } else { j + 1 };
        assert(r[i] == ps[a] && r[j] == ps[b]);
        assert(ps[a] != ps[b]);
    }
}

/// The texts of a list of ids.
pub open spec fn ids_view(v: Seq<String>) -> Seq<Seq<char>> {
    Seq::new(v.len(), |i: int| v[i]@)
}

/// A reorder must name every existing widget exactly once: the same set of
/// ids, as many ids as widgets, and no id twice.
pub open spec fn reorder_check(existing: Seq<Seq<char>>, ordered: Seq<Seq<char>>) -> Result<(), WidgetError> {
    if ordered.len() == 0 {
        Err(WidgetError::EmptyOrder)
    } else if existing.to_set() != ordered.to_set() {
        Err(WidgetError::OrderNotExactSet(existing.len() as usize))
    } else if ordered.len() != existing.len() {
        Err(WidgetError::OrderLengthMismatch)
    } else if ordered.to_set().len() != ordered.len() {
        Err(WidgetError::OrderHasDuplicates)
    } else {
        Ok(())
    }
}

fn position_of(ids: &Vec<String>, id: &String) -> (r: Option<usize>)
    ensures
        match r {
            Some(k) => k < ids.len() && ids@[k as int]@ == id@,
            None => forall|k: int| 0 <= k < ids.len() ==> ids@[k]@ != id@,
        },
{
    let target = chars_of(id.as_str());
    let mut k: usize = 0;
    while k < ids.len()
        invariant
            k <= ids.len(),
            target@ == id@,
            forall|j: int| 0 <= j < k ==> ids@[j]@ != id@,
        decreases ids.len() - k,
    {
        if chars_eq(&chars_of(ids[k].as_str()), &target) {
            return Some(k);
        }
        k += 1;
    }
    None
}

fn all_in(a: &Vec<String>, b: &Vec<String>) -> (r: bool)
    ensures
        r == (forall|i: int| 0 <= i < a.len() ==> ids_view(b@).contains(#[trigger] a@[i]@)),
{
    let mut i: usize = 0;
    while i < a.len()
        invariant
            i <= a.len(),
            forall|j: int| 0 <= j < i ==> ids_view(b@).contains(#[trigger] a@[j]@),
        decreases a.len() - i,
    {
        match position_of(b, &a[i]) {
            Some(k) => {
                assert(ids_view(b@)[k as int] == a@[i as int]@);
            },
            None => {
                assert(!ids_view(b@).contains(a@[i as int]@));
                return false;
            },
        }
        i += 1;
    }
    true
}

fn has_duplicate(v: &Vec<String>) -> (r: bool)
    ensures
        r == !ids_view(v@).no_duplicates(),
{
    let mut i: usize = 0;
    while i < v.len()
        invariant
            i <= v.len(),
            forall|a: int, b: int| 0 <= a < b < v.len() && a < i ==> v@[a]@ != v@[b]@,
        decreases v.len() - i,
    {
        let mut j: usize = i + 1;
        while j < v.len()
            invariant
                i < j <= v.len(),
                forall|a: int, b: int| 0 <= a < b < v.len() && a < i ==> v@[a]@ != v@[b]@,
                forall|b: int| i < b < j ==> v@[i as int]@ != v@[b]@,
            decreases v.len() - j,
        {
            if chars_eq(&chars_of(v[i].as_str()), &chars_of(v[j].as_str())) {
                assert(ids_view(v@)[i as int] == ids_view(v@)[j as int]);
                return true;
            }
            j += 1;
        }
        i += 1;
    }
    assert(ids_view(v@).no_duplicates());
    false
}

proof fn lemma_no_dup_set_len(s: Seq<Seq<char>>)
    ensures
        s.no_duplicates() <==> s.to_set().len() == s.len(),
{
    if s.no_duplicates() {
        s.unique_seq_to_set();
    }
    if s.to_set().len() == s.len() {
        s.lemma_no_dup_set_cardinality();
    }
}

/// A reorder is accepted exactly when it lists every existing widget once:
/// the order is non-empty, names the same ids as exist, as many of them as
/// there are widgets, none twice (and then the existing ids are distinct too).
pub proof fn law_reorder_accepts_exactly_permutations(existing: Seq<Seq<char>>, ordered: Seq<Seq<char>>)
    ensures
        reorder_check(existing, ordered) is Ok <==> {
            &&& ordered.len() > 0
            &&& ordered.len() == existing.len()
            &&& ordered.no_duplicates()
            &&& existing.no_duplicates()
            &&& forall|x: Seq<char>| existing.contains(x) <==> ordered.contains(x)
        },
{
    lemma_no_dup_set_len(existing);
    lemma_no_dup_set_len(ordered);
    if reorder_check(existing, ordered) is Ok {
        assert forall|x: Seq<char>| existing.contains(x) <==> ordered.contains(x) by {
            assert(existing.to_set().contains(x) == existing.contains(x));
            assert(ordered.to_set().contains(x) == ordered.contains(x));
        }
    }
    if ordered.len() > 0 && ordered.len() == existing.len() && ordered.no_duplicates()
        && existing.no_duplicates() && (forall|x: Seq<char>| existing.contains(x) <==> ordered.contains(x)) {
        assert(existing.to_set() =~= ordered.to_set()) by {
            assert forall|x: Seq<char>| existing.to_set().contains(x) <==> ordered.to_set().contains(x) by {
                assert(existing.to_set().contains(x) == existing.contains(x));
                assert(ordered.to_set().contains(x) == ordered.contains(x));
            }
        }
    }
}

/// Checks a reorder request against the ids that exist.
pub fn validate_reorder(existing: &Vec<String>, ordered_ids: &Vec<String>) -> (r: Result<(), WidgetError>)
    ensures
        r == reorder_check(ids_view(existing@), ids_view(ordered_ids@)),
{
    let ghost e = ids_view(existing@);
    let ghost o = ids_view(ordered_ids@);
    if ordered_ids.len() == 0 {
        return Err(WidgetError::EmptyOrder);
    }
    let e_in_o = all_in(existing, ordered_ids);
    let o_in_e = all_in(ordered_ids, existing);
    proof {
        assert(e_in_o == (forall|x: Seq<char>| e.contains(x) ==> o.contains(x))) by {
            if e_in_o {
                assert forall|x: Seq<char>| e.contains(x) implies o.contains(x) by {
                    let i = choose|i: int| 0 <= i < e.len() && e[i] == x;
                    assert(existing@[i]@ == x);
                }
            } else {
                let i = choose|i: int| 0 <= i < existing.len() && !ids_view(ordered_ids@).contains(#[trigger] existing@[i]@);
                assert(e.contains(e[i]));
            }
        }
        assert(o_in_e == (forall|x: Seq<char>| o.contains(x) ==> e.contains(x))) by {
            if o_in_e {
                assert forall|x: Seq<char>| o.contains(x) implies e.contains(x) by {
                    let i = choose|i: int| 0 <= i < o.len() && o[i] == x;
                    assert(ordered_ids@[i]@ == x);
                }
            } else {
                let i = choose|i: int| 0 <= i < ordered_ids.len() && !ids_view(existing@).contains(#[trigger] ordered_ids@[i]@);
                assert(o.contains(o[i]));
            }
        }
        if e_in_o && o_in_e {
            assert(e.to_set() =~= o.to_set());
        }
        if !(e_in_o && o_in_e) {
            if !e_in_o {
                let x = choose|x: Seq<char>| e.contains(x) && !o.contains(x);
                assert(e.to_set().contains(x) && !o.to_set().contains(x));
            } else {
                let x = choose|x: Seq<char>| o.contains(x) && !e.contains(x);
                assert(o.to_set().contains(x) && !e.to_set().contains(x));
            }
        }
    }
    if !(e_in_o && o_in_e) {
        return Err(WidgetError::OrderNotExactSet(existing.len()));
    }
    if ordered_ids.len() != existing.len() {
        return Err(WidgetError::OrderLengthMismatch);
    }
    let dup = has_duplicate(ordered_ids);
    proof {
        lemma_no_dup_set_len(o);
    }
    if dup {
        return Err(WidgetError::OrderHasDuplicates);
    }
    Ok(())
}

/// A widget of the default report.
#[derive(Debug)]
pub struct DefaultWidget {
    pub title: &'static str,
    pub chart_type: &'static str,
    pub split_by: &'static str,
    pub period: &'static str,
    pub filters_json: &'static str,
}

pub open spec fn default_filters() -> Seq<char> {
    "{\"includeTransfers\":false,\"includeArchived\":false}"@
}

/// The report a new user starts from, in position order: a monthly
/// overview, spending by category, the top categories and merchants, and net
/// worth, all over all time without transfers or archived rows.
pub fn default_widgets() -> (r: Vec<DefaultWidget>)
    ensures
        r.len() == 5,
        r@[0].title@ == "Monthly overview"@ && r@[0].chart_type@ == "bar"@ && r@[0].split_by@ == "month"@,
        r@[1].title@ == "Spending by category"@ && r@[1].chart_type@ == "bar"@ && r@[1].split_by@ == "category"@,
        r@[2].title@ == "Top categories"@ && r@[2].chart_type@ == "table"@ && r@[2].split_by@ == "category"@,
        r@[3].title@ == "Top merchants"@ && r@[3].chart_type@ == "table"@ && r@[3].split_by@ == "payee"@,
        r@[4].title@ == "Net worth"@ && r@[4].chart_type@ == "area"@ && r@[4].split_by@ == "month"@,
        forall|i: int| 0 <= i < 5 ==> (#[trigger] r@[i]).period@ == "All"@ && r@[i].filters_json@ == default_filters(),
{
    let f = "{\"includeTransfers\":false,\"includeArchived\":false}";
    let mut v: Vec<DefaultWidget> = Vec::new();
    v.push(DefaultWidget { title: "Monthly overview", chart_type: "bar", split_by: "month", period: "All", filters_json: f });
    v.push(DefaultWidget { title: "Spending by category", chart_type: "bar", split_by: "category", period: "All", filters_json: f });
    v.push(DefaultWidget { title: "Top categories", chart_type: "table", split_by: "category", period: "All", filters_json: f });
    v.push(DefaultWidget { title: "Top merchants", chart_type: "table", split_by: "payee", period: "All", filters_json: f });
    v.push(DefaultWidget { title: "Net worth", chart_type: "area", split_by: "month", period: "All", filters_json: f });
    v
}

} // verus!
