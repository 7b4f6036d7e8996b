//! Values bound to the placeholders of a query, and the `LIKE` patterns the
//! searches build.

use vstd::prelude::*;
use crate::text::{push_str, string_of};

verus! {

/// A value bound to a `?` placeholder.
#[derive(Debug, PartialEq)]
pub enum SqlParam {
    Text(String),
    Int(i64),
}

/// What a bound value holds.
pub enum ParamView {
    Text(Seq<char>),
    Int(int),
}

pub open spec fn param_view(p: SqlParam) -> ParamView {
    match p {
        SqlParam::Text(s) => ParamView::Text(s@),
        SqlParam::Int(v) => ParamView::Int(v as int),
    }
}

pub open spec fn params_view(ps: Seq<SqlParam>) -> Seq<ParamView> {
    ps.map_values(|p: SqlParam| param_view(p))
}

/// The `LIKE` pattern that matches any text containing `s`.
pub open spec fn like_pattern(s: Seq<char>) -> Seq<char> {
    "%"@ + s + "%"@
}

/// `format!("%{}%", s)`.
pub fn contains_pattern(s: &str) -> (r: String)
    ensures
        r@ == like_pattern(s@),
{
    let mut out: Vec<char> = Vec::new();
    push_str(&mut out, "%");
    push_str(&mut out, s);
    push_str(&mut out, "%");
    string_of(out.as_slice())
}

/// Appends a text value to the bound values.
pub fn push_text(ps: &mut Vec<SqlParam>, s: String)
    ensures
        params_view(final(ps)@) == params_view(old(ps)@).push(ParamView::Text(s@)),
{
    ps.push(SqlParam::Text(s));
    assert(params_view(ps@) =~= params_view(old(ps)@).push(ParamView::Text(s@)));
}

/// Appends an integer value to the bound values.
pub fn push_int(ps: &mut Vec<SqlParam>, v: i64)
    ensures
        params_view(final(ps)@) == params_view(old(ps)@).push(ParamView::Int(v as int)),
{
    ps.push(SqlParam::Int(v));
    assert(params_view(ps@) =~= params_view(old(ps)@).push(ParamView::Int(v as int)));
}

} // verus!
