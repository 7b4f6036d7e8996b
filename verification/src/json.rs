//! The JSON text the library inspects (template parameters, widget filters),
//! read with `serde_json`.

use vstd::prelude::*;

verus! {

/// How a text reads as JSON.
#[derive(Debug, Clone, Copy, PartialEq, Eq, Structural)]
pub enum JsonCheck {
    /// Not JSON at all.
    Invalid,
    /// JSON, but not an object.
    NotObject,
    /// A JSON object.
    Object,
}

/// What `serde_json::from_str::<serde_json::Value>` makes of a text, told
/// apart by `Value::is_object`.
pub uninterp spec fn json_check_of(text: Seq<char>) -> JsonCheck;

/// `serde_json::to_string` of the value a valid JSON text parses to.
pub uninterp spec fn json_canonical_of(text: Seq<char>) -> Seq<char>;

/// The string member `key` of a JSON object text; `None` when the text is not
/// an object, has no such member, or the member is not a string.
pub uninterp spec fn json_str_member_of(text: Seq<char>, key: Seq<char>) -> Option<Seq<char>>;

/// `serde_json::from_str::<serde_json::Value>`, then `Value::is_object`.
/// Claims only that the answer is `json_check_of` of the text.
#[verifier::external_body]
pub(crate) fn json_check(text: &str) -> (r: JsonCheck)
    ensures
        r == json_check_of(text@),
{
    match serde_json::from_str::<serde_json::Value>(text) {
        Err(_) => JsonCheck::Invalid,
        Ok(v) => if v.is_object() {
            JsonCheck::Object
        } else {
            JsonCheck::NotObject
        },
    }
}

/// `serde_json::to_string` of the parsed value of a text that parses.
/// Claims only that the result is `json_canonical_of` of the text.
#[verifier::external_body]
pub(crate) fn json_canonical(text: &str) -> (r: String)
    requires
        json_check_of(text@) != JsonCheck::Invalid,
    ensures
        r@ == json_canonical_of(text@),
{
    let v: serde_json::Value = serde_json::from_str(text).unwrap();
    serde_json::to_string(&v).unwrap()
}

/// The string member `key` of a JSON object text (`Value::get` then
/// `Value::as_str`). Claims only that the result is `json_str_member_of`.
#[verifier::external_body]
pub(crate) fn json_str_member(text: &str, key: &str) -> (r: Option<String>)
    ensures
        match r {
            Some(s) => json_str_member_of(text@, key@) == Some(s@),
            None => json_str_member_of(text@, key@) is None,
        },
{
    let v: serde_json::Value = serde_json::from_str(text).ok()?;
    v.get(key).and_then(|x| x.as_str()).map(|s| s.to_string())
}

/// The integer member `key` of a JSON object text as `Value::as_u64` reads
/// it; `None` when the text is not an object, has no such member, or the
/// member is not an integer that fits a `u64`.
pub uninterp spec fn json_u64_member_of(text: Seq<char>, key: Seq<char>) -> Option<u64>;

/// The integer member `key` of a JSON object text as `Value::as_i64` reads
/// it; `None` when the text is not an object, has no such member, or the
/// member is not an integer that fits an `i64`.
pub uninterp spec fn json_i64_member_of(text: Seq<char>, key: Seq<char>) -> Option<i64>;

/// `Value::get` then `Value::as_u64` on the parsed text. Claims only that
/// the result is `json_u64_member_of`.
#[verifier::external_body]
pub(crate) fn json_u64_member(text: &str, key: &str) -> (r: Option<u64>)
    ensures
        r == json_u64_member_of(text@, key@),
{
    let v: serde_json::Value = serde_json::from_str(text).ok()?;
    v.get(key).and_then(|x| x.as_u64())
}

/// `Value::get` then `Value::as_i64` on the parsed text. Claims only that
/// the result is `json_i64_member_of`.
#[verifier::external_body]
pub(crate) fn json_i64_member(text: &str, key: &str) -> (r: Option<i64>)
    ensures
        r == json_i64_member_of(text@, key@),
{
    let v: serde_json::Value = serde_json::from_str(text).ok()?;
    v.get(key).and_then(|x| x.as_i64())
}

/// The `Display` text of the error `serde_json::from_str::<serde_json::Value>`
/// reports for a text that is not JSON: the parser's own wording, which
/// depends on the text alone.
pub uninterp spec fn json_error_text_of(text: Seq<char>) -> Seq<char>;

/// The error text `serde_json::from_str::<serde_json::Value>` reports for a
/// text that is not JSON. Claims only that it is `json_error_text_of` of the
/// text.
#[verifier::external_body]
pub(crate) fn json_error_text(text: &str) -> (r: String)
    requires
        json_check_of(text@) == JsonCheck::Invalid,
    ensures
        r@ == json_error_text_of(text@),
{
    match serde_json::from_str::<serde_json::Value>(text) {
        Err(e) => e.to_string(),
        Ok(_) => String::new(),
    }
}

} // verus!
