//! Category exemplars: the checks a new exemplar passes before it is stored.

use vstd::prelude::*;
use crate::text::{string_of, trim, trim_str};

verus! {

/// Why an exemplar could not be added.
#[derive(Debug, Clone, Copy, PartialEq, Eq, Structural)]
pub enum ExampleError {
    EmptyText,
    UnknownCategory,
}

pub open spec fn example_error_message(e: ExampleError) -> Seq<char> {
    match e {
        ExampleError::EmptyText => "example text must not be empty"@,
        ExampleError::UnknownCategory => "category not found"@,
    }
}

impl ExampleError {
    /// The message reported for the error.
    pub fn message(&self) -> (r: &'static str)
        ensures
            r@ == example_error_message(*self),
    {
        match self {
            ExampleError::EmptyText => "example text must not be empty",
            ExampleError::UnknownCategory => "category not found",
        }
    }
}

/// The text an exemplar is stored (and looked up) under: the given text
/// trimmed. Empty text is refused before the category is looked at; then the
/// category must exist.
pub fn example_text(text: &str, category_exists: bool) -> (r: Result<String, ExampleError>)
    ensures
        match r {
            Ok(s) => trim(text@).len() > 0 && category_exists && s@ == trim(text@),
            Err(ExampleError::EmptyText) => trim(text@).len() == 0,
            Err(ExampleError::UnknownCategory) => trim(text@).len() > 0 && !category_exists,
        },
{
    let t = trim_str(text);
    if t.len() == 0 {
        return Err(ExampleError::EmptyText);
    }
    if !category_exists {
        return Err(ExampleError::UnknownCategory);
    }
    Ok(string_of(t.as_slice()))
}

} // verus!
