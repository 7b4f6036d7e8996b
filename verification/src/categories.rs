//! Category naming: labels, the slug a new category's id is made from, and
//! the candidates tried until an id is free.

use vstd::prelude::*;
use crate::text::{fmt_int, push_chars, push_padded, push_str, string_of, trim, trim_str};

verus! {

/// Why a category edit was refused.
#[derive(Debug, Clone, Copy, PartialEq, Eq, Structural)]
pub enum CategoryError {
    EmptyLabel,
    NoGroup,
}

pub open spec fn category_error_message(e: CategoryError) -> Seq<char> {
    match e {
        CategoryError::EmptyLabel => "category label must not be empty"@,
        CategoryError::NoGroup => "no category group exists"@,
    }
}

impl CategoryError {
    /// The message reported for the error.
    pub fn message(&self) -> (r: &'static str)
        ensures
            r@ == category_error_message(*self),
    {
        match self {
            CategoryError::EmptyLabel => "category label must not be empty",
            CategoryError::NoGroup => "no category group exists",
        }
    }
}

/// A label is stored trimmed, and must not be empty once trimmed.
pub fn clean_label(label: &str) -> (r: Result<String, CategoryError>)
    ensures
        match r {
            Ok(s) => trim(label@).len() > 0 && s@ == trim(label@),
            Err(e) => trim(label@).len() == 0 && e == CategoryError::EmptyLabel,
        },
{
    let t = trim_str(label);
    if t.len() == 0 {
        Err(CategoryError::EmptyLabel)
    } else {
        Ok(string_of(t.as_slice()))
    }
}

pub open spec fn is_ascii_alnum(c: char) -> bool {
    ('0' <= c && c <= '9') || ('a' <= c && c <= 'z') || ('A' <= c && c <= 'Z')
}

/// Each character of a slug: ASCII letters and digits lowercased, anything
/// else a hyphen.
pub open spec fn slug_char(c: char) -> char {
    if 'A' <= c && c <= 'Z' {
        ((c as u32) + 32) as char
    } else if is_ascii_alnum(c) {
        c
    } else {
        '-'
    }
}

/// `s` without leading and trailing hyphens.
pub open spec fn strip_hyphens(s: Seq<char>) -> Seq<char>
    decreases s.len(),
{
    if s.len() > 0 && s[0] == '-' {
        strip_hyphens(s.drop_first())
    } else if s.len() > 0 && s.last() == '-' {
        strip_hyphens(s.drop_last())
    } else {
        s
    }
}

/// The base of a new category's id: its label slugged, trimmed of hyphens,
/// or `category` when nothing is left.
pub open spec fn slug_base_of(label: Seq<char>) -> Seq<char> {
    let s = strip_hyphens(label.map_values(|c: char| slug_char(c)));
    if s.len() == 0 {
        "category"@
    } else {
        s
    }
}

/// The base id for a label.
pub fn slug_base(label: &str) -> (r: String)
    ensures
        r@ == slug_base_of(label@),
{
    let chars = crate::text::chars_of(label);
    let mut mapped: Vec<char> = Vec::new();
    let mut i: usize = 0;
    while i < chars.len()
        invariant
            i <= chars.len(),
            chars@ == label@,
            mapped@ == label@.take(i as int).map_values(|c: char| slug_char(c)),
        decreases chars.len() - i,
    {
        let c = chars[i];
        let m = if 'A' <= c && c <= 'Z' {
            ((c as u32) + 32) as u8 as char
        } else if ('0' <= c && c <= '9') || ('a' <= c && c <= 'z') {
            c
        } else {
            '-'
        };
        proof {
            if 'A' <= c && c <= 'Z' {
                assert(((c as u32) + 32) as u8 as char == ((c as u32) + 32) as char);
            }
        }
        mapped.push(m);
        i += 1;
        assert(mapped@ =~= label@.take(i as int).map_values(|c: char| slug_char(c)));
    }
    assert(label@.take(i as int) =~= label@);
    let mut lo: usize = 0;
    let mut hi: usize = mapped.len();
    assert(mapped@.subrange(0, hi as int) =~= mapped@);
    while lo < hi && (mapped[lo] == '-' || mapped[hi - 1] == '-')
        invariant
            lo <= hi <= mapped.len(),
            strip_hyphens(mapped@.subrange(lo as int, hi as int)) == strip_hyphens(mapped@),
        decreases hi - lo,
    {
        let ghost sub = mapped@.subrange(lo as int, hi as int);
        if mapped[lo] == '-' {
            assert(sub.drop_first() =~= mapped@.subrange(lo + 1, hi as int));
            lo += 1;
        } else {
            assert(sub.drop_last() =~= mapped@.subrange(lo as int, hi - 1));
            hi -= 1;
        }
    }
    let core = crate::text::slice_chars(&mapped, lo, hi);
    if core.len() == 0 {
        "category".to_owned()
    } else {
        string_of(core.as_slice())
    }
}

/// A character an id may hold: a lowercase ASCII letter, a digit or a hyphen.
pub open spec fn id_char(c: char) -> bool {
    ('0' <= c && c <= '9') || ('a' <= c && c <= 'z') || c == '-'
}

proof fn lemma_strip_hyphens(s: Seq<char>)
    ensures
        strip_hyphens(s).len() > 0 ==> strip_hyphens(s)[0] != '-' && strip_hyphens(s).last() != '-',
        forall|c: char| strip_hyphens(s).contains(c) ==> s.contains(c),
    decreases s.len(),
{
    if s.len() > 0 && s[0] == '-' {
        lemma_strip_hyphens(s.drop_first());
        assert forall|c: char| strip_hyphens(s).contains(c) implies s.contains(c) by {
            assert(s.drop_first().contains(c));
            let i = choose|i: int| 0 <= i < s.drop_first().len() && s.drop_first()[i] == c;
            assert(s[i + 1] == c);
        }
    } else if s.len() > 0 && s.last() == '-' {
        lemma_strip_hyphens(s.drop_last());
        assert forall|c: char| strip_hyphens(s).contains(c) implies s.contains(c) by {
            assert(s.drop_last().contains(c));
            let i = choose|i: int| 0 <= i < s.drop_last().len() && s.drop_last()[i] == c;
            assert(s[i] == c);
        }
    }
}

/// The base of every new category id is a non-empty run of lowercase ASCII
/// letters, digits and hyphens that neither starts nor ends with a hyphen.
pub proof fn law_slug_is_id_safe(label: Seq<char>)
    ensures
        slug_base_of(label).len() > 0,
        slug_base_of(label)[0] != '-',
        slug_base_of(label).last() != '-',
        forall|i: int| 0 <= i < slug_base_of(label).len() ==> id_char(#[trigger] slug_base_of(label)[i]),
{
    let mapped = label.map_values(|c: char| slug_char(c));
    lemma_strip_hyphens(mapped);
    let st = strip_hyphens(mapped);
    if st.len() == 0 {
        reveal_strlit("category");
    } else {
        assert forall|i: int| 0 <= i < st.len() implies id_char(#[trigger] st[i]) by {
            assert(st.contains(st[i]));
            assert(mapped.contains(st[i]));
            let j = choose|j: int| 0 <= j < mapped.len() && mapped[j] == st[i];
            let c = label[j];
            assert(mapped[j] == slug_char(c));
            if 'A' <= c && c <= 'Z' {
                assert(((c as u32) + 32) as char >= 'a');
            }
        }
    }
}

/// The `n`th id tried for a base: the base itself first, then the base with
/// `-2`, `-3`, and so on.
pub open spec fn candidate_id_of(base: Seq<char>, n: int) -> Seq<char> {
    if n <= 1 {
        base
    } else {
        base + "-"@ + fmt_int(n)
    }
}

/// The `n`th id tried for a base.
pub fn candidate_id(base: &str, n: u32) -> (r: String)
    ensures
        r@ == candidate_id_of(base@, n as int),
{
    let mut out: Vec<char> = Vec::new();
    push_str(&mut out, base);
    if n > 1 {
        push_str(&mut out, "-");
        push_padded(n as i64, 0, &mut out);
    }
    string_of(out.as_slice())
}

/// Guidance is stored trimmed; blank guidance clears it.
pub fn clean_guidance(guidance: Option<&str>) -> (r: Option<String>)
    ensures
        match guidance {
            Some(g) => if trim(g@).len() > 0 {
                r matches Some(s) && s@ == trim(g@)
            } else {
                r is None
            },
            None => r is None,
        },
{
    match guidance {
        Some(g) => {
            let t = trim_str(g);
            if t.len() > 0 {
                Some(string_of(t.as_slice()))
            } else {
                None
            }
        },
        None => None,
    }
}

} // verus!
