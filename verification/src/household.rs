//! Household members and how an account's owners are displayed.

use vstd::prelude::*;
use crate::ids::{hyphenated_uuid, new_record_id};
use crate::text::{push_str, string_of, trim, trim_str};

verus! {

/// A member of the household.
#[derive(Debug)]
pub struct HouseholdMember {
    pub id: String,
    pub name: String,
    pub color: Option<String>,
    pub created_at: String,
    pub is_self: bool,
}

/// Why a member could not be added.
#[derive(Debug)]
pub enum MemberError {
    EmptyName,
    DuplicateName(String),
}

pub open spec fn member_error_message(e: MemberError) -> Seq<char> {
    match e {
        MemberError::EmptyName => "member name must not be empty"@,
        MemberError::DuplicateName(n) => "a household member named \""@ + n@ + "\" already exists"@,
    }
}

impl MemberError {
    /// The message reported for the error.
    pub fn message(&self) -> (r: String)
        ensures
            r@ == member_error_message(*self),
    {
        match self {
            MemberError::EmptyName => "member name must not be empty".to_owned(),
            MemberError::DuplicateName(n) => {
                let mut out: Vec<char> = Vec::new();
                push_str(&mut out, "a household member named \"");
                push_str(&mut out, n.as_str());
                push_str(&mut out, "\" already exists");
                string_of(out.as_slice())
            },
        }
    }
}

/// A member's name is stored trimmed, must not be empty, and must not repeat
/// an existing member's name (compared case-insensitively by the store, which
/// reports how many members already carry it).
pub fn check_member_name(name: &str, existing_with_name: i64) -> (r: Result<String, MemberError>)
    ensures
        match r {
            Ok(s) => trim(name@).len() > 0 && existing_with_name <= 0 && s@ == trim(name@),
            Err(MemberError::EmptyName) => trim(name@).len() == 0,
            Err(MemberError::DuplicateName(n)) => trim(name@).len() > 0 && existing_with_name > 0 && n@ == trim(
                name@,
            ),
        },
{
    let t = trim_str(name);
    if t.len() == 0 {
        return Err(MemberError::EmptyName);
    }
    let s = string_of(t.as_slice());
    if existing_with_name > 0 {
        Err(MemberError::DuplicateName(s))
    } else {
        Ok(s)
    }
}

/// A new member, not the household's own member, with a fresh id.
pub fn new_member(name: String, color: Option<String>, created_at: String) -> (r: HouseholdMember)
    ensures
        hyphenated_uuid(r.id@),
        r.name == name,
        r.color == color,
        r.created_at == created_at,
        !r.is_self,
{
    HouseholdMember { id: new_record_id(), name, color, created_at, is_self: false }
}

/// Names joined with ` & `.
pub open spec fn join_names(names: Seq<Seq<char>>) -> Seq<char>
    decreases names.len(),
{
    if names.len() == 0 {
        Seq::empty()
    } else if names.len() == 1 {
        names[0]
    } else {
        join_names(names.drop_last()) + " & "@ + names.last()
    }
}

/// How an account's owners are shown: their names joined with ` & `, or
/// `Household` when nobody owns it.
pub open spec fn owner_display_of(names: Seq<Seq<char>>) -> Seq<char> {
    if names.len() == 0 {
        "Household"@
    } else {
        join_names(names)
    }
}

/// The owner label of an account whose owners have these names, in order.
pub fn owner_display(names: &Vec<String>) -> (r: String)
    ensures
        r@ == owner_display_of(names@.map_values(|s: String| s@)),
{
    let ghost all = names@.map_values(|s: String| s@);
    if names.len() == 0 {
        return "Household".to_owned();
    }
    let mut out: Vec<char> = Vec::new();
    let mut i: usize = 0;
    while i < names.len()
        invariant
            i <= names.len(),
            all == names@.map_values(|s: String| s@),
            out@ == join_names(all.take(i as int)),
        decreases names.len() - i,
    {
        assert(all.take(i + 1).drop_last() =~= all.take(i as int));
        if i > 0 {
            push_str(&mut out, " & ");
        }
        push_str(&mut out, names[i].as_str());
        i += 1;
        proof {
            if i == 1 {
                assert(join_names(all.take(0)) =~= Seq::<char>::empty());
                assert(out@ =~= all.take(1)[0]);
            }
        }
    }
    assert(all.take(i as int) =~= all);
    string_of(out.as_slice())
}

} // verus!
