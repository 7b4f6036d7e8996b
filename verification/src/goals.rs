//! Savings goals: how much each matters, what its deadline commits to, and the
//! order in which goals are funded.

use vstd::prelude::*;
use crate::text::{ascii_lower_seq, ascii_lower_vec, chars_eq_str, trim, trim_str};
use crate::ids::{hyphenated_uuid, new_record_id};
use crate::sums::{checked_total, prefix_sums_fit, sum_i64};

verus! {

/// How much a goal matters relative to the others, as the user sees it.
/// Declared most urgent first; the declaration order is the funding order.
#[derive(Debug, Clone, Copy, PartialEq, Eq, PartialOrd, Ord, Structural)]
pub enum GoalPriority {
    /// Fund before anything else: the emergency fund, a tax bill.
    Critical,
    High,
    /// The default, and every goal that predates priorities.
    Normal,
    /// Aspirational; funded from what is genuinely spare.
    Someday,
}

/// What a goal's target date commits the user to.
#[derive(Debug, Clone, Copy, PartialEq, Eq, Structural)]
pub enum DeadlineStrictness {
    /// Immovable: missing it costs something real.
    Hard,
    /// The default: a date the user is aiming at.
    Target,
    /// No meaningful deadline (stored as `none`).
    NoDeadline,
}

/// A stored priority, case- and whitespace-insensitively; anything
/// unrecognised plans as `Normal`.
pub open spec fn priority_of(raw: Seq<char>) -> GoalPriority {
    let k = ascii_lower_seq(trim(raw));
    if k == "critical"@ {
        GoalPriority::Critical
    } else if k == "high"@ {
        GoalPriority::High
    } else if k == "someday"@ {
        GoalPriority::Someday
    } else {
        GoalPriority::Normal
    }
}

pub open spec fn priority_db(p: GoalPriority) -> Seq<char> {
    match p {
        GoalPriority::Critical => "critical"@,
        GoalPriority::High => "high"@,
        GoalPriority::Normal => "normal"@,
        GoalPriority::Someday => "someday"@,
    }
}

/// Position in the declaration order.
pub open spec fn priority_rank(p: GoalPriority) -> int {
    match p {
        GoalPriority::Critical => 0,
        GoalPriority::High => 1,
        GoalPriority::Normal => 2,
        GoalPriority::Someday => 3,
    }
}

/// A stored strictness; anything unrecognised is `Target`.
pub open spec fn strictness_of(raw: Seq<char>) -> DeadlineStrictness {
    let k = ascii_lower_seq(trim(raw));
    if k == "hard"@ {
        DeadlineStrictness::Hard
    } else if k == "none"@ {
        DeadlineStrictness::NoDeadline
    } else {
        DeadlineStrictness::Target
    }
}

pub open spec fn strictness_db(s: DeadlineStrictness) -> Seq<char> {
    match s {
        DeadlineStrictness::Hard => "hard"@,
        DeadlineStrictness::Target => "target"@,
        DeadlineStrictness::NoDeadline => "none"@,
    }
}

impl GoalPriority {
    /// Parses a stored value, falling back to `Normal`: a goal whose priority
    /// cannot be read must still be planned around.
    pub fn from_db(raw: &str) -> (r: Self)
        ensures
            r == priority_of(raw@),
    {
        let k = ascii_lower_vec(&trim_str(raw));
        if chars_eq_str(&k, "critical") {
            GoalPriority::Critical
        } else if chars_eq_str(&k, "high") {
            GoalPriority::High
        } else if chars_eq_str(&k, "someday") {
            GoalPriority::Someday
        } else {
            GoalPriority::Normal
        }
    }

    /// The stored text of the priority.
    pub fn as_db(self) -> (r: &'static str)
        ensures
            r@ == priority_db(self),
    {
        match self {
            GoalPriority::Critical => "critical",
            GoalPriority::High => "high",
            GoalPriority::Normal => "normal",
            GoalPriority::Someday => "someday",
        }
    }

    /// Sort key: lower comes first.
    pub fn rank(self) -> (r: u8)
        ensures
            r == priority_rank(self),
    {
        match self {
            GoalPriority::Critical => 0,
            GoalPriority::High => 1,
            GoalPriority::Normal => 2,
            GoalPriority::Someday => 3,
        }
    }
}

impl DeadlineStrictness {
    /// Parses a stored value, falling back to `Target` for anything
    /// unrecognised.
    pub fn from_db(raw: &str) -> (r: Self)
        ensures
            r == strictness_of(raw@),
    {
        let k = ascii_lower_vec(&trim_str(raw));
        if chars_eq_str(&k, "hard") {
            DeadlineStrictness::Hard
        } else if chars_eq_str(&k, "none") {
            DeadlineStrictness::NoDeadline
        } else {
            DeadlineStrictness::Target
        }
    }

    /// The stored text of the strictness.
    pub fn as_db(self) -> (r: &'static str)
        ensures
            r@ == strictness_db(self),
    {
        match self {
            DeadlineStrictness::Hard => "hard",
            DeadlineStrictness::Target => "target",
            DeadlineStrictness::NoDeadline => "none",
        }
    }
}

/// A savings goal.
#[derive(Debug, Clone)]
pub struct Goal {
    pub id: String,
    pub name: String,
    pub goal_type: String,
    pub target_cents: i64,
    pub current_cents: i64,
    pub monthly_cents: i64,
    pub target_date: Option<String>,
    pub color: String,
    pub notes: Option<String>,
    pub purpose: Option<String>,
    pub sort_order: i64,
    pub created_at: String,
    pub account_id: Option<String>,
    pub priority: GoalPriority,
    pub deadline_strictness: DeadlineStrictness,
}

/// A goal's deadline counts only if it has a non-blank date.
pub open spec fn effective_strictness_of(
    target_date: Option<Seq<char>>,
    stored: DeadlineStrictness,
) -> DeadlineStrictness {
    match target_date {
        None => DeadlineStrictness::NoDeadline,
        Some(d) => if trim(d).len() == 0 {
            DeadlineStrictness::NoDeadline
        } else {
            stored
        },
    }
}

pub open spec fn opt_view(o: Option<String>) -> Option<Seq<char>> {
    match o {
        Some(s) => Some(s@),
        None => None,
    }
}

/// A copy of an optional text.
pub fn clone_opt(o: &Option<String>) -> (r: Option<String>)
    ensures
        opt_view(r) == opt_view(*o),
{
    match o {
        Some(s) => Some(s.clone()),
        None => None,
    }
}

impl Goal {
    /// What the deadline actually means: with no date (or a blank one) the
    /// goal is open-ended whatever the stored strictness says.
    pub fn effective_strictness(&self) -> (r: DeadlineStrictness)
        ensures
            r == effective_strictness_of(opt_view(self.target_date), self.deadline_strictness),
    {
        match &self.target_date {
            None => DeadlineStrictness::NoDeadline,
            Some(d) => {
                let t = trim_str(d.as_str());
                if t.len() == 0 {
                    DeadlineStrictness::NoDeadline
                } else {
                    self.deadline_strictness
                }
            },
        }
    }

    /// Ordering key for "what should I fund first": priority, then whether
    /// the deadline is immovable, then the date.
    pub fn funding_order_key(&self) -> (r: (u8, u8, Option<String>))
        ensures
            r.0 == priority_rank(self.priority),
            r.1 == (if effective_strictness_of(opt_view(self.target_date), self.deadline_strictness)
                == DeadlineStrictness::Hard {
                0int
            } else {
                1int
            }),
            opt_view(r.2) == opt_view(self.target_date),
    {
        let hard_first: u8 = match self.effective_strictness() {
            DeadlineStrictness::Hard => 0,
            _ => 1,
        };
        (self.priority.rank(), hard_first, clone_opt(&self.target_date))
    }
}

/// The fields of a goal being created; priority and strictness default
/// when missing.
#[derive(Debug, Clone)]
pub struct NewGoal {
    pub name: String,
    pub goal_type: String,
    pub target_cents: i64,
    pub monthly_cents: i64,
    pub target_date: Option<String>,
    pub color: String,
    pub notes: Option<String>,
    pub purpose: Option<String>,
    pub account_id: Option<String>,
    /// `None` takes the default, `Normal`.
    pub priority: Option<GoalPriority>,
    /// `None` takes the default, `Target`.
    pub deadline_strictness: Option<DeadlineStrictness>,
}

/// The goal a new-goal request creates: nothing saved yet, first in the
/// manual order, with the default priority and strictness where none was given.
pub fn goal_from_new(g: NewGoal, created_at: String) -> (r: Goal)
    ensures
        hyphenated_uuid(r.id@),
        r.created_at == created_at,
        r.name == g.name,
        r.goal_type == g.goal_type,
        r.target_cents == g.target_cents,
        r.current_cents == 0,
        r.monthly_cents == g.monthly_cents,
        r.target_date == g.target_date,
        r.color == g.color,
        r.notes == g.notes,
        r.purpose == g.purpose,
        r.sort_order == 0,
        r.account_id == g.account_id,
        r.priority == (match g.priority {
            Some(p) => p,
            None => GoalPriority::Normal,
        }),
        r.deadline_strictness == (match g.deadline_strictness {
            Some(s) => s,
            None => DeadlineStrictness::Target,
        }),
{
    let priority = match g.priority {
        Some(p) => p,
        None => GoalPriority::Normal,
    };
    let deadline_strictness = match g.deadline_strictness {
        Some(s) => s,
        None => DeadlineStrictness::Target,
    };
    Goal {
        id: new_record_id(),
        name: g.name,
        goal_type: g.goal_type,
        target_cents: g.target_cents,
        current_cents: 0,
        monthly_cents: g.monthly_cents,
        target_date: g.target_date,
        color: g.color,
        notes: g.notes,
        purpose: g.purpose,
        sort_order: 0,
        created_at,
        account_id: g.account_id,
        priority,
        deadline_strictness,
    }
}

/// One movement into (or, negative, out of) a goal.
#[derive(Debug, Clone)]
pub struct GoalContribution {
    pub id: String,
    pub goal_id: String,
    pub amount_cents: i64,
    pub note: Option<String>,
    pub source: String,
    pub created_at: String,
}

/// The amounts of the contributions, in order.
pub open spec fn contribution_amounts(cs: Seq<GoalContribution>) -> Seq<i64> {
    cs.map_values(|c: GoalContribution| c.amount_cents)
}

/// What a goal holds: the sum of its contributions, withdrawals counting
/// negative; nothing when a running total leaves `i64` (the store refuses
/// such a sum as an integer overflow).
pub fn saved_amount(contributions: &Vec<GoalContribution>) -> (r: Option<i64>)
    ensures
        r is Some <==> prefix_sums_fit(contribution_amounts(contributions@)),
        r matches Some(t) ==> t == sum_i64(contribution_amounts(contributions@)),
{
    let mut amounts: Vec<i64> = Vec::new();
    let mut i: usize = 0;
    while i < contributions.len()
        invariant
            i <= contributions.len(),
            amounts@ == contribution_amounts(contributions@).take(i as int),
        decreases contributions.len() - i,
    {
        amounts.push(contributions[i].amount_cents);
        i += 1;
        assert(amounts@ =~= contribution_amounts(contributions@).take(i as int));
    }
    assert(amounts@ =~= contribution_amounts(contributions@));
    checked_total(&amounts)
}

/// A new contribution to a goal, with a fresh id. The goal's saved amount is
/// then the sum of its contributions.
pub fn new_contribution(goal_id: &str, amount_cents: i64, note: Option<&str>, source: &str, created_at: String) -> (r: GoalContribution)
    ensures
        hyphenated_uuid(r.id@),
        r.goal_id@ == goal_id@,
        r.amount_cents == amount_cents,
        match note {
            Some(n) => r.note matches Some(s) && s@ == n@,
            None => r.note is None,
        },
        r.source@ == source@,
        r.created_at == created_at,
{
    let note_owned = match note {
        Some(n) => Some(n.to_owned()),
        None => None,
    };
    GoalContribution {
        id: new_record_id(),
        goal_id: goal_id.to_owned(),
        amount_cents,
        note: note_owned,
        source: source.to_owned(),
        created_at,
    }
}

/// Every stored priority reads back as itself.
pub proof fn law_priority_round_trip(p: GoalPriority)
    ensures
        priority_of(priority_db(p)) == p,
{
    reveal_strlit("critical");
    reveal_strlit("high");
    reveal_strlit("normal");
    reveal_strlit("someday");
    let d = priority_db(p);
    assert(trim(d) == d) by {
        lemma_trim_no_ws(d);
    }
    assert(ascii_lower_seq(d) =~= d);
    assert("critical"@.len() == 8 && "high"@.len() == 4 && "normal"@.len() == 6
        && "someday"@.len() == 7);
}

/// Every stored strictness reads back as itself.
pub proof fn law_strictness_round_trip(s: DeadlineStrictness)
    ensures
        strictness_of(strictness_db(s)) == s,
{
    reveal_strlit("hard");
    reveal_strlit("target");
    reveal_strlit("none");
    let d = strictness_db(s);
    assert(trim(d) == d) by {
        lemma_trim_no_ws(d);
    }
    assert(ascii_lower_seq(d) =~= d);
    assert("hard"@.len() == 4 && "target"@.len() == 6 && "none"@.len() == 4);
    assert("hard"@[0] != "none"@[0]);
}

/// A string with no whitespace at either end trims to itself.
pub proof fn lemma_trim_no_ws(s: Seq<char>)
    requires
        s.len() > 0 ==> !crate::text::is_ws(s[0]) && !crate::text::is_ws(s.last()),
    ensures
        trim(s) == s,
{
    assert(crate::text::trim_start(s) == s);
    assert(crate::text::trim_end(s) == s);
}

/// The first two components of a goal's funding key.
pub open spec fn funding_rank(g: Goal) -> (int, int) {
    (
        priority_rank(g.priority),
        if effective_strictness_of(opt_view(g.target_date), g.deadline_strictness)
            == DeadlineStrictness::Hard {
            0
        } else {
            1
        },
    )
}

/// Goals created with the default priority and strictness all share the same
/// priority-and-hardness rank, so ordering them falls back to their dates
/// alone, as it did before priorities existed.
pub proof fn law_default_goals_rank_alike(a: Goal, b: Goal)
    requires
        a.priority == GoalPriority::Normal,
        b.priority == GoalPriority::Normal,
        a.deadline_strictness == DeadlineStrictness::Target,
        b.deadline_strictness == DeadlineStrictness::Target,
    ensures
        funding_rank(a) == funding_rank(b),
        funding_rank(a) == (2int, 1int),
{
}

/// A more urgent priority always funds first, whatever the deadlines say.
pub proof fn law_priority_dominates(a: Goal, b: Goal)
    requires
        priority_rank(a.priority) < priority_rank(b.priority),
    ensures
        funding_rank(a).0 < funding_rank(b).0,
{
}

} // verus!
