use vstd::prelude::*;

use crate::classify::ActionKind;
use crate::text::{decimal, push_decimal};

verus! {

/// How many resources of a plan have each of the four known kinds.
#[derive(Clone, Copy, Debug, PartialEq, Eq, Structural)]
pub struct ActionCounts {
    pub create: usize,
    pub update: usize,
    pub replace: usize,
    pub delete: usize,
}

/// The plan-wide summary: either the distinguished no-changes state or the
/// three counts.
#[derive(Clone, Copy, Debug, PartialEq, Eq, Structural)]
pub enum PlanSummary {
    NoChanges,
    Changes { add: usize, change: usize, destroy: usize },
}

/// How many entries of `kinds` are `k`.
pub open spec fn count_kind(kinds: Seq<ActionKind>, k: ActionKind) -> nat
    decreases kinds.len(),
{
    if kinds.len() == 0 {
        0
    } else {
        count_kind(kinds.drop_last(), k) + if kinds.last() == k {
            1nat
        } else {
            0nat
        }
    }
}

/// How many entries of `kinds` are not `Unknown`.
pub open spec fn known_count(kinds: Seq<ActionKind>) -> nat
    decreases kinds.len(),
{
    if kinds.len() == 0 {
        0
    } else {
        known_count(kinds.drop_last()) + if kinds.last() != ActionKind::Unknown {
            1nat
        } else {
            0nat
        }
    }
}

impl ActionCounts {
    pub open spec fn total(&self) -> nat {
        (self.create + self.update + self.replace + self.delete) as nat
    }
}

/// The counts of a sequence of kinds.
pub open spec fn counts_of(kinds: Seq<ActionKind>) -> ActionCounts {
    ActionCounts {
        create: count_kind(kinds, ActionKind::Create) as usize,
        update: count_kind(kinds, ActionKind::Update) as usize,
        replace: count_kind(kinds, ActionKind::Replace) as usize,
        delete: count_kind(kinds, ActionKind::Delete) as usize,
    }
}

/// The summary of the given counts: creations are added, updates and
/// replacements changed, deletions destroyed.
pub open spec fn summary_of(c: ActionCounts) -> PlanSummary {
    if c.total() == 0 {
        PlanSummary::NoChanges
    } else {
        PlanSummary::Changes {
            add: c.create,
            change: (c.update + c.replace) as usize,
            destroy: c.delete,
        }
    }
}

/// The text that states a summary.
pub open spec fn summary_text(s: PlanSummary) -> Seq<char> {
    match s {
        PlanSummary::NoChanges => "No changes. Your infrastructure matches the configuration.\n"@,
        PlanSummary::Changes { add, change, destroy } => "Plan: "@ + decimal(add as nat)
            + " to add, "@ + decimal(change as nat) + " to change, "@ + decimal(destroy as nat)
            + " to destroy.\n"@,
    }
}

proof fn lemma_counts_add_up(kinds: Seq<ActionKind>)
    ensures
        count_kind(kinds, ActionKind::Create) + count_kind(kinds, ActionKind::Update) + count_kind(
            kinds,
            ActionKind::Replace,
        ) + count_kind(kinds, ActionKind::Delete) == known_count(kinds),
        known_count(kinds) <= kinds.len(),
    decreases kinds.len(),
{
    if kinds.len() > 0 {
        lemma_counts_add_up(kinds.drop_last());
    }
}

/// The added, changed and destroyed counts of a plan's summary add up to the
/// number of resources whose kind is known, and the summary is the
/// no-changes state exactly when that number is zero.
pub proof fn lemma_summary_totals(kinds: Seq<ActionKind>)
    requires
        kinds.len() <= usize::MAX,
    ensures
        match summary_of(counts_of(kinds)) {
            PlanSummary::NoChanges => known_count(kinds) == 0,
            PlanSummary::Changes { add, change, destroy } => add + change + destroy == known_count(
                kinds,
            ) && known_count(kinds) > 0,
        },
{
    lemma_counts_add_up(kinds);
}

/// Tallies each known kind.
pub fn tally(kinds: &[ActionKind]) -> (r: ActionCounts)
    ensures
        r == counts_of(kinds@),
        r.total() == known_count(kinds@),
        r.total() <= kinds@.len(),
{
    let mut c = ActionCounts { create: 0, update: 0, replace: 0, delete: 0 };
    let mut i: usize = 0;
    while i < kinds.len()
        invariant
            i <= kinds.len(),
            c.create == count_kind(kinds@.subrange(0, i as int), ActionKind::Create),
            c.update == count_kind(kinds@.subrange(0, i as int), ActionKind::Update),
            c.replace == count_kind(kinds@.subrange(0, i as int), ActionKind::Replace),
            c.delete == count_kind(kinds@.subrange(0, i as int), ActionKind::Delete),
            c.total() == known_count(kinds@.subrange(0, i as int)),
            c.total() <= i,
        decreases kinds.len() - i,
    {
        let ghost pre = kinds@.subrange(0, i + 1);
        assert(pre.drop_last() == kinds@.subrange(0, i as int));
        match kinds[i] {
            ActionKind::Create => c.create = c.create + 1,
            ActionKind::Update => c.update = c.update + 1,
            ActionKind::Replace => c.replace = c.replace + 1,
            ActionKind::Delete => c.delete = c.delete + 1,
            ActionKind::Unknown => {},
        }
        i = i + 1;
    }
    assert(kinds@.subrange(0, i as int) == kinds@);
    c
}

impl ActionCounts {
    /// The summary of these counts.
    pub fn summary(&self) -> (r: PlanSummary)
        requires
            self.total() <= usize::MAX,
        ensures
            r == summary_of(*self),
    {
        if self.create == 0 && self.update == 0 && self.replace == 0 && self.delete == 0 {
            PlanSummary::NoChanges
        } else {
            PlanSummary::Changes {
                add: self.create,
                change: self.update + self.replace,
                destroy: self.delete,
            }
        }
    }
}

/// The summary of a sequence of kinds.
pub fn summarize(kinds: &[ActionKind]) -> (r: PlanSummary)
    ensures
        r == summary_of(counts_of(kinds@)),
{
    let c = tally(kinds);
    let n = kinds.len();
    assert(c.total() <= n);
    c.summary()
}

/// The text of a summary.
pub fn summary_line(s: &PlanSummary) -> (r: String)
    ensures
        r@ == summary_text(*s),
{
    match s {
        PlanSummary::NoChanges => String::from_str(
            "No changes. Your infrastructure matches the configuration.\n",
        ),
        PlanSummary::Changes { add, change, destroy } => {
            let mut out = String::from_str("Plan: ");
            push_decimal(&mut out, *add);
            out.append(" to add, ");
            push_decimal(&mut out, *change);
            out.append(" to change, ");
            push_decimal(&mut out, *destroy);
            out.append(" to destroy.\n");
            out
        },
    }
}

/// The summary text for the given counts.
pub fn format_summary(counts: &ActionCounts) -> (r: String)
    requires
        counts.total() <= usize::MAX,
    ensures
        r@ == summary_text(summary_of(*counts)),
{
    summary_line(&counts.summary())
}

} // verus!
