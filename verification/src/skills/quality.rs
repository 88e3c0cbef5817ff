//! Skill quality: how often a skill is selected, applied, completes its task
//! or falls back, and when it counts as degraded.
use vstd::prelude::*;

verus! {

/// Minimum applications before a skill can count as degraded.
pub const MIN_APPLICATIONS_FOR_DEGRADATION: u64 = 3;

/// Skill quality metrics
#[derive(Debug, Clone, Copy, PartialEq, Eq)]
pub struct SkillMetrics {
    /// Times skill was selected by LLM
    pub total_selections: u64,
    /// Times skill was actually applied
    pub total_applied: u64,
    /// Times task completed successfully with this skill
    pub total_completions: u64,
    /// Times skill failed and had to fall back
    pub total_fallbacks: u64,
    /// Last update timestamp (Unix epoch)
    pub last_updated: u64,
}

/// A skill is degraded when it has been applied at least
/// `MIN_APPLICATIONS_FOR_DEGRADATION` times and completed less than half of
/// them.
pub open spec fn degraded_spec(m: SkillMetrics) -> bool {
    &&& 2 * m.total_completions < m.total_applied
    &&& m.total_applied >= MIN_APPLICATIONS_FOR_DEGRADATION
}

/// One counter to raise.
#[derive(Debug, Clone, Copy, PartialEq, Eq)]
pub enum UsageRecord {
    Selection,
    Applied,
    Completion,
    Fallback,
}

/// The counters a use of a skill raises, in order: it was selected; when it
/// was applied, also applied, then completed and fell back as they happened.
pub open spec fn usage_records_spec(
    was_applied: bool,
    was_completed: bool,
    had_fallback: bool,
) -> Seq<UsageRecord> {
    seq![UsageRecord::Selection] + if was_applied {
        seq![UsageRecord::Applied] + (if was_completed {
            seq![UsageRecord::Completion]
        } else {
            Seq::empty()
        }) + (if had_fallback {
            seq![UsageRecord::Fallback]
        } else {
            Seq::empty()
        })
    } else {
        Seq::empty()
    }
}

/// The counters a use of a skill raises, in order.
pub fn usage_records(was_applied: bool, was_completed: bool, had_fallback: bool) -> (r: Vec<
    UsageRecord,
>)
    ensures
        r@ == usage_records_spec(was_applied, was_completed, had_fallback),
{
    let mut out: Vec<UsageRecord> = Vec::new();
    out.push(UsageRecord::Selection);
    if was_applied {
        out.push(UsageRecord::Applied);
        if was_completed {
            out.push(UsageRecord::Completion);
        }
        if had_fallback {
            out.push(UsageRecord::Fallback);
        }
    }
    assert(out@ =~= usage_records_spec(was_applied, was_completed, had_fallback));
    out
}

/// The metrics after raising one counter at time `now`.
pub open spec fn recorded(m: SkillMetrics, rec: UsageRecord, now: u64) -> SkillMetrics {
    match rec {
        UsageRecord::Selection => SkillMetrics {
            total_selections: (m.total_selections + 1) as u64,
            last_updated: now,
            ..m
        },
        UsageRecord::Applied => SkillMetrics {
            total_applied: (m.total_applied + 1) as u64,
            last_updated: now,
            ..m
        },
        UsageRecord::Completion => SkillMetrics {
            total_completions: (m.total_completions + 1) as u64,
            last_updated: now,
            ..m
        },
        UsageRecord::Fallback => SkillMetrics {
            total_fallbacks: (m.total_fallbacks + 1) as u64,
            last_updated: now,
            ..m
        },
    }
}

/// No counter is at its limit.
pub open spec fn below_limits(m: SkillMetrics) -> bool {
    &&& m.total_selections < u64::MAX
    &&& m.total_applied < u64::MAX
    &&& m.total_completions < u64::MAX
    &&& m.total_fallbacks < u64::MAX
}

impl SkillMetrics {
    /// Metrics of a skill never used.
    pub fn new() -> (r: Self)
        ensures
            r == (SkillMetrics {
                total_selections: 0,
                total_applied: 0,
                total_completions: 0,
                total_fallbacks: 0,
                last_updated: 0,
            }),
    {
        SkillMetrics {
            total_selections: 0,
            total_applied: 0,
            total_completions: 0,
            total_fallbacks: 0,
            last_updated: 0,
        }
    }

    /// Check if skill is degraded (completion rate below 50% after enough
    /// applications).
    pub fn is_degraded(&self) -> (r: bool)
        ensures
            r == degraded_spec(*self),
    {
        let twice: u128 = (self.total_completions as u128) * 2;
        twice < self.total_applied as u128 && self.total_applied >= MIN_APPLICATIONS_FOR_DEGRADATION
    }

    /// Raise one counter at time `now`.
    pub fn record(&mut self, rec: UsageRecord, now: u64)
        requires
            below_limits(*old(self)),
        ensures
            *final(self) == recorded(*old(self), rec, now),
    {
        match rec {
            UsageRecord::Selection => self.total_selections = self.total_selections + 1,
            UsageRecord::Applied => self.total_applied = self.total_applied + 1,
            UsageRecord::Completion => self.total_completions = self.total_completions + 1,
            UsageRecord::Fallback => self.total_fallbacks = self.total_fallbacks + 1,
        }
        self.last_updated = now;
    }
}

impl Default for SkillMetrics {
    fn default() -> (r: Self)
        ensures
            r == (SkillMetrics {
                total_selections: 0,
                total_applied: 0,
                total_completions: 0,
                total_fallbacks: 0,
                last_updated: 0,
            }),
    {
        SkillMetrics::new()
    }
}

/// Law: every use of a skill counts one selection, never more applications
/// than that, and a completion or a fall-back only when it was applied.
pub proof fn law_usage_counts(was_applied: bool, was_completed: bool, had_fallback: bool)
    ensures
        usage_records_spec(was_applied, was_completed, had_fallback)[0] == UsageRecord::Selection,
        usage_records_spec(was_applied, was_completed, had_fallback).len() == 1 + (if was_applied {
            1 + (if was_completed { 1int } else { 0 }) + (if had_fallback { 1int } else { 0 })
        } else {
            0
        }),
        !was_applied ==> usage_records_spec(was_applied, was_completed, had_fallback) == seq![
            UsageRecord::Selection,
        ],
{
    if !was_applied {
        assert(usage_records_spec(was_applied, was_completed, had_fallback) =~= seq![
            UsageRecord::Selection,
        ]);
    }
}

/// Law: a skill applied fewer times than the minimum is never degraded, and
/// one that completed at least half of its applications is not either.
pub proof fn law_degraded_needs_evidence(m: SkillMetrics)
    ensures
        m.total_applied < MIN_APPLICATIONS_FOR_DEGRADATION ==> !degraded_spec(m),
        2 * m.total_completions >= m.total_applied ==> !degraded_spec(m),
{
}

} // verus!
