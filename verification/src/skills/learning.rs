//! The learning tracker: when to review the session for a skill worth saving.
use vstd::prelude::*;
use crate::text::{push_str, string_of};

verus! {

/// Default number of iterations before skill review trigger
pub const DEFAULT_NUDGE_INTERVAL: u32 = 10;

/// Minimum iterations for complex task detection
pub const COMPLEX_TASK_THRESHOLD: u32 = 5;

/// Learning tracker state
#[derive(Debug)]
pub struct LearningTracker {
    iters_since_skill: u32,
    nudge_interval: u32,
    total_iterations: u32,
    errors_encountered: u32,
    user_corrections: u32,
}

/// Learning statistics snapshot
#[derive(Debug, Clone, Copy)]
pub struct LearningStats {
    /// Iterations since last skill creation
    pub iters_since_skill: u32,
    /// Total iterations this session
    pub total_iterations: u32,
    /// Errors encountered
    pub errors_encountered: u32,
    /// User corrections
    pub user_corrections: u32,
    /// Configured nudge interval
    pub nudge_interval: u32,
}

/// Learning trigger reason
#[derive(Debug, Clone, Copy, PartialEq, Eq)]
pub enum TriggerReason {
    /// Iteration count reached
    IterationCount,
    /// Multiple errors encountered
    ErrorsOvercome,
    /// User corrected approach
    UserCorrection,
}

/// Whether a review is due: enough iterations, or some iterations after
/// repeated errors or after a correction.
pub open spec fn nudge_due(s: LearningStats) -> bool {
    s.iters_since_skill >= s.nudge_interval || (s.errors_encountered >= 2 && s.iters_since_skill
        >= 3) || (s.user_corrections >= 1 && s.iters_since_skill >= 3)
}

/// Why a review is due, the first reason that holds.
pub open spec fn trigger_spec(s: LearningStats) -> Option<TriggerReason> {
    if s.iters_since_skill >= s.nudge_interval {
        Some(TriggerReason::IterationCount)
    } else if s.errors_encountered >= 2 && s.iters_since_skill >= 3 {
        Some(TriggerReason::ErrorsOvercome)
    } else if s.user_corrections >= 1 && s.iters_since_skill >= 3 {
        Some(TriggerReason::UserCorrection)
    } else {
        None
    }
}

impl LearningTracker {
    /// The counters and the interval.
    pub closed spec fn state(&self) -> LearningStats {
        LearningStats {
            iters_since_skill: self.iters_since_skill,
            total_iterations: self.total_iterations,
            errors_encountered: self.errors_encountered,
            user_corrections: self.user_corrections,
            nudge_interval: self.nudge_interval,
        }
    }

    /// Create a new learning tracker with default interval
    pub fn new() -> (r: Self)
        ensures
            r.state() == (LearningStats {
                iters_since_skill: 0,
                total_iterations: 0,
                errors_encountered: 0,
                user_corrections: 0,
                nudge_interval: DEFAULT_NUDGE_INTERVAL,
            }),
    {
        Self::with_interval(DEFAULT_NUDGE_INTERVAL)
    }

    /// Create a new learning tracker with custom interval
    pub fn with_interval(nudge_interval: u32) -> (r: Self)
        ensures
            r.state() == (LearningStats {
                iters_since_skill: 0,
                total_iterations: 0,
                errors_encountered: 0,
                user_corrections: 0,
                nudge_interval,
            }),
    {
        LearningTracker {
            iters_since_skill: 0,
            nudge_interval,
            total_iterations: 0,
            errors_encountered: 0,
            user_corrections: 0,
        }
    }

    /// Called on each tool invocation: both iteration counters grow (wrapping).
    pub fn on_tool_call(&mut self)
        ensures
            final(self).state() == (LearningStats {
                iters_since_skill: old(self).state().iters_since_skill.wrapping_add(1),
                total_iterations: old(self).state().total_iterations.wrapping_add(1),
                ..old(self).state()
            }),
    {
        self.iters_since_skill = self.iters_since_skill.wrapping_add(1);
        self.total_iterations = self.total_iterations.wrapping_add(1);
    }

    /// Called when a skill is created or used: resets the iteration counter.
    pub fn on_skill_use(&mut self)
        ensures
            final(self).state() == (LearningStats { iters_since_skill: 0, ..old(self).state() }),
    {
        self.iters_since_skill = 0;
    }

    /// Called when an error is encountered
    pub fn on_error(&mut self)
        ensures
            final(self).state() == (LearningStats {
                errors_encountered: old(self).state().errors_encountered.wrapping_add(1),
                ..old(self).state()
            }),
    {
        self.errors_encountered = self.errors_encountered.wrapping_add(1);
    }

    /// Called when user corrects the agent's approach
    pub fn on_user_correction(&mut self)
        ensures
            final(self).state() == (LearningStats {
                user_corrections: old(self).state().user_corrections.wrapping_add(1),
                ..old(self).state()
            }),
    {
        self.user_corrections = self.user_corrections.wrapping_add(1);
    }

    /// Check if skill review should be triggered
    pub fn should_nudge(&self) -> (r: bool)
        ensures
            r == nudge_due(self.state()),
    {
        let iters = self.iters_since_skill;
        if iters >= self.nudge_interval {
            return true;
        }
        if self.errors_encountered >= 2 && iters >= 3 {
            return true;
        }
        if self.user_corrections >= 1 && iters >= 3 {
            return true;
        }
        false
    }

    /// Consume the nudge: the iteration, error and correction counters are
    /// reset; returns whether a nudge was pending.
    pub fn consume_nudge(&mut self) -> (r: bool)
        ensures
            r == nudge_due(old(self).state()),
            final(self).state() == (LearningStats {
                iters_since_skill: 0,
                errors_encountered: 0,
                user_corrections: 0,
                ..old(self).state()
            }),
    {
        let iters = self.iters_since_skill;
        let errors = self.errors_encountered;
        let corrections = self.user_corrections;
        self.iters_since_skill = 0;
        self.errors_encountered = 0;
        self.user_corrections = 0;
        iters >= self.nudge_interval || (errors >= 2 && iters >= 3) || (corrections >= 1 && iters
            >= 3)
    }

    /// Check if task was complex (5+ tool calls)
    pub fn is_complex_task(&self) -> (r: bool)
        ensures
            r == (self.state().total_iterations >= COMPLEX_TASK_THRESHOLD),
    {
        self.total_iterations >= COMPLEX_TASK_THRESHOLD
    }

    /// Get current iteration counts
    pub fn stats(&self) -> (r: LearningStats)
        ensures
            r == self.state(),
    {
        LearningStats {
            iters_since_skill: self.iters_since_skill,
            total_iterations: self.total_iterations,
            errors_encountered: self.errors_encountered,
            user_corrections: self.user_corrections,
            nudge_interval: self.nudge_interval,
        }
    }

    /// Reset all counters
    pub fn reset(&mut self)
        ensures
            final(self).state() == (LearningStats {
                iters_since_skill: 0,
                total_iterations: 0,
                errors_encountered: 0,
                user_corrections: 0,
                nudge_interval: old(self).state().nudge_interval,
            }),
    {
        self.iters_since_skill = 0;
        self.total_iterations = 0;
        self.errors_encountered = 0;
        self.user_corrections = 0;
    }

    /// Get the trigger reason (if should_nudge is true)
    pub fn trigger_reason(&self) -> (r: Option<TriggerReason>)
        ensures
            r == trigger_spec(self.state()),
    {
        let iters = self.iters_since_skill;
        if iters >= self.nudge_interval {
            return Some(TriggerReason::IterationCount);
        }
        if self.errors_encountered >= 2 && iters >= 3 {
            return Some(TriggerReason::ErrorsOvercome);
        }
        if self.user_corrections >= 1 && iters >= 3 {
            return Some(TriggerReason::UserCorrection);
        }
        None
    }
}

/// Law: a review is due exactly when there is a reason for it.
pub proof fn law_nudge_iff_reason(s: LearningStats)
    ensures
        nudge_due(s) <==> trigger_spec(s) is Some,
{
}

/// Law: once consumed, no review is due until more iterations come, unless
/// the interval is zero.
pub proof fn law_consume_clears(s: LearningStats)
    requires
        s.nudge_interval > 0,
    ensures
        !nudge_due(LearningStats { iters_since_skill: 0, errors_encountered: 0, user_corrections: 0, ..s }),
{
}

/// Law: using a skill clears every reason that counts iterations, unless the
/// interval is zero.
pub proof fn law_skill_use_quiets(s: LearningStats)
    requires
        s.nudge_interval > 0,
    ensures
        !nudge_due(LearningStats { iters_since_skill: 0, ..s }),
{
}

/// The context sentence of each trigger.
pub open spec fn trigger_context(t: TriggerReason) -> Seq<char> {
    match t {
        TriggerReason::IterationCount => "A complex task was completed after many tool calls."@,
        TriggerReason::ErrorsOvercome => "The task encountered errors but was eventually completed."@,
        TriggerReason::UserCorrection => "The user corrected the approach during execution."@,
    }
}

/// Skill review prompt builder
pub struct SkillReviewPrompt;

/// The review prompt's text before the trigger.
pub open spec fn review_head() -> Seq<char> {
    r#"Review the conversation and consider creating or updating a skill.

**Trigger**: "#@
}

/// The review prompt's text between the trigger and the summary.
pub open spec fn review_middle() -> Seq<char> {
    r#"
**Context**: "#@
}

/// The review prompt's text after the summary.
pub open spec fn review_tail() -> Seq<char> {
    r#"

## Guidelines

1. **Create** a new skill if:
   - A non-trivial workflow was discovered
   - An approach required trial and error
   - The user expressed desire to "remember this"

2. **Update** an existing skill if:
   - Instructions were stale or wrong
   - OS-specific issues were encountered
   - Missing steps or pitfalls were found

3. **Skip** if nothing is worth saving

## Response Format

If creating/updating a skill, output:
```
SKILL_ACTION: create|update
SKILL_NAME: skill-name
SKILL_REASON: Brief explanation
```

If nothing to save, just say: "Nothing to save."
"#@
}

impl SkillReviewPrompt {
    /// Build the skill review prompt for background analysis.
    pub fn build(trigger: TriggerReason, conversation_summary: &str) -> (r: String)
        ensures
            r@ == review_head() + trigger_context(trigger) + review_middle() + conversation_summary@
                + review_tail(),
    {
        let mut v: Vec<char> = Vec::new();
        push_str(&mut v, r#"Review the conversation and consider creating or updating a skill.

**Trigger**: "#);
        match trigger {
            TriggerReason::IterationCount => push_str(
                &mut v,
                "A complex task was completed after many tool calls.",
            ),
            TriggerReason::ErrorsOvercome => push_str(
                &mut v,
                "The task encountered errors but was eventually completed.",
            ),
            TriggerReason::UserCorrection => push_str(
                &mut v,
                "The user corrected the approach during execution.",
            ),
        }
        push_str(&mut v, r#"
**Context**: "#);
        push_str(&mut v, conversation_summary);
        push_str(&mut v, r#"

## Guidelines

1. **Create** a new skill if:
   - A non-trivial workflow was discovered
   - An approach required trial and error
   - The user expressed desire to "remember this"

2. **Update** an existing skill if:
   - Instructions were stale or wrong
   - OS-specific issues were encountered
   - Missing steps or pitfalls were found

3. **Skip** if nothing is worth saving

## Response Format

If creating/updating a skill, output:
```
SKILL_ACTION: create|update
SKILL_NAME: skill-name
SKILL_REASON: Brief explanation
```

If nothing to save, just say: "Nothing to save."
"#);
        string_of(&v)
    }
}

} // verus!
